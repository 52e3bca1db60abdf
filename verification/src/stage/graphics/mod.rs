//! Graphics of the stage: how objects and actors are animated and drawn.
pub mod actors;
pub mod objects;

use crate::engine::{self, Context, ResourceKind, SystemKind};
use vstd::prelude::*;

verus! {

/// Initializes stage graphics: registers the camera resource and the actor
/// animator.
pub fn init(ctx: &mut Context)
    requires
        !old(ctx).has_system_named(actors::animator_name()),
    ensures
        final(ctx).systems@.len() == old(ctx).systems@.len() + 1,
        final(ctx).systems@.drop_last() == old(ctx).systems@,
        final(ctx).systems@.last().kind == SystemKind::ActorAnimator,
        final(ctx).systems@.last().name@ == actors::animator_name(),
        final(ctx).storages@ == old(ctx).storages@,
        final(ctx).driven@ == old(ctx).driven@,
        final(ctx).resources@ == engine::spec_add_resource(old(ctx).resources@, ResourceKind::Camera),
        old(ctx).wf() ==> final(ctx).wf(),
{
    engine::add_resource(ctx, ResourceKind::Camera);
    actors::init(ctx);
}

} // verus!
