//! Stage objects: entities with a physical presence on the stage, each made
//! from a template that lists its animations.
use crate::engine::{self, Context, StorageKind};
use vstd::prelude::*;

mod animation;
mod template;

pub use self::animation::Animation;
pub use self::template::find_animation;

verus! {

/// Registers the object component storage.
pub fn init(ctx: &mut Context)
    ensures
        final(ctx).storages@ == engine::spec_add_storage(old(ctx).storages@, StorageKind::Object),
        final(ctx).systems@ == old(ctx).systems@,
        final(ctx).driven@ == old(ctx).driven@,
        final(ctx).resources@ == old(ctx).resources@,
        old(ctx).wf() ==> final(ctx).wf(),
{
    engine::add_storage(ctx, StorageKind::Object);
}

} // verus!
