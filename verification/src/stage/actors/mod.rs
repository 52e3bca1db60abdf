//! Actors: stage objects that act, such as characters.
pub mod driving;

use crate::engine::{self, Context, SystemKind};
use vstd::prelude::*;

verus! {

/// Registers what actors need: driving by input.
pub fn init(ctx: &mut Context)
    requires
        !old(ctx).has_system_named(driving::driver_name()),
    ensures
        final(ctx).storages@ == engine::spec_add_storage(old(ctx).storages@, engine::StorageKind::Driven),
        final(ctx).systems@.len() == old(ctx).systems@.len() + 1,
        final(ctx).systems@.drop_last() == old(ctx).systems@,
        final(ctx).systems@.last().kind == SystemKind::Driver,
        final(ctx).systems@.last().name@ == driving::driver_name(),
        final(ctx).driven@ == old(ctx).driven@,
        final(ctx).resources@ == old(ctx).resources@,
        old(ctx).wf() ==> final(ctx).wf(),
{
    driving::init(ctx);
}

/// What an actor is doing; each mode has an animation in the actor's
/// template.
#[derive(Clone, Copy, Debug, PartialEq, Eq, Structural)]
pub enum Mode {
    Idle,
    Walk,
}

impl Mode {
    /// Position of the mode in a template's list of mode animations.
    pub open spec fn spec_index(self) -> nat {
        match self {
            Mode::Idle => 0,
            Mode::Walk => 1,
        }
    }

    /// Position of the mode in a template's list of mode animations.
    pub fn index(self) -> (i: usize)
        ensures
            i == self.spec_index(),
    {
        match self {
            Mode::Idle => 0,
            Mode::Walk => 1,
        }
    }
}

} // verus!
