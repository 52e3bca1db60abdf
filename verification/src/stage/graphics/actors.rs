use crate::engine::{self, Context, SystemKind};
use crate::stage::actors::Mode;
use vstd::prelude::*;

verus! {

/// System that changes the animation of an actor's object to the one that
/// the actor's template gives for its current mode.
#[derive(Clone, Copy, Debug, Default)]
pub struct Animator;

/// The animation to switch an actor's object to, if any.
///
/// `mode_animations` lists the animation of each mode. When the object's
/// current animation already is the mode's animation, nothing changes
/// (`None`); otherwise the object switches to it and starts over from its
/// first frame.
pub fn animation_for_mode(mode_animations: &Vec<usize>, mode: Mode, current: usize) -> (switch_to:
    Option<usize>)
    requires
        mode.spec_index() < mode_animations@.len(),
    ensures
        switch_to == (if mode_animations@[mode.spec_index() as int] == current {
            None
        } else {
            Some(mode_animations@[mode.spec_index() as int])
        }),
{
    let index: usize = mode_animations[mode.index()];
    if index != current {
        Some(index)
    } else {
        None
    }
}

/// Name under which the actor animator system is registered.
pub open spec fn animator_name() -> Seq<char> {
    "stage::visuals::actors::Animator"@
}

/// Registers the actor animator system.
pub fn init(ctx: &mut Context)
    requires
        !old(ctx).has_system_named(animator_name()),
    ensures
        final(ctx).systems@.len() == old(ctx).systems@.len() + 1,
        final(ctx).systems@.drop_last() == old(ctx).systems@,
        final(ctx).systems@.last().kind == SystemKind::ActorAnimator,
        final(ctx).systems@.last().name@ == animator_name(),
        final(ctx).storages@ == old(ctx).storages@,
        final(ctx).driven@ == old(ctx).driven@,
        final(ctx).resources@ == old(ctx).resources@,
        old(ctx).wf() ==> final(ctx).wf(),
{
    engine::add_system(ctx, SystemKind::ActorAnimator, "stage::visuals::actors::Animator", &[]);
}

} // verus!
