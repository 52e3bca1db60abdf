use crate::stage::objects::Animation;
use vstd::prelude::*;

verus! {

/// System that animates an object by changing its sprite according to the
/// animation sequences of the object's template.
#[derive(Clone, Copy, Debug, Default)]
pub struct Animator;

/// The frames of animation `animation` in direction `sequence`, if the
/// template has that animation and the animation has frames for that
/// direction.
pub fn get_animation_sequence<F>(animations: &Vec<Animation<F>>, animation: usize, sequence: usize)
    -> (frames: Option<&Vec<F>>)
    ensures
        frames is Some <==> {
            &&& animation < animations@.len()
            &&& sequence < animations@[animation as int].sequences@.len()
            &&& animations@[animation as int].sequences@[sequence as int] is Some
        },
        frames matches Some(f) ==> Some(*f) == animations@[animation as int].sequences@[sequence as int],
{
    if animation < animations.len() {
        let anim = &animations[animation];
        if sequence < anim.sequences.len() {
            match &anim.sequences[sequence] {
                Some(seq) => Some(seq),
                None => None,
            }
        } else {
            None
        }
    } else {
        None
    }
}

/// Brings a frame position that may have run past the end of a sequence of
/// `len` frames back into it, as playing the sequence in a loop would.
pub fn wrap_frame(frame: usize, len: usize) -> (wrapped: usize)
    requires
        len > 0,
    ensures
        wrapped == frame % len,
        wrapped < len,
{
    frame % len
}

} // verus!
