use vstd::prelude::*;

verus! {

/// Rendering could not begin: no image could be acquired from the swapchain.
#[derive(Clone, Copy, Debug, PartialEq, Eq, Structural)]
pub struct BeginError;

/// The frame state that follows state `current` among `len` states, which
/// are used in turn.
pub fn next_state(current: usize, len: usize) -> (next: usize)
    requires
        len > 0,
        current < usize::MAX,
    ensures
        next == (current + 1) % (len as int),
        next < len,
{
    (current + 1) % len
}

/// The state reached from `current` after `steps` frames.
pub open spec fn spec_advance(current: int, len: int, steps: nat) -> int
    decreases steps,
{
    if steps == 0 {
        current
    } else {
        (spec_advance(current, len, (steps - 1) as nat) + 1) % len
    }
}

/// Frame states are used in turn: after `len` frames the renderer is back at
/// the state it started from, and in between it is at `(current + steps) %
/// len`.
pub proof fn lemma_next_state_cycles(current: int, len: int, steps: nat)
    requires
        len > 0,
        0 <= current < len,
    ensures
        spec_advance(current, len, steps) == (current + steps) % len,
        spec_advance(current, len, len as nat) == current,
    decreases steps,
{
    lemma_advance(current, len, steps);
    lemma_advance(current, len, len as nat);
    vstd::arithmetic::div_mod::lemma_mod_self_0(len);
    vstd::arithmetic::div_mod::lemma_mod_add_multiples_vanish(current, len);
    vstd::arithmetic::div_mod::lemma_small_mod(current as nat, len as nat);
}

proof fn lemma_advance(current: int, len: int, steps: nat)
    requires
        len > 0,
        0 <= current < len,
    ensures
        spec_advance(current, len, steps) == (current + steps) % len,
    decreases steps,
{
    if steps > 0 {
        let prev: nat = (steps - 1) as nat;
        lemma_advance(current, len, prev);
        let x: int = current + prev;
        vstd::arithmetic::div_mod::lemma_add_mod_noop_right(1, x, len);
        assert(spec_advance(current, len, steps) == (spec_advance(current, len, prev) + 1) % len);
        assert(spec_advance(current, len, prev) == x % len);
        assert((x % len + 1) % len == (1 + x) % len);
        assert(x + 1 == current + steps);
    } else {
        vstd::arithmetic::div_mod::lemma_small_mod(current as nat, len as nat);
    }
}

} // verus!
