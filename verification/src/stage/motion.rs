use vstd::prelude::*;

verus! {

/// System that moves each entity on the stage by its velocity.
///
/// Positions and velocities are floating-point vectors, so the system's work
/// is done by the application; this type names it.
#[derive(Clone, Copy, Debug, Default)]
pub struct Mover;

} // verus!
