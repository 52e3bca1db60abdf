use crate::engine::Entity;
use vstd::prelude::*;

verus! {

/// State of object drawing.
#[derive(Debug, Default)]
pub struct DrawState {
    /// Entities on the stage that have an object, in order from background
    /// to foreground.
    pub entities: Vec<Entity>,
}

} // verus!
