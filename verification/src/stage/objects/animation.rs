use vstd::prelude::*;

verus! {

/// An animation of an object: its name and, for each compass direction, an
/// optional sequence of frames.
#[derive(Debug)]
pub struct Animation<F> {
    pub name: String,
    pub sequences: Vec<Option<Vec<F>>>,
}

} // verus!
