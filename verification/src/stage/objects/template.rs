use super::Animation;
use vstd::prelude::*;

verus! {

/// Finds the index of the first animation named `name` in a template's list
/// of animations.
///
/// Returns `0` if no animation has that name.
pub fn find_animation<F>(animations: &Vec<Animation<F>>, name: &str) -> (index: usize)
    ensures
        (exists|j: int| 0 <= j < animations@.len() && animations@[j].name@ == name@) ==> {
            &&& index < animations@.len()
            &&& animations@[index as int].name@ == name@
            &&& forall|j: int| 0 <= j < index ==> animations@[j].name@ != name@
        },
        !(exists|j: int| 0 <= j < animations@.len() && animations@[j].name@ == name@) ==> index
            == 0,
{
    let target = name.to_owned();
    let mut i: usize = 0;
    while i < animations.len()
        invariant
            i <= animations@.len(),
            target@ == name@,
            forall|j: int| 0 <= j < i ==> animations@[j].name@ != name@,
        decreases animations@.len() - i,
    {
        if animations[i].name == target {
            return i;
        }
        i = i + 1;
    }
    0
}

} // verus!
