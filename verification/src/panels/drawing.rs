use super::hierarchy::HierarchyStorage;
use super::traversal::{acyclic_from, spec_visit_order, visit_order};
use crate::engine::Entity;
use vstd::prelude::*;

verus! {

/// Draw layer that draws a hierarchy of panels, starting at its root.
#[derive(Clone, Copy, Debug)]
pub struct PanelLayer {
    /// Root panel entity to draw.
    pub root: Entity,
}

impl PanelLayer {
    /// The panels in the order they are drawn: from a stack that holds the
    /// root, `draw_step` is taken until the stack is empty, and each panel it
    /// pops is drawn (if it has a layout and a style).
    ///
    /// The hierarchy below the root must be free of cycles, or drawing would
    /// never end.
    pub fn draw_order(&self, hierarchy: &HierarchyStorage) -> (order: Vec<Entity>)
        requires
            acyclic_from(hierarchy@, seq![self.root]),
        ensures
            order@ == spec_visit_order(hierarchy@, seq![self.root]),
    {
        let start: Vec<Entity> = vec![self.root];
        proof {
            assert(start@ =~= seq![self.root]);
        }
        visit_order(hierarchy, &start)
    }
}

/// One step of drawing a panel hierarchy.
///
/// Drawing begins with a stack holding the root panel. Each step pops the
/// panel on top, pushes its children (in order) if it has a hierarchy
/// component, and returns the popped panel, which is then drawn if it has a
/// layout and a style. Drawing ends when the stack is empty.
pub fn draw_step(hierarchy: &HierarchyStorage, stack: &mut Vec<Entity>) -> (popped: Option<Entity>)
    ensures
        old(stack)@.len() == 0 ==> popped is None && final(stack)@ == old(stack)@,
        old(stack)@.len() > 0 ==> {
            let e = old(stack)@.last();
            &&& popped == Some(e)
            &&& final(stack)@ == old(stack)@.drop_last() + (if hierarchy@.contains_key(e) {
                hierarchy@[e].1
            } else {
                Seq::<Entity>::empty()
            })
        },
{
    match stack.pop() {
        None => None,
        Some(entity) => {
            let ghost base = stack@;
            match hierarchy.get(entity) {
                Some(node) => {
                    let children = node.children();
                    let mut i: usize = 0;
                    while i < children.len()
                        invariant
                            i <= children@.len(),
                            children@ == hierarchy@[entity].1,
                            stack@ == base + children@.take(i as int),
                        decreases children@.len() - i,
                    {
                        stack.push(children[i]);
                        proof {
                            assert(children@.take(i + 1) =~= children@.take(i as int).push(children@[i as int]));
                            assert(stack@ =~= base + children@.take(i + 1));
                        }
                        i = i + 1;
                    }
                    proof {
                        assert(children@.take(children@.len() as int) =~= children@);
                    }
                },
                None => {
                    proof {
                        assert(stack@ =~= base + Seq::<Entity>::empty());
                    }
                },
            }
            Some(entity)
        },
    }
}

} // verus!
