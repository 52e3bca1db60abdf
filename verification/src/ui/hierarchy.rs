use crate::engine::Entity;
use vstd::prelude::*;

verus! {

/// Resource holding the root node of the user interface and its nodes in
/// drawing order.
#[derive(Debug, Default)]
pub struct Hierarchy {
    pub root: Option<Entity>,
    pub sorted: Vec<Entity>,
}

/// Component placing an entity in the user-interface hierarchy.
#[derive(Debug, Default)]
pub struct Node {
    parent: Option<Entity>,
    children: Vec<Entity>,
}

impl View for Node {
    type V = (Option<Entity>, Seq<Entity>);

    closed spec fn view(&self) -> (Option<Entity>, Seq<Entity>) {
        (self.parent, self.children@)
    }
}

impl Node {
    /// The node's parent.
    pub fn parent(&self) -> (p: Option<Entity>)
        ensures
            p == self@.0,
    {
        self.parent
    }

    /// The node's children.
    pub fn children(&self) -> (c: &[Entity])
        ensures
            c@ == self@.1,
    {
        self.children.as_slice()
    }
}

/// Makes `node` the root of the user interface.
pub fn set_root(hierarchy: &mut Hierarchy, node: Entity)
    ensures
        final(hierarchy).root == Some(node),
        final(hierarchy).sorted@ == old(hierarchy).sorted@,
{
    hierarchy.root = Some(node);
}

} // verus!
