use super::hierarchy::{uniquely_linked, HierarchyStorage};
use super::traversal::{acyclic_from, lemma_visit_once, parentless, spec_visit_order, visit_order};
use crate::engine::Entity;
use vstd::prelude::*;

verus! {

/// The panels of `entities` that have a hierarchy component and no parent,
/// in the order of `entities`.
pub open spec fn spec_root_panels(nodes: Map<Entity, (Option<Entity>, Seq<Entity>)>, entities: Seq<Entity>) -> Seq<
    Entity,
>
    decreases entities.len(),
{
    if entities.len() == 0 {
        seq![]
    } else {
        let rest = spec_root_panels(nodes, entities.drop_last());
        let e = entities.last();
        if nodes.contains_key(e) && nodes[e].0 is None {
            rest.push(e)
        } else {
            rest
        }
    }
}

/// The root panels among `entities`: those with a hierarchy component and no
/// parent, in the order of `entities`. Layout starts from them, each in the
/// whole viewport.
pub fn root_panels(hierarchy: &HierarchyStorage, entities: &Vec<Entity>) -> (roots: Vec<Entity>)
    ensures
        roots@ == spec_root_panels(hierarchy@, entities@),
{
    let mut roots: Vec<Entity> = Vec::new();
    let mut i: usize = 0;
    while i < entities.len()
        invariant
            i <= entities@.len(),
            roots@ == spec_root_panels(hierarchy@, entities@.take(i as int)),
        decreases entities@.len() - i,
    {
        let e = entities[i];
        proof {
            assert(entities@.take(i + 1).drop_last() =~= entities@.take(i as int));
            assert(entities@.take(i + 1).last() == e);
        }
        match hierarchy.get(e) {
            Some(node) => {
                if node.parent().is_none() {
                    roots.push(e);
                }
            },
            None => {},
        }
        i = i + 1;
    }
    proof {
        assert(entities@.take(entities@.len() as int) =~= entities@);
    }
    roots
}

/// The order in which the layout pass computes the panels' rectangles: the
/// root panels among `entities` are stacked in their order, and each step
/// pops a panel, lays it out within the rectangle of the panel that pushed
/// it (or the viewport) and pushes its children.
///
/// The hierarchy below the root panels must be free of cycles, or the pass
/// would never end.
pub fn layout_order(hierarchy: &HierarchyStorage, entities: &Vec<Entity>) -> (order: Vec<Entity>)
    requires
        acyclic_from(hierarchy@, spec_root_panels(hierarchy@, entities@)),
    ensures
        order@ == spec_visit_order(hierarchy@, spec_root_panels(hierarchy@, entities@)),
{
    let roots = root_panels(hierarchy, entities);
    visit_order(hierarchy, &roots)
}

/// The root panels are panels of `entities` without a parent, and are
/// distinct when `entities` are.
proof fn lemma_root_panels(nodes: Map<Entity, (Option<Entity>, Seq<Entity>)>, entities: Seq<Entity>)
    ensures
        forall|i: int|
            0 <= i < spec_root_panels(nodes, entities).len() ==> entities.contains(
                #[trigger] spec_root_panels(nodes, entities)[i],
            ) && parentless(nodes, spec_root_panels(nodes, entities)[i]),
        entities.no_duplicates() ==> spec_root_panels(nodes, entities).no_duplicates(),
    decreases entities.len(),
{
    if entities.len() > 0 {
        let front = entities.drop_last();
        let rest = spec_root_panels(nodes, front);
        lemma_root_panels(nodes, front);
        let roots = spec_root_panels(nodes, entities);
        assert forall|i: int| 0 <= i < roots.len() implies entities.contains(#[trigger] roots[i]) && parentless(
            nodes,
            roots[i],
        ) by {
            if i < rest.len() {
                assert(roots[i] == rest[i]);
                let k = choose|k: int| 0 <= k < front.len() && front[k] == rest[i];
                assert(entities[k] == front[k]);
            } else {
                assert(roots[i] == entities[entities.len() - 1]);
            }
        }
        if entities.no_duplicates() {
            assert(front.no_duplicates()) by {
                assert forall|a: int, b: int| 0 <= a < b < front.len() implies front[a] != front[b] by {
                    assert(front[a] == entities[a] && front[b] == entities[b]);
                }
            }
            let e = entities.last();
            if nodes.contains_key(e) && nodes[e].0 is None {
                assert forall|a: int| 0 <= a < rest.len() implies rest[a] != e by {
                    let k = choose|k: int| 0 <= k < front.len() && front[k] == rest[a];
                    assert(entities[k] == front[k]);
                }
                assert forall|a: int, b: int| 0 <= a < b < roots.len() implies roots[a] != roots[b] by {
                    if b < rest.len() {
                        assert(roots[a] == rest[a] && roots[b] == rest[b]);
                    } else {
                        assert(roots[a] == rest[a]);
                    }
                }
            }
        }
    }
}

/// In a hierarchy where every child is listed once, by its parent alone, the
/// layout pass over distinct entities lays out each panel it reaches exactly
/// once.
pub proof fn lemma_layout_once(nodes: Map<Entity, (Option<Entity>, Seq<Entity>)>, entities: Seq<Entity>)
    requires
        acyclic_from(nodes, spec_root_panels(nodes, entities)),
        uniquely_linked(nodes),
        entities.no_duplicates(),
    ensures
        spec_visit_order(nodes, spec_root_panels(nodes, entities)).no_duplicates(),
{
    lemma_root_panels(nodes, entities);
    lemma_visit_once(nodes, spec_root_panels(nodes, entities));
}

} // verus!
