use crate::engine::Entity;
use std::collections::HashMap;
use vstd::prelude::*;

verus! {

broadcast use vstd::std_specs::hash::group_hash_axioms;

/// The place of a panel in the panel hierarchy: its parent, if any, and its
/// children in the order they were added.
#[derive(Clone, Debug, Default)]
pub struct Hierarchy {
    parent: Option<Entity>,
    children: Vec<Entity>,
}

impl View for Hierarchy {
    type V = (Option<Entity>, Seq<Entity>);

    closed spec fn view(&self) -> (Option<Entity>, Seq<Entity>) {
        (self.parent, self.children@)
    }
}

impl Hierarchy {
    /// A panel with no parent and no children.
    pub fn new() -> (h: Hierarchy)
        ensures
            h@ == (None::<Entity>, Seq::<Entity>::empty()),
    {
        Hierarchy { parent: None, children: Vec::new() }
    }

    /// The panel's parent.
    pub fn parent(&self) -> (p: &Option<Entity>)
        ensures
            *p == self@.0,
    {
        &self.parent
    }

    /// The panel's children.
    pub fn children(&self) -> (c: &[Entity])
        ensures
            c@ == self@.1,
    {
        self.children.as_slice()
    }
}

/// Resource that stores the root panel entity.
#[derive(Clone, Copy, Debug, Default)]
pub struct Root {
    pub entity: Option<Entity>,
}

/// The hierarchy components of all panels, by entity.
#[derive(Debug)]
pub struct HierarchyStorage {
    nodes: HashMap<Entity, Hierarchy>,
}

impl View for HierarchyStorage {
    type V = Map<Entity, (Option<Entity>, Seq<Entity>)>;

    closed spec fn view(&self) -> Map<Entity, (Option<Entity>, Seq<Entity>)> {
        self.nodes@.map_values(|h: Hierarchy| h@)
    }
}

impl HierarchyStorage {
    /// A storage with no hierarchy components.
    pub fn new() -> (s: HierarchyStorage)
        ensures
            s@ == Map::<Entity, (Option<Entity>, Seq<Entity>)>::empty(),
    {
        let s = HierarchyStorage { nodes: HashMap::new() };
        proof {
            assert(s@ =~= Map::<Entity, (Option<Entity>, Seq<Entity>)>::empty());
        }
        s
    }

    /// Gives `entity` the hierarchy component `node`, replacing any it had.
    pub fn insert(&mut self, entity: Entity, node: Hierarchy)
        ensures
            final(self)@ == old(self)@.insert(entity, node@),
    {
        self.nodes.insert(entity, node);
        proof {
            assert(self@ =~= old(self)@.insert(entity, node@));
        }
    }

    /// The hierarchy component of `entity`, if it has one.
    pub fn get(&self, entity: Entity) -> (node: Option<&Hierarchy>)
        ensures
            node is Some <==> self@.contains_key(entity),
            node matches Some(n) ==> n@ == self@[entity],
    {
        self.nodes.get(&entity)
    }

    /// Takes the hierarchy component of `entity` out of the storage.
    fn take(&mut self, entity: Entity) -> (node: Option<Hierarchy>)
        ensures
            final(self)@ == old(self)@.remove(entity),
            node is Some <==> old(self)@.contains_key(entity),
            node matches Some(n) ==> n@ == old(self)@[entity],
    {
        let node = self.nodes.remove(&entity);
        proof {
            assert(self@ =~= old(self)@.remove(entity));
        }
        node
    }
}

/// `children` without any occurrence of `child`.
pub open spec fn spec_without(children: Seq<Entity>, child: Entity) -> Seq<Entity>
    decreases children.len(),
{
    if children.len() == 0 {
        seq![]
    } else {
        let rest = spec_without(children.drop_last(), child);
        if children.last() == child {
            rest
        } else {
            rest.push(children.last())
        }
    }
}

/// The hierarchy after `child`'s parent is set to `parent`.
///
/// Nothing changes when `parent` already is the child's parent. Otherwise the
/// child's parent becomes `parent`; a new parent gets the child appended to
/// its children, and when the child is made a root (no parent), its old
/// parent, if it still has a hierarchy component, loses it from its children.
pub open spec fn spec_set_parent(
    nodes: Map<Entity, (Option<Entity>, Seq<Entity>)>,
    child: Entity,
    parent: Option<Entity>,
) -> Map<Entity, (Option<Entity>, Seq<Entity>)> {
    let old_parent = nodes[child].0;
    if parent == old_parent {
        nodes
    } else {
        let reparented = nodes.insert(child, (parent, nodes[child].1));
        match parent {
            Some(p) => reparented.insert(p, (reparented[p].0, reparented[p].1.push(child))),
            None => match old_parent {
                Some(op) => if reparented.contains_key(op) {
                    reparented.insert(op, (reparented[op].0, spec_without(reparented[op].1, child)))
                } else {
                    reparented
                },
                None => reparented,
            },
        }
    }
}

/// Removes every occurrence of `child` from `children`.
fn remove_child(children: &mut Vec<Entity>, child: Entity)
    ensures
        final(children)@ == spec_without(old(children)@, child),
{
    let mut kept: Vec<Entity> = Vec::new();
    let mut i: usize = 0;
    while i < children.len()
        invariant
            i <= children@.len(),
            children@ == old(children)@,
            kept@ == spec_without(children@.take(i as int), child),
        decreases children@.len() - i,
    {
        proof {
            assert(children@.take(i + 1).drop_last() =~= children@.take(i as int));
        }
        if children[i] != child {
            kept.push(children[i]);
        }
        i = i + 1;
    }
    proof {
        assert(children@.take(children@.len() as int) =~= children@);
    }
    *children = kept;
}

/// Sets the parent panel of `child`.
///
/// The child must have a hierarchy component, and so must a new parent.
pub fn set_parent(hierarchy: &mut HierarchyStorage, child: Entity, parent: Option<Entity>)
    requires
        old(hierarchy)@.contains_key(child),
        parent matches Some(p) ==> (parent != old(hierarchy)@[child].0 ==> old(hierarchy)@.contains_key(p)),
    ensures
        final(hierarchy)@ == spec_set_parent(old(hierarchy)@, child, parent),
{
    let ghost nodes = hierarchy@;
    let mut child_node = match hierarchy.take(child) {
        Some(n) => n,
        None => {
            proof {
                assert(false);
            }
            return;
        },
    };
    let old_parent = child_node.parent;
    if parent == old_parent {
        hierarchy.insert(child, child_node);
        proof {
            assert(hierarchy@ =~= nodes);
        }
        return;
    }
    child_node.parent = parent;
    hierarchy.insert(child, child_node);
    let ghost reparented = hierarchy@;
    proof {
        assert(reparented =~= nodes.insert(child, (parent, nodes[child].1)));
    }
    match parent {
        Some(p) => {
            let mut node = match hierarchy.take(p) {
                Some(n) => n,
                None => {
                    proof {
                        assert(false);
                    }
                    return;
                },
            };
            node.children.push(child);
            hierarchy.insert(p, node);
            proof {
                assert(hierarchy@ =~= reparented.insert(p, (reparented[p].0, reparented[p].1.push(child))));
            }
        },
        None => {
            match old_parent {
                Some(op) => {
                    match hierarchy.take(op) {
                        Some(mut node) => {
                            remove_child(&mut node.children, child);
                            hierarchy.insert(op, node);
                            proof {
                                assert(hierarchy@ =~= reparented.insert(
                                    op,
                                    (reparented[op].0, spec_without(reparented[op].1, child)),
                                ));
                            }
                        },
                        None => {
                            proof {
                                assert(hierarchy@ =~= reparented);
                            }
                        },
                    }
                },
                None => {},
            }
        },
    }
}

/// Makes `child` a child of the root panel (or a root itself when there is no
/// root panel).
pub fn add_to_root(root: &Root, hierarchy: &mut HierarchyStorage, child: Entity)
    requires
        old(hierarchy)@.contains_key(child),
        root.entity matches Some(p) ==> (root.entity != old(hierarchy)@[child].0 ==> old(
            hierarchy,
        )@.contains_key(p)),
    ensures
        final(hierarchy)@ == spec_set_parent(old(hierarchy)@, child, root.entity),
{
    set_parent(hierarchy, child, root.entity);
}

/// After its parent is set, a panel has that parent, and a panel given a
/// parent is among that parent's children.
pub proof fn lemma_set_parent_links(
    nodes: Map<Entity, (Option<Entity>, Seq<Entity>)>,
    child: Entity,
    parent: Option<Entity>,
)
    requires
        nodes.contains_key(child),
        parent matches Some(p) ==> nodes.contains_key(p),
        parent matches Some(p) ==> (parent == nodes[child].0 ==> nodes[p].1.contains(child)),
    ensures
        spec_set_parent(nodes, child, parent).contains_key(child),
        spec_set_parent(nodes, child, parent)[child].0 == parent,
        parent matches Some(p) ==> spec_set_parent(nodes, child, parent)[p].1.contains(child),
        spec_set_parent(nodes, child, parent).dom() == nodes.dom(),
{
    let result = spec_set_parent(nodes, child, parent);
    if parent != nodes[child].0 {
        if let Some(p) = parent {
            let reparented = nodes.insert(child, (parent, nodes[child].1));
            assert(result[p].1 == reparented[p].1.push(child));
            assert(result[p].1[result[p].1.len() - 1] == child);
        }
    }
    assert(result.dom() =~= nodes.dom());
}

/// Detaching `child` from a list of children removes every occurrence of it
/// and keeps the other children in their order: the result is the list
/// filtered by "is not `child`".
pub proof fn lemma_without_keeps_order(children: Seq<Entity>, child: Entity)
    ensures
        spec_without(children, child) == children.filter(|c: Entity| c != child),
        !spec_without(children, child).contains(child),
        spec_without(children, child).len() <= children.len(),
    decreases children.len(),
{
    reveal_with_fuel(Seq::filter, 1);
    if children.len() > 0 {
        lemma_without_keeps_order(children.drop_last(), child);
    }
    let f = |c: Entity| c != child;
    assert(spec_without(children, child) =~= children.filter(f));
    children.lemma_filter_len(f);
    lemma_without(children, child, child);
}

/// Detaching `child` keeps the order of the remaining children: position `k`
/// of the result is a child found at position `pos[k]` of the old list, the
/// positions strictly increase, and every old position that is skipped held
/// `child`.
pub proof fn lemma_without_is_subsequence(children: Seq<Entity>, child: Entity)
    ensures
        exists|pos: Seq<int>|
            #![trigger pos.len()]
            pos.len() == spec_without(children, child).len() && (forall|k: int|
                0 <= k < pos.len() ==> 0 <= #[trigger] pos[k] < children.len() && children[pos[k]]
                    == spec_without(children, child)[k]) && (forall|a: int, b: int|
                0 <= a < b < pos.len() ==> #[trigger] pos[a] < #[trigger] pos[b]) && (forall|j: int|
                0 <= j < children.len() && children[j] != child ==> #[trigger] pos.contains(j)),
    decreases children.len(),
{
    if children.len() == 0 {
        let pos = Seq::<int>::empty();
        assert(pos.len() == spec_without(children, child).len());
    } else {
        let front = children.drop_last();
        let n: int = children.len() - 1;
        lemma_without_is_subsequence(front, child);
        let rest = spec_without(front, child);
        let p0 = choose|pos: Seq<int>|
            #![trigger pos.len()]
            pos.len() == rest.len() && (forall|k: int|
                0 <= k < pos.len() ==> 0 <= #[trigger] pos[k] < front.len() && front[pos[k]] == rest[k]) && (
            forall|a: int, b: int| 0 <= a < b < pos.len() ==> #[trigger] pos[a] < #[trigger] pos[b]) && (forall|
                j: int,
            | 0 <= j < front.len() && front[j] != child ==> #[trigger] pos.contains(j));
        if children.last() == child {
            assert(p0.len() == spec_without(children, child).len());
            assert forall|j: int| 0 <= j < children.len() && children[j] != child implies #[trigger] p0.contains(j) by {
                assert(j < n);
                assert(front[j] == children[j]);
            }
        } else {
            let pos = p0.push(n);
            let r = spec_without(children, child);
            assert(r == rest.push(children.last()));
            assert(pos.len() == r.len());
            assert forall|k: int| 0 <= k < pos.len() implies 0 <= #[trigger] pos[k] < children.len() && children[pos[k]]
                == r[k] by {
                if k < p0.len() {
                    assert(pos[k] == p0[k]);
                    assert(front[p0[k]] == children[p0[k]]);
                }
            }
            assert forall|a: int, b: int| 0 <= a < b < pos.len() implies #[trigger] pos[a] < #[trigger] pos[b] by {
                if b < p0.len() {
                    assert(pos[a] == p0[a] && pos[b] == p0[b]);
                } else {
                    assert(pos[a] == p0[a]);
                }
            }
            assert forall|j: int| 0 <= j < children.len() && children[j] != child implies #[trigger] pos.contains(j) by {
                if j == n {
                    assert(pos[pos.len() - 1] == n);
                } else {
                    assert(front[j] == children[j]);
                    assert(p0.contains(j));
                    let k = choose|k: int| 0 <= k < p0.len() && p0[k] == j;
                    assert(pos[k] == j);
                }
            }
        }
    }
}

/// `spec_without` keeps exactly the entries that are not `child`.
proof fn lemma_without(children: Seq<Entity>, child: Entity, e: Entity)
    ensures
        spec_without(children, child).contains(e) <==> (children.contains(e) && e != child),
    decreases children.len(),
{
    broadcast use vstd::seq_lib::group_seq_properties;

    if children.len() > 0 {
        let rest = children.drop_last();
        lemma_without(rest, child, e);
        assert(children =~= rest.push(children.last()));
        if children.contains(e) && e != child && !rest.contains(e) {
            let k: int = choose|k: int| 0 <= k < children.len() && children[k] == e;
            if k < rest.len() {
                assert(rest[k] == e);
            }
        }
        if rest.contains(e) {
            let k: int = choose|k: int| 0 <= k < rest.len() && rest[k] == e;
            assert(children[k] == e);
        }
    }
}

/// Every listed child of a panel has that panel as its parent, and every
/// panel with a parent is listed among the parent's children.
pub open spec fn consistent(nodes: Map<Entity, (Option<Entity>, Seq<Entity>)>) -> bool {
    &&& forall|e: Entity, c: Entity|
        #![trigger nodes[e].1.contains(c)]
        nodes.contains_key(e) && nodes[e].1.contains(c) ==> nodes.contains_key(c) && nodes[c].0 == Some(e)
    &&& forall|c: Entity|
        #![trigger nodes[c].0]
        nodes.contains_key(c) && nodes[c].0 is Some ==> nodes.contains_key(nodes[c].0->0) && nodes[nodes[c].0->0].1.contains(
            c,
        )
}

/// Setting a parent keeps a consistent hierarchy consistent, except when a
/// panel is moved from one parent straight to another: the old parent then
/// still lists it.
pub proof fn lemma_set_parent_keeps_consistency(
    nodes: Map<Entity, (Option<Entity>, Seq<Entity>)>,
    child: Entity,
    parent: Option<Entity>,
)
    requires
        consistent(nodes),
        nodes.contains_key(child),
        parent matches Some(p) ==> nodes.contains_key(p),
        !(nodes[child].0 is Some && parent is Some && nodes[child].0 != parent),
    ensures
        consistent(spec_set_parent(nodes, child, parent)),
{
    let result = spec_set_parent(nodes, child, parent);
    let old_parent = nodes[child].0;
    if parent != old_parent {
        let reparented = nodes.insert(child, (parent, nodes[child].1));
        match parent {
            Some(p) => {
                assert(old_parent is None);
                assert forall|e: Entity, c: Entity|
                    #![trigger result[e].1.contains(c)]
                    result.contains_key(e) && result[e].1.contains(c) implies result.contains_key(c)
                        && result[c].0 == Some(e) by {
                    if e == p {
                        if c != child {
                            assert(result[p].1 == reparented[p].1.push(child));
                            let k: int = choose|k: int| 0 <= k < result[p].1.len() && result[p].1[k] == c;
                            assert(k < reparented[p].1.len());
                            assert(reparented[p].1[k] == c);
                            assert(reparented[p].1.contains(c));
                            if p == child {
                                assert(nodes[child].1.contains(c));
                            } else {
                                assert(nodes[p].1.contains(c));
                            }
                        }
                    } else if e == child {
                        assert(nodes[child].1.contains(c));
                        if c == child {
                            assert(nodes[child].0 == Some(child));
                        }
                    } else {
                        assert(nodes[e].1.contains(c));
                        if c == child {
                            assert(nodes[child].0 == Some(e));
                        }
                    }
                }
                assert forall|c: Entity|
                    #![trigger result[c].0]
                    result.contains_key(c) && result[c].0 is Some implies result.contains_key(result[c].0->0)
                        && result[result[c].0->0].1.contains(c) by {
                    if c == child {
                        assert(result[p].1[result[p].1.len() - 1] == child);
                    } else {
                        let q: Entity = nodes[c].0->0;
                        assert(nodes[c].0 == result[c].0);
                        assert(nodes[q].1.contains(c));
                        if q == p {
                            let k: int = choose|k: int| 0 <= k < nodes[q].1.len() && nodes[q].1[k] == c;
                            assert(result[p].1[k] == c);
                        } else if q == child {
                            assert(result[q].1 == nodes[q].1);
                        }
                    }
                }
            },
            None => {
                let op: Entity = old_parent->0;
                assert(nodes.contains_key(op) && nodes[op].1.contains(child));
                assert forall|e: Entity, c: Entity|
                    #![trigger result[e].1.contains(c)]
                    result.contains_key(e) && result[e].1.contains(c) implies result.contains_key(c)
                        && result[c].0 == Some(e) by {
                    if e == op {
                        lemma_without(reparented[op].1, child, c);
                        if op == child {
                            assert(nodes[child].1.contains(c));
                        } else {
                            assert(nodes[op].1.contains(c));
                        }
                    } else if e == child {
                        assert(nodes[child].1.contains(c));
                    } else {
                        assert(nodes[e].1.contains(c));
                        if c == child {
                            assert(nodes[child].0 == Some(e));
                        }
                    }
                }
                assert forall|c: Entity|
                    #![trigger result[c].0]
                    result.contains_key(c) && result[c].0 is Some implies result.contains_key(result[c].0->0)
                        && result[result[c].0->0].1.contains(c) by {
                    let q: Entity = nodes[c].0->0;
                    assert(c != child);
                    assert(nodes[c].0 == result[c].0);
                    assert(nodes[q].1.contains(c));
                    if q == op {
                        lemma_without(reparented[op].1, child, c);
                        if op == child {
                            assert(reparented[op].1 == nodes[child].1);
                        }
                    } else if q == child {
                        assert(result[q].1 == nodes[q].1);
                    }
                }
            },
        }
    }
}

/// `spec_without` keeps a list free of duplicates.
proof fn lemma_without_unique(children: Seq<Entity>, child: Entity)
    requires
        children.no_duplicates(),
    ensures
        spec_without(children, child).no_duplicates(),
    decreases children.len(),
{
    if children.len() > 0 {
        let rest = children.drop_last();
        assert(rest.no_duplicates());
        lemma_without_unique(rest, child);
        let last = children.last();
        if last != child {
            lemma_without(rest, child, last);
            assert(!rest.contains(last)) by {
                if rest.contains(last) {
                    let k: int = choose|k: int| 0 <= k < rest.len() && rest[k] == last;
                    assert(children[k] == children[children.len() - 1]);
                }
            }
            let w = spec_without(rest, child);
            assert forall|i: int, j: int| 0 <= i < j < w.push(last).len() implies w.push(last)[i] != w.push(
                last,
            )[j] by {
                if j == w.len() {
                    assert(w.contains(w[i]));
                }
            }
        }
    }
}

/// Consistent links in which no panel lists a child twice: each child then
/// appears exactly once, in its parent's children.
pub open spec fn uniquely_linked(nodes: Map<Entity, (Option<Entity>, Seq<Entity>)>) -> bool {
    &&& consistent(nodes)
    &&& forall|e: Entity| #![trigger nodes[e]] nodes.contains_key(e) ==> nodes[e].1.no_duplicates()
}

/// Setting a parent keeps every child listed exactly once in its parent's
/// children, except when a panel is moved from one parent straight to
/// another. A new parent lists the child exactly once; a panel made a root is
/// no longer listed by its old parent.
pub proof fn lemma_set_parent_lists_once(
    nodes: Map<Entity, (Option<Entity>, Seq<Entity>)>,
    child: Entity,
    parent: Option<Entity>,
)
    requires
        uniquely_linked(nodes),
        nodes.contains_key(child),
        parent matches Some(p) ==> nodes.contains_key(p),
        !(nodes[child].0 is Some && parent is Some && nodes[child].0 != parent),
    ensures
        uniquely_linked(spec_set_parent(nodes, child, parent)),
        parent matches Some(p) ==> spec_set_parent(nodes, child, parent)[p].1.contains(child),
        nodes[child].0 matches Some(op) ==> (parent is None ==> !spec_set_parent(nodes, child, parent)[op].1.contains(
            child,
        )),
{
    lemma_set_parent_keeps_consistency(nodes, child, parent);
    lemma_set_parent_links(nodes, child, parent);
    let result = spec_set_parent(nodes, child, parent);
    let old_parent = nodes[child].0;
    if parent != old_parent {
        let reparented = nodes.insert(child, (parent, nodes[child].1));
        match parent {
            Some(p) => {
                assert(!reparented[p].1.contains(child)) by {
                    if reparented[p].1.contains(child) {
                        if p == child {
                            assert(nodes[child].1.contains(child));
                        } else {
                            assert(nodes[p].1.contains(child));
                        }
                    }
                }
                assert(reparented[p].1.no_duplicates());
                let l = reparented[p].1.push(child);
                assert forall|i: int, j: int| 0 <= i < j < l.len() implies l[i] != l[j] by {
                    if j == l.len() - 1 {
                        assert(reparented[p].1.contains(l[i]));
                    }
                }
                assert forall|e: Entity| #![trigger result[e]] result.contains_key(e) implies result[e].1.no_duplicates() by {
                    if e != p && e != child {
                        assert(nodes[e].1 == result[e].1);
                    } else if e == child && e != p {
                        assert(result[e].1 == nodes[child].1);
                    }
                }
            },
            None => {
                let op: Entity = old_parent->0;
                lemma_without_unique(reparented[op].1, child);
                lemma_without(reparented[op].1, child, child);
                assert forall|e: Entity| #![trigger result[e]] result.contains_key(e) implies result[e].1.no_duplicates() by {
                    if e != op && e != child {
                        assert(nodes[e].1 == result[e].1);
                    } else if e == child && e != op {
                        assert(result[e].1 == nodes[child].1);
                    }
                }
            },
        }
    }
}

/// Setting the same parent twice is the same as setting it once.
pub proof fn lemma_set_parent_idempotent(
    nodes: Map<Entity, (Option<Entity>, Seq<Entity>)>,
    child: Entity,
    parent: Option<Entity>,
)
    requires
        nodes.contains_key(child),
    ensures
        spec_set_parent(spec_set_parent(nodes, child, parent), child, parent) == spec_set_parent(
            nodes,
            child,
            parent,
        ),
{
}

} // verus!
