use super::drawing::draw_step;
use super::hierarchy::{consistent, uniquely_linked, HierarchyStorage};
use crate::engine::Entity;
use vstd::prelude::*;

verus! {

/// The children of panel `e`, in the order they were added: none when it has
/// no hierarchy component.
pub open spec fn children_of(nodes: Map<Entity, (Option<Entity>, Seq<Entity>)>, e: Entity) -> Seq<Entity> {
    if nodes.contains_key(e) {
        nodes[e].1
    } else {
        Seq::empty()
    }
}

/// Whether `rank` falls from every panel of `within` to each of its
/// children, which belong to `within` as well: below the panels of `within`
/// the hierarchy has no cycle.
pub open spec fn ranked(
    nodes: Map<Entity, (Option<Entity>, Seq<Entity>)>,
    rank: spec_fn(Entity) -> nat,
    within: Set<Entity>,
) -> bool {
    forall|e: Entity, i: int|
        #![trigger within.contains(e), children_of(nodes, e)[i]]
        within.contains(e) && 0 <= i < children_of(nodes, e).len() ==> within.contains(
            children_of(nodes, e)[i],
        ) && rank(children_of(nodes, e)[i]) < rank(e)
}

/// Whether the panels of `start` lie in a part of the hierarchy without
/// cycles, so that visiting them and their descendants comes to an end.
pub open spec fn acyclic_from(nodes: Map<Entity, (Option<Entity>, Seq<Entity>)>, start: Seq<Entity>) -> bool {
    exists|rank: spec_fn(Entity) -> nat, within: Set<Entity>|
        #![trigger ranked(nodes, rank, within)]
        ranked(nodes, rank, within) && forall|i: int| 0 <= i < start.len() ==> within.contains(start[i])
}

/// The panels visited from panel `e`: `e` itself, then the panels visited
/// from its children, taken as a stack (its last child first). Children whose
/// rank is not below `e`'s are left out; in a ranked part of the hierarchy
/// there are none.
pub open spec fn spec_subtree(
    nodes: Map<Entity, (Option<Entity>, Seq<Entity>)>,
    rank: spec_fn(Entity) -> nat,
    e: Entity,
) -> Seq<Entity>
    decreases rank(e) + 1, 0nat,
{
    seq![e] + spec_ranked_stack(nodes, rank, children_of(nodes, e), rank(e))
}

/// The panels visited from a stack of panels whose ranks are below `bound`.
pub open spec fn spec_ranked_stack(
    nodes: Map<Entity, (Option<Entity>, Seq<Entity>)>,
    rank: spec_fn(Entity) -> nat,
    stack: Seq<Entity>,
    bound: nat,
) -> Seq<Entity>
    decreases bound, stack.len(),
{
    if stack.len() == 0 {
        seq![]
    } else if rank(stack.last()) < bound {
        spec_subtree(nodes, rank, stack.last()) + spec_ranked_stack(nodes, rank, stack.drop_last(), bound)
    } else {
        seq![]
    }
}

/// The panels visited from a stack of panels: the panels visited from its
/// top (its last panel) first, then those visited from the rest.
pub open spec fn spec_forest(
    nodes: Map<Entity, (Option<Entity>, Seq<Entity>)>,
    rank: spec_fn(Entity) -> nat,
    stack: Seq<Entity>,
) -> Seq<Entity>
    decreases stack.len(),
{
    if stack.len() == 0 {
        seq![]
    } else {
        spec_subtree(nodes, rank, stack.last()) + spec_forest(nodes, rank, stack.drop_last())
    }
}

/// A ranking under which the panels of `start` can be visited.
pub open spec fn visit_ranking(nodes: Map<Entity, (Option<Entity>, Seq<Entity>)>, start: Seq<Entity>) -> (
    spec_fn(Entity) -> nat,
    Set<Entity>,
) {
    choose|rank: spec_fn(Entity) -> nat, within: Set<Entity>|
        #![trigger ranked(nodes, rank, within)]
        ranked(nodes, rank, within) && forall|i: int| 0 <= i < start.len() ==> within.contains(start[i])
}

/// The order in which the panels reachable from the stack `start` are
/// visited.
pub open spec fn spec_visit_order(nodes: Map<Entity, (Option<Entity>, Seq<Entity>)>, start: Seq<Entity>) -> Seq<
    Entity,
> {
    spec_forest(nodes, visit_ranking(nodes, start).0, start)
}

/// Below the bound, the ranked stack visits what the plain stack visits.
proof fn lemma_ranked_stack(
    nodes: Map<Entity, (Option<Entity>, Seq<Entity>)>,
    rank: spec_fn(Entity) -> nat,
    stack: Seq<Entity>,
    bound: nat,
)
    requires
        forall|i: int| 0 <= i < stack.len() ==> rank(#[trigger] stack[i]) < bound,
    ensures
        spec_ranked_stack(nodes, rank, stack, bound) == spec_forest(nodes, rank, stack),
    decreases stack.len(),
{
    if stack.len() > 0 {
        let rest = stack.drop_last();
        assert(rank(stack[stack.len() - 1]) < bound);
        assert forall|i: int| 0 <= i < rest.len() implies rank(#[trigger] rest[i]) < bound by {
            assert(rest[i] == stack[i]);
        }
        lemma_ranked_stack(nodes, rank, rest, bound);
    }
}

/// In a ranked part of the hierarchy, a panel is visited first, then the
/// panels visited from its children, taken as a stack.
proof fn lemma_subtree_unfold(
    nodes: Map<Entity, (Option<Entity>, Seq<Entity>)>,
    rank: spec_fn(Entity) -> nat,
    within: Set<Entity>,
    e: Entity,
)
    requires
        ranked(nodes, rank, within),
        within.contains(e),
    ensures
        spec_subtree(nodes, rank, e) == seq![e] + spec_forest(nodes, rank, children_of(nodes, e)),
{
    let ch = children_of(nodes, e);
    assert forall|i: int| 0 <= i < ch.len() implies rank(#[trigger] ch[i]) < rank(e) by {
        assert(within.contains(e));
    }
    lemma_ranked_stack(nodes, rank, ch, rank(e));
}

/// Visiting a stack `a + b` visits the panels from `b` (on top) first, then
/// those from `a`.
proof fn lemma_forest_append(
    nodes: Map<Entity, (Option<Entity>, Seq<Entity>)>,
    rank: spec_fn(Entity) -> nat,
    a: Seq<Entity>,
    b: Seq<Entity>,
)
    ensures
        spec_forest(nodes, rank, a + b) == spec_forest(nodes, rank, b) + spec_forest(nodes, rank, a),
    decreases b.len(),
{
    if b.len() == 0 {
        assert(a + b =~= a);
        assert(spec_forest(nodes, rank, b) + spec_forest(nodes, rank, a) =~= spec_forest(nodes, rank, a));
    } else {
        let ab = a + b;
        assert(ab.last() == b.last());
        assert(ab.drop_last() =~= a + b.drop_last());
        lemma_forest_append(nodes, rank, a, b.drop_last());
        assert(spec_forest(nodes, rank, ab) =~= spec_subtree(nodes, rank, b.last()) + (spec_forest(
            nodes,
            rank,
            b.drop_last(),
        ) + spec_forest(nodes, rank, a)));
    }
}

/// Two rankings of the part of the hierarchy below `e` visit the same
/// panels from `e`, in the same order.
proof fn lemma_subtree_any_ranking(
    nodes: Map<Entity, (Option<Entity>, Seq<Entity>)>,
    rank: spec_fn(Entity) -> nat,
    within: Set<Entity>,
    rank2: spec_fn(Entity) -> nat,
    within2: Set<Entity>,
    e: Entity,
)
    requires
        ranked(nodes, rank, within),
        ranked(nodes, rank2, within2),
        within.contains(e),
        within2.contains(e),
    ensures
        spec_subtree(nodes, rank, e) == spec_subtree(nodes, rank2, e),
    decreases rank(e),
{
    lemma_subtree_unfold(nodes, rank, within, e);
    lemma_subtree_unfold(nodes, rank2, within2, e);
    let ch = children_of(nodes, e);
    assert forall|i: int| 0 <= i < ch.len() implies spec_subtree(nodes, rank, #[trigger] ch[i]) == spec_subtree(
        nodes,
        rank2,
        ch[i],
    ) by {
        assert(within.contains(ch[i]) && rank(ch[i]) < rank(e));
        assert(within2.contains(ch[i]));
        lemma_subtree_any_ranking(nodes, rank, within, rank2, within2, ch[i]);
    }
    lemma_forest_same(nodes, rank, rank2, ch);
}

/// Stacks whose panels' subtrees agree under two rankings are visited alike.
proof fn lemma_forest_same(
    nodes: Map<Entity, (Option<Entity>, Seq<Entity>)>,
    rank: spec_fn(Entity) -> nat,
    rank2: spec_fn(Entity) -> nat,
    stack: Seq<Entity>,
)
    requires
        forall|i: int|
            0 <= i < stack.len() ==> spec_subtree(nodes, rank, #[trigger] stack[i]) == spec_subtree(
                nodes,
                rank2,
                stack[i],
            ),
    ensures
        spec_forest(nodes, rank, stack) == spec_forest(nodes, rank2, stack),
    decreases stack.len(),
{
    if stack.len() > 0 {
        let rest = stack.drop_last();
        assert(spec_subtree(nodes, rank, stack[stack.len() - 1]) == spec_subtree(nodes, rank2, stack[stack.len() - 1]));
        assert forall|i: int| 0 <= i < rest.len() implies spec_subtree(nodes, rank, #[trigger] rest[i]) == spec_subtree(
            nodes,
            rank2,
            rest[i],
        ) by {
            assert(rest[i] == stack[i]);
        }
        lemma_forest_same(nodes, rank, rank2, rest);
    }
}

/// The visiting order does not depend on the ranking that shows the
/// hierarchy free of cycles: any such ranking gives it.
pub proof fn lemma_visit_order_any_ranking(
    nodes: Map<Entity, (Option<Entity>, Seq<Entity>)>,
    start: Seq<Entity>,
    rank: spec_fn(Entity) -> nat,
    within: Set<Entity>,
)
    requires
        ranked(nodes, rank, within),
        forall|i: int| 0 <= i < start.len() ==> within.contains(#[trigger] start[i]),
    ensures
        spec_visit_order(nodes, start) == spec_forest(nodes, rank, start),
{
    let (rank0, within0) = visit_ranking(nodes, start);
    assert forall|i: int| 0 <= i < start.len() implies spec_subtree(nodes, rank0, #[trigger] start[i]) == spec_subtree(
        nodes,
        rank,
        start[i],
    ) by {
        lemma_subtree_any_ranking(nodes, rank0, within0, rank, within, start[i]);
    }
    lemma_forest_same(nodes, rank0, rank, start);
}

/// A panel is visited from a stack exactly when it is visited from one of
/// the stack's panels.
proof fn lemma_forest_contains(
    nodes: Map<Entity, (Option<Entity>, Seq<Entity>)>,
    rank: spec_fn(Entity) -> nat,
    stack: Seq<Entity>,
    x: Entity,
)
    ensures
        spec_forest(nodes, rank, stack).contains(x) <==> exists|i: int|
            0 <= i < stack.len() && #[trigger] spec_subtree(nodes, rank, stack[i]).contains(x),
    decreases stack.len(),
{
    if stack.len() > 0 {
        let rest = stack.drop_last();
        let top = spec_subtree(nodes, rank, stack.last());
        lemma_forest_contains(nodes, rank, rest, x);
        vstd::seq_lib::lemma_seq_concat_contains_all_elements(top, spec_forest(nodes, rank, rest), x);
        if spec_forest(nodes, rank, stack).contains(x) {
            if top.contains(x) {
                assert(spec_subtree(nodes, rank, stack[stack.len() - 1]).contains(x));
            } else {
                let i = choose|i: int| 0 <= i < rest.len() && #[trigger] spec_subtree(nodes, rank, rest[i]).contains(x);
                assert(rest[i] == stack[i]);
            }
        }
        if exists|i: int| 0 <= i < stack.len() && #[trigger] spec_subtree(nodes, rank, stack[i]).contains(x) {
            let i = choose|i: int| 0 <= i < stack.len() && #[trigger] spec_subtree(nodes, rank, stack[i]).contains(x);
            if i < rest.len() {
                assert(rest[i] == stack[i]);
            }
        }
    }
}

/// A panel visited from `e` lies in the ranked part, with a rank at most
/// `e`'s; unless it is `e`, it is the child of a panel visited from `e`, of
/// higher rank.
proof fn lemma_subtree_member(
    nodes: Map<Entity, (Option<Entity>, Seq<Entity>)>,
    rank: spec_fn(Entity) -> nat,
    within: Set<Entity>,
    e: Entity,
    x: Entity,
)
    requires
        ranked(nodes, rank, within),
        within.contains(e),
        spec_subtree(nodes, rank, e).contains(x),
    ensures
        within.contains(x),
        rank(x) <= rank(e),
        x != e ==> exists|p: Entity|
            #![trigger children_of(nodes, p).contains(x)]
            spec_subtree(nodes, rank, e).contains(p) && within.contains(p) && children_of(
                nodes,
                p,
            ).contains(x) && rank(x) < rank(p),
    decreases rank(e),
{
    lemma_subtree_unfold(nodes, rank, within, e);
    let ch = children_of(nodes, e);
    let below = spec_forest(nodes, rank, ch);
    vstd::seq_lib::lemma_seq_concat_contains_all_elements(seq![e], below, x);
    if x != e {
        assert(below.contains(x));
        lemma_forest_contains(nodes, rank, ch, x);
        let i = choose|i: int| 0 <= i < ch.len() && #[trigger] spec_subtree(nodes, rank, ch[i]).contains(x);
        let c = ch[i];
        assert(within.contains(c) && rank(c) < rank(e));
        lemma_subtree_member(nodes, rank, within, c, x);
        lemma_subtree_within(nodes, rank, within, e, i);
        if x == c {
            assert(ch[i] == c);
            assert(spec_subtree(nodes, rank, e)[0] == e);
            assert(spec_subtree(nodes, rank, e).contains(e));
            assert(children_of(nodes, e).contains(x));
        } else {
            let p = choose|p: Entity|
                #![trigger children_of(nodes, p).contains(x)]
                spec_subtree(nodes, rank, c).contains(p) && within.contains(p) && children_of(nodes, p).contains(x)
                    && rank(x) < rank(p);
            assert(spec_subtree(nodes, rank, e).contains(p));
            assert(children_of(nodes, p).contains(x));
        }
    }
}

/// The panels visited from a child of `e` are visited from `e`.
proof fn lemma_subtree_within(
    nodes: Map<Entity, (Option<Entity>, Seq<Entity>)>,
    rank: spec_fn(Entity) -> nat,
    within: Set<Entity>,
    e: Entity,
    i: int,
)
    requires
        ranked(nodes, rank, within),
        within.contains(e),
        0 <= i < children_of(nodes, e).len(),
    ensures
        forall|y: Entity|
            spec_subtree(nodes, rank, children_of(nodes, e)[i]).contains(y) ==> #[trigger] spec_subtree(
                nodes,
                rank,
                e,
            ).contains(y),
{
    lemma_subtree_unfold(nodes, rank, within, e);
    let ch = children_of(nodes, e);
    assert forall|y: Entity|
        spec_subtree(nodes, rank, ch[i]).contains(y) implies #[trigger] spec_subtree(nodes, rank, e).contains(y) by {
        lemma_forest_contains(nodes, rank, ch, y);
        vstd::seq_lib::lemma_seq_concat_contains_all_elements(seq![e], spec_forest(nodes, rank, ch), y);
    }
}

/// In a consistent hierarchy, a panel visited from both `a` and `b` shows
/// that one of the two is visited from the other: the chain of parents above
/// a panel is unique.
proof fn lemma_shared_descendant(
    nodes: Map<Entity, (Option<Entity>, Seq<Entity>)>,
    rank: spec_fn(Entity) -> nat,
    within: Set<Entity>,
    a: Entity,
    b: Entity,
    x: Entity,
)
    requires
        ranked(nodes, rank, within),
        consistent(nodes),
        within.contains(a),
        within.contains(b),
        spec_subtree(nodes, rank, a).contains(x),
        spec_subtree(nodes, rank, b).contains(x),
    ensures
        spec_subtree(nodes, rank, b).contains(a) || spec_subtree(nodes, rank, a).contains(b),
    decreases rank(a) - rank(x),
{
    lemma_subtree_member(nodes, rank, within, a, x);
    lemma_subtree_member(nodes, rank, within, b, x);
    if x != a && x != b {
        let p = choose|p: Entity|
            #![trigger children_of(nodes, p).contains(x)]
            spec_subtree(nodes, rank, a).contains(p) && within.contains(p) && children_of(nodes, p).contains(x)
                && rank(x) < rank(p);
        let q = choose|q: Entity|
            #![trigger children_of(nodes, q).contains(x)]
            spec_subtree(nodes, rank, b).contains(q) && within.contains(q) && children_of(nodes, q).contains(x)
                && rank(x) < rank(q);
        assert(nodes.contains_key(p) && nodes[p].1.contains(x));
        assert(nodes.contains_key(q) && nodes[q].1.contains(x));
        assert(p == q);
        lemma_subtree_member(nodes, rank, within, a, p);
        lemma_shared_descendant(nodes, rank, within, a, b, p);
    }
}

/// Visiting a stack of panels visits no panel twice when no panel is visited
/// twice from one of them, and none of them is visited from another.
proof fn lemma_forest_once(
    nodes: Map<Entity, (Option<Entity>, Seq<Entity>)>,
    rank: spec_fn(Entity) -> nat,
    within: Set<Entity>,
    cs: Seq<Entity>,
)
    requires
        ranked(nodes, rank, within),
        consistent(nodes),
        forall|i: int| 0 <= i < cs.len() ==> within.contains(#[trigger] cs[i]),
        forall|i: int| 0 <= i < cs.len() ==> (#[trigger] spec_subtree(nodes, rank, cs[i])).no_duplicates(),
        forall|i: int, j: int|
            0 <= i < cs.len() && 0 <= j < cs.len() && i != j ==> !(#[trigger] spec_subtree(nodes, rank, cs[j])).contains(
                #[trigger] cs[i],
            ),
    ensures
        spec_forest(nodes, rank, cs).no_duplicates(),
    decreases cs.len(),
{
    if cs.len() > 0 {
        let n: int = cs.len() - 1;
        let rest = cs.drop_last();
        assert forall|i: int| 0 <= i < rest.len() implies within.contains(#[trigger] rest[i]) by {
            assert(rest[i] == cs[i]);
        }
        assert forall|i: int| 0 <= i < rest.len() implies (#[trigger] spec_subtree(nodes, rank, rest[i])).no_duplicates() by {
            assert(rest[i] == cs[i]);
        }
        assert forall|i: int, j: int|
            0 <= i < rest.len() && 0 <= j < rest.len() && i != j implies !(#[trigger] spec_subtree(
                nodes,
                rank,
                rest[j],
            )).contains(#[trigger] rest[i]) by {
            assert(rest[i] == cs[i] && rest[j] == cs[j]);
        }
        lemma_forest_once(nodes, rank, within, rest);
        let top = spec_subtree(nodes, rank, cs[n]);
        let below = spec_forest(nodes, rank, rest);
        assert forall|i: int, j: int| 0 <= i < top.len() && 0 <= j < below.len() implies top[i] != below[j] by {
            if top[i] == below[j] {
                let x = below[j];
                assert(below.contains(x));
                assert(top.contains(x));
                lemma_forest_contains(nodes, rank, rest, x);
                let k = choose|k: int| 0 <= k < rest.len() && #[trigger] spec_subtree(nodes, rank, rest[k]).contains(x);
                assert(rest[k] == cs[k]);
                assert(within.contains(cs[k]));
                assert(within.contains(cs[n]));
                lemma_shared_descendant(nodes, rank, within, cs[n], cs[k], x);
                assert(!spec_subtree(nodes, rank, cs[k]).contains(cs[n]));
                assert(!spec_subtree(nodes, rank, cs[n]).contains(cs[k]));
            }
        }
        vstd::seq_lib::lemma_no_dup_in_concat(top, below);
    }
}

/// In a hierarchy whose children are each listed once, by their parent
/// alone, no panel is visited twice from a panel.
proof fn lemma_subtree_once(
    nodes: Map<Entity, (Option<Entity>, Seq<Entity>)>,
    rank: spec_fn(Entity) -> nat,
    within: Set<Entity>,
    e: Entity,
)
    requires
        ranked(nodes, rank, within),
        uniquely_linked(nodes),
        within.contains(e),
    ensures
        spec_subtree(nodes, rank, e).no_duplicates(),
    decreases rank(e),
{
    lemma_subtree_unfold(nodes, rank, within, e);
    let ch = children_of(nodes, e);
    assert(ch.no_duplicates()) by {
        if nodes.contains_key(e) {
            assert(nodes[e].1.no_duplicates());
        }
    }
    assert forall|i: int| 0 <= i < ch.len() implies within.contains(#[trigger] ch[i]) by {
        assert(within.contains(e));
    }
    assert forall|i: int| 0 <= i < ch.len() implies (#[trigger] spec_subtree(nodes, rank, ch[i])).no_duplicates() by {
        assert(within.contains(ch[i]) && rank(ch[i]) < rank(e));
        lemma_subtree_once(nodes, rank, within, ch[i]);
    }
    assert forall|i: int, j: int|
        0 <= i < ch.len() && 0 <= j < ch.len() && i != j implies !(#[trigger] spec_subtree(nodes, rank, ch[j])).contains(
            #[trigger] ch[i],
        ) by {
        if spec_subtree(nodes, rank, ch[j]).contains(ch[i]) {
            let c = ch[i];
            assert(within.contains(ch[j]) && rank(ch[j]) < rank(e));
            assert(c != ch[j]);
            lemma_subtree_member(nodes, rank, within, ch[j], c);
            let p = choose|p: Entity|
                #![trigger children_of(nodes, p).contains(c)]
                spec_subtree(nodes, rank, ch[j]).contains(p) && within.contains(p) && children_of(nodes, p).contains(
                    c,
                ) && rank(c) < rank(p);
            assert(nodes.contains_key(p) && nodes[p].1.contains(c));
            assert(ch.contains(c));
            assert(nodes.contains_key(e) && nodes[e].1.contains(c));
            assert(p == e);
            lemma_subtree_member(nodes, rank, within, ch[j], p);
        }
    }
    lemma_forest_once(nodes, rank, within, ch);
    let below = spec_forest(nodes, rank, ch);
    assert forall|i: int, j: int| 0 <= i < 1 && 0 <= j < below.len() implies seq![e][i] != below[j] by {
        let x = below[j];
        assert(below.contains(x));
        lemma_forest_contains(nodes, rank, ch, x);
        let k = choose|k: int| 0 <= k < ch.len() && #[trigger] spec_subtree(nodes, rank, ch[k]).contains(x);
        assert(within.contains(ch[k]) && rank(ch[k]) < rank(e));
        lemma_subtree_member(nodes, rank, within, ch[k], x);
    }
    vstd::seq_lib::lemma_no_dup_in_concat(seq![e], below);
}

/// Whatever is visited from `e` has its children visited from `e` too.
proof fn lemma_subtree_closed(
    nodes: Map<Entity, (Option<Entity>, Seq<Entity>)>,
    rank: spec_fn(Entity) -> nat,
    within: Set<Entity>,
    e: Entity,
    x: Entity,
    c: Entity,
)
    requires
        ranked(nodes, rank, within),
        within.contains(e),
        spec_subtree(nodes, rank, e).contains(x),
        children_of(nodes, x).contains(c),
    ensures
        spec_subtree(nodes, rank, e).contains(c),
    decreases rank(e),
{
    lemma_subtree_unfold(nodes, rank, within, e);
    let ch = children_of(nodes, e);
    if x == e {
        let k = choose|k: int| 0 <= k < ch.len() && ch[k] == c;
        lemma_subtree_unfold(nodes, rank, within, c);
        assert(spec_subtree(nodes, rank, c)[0] == c);
        assert(spec_subtree(nodes, rank, ch[k]).contains(c));
        lemma_subtree_within(nodes, rank, within, e, k);
    } else {
        let below = spec_forest(nodes, rank, ch);
        vstd::seq_lib::lemma_seq_concat_contains_all_elements(seq![e], below, x);
        lemma_forest_contains(nodes, rank, ch, x);
        let k = choose|k: int| 0 <= k < ch.len() && #[trigger] spec_subtree(nodes, rank, ch[k]).contains(x);
        assert(within.contains(ch[k]) && rank(ch[k]) < rank(e));
        lemma_subtree_closed(nodes, rank, within, ch[k], x, c);
        lemma_subtree_within(nodes, rank, within, e, k);
    }
}

/// Visiting from `start` reaches the starting panels and every child of a
/// panel it reaches, and nothing else: each panel it reaches is a starting
/// panel or the child of a panel it reaches.
pub proof fn lemma_visit_reaches(nodes: Map<Entity, (Option<Entity>, Seq<Entity>)>, start: Seq<Entity>)
    requires
        acyclic_from(nodes, start),
    ensures
        forall|i: int| 0 <= i < start.len() ==> spec_visit_order(nodes, start).contains(#[trigger] start[i]),
        forall|e: Entity, c: Entity|
            spec_visit_order(nodes, start).contains(e) && #[trigger] children_of(nodes, e).contains(c)
                ==> spec_visit_order(nodes, start).contains(c),
        forall|x: Entity|
            #[trigger] spec_visit_order(nodes, start).contains(x) ==> start.contains(x) || exists|p: Entity|
                spec_visit_order(nodes, start).contains(p) && #[trigger] children_of(nodes, p).contains(x),
{
    let (rank, within) = visit_ranking(nodes, start);
    let order = spec_visit_order(nodes, start);
    assert forall|i: int| 0 <= i < start.len() implies order.contains(#[trigger] start[i]) by {
        lemma_subtree_unfold(nodes, rank, within, start[i]);
        assert(spec_subtree(nodes, rank, start[i])[0] == start[i]);
        assert(spec_subtree(nodes, rank, start[i]).contains(start[i]));
        lemma_forest_contains(nodes, rank, start, start[i]);
    }
    assert forall|e: Entity, c: Entity|
        order.contains(e) && #[trigger] children_of(nodes, e).contains(c) implies order.contains(c) by {
        lemma_forest_contains(nodes, rank, start, e);
        let k = choose|k: int| 0 <= k < start.len() && #[trigger] spec_subtree(nodes, rank, start[k]).contains(e);
        lemma_subtree_closed(nodes, rank, within, start[k], e, c);
        lemma_forest_contains(nodes, rank, start, c);
    }
    assert forall|x: Entity| #[trigger] order.contains(x) implies start.contains(x) || exists|p: Entity|
        order.contains(p) && #[trigger] children_of(nodes, p).contains(x) by {
        lemma_forest_contains(nodes, rank, start, x);
        let k = choose|k: int| 0 <= k < start.len() && #[trigger] spec_subtree(nodes, rank, start[k]).contains(x);
        lemma_subtree_member(nodes, rank, within, start[k], x);
        if x == start[k] {
            assert(start.contains(x));
        } else {
            let p = choose|p: Entity|
                #![trigger children_of(nodes, p).contains(x)]
                spec_subtree(nodes, rank, start[k]).contains(p) && within.contains(p) && children_of(nodes, p).contains(
                    x,
                ) && rank(x) < rank(p);
            lemma_forest_contains(nodes, rank, start, p);
            assert(order.contains(p));
        }
    }
}

/// Whether panel `e` has no parent.
pub open spec fn parentless(nodes: Map<Entity, (Option<Entity>, Seq<Entity>)>, e: Entity) -> bool {
    !nodes.contains_key(e) || nodes[e].0 is None
}

/// In a hierarchy where every child is listed once, by its parent alone,
/// visiting from one panel, or from distinct panels without parents, visits
/// each panel it reaches exactly once.
pub proof fn lemma_visit_once(nodes: Map<Entity, (Option<Entity>, Seq<Entity>)>, start: Seq<Entity>)
    requires
        acyclic_from(nodes, start),
        uniquely_linked(nodes),
        start.no_duplicates(),
        start.len() == 1 || forall|i: int| 0 <= i < start.len() ==> parentless(nodes, #[trigger] start[i]),
    ensures
        spec_visit_order(nodes, start).no_duplicates(),
{
    let (rank, within) = visit_ranking(nodes, start);
    assert forall|i: int| 0 <= i < start.len() implies (#[trigger] spec_subtree(nodes, rank, start[i])).no_duplicates() by {
        lemma_subtree_once(nodes, rank, within, start[i]);
    }
    assert forall|i: int, j: int|
        0 <= i < start.len() && 0 <= j < start.len() && i != j implies !(#[trigger] spec_subtree(
            nodes,
            rank,
            start[j],
        )).contains(#[trigger] start[i]) by {
        if spec_subtree(nodes, rank, start[j]).contains(start[i]) {
            let c = start[i];
            assert(start.len() != 1);
            assert(parentless(nodes, c));
            lemma_subtree_member(nodes, rank, within, start[j], c);
            let p = choose|p: Entity|
                #![trigger children_of(nodes, p).contains(c)]
                spec_subtree(nodes, rank, start[j]).contains(p) && within.contains(p) && children_of(nodes, p).contains(
                    c,
                ) && rank(c) < rank(p);
            assert(nodes.contains_key(p) && nodes[p].1.contains(c));
        }
    }
    lemma_forest_once(nodes, rank, within, start);
}

/// The order in which panels are visited from the stack `start`: each step
/// pops the panel on top, records it and pushes its children (as
/// `draw_step` does), until the stack is empty.
///
/// The hierarchy below the starting panels must be free of cycles: the
/// stack would otherwise never empty.
pub fn visit_order(hierarchy: &HierarchyStorage, start: &Vec<Entity>) -> (order: Vec<Entity>)
    requires
        acyclic_from(hierarchy@, start@),
    ensures
        order@ == spec_visit_order(hierarchy@, start@),
{
    let ghost nodes = hierarchy@;
    let ghost (rank, within) = visit_ranking(nodes, start@);
    let ghost target = spec_forest(nodes, rank, start@);
    let mut stack: Vec<Entity> = start.clone();
    let mut order: Vec<Entity> = Vec::new();
    proof {
        assert(stack@ =~= start@);
    }
    while stack.len() > 0
        invariant
            nodes == hierarchy@,
            ranked(nodes, rank, within),
            forall|i: int| 0 <= i < stack@.len() ==> within.contains(#[trigger] stack@[i]),
            order@ + spec_forest(nodes, rank, stack@) == target,
        decreases spec_forest(nodes, rank, stack@).len(),
    {
        let ghost before = stack@;
        let ghost e = before.last();
        let ghost rest = before.drop_last();
        assert(within.contains(before[before.len() - 1]));
        let popped = draw_step(hierarchy, &mut stack);
        proof {
            lemma_subtree_unfold(nodes, rank, within, e);
            assert(stack@ == rest + children_of(nodes, e));
            lemma_forest_append(nodes, rank, rest, children_of(nodes, e));
            assert(spec_forest(nodes, rank, before) == seq![e] + spec_forest(nodes, rank, stack@));
            assert forall|i: int| 0 <= i < stack@.len() implies within.contains(#[trigger] stack@[i]) by {
                if i < rest.len() {
                    assert(stack@[i] == before[i]);
                } else {
                    let k: int = i - rest.len();
                    assert(stack@[i] == children_of(nodes, e)[k]);
                }
            }
        }
        match popped {
            Some(p) => {
                order.push(p);
                proof {
                    assert(order@ + spec_forest(nodes, rank, stack@) =~= target);
                }
            },
            None => {},
        }
    }
    proof {
        assert(order@ =~= target);
    }
    order
}

} // verus!
