//! Walks over a forest of `OutlinerNode`s: the rows shown on screen, lookup
//! by identifier, and the nodes below a node.
//!
//! The spec functions walk at most `depth` levels down. Every node's height
//! bounds the levels below it, so any depth of at least `forest_height`
//! walks the whole forest; the functions here are specified for every such
//! depth.

use vstd::prelude::*;
use crate::state::OutlinerState;
use crate::traits::OutlinerNode;

verus! {

/// One more than the largest height among `nodes`; zero when there are none.
pub open spec fn forest_height<N: OutlinerNode>(nodes: Seq<N>) -> nat
    decreases nodes.len(),
{
    if nodes.len() == 0 {
        0
    } else {
        let rest = forest_height(nodes.drop_last());
        let h = nodes.last().height() + 1;
        if h > rest {
            h
        } else {
            rest
        }
    }
}

/// The nodes of a forest in display order, each node followed by the nodes
/// below it, going at most `depth` levels down.
pub open spec fn preorder<N: OutlinerNode>(nodes: Seq<N>, depth: nat) -> Seq<N>
    decreases depth, nodes.len(),
{
    if nodes.len() == 0 || depth == 0 {
        Seq::empty()
    } else {
        let n = nodes.last();
        preorder(nodes.drop_last(), depth) + seq![n] + preorder(n.node_children(), (depth - 1) as nat)
    }
}

/// The identifiers of the rows shown for `nodes`, in order: each node,
/// followed by the rows below it when it is an expanded collection, going
/// at most `depth` levels down.
pub open spec fn visible_ids<N: OutlinerNode<Id = u64>>(
    nodes: Seq<N>,
    expanded: Set<u64>,
    depth: nat,
) -> Seq<u64>
    decreases depth, nodes.len(),
{
    if nodes.len() == 0 || depth == 0 {
        Seq::empty()
    } else {
        let n = nodes.last();
        let below = if n.node_is_collection() && expanded.contains(n.node_id()) {
            visible_ids(n.node_children(), expanded, (depth - 1) as nat)
        } else {
            Seq::empty()
        };
        visible_ids(nodes.drop_last(), expanded, depth) + seq![n.node_id()] + below
    }
}

/// The identifiers of a sequence of nodes.
pub open spec fn ids_of<N: OutlinerNode<Id = u64>>(s: Seq<N>) -> Seq<u64> {
    s.map_values(|n: N| n.node_id())
}

/// The first node of `s` with identifier `id`.
pub open spec fn first_with_id<N: OutlinerNode<Id = u64>>(s: Seq<N>, id: u64) -> Option<N>
    decreases s.len(),
{
    if s.len() == 0 {
        None
    } else if s[0].node_id() == id {
        Some(s[0])
    } else {
        first_with_id(s.drop_first(), id)
    }
}

/// A node found by identifier has that identifier, and comes from the
/// sequence searched.
pub proof fn lemma_first_with_id_found<N: OutlinerNode<Id = u64>>(s: Seq<N>, id: u64)
    ensures
        first_with_id(s, id) matches Some(n) ==> n.node_id() == id && s.contains(n),
    decreases s.len(),
{
    if s.len() > 0 && s[0].node_id() != id {
        lemma_first_with_id_found(s.drop_first(), id);
        if first_with_id(s, id) is Some {
            let n = first_with_id(s, id)->0;
            let k = choose|k: int| 0 <= k < s.drop_first().len() && s.drop_first()[k] == n;
            assert(s[k + 1] == n);
        }
    } else if s.len() > 0 {
        assert(s[0] == s[0]);
    }
}

/// Some node strictly below `node`, at most `depth` levels down, has
/// identifier `id`.
pub open spec fn has_below<N: OutlinerNode<Id = u64>>(node: N, id: u64, depth: nat) -> bool {
    first_with_id(preorder(node.node_children(), depth), id) is Some
}

/// A node of a forest is lower than the forest.
pub proof fn lemma_height_above<N: OutlinerNode>(nodes: Seq<N>, i: int)
    requires
        0 <= i < nodes.len(),
    ensures
        nodes[i].height() < forest_height(nodes),
    decreases nodes.len(),
{
    if i < nodes.len() - 1 {
        lemma_height_above(nodes.drop_last(), i);
    }
}

/// A forest whose nodes are all lower than `h` is at most `h` high.
pub proof fn lemma_height_bounded<N: OutlinerNode>(nodes: Seq<N>, h: nat)
    requires
        forall|i: int| 0 <= i < nodes.len() ==> #[trigger] nodes[i].height() < h,
    ensures
        forest_height(nodes) <= h,
    decreases nodes.len(),
{
    if nodes.len() > 0 {
        let rest = nodes.drop_last();
        assert forall|i: int| 0 <= i < rest.len() implies #[trigger] rest[i].height() < h by {
            assert(rest[i] == nodes[i]);
        }
        lemma_height_bounded(rest, h);
    }
}

/// The walk of two forests side by side is the walk of one, then the other.
pub proof fn lemma_preorder_concat<N: OutlinerNode>(a: Seq<N>, b: Seq<N>, depth: nat)
    ensures
        preorder(a + b, depth) == preorder(a, depth) + preorder(b, depth),
    decreases b.len(),
{
    if b.len() == 0 {
        assert(a + b =~= a);
        assert(preorder(a, depth) + preorder(b, depth) =~= preorder(a, depth));
    } else if depth > 0 {
        assert((a + b).drop_last() =~= a + b.drop_last());
        lemma_preorder_concat(a, b.drop_last(), depth);
        assert((a + b).last() == b.last());
        assert(preorder(a + b, depth) =~= preorder(a, depth) + preorder(b, depth));
    } else {
        assert(preorder(a, depth) + preorder(b, depth) =~= Seq::<N>::empty());
    }
}

/// The first match in `a + b` is the first in `a`, or else the first in `b`.
pub proof fn lemma_first_with_id_concat<N: OutlinerNode<Id = u64>>(a: Seq<N>, b: Seq<N>, id: u64)
    ensures
        first_with_id(a + b, id) == (match first_with_id(a, id) {
            Some(n) => Some(n),
            None => first_with_id(b, id),
        }),
    decreases a.len(),
{
    if a.len() == 0 {
        assert(a + b =~= b);
    } else {
        assert((a + b)[0] == a[0]);
        assert((a + b).drop_first() =~= a.drop_first() + b);
        lemma_first_with_id_concat(a.drop_first(), b, id);
    }
}

/// Appends the identifiers of the rows shown for `nodes` to `result`, in
/// display order: each node, then, when it is an expanded collection, the
/// rows below it.
pub fn collect_visible_node_ids<N: OutlinerNode<Id = u64>>(
    nodes: &[N],
    state: &OutlinerState<u64>,
    result: &mut Vec<u64>,
)
    ensures
        forall|d: nat|
            d >= forest_height(nodes@) ==> #[trigger] visible_ids(nodes@, state.expanded_set(), d)
                == final(result)@.skip(old(result)@.len() as int),
        final(result)@.len() >= old(result)@.len(),
        final(result)@.take(old(result)@.len() as int) == old(result)@,
    decreases forest_height(nodes@),
{
    let ghost start = result@;
    let ghost exp = state.expanded_set();
    let mut i: usize = 0;
    while i < nodes.len()
        invariant
            i <= nodes@.len(),
            exp == state.expanded_set(),
            result@.len() >= start.len(),
            result@.take(start.len() as int) == start,
            forall|d: nat|
                d >= forest_height(nodes@) ==> #[trigger] visible_ids(nodes@.take(i as int), exp, d)
                    == result@.skip(start.len() as int),
        decreases nodes.len() - i,
    {
        let node = &nodes[i];
        let ghost before = result@;
        let id = node.id();
        result.push(id);
        let open = node.is_collection() && state.is_expanded(&id);
        if open {
            let kids = node.children();
            proof {
                lemma_height_bounded(kids@, node.height());
                lemma_height_above(nodes@, i as int);
            }
            collect_visible_node_ids(kids, state, result);
        }
        proof {
            let ghost after = result@;
            assert forall|d: nat| d >= forest_height(nodes@) implies #[trigger] visible_ids(
                nodes@.take(i + 1),
                exp,
                d,
            ) == result@.skip(start.len() as int) by {
                lemma_height_above(nodes@, i as int);
                let t = nodes@.take(i + 1);
                assert(t.drop_last() =~= nodes@.take(i as int));
                assert(t.last() == nodes@[i as int]);
                assert(visible_ids(nodes@.take(i as int), exp, d) == before.skip(start.len() as int));
                if open {
                    assert(after.len() >= before.len() + 1);
                    assert(after.take(before.len() + 1 as int) == before.push(id));
                    assert forall|k: int| 0 <= k < before.len() implies after[k] == before[k] by {
                        assert(after.take(before.len() + 1 as int)[k] == before.push(id)[k]);
                    }
                    assert(after[before.len() as int] == id) by {
                        assert(after.take(before.len() + 1 as int)[before.len() as int] == before.push(id)[before.len() as int]);
                    }
                    lemma_height_bounded(nodes@[i as int].node_children(), nodes@[i as int].height());
                    assert(visible_ids(nodes@[i as int].node_children(), exp, (d - 1) as nat)
                        == after.skip(before.len() + 1 as int));
                    assert(after.skip(start.len() as int) =~= before.skip(start.len() as int) + seq![id]
                        + after.skip(before.len() + 1 as int));
                } else {
                    assert(after.skip(start.len() as int) =~= before.skip(start.len() as int) + seq![id]);
                }
            }
            assert forall|k: int| 0 <= k < start.len() implies after[k] == start[k] by {
                assert(before.take(start.len() as int)[k] == start[k]);
                if open {
                    assert(after.take(before.len() + 1 as int)[k] == before.push(id)[k]);
                }
            }
            assert(result@.take(start.len() as int) =~= start);
        }
        i = i + 1;
    }
    proof {
        assert(nodes@.take(nodes@.len() as int) =~= nodes@);
    }
}

proof fn lemma_preorder_step<N: OutlinerNode>(nodes: Seq<N>, i: int, depth: nat)
    requires
        0 <= i < nodes.len(),
        depth > 0,
    ensures
        preorder(nodes.take(i + 1), depth) == preorder(nodes.take(i), depth) + seq![nodes[i]]
            + preorder(nodes[i].node_children(), (depth - 1) as nat),
{
    let t = nodes.take(i + 1);
    assert(t.drop_last() =~= nodes.take(i));
    assert(t.last() == nodes[i]);
}

/// The first node, in display order, with identifier `id`, searching the
/// whole forest whether or not collections are expanded.
pub fn find_node_by_id<'a, N: OutlinerNode<Id = u64>>(nodes: &'a [N], id: &u64) -> (r: Option<&'a N>)
    ensures
        forall|d: nat|
            d >= forest_height(nodes@) ==> #[trigger] first_with_id(preorder(nodes@, d), *id) == match r {
                Some(n) => Some(*n),
                None => None,
            },
        r matches Some(n) ==> n.height() < forest_height(nodes@),
    decreases forest_height(nodes@),
{
    let mut i: usize = 0;
    while i < nodes.len()
        invariant
            i <= nodes@.len(),
            forall|d: nat|
                d >= forest_height(nodes@) ==> #[trigger] first_with_id(
                    preorder(nodes@.take(i as int), d),
                    *id,
                ) is None,
        decreases nodes.len() - i,
    {
        let node = &nodes[i];
        let kids = node.children();
        proof {
            lemma_height_bounded(kids@, node.height());
            lemma_height_above(nodes@, i as int);
        }
        let found = if node.id() == *id {
            Some(node)
        } else {
            find_node_by_id(kids, id)
        };
        proof {
            assert forall|d: nat| d >= forest_height(nodes@) implies #[trigger] first_with_id(
                preorder(nodes@.take(i + 1), d),
                *id,
            ) == match found {
                Some(n) => Some(*n),
                None => None,
            } by {
                let n = nodes@[i as int];
                let p = preorder(nodes@.take(i as int), d);
                let below = preorder(n.node_children(), (d - 1) as nat);
                lemma_preorder_step(nodes@, i as int, d);
                lemma_first_with_id_concat(p + seq![n], below, *id);
                lemma_first_with_id_concat(p, seq![n], *id);
                assert(first_with_id(p, *id) is None);
                assert(seq![n].drop_first() =~= Seq::<N>::empty());
                assert(seq![n][0] == n);
                assert(first_with_id(Seq::<N>::empty(), *id) is None);
                if n.node_id() != *id {
                    assert((d - 1) as nat >= forest_height(kids@));
                    assert(first_with_id(below, *id) == match found {
                        Some(m) => Some(*m),
                        None => None,
                    });
                }
            }
        }
        if found.is_some() {
            proof {
                assert(found->0.height() < forest_height(nodes@));
                assert forall|d: nat| d >= forest_height(nodes@) implies #[trigger] first_with_id(
                    preorder(nodes@, d),
                    *id,
                ) == Some(*found->0) by {
                    assert(nodes@ =~= nodes@.take(i + 1) + nodes@.skip(i + 1));
                    lemma_preorder_concat(nodes@.take(i + 1), nodes@.skip(i + 1), d);
                    lemma_first_with_id_concat(preorder(nodes@.take(i + 1), d), preorder(nodes@.skip(i + 1), d), *id);
                }
            }
            return found;
        }
        i = i + 1;
    }
    proof {
        assert(nodes@.take(nodes@.len() as int) =~= nodes@);
    }
    None
}

/// Whether some node strictly below `node` has identifier `target_id`.
pub fn contains_descendant<N: OutlinerNode<Id = u64>>(node: &N, target_id: &u64) -> (r: bool)
    ensures
        forall|d: nat| d >= node.height() ==> r == #[trigger] has_below(*node, *target_id, d),
{
    let kids = node.children();
    proof {
        lemma_height_bounded(kids@, node.height());
    }
    find_node_by_id(kids, target_id).is_some()
}

/// Whether `target_id` lies strictly below the first node, in display
/// order, with identifier `source_id`; false when there is no such node.
pub fn is_descendant_of<N: OutlinerNode<Id = u64>>(
    all_nodes: &[N],
    target_id: &u64,
    source_id: &u64,
) -> (r: bool)
    ensures
        forall|d: nat|
            d >= forest_height(all_nodes@) ==> r == #[trigger] descends_from(
                preorder(all_nodes@, d),
                *target_id,
                *source_id,
                d,
            ),
{
    match find_node_by_id(all_nodes, source_id) {
        Some(source) => contains_descendant(source, target_id),
        None => false,
    }
}

/// In a forest listed as `s`, `target` lies strictly below the first node
/// with identifier `source`, at most `depth` levels down.
pub open spec fn descends_from<N: OutlinerNode<Id = u64>>(
    s: Seq<N>,
    target: u64,
    source: u64,
    depth: nat,
) -> bool {
    match first_with_id(s, source) {
        Some(n) => has_below(n, target, depth),
        None => false,
    }
}

/// Appends to `out` the identifiers of every node of the forest, in display
/// order.
fn collect_ids<N: OutlinerNode<Id = u64>>(nodes: &[N], out: &mut Vec<u64>)
    ensures
        forall|d: nat|
            d >= forest_height(nodes@) ==> #[trigger] ids_of(preorder(nodes@, d)) == final(out)@.skip(
                old(out)@.len() as int,
            ),
        final(out)@.len() >= old(out)@.len(),
        final(out)@.take(old(out)@.len() as int) == old(out)@,
    decreases forest_height(nodes@),
{
    let ghost start = out@;
    let mut i: usize = 0;
    while i < nodes.len()
        invariant
            i <= nodes@.len(),
            out@.len() >= start.len(),
            out@.take(start.len() as int) == start,
            forall|d: nat|
                d >= forest_height(nodes@) ==> #[trigger] ids_of(preorder(nodes@.take(i as int), d))
                    == out@.skip(start.len() as int),
        decreases nodes.len() - i,
    {
        let node = &nodes[i];
        let ghost before = out@;
        let id = node.id();
        out.push(id);
        let kids = node.children();
        proof {
            lemma_height_bounded(kids@, node.height());
            lemma_height_above(nodes@, i as int);
        }
        collect_ids(kids, out);
        proof {
            let ghost after = out@;
            assert(after.len() >= before.len() + 1);
            assert forall|k: int| 0 <= k < before.len() implies after[k] == before[k] by {
                assert(after.take(before.len() + 1 as int)[k] == before.push(id)[k]);
            }
            assert(after[before.len() as int] == id) by {
                assert(after.take(before.len() + 1 as int)[before.len() as int] == before.push(id)[before.len() as int]);
            }
            assert forall|d: nat| d >= forest_height(nodes@) implies #[trigger] ids_of(
                preorder(nodes@.take(i + 1), d),
            ) == out@.skip(start.len() as int) by {
                let n = nodes@[i as int];
                lemma_preorder_step(nodes@, i as int, d);
                let p = preorder(nodes@.take(i as int), d);
                let b = preorder(n.node_children(), (d - 1) as nat);
                assert(ids_of(p + seq![n] + b) =~= ids_of(p) + seq![id] + ids_of(b));
                assert(after.skip(start.len() as int) =~= before.skip(start.len() as int) + seq![id]
                    + after.skip(before.len() + 1 as int));
            }
            assert forall|k: int| 0 <= k < start.len() implies after[k] == start[k] by {
                assert(before.take(start.len() as int)[k] == start[k]);
            }
            assert(out@.take(start.len() as int) =~= start);
        }
        i = i + 1;
    }
    proof {
        assert(nodes@.take(nodes@.len() as int) =~= nodes@);
    }
}

/// The identifiers of every node strictly below `node`, in display order.
pub fn collect_descendant_ids<N: OutlinerNode<Id = u64>>(node: &N) -> (r: Vec<u64>)
    ensures
        r@ == ids_of(preorder(node.node_children(), node.height())),
{
    let kids = node.children();
    proof {
        lemma_height_bounded(kids@, node.height());
    }
    let mut ids: Vec<u64> = Vec::new();
    collect_ids(kids, &mut ids);
    proof {
        assert(ids@.skip(0) =~= ids@);
    }
    ids
}

} // verus!
