//! Editing a tree of `OutlinerNode`s in place: finding, removing and
//! inserting nodes by identifier.
//!
//! As in `tree`, the spec functions look at most `depth` levels down, and
//! the operations are specified for every depth that reaches the bottom of
//! the tree.

use vstd::prelude::*;
use crate::traits::{DropPosition, OutlinerNode};
use crate::tree::{
    contains_descendant, find_node_by_id, first_with_id, forest_height, has_below,
    lemma_first_with_id_concat, lemma_height_above, lemma_height_bounded, lemma_preorder_concat,
    preorder,
};

verus! {

/// The index of the first node of `kids` with identifier `id`, or the
/// length of `kids` when there is none.
pub open spec fn index_with_id<N: OutlinerNode<Id = u64>>(kids: Seq<N>, id: u64) -> int
    decreases kids.len(),
{
    if kids.len() == 0 {
        0
    } else if kids[0].node_id() == id {
        0
    } else {
        1 + index_with_id(kids.drop_first(), id)
    }
}

/// The index of the first node of `kids` that has a node with identifier
/// `id` below it (at most `depth` levels down), or the length of `kids`.
pub open spec fn index_holding<N: OutlinerNode<Id = u64>>(kids: Seq<N>, id: u64, depth: nat) -> int
    decreases kids.len(),
{
    if kids.len() == 0 {
        0
    } else if has_below(kids[0], id, depth) {
        0
    } else {
        1 + index_holding(kids.drop_first(), id, depth)
    }
}

/// `after` is `before` with `removed` taken out from below it: the first
/// child with identifier `id` when there is one, and otherwise, within the
/// first child that holds such a node, the node that the same rule picks.
pub open spec fn removed_below<N: OutlinerNode<Id = u64>>(
    before: N,
    after: N,
    id: u64,
    removed: N,
    depth: nat,
) -> bool
    decreases depth,
{
    let kids = before.node_children();
    let k = index_with_id(kids, id);
    &&& after.node_id() == before.node_id()
    &&& before.same_apart_from_children(&after)
    &&& if k < kids.len() {
        &&& after.node_children() == kids.remove(k)
        &&& removed == kids[k]
    } else {
        let j = index_holding(kids, id, (depth - 1) as nat);
        &&& depth > 0
        &&& j < kids.len()
        &&& after.node_children().len() == kids.len()
        &&& forall|i: int|
            0 <= i < kids.len() && i != j ==> #[trigger] after.node_children()[i] == kids[i]
        &&& removed_below(kids[j], after.node_children()[j], id, removed, (depth - 1) as nat)
    }
}

/// Whether inserting at `position` relative to `target` succeeds in the
/// tree under `n`, looking at most `depth` levels down: `n` itself takes
/// the node inside when it is the target and a collection; otherwise the
/// first child that is the target or takes the node below it decides.
pub open spec fn inserts<N: OutlinerNode<Id = u64>>(
    n: N,
    target: u64,
    position: DropPosition,
    depth: nat,
) -> bool
    decreases depth, 1nat, 0int,
{
    if depth == 0 {
        false
    } else if n.node_id() == target && position != DropPosition::Inside {
        false
    } else if n.node_id() == target && n.node_is_collection() {
        true
    } else {
        let kids = n.node_children();
        let s = insert_slot(kids, target, position, (depth - 1) as nat, 0);
        &&& s < kids.len()
        &&& kids[s].node_id() == target ==> (position != DropPosition::Inside
            || kids[s].node_is_collection())
    }
}

/// From index `i` on, the first child that is the target or takes the node
/// somewhere below it; the length of `kids` when none does.
pub open spec fn insert_slot<N: OutlinerNode<Id = u64>>(
    kids: Seq<N>,
    target: u64,
    position: DropPosition,
    depth: nat,
    i: int,
) -> int
    decreases depth, 2nat, kids.len() - i,
{
    if i < 0 || i >= kids.len() {
        kids.len() as int
    } else if kids[i].node_id() == target || inserts(kids[i], target, position, depth) {
        i
    } else {
        insert_slot(kids, target, position, depth, i + 1)
    }
}

/// `after` is `before` with `node` inserted as `inserts` decides.
pub open spec fn inserted<N: OutlinerNode<Id = u64>>(
    before: N,
    after: N,
    target: u64,
    position: DropPosition,
    node: N,
    depth: nat,
) -> bool
    decreases depth,
{
    let kids = before.node_children();
    let s = insert_slot(kids, target, position, (depth - 1) as nat, 0);
    &&& depth > 0
    &&& after.node_id() == before.node_id()
    &&& before.same_apart_from_children(&after)
    &&& if before.node_id() == target && position == DropPosition::Inside
        && before.node_is_collection() {
        after.node_children() == kids.push(node)
    } else if s < kids.len() && kids[s].node_id() == target && position == DropPosition::Before {
        after.node_children() == kids.insert(s, node)
    } else if s < kids.len() && kids[s].node_id() == target && position == DropPosition::After {
        after.node_children() == kids.insert(s + 1, node)
    } else {
        let c = after.node_children()[s];
        &&& s < kids.len()
        &&& after.node_children().len() == kids.len()
        &&& forall|i: int|
            0 <= i < kids.len() && i != s ==> #[trigger] after.node_children()[i] == kids[i]
        &&& if kids[s].node_id() == target {
            &&& c.node_id() == kids[s].node_id()
            &&& kids[s].same_apart_from_children(&c)
            &&& c.node_children() == kids[s].node_children().push(node)
        } else {
            inserted(kids[s], c, target, position, node, (depth - 1) as nat)
        }
    }
}

/// The walk below a single node: the node, then the walk of its children.
proof fn lemma_preorder_single<N: OutlinerNode<Id = u64>>(n: N, depth: nat, id: u64)
    requires
        depth > 0,
    ensures
        preorder(seq![n], depth) == seq![n] + preorder(n.node_children(), (depth - 1) as nat),
        first_with_id(preorder(seq![n], depth), id) == (if n.node_id() == id {
            Some(n)
        } else {
            first_with_id(preorder(n.node_children(), (depth - 1) as nat), id)
        }),
{
    assert(seq![n].drop_last() =~= Seq::<N>::empty());
    assert(seq![n].last() == n);
    assert(preorder(Seq::<N>::empty(), depth) == Seq::<N>::empty());
    assert(preorder(seq![n], depth) =~= seq![n] + preorder(n.node_children(), (depth - 1) as nat));
    lemma_first_with_id_concat(seq![n], preorder(n.node_children(), (depth - 1) as nat), id);
    assert(seq![n].drop_first() =~= Seq::<N>::empty());
    assert(seq![n][0] == n);
    assert(first_with_id(Seq::<N>::empty(), id) is None);
}

/// A node with identifier `id` appears in the walk of `kids` exactly when
/// one of them has it or holds it below.
proof fn lemma_found_iff<N: OutlinerNode<Id = u64>>(kids: Seq<N>, id: u64, depth: nat)
    requires
        depth > 0,
    ensures
        (first_with_id(preorder(kids, depth), id) is Some) == (index_with_id(kids, id) < kids.len()
            || index_holding(kids, id, (depth - 1) as nat) < kids.len()),
    decreases kids.len(),
{
    if kids.len() == 0 {
    } else {
        let k0 = kids[0];
        let rest = kids.drop_first();
        assert(kids =~= seq![k0] + rest);
        lemma_preorder_concat(seq![k0], rest, depth);
        lemma_preorder_single(k0, depth, id);
        lemma_first_with_id_concat(preorder(seq![k0], depth), preorder(rest, depth), id);
        lemma_found_iff(rest, id, depth);
    }
}

proof fn lemma_index_with_id_found<N: OutlinerNode<Id = u64>>(kids: Seq<N>, id: u64)
    ensures
        0 <= index_with_id(kids, id) <= kids.len(),
        index_with_id(kids, id) < kids.len() ==> kids[index_with_id(kids, id)].node_id() == id,
    decreases kids.len(),
{
    if kids.len() > 0 && kids[0].node_id() != id {
        lemma_index_with_id_found(kids.drop_first(), id);
    }
}

proof fn lemma_index_holding_range<N: OutlinerNode<Id = u64>>(kids: Seq<N>, id: u64, depth: nat)
    ensures
        0 <= index_holding(kids, id, depth) <= kids.len(),
        index_holding(kids, id, depth) < kids.len() ==> has_below(
            kids[index_holding(kids, id, depth)],
            id,
            depth,
        ),
    decreases kids.len(),
{
    if kids.len() > 0 && !has_below(kids[0], id, depth) {
        lemma_index_holding_range(kids.drop_first(), id, depth);
    }
}

proof fn lemma_index_with_id_take<N: OutlinerNode<Id = u64>>(s: Seq<N>, id: u64, i: int)
    requires
        0 <= i <= s.len(),
        i <= index_with_id(s, id),
    ensures
        index_with_id(s.take(i), id) == i,
    decreases i,
{
    if i > 0 {
        assert(s.take(i)[0] == s[0]);
        assert(s.take(i).drop_first() =~= s.drop_first().take(i - 1));
        lemma_index_with_id_take(s.drop_first(), id, i - 1);
    }
}

proof fn lemma_index_holding_take<N: OutlinerNode<Id = u64>>(s: Seq<N>, id: u64, depth: nat, i: int)
    requires
        0 <= i <= s.len(),
        i <= index_holding(s, id, depth),
    ensures
        index_holding(s.take(i), id, depth) == i,
    decreases i,
{
    if i > 0 {
        assert(s.take(i)[0] == s[0]);
        assert(s.take(i).drop_first() =~= s.drop_first().take(i - 1));
        lemma_index_holding_take(s.drop_first(), id, depth, i - 1);
    }
}

/// The index of the first of `kids` with identifier `id`, or their number.
fn direct_index<N: OutlinerNode<Id = u64>>(kids: &[N], id: &u64) -> (r: usize)
    ensures
        r == index_with_id(kids@, *id),
{
    let mut i: usize = 0;
    assert(kids@.skip(0) =~= kids@);
    while i < kids.len()
        invariant
            i <= kids@.len(),
            index_with_id(kids@, *id) == i + index_with_id(kids@.skip(i as int), *id),
        decreases kids.len() - i,
    {
        assert(kids@.skip(i as int)[0] == kids@[i as int]);
        if kids[i].id() == *id {
            return i;
        }
        assert(kids@.skip(i as int).drop_first() =~= kids@.skip(i + 1));
        i = i + 1;
    }
    i
}

/// The index of the first of `kids` that holds a node with identifier `id`
/// below it, or their number.
fn holding_index<N: OutlinerNode<Id = u64>>(kids: &[N], id: &u64) -> (r: usize)
    ensures
        forall|d: nat| d + 1 >= forest_height(kids@) ==> r == #[trigger] index_holding(kids@, *id, d),
{
    let mut i: usize = 0;
    assert(kids@.skip(0) =~= kids@);
    while i < kids.len()
        invariant
            i <= kids@.len(),
            forall|d: nat|
                d + 1 >= forest_height(kids@) ==> #[trigger] index_holding(kids@, *id, d) == i
                    + index_holding(kids@.skip(i as int), *id, d),
        decreases kids.len() - i,
    {
        proof {
            lemma_height_above(kids@, i as int);
        }
        let hit = contains_descendant(&kids[i], id);
        assert(kids@.skip(i as int)[0] == kids@[i as int]);
        assert(kids@.skip(i as int).drop_first() =~= kids@.skip(i + 1));
        if hit {
            return i;
        }
        i = i + 1;
    }
    i
}

/// Whether `insert_in` would succeed on the tree under `n`.
fn would_insert<N: OutlinerNode<Id = u64>>(n: &N, target: &u64, position: DropPosition) -> (r: bool)
    ensures
        forall|d: nat| d > n.height() ==> r == #[trigger] inserts(*n, *target, position, d),
    decreases n.height() + 1, 0nat,
{
    let here = n.id() == *target;
    if here && position != DropPosition::Inside {
        return false;
    }
    if here && n.is_collection() {
        return true;
    }
    let kids = n.children();
    proof {
        lemma_height_bounded(kids@, n.height());
    }
    let s = find_insert_slot(kids, target, position);
    let r = s < kids.len() && (kids[s].id() != *target || position != DropPosition::Inside
        || kids[s].is_collection());
    proof {
        assert forall|d: nat| d > n.height() implies r == #[trigger] inserts(*n, *target, position, d) by {
            assert((d - 1) as nat >= forest_height(kids@));
            assert(s == insert_slot(kids@, *target, position, (d - 1) as nat, 0));
        }
    }
    r
}

/// The first of `kids` that is the target or takes the node below it, or
/// their number.
fn find_insert_slot<N: OutlinerNode<Id = u64>>(kids: &[N], target: &u64, position: DropPosition) -> (r: usize)
    ensures
        r <= kids@.len(),
        forall|d: nat| d >= forest_height(kids@) ==> r == #[trigger] insert_slot(kids@, *target, position, d, 0),
    decreases forest_height(kids@), 1nat,
{
    let mut i: usize = 0;
    while i < kids.len()
        invariant
            i <= kids@.len(),
            forall|d: nat|
                d >= forest_height(kids@) ==> #[trigger] insert_slot(kids@, *target, position, d, 0)
                    == insert_slot(kids@, *target, position, d, i as int),
        decreases kids.len() - i,
    {
        proof {
            lemma_height_above(kids@, i as int);
        }
        let mut take = kids[i].id() == *target;
        if !take {
            take = would_insert(&kids[i], target, position);
        }
        proof {
            assert forall|d: nat| d >= forest_height(kids@) implies #[trigger] insert_slot(
                kids@,
                *target,
                position,
                d,
                i as int,
            ) == (if take {
                i as int
            } else {
                insert_slot(kids@, *target, position, d, i + 1)
            }) by {
                assert(d > kids@[i as int].height());
                assert(take == (kids@[i as int].node_id() == *target || inserts(
                    kids@[i as int],
                    *target,
                    position,
                    d,
                )));
            }
        }
        if take {
            return i;
        }
        i = i + 1;
    }
    i
}

/// Takes out the node with identifier `id` that `removed_below` picks.
fn remove_in<N: OutlinerNode<Id = u64>>(n: &mut N, id: &u64) -> (r: Option<N>)
    ensures
        forall|d: nat| d >= old(n).height() ==> (r is Some <==> #[trigger] has_below(*old(n), *id, d)),
        r is None ==> *final(n) == *old(n),
        r matches Some(x) ==> forall|d: nat|
            d >= old(n).height() ==> #[trigger] removed_below(*old(n), *final(n), *id, x, d),
    decreases old(n).height(),
{
    let kids = n.children();
    proof {
        lemma_height_bounded(kids@, n.height());
        lemma_index_with_id_found(kids@, *id);
    }
    let len = kids.len();
    let k = direct_index(kids, id);
    let j = holding_index(kids, id);
    let ghost before = *n;
    proof {
        lemma_index_holding_range(kids@, *id, n.height());
        assert(j == index_holding(kids@, *id, n.height()));
        if j < len {
            lemma_height_above(kids@, j as int);
            assert(has_below(kids@[j as int], *id, n.height()));
        }
    }
    proof {
        assert forall|d: nat| d >= before.height() implies (
            (k < len || j < len) <==> #[trigger] has_below(before, *id, d)) by {
            if kids@.len() > 0 {
                lemma_height_above(kids@, 0);
                lemma_found_iff(kids@, *id, d);
            }
        }
    }
    if k < len {
        let children = n.children_mut();
        let x = children.remove(k);
        proof {
            assert forall|d: nat| d >= before.height() implies #[trigger] removed_below(before, *n, *id, x, d) by {
            }
        }
        return Some(x);
    }
    if j == len {
        return None;
    }
    let children = n.children_mut();
    proof {
        lemma_height_above(kids@, j as int);
    }
    let r = remove_in(&mut children[j], id);
    proof {
        assert(r is Some);
        assert(n.node_children() == kids@.update(j as int, n.node_children()[j as int]));
        assert forall|d: nat| d >= before.height() implies #[trigger] removed_below(before, *n, *id, r->0, d) by {
            assert((d - 1) as nat + 1 >= forest_height(kids@));
            assert(j == index_holding(kids@, *id, (d - 1) as nat));
            assert(removed_below(kids@[j as int], n.node_children()[j as int], *id, r->0, (d - 1) as nat));
        }
    }
    r
}

proof fn lemma_insert_slot_hit<N: OutlinerNode<Id = u64>>(
    kids: Seq<N>,
    target: u64,
    position: DropPosition,
    depth: nat,
    i: int,
)
    requires
        0 <= i <= kids.len(),
    ensures
        i <= insert_slot(kids, target, position, depth, i) <= kids.len(),
        insert_slot(kids, target, position, depth, i) < kids.len() ==> {
            let s = insert_slot(kids, target, position, depth, i);
            kids[s].node_id() == target || inserts(kids[s], target, position, depth)
        },
    decreases kids.len() - i,
{
    if i < kids.len() && !(kids[i].node_id() == target || inserts(kids[i], target, position, depth)) {
        lemma_insert_slot_hit(kids, target, position, depth, i + 1);
    }
}

/// A removal takes out a node with the identifier asked for.
pub proof fn lemma_removed_has_id<N: OutlinerNode<Id = u64>>(
    before: N,
    after: N,
    id: u64,
    removed: N,
    depth: nat,
)
    requires
        removed_below(before, after, id, removed, depth),
    ensures
        removed.node_id() == id,
    decreases depth,
{
    let kids = before.node_children();
    lemma_index_with_id_found(kids, id);
    if index_with_id(kids, id) >= kids.len() {
        let j = index_holding(kids, id, (depth - 1) as nat);
        lemma_removed_has_id(kids[j], after.node_children()[j], id, removed, (depth - 1) as nat);
    }
}

/// Inserts `node` as `inserts` and `inserted` describe.
fn insert_in<N: OutlinerNode<Id = u64>>(n: &mut N, target: &u64, node: N, position: DropPosition) -> (r: bool)
    ensures
        forall|d: nat| d > old(n).height() ==> r == #[trigger] inserts(*old(n), *target, position, d),
        !r ==> *final(n) == *old(n),
        r ==> forall|d: nat|
            d > old(n).height() ==> #[trigger] inserted(*old(n), *final(n), *target, position, node, d),
    decreases old(n).height(),
{
    let ghost before = *n;
    let here = n.id() == *target;
    if here && position != DropPosition::Inside {
        return false;
    }
    if here && n.is_collection() {
        n.children_mut().push(node);
        return true;
    }
    let kids = n.children();
    proof {
        lemma_height_bounded(kids@, n.height());
    }
    let len = kids.len();
    let s = find_insert_slot(kids, target, position);
    proof {
        assert forall|d: nat| d > before.height() implies #[trigger] inserts(before, *target, position, d) == (
            s < len && (kids@[s as int].node_id() == *target ==> (position != DropPosition::Inside
                || kids@[s as int].node_is_collection()))) by {
            assert((d - 1) as nat >= forest_height(kids@));
            assert(s == insert_slot(kids@, *target, position, (d - 1) as nat, 0));
        }
    }
    if s == len {
        return false;
    }
    let hit = kids[s].id() == *target;
    if hit && position == DropPosition::Inside && !kids[s].is_collection() {
        return false;
    }
    proof {
        lemma_height_above(kids@, s as int);
    }
    let children = n.children_mut();
    if hit {
        match position {
            DropPosition::Before => {
                children.insert(s, node);
            },
            DropPosition::After => {
                children.insert(s + 1, node);
            },
            DropPosition::Inside => {
                children[s].children_mut().push(node);
            },
        }
        proof {
            assert forall|d: nat| d > before.height() implies #[trigger] inserted(before, *n, *target, position, node, d) by {
                assert((d - 1) as nat >= forest_height(kids@));
                assert(s == insert_slot(kids@, *target, position, (d - 1) as nat, 0));
            }
        }
        true
    } else {
        let r = insert_in(&mut children[s], target, node, position);
        proof {
            lemma_insert_slot_hit(kids@, *target, position, before.height(), 0);
            assert(s == insert_slot(kids@, *target, position, before.height(), 0));
            assert(inserts(kids@[s as int], *target, position, before.height()));
            assert(r);
            assert forall|d: nat| d > before.height() implies #[trigger] inserted(before, *n, *target, position, node, d) by {
                assert((d - 1) as nat >= forest_height(kids@));
                assert(s == insert_slot(kids@, *target, position, (d - 1) as nat, 0));
                lemma_insert_slot_hit(kids@, *target, position, (d - 1) as nat, 0);
                assert(inserts(kids@[s as int], *target, position, (d - 1) as nat));
                assert(inserted(kids@[s as int], n.node_children()[s as int], *target, position, node, (d - 1) as nat));
            }
        }
        r
    }
}

/// The first node, in display order, with identifier `id` in the tree
/// under `root`, `root` included.
fn find_in_tree<'a, N: OutlinerNode<Id = u64>>(root: &'a N, id: &u64) -> (r: Option<&'a N>)
    ensures
        forall|d: nat|
            d > root.height() ==> #[trigger] first_with_id(preorder(seq![*root], d), *id) == match r {
                Some(n) => Some(*n),
                None => None,
            },
{
    if root.id() == *id {
        proof {
            assert forall|d: nat| d > root.height() implies #[trigger] first_with_id(preorder(seq![*root], d), *id) == Some(*root) by {
                lemma_preorder_single(*root, d, *id);
            }
        }
        return Some(root);
    }
    let kids = root.children();
    proof {
        lemma_height_bounded(kids@, root.height());
    }
    let r = find_node_by_id(kids, id);
    proof {
        assert forall|d: nat| d > root.height() implies #[trigger] first_with_id(preorder(seq![*root], d), *id) == match r {
            Some(n) => Some(*n),
            None => None,
        } by {
            lemma_preorder_single(*root, d, *id);
            assert((d - 1) as nat >= forest_height(kids@));
        }
    }
    r
}

/// A node with identifier `id` in the tree under `root`, `root` included,
/// for changing it in place.
fn find_mut_in<'a, N: OutlinerNode<Id = u64>>(root: &'a mut N, id: &u64) -> (r: Option<&'a mut N>)
    ensures
        r matches Some(x) ==> x.node_id() == *id,
        r matches Some(x) ==> forall|d: nat|
            d > old(root).height() ==> #[trigger] first_with_id(preorder(seq![*old(root)], d), *id)
                == Some(*x),
        r is None ==> *final(root) == *old(root),
        forall|d: nat|
            d > old(root).height() ==> (r is Some <==> #[trigger] first_with_id(
                preorder(seq![*old(root)], d),
                *id,
            ) is Some),
    decreases old(root).height(),
{
    let ghost before = *root;
    if root.id() == *id {
        proof {
            assert forall|d: nat| d > before.height() implies #[trigger] first_with_id(
                preorder(seq![before], d),
                *id,
            ) == Some(before) by {
                lemma_preorder_single(before, d, *id);
            }
        }
        return Some(root);
    }
    let kids = root.children();
    proof {
        lemma_height_bounded(kids@, root.height());
        lemma_index_with_id_found(kids@, *id);
        lemma_index_holding_range(kids@, *id, root.height());
    }
    let len = kids.len();
    let k = direct_index(kids, id);
    let h = holding_index(kids, id);
    proof {
        assert(h == index_holding(kids@, *id, root.height()));
        assert forall|d: nat| d > before.height() implies (#[trigger] first_with_id(
            preorder(seq![before], d),
            *id,
        ) is Some <==> (k < len || h < len)) by {
            lemma_preorder_single(before, d, *id);
            assert((d - 1) as nat >= forest_height(kids@));
            assert(h == index_holding(kids@, *id, (d - 2) as nat)) by {
                if kids@.len() > 0 {
                    lemma_height_above(kids@, 0);
                }
            }
            if kids@.len() > 0 {
                lemma_height_above(kids@, 0);
                lemma_found_iff(kids@, *id, (d - 1) as nat);
            }
        }
    }
    if k == len && h == len {
        return None;
    }
    let j = if k < h { k } else { h };
    proof {
        lemma_height_above(kids@, j as int);
        if j == h {
            assert(has_below(kids@[j as int], *id, root.height()));
            lemma_found_iff(kids@[j as int].node_children(), *id, root.height());
        }
    }
    let children = root.children_mut();
    let r = find_mut_in(&mut children[j], id);
    proof {
        if j == h && j != k {
            assert(first_with_id(preorder(kids@[j as int].node_children(), before.height()), *id) is Some);
            assert(first_with_id(preorder(seq![kids@[j as int]], before.height() + 1), *id) is Some) by {
                lemma_preorder_single(kids@[j as int], before.height() + 1, *id);
            }
        } else {
            assert(first_with_id(preorder(seq![kids@[j as int]], before.height() + 1), *id) is Some) by {
                lemma_preorder_single(kids@[j as int], before.height() + 1, *id);
            }
        }
        let x = *r->0;
        assert forall|d: nat| d > before.height() implies #[trigger] first_with_id(
            preorder(seq![before], d),
            *id,
        ) == Some(x) by {
            let ks = kids@;
            let kj = ks[j as int];
            lemma_height_above(ks, 0);
            lemma_preorder_single(before, d, *id);
            assert((d - 1) as nat >= forest_height(ks));
            assert(h == index_holding(ks, *id, (d - 2) as nat));
            lemma_index_with_id_take(ks, *id, j as int);
            lemma_index_holding_take(ks, *id, (d - 2) as nat, j as int);
            lemma_found_iff(ks.take(j as int), *id, (d - 1) as nat);
            assert(ks =~= ks.take(j as int) + (seq![kj] + ks.skip(j + 1)));
            lemma_preorder_concat(ks.take(j as int), seq![kj] + ks.skip(j + 1), (d - 1) as nat);
            lemma_preorder_concat(seq![kj], ks.skip(j + 1), (d - 1) as nat);
            lemma_first_with_id_concat(
                preorder(ks.take(j as int), (d - 1) as nat),
                preorder(seq![kj] + ks.skip(j + 1), (d - 1) as nat),
                *id,
            );
            lemma_first_with_id_concat(
                preorder(seq![kj], (d - 1) as nat),
                preorder(ks.skip(j + 1), (d - 1) as nat),
                *id,
            );
            assert(first_with_id(preorder(seq![kj], (d - 1) as nat), *id) == Some(x));
        }
    }
    r
}

/// Operations that find, remove and insert nodes anywhere in a tree,
/// addressed by identifier. The provided bodies serve any `OutlinerNode`.
pub trait TreeOperations: OutlinerNode<Id = u64> + Sized + Clone {
    /// Renames the node with identifier `id`. A node's name cannot be set
    /// through `OutlinerNode`, so the provided body changes nothing and
    /// answers `false`; a type that can rename its nodes overrides it.
    fn rename_node(&mut self, id: &u64, new_name: String) -> (r: bool)
        default_ensures
            !r,
            *final(self) == *old(self),
    {
        false
    }

    /// Takes the node with identifier `id` out of the tree below `self` and
    /// returns it: the first child with that identifier when there is one,
    /// and otherwise the node the same rule picks within the first child
    /// that holds one. `None`, with the tree unchanged, when no node below
    /// `self` has the identifier.
    fn remove_node(&mut self, id: &u64) -> (r: Option<Self>)
        ensures
            forall|d: nat| d >= old(self).height() ==> (r is Some <==> #[trigger] has_below(*old(self), *id, d)),
            r is None ==> *final(self) == *old(self),
            r matches Some(x) ==> forall|d: nat|
                d >= old(self).height() ==> #[trigger] removed_below(*old(self), *final(self), *id, x, d),
    {
        remove_in(self, id)
    }

    /// Inserts `node` at `position` relative to the node with identifier
    /// `target_id`: inside `self` when it is the target and a collection;
    /// otherwise at the first child that is the target (before or after
    /// it, or inside it if it is a collection), or within the first child
    /// below which the insertion succeeds. Answers whether it succeeded; on
    /// failure the tree is unchanged.
    fn insert_node(&mut self, target_id: &u64, node: Self, position: DropPosition) -> (r: bool)
        ensures
            forall|d: nat| d > old(self).height() ==> r == #[trigger] inserts(*old(self), *target_id, position, d),
            !r ==> *final(self) == *old(self),
            r ==> forall|d: nat|
                d > old(self).height() ==> #[trigger] inserted(*old(self), *final(self), *target_id, position, node, d),
    {
        insert_in(self, target_id, node, position)
    }

    /// The first node, in display order, with identifier `id` in the tree
    /// under `self`, `self` included.
    fn find_node(&self, id: &u64) -> (r: Option<&Self>)
        ensures
            forall|d: nat|
                d > self.height() ==> #[trigger] first_with_id(preorder(seq![*self], d), *id) == match r {
                    Some(n) => Some(*n),
                    None => None,
                },
    {
        find_in_tree(self, id)
    }

    /// The first node, in display order, with identifier `id` in the tree
    /// under `self`, `self` included, for changing it in place; `None`,
    /// with the tree unchanged, when there is none.
    fn find_node_mut(&mut self, id: &u64) -> (r: Option<&mut Self>)
        ensures
            r matches Some(x) ==> x.node_id() == *id,
            r matches Some(x) ==> forall|d: nat|
                d > old(self).height() ==> #[trigger] first_with_id(preorder(seq![*old(self)], d), *id)
                    == Some(*x),
            r is None ==> *final(self) == *old(self),
            forall|d: nat|
                d > old(self).height() ==> (r is Some <==> #[trigger] first_with_id(
                    preorder(seq![*old(self)], d),
                    *id,
                ) is Some),
    {
        find_mut_in(self, id)
    }
}

} // verus!
