//! Decisions of multi-selection: the rows a shift-click selects and the
//! nodes a drag carries.

use vstd::prelude::*;

verus! {

/// The index of the first occurrence of `id` in `s`, or the length of `s`.
pub open spec fn position_of(s: Seq<u64>, id: u64) -> int
    decreases s.len(),
{
    if s.len() == 0 {
        0
    } else if s[0] == id {
        0
    } else {
        1 + position_of(s.drop_first(), id)
    }
}

proof fn lemma_position_of(s: Seq<u64>, id: u64)
    ensures
        0 <= position_of(s, id) <= s.len(),
        position_of(s, id) < s.len() ==> s[position_of(s, id)] == id,
        forall|k: int| 0 <= k < position_of(s, id) ==> s[k] != id,
    decreases s.len(),
{
    if s.len() > 0 && s[0] != id {
        lemma_position_of(s.drop_first(), id);
        assert forall|k: int| 0 <= k < position_of(s, id) implies s[k] != id by {
            if k > 0 {
                assert(s[k] == s.drop_first()[k - 1]);
            }
        }
    }
}

/// Where `id` first appears among `rows`, or the number of rows.
pub fn position(rows: &[u64], id: &u64) -> (r: usize)
    ensures
        r == position_of(rows@, *id),
{
    let mut i: usize = 0;
    assert(rows@.skip(0) =~= rows@);
    while i < rows.len()
        invariant
            i <= rows@.len(),
            position_of(rows@, *id) == i + position_of(rows@.skip(i as int), *id),
        decreases rows.len() - i,
    {
        assert(rows@.skip(i as int)[0] == rows@[i as int]);
        if rows[i] == *id {
            return i;
        }
        assert(rows@.skip(i as int).drop_first() =~= rows@.skip(i + 1));
        i = i + 1;
    }
    i
}

/// The rows that a shift-click on `clicked` selects when `anchor` was the
/// last node selected: every row from one to the other, both included, in
/// display order. None when either is not among the rows.
pub open spec fn range_between(rows: Seq<u64>, anchor: u64, clicked: u64) -> Seq<u64> {
    let a = position_of(rows, anchor);
    let c = position_of(rows, clicked);
    if a < rows.len() && c < rows.len() {
        if a < c {
            rows.subrange(a, c + 1)
        } else {
            rows.subrange(c, a + 1)
        }
    } else {
        Seq::empty()
    }
}

/// A shift-click selects a run of rows that starts at one of the anchor
/// and the clicked row and ends at the other, and selects nothing when
/// either is not shown.
pub proof fn lemma_range_ends(rows: Seq<u64>, anchor: u64, clicked: u64)
    ensures
        ({
            let r = range_between(rows, anchor, clicked);
            if rows.contains(anchor) && rows.contains(clicked) {
                &&& r.len() > 0
                &&& (r[0] == anchor && r.last() == clicked) || (r[0] == clicked && r.last() == anchor)
            } else {
                r.len() == 0
            }
        }),
{
    lemma_position_of(rows, anchor);
    lemma_position_of(rows, clicked);
    if rows.contains(anchor) {
        let k = choose|k: int| 0 <= k < rows.len() && rows[k] == anchor;
        assert(position_of(rows, anchor) <= k);
    }
    if rows.contains(clicked) {
        let k = choose|k: int| 0 <= k < rows.len() && rows[k] == clicked;
        assert(position_of(rows, clicked) <= k);
    }
    if position_of(rows, anchor) < rows.len() {
        assert(rows.contains(anchor));
    }
    if position_of(rows, clicked) < rows.len() {
        assert(rows.contains(clicked));
    }
}

/// The rows that a shift-click on `clicked` selects, given the anchor of
/// the selection.
pub fn range_selection(rows: &[u64], anchor: &u64, clicked: &u64) -> (r: Vec<u64>)
    ensures
        r@ == range_between(rows@, *anchor, *clicked),
{
    let a = position(rows, anchor);
    let c = position(rows, clicked);
    proof {
        lemma_position_of(rows@, *anchor);
        lemma_position_of(rows@, *clicked);
    }
    let mut out: Vec<u64> = Vec::new();
    if a == rows.len() || c == rows.len() {
        return out;
    }
    let (lo, hi) = if a < c {
        (a, c)
    } else {
        (c, a)
    };
    let mut i: usize = lo;
    while i <= hi
        invariant
            lo <= i <= hi + 1,
            hi < rows@.len(),
            out@ == rows@.subrange(lo as int, i as int),
        decreases hi + 1 - i,
    {
        out.push(rows[i]);
        assert(out@ =~= rows@.subrange(lo as int, i + 1));
        i = i + 1;
    }
    out
}

/// The nodes a drag of `grabbed` carries: all of `selected` when the
/// grabbed node is selected, otherwise the grabbed node alone.
pub fn nodes_to_drag(grabbed: u64, grabbed_selected: bool, selected: &[u64]) -> (r: Vec<u64>)
    ensures
        r@ == (if grabbed_selected {
            selected@
        } else {
            seq![grabbed]
        }),
{
    let mut out: Vec<u64> = Vec::new();
    if !grabbed_selected {
        out.push(grabbed);
        assert(out@ =~= seq![grabbed]);
        return out;
    }
    let mut i: usize = 0;
    while i < selected.len()
        invariant
            i <= selected@.len(),
            out@ == selected@.take(i as int),
        decreases selected.len() - i,
    {
        out.push(selected[i]);
        assert(out@ =~= selected@.take(i + 1));
        i = i + 1;
    }
    assert(selected@.take(selected@.len() as int) =~= selected@);
    out
}

} // verus!
