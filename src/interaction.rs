//! The rules that turn one frame's clicks, key presses and drops into calls
//! on the application's actions and changes to the outliner's state. The
//! widget gathers the plain facts (which rows are shown and selected, which
//! keys are down) and carries out what these functions return.

use vstd::prelude::*;
use crate::drag_drop::DragDropState;
use crate::response::DropEvent;
use crate::selection::{position, position_of, range_between, range_selection};
use crate::state::OutlinerState;
use crate::traits::{ActionIcon, DropPosition};

verus! {

/// What a click on a row's label does.
pub struct ClickOutcome {
    /// The selection calls to make, in order: node and new state.
    pub select: Vec<(u64, bool)>,
    /// The anchor of range selection afterwards.
    pub anchor: Option<u64>,
    /// The node to report as selected this frame, if any.
    pub reported: Option<u64>,
}

/// A call to unselect each selected row, in display order.
pub open spec fn unselect_calls(rows: Seq<u64>, selected: Seq<bool>) -> Seq<(u64, bool)>
    decreases rows.len(),
{
    if rows.len() == 0 {
        Seq::empty()
    } else {
        let before = unselect_calls(rows.drop_last(), selected.drop_last());
        if selected.last() {
            before.push((rows.last(), false))
        } else {
            before
        }
    }
}

/// A call to select each of `ids`, in order.
pub open spec fn select_calls(ids: Seq<u64>) -> Seq<(u64, bool)> {
    ids.map_values(|id: u64| (id, true))
}

/// Whether `id` is shown and selected, judged by its first row.
pub open spec fn row_selected(rows: Seq<u64>, selected: Seq<bool>, id: u64) -> bool {
    let p = position_of(rows, id);
    p < rows.len() && selected[p]
}

fn unselect_all(rows: &[u64], selected: &[bool], out: &mut Vec<(u64, bool)>)
    requires
        selected@.len() == rows@.len(),
    ensures
        final(out)@ == old(out)@ + unselect_calls(rows@, selected@),
{
    let ghost start = out@;
    let mut i: usize = 0;
    while i < rows.len()
        invariant
            i <= rows@.len(),
            selected@.len() == rows@.len(),
            out@ == start + unselect_calls(rows@.take(i as int), selected@.take(i as int)),
        decreases rows.len() - i,
    {
        proof {
            assert(rows@.take(i + 1).drop_last() =~= rows@.take(i as int));
            assert(selected@.take(i + 1).drop_last() =~= selected@.take(i as int));
        }
        if selected[i] {
            out.push((rows[i], false));
        }
        proof {
            assert(out@ =~= start + unselect_calls(rows@.take(i + 1), selected@.take(i + 1)));
        }
        i = i + 1;
    }
    proof {
        assert(rows@.take(rows@.len() as int) =~= rows@);
        assert(selected@.take(rows@.len() as int) =~= selected@);
    }
}

fn select_all(ids: &[u64], out: &mut Vec<(u64, bool)>)
    ensures
        final(out)@ == old(out)@ + select_calls(ids@),
{
    let ghost start = out@;
    let mut i: usize = 0;
    while i < ids.len()
        invariant
            i <= ids@.len(),
            out@ == start + select_calls(ids@.take(i as int)),
        decreases ids.len() - i,
    {
        out.push((ids[i], true));
        proof {
            assert(out@ =~= start + select_calls(ids@.take(i + 1)));
        }
        i = i + 1;
    }
    proof {
        assert(ids@.take(ids@.len() as int) =~= ids@);
    }
}

/// A click on the label of `clicked`, with `rows` the rows shown and
/// `selected` whether each is selected.
///
/// - With shift held and an anchor, every row from the anchor to the
///   clicked one is selected; the anchor stays and nothing is reported.
/// - Otherwise, with ctrl held, the clicked node's selection flips; it
///   becomes the anchor only when it becomes selected, and it is reported.
/// - Otherwise every selected row is unselected and the clicked node is
///   selected, becomes the anchor, and is reported.
pub fn label_click(
    rows: &[u64],
    selected: &[bool],
    anchor: Option<u64>,
    clicked: u64,
    shift: bool,
    ctrl: bool,
) -> (r: ClickOutcome)
    requires
        selected@.len() == rows@.len(),
    ensures
        shift && anchor is Some ==> {
            &&& r.select@ == select_calls(range_between(rows@, anchor->0, clicked))
            &&& r.anchor == anchor
            &&& r.reported is None
        },
        !(shift && anchor is Some) && ctrl ==> {
            let now = !row_selected(rows@, selected@, clicked);
            &&& r.select@ == seq![(clicked, now)]
            &&& r.anchor == (if now {
                Some(clicked)
            } else {
                anchor
            })
            &&& r.reported == Some(clicked)
        },
        !(shift && anchor is Some) && !ctrl ==> {
            &&& r.select@ == unselect_calls(rows@, selected@).push((clicked, true))
            &&& r.anchor == Some(clicked)
            &&& r.reported == Some(clicked)
        },
{
    let mut select: Vec<(u64, bool)> = Vec::new();
    if shift && anchor.is_some() {
        let from = match anchor {
            Some(a) => a,
            None => clicked,
        };
        let range = range_selection(rows, &from, &clicked);
        select_all(range.as_slice(), &mut select);
        proof {
            assert(select@ =~= select_calls(range_between(rows@, anchor->0, clicked)));
        }
        return ClickOutcome { select, anchor, reported: None };
    }
    if ctrl {
        let p = position(rows, &clicked);
        let was = p < rows.len() && selected[p];
        select.push((clicked, !was));
        proof {
            assert(select@ =~= seq![(clicked, !was)]);
        }
        let next = if !was {
            Some(clicked)
        } else {
            anchor
        };
        return ClickOutcome { select, anchor: next, reported: Some(clicked) };
    }
    unselect_all(rows, selected, &mut select);
    select.push((clicked, true));
    proof {
        assert(select@ =~= unselect_calls(rows@, selected@).push((clicked, true)));
    }
    ClickOutcome { select, anchor: Some(clicked), reported: Some(clicked) }
}

/// The selection calls of a box selection over the rows it touches, `hit`:
/// unless ctrl is held every selected row is unselected first, then each
/// row touched is selected.
pub fn box_select(rows: &[u64], selected: &[bool], hit: &[u64], ctrl: bool) -> (r: Vec<(u64, bool)>)
    requires
        selected@.len() == rows@.len(),
    ensures
        r@ == (if ctrl {
            Seq::empty()
        } else {
            unselect_calls(rows@, selected@)
        }) + select_calls(hit@),
{
    let mut out: Vec<(u64, bool)> = Vec::new();
    if !ctrl {
        unselect_all(rows, selected, &mut out);
    }
    select_all(hit, &mut out);
    proof {
        if ctrl {
            assert(out@ =~= Seq::<(u64, bool)>::empty() + select_calls(hit@));
        }
    }
    out
}

/// A call on the application's actions that an action icon asks for.
#[derive(Clone, Copy, Debug, PartialEq, Eq, Structural)]
pub enum IconCall {
    /// `on_visibility_toggle`.
    ToggleVisibility,
    /// `on_lock_toggle`.
    ToggleLock,
    /// `on_select` with the given state.
    Select(bool),
    /// `on_custom_action` with the icon's name.
    Custom,
}

/// The call an icon makes on one node.
pub open spec fn icon_call(icon: ActionIcon, selected_now: bool) -> IconCall {
    match icon {
        ActionIcon::Visibility => IconCall::ToggleVisibility,
        ActionIcon::Lock => IconCall::ToggleLock,
        ActionIcon::Selection => IconCall::Select(!selected_now),
        ActionIcon::Custom { .. } => IconCall::Custom,
    }
}

/// The calls a click on `icon` of node `id` makes: the icon's call on the
/// node, then, for a collection and any icon but a custom one, the same
/// call on each node below it in `descendants`. The selection icon thus
/// gives every one of them the opposite of the node's current state, while
/// visibility and lock flip each one separately.
pub fn icon_click(
    icon: &ActionIcon,
    id: u64,
    is_collection: bool,
    descendants: &[u64],
    selected_now: bool,
) -> (r: Vec<(u64, IconCall)>)
    ensures
        ({
            let call = icon_call(*icon, selected_now);
            r@ == seq![(id, call)] + (if is_collection && call != IconCall::Custom {
                descendants@.map_values(|d: u64| (d, call))
            } else {
                Seq::empty()
            })
        }),
{
    let call = match icon {
        ActionIcon::Visibility => IconCall::ToggleVisibility,
        ActionIcon::Lock => IconCall::ToggleLock,
        ActionIcon::Selection => IconCall::Select(!selected_now),
        ActionIcon::Custom { .. } => IconCall::Custom,
    };
    let mut out: Vec<(u64, IconCall)> = Vec::new();
    out.push((id, call));
    let cascade = is_collection && !matches!(call, IconCall::Custom);
    if cascade {
        let mut i: usize = 0;
        while i < descendants.len()
            invariant
                i <= descendants@.len(),
                out@ == seq![(id, call)] + descendants@.take(i as int).map_values(|d: u64| (d, call)),
            decreases descendants.len() - i,
        {
            out.push((descendants[i], call));
            proof {
                assert(out@ =~= seq![(id, call)] + descendants@.take(i + 1).map_values(
                    |d: u64| (d, call),
                ));
            }
            i = i + 1;
        }
        proof {
            assert(descendants@.take(descendants@.len() as int) =~= descendants@);
        }
    } else {
        proof {
            assert(out@ =~= seq![(id, call)] + Seq::<(u64, IconCall)>::empty());
        }
    }
    out
}

/// What the end of a drag leads to.
pub struct DropOutcome {
    /// The completed drop, for `on_move` and for the report.
    pub event: Option<DropEvent<u64>>,
    /// The nodes the drop carried, to report; none when nothing was dropped.
    pub dragged: Option<Vec<u64>>,
    /// Whether the drag is abandoned instead.
    pub cancel: bool,
}

/// The outcome of ending a drag: when `end_drag` gave `(source, target,
/// position)`, the drop is reported with the nodes it carried; otherwise
/// the drag is cancelled.
pub fn drop_outcome(ended: Option<(u64, u64, DropPosition)>, dragged: &[u64]) -> (r: DropOutcome)
    ensures
        match ended {
            Some((s, t, p)) => {
                &&& r.event == Some(DropEvent { source: s, target: t, position: p })
                &&& (r.dragged matches Some(v) && v@ == dragged@)
                &&& !r.cancel
            },
            None => r.event is None && r.dragged is None && r.cancel,
        },
{
    match ended {
        Some((s, t, p)) => {
            let mut v: Vec<u64> = Vec::new();
            let mut i: usize = 0;
            while i < dragged.len()
                invariant
                    i <= dragged@.len(),
                    v@ == dragged@.take(i as int),
                decreases dragged.len() - i,
            {
                v.push(dragged[i]);
                proof {
                    assert(v@ =~= dragged@.take(i + 1));
                }
                i = i + 1;
            }
            proof {
                assert(dragged@.take(dragged@.len() as int) =~= dragged@);
            }
            DropOutcome { event: Some(DropEvent::new(s, t, p)), dragged: Some(v), cancel: false }
        },
        None => DropOutcome { event: None, dragged: None, cancel: true },
    }
}

/// While a drag hovers over `target`, where it would land at `position`:
/// the hover is recorded when the drop is `valid` and forgotten otherwise.
pub fn hover_over(drag: &mut DragDropState<u64>, target: u64, position: DropPosition, valid: bool)
    ensures
        final(drag).dragging == old(drag).dragging,
        valid ==> final(drag).hover_target == Some(target) && final(drag).drop_position == Some(position),
        !valid ==> final(drag).hover_target is None && final(drag).drop_position is None,
{
    if valid {
        drag.update_hover(target, position);
    } else {
        drag.clear_hover();
    }
}

/// What the keys pressed while renaming did.
pub struct EditOutcome {
    /// The finished rename, for `on_rename` and for the report.
    pub renamed: Option<(u64, String)>,
    /// Whether anything changed.
    pub changed: bool,
}

/// The keys pressed while node `id` is being renamed. Enter finishes the
/// rename with the edit field's text; Escape abandons it. Either ends the
/// editing and empties the field; with neither nothing changes.
pub fn finish_edit(state: &mut OutlinerState<u64>, id: u64, enter: bool, escape: bool) -> (r: EditOutcome)
    ensures
        r.changed == (enter || escape),
        enter ==> (r.renamed matches Some((n, text)) && n == id && text@ == old(state).edit_text()@),
        !enter ==> r.renamed is None,
        enter || escape ==> {
            &&& final(state).editing_id() is None
            &&& final(state).edit_text()@ == Seq::<char>::empty()
            &&& final(state).expanded_set() == old(state).expanded_set()
            &&& final(state).drag() == old(state).drag()
            &&& final(state).anchor() == old(state).anchor()
            &&& final(state).dragged() == old(state).dragged()
        },
        !(enter || escape) ==> *final(state) == *old(state),
{
    let mut renamed: Option<(u64, String)> = None;
    if enter {
        let text = state.editing_text().to_string();
        state.stop_editing();
        renamed = Some((id, text));
    }
    if escape {
        state.stop_editing();
    }
    EditOutcome { renamed, changed: enter || escape }
}

} // verus!
