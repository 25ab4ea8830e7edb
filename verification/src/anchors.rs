//! The text buffer's anchor table: spans of live text that links point at.
//! Anchors are identity-agnostic; the link store mirrors them and adds
//! lifecycle metadata. Every text edit is reduced to one `EditEvent`, and a
//! single transform says how each anchor drifts under it.

use vstd::prelude::*;

verus! {

/// A (row, start_col, end_col) span of buffer text, keyed by a caller-assigned
/// id. `edited` records that the span has drifted since it was drawn;
/// `deleted` that its backing text was removed.
#[derive(Debug, Clone, Copy, PartialEq, Eq, Structural)]
pub struct Anchor {
    pub id: usize,
    pub row: usize,
    pub start_col: usize,
    pub end_col: usize,
    pub edited: bool,
    pub deleted: bool,
}

/// One text edit, reduced to what anchor positions care about.
#[derive(Debug, Clone, Copy, PartialEq, Eq, Structural)]
pub enum EditEvent {
    /// `count` characters inserted at column `at` of `row`.
    ColsInserted { row: usize, at: usize, count: usize },
    /// `count` characters removed at column `from` of `row`.
    ColsDeleted { row: usize, from: usize, count: usize },
    /// `row` split at column `at`; the tail became row `row + 1`.
    RowSplit { row: usize, at: usize },
    /// `row` was appended to the previous line, which had length `prev_len`.
    RowsJoined { row: usize, prev_len: usize },
    /// `row` was removed outright.
    RowRemoved { row: usize },
    /// `count` whole rows were inserted so that the first of them became row
    /// `at`.
    RowsInserted { at: usize, count: usize },
    /// The text between the two positions was removed and the boundary rows
    /// joined.
    RangeRemoved { start_row: usize, start_col: usize, end_row: usize, end_col: usize },
}

/// Where an anchor stands after an edit. Already-deleted anchors never move
/// again; an anchor whose span the edit touches is marked deleted.
pub open spec fn anchor_after_event(a: Anchor, e: EditEvent) -> Anchor {
    if a.deleted {
        a
    } else {
        match e {
            EditEvent::ColsInserted { row, at, count } => {
                if a.row != row || at >= a.end_col {
                    a
                } else if at <= a.start_col {
                    Anchor {
                        start_col: (a.start_col + count) as usize,
                        end_col: (a.end_col + count) as usize,
                        edited: true,
                        ..a
                    }
                } else {
                    Anchor { end_col: (a.end_col + count) as usize, edited: true, ..a }
                }
            },
            EditEvent::ColsDeleted { row, from, count } => {
                if a.row != row || from >= a.end_col {
                    a
                } else if from + count <= a.start_col {
                    Anchor {
                        start_col: (a.start_col - count) as usize,
                        end_col: (a.end_col - count) as usize,
                        edited: true,
                        ..a
                    }
                } else {
                    Anchor { deleted: true, ..a }
                }
            },
            EditEvent::RowSplit { row, at } => {
                if a.row > row {
                    Anchor { row: (a.row + 1) as usize, edited: true, ..a }
                } else if a.row == row {
                    if a.end_col <= at {
                        a
                    } else if at <= a.start_col {
                        Anchor {
                            row: (a.row + 1) as usize,
                            start_col: (a.start_col - at) as usize,
                            end_col: (a.end_col - at) as usize,
                            edited: true,
                            ..a
                        }
                    } else {
                        Anchor { deleted: true, ..a }
                    }
                } else {
                    a
                }
            },
            EditEvent::RowsJoined { row, prev_len } => {
                if a.row == row {
                    Anchor {
                        row: (a.row - 1) as usize,
                        start_col: (a.start_col + prev_len) as usize,
                        end_col: (a.end_col + prev_len) as usize,
                        edited: true,
                        ..a
                    }
                } else if a.row > row {
                    Anchor { row: (a.row - 1) as usize, edited: true, ..a }
                } else {
                    a
                }
            },
            EditEvent::RowRemoved { row } => {
                if a.row == row {
                    Anchor { deleted: true, ..a }
                } else if a.row > row {
                    Anchor { row: (a.row - 1) as usize, edited: true, ..a }
                } else {
                    a
                }
            },
            EditEvent::RangeRemoved { start_row, start_col, end_row, end_col } => {
                if a.row < start_row || (a.row == start_row && a.end_col <= start_col) {
                    a
                } else if a.row > end_row {
                    Anchor { row: (a.row - (end_row - start_row)) as usize, edited: true, ..a }
                } else if a.row == end_row && a.start_col >= end_col {
                    Anchor {
                        row: start_row,
                        start_col: (a.start_col - end_col + start_col) as usize,
                        end_col: (a.end_col - end_col + start_col) as usize,
                        edited: true,
                        ..a
                    }
                } else {
                    Anchor { deleted: true, ..a }
                }
            },
            EditEvent::RowsInserted { at, count } => {
                if a.row >= at {
                    Anchor { row: (a.row + count) as usize, edited: true, ..a }
                } else {
                    a
                }
            },
        }
    }
}

/// The arithmetic bounds `anchor_after_event` needs so that no shifted
/// position can overflow a `usize`; all hold of anchors lying inside the
/// buffer the event describes.
pub open spec fn event_fits(a: Anchor, e: EditEvent) -> bool {
    !a.deleted ==> a.start_col <= a.end_col && (match e {
        EditEvent::ColsInserted { row, at, count } => a.row == row ==> a.end_col + count
            <= usize::MAX,
        EditEvent::ColsDeleted { .. } => true,
        EditEvent::RowSplit { .. } => a.row + 1 <= usize::MAX,
        EditEvent::RowsJoined { row, prev_len } => (a.row == row ==> a.end_col + prev_len
            <= usize::MAX) && (a.row >= row ==> a.row >= 1),
        EditEvent::RowRemoved { .. } => true,
        EditEvent::RangeRemoved { start_row, start_col, end_row, end_col } => start_row <= end_row
            && (a.row == end_row && a.start_col >= end_col ==> a.end_col + start_col
            <= usize::MAX + end_col),
        EditEvent::RowsInserted { at, count } => a.row >= at ==> a.row + count <= usize::MAX,
    })
}

/// Ids of the anchors, in table order, that `e` newly marks deleted.
pub open spec fn newly_deleted_ids(anchors: Seq<Anchor>, e: EditEvent) -> Seq<usize>
    decreases anchors.len(),
{
    if anchors.len() == 0 {
        Seq::empty()
    } else {
        let a = anchors.last();
        newly_deleted_ids(anchors.drop_last(), e) + if !a.deleted && anchor_after_event(
            a,
            e,
        ).deleted {
            seq![a.id]
        } else {
            Seq::empty()
        }
    }
}

/// The first anchor in table order with the given id.
pub open spec fn anchor_lookup(anchors: Seq<Anchor>, id: int) -> Option<Anchor>
    decreases anchors.len(),
{
    if anchors.len() == 0 {
        None
    } else if anchors[0].id == id {
        Some(anchors[0])
    } else {
        anchor_lookup(anchors.drop_first(), id)
    }
}

/// No anchor matches an id no `usize` can hold.
pub proof fn lemma_anchor_lookup_out_of_range(anchors: Seq<Anchor>, id: int)
    requires
        id < 0 || id > usize::MAX,
    ensures
        anchor_lookup(anchors, id) is None,
    decreases anchors.len(),
{
    if anchors.len() > 0 {
        lemma_anchor_lookup_out_of_range(anchors.drop_first(), id);
    }
}

/// Look an anchor up by id.
pub fn find_anchor(anchors: &Vec<Anchor>, id: usize) -> (r: Option<Anchor>)
    ensures
        r == anchor_lookup(anchors@, id as int),
{
    proof {
        assert(anchors@.skip(0) =~= anchors@);
    }
    let mut i: usize = 0;
    while i < anchors.len()
        invariant
            i <= anchors@.len(),
            anchor_lookup(anchors@, id as int) == anchor_lookup(anchors@.skip(i as int), id as int),
        decreases anchors@.len() - i,
    {
        proof {
            assert(anchors@.skip(i as int)[0] == anchors@[i as int]);
            assert(anchors@.skip(i as int).drop_first() =~= anchors@.skip(i + 1));
        }
        if anchors[i].id == id {
            return Some(anchors[i]);
        }
        i = i + 1;
    }
    proof {
        assert(anchors@.skip(anchors@.len() as int) =~= Seq::<Anchor>::empty());
    }
    None
}

/// Executable form of `anchor_after_event`.
pub fn anchor_apply(a: Anchor, e: EditEvent) -> (r: Anchor)
    requires
        event_fits(a, e),
    ensures
        r == anchor_after_event(a, e),
{
    if a.deleted {
        return a;
    }
    match e {
        EditEvent::ColsInserted { row, at, count } => {
            if a.row != row || at >= a.end_col {
                a
            } else if at <= a.start_col {
                Anchor {
                    start_col: a.start_col + count,
                    end_col: a.end_col + count,
                    edited: true,
                    ..a
                }
            } else {
                Anchor { end_col: a.end_col + count, edited: true, ..a }
            }
        },
        EditEvent::ColsDeleted { row, from, count } => {
            if a.row != row || from >= a.end_col {
                a
            } else if count <= a.start_col && from <= a.start_col - count {
                Anchor {
                    start_col: a.start_col - count,
                    end_col: a.end_col - count,
                    edited: true,
                    ..a
                }
            } else {
                Anchor { deleted: true, ..a }
            }
        },
        EditEvent::RowSplit { row, at } => {
            if a.row > row {
                Anchor { row: a.row + 1, edited: true, ..a }
            } else if a.row == row {
                if a.end_col <= at {
                    a
                } else if at <= a.start_col {
                    Anchor {
                        row: a.row + 1,
                        start_col: a.start_col - at,
                        end_col: a.end_col - at,
                        edited: true,
                        ..a
                    }
                } else {
                    Anchor { deleted: true, ..a }
                }
            } else {
                a
            }
        },
        EditEvent::RowsJoined { row, prev_len } => {
            if a.row == row {
                Anchor {
                    row: a.row - 1,
                    start_col: a.start_col + prev_len,
                    end_col: a.end_col + prev_len,
                    edited: true,
                    ..a
                }
            } else if a.row > row {
                Anchor { row: a.row - 1, edited: true, ..a }
            } else {
                a
            }
        },
        EditEvent::RowRemoved { row } => {
            if a.row == row {
                Anchor { deleted: true, ..a }
            } else if a.row > row {
                Anchor { row: a.row - 1, edited: true, ..a }
            } else {
                a
            }
        },
        EditEvent::RangeRemoved { start_row, start_col, end_row, end_col } => {
            if a.row < start_row || (a.row == start_row && a.end_col <= start_col) {
                a
            } else if a.row > end_row {
                Anchor { row: a.row - (end_row - start_row), edited: true, ..a }
            } else if a.row == end_row && a.start_col >= end_col {
                Anchor {
                    row: start_row,
                    start_col: a.start_col - end_col + start_col,
                    end_col: a.end_col - end_col + start_col,
                    edited: true,
                    ..a
                }
            } else {
                Anchor { deleted: true, ..a }
            }
        },
        EditEvent::RowsInserted { at, count } => {
            if a.row >= at {
                Anchor { row: a.row + count, edited: true, ..a }
            } else {
                a
            }
        },
    }
}

} // verus!
