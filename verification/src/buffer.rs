//! The multi-line text buffer: character storage, cursor motion, line and
//! word edits, the anchor table links point at, a clipboard, snapshots for
//! undo and redo, and plain-text search. It knows nothing of notes or
//! persistence; the editor drives it one operation at a time.

use vstd::prelude::*;

use crate::anchors::{anchor_after_event, event_fits, newly_deleted_ids, Anchor, EditEvent};
use crate::anchors::anchor_apply;
use crate::input::{Input, Key};
use crate::text::{chars_string, copy_lines, copy_vec, string_chars, sub_chars};
use crate::words::{find_word_start_backward, find_word_start_forward, find_word_end_forward};
use crate::words::{word_start_backward, word_start_forward, word_end_forward};

verus! {

/// A cursor motion.
#[derive(Debug, Clone, Copy, PartialEq, Eq, Structural)]
pub enum CursorMove {
    Forward,
    Back,
    Up,
    Down,
    Head,
    End,
    Top,
    Bottom,
    WordForward,
    WordBack,
    Jump(u16, u16),
}

/// The clipboard: either a run of characters within a line or whole lines.
#[derive(Debug, Clone)]
pub enum YankText {
    Piece(Vec<char>),
    Chunk(Vec<Vec<char>>),
}

/// One undo step: the text, cursor and anchor table as they stood.
#[derive(Debug, Clone)]
pub struct Snapshot {
    pub lines: Vec<Vec<char>>,
    pub cursor_row: usize,
    pub cursor_col: usize,
    pub links: Vec<Anchor>,
}

/// The text buffer.
#[derive(Debug, Clone)]
pub struct TextBuffer {
    pub lines: Vec<Vec<char>>,
    pub cursor_row: usize,
    pub cursor_col: usize,
    /// The anchor table, in insertion order, ids unique.
    pub links: Vec<Anchor>,
    /// Ids newly marked deleted by edits, not yet drained by the caller.
    pub deleted_link_ids: Vec<usize>,
    /// One-shot signal: the last insertion completed a link gesture.
    pub new_link: bool,
    /// Id the next drawn anchor receives.
    pub next_link_id: usize,
    pub yank: YankText,
    pub select_start: Option<(usize, usize)>,
    pub search_pattern: Vec<char>,
    pub hop_matches: Vec<(usize, usize)>,
    pub history: Vec<Snapshot>,
    pub redo_stack: Vec<Snapshot>,
    pub max_col: u16,
}

/// The buffer's text as a sequence of character sequences.
pub open spec fn text_of(lines: Seq<Vec<char>>) -> Seq<Seq<char>> {
    lines.map_values(|l: Vec<char>| l@)
}

/// Anchors lie inside the text they annotate: a span is ordered, and a live
/// span names a real row and columns within it.
pub open spec fn anchors_wf(anchors: Seq<Anchor>, text: Seq<Seq<char>>) -> bool {
    forall|i: int|
        0 <= i < anchors.len() ==> {
            let a = #[trigger] anchors[i];
            !a.deleted ==> a.start_col <= a.end_col && a.row < text.len() && a.end_col <= text[a.row as int].len()
        }
}

impl Snapshot {
    /// A snapshot is itself a consistent buffer state.
    pub open spec fn wf(self) -> bool {
        &&& self.lines@.len() >= 1
        &&& self.cursor_row < self.lines@.len()
        &&& self.cursor_col <= self.lines@[self.cursor_row as int]@.len()
        &&& anchors_wf(self.links@, text_of(self.lines@))
    }
}

impl TextBuffer {
    /// The buffer's text.
    pub open spec fn text(self) -> Seq<Seq<char>> {
        text_of(self.lines@)
    }

    /// The buffer's editable state.
    pub open spec fn view(self) -> BufView {
        BufView {
            text: self.text(),
            row: self.cursor_row as int,
            col: self.cursor_col as int,
            anchors: self.links@,
            dli: self.deleted_link_ids@,
            yank: yank_view(self.yank),
        }
    }

    /// There is always at least one line, the cursor lies on a line at or
    /// before its end, anchors lie inside the text, and every stored
    /// snapshot is itself consistent.
    pub open spec fn wf(self) -> bool {
        &&& self.lines@.len() >= 1
        &&& self.cursor_row < self.lines@.len()
        &&& self.cursor_col <= self.text()[self.cursor_row as int].len()
        &&& anchors_wf(self.links@, self.text())
        &&& forall|i: int| 0 <= i < self.history@.len() ==> (#[trigger] self.history@[i]).wf()
        &&& forall|i: int| 0 <= i < self.redo_stack@.len() ==> (#[trigger] self.redo_stack@[i]).wf()
    }

    /// Text, cursor, anchor table and pending-deletion list all unchanged.
    pub open spec fn same_content(b0: TextBuffer, b1: TextBuffer) -> bool {
        &&& b1.lines@ == b0.lines@
        &&& b1.cursor_row == b0.cursor_row
        &&& b1.cursor_col == b0.cursor_col
        &&& b1.links@ == b0.links@
        &&& b1.deleted_link_ids@ == b0.deleted_link_ids@
    }

    /// Text, anchor table and pending-deletion list unchanged: only the
    /// cursor may have moved.
    pub open spec fn same_text_and_links(b0: TextBuffer, b1: TextBuffer) -> bool {
        &&& b1.lines@ == b0.lines@
        &&& b1.links@ == b0.links@
        &&& b1.deleted_link_ids@ == b0.deleted_link_ids@
    }

    /// Undo and redo stacks unchanged.
    pub open spec fn same_undo(b0: TextBuffer, b1: TextBuffer) -> bool {
        &&& b1.history@ == b0.history@
        &&& b1.redo_stack@ == b0.redo_stack@
    }

    /// Selection, search pattern, hop matches and width unchanged.
    pub open spec fn same_nav(b0: TextBuffer, b1: TextBuffer) -> bool {
        &&& b1.select_start == b0.select_start
        &&& b1.search_pattern@ == b0.search_pattern@
        &&& b1.hop_matches@ == b0.hop_matches@
        &&& b1.max_col == b0.max_col
    }

    /// Link-gesture signal and id counter unchanged.
    pub open spec fn same_link_meta(b0: TextBuffer, b1: TextBuffer) -> bool {
        &&& b1.new_link == b0.new_link
        &&& b1.next_link_id == b0.next_link_id
    }

    /// Everything but text, cursor, anchors and the pending-deletion list is
    /// unchanged.
    pub open spec fn same_extras(b0: TextBuffer, b1: TextBuffer) -> bool {
        &&& TextBuffer::same_link_meta(b0, b1)
        &&& b1.yank == b0.yank
        &&& TextBuffer::same_nav(b0, b1)
        &&& TextBuffer::same_undo(b0, b1)
    }

    /// The buffer wholly unchanged.
    pub open spec fn unchanged(b0: TextBuffer, b1: TextBuffer) -> bool {
        &&& TextBuffer::same_content(b0, b1)
        &&& b1.cursor_row == b0.cursor_row
        &&& b1.cursor_col == b0.cursor_col
        &&& TextBuffer::same_extras(b0, b1)
    }

    /// Text, cursor, anchors, clipboard and link metadata unchanged; the
    /// undo stacks are left unconstrained.
    pub open spec fn content_unchanged(b0: TextBuffer, b1: TextBuffer) -> bool {
        &&& TextBuffer::same_content(b0, b1)
        &&& b1.cursor_row == b0.cursor_row
        &&& b1.cursor_col == b0.cursor_col
        &&& TextBuffer::same_link_meta(b0, b1)
        &&& b1.yank == b0.yank
        &&& TextBuffer::same_nav(b0, b1)
    }

    /// What a paste does to the text, cursor, anchors and clipboard; the
    /// undo stacks are not constrained here.
    pub open spec fn paste_content(b0: TextBuffer, b1: TextBuffer) -> bool {
        match b0.yank {
            YankText::Piece(p) => {
                if p@.len() > 0 {
                    let r = b0.cursor_row as int;
                    let c = b0.cursor_col as int;
                    let line = b0.text()[r];
                    &&& b1.text() =~= b0.text().update(
                        r,
                        line.subrange(0, c) + p@ + line.subrange(c, line.len() as int),
                    )
                    &&& b1.cursor_row == b0.cursor_row
                    &&& b1.cursor_col == b0.cursor_col + p@.len()
                    &&& TextBuffer::links_after(
                        b0,
                        b1,
                        (EditEvent::ColsInserted {
                            row: b0.cursor_row,
                            at: b0.cursor_col,
                            count: p@.len() as usize,
                        }),
                    )
                    &&& b1.yank == b0.yank
                    &&& TextBuffer::same_link_meta(b0, b1)
                    &&& TextBuffer::same_nav(b0, b1)
                } else {
                    TextBuffer::content_unchanged(b0, b1)
                }
            },
            YankText::Chunk(ls) => {
                if ls@.len() > 0 {
                    let r = b0.cursor_row as int;
                    let n = b0.text().len() as int;
                    &&& b1.text() =~= b0.text().subrange(0, r + 1) + ls@.map_values(
                        |l: Vec<char>| l@,
                    ) + b0.text().subrange(r + 1, n)
                    &&& b1.cursor_row == b0.cursor_row + 1
                    &&& b1.cursor_col == 0
                    &&& TextBuffer::links_after(
                        b0,
                        b1,
                        (EditEvent::RowsInserted {
                            at: (b0.cursor_row + 1) as usize,
                            count: ls@.len() as usize,
                        }),
                    )
                    &&& b1.yank == b0.yank
                    &&& TextBuffer::same_link_meta(b0, b1)
                    &&& TextBuffer::same_nav(b0, b1)
                } else {
                    TextBuffer::content_unchanged(b0, b1)
                }
            },
        }
    }

    /// What `undo` does: restore the most recent undo step, pushing the
    /// current state onto the redo stack; a no-op without undo steps.
    pub open spec fn undone(b0: TextBuffer, b1: TextBuffer) -> bool {
        if b0.history@.len() == 0 {
            TextBuffer::unchanged(b0, b1)
        } else {
            let s = b0.history@.last();
            &&& b1.text() == text_of(s.lines@)
            &&& b1.cursor_row == s.cursor_row
            &&& b1.cursor_col == s.cursor_col
            &&& b1.links@ == s.links@
            &&& b1.history@ == b0.history@.drop_last()
            &&& b1.redo_stack@.len() == b0.redo_stack@.len() + 1
            &&& b1.redo_stack@.subrange(0, b0.redo_stack@.len() as int) == b0.redo_stack@
            &&& ({
                let r = b1.redo_stack@.last();
                text_of(r.lines@) == b0.text() && r.cursor_row == b0.cursor_row && r.cursor_col
                    == b0.cursor_col && r.links@ == b0.links@
            })
            &&& b1.deleted_link_ids@ == b0.deleted_link_ids@
            &&& TextBuffer::same_link_meta(b0, b1)
            &&& b1.yank == b0.yank
            &&& b1.select_start == b0.select_start
            &&& b1.search_pattern@ == b0.search_pattern@
            &&& b1.hop_matches@ == b0.hop_matches@
            &&& b1.max_col == b0.max_col
        }
    }

    /// What `redo` does: restore the most recent redo step, pushing the
    /// current state back onto the undo history; a no-op without redo steps.
    pub open spec fn redone(b0: TextBuffer, b1: TextBuffer) -> bool {
        if b0.redo_stack@.len() == 0 {
            TextBuffer::unchanged(b0, b1)
        } else {
            let s = b0.redo_stack@.last();
            &&& b1.text() == text_of(s.lines@)
            &&& b1.cursor_row == s.cursor_row
            &&& b1.cursor_col == s.cursor_col
            &&& b1.links@ == s.links@
            &&& b1.redo_stack@ == b0.redo_stack@.drop_last()
            &&& b1.history@.len() == b0.history@.len() + 1
            &&& b1.history@.subrange(0, b0.history@.len() as int) == b0.history@
            &&& ({
                let r = b1.history@.last();
                text_of(r.lines@) == b0.text() && r.cursor_row == b0.cursor_row && r.cursor_col
                    == b0.cursor_col && r.links@ == b0.links@
            })
            &&& b1.deleted_link_ids@ == b0.deleted_link_ids@
            &&& TextBuffer::same_link_meta(b0, b1)
            &&& b1.yank == b0.yank
            &&& b1.select_start == b0.select_start
            &&& b1.search_pattern@ == b0.search_pattern@
            &&& b1.hop_matches@ == b0.hop_matches@
            &&& b1.max_col == b0.max_col
        }
    }

    /// The anchor table has drifted under `e` and the ids newly marked
    /// deleted were appended to the pending-deletion list.
    pub open spec fn links_after(b0: TextBuffer, b1: TextBuffer, e: EditEvent) -> bool {
        &&& b1.links@ == b0.links@.map_values(|a: Anchor| anchor_after_event(a, e))
        &&& b1.deleted_link_ids@ == b0.deleted_link_ids@ + newly_deleted_ids(b0.links@, e)
    }

    /// `count` characters were removed from the cursor line at `from`; the
    /// cursor moved to `from`, and the removed run went to the clipboard when
    /// `yanked`.
    pub open spec fn chars_removed(
        b0: TextBuffer,
        b1: TextBuffer,
        from: usize,
        count: usize,
        yanked: bool,
    ) -> bool {
        let r = b0.cursor_row as int;
        let line = b0.text()[r];
        &&& b1.text() =~= b0.text().update(
            r,
            line.subrange(0, from as int) + line.subrange(from + count, line.len() as int),
        )
        &&& b1.cursor_row == b0.cursor_row
        &&& b1.cursor_col == from
        &&& TextBuffer::links_after(
            b0,
            b1,
            (EditEvent::ColsDeleted { row: b0.cursor_row, from, count }),
        )
        &&& if yanked {
            b1.yank matches YankText::Piece(p) && p@ == line.subrange(
                from as int,
                from + count,
            )
        } else {
            b1.yank == b0.yank
        }
        &&& TextBuffer::same_link_meta(b0, b1)
        &&& TextBuffer::same_nav(b0, b1)
        &&& TextBuffer::same_undo(b0, b1)
    }

    /// One character was inserted at the cursor, which moved past it.
    pub open spec fn char_inserted(b0: TextBuffer, b1: TextBuffer, c: char) -> bool {
        let r = b0.cursor_row as int;
        &&& b1.text() =~= b0.text().update(r, b0.text()[r].insert(b0.cursor_col as int, c))
        &&& b1.cursor_row == b0.cursor_row
        &&& b1.cursor_col == b0.cursor_col + 1
        &&& TextBuffer::links_after(
            b0,
            b1,
            (EditEvent::ColsInserted { row: b0.cursor_row, at: b0.cursor_col, count: 1 }),
        )
        &&& b1.yank == b0.yank
        &&& TextBuffer::same_link_meta(b0, b1)
        &&& TextBuffer::same_nav(b0, b1)
        &&& TextBuffer::same_undo(b0, b1)
    }

    /// The cursor line was split at the cursor; the cursor moved to the head
    /// of the new line.
    pub open spec fn line_split(b0: TextBuffer, b1: TextBuffer) -> bool {
        let r = b0.cursor_row as int;
        let c = b0.cursor_col as int;
        let line = b0.text()[r];
        &&& b1.text() =~= b0.text().update(r, line.subrange(0, c)).insert(
            r + 1,
            line.subrange(c, line.len() as int),
        )
        &&& b1.cursor_row == b0.cursor_row + 1
        &&& b1.cursor_col == 0
        &&& TextBuffer::links_after(
            b0,
            b1,
            (EditEvent::RowSplit { row: b0.cursor_row, at: b0.cursor_col }),
        )
        &&& b1.yank == b0.yank
        &&& TextBuffer::same_link_meta(b0, b1)
        &&& TextBuffer::same_nav(b0, b1)
        &&& TextBuffer::same_undo(b0, b1)
    }

    /// The cursor line was removed outright. In a one-line buffer the line is
    /// emptied instead; otherwise the cursor stays on the same row index
    /// (clamped to the new last row), or moves one row up when `up` is set,
    /// with its column clamped to the destination line's end. The removed
    /// line goes to the clipboard as a whole-line chunk.
    pub open spec fn line_deleted(b0: TextBuffer, b1: TextBuffer, up: bool) -> bool {
        let r = b0.cursor_row as int;
        let n = b0.text().len();
        &&& if n == 1 {
            b1.text() =~= seq![Seq::<char>::empty()] && b1.cursor_row == 0 && b1.cursor_col == 0
                && TextBuffer::links_after(b0, b1, (EditEvent::RowRemoved { row: 0 }))
        } else {
            let r2 = if up {
                if r > 0 {
                    r - 1
                } else {
                    0
                }
            } else {
                if r < n - 1 {
                    r
                } else {
                    n - 2
                }
            };
            &&& b1.text() =~= b0.text().remove(r)
            &&& b1.cursor_row == r2
            &&& b1.cursor_col == imin(b0.cursor_col as int, b1.text()[r2].len() as int)
            &&& TextBuffer::links_after(b0, b1, (EditEvent::RowRemoved { row: b0.cursor_row }))
        }
        &&& (b1.yank matches YankText::Chunk(ls) && ls@.len() == 1 && ls@[0]@ == b0.text()[r])
        &&& TextBuffer::same_link_meta(b0, b1)
        &&& TextBuffer::same_nav(b0, b1)
        &&& TextBuffer::same_undo(b0, b1)
    }

    /// A run of characters was inserted at the cursor, which moved past it.
    pub open spec fn piece_pasted(b0: TextBuffer, b1: TextBuffer, cs: Seq<char>) -> bool {
        let r = b0.cursor_row as int;
        let c = b0.cursor_col as int;
        let line = b0.text()[r];
        &&& b1.text() =~= b0.text().update(
            r,
            line.subrange(0, c) + cs + line.subrange(c, line.len() as int),
        )
        &&& b1.cursor_row == b0.cursor_row
        &&& b1.cursor_col == b0.cursor_col + cs.len()
        &&& TextBuffer::links_after(
            b0,
            b1,
            (EditEvent::ColsInserted {
                row: b0.cursor_row,
                at: b0.cursor_col,
                count: cs.len() as usize,
            }),
        )
        &&& b1.yank == b0.yank
        &&& TextBuffer::same_link_meta(b0, b1)
        &&& TextBuffer::same_nav(b0, b1)
        &&& TextBuffer::same_undo(b0, b1)
    }

    /// Whole lines were inserted below the cursor line; the cursor moved to
    /// the head of the first of them.
    pub open spec fn chunk_pasted(b0: TextBuffer, b1: TextBuffer, ls: Seq<Seq<char>>) -> bool {
        let r = b0.cursor_row as int;
        let n = b0.text().len() as int;
        &&& b1.text() =~= b0.text().subrange(0, r + 1) + ls + b0.text().subrange(r + 1, n)
        &&& b1.cursor_row == b0.cursor_row + 1
        &&& b1.cursor_col == 0
        &&& TextBuffer::links_after(
            b0,
            b1,
            (EditEvent::RowsInserted {
                at: (b0.cursor_row + 1) as usize,
                count: ls.len() as usize,
            }),
        )
        &&& b1.yank == b0.yank
        &&& TextBuffer::same_link_meta(b0, b1)
        &&& TextBuffer::same_nav(b0, b1)
        &&& TextBuffer::same_undo(b0, b1)
    }

    /// Row `r` was appended to the row above it and removed.
    pub open spec fn rows_joined(b0: TextBuffer, b1: TextBuffer, r: int) -> bool {
        &&& b1.text() =~= b0.text().update(r - 1, b0.text()[r - 1] + b0.text()[r]).remove(r)
        &&& TextBuffer::links_after(
            b0,
            b1,
            (EditEvent::RowsJoined {
                row: r as usize,
                prev_len: b0.text()[r - 1].len() as usize,
            }),
        )
        &&& b1.yank == b0.yank
        &&& TextBuffer::same_link_meta(b0, b1)
        &&& TextBuffer::same_nav(b0, b1)
        &&& TextBuffer::same_undo(b0, b1)
    }
}

/// The clipboard, mathematically.
pub ghost enum YankView {
    Piece(Seq<char>),
    Chunk(Seq<Seq<char>>),
}

/// The clipboard's mathematical value.
pub open spec fn yank_view(y: YankText) -> YankView {
    match y {
        YankText::Piece(p) => YankView::Piece(p@),
        YankText::Chunk(ls) => YankView::Chunk(ls@.map_values(|l: Vec<char>| l@)),
    }
}

/// The editable state of a buffer: what one editing step may change.
pub ghost struct BufView {
    pub text: Seq<Seq<char>>,
    pub row: int,
    pub col: int,
    pub anchors: Seq<Anchor>,
    pub dli: Seq<usize>,
    pub yank: YankView,
}

/// `f` applied to `v`, `n` times over.
pub open spec fn apply_n(f: spec_fn(BufView) -> BufView, v: BufView, n: nat) -> BufView
    decreases n,
{
    if n == 0 {
        v
    } else {
        apply_n(f, f(v), (n - 1) as nat)
    }
}

/// Applying `f` one more time applies it to the result so far.
pub proof fn apply_n_snoc(f: spec_fn(BufView) -> BufView, v: BufView, n: nat)
    ensures
        apply_n(f, v, n + 1) == f(apply_n(f, v, n)),
    decreases n,
{
    if n == 0 {
        assert(apply_n(f, v, 1) == apply_n(f, f(v), 0));
    } else {
        apply_n_snoc(f, f(v), (n - 1) as nat);
        assert(apply_n(f, v, n + 1) == apply_n(f, f(v), n));
        assert(apply_n(f, v, n) == apply_n(f, f(v), (n - 1) as nat));
    }
}

/// The smaller of two integers.
pub open spec fn imin(a: int, b: int) -> int {
    if a <= b {
        a
    } else {
        b
    }
}

/// An anchor that does not fit the text it is to annotate references dead
/// text and is taken as deleted; all others are kept as they are.
pub open spec fn sanitize_anchor(a: Anchor, text: Seq<Seq<char>>) -> Anchor {
    if a.deleted {
        a
    } else if a.start_col <= a.end_col && a.row < text.len() && a.end_col <= text[a.row as int].len() {
        a
    } else {
        Anchor { start_col: 0, end_col: 0, deleted: true, ..a }
    }
}

/// The two endpoints of a selection in buffer order: begin, then end.
pub open spec fn sel_ordered(sr: int, sc: int, cr: int, cc: int) -> (int, int, int, int) {
    if sr < cr || (sr == cr && sc <= cc) {
        (sr, sc, cr, cc)
    } else {
        (cr, cc, sr, sc)
    }
}

/// A position lies within the text: on a real row, at or before its end.
pub open spec fn pos_valid(text: Seq<Seq<char>>, r: int, c: int) -> bool {
    0 <= r < text.len() && 0 <= c <= text[r].len()
}

/// The selected text between two ordered positions, one sequence per touched
/// row.
pub open spec fn sel_parts(
    text: Seq<Seq<char>>,
    ar: int,
    ac: int,
    br: int,
    bc: int,
) -> Seq<Seq<char>> {
    if ar == br {
        seq![text[ar].subrange(ac, bc)]
    } else {
        seq![text[ar].subrange(ac, text[ar].len() as int)] + text.subrange(ar + 1, br) + seq![
            text[br].subrange(0, bc),
        ]
    }
}

/// One deletion of `count` characters at `from` of the current line, the
/// cursor left at `from`, the run yanked when asked.
pub open spec fn view_remove_cols(v: BufView, from: int, count: int, yanked: bool) -> BufView {
    let line = v.text[v.row];
    let e = EditEvent::ColsDeleted { row: v.row as usize, from: from as usize, count: count as usize };
    BufView {
        text: v.text.update(v.row, line.subrange(0, from) + line.subrange(from + count, line.len() as int)),
        row: v.row,
        col: from,
        anchors: v.anchors.map_values(|a: Anchor| anchor_after_event(a, e)),
        dli: v.dli + newly_deleted_ids(v.anchors, e),
        yank: if yanked {
            YankView::Piece(line.subrange(from, from + count))
        } else {
            v.yank
        },
    }
}

/// Row `r` joined onto the row above; the cursor is left untouched.
pub open spec fn view_join(v: BufView, r: int) -> BufView {
    let e = EditEvent::RowsJoined { row: r as usize, prev_len: v.text[r - 1].len() as usize };
    BufView {
        text: v.text.update(r - 1, v.text[r - 1] + v.text[r]).remove(r),
        anchors: v.anchors.map_values(|a: Anchor| anchor_after_event(a, e)),
        dli: v.dli + newly_deleted_ids(v.anchors, e),
        ..v
    }
}

/// One backward newline deletion.
pub open spec fn step_delete_newline(v: BufView) -> BufView {
    if v.row == 0 {
        v
    } else {
        BufView { row: v.row - 1, col: v.text[v.row - 1].len() as int, ..view_join(v, v.row) }
    }
}

/// One backward character deletion.
pub open spec fn step_backspace(v: BufView) -> BufView {
    if v.col > 0 {
        view_remove_cols(v, v.col - 1, 1, false)
    } else {
        step_delete_newline(v)
    }
}

/// One forward character deletion.
pub open spec fn step_delete_next_char(v: BufView) -> BufView {
    if v.col < v.text[v.row].len() {
        view_remove_cols(v, v.col, 1, false)
    } else if v.row + 1 < v.text.len() {
        view_join(v, v.row + 1)
    } else {
        v
    }
}

/// One deletion to end of line.
pub open spec fn step_delete_line_by_end(v: BufView) -> BufView {
    if v.col < v.text[v.row].len() {
        view_remove_cols(v, v.col, v.text[v.row].len() - v.col, true)
    } else {
        step_delete_next_char(v)
    }
}

/// One backward word deletion.
pub open spec fn step_delete_word(v: BufView) -> BufView {
    match word_start_backward(v.text[v.row], v.col) {
        Some(c2) => view_remove_cols(v, c2, v.col - c2, true),
        None => {
            if v.col > 0 {
                view_remove_cols(v, 0, v.col, true)
            } else {
                step_delete_newline(v)
            }
        },
    }
}

/// One forward word deletion.
pub open spec fn step_delete_next_word(v: BufView) -> BufView {
    match word_end_forward(v.text[v.row], v.col) {
        Some(c2) => view_remove_cols(v, v.col, c2 - v.col, true),
        None => {
            if v.col < v.text[v.row].len() {
                view_remove_cols(v, v.col, v.text[v.row].len() - v.col, true)
            } else {
                step_delete_next_char(v)
            }
        },
    }
}

/// One whole-line deletion.
pub open spec fn step_delete_line(v: BufView, up: bool) -> BufView {
    let r = v.row;
    let n = v.text.len() as int;
    let yanked = YankView::Chunk(seq![v.text[r]]);
    if n == 1 {
        let e = EditEvent::RowRemoved { row: 0 };
        BufView {
            text: seq![Seq::<char>::empty()],
            row: 0,
            col: 0,
            anchors: v.anchors.map_values(|a: Anchor| anchor_after_event(a, e)),
            dli: v.dli + newly_deleted_ids(v.anchors, e),
            yank: yanked,
        }
    } else {
        let e = EditEvent::RowRemoved { row: r as usize };
        let ntext = v.text.remove(r);
        let r2 = if up {
            if r > 0 {
                r - 1
            } else {
                0
            }
        } else {
            if r < n - 1 {
                r
            } else {
                n - 2
            }
        };
        BufView {
            text: ntext,
            row: r2,
            col: imin(v.col, ntext[r2].len() as int),
            anchors: v.anchors.map_values(|a: Anchor| anchor_after_event(a, e)),
            dli: v.dli + newly_deleted_ids(v.anchors, e),
            yank: yanked,
        }
    }
}

/// Repeating the line deletion `n` times removes exactly the `n` lines from
/// the cursor's row on, and the cursor stays on its row index, as long as at
/// least one line lies beyond them.
pub proof fn lemma_repeated_line_deletes(f: spec_fn(BufView) -> BufView, v: BufView, n: nat)
    requires
        forall|x: BufView| #[trigger] f(x) == step_delete_line(x, false),
        0 <= v.row,
        v.row + n < v.text.len(),
    ensures
        apply_n(f, v, n).text =~= v.text.subrange(0, v.row) + v.text.subrange(
            v.row + n,
            v.text.len() as int,
        ),
        apply_n(f, v, n).row == v.row,
    decreases n,
{
    if n == 0 {
        assert(apply_n(f, v, 0) == v);
        assert(v.text =~= v.text.subrange(0, v.row) + v.text.subrange(
            v.row,
            v.text.len() as int,
        ));
    } else {
        let v1 = f(v);
        assert(v1 == step_delete_line(v, false));
        assert(v1.text =~= v.text.remove(v.row));
        assert(v1.row == v.row);
        assert(apply_n(f, v, n) == apply_n(f, v1, (n - 1) as nat));
        lemma_repeated_line_deletes(f, v1, (n - 1) as nat);
        assert(v1.text.subrange(0, v1.row) =~= v.text.subrange(0, v.row));
        assert(v1.text.subrange(v1.row + (n - 1), v1.text.len() as int) =~= v.text.subrange(
            v.row + n,
            v.text.len() as int,
        ));
    }
}

/// One cursor motion, seen on the view.
pub open spec fn step_move(v: BufView, m: CursorMove) -> BufView {
    let (r, c) = move_target(v.text, v.row, v.col, m);
    BufView { row: r, col: c, ..v }
}

/// One line split at the cursor, seen on the view.
pub open spec fn step_split(v: BufView) -> BufView {
    let line = v.text[v.row];
    let e = EditEvent::RowSplit { row: v.row as usize, at: v.col as usize };
    BufView {
        text: v.text.update(v.row, line.subrange(0, v.col)).insert(
            v.row + 1,
            line.subrange(v.col, line.len() as int),
        ),
        row: v.row + 1,
        col: 0,
        anchors: v.anchors.map_values(|a: Anchor| anchor_after_event(a, e)),
        dli: v.dli + newly_deleted_ids(v.anchors, e),
        ..v
    }
}

/// The pattern occurs in row `r` at column `c`.
pub open spec fn match_at(text: Seq<Seq<char>>, pat: Seq<char>, r: int, c: int) -> bool {
    &&& 0 <= r < text.len()
    &&& 0 <= c
    &&& c + pat.len() <= text[r].len()
    &&& pat.len() > 0
    &&& text[r].subrange(c, c + pat.len()) == pat
}

/// The columns at or after `c` where the pattern occurs in this line, in
/// order.
pub open spec fn row_matches(line: Seq<char>, pat: Seq<char>, c: int) -> Seq<int>
    decreases line.len() - c,
{
    if c < 0 || pat.len() == 0 || c + pat.len() > line.len() {
        Seq::empty()
    } else {
        (if line.subrange(c, c + pat.len()) == pat {
            seq![c]
        } else {
            Seq::<int>::empty()
        }) + row_matches(line, pat, c + 1)
    }
}

/// All positions at or after row `r` where the pattern occurs, in scan order:
/// top to bottom, left to right.
pub open spec fn matches_from(text: Seq<Seq<char>>, pat: Seq<char>, r: int) -> Seq<(int, int)>
    decreases text.len() - r,
{
    if r < 0 || r >= text.len() {
        Seq::empty()
    } else {
        row_matches(text[r], pat, 0).map_values(|c: int| (r, c)) + matches_from(text, pat, r + 1)
    }
}

/// All positions where the pattern occurs, in scan order.
pub open spec fn all_matches(text: Seq<Seq<char>>, pat: Seq<char>) -> Seq<(int, int)> {
    matches_from(text, pat, 0)
}

/// Executable match positions as mathematical pairs.
pub open spec fn pairs_of(s: Seq<(usize, usize)>) -> Seq<(int, int)> {
    s.map_values(|p: (usize, usize)| (p.0 as int, p.1 as int))
}

/// The anchor covers position (r, c).
pub open spec fn link_hit(a: Anchor, r: int, c: int) -> bool {
    !a.deleted && a.row == r && a.start_col <= c < a.end_col
}

/// The id of the first anchor in table order covering (r, c).
pub open spec fn first_link_at(anchors: Seq<Anchor>, r: int, c: int) -> Option<usize>
    decreases anchors.len(),
{
    if anchors.len() == 0 {
        None
    } else if link_hit(anchors[0], r, c) {
        Some(anchors[0].id)
    } else {
        first_link_at(anchors.drop_first(), r, c)
    }
}

/// The position of the nearest `[[` wholly at or before `j`, scanning left.
pub open spec fn last_open(line: Seq<char>, j: int) -> Option<int>
    decreases j + 1,
{
    if j < 0 || j + 1 >= line.len() {
        None
    } else if line[j] == '[' && line[j + 1] == '[' {
        Some(j)
    } else {
        last_open(line, j - 1)
    }
}

/// Where the link-opening `[[` of a gesture just closed at `col` stands:
/// the cursor has passed a `]]`, and a `[[` lies at least two characters
/// before it.
pub open spec fn gesture_open(line: Seq<char>, col: int) -> Option<int> {
    if col >= 4 && col <= line.len() && line[col - 1] == ']' && line[col - 2] == ']' {
        last_open(line, col - 4)
    } else {
        None
    }
}

/// One more than the largest anchor id present, 0 when there is none.
pub open spec fn next_anchor_id(anchors: Seq<Anchor>) -> int
    decreases anchors.len(),
{
    if anchors.len() == 0 {
        0
    } else {
        let rest = next_anchor_id(anchors.drop_last());
        let cand = if anchors.last().id < usize::MAX {
            anchors.last().id + 1
        } else {
            usize::MAX as int
        };
        if cand > rest {
            cand
        } else {
            rest
        }
    }
}

/// Where the cursor stands after a motion; a motion that would leave the
/// buffer leaves the cursor in place, and a vertical or jump motion clamps
/// the column to the destination line's end.
pub open spec fn move_target(text: Seq<Seq<char>>, row: int, col: int, m: CursorMove) -> (int, int)
    recommends
        0 <= row < text.len(),
        0 <= col,
{
    match m {
        CursorMove::Forward => {
            if col < text[row].len() {
                (row, col + 1)
            } else if row + 1 < text.len() {
                (row + 1, 0int)
            } else {
                (row, col)
            }
        },
        CursorMove::Back => {
            if col > 0 {
                (row, col - 1)
            } else if row > 0 {
                (row - 1, text[row - 1].len() as int)
            } else {
                (row, col)
            }
        },
        CursorMove::Up => {
            if row > 0 {
                (row - 1, imin(col, text[row - 1].len() as int))
            } else {
                (row, col)
            }
        },
        CursorMove::Down => {
            if row + 1 < text.len() {
                (row + 1, imin(col, text[row + 1].len() as int))
            } else {
                (row, col)
            }
        },
        CursorMove::Head => (row, 0int),
        CursorMove::End => (row, text[row].len() as int),
        CursorMove::Top => (0int, imin(col, text[0].len() as int)),
        CursorMove::Bottom => {
            let r = text.len() - 1;
            (r, imin(col, text[r].len() as int))
        },
        CursorMove::WordForward => {
            match word_start_forward(text[row], col) {
                Some(c) => (row, c),
                None => {
                    if row + 1 < text.len() {
                        (row + 1, 0int)
                    } else {
                        (row, text[row].len() as int)
                    }
                },
            }
        },
        CursorMove::WordBack => {
            match word_start_backward(text[row], col) {
                Some(c) => (row, c),
                None => {
                    if row > 0 {
                        (row - 1, text[row - 1].len() as int)
                    } else {
                        (row, 0int)
                    }
                },
            }
        },
        CursorMove::Jump(r, c) => {
            let rr = imin(r as int, text.len() - 1);
            (rr, imin(c as int, text[rr].len() as int))
        },
    }
}

impl TextBuffer {
    /// A fresh buffer over the given body text and anchor table. An empty
    /// body yields one empty line; anchors that do not fit the text are
    /// taken as deleted.
    pub fn new(body: Vec<String>, links: Vec<Anchor>, max_col: u16) -> (b: TextBuffer)
        ensures
            b.wf(),
            b.text() == if body@.len() == 0 {
                seq![Seq::<char>::empty()]
            } else {
                body@.map_values(|s: String| s@)
            },
            b.links@ == links@.map_values(|a: Anchor| sanitize_anchor(a, b.text())),
            b.cursor_row == 0 && b.cursor_col == 0,
            b.deleted_link_ids@ =~= Seq::<usize>::empty(),
            !b.new_link,
            b.next_link_id == next_anchor_id(links@),
            b.select_start is None,
            b.search_pattern@ =~= Seq::<char>::empty(),
            b.hop_matches@ =~= Seq::<(usize, usize)>::empty(),
            b.history@ =~= Seq::<Snapshot>::empty(),
            b.redo_stack@ =~= Seq::<Snapshot>::empty(),
            b.max_col == max_col,
    {
        let mut lines: Vec<Vec<char>> = Vec::new();
        let mut i: usize = 0;
        while i < body.len()
            invariant
                i <= body@.len(),
                lines@.len() == i,
                forall|j: int| 0 <= j < i ==> (#[trigger] lines@[j])@ == body@[j]@,
            decreases body@.len() - i,
        {
            lines.push(string_chars(body[i].as_str()));
            i = i + 1;
        }
        if lines.len() == 0 {
            lines.push(Vec::new());
        }
        let ghost txt = text_of(lines@);
        proof {
            if body@.len() == 0 {
                assert(txt =~= seq![Seq::<char>::empty()]);
            } else {
                assert(txt =~= body@.map_values(|s: String| s@));
            }
        }

        let mut next_id: usize = 0;
        let mut k: usize = 0;
        while k < links.len()
            invariant
                k <= links@.len(),
                next_id == next_anchor_id(links@.subrange(0, k as int)),
            decreases links@.len() - k,
        {
            let a = links[k];
            if a.id >= next_id {
                next_id = if a.id < usize::MAX {
                    a.id + 1
                } else {
                    usize::MAX
                };
            }
            proof {
                assert(links@.subrange(0, k + 1).drop_last() =~= links@.subrange(0, k as int));
            }
            k = k + 1;
        }
        proof {
            assert(links@.subrange(0, links@.len() as int) =~= links@);
        }

        let mut clean: Vec<Anchor> = Vec::new();
        let mut j: usize = 0;
        while j < links.len()
            invariant
                j <= links@.len(),
                lines@.len() >= 1,
                txt == text_of(lines@),
                clean@ =~= links@.subrange(0, j as int).map_values(
                    |a: Anchor| sanitize_anchor(a, txt),
                ),
            decreases links@.len() - j,
        {
            let a = links[j];
            let keep = if a.deleted {
                a
            } else if a.start_col <= a.end_col && a.row < lines.len() && a.end_col
                <= lines[a.row].len() {
                a
            } else {
                Anchor { start_col: 0, end_col: 0, deleted: true, ..a }
            };
            clean.push(keep);
            proof {
                let ghost jj = j as int;
                assert(links@.subrange(0, jj + 1) =~= links@.subrange(0, jj).push(links@[jj]));
            }
            j = j + 1;
        }
        proof {
            assert(links@.subrange(0, links@.len() as int) =~= links@);
        }

        let b = TextBuffer {
            lines,
            cursor_row: 0,
            cursor_col: 0,
            links: clean,
            deleted_link_ids: Vec::new(),
            new_link: false,
            next_link_id: next_id,
            yank: YankText::Piece(Vec::new()),
            select_start: None,
            search_pattern: Vec::new(),
            hop_matches: Vec::new(),
            history: Vec::new(),
            redo_stack: Vec::new(),
            max_col,
        };
        b
    }

    /// The cursor as (row, column).
    pub fn cursor(&self) -> (rc: (usize, usize))
        ensures
            rc.0 == self.cursor_row,
            rc.1 == self.cursor_col,
    {
        (self.cursor_row, self.cursor_col)
    }

    /// The text as owned strings, one per line.
    pub fn lines(&self) -> (r: Vec<String>)
        ensures
            r@.map_values(|s: String| s@) =~= self.text(),
    {
        let mut out: Vec<String> = Vec::new();
        let mut i: usize = 0;
        while i < self.lines.len()
            invariant
                i <= self.lines@.len(),
                out@.len() == i,
                forall|j: int| 0 <= j < i ==> (#[trigger] out@[j])@ == self.lines@[j]@,
            decreases self.lines@.len() - i,
        {
            out.push(chars_string(&self.lines[i]));
            i = i + 1;
        }
        out
    }

    /// Move the cursor.
    pub fn move_cursor(&mut self, m: CursorMove)
        requires
            old(self).wf(),
        ensures
            final(self).wf(),
            TextBuffer::same_text_and_links(*old(self), *final(self)),
            TextBuffer::same_extras(*old(self), *final(self)),
            (final(self).cursor_row as int, final(self).cursor_col as int) == move_target(
                old(self).text(),
                old(self).cursor_row as int,
                old(self).cursor_col as int,
                m,
            ),
    {
        let row = self.cursor_row;
        let col = self.cursor_col;
        let n = self.lines.len();
        match m {
            CursorMove::Forward => {
                if col < self.lines[row].len() {
                    self.cursor_col = col + 1;
                } else if row + 1 < n {
                    self.cursor_row = row + 1;
                    self.cursor_col = 0;
                }
            },
            CursorMove::Back => {
                if col > 0 {
                    self.cursor_col = col - 1;
                } else if row > 0 {
                    self.cursor_row = row - 1;
                    self.cursor_col = self.lines[row - 1].len();
                }
            },
            CursorMove::Up => {
                if row > 0 {
                    self.cursor_row = row - 1;
                    let len = self.lines[row - 1].len();
                    self.cursor_col = if col <= len {
                        col
                    } else {
                        len
                    };
                }
            },
            CursorMove::Down => {
                if row + 1 < n {
                    self.cursor_row = row + 1;
                    let len = self.lines[row + 1].len();
                    self.cursor_col = if col <= len {
                        col
                    } else {
                        len
                    };
                }
            },
            CursorMove::Head => {
                self.cursor_col = 0;
            },
            CursorMove::End => {
                self.cursor_col = self.lines[row].len();
            },
            CursorMove::Top => {
                self.cursor_row = 0;
                let len = self.lines[0].len();
                self.cursor_col = if col <= len {
                    col
                } else {
                    len
                };
            },
            CursorMove::Bottom => {
                let r = self.lines.len() - 1;
                self.cursor_row = r;
                let len = self.lines[r].len();
                self.cursor_col = if col <= len {
                    col
                } else {
                    len
                };
            },
            CursorMove::WordForward => {
                match find_word_start_forward(&self.lines[row], col) {
                    Some(c) => {
                        self.cursor_col = c;
                    },
                    None => {
                        if row + 1 < n {
                            self.cursor_row = row + 1;
                            self.cursor_col = 0;
                        } else {
                            self.cursor_col = self.lines[row].len();
                        }
                    },
                }
            },
            CursorMove::WordBack => {
                match find_word_start_backward(&self.lines[row], col) {
                    Some(c) => {
                        self.cursor_col = c;
                    },
                    None => {
                        if row > 0 {
                            self.cursor_row = row - 1;
                            self.cursor_col = self.lines[row - 1].len();
                        } else {
                            self.cursor_col = 0;
                        }
                    },
                }
            },
            CursorMove::Jump(r, c) => {
                let rr = if (r as usize) <= self.lines.len() - 1 {
                    r as usize
                } else {
                    self.lines.len() - 1
                };
                self.cursor_row = rr;
                let len = self.lines[rr].len();
                self.cursor_col = if (c as usize) <= len {
                    c as usize
                } else {
                    len
                };
            },
        }
    }

    /// Drift every anchor under one edit event, recording newly deleted ids.
    fn retarget_anchors(&mut self, e: EditEvent)
        requires
            forall|i: int|
                0 <= i < old(self).links@.len() ==> event_fits(#[trigger] old(self).links@[i], e),
        ensures
            final(self).links@ == old(self).links@.map_values(
                |a: Anchor| anchor_after_event(a, e),
            ),
            final(self).deleted_link_ids@ == old(self).deleted_link_ids@ + newly_deleted_ids(
                old(self).links@,
                e,
            ),
            final(self).lines@ == old(self).lines@,
            final(self).cursor_row == old(self).cursor_row,
            final(self).cursor_col == old(self).cursor_col,
            TextBuffer::same_extras(*old(self), *final(self)),
    {
        let ghost orig = self.links@;
        let ghost dli0 = self.deleted_link_ids@;
        let mut out: Vec<Anchor> = Vec::new();
        let mut i: usize = 0;
        while i < self.links.len()
            invariant
                i <= orig.len(),
                self.links@ == orig,
                out@ =~= orig.subrange(0, i as int).map_values(
                    |a: Anchor| anchor_after_event(a, e),
                ),
                self.deleted_link_ids@ =~= dli0 + newly_deleted_ids(orig.subrange(0, i as int), e),
                forall|j: int| 0 <= j < orig.len() ==> event_fits(#[trigger] orig[j], e),
                self.lines@ == old(self).lines@,
                self.cursor_row == old(self).cursor_row,
                self.cursor_col == old(self).cursor_col,
                TextBuffer::same_extras(*old(self), *self),
            decreases orig.len() - i,
        {
            let a = self.links[i];
            let b = anchor_apply(a, e);
            if !a.deleted && b.deleted {
                self.deleted_link_ids.push(a.id);
            }
            out.push(b);
            proof {
                let ghost ii = i as int;
                assert(orig.subrange(0, ii + 1).drop_last() =~= orig.subrange(0, ii));
                assert(orig.subrange(0, ii + 1).last() == orig[ii]);
            }
            i = i + 1;
        }
        proof {
            assert(orig.subrange(0, orig.len() as int) =~= orig);
        }
        self.links = out;
    }

    /// Remove `count` characters of the cursor line starting at `from`,
    /// leaving the cursor at `from`; the removed run goes to the clipboard
    /// when `to_yank` is set.
    fn remove_cols(&mut self, from: usize, count: usize, to_yank: bool)
        requires
            old(self).wf(),
            from + count <= old(self).text()[old(self).cursor_row as int].len(),
        ensures
            final(self).wf(),
            TextBuffer::chars_removed(*old(self), *final(self), from, count, to_yank),
    {
        let row = self.cursor_row;
        let ghost orig_line = old(self).text()[row as int];
        let mut line = self.lines.remove(row);
        let mut tail = line.split_off(from);
        let mut rest = tail.split_off(count);
        proof {
            assert(tail@ =~= orig_line.subrange(from as int, from + count));
            assert(rest@ =~= orig_line.subrange(from + count, orig_line.len() as int));
        }
        line.append(&mut rest);
        self.lines.insert(row, line);
        self.cursor_col = from;
        self.retarget_anchors(EditEvent::ColsDeleted { row, from, count });
        if to_yank {
            self.yank = YankText::Piece(tail);
        }
        proof {
            assert(self.text() =~= old(self).text().update(
                row as int,
                orig_line.subrange(0, from as int) + orig_line.subrange(
                    from + count,
                    orig_line.len() as int,
                ),
            ));
        }
    }

    /// Insert one character at the cursor and step past it.
    pub fn insert_char(&mut self, c: char)
        requires
            old(self).wf(),
        ensures
            final(self).wf(),
            TextBuffer::char_inserted(*old(self), *final(self), c),
    {
        let row = self.cursor_row;
        let at = self.cursor_col;
        let mut line = self.lines.remove(row);
        line.insert(at, c);
        // The grown line's length, as a machine word: it bounds the shifted
        // anchor columns and the stepped cursor.
        let n = line.len();
        self.lines.insert(row, line);
        self.cursor_col = at + 1;
        self.retarget_anchors(EditEvent::ColsInserted { row, at, count: 1 });
    }

    /// Split the cursor line at the cursor; the cursor moves to the head of
    /// the new line.
    pub fn insert_newline(&mut self)
        requires
            old(self).wf(),
        ensures
            final(self).wf(),
            TextBuffer::line_split(*old(self), *final(self)),
            final(self).view() == step_split(old(self).view()),
    {
        let row = self.cursor_row;
        let at = self.cursor_col;
        // The line count, as a machine word: it bounds the shifted anchor
        // rows.
        let n = self.lines.len();
        let mut line = self.lines.remove(row);
        let tail = line.split_off(at);
        self.lines.insert(row, line);
        self.lines.insert(row + 1, tail);
        self.cursor_row = row + 1;
        self.cursor_col = 0;
        self.retarget_anchors(EditEvent::RowSplit { row, at });
        proof {
            assert(self.view().text =~= step_split(old(self).view()).text);
            assert(self.view() == step_split(old(self).view()));
        }
    }

    /// Join the cursor line onto the line above it; at the top of the buffer
    /// this is a no-op.
    pub fn delete_newline(&mut self)
        requires
            old(self).wf(),
        ensures
            final(self).wf(),
            old(self).cursor_row == 0 ==> TextBuffer::unchanged(*old(self), *final(self)),
            old(self).cursor_row > 0 ==> {
                &&& TextBuffer::rows_joined(*old(self), *final(self), old(self).cursor_row as int)
                &&& final(self).cursor_row == old(self).cursor_row - 1
                &&& final(self).cursor_col == old(self).text()[old(self).cursor_row - 1].len()
            },
            final(self).view() == step_delete_newline(old(self).view()),
    {
        let row = self.cursor_row;
        if row == 0 {
            return ;
        }
        let mut cur = self.lines.remove(row);
        let mut prev = self.lines.remove(row - 1);
        let prev_len = prev.len();
        prev.append(&mut cur);
        // The joined line's length, as a machine word: it bounds the shifted
        // anchor columns.
        let n = prev.len();
        self.lines.insert(row - 1, prev);
        self.cursor_row = row - 1;
        self.cursor_col = prev_len;
        self.retarget_anchors(EditEvent::RowsJoined { row, prev_len });
        proof {
            assert(self.view().text =~= step_delete_newline(old(self).view()).text);
            assert(self.view() == step_delete_newline(old(self).view()));
        }
    }

    /// Delete the character before the cursor; at the head of a line the
    /// newline before it is removed instead.
    pub fn delete_char(&mut self)
        requires
            old(self).wf(),
        ensures
            final(self).wf(),
            old(self).cursor_col > 0 ==> TextBuffer::chars_removed(
                *old(self),
                *final(self),
                (old(self).cursor_col - 1) as usize,
                1,
                false,
            ),
            old(self).cursor_col == 0 && old(self).cursor_row > 0 ==> {
                &&& TextBuffer::rows_joined(*old(self), *final(self), old(self).cursor_row as int)
                &&& final(self).cursor_row == old(self).cursor_row - 1
                &&& final(self).cursor_col == old(self).text()[old(self).cursor_row - 1].len()
            },
            old(self).cursor_col == 0 && old(self).cursor_row == 0 ==> TextBuffer::unchanged(
                *old(self),
                *final(self),
            ),
    {
        let col = self.cursor_col;
        if col > 0 {
            self.remove_cols(col - 1, 1, false);
        } else {
            self.delete_newline();
        }
    }

    /// Delete the character at the cursor; at the end of a line the newline
    /// after it is removed instead.
    pub fn delete_next_char(&mut self)
        requires
            old(self).wf(),
        ensures
            final(self).wf(),
            old(self).cursor_col < old(self).text()[old(self).cursor_row as int].len()
                ==> TextBuffer::chars_removed(
                *old(self),
                *final(self),
                old(self).cursor_col,
                1,
                false,
            ),
            old(self).cursor_col == old(self).text()[old(self).cursor_row as int].len() && old(self).cursor_row + 1 < old(self).text().len() ==> {
                &&& TextBuffer::rows_joined(
                    *old(self),
                    *final(self),
                    old(self).cursor_row + 1,
                )
                &&& final(self).cursor_row == old(self).cursor_row
                &&& final(self).cursor_col == old(self).cursor_col
            },
            old(self).cursor_col == old(self).text()[old(self).cursor_row as int].len() && old(self).cursor_row + 1 == old(self).text().len() ==> TextBuffer::unchanged(
                *old(self),
                *final(self),
            ),
    {
        let row = self.cursor_row;
        let col = self.cursor_col;
        let n = self.lines.len();
        if col < self.lines[row].len() {
            self.remove_cols(col, 1, false);
        } else if row + 1 < n {
            let mut nxt = self.lines.remove(row + 1);
            let mut cur = self.lines.remove(row);
            let prev_len = cur.len();
            cur.append(&mut nxt);
            // The joined line's length, as a machine word: it bounds the
            // shifted anchor columns.
            let m = cur.len();
            self.lines.insert(row, cur);
            self.retarget_anchors(EditEvent::RowsJoined { row: row + 1, prev_len });
        }
    }

    /// Delete from the cursor to the end of the line; at the end of a line
    /// the newline after it is removed instead.
    pub fn delete_line_by_end(&mut self)
        requires
            old(self).wf(),
        ensures
            final(self).wf(),
            old(self).cursor_col < old(self).text()[old(self).cursor_row as int].len()
                ==> TextBuffer::chars_removed(
                *old(self),
                *final(self),
                old(self).cursor_col,
                (old(self).text()[old(self).cursor_row as int].len() - old(self).cursor_col) as usize,
                true,
            ),
            old(self).cursor_col == old(self).text()[old(self).cursor_row as int].len() && old(self).cursor_row + 1 < old(self).text().len() ==> {
                &&& TextBuffer::rows_joined(*old(self), *final(self), old(self).cursor_row + 1)
                &&& final(self).cursor_row == old(self).cursor_row
                &&& final(self).cursor_col == old(self).cursor_col
            },
            old(self).cursor_col == old(self).text()[old(self).cursor_row as int].len() && old(self).cursor_row + 1 == old(self).text().len() ==> TextBuffer::unchanged(
                *old(self),
                *final(self),
            ),
            final(self).view() == step_delete_line_by_end(old(self).view()),
    {
        let row = self.cursor_row;
        let col = self.cursor_col;
        let len = self.lines[row].len();
        if col < len {
            self.remove_cols(col, len - col, true);
        } else {
            self.delete_next_char();
        }
    }

    /// Delete the word (or the whitespace-and-word run) before the cursor;
    /// at the head of a line the newline before it is removed instead.
    pub fn delete_word(&mut self)
        requires
            old(self).wf(),
        ensures
            final(self).wf(),
            ({
                let line = old(self).text()[old(self).cursor_row as int];
                let col = old(self).cursor_col as int;
                match word_start_backward(line, col) {
                    Some(c2) => TextBuffer::chars_removed(
                        *old(self),
                        *final(self),
                        c2 as usize,
                        (col - c2) as usize,
                        true,
                    ),
                    None => {
                        if col > 0 {
                            TextBuffer::chars_removed(
                                *old(self),
                                *final(self),
                                0,
                                col as usize,
                                true,
                            )
                        } else if old(self).cursor_row > 0 {
                            TextBuffer::rows_joined(
                                *old(self),
                                *final(self),
                                old(self).cursor_row as int,
                            ) && final(self).cursor_row == old(self).cursor_row - 1
                                && final(self).cursor_col == old(self).text()[old(self).cursor_row
                                - 1].len()
                        } else {
                            TextBuffer::unchanged(*old(self), *final(self))
                        }
                    },
                }
            }),
            final(self).view() == step_delete_word(old(self).view()),
    {
        let row = self.cursor_row;
        let col = self.cursor_col;
        let found = find_word_start_backward(&self.lines[row], col);
        match found {
            Some(c2) => {
                self.remove_cols(c2, col - c2, true);
            },
            None => {
                if col > 0 {
                    self.remove_cols(0, col, true);
                } else {
                    self.delete_newline();
                }
            },
        }
    }

    /// Delete the word (or the word-and-whitespace run) after the cursor; at
    /// the end of a line the newline after it is removed instead.
    pub fn delete_next_word(&mut self)
        requires
            old(self).wf(),
        ensures
            final(self).wf(),
            ({
                let line = old(self).text()[old(self).cursor_row as int];
                let col = old(self).cursor_col as int;
                match word_end_forward(line, col) {
                    Some(c2) => TextBuffer::chars_removed(
                        *old(self),
                        *final(self),
                        old(self).cursor_col,
                        (c2 - col) as usize,
                        true,
                    ),
                    None => {
                        if col < line.len() {
                            TextBuffer::chars_removed(
                                *old(self),
                                *final(self),
                                old(self).cursor_col,
                                (line.len() - col) as usize,
                                true,
                            )
                        } else if old(self).cursor_row + 1 < old(self).text().len() {
                            TextBuffer::rows_joined(
                                *old(self),
                                *final(self),
                                old(self).cursor_row + 1,
                            ) && final(self).cursor_row == old(self).cursor_row
                                && final(self).cursor_col == old(self).cursor_col
                        } else {
                            TextBuffer::unchanged(*old(self), *final(self))
                        }
                    },
                }
            }),
            final(self).view() == step_delete_next_word(old(self).view()),
    {
        let row = self.cursor_row;
        let col = self.cursor_col;
        let found = find_word_end_forward(&self.lines[row], col);
        match found {
            Some(c2) => {
                self.remove_cols(col, c2 - col, true);
            },
            None => {
                let len = self.lines[row].len();
                if col < len {
                    self.remove_cols(col, len - col, true);
                } else {
                    self.delete_next_char();
                }
            },
        }
    }

    /// Remove the cursor line outright; see `line_deleted` for where the
    /// cursor lands. The removed line goes to the clipboard.
    pub fn delete_line(&mut self, up: bool)
        requires
            old(self).wf(),
        ensures
            final(self).wf(),
            TextBuffer::line_deleted(*old(self), *final(self), up),
            final(self).view() == step_delete_line(old(self).view(), up),
    {
        let row = self.cursor_row;
        let n = self.lines.len();
        if n == 1 {
            let removed = self.lines.remove(0);
            self.lines.insert(0, Vec::new());
            self.cursor_row = 0;
            self.cursor_col = 0;
            self.retarget_anchors(EditEvent::RowRemoved { row: 0 });
            let mut chunk: Vec<Vec<char>> = Vec::new();
            chunk.push(removed);
            self.yank = YankText::Chunk(chunk);
            proof {
                assert(self.view().text =~= step_delete_line(old(self).view(), up).text);
                assert(yank_view(self.yank) == step_delete_line(old(self).view(), up).yank) by {
                    assert(chunk@.map_values(|l: Vec<char>| l@) =~= seq![
                        old(self).text()[old(self).cursor_row as int],
                    ]);
                }
                assert(self.view() == step_delete_line(old(self).view(), up));
            }
        } else {
            let removed = self.lines.remove(row);
            let len2 = self.lines.len();
            let r2 = if up {
                if row > 0 {
                    row - 1
                } else {
                    0
                }
            } else {
                if row < len2 {
                    row
                } else {
                    len2 - 1
                }
            };
            self.cursor_row = r2;
            let ll = self.lines[r2].len();
            if self.cursor_col > ll {
                self.cursor_col = ll;
            }
            self.retarget_anchors(EditEvent::RowRemoved { row });
            let mut chunk: Vec<Vec<char>> = Vec::new();
            chunk.push(removed);
            self.yank = YankText::Chunk(chunk);
            proof {
                assert(self.view().text =~= step_delete_line(old(self).view(), up).text);
                assert(yank_view(self.yank) == step_delete_line(old(self).view(), up).yank) by {
                    assert(chunk@.map_values(|l: Vec<char>| l@) =~= seq![
                        old(self).text()[old(self).cursor_row as int],
                    ]);
                }
                assert(self.view() == step_delete_line(old(self).view(), up));
            }
        }
    }

    /// Insert the clipboard at the cursor: a piece goes into the cursor
    /// line, whole lines go below the cursor line.
    #[verifier::loop_isolation(false)]
    #[verifier::rlimit(100)]
    pub fn paste(&mut self)
        requires
            old(self).wf(),
        ensures
            final(self).wf(),
            (old(self).yank matches YankText::Piece(p) && p@.len() > 0)
                ==> TextBuffer::piece_pasted(
                *old(self),
                *final(self),
                old(self).yank->Piece_0@,
            ),
            (old(self).yank matches YankText::Piece(p) && p@.len() == 0) ==> TextBuffer::unchanged(
                *old(self),
                *final(self),
            ),
            (old(self).yank matches YankText::Chunk(ls) && ls@.len() > 0)
                ==> TextBuffer::chunk_pasted(
                *old(self),
                *final(self),
                old(self).yank->Chunk_0@.map_values(|l: Vec<char>| l@),
            ),
            (old(self).yank matches YankText::Chunk(ls) && ls@.len() == 0)
                ==> TextBuffer::unchanged(*old(self), *final(self)),
            TextBuffer::paste_content(*old(self), *final(self)),
            TextBuffer::same_undo(*old(self), *final(self)),
    {
        let mut piece: Vec<char> = Vec::new();
        let mut chunk: Vec<Vec<char>> = Vec::new();
        let mut is_chunk = false;
        match &self.yank {
            YankText::Piece(p) => {
                piece = copy_vec(p);
            },
            YankText::Chunk(ls) => {
                chunk = copy_lines(ls);
                is_chunk = true;
            },
        }
        let row = self.cursor_row;
        let col = self.cursor_col;
        if !is_chunk {
            let k = piece.len();
            if k == 0 {
                return ;
            }
            let mut line = self.lines.remove(row);
            let mut tail = line.split_off(col);
            line.append(&mut piece);
            line.append(&mut tail);
            // The grown line's length, as a machine word: it bounds the
            // stepped cursor and shifted anchors.
            let nl = line.len();
            self.lines.insert(row, line);
            self.cursor_col = col + k;
            self.retarget_anchors(EditEvent::ColsInserted { row, at: col, count: k });
            proof {
                assert(self.text() =~= old(self).text().update(
                    row as int,
                    old(self).text()[row as int].subrange(0, col as int) + old(self).yank->Piece_0@ + old(self).text()[row as int].subrange(
                        col as int,
                        old(self).text()[row as int].len() as int,
                    ),
                ));
            }
        } else {
            let k = chunk.len();
            if k == 0 {
                return ;
            }
            let ghost chunk0 = chunk@;
            let n0 = self.lines.len();
            let mut rem = chunk;
            let mut i: usize = 0;
            while rem.len() > 0
                invariant
                    i + rem@.len() == k,
                    i <= k,
                    row + 1 + i <= self.lines@.len(),
                    self.lines@.len() == n0 + i,
                    n0 == old(self).lines@.len(),
                    row < n0,
                    rem@ =~= chunk0.subrange(i as int, k as int),
                    self.lines@ =~= old(self).lines@.subrange(0, row + 1) + chunk0.subrange(
                        0,
                        i as int,
                    ) + old(self).lines@.subrange(row + 1, n0 as int),
                    self.cursor_row == old(self).cursor_row,
                    self.cursor_col == old(self).cursor_col,
                    self.links@ == old(self).links@,
                    self.deleted_link_ids@ == old(self).deleted_link_ids@,
                    TextBuffer::same_extras(*old(self), *self),
                decreases rem@.len(),
            {
                let ghost rem0 = rem@;
                let l = rem.remove(0);
                // The line count so far, as a machine word: it bounds the
                // insertion index.
                let cur_len = self.lines.len();
                self.lines.insert(row + 1 + i, l);
                proof {
                    let ghost ii = i as int;
                    assert(rem@ =~= chunk0.subrange(ii + 1, k as int));
                    assert(l == chunk0[ii]);
                    assert(self.lines@ =~= old(self).lines@.subrange(0, row + 1)
                        + chunk0.subrange(0, ii + 1) + old(self).lines@.subrange(
                        row + 1,
                        n0 as int,
                    ));
                }
                i = i + 1;
            }
            self.cursor_row = row + 1;
            self.cursor_col = 0;
            let nf = self.lines.len();
            proof {
                assert forall|j: int| 0 <= j < self.links@.len() implies event_fits(
                    #[trigger] self.links@[j],
                    (EditEvent::RowsInserted { at: (row + 1) as usize, count: k }),
                ) by {
                    let a = self.links@[j];
                    if !a.deleted {
                        assert(a.row < n0);
                        assert(n0 + k == nf);
                    }
                }
            }
            self.retarget_anchors(EditEvent::RowsInserted { at: row + 1, count: k });
            proof {
                assert(self.text() =~= old(self).text().subrange(0, row + 1) + old(self).yank->Chunk_0@.map_values(|l: Vec<char>| l@) + old(self).text().subrange(
                    row + 1,
                    n0 as int,
                ));
            }
        }
    }

    /// Begin a selection at the cursor.
    pub fn start_selection(&mut self)
        requires
            old(self).wf(),
        ensures
            final(self).wf(),
            final(self).select_start == Some(
                (old(self).cursor_row, old(self).cursor_col),
            ),
            TextBuffer::same_content(*old(self), *final(self)),
            TextBuffer::same_link_meta(*old(self), *final(self)),
            TextBuffer::same_undo(*old(self), *final(self)),
            final(self).yank == old(self).yank,
            final(self).search_pattern@ == old(self).search_pattern@,
            final(self).hop_matches@ == old(self).hop_matches@,
            final(self).max_col == old(self).max_col,
    {
        self.select_start = Some((self.cursor_row, self.cursor_col));
    }

    /// Drop any active selection.
    pub fn cancel_selection(&mut self)
        requires
            old(self).wf(),
        ensures
            final(self).wf(),
            final(self).select_start is None,
            TextBuffer::same_content(*old(self), *final(self)),
            TextBuffer::same_link_meta(*old(self), *final(self)),
            TextBuffer::same_undo(*old(self), *final(self)),
            final(self).yank == old(self).yank,
            final(self).search_pattern@ == old(self).search_pattern@,
            final(self).hop_matches@ == old(self).hop_matches@,
            final(self).max_col == old(self).max_col,
    {
        self.select_start = None;
    }

    /// Copy the selection to the clipboard, clear the selection and move the
    /// cursor to the selection's begin. Without a live selection this only
    /// clears it.
    pub fn copy(&mut self)
        requires
            old(self).wf(),
        ensures
            final(self).wf(),
            TextBuffer::copy_content(*old(self), *final(self)),
            final(self).select_start is None,
            TextBuffer::same_text_and_links(*old(self), *final(self)),
            TextBuffer::same_link_meta(*old(self), *final(self)),
            TextBuffer::same_undo(*old(self), *final(self)),
            final(self).search_pattern@ == old(self).search_pattern@,
            final(self).hop_matches@ == old(self).hop_matches@,
            final(self).max_col == old(self).max_col,
            ({
                match old(self).select_start {
                    None => final(self).cursor_row == old(self).cursor_row && final(self).cursor_col == old(self).cursor_col && final(self).yank == old(self).yank,
                    Some(s) => {
                        if !pos_valid(old(self).text(), s.0 as int, s.1 as int) {
                            final(self).cursor_row == old(self).cursor_row && final(self).cursor_col == old(self).cursor_col && final(self).yank == old(self).yank
                        } else {
                            let (ar, ac, br, bc) = sel_ordered(
                                s.0 as int,
                                s.1 as int,
                                old(self).cursor_row as int,
                                old(self).cursor_col as int,
                            );
                            &&& final(self).cursor_row == ar
                            &&& final(self).cursor_col == ac
                            &&& (ar == br ==> (final(self).yank matches YankText::Piece(p)
                                && p@ == old(self).text()[ar].subrange(ac, bc)))
                            &&& (ar < br ==> (final(self).yank matches YankText::Chunk(ls)
                                && ls@.map_values(|l: Vec<char>| l@) =~= sel_parts(
                                old(self).text(),
                                ar,
                                ac,
                                br,
                                bc,
                            )))
                        }
                    },
                }
            }),
    {
        let sel = self.select_start;
        match sel {
            None => {},
            Some((sr, sc)) => {
                if sr >= self.lines.len() || sc > self.lines[sr].len() {
                    self.select_start = None;
                    return ;
                }
                let cr = self.cursor_row;
                let cc = self.cursor_col;
                let (ar, ac, br, bc) = if sr < cr || (sr == cr && sc <= cc) {
                    (sr, sc, cr, cc)
                } else {
                    (cr, cc, sr, sc)
                };
                if ar == br {
                    let p = sub_chars(&self.lines[ar], ac, bc);
                    self.yank = YankText::Piece(p);
                } else {
                    let mut parts: Vec<Vec<char>> = Vec::new();
                    parts.push(sub_chars(&self.lines[ar], ac, self.lines[ar].len()));
                    let mut r = ar + 1;
                    while r < br
                        invariant
                            ar + 1 <= r <= br < self.lines@.len(),
                            parts@.len() == r - ar,
                            parts@[0]@ == self.text()[ar as int].subrange(
                                ac as int,
                                self.text()[ar as int].len() as int,
                            ),
                            forall|q: int|
                                1 <= q < parts@.len() ==> (#[trigger] parts@[q])@
                                    == self.text()[ar + q],
                        decreases br - r,
                    {
                        parts.push(copy_vec(&self.lines[r]));
                        r = r + 1;
                    }
                    parts.push(sub_chars(&self.lines[br], 0, bc));
                    proof {
                        assert(parts@.map_values(|l: Vec<char>| l@) =~= sel_parts(
                            self.text(),
                            ar as int,
                            ac as int,
                            br as int,
                            bc as int,
                        ));
                    }
                    self.yank = YankText::Chunk(parts);
                }
                self.cursor_row = ar;
                self.cursor_col = ac;
                self.select_start = None;
            },
        }
    }

    /// What a copy does to everything but the undo stacks.
    pub open spec fn copy_content(b0: TextBuffer, b1: TextBuffer) -> bool {
        &&& b1.select_start is None
        &&& TextBuffer::same_text_and_links(b0, b1)
        &&& TextBuffer::same_link_meta(b0, b1)
        &&& b1.hop_matches@ == b0.hop_matches@
        &&& b1.max_col == b0.max_col
        &&& (match b0.select_start {
            None => b1.cursor_row == b0.cursor_row && b1.cursor_col == b0.cursor_col && b1.yank
                == b0.yank,
            Some(s) => {
                if !pos_valid(b0.text(), s.0 as int, s.1 as int) {
                    b1.cursor_row == b0.cursor_row && b1.cursor_col == b0.cursor_col && b1.yank
                        == b0.yank
                } else {
                    let (ar, ac, br, bc) = sel_ordered(
                        s.0 as int,
                        s.1 as int,
                        b0.cursor_row as int,
                        b0.cursor_col as int,
                    );
                    &&& b1.cursor_row == ar
                    &&& b1.cursor_col == ac
                    &&& (ar == br ==> (b1.yank matches YankText::Piece(p) && p@
                        == b0.text()[ar].subrange(ac, bc)))
                    &&& (ar < br ==> (b1.yank matches YankText::Chunk(ls) && ls@.map_values(
                        |l: Vec<char>| l@,
                    ) =~= sel_parts(b0.text(), ar, ac, br, bc)))
                }
            },
        })
    }

    /// What a cut does to everything but the undo stacks.
    pub open spec fn cut_content(b0: TextBuffer, b1: TextBuffer) -> bool {
        &&& b1.select_start is None
        &&& TextBuffer::same_link_meta(b0, b1)
        &&& b1.hop_matches@ == b0.hop_matches@
        &&& b1.max_col == b0.max_col
        &&& (match b0.select_start {
            None => TextBuffer::same_content(b0, b1) && b1.yank == b0.yank && b1.cursor_row
                == b0.cursor_row && b1.cursor_col == b0.cursor_col,
            Some(s) => {
                if !pos_valid(b0.text(), s.0 as int, s.1 as int) {
                    TextBuffer::same_content(b0, b1) && b1.yank == b0.yank && b1.cursor_row
                        == b0.cursor_row && b1.cursor_col == b0.cursor_col
                } else {
                    let (ar, ac, br, bc) = sel_ordered(
                        s.0 as int,
                        s.1 as int,
                        b0.cursor_row as int,
                        b0.cursor_col as int,
                    );
                    &&& b1.cursor_row == ar
                    &&& b1.cursor_col == ac
                    &&& (ar == br ==> {
                        &&& b1.text() =~= b0.text().update(
                            ar,
                            b0.text()[ar].subrange(0, ac) + b0.text()[ar].subrange(
                                bc,
                                b0.text()[ar].len() as int,
                            ),
                        )
                        &&& (b1.yank matches YankText::Piece(p) && p@ == b0.text()[ar].subrange(
                            ac,
                            bc,
                        ))
                        &&& TextBuffer::links_after(
                            b0,
                            b1,
                            (EditEvent::ColsDeleted {
                                row: ar as usize,
                                from: ac as usize,
                                count: (bc - ac) as usize,
                            }),
                        )
                    })
                    &&& (ar < br ==> {
                        &&& b1.text() =~= b0.text().subrange(0, ar) + seq![
                            b0.text()[ar].subrange(0, ac) + b0.text()[br].subrange(
                                bc,
                                b0.text()[br].len() as int,
                            ),
                        ] + b0.text().subrange(br + 1, b0.text().len() as int)
                        &&& (b1.yank matches YankText::Chunk(ls) && ls@.map_values(
                            |l: Vec<char>| l@,
                        ) =~= sel_parts(b0.text(), ar, ac, br, bc))
                        &&& TextBuffer::links_after(
                            b0,
                            b1,
                            (EditEvent::RangeRemoved {
                                start_row: ar as usize,
                                start_col: ac as usize,
                                end_row: br as usize,
                                end_col: bc as usize,
                            }),
                        )
                    })
                }
            },
        })
    }

    /// Cut the selection: copy it to the clipboard and remove it from the
    /// text, leaving the cursor at the selection's begin. Without a live
    /// selection this only clears it.
    #[verifier::loop_isolation(false)]
    #[verifier::rlimit(100)]
    pub fn cut(&mut self)
        requires
            old(self).wf(),
        ensures
            final(self).wf(),
            TextBuffer::cut_content(*old(self), *final(self)),
            final(self).select_start is None,
            TextBuffer::same_link_meta(*old(self), *final(self)),
            TextBuffer::same_undo(*old(self), *final(self)),
            final(self).search_pattern@ == old(self).search_pattern@,
            final(self).hop_matches@ == old(self).hop_matches@,
            final(self).max_col == old(self).max_col,
            ({
                match old(self).select_start {
                    None => TextBuffer::same_content(*old(self), *final(self)) && final(self).yank
                        == old(self).yank,
                    Some(s) => {
                        if !pos_valid(old(self).text(), s.0 as int, s.1 as int) {
                            TextBuffer::same_content(*old(self), *final(self)) && final(self).yank
                                == old(self).yank
                        } else {
                            let (ar, ac, br, bc) = sel_ordered(
                                s.0 as int,
                                s.1 as int,
                                old(self).cursor_row as int,
                                old(self).cursor_col as int,
                            );
                            &&& final(self).cursor_row == ar
                            &&& final(self).cursor_col == ac
                            &&& (ar == br ==> {
                                &&& final(self).text() =~= old(self).text().update(
                                    ar,
                                    old(self).text()[ar].subrange(0, ac) + old(self).text()[ar].subrange(bc, old(self).text()[ar].len() as int),
                                )
                                &&& (final(self).yank matches YankText::Piece(p) && p@ == old(self).text()[ar].subrange(ac, bc))
                                &&& TextBuffer::links_after(
                                    *old(self),
                                    *final(self),
                                    (EditEvent::ColsDeleted {
                                        row: ar as usize,
                                        from: ac as usize,
                                        count: (bc - ac) as usize,
                                    }),
                                )
                            })
                            &&& (ar < br ==> {
                                &&& final(self).text() =~= old(self).text().subrange(0, ar)
                                    + seq![
                                    old(self).text()[ar].subrange(0, ac) + old(self).text()[br].subrange(bc, old(self).text()[br].len() as int),
                                ] + old(self).text().subrange(
                                    br + 1,
                                    old(self).text().len() as int,
                                )
                                &&& (final(self).yank matches YankText::Chunk(ls)
                                    && ls@.map_values(|l: Vec<char>| l@) =~= sel_parts(
                                    old(self).text(),
                                    ar,
                                    ac,
                                    br,
                                    bc,
                                ))
                                &&& TextBuffer::links_after(
                                    *old(self),
                                    *final(self),
                                    (EditEvent::RangeRemoved {
                                        start_row: ar as usize,
                                        start_col: ac as usize,
                                        end_row: br as usize,
                                        end_col: bc as usize,
                                    }),
                                )
                            })
                        }
                    },
                }
            }),
    {
        let sel = self.select_start;
        match sel {
            None => {},
            Some((sr, sc)) => {
                if sr >= self.lines.len() || sc > self.lines[sr].len() {
                    self.select_start = None;
                    return ;
                }
                let cr = self.cursor_row;
                let cc = self.cursor_col;
                let (ar, ac, br, bc) = if sr < cr || (sr == cr && sc <= cc) {
                    (sr, sc, cr, cc)
                } else {
                    (cr, cc, sr, sc)
                };
                if ar == br {
                    self.cursor_row = ar;
                    self.cursor_col = ac;
                    self.remove_cols(ac, bc - ac, true);
                    self.select_start = None;
                } else {
                    let mut parts: Vec<Vec<char>> = Vec::new();
                    parts.push(sub_chars(&self.lines[ar], ac, self.lines[ar].len()));
                    let mut r = ar + 1;
                    while r < br
                        invariant
                            ar + 1 <= r <= br,
                            parts@.len() == r - ar,
                            parts@[0]@ == self.text()[ar as int].subrange(
                                ac as int,
                                self.text()[ar as int].len() as int,
                            ),
                            forall|q: int|
                                1 <= q < parts@.len() ==> (#[trigger] parts@[q])@
                                    == self.text()[ar + q],
                        decreases br - r,
                    {
                        parts.push(copy_vec(&self.lines[r]));
                        r = r + 1;
                    }
                    parts.push(sub_chars(&self.lines[br], 0, bc));
                    proof {
                        assert(parts@.map_values(|l: Vec<char>| l@) =~= sel_parts(
                            self.text(),
                            ar as int,
                            ac as int,
                            br as int,
                            bc as int,
                        ));
                    }

                    let n = self.lines.len();
                    let mut joined = sub_chars(&self.lines[ar], 0, ac);
                    let mut endpart = sub_chars(&self.lines[br], bc, self.lines[br].len());
                    joined.append(&mut endpart);
                    let jl = joined.len();
                    let mut out: Vec<Vec<char>> = Vec::new();
                    let mut q: usize = 0;
                    while q < ar
                        invariant
                            q <= ar,
                            out@.len() == q,
                            forall|t: int| 0 <= t < q ==> (#[trigger] out@[t])@ == self.text()[t],
                        decreases ar - q,
                    {
                        out.push(copy_vec(&self.lines[q]));
                        q = q + 1;
                    }
                    out.push(joined);
                    let mut w: usize = br + 1;
                    while w < n
                        invariant
                            br + 1 <= w <= n,
                            out@.len() == ar + 1 + (w - br - 1),
                            forall|t: int| 0 <= t < ar ==> (#[trigger] out@[t])@ == self.text()[t],
                            out@[ar as int]@ == self.text()[ar as int].subrange(0, ac as int)
                                + self.text()[br as int].subrange(
                                bc as int,
                                self.text()[br as int].len() as int,
                            ),
                            forall|t: int|
                                ar < t < out@.len() ==> (#[trigger] out@[t])@ == self.text()[t + br
                                    - ar],
                        decreases n - w,
                    {
                        out.push(copy_vec(&self.lines[w]));
                        w = w + 1;
                    }
                    proof {
                        assert forall|j: int| 0 <= j < self.links@.len() implies event_fits(
                            #[trigger] self.links@[j],
                            (EditEvent::RangeRemoved {
                                start_row: ar,
                                start_col: ac,
                                end_row: br,
                                end_col: bc,
                            }),
                        ) by {
                            let a = self.links@[j];
                            if !a.deleted && a.row == br && a.start_col >= bc {
                                assert(a.end_col <= self.text()[br as int].len());
                                assert(a.end_col - bc + ac <= jl);
                            }
                        }
                    }
                    self.lines = out;
                    self.cursor_row = ar;
                    self.cursor_col = ac;
                    self.retarget_anchors(
                        EditEvent::RangeRemoved {
                            start_row: ar,
                            start_col: ac,
                            end_row: br,
                            end_col: bc,
                        },
                    );
                    self.yank = YankText::Chunk(parts);
                    self.select_start = None;
                    proof {
                        assert(self.text() =~= old(self).text().subrange(0, ar as int) + seq![
                            old(self).text()[ar as int].subrange(0, ac as int) + old(self).text()[br as int].subrange(
                                bc as int,
                                old(self).text()[br as int].len() as int,
                            ),
                        ] + old(self).text().subrange(br + 1, old(self).text().len() as int));
                    }
                }
            },
        }
    }

    /// Forget the stored search pattern.
    pub fn clear_search(&mut self)
        requires
            old(self).wf(),
        ensures
            final(self).wf(),
            final(self).search_pattern@ =~= Seq::<char>::empty(),
            TextBuffer::same_content(*old(self), *final(self)),
            final(self).cursor_row == old(self).cursor_row,
            final(self).cursor_col == old(self).cursor_col,
            TextBuffer::same_link_meta(*old(self), *final(self)),
            TextBuffer::same_undo(*old(self), *final(self)),
            final(self).yank == old(self).yank,
            final(self).select_start == old(self).select_start,
            final(self).hop_matches@ == old(self).hop_matches@,
            final(self).max_col == old(self).max_col,
    {
        self.search_pattern = Vec::new();
    }

    /// Store a search pattern for the embedding program's search bar.
    pub fn set_search_pattern(&mut self, pat: Vec<char>)
        requires
            old(self).wf(),
        ensures
            final(self).wf(),
            final(self).search_pattern@ == pat@,
            TextBuffer::same_content(*old(self), *final(self)),
            final(self).cursor_row == old(self).cursor_row,
            final(self).cursor_col == old(self).cursor_col,
            TextBuffer::same_link_meta(*old(self), *final(self)),
            TextBuffer::same_undo(*old(self), *final(self)),
            final(self).yank == old(self).yank,
            final(self).select_start == old(self).select_start,
            final(self).hop_matches@ == old(self).hop_matches@,
            final(self).max_col == old(self).max_col,
    {
        self.search_pattern = pat;
    }

    /// Does the pattern occur in this line at column `c`?
    #[verifier::loop_isolation(false)]
    fn match_here(line: &Vec<char>, pat: &Vec<char>, c: usize) -> (r: bool)
        requires
            pat@.len() > 0,
            c + pat@.len() <= line@.len(),
        ensures
            r == (line@.subrange(c as int, c + pat@.len()) =~= pat@),
    {
        let ll = line.len();
        let mut i: usize = 0;
        while i < pat.len()
            invariant
                i <= pat@.len(),
                c + pat@.len() <= line@.len(),
                forall|j: int| 0 <= j < i ==> line@[c + j] == pat@[j],
            decreases pat@.len() - i,
        {
            if line[c + i] != pat[i] {
                proof {
                    assert(line@.subrange(c as int, c + pat@.len())[i as int] != pat@[i as int]);
                }
                return false;
            }
            i = i + 1;
        }
        proof {
            assert(line@.subrange(c as int, c + pat@.len()) =~= pat@);
        }
        true
    }

    /// Every position where the pattern occurs, in scan order.
    #[verifier::loop_isolation(false)]
    fn collect_matches(&self, pat: &Vec<char>) -> (v: Vec<(usize, usize)>)
        requires
            self.wf(),
        ensures
            pairs_of(v@) == all_matches(self.text(), pat@),
    {
        let mut v: Vec<(usize, usize)> = Vec::new();
        let mut r: usize = 0;
        while r < self.lines.len()
            invariant
                r <= self.lines@.len(),
                all_matches(self.text(), pat@) =~= pairs_of(v@) + matches_from(
                    self.text(),
                    pat@,
                    r as int,
                ),
            decreases self.lines@.len() - r,
        {
            let line_len = self.lines[r].len();
            let mut c: usize = 0;
            proof {
                assert(all_matches(self.text(), pat@) =~= pairs_of(v@) + row_matches(
                    self.text()[r as int],
                    pat@,
                    0,
                ).map_values(|cc: int| (r as int, cc)) + matches_from(
                    self.text(),
                    pat@,
                    r + 1,
                ));
            }
            if pat.len() > 0 && pat.len() <= line_len {
                while c <= line_len - pat.len()
                    invariant
                        c <= line_len,
                        pat@.len() > 0,
                        pat@.len() <= line_len,
                        all_matches(self.text(), pat@) =~= pairs_of(v@) + row_matches(
                            self.text()[r as int],
                            pat@,
                            c as int,
                        ).map_values(|cc: int| (r as int, cc)) + matches_from(
                            self.text(),
                            pat@,
                            r + 1,
                        ),
                    decreases line_len - c,
                {
                    if TextBuffer::match_here(&self.lines[r], pat, c) {
                        v.push((r, c));
                        proof {
                            assert(pairs_of(v@) =~= pairs_of(v@.drop_last()).push(
                                (r as int, c as int),
                            ));
                        }
                    }
                    proof {
                        assert(all_matches(self.text(), pat@) =~= pairs_of(v@) + row_matches(
                            self.text()[r as int],
                            pat@,
                            c + 1,
                        ).map_values(|cc: int| (r as int, cc)) + matches_from(
                            self.text(),
                            pat@,
                            r + 1,
                        ));
                    }
                    c = c + 1;
                }
            }
            proof {
                assert(row_matches(self.text()[r as int], pat@, c as int) =~= Seq::<int>::empty());
                assert(all_matches(self.text(), pat@) =~= pairs_of(v@) + matches_from(
                    self.text(),
                    pat@,
                    r + 1,
                ));
            }
            r = r + 1;
        }
        proof {
            assert(all_matches(self.text(), pat@) =~= pairs_of(v@));
        }
        v
    }

    /// Compute the ranked match positions for a hop key, in scan order.
    pub fn set_hop_pattern(&mut self, pat: &Vec<char>)
        requires
            old(self).wf(),
        ensures
            final(self).wf(),
            pairs_of(final(self).hop_matches@) == all_matches(old(self).text(), pat@),
            TextBuffer::same_content(*old(self), *final(self)),
            final(self).cursor_row == old(self).cursor_row,
            final(self).cursor_col == old(self).cursor_col,
            TextBuffer::same_link_meta(*old(self), *final(self)),
            TextBuffer::same_undo(*old(self), *final(self)),
            final(self).yank == old(self).yank,
            final(self).select_start == old(self).select_start,
            final(self).search_pattern@ == old(self).search_pattern@,
            final(self).max_col == old(self).max_col,
    {
        let v = self.collect_matches(pat);
        self.hop_matches = v;
    }

    /// Forget the hop matches.
    pub fn clear_hop(&mut self)
        requires
            old(self).wf(),
        ensures
            final(self).wf(),
            final(self).hop_matches@ =~= Seq::<(usize, usize)>::empty(),
            TextBuffer::same_content(*old(self), *final(self)),
            final(self).cursor_row == old(self).cursor_row,
            final(self).cursor_col == old(self).cursor_col,
            TextBuffer::same_link_meta(*old(self), *final(self)),
            TextBuffer::same_undo(*old(self), *final(self)),
            final(self).yank == old(self).yank,
            final(self).select_start == old(self).select_start,
            final(self).search_pattern@ == old(self).search_pattern@,
            final(self).max_col == old(self).max_col,
    {
        self.hop_matches = Vec::new();
    }

    /// Jump to the hop match with the given rank; out-of-range ranks and
    /// matches the text has outgrown are ignored.
    pub fn hop_to_idx(&mut self, idx: usize)
        requires
            old(self).wf(),
        ensures
            final(self).wf(),
            TextBuffer::same_text_and_links(*old(self), *final(self)),
            TextBuffer::same_extras(*old(self), *final(self)),
            ({
                let hops = old(self).hop_matches@;
                if idx < hops.len() && pos_valid(
                    old(self).text(),
                    hops[idx as int].0 as int,
                    hops[idx as int].1 as int,
                ) {
                    final(self).cursor_row == hops[idx as int].0 && final(self).cursor_col
                        == hops[idx as int].1
                } else {
                    final(self).cursor_row == old(self).cursor_row && final(self).cursor_col
                        == old(self).cursor_col
                }
            }),
    {
        if idx < self.hop_matches.len() {
            let (r, c) = self.hop_matches[idx];
            if r < self.lines.len() && c <= self.lines[r].len() {
                self.cursor_row = r;
                self.cursor_col = c;
            }
        }
    }

    /// The id of the link whose anchor covers the given position, if any.
    pub fn in_link(&self, pos: (usize, usize)) -> (r: Option<usize>)
        ensures
            r == first_link_at(self.links@, pos.0 as int, pos.1 as int),
    {
        proof {
            assert(self.links@.skip(0) =~= self.links@);
        }
        let mut i: usize = 0;
        while i < self.links.len()
            invariant
                i <= self.links@.len(),
                first_link_at(self.links@, pos.0 as int, pos.1 as int) == first_link_at(
                    self.links@.skip(i as int),
                    pos.0 as int,
                    pos.1 as int,
                ),
            decreases self.links@.len() - i,
        {
            let a = self.links[i];
            proof {
                assert(self.links@.skip(i as int)[0] == self.links@[i as int]);
                assert(self.links@.skip(i as int).drop_first() =~= self.links@.skip(i + 1));
            }
            if !a.deleted && a.row == pos.0 && a.start_col <= pos.1 && pos.1 < a.end_col {
                return Some(a.id);
            }
            i = i + 1;
        }
        proof {
            assert(self.links@.skip(self.links@.len() as int) =~= Seq::<Anchor>::empty());
        }
        None
    }

    /// If the text just typed at the cursor closed a `[[...]]` gesture, draw
    /// a fresh anchor over it and raise the one-shot `new_link` signal.
    #[verifier::loop_isolation(false)]
    pub fn complete_link_gesture(&mut self)
        requires
            old(self).wf(),
        ensures
            final(self).wf(),
            final(self).lines@ == old(self).lines@,
            final(self).cursor_row == old(self).cursor_row,
            final(self).cursor_col == old(self).cursor_col,
            final(self).deleted_link_ids@ == old(self).deleted_link_ids@,
            final(self).yank == old(self).yank,
            TextBuffer::same_nav(*old(self), *final(self)),
            TextBuffer::same_undo(*old(self), *final(self)),
            ({
                let line = old(self).text()[old(self).cursor_row as int];
                let col = old(self).cursor_col as int;
                match gesture_open(line, col) {
                    Some(j) => {
                        if old(self).next_link_id < usize::MAX {
                            &&& final(self).links@ == old(self).links@.push(
                                (Anchor {
                                    id: old(self).next_link_id,
                                    row: old(self).cursor_row,
                                    start_col: j as usize,
                                    end_col: old(self).cursor_col,
                                    edited: false,
                                    deleted: false,
                                }),
                            )
                            &&& final(self).next_link_id == old(self).next_link_id + 1
                            &&& final(self).new_link
                        } else {
                            final(self).links@ == old(self).links@ && TextBuffer::same_link_meta(
                                *old(self),
                                *final(self),
                            )
                        }
                    },
                    None => final(self).links@ == old(self).links@ && TextBuffer::same_link_meta(
                        *old(self),
                        *final(self),
                    ),
                }
            }),
    {
        let row = self.cursor_row;
        let col = self.cursor_col;
        if col < 4 || self.next_link_id == usize::MAX {
            return ;
        }
        let line_len = self.lines[row].len();
        if self.lines[row][col - 1] != ']' || self.lines[row][col - 2] != ']' {
            return ;
        }
        let mut j: usize = col - 4;
        loop
            invariant
                j + 1 < self.lines@[row as int]@.len(),
                j < col,
                self.next_link_id < usize::MAX,
                self.wf(),
                self.lines@ == old(self).lines@,
                self.links@ == old(self).links@,
                self.deleted_link_ids@ == old(self).deleted_link_ids@,
                self.next_link_id == old(self).next_link_id,
                self.new_link == old(self).new_link,
                self.yank == old(self).yank,
                TextBuffer::same_nav(*old(self), *self),
                TextBuffer::same_undo(*old(self), *self),
                row == self.cursor_row < self.lines@.len(),
                col == self.cursor_col,
                last_open(self.text()[row as int], j as int) == gesture_open(
                    self.text()[row as int],
                    col as int,
                ),
            decreases j,
        {
            if self.lines[row][j] == '[' && self.lines[row][j + 1] == '[' {
                let a = Anchor {
                    id: self.next_link_id,
                    row,
                    start_col: j,
                    end_col: col,
                    edited: false,
                    deleted: false,
                };
                self.links.push(a);
                self.next_link_id = self.next_link_id + 1;
                self.new_link = true;
                return ;
            }
            if j == 0 {
                proof {
                    assert(last_open(self.text()[row as int], -1) is None);
                }
                return ;
            }
            j = j - 1;
        }
    }

    /// What one insert-mode key does to the buffer: characters, newline,
    /// deletions and plain cursor keys act on the text; anything else is
    /// ignored; a `]` that closes a link gesture draws its anchor.
    pub open spec fn input_applied(b0: TextBuffer, b1: TextBuffer, inp: Input) -> bool {
(match inp.key {
                Key::Enter => TextBuffer::line_split(b0, b1),
                Key::Tab => TextBuffer::char_inserted(b0, b1, ' '),
                Key::Backspace => {
                    &&& b0.cursor_col > 0 ==> TextBuffer::chars_removed(
                        b0,
                        b1,
                        (b0.cursor_col - 1) as usize,
                        1,
                        false,
                    )
                    &&& b0.cursor_col == 0 && b0.cursor_row > 0
                        ==> TextBuffer::rows_joined(
                        b0,
                        b1,
                        b0.cursor_row as int,
                    )
                    &&& b0.cursor_col == 0 && b0.cursor_row == 0
                        ==> TextBuffer::unchanged(b0, b1)
                },
                Key::Delete => {
                    &&& b0.cursor_col < b0.text()[b0.cursor_row as int].len()
                        ==> TextBuffer::chars_removed(
                        b0,
                        b1,
                        b0.cursor_col,
                        1,
                        false,
                    )
                    &&& b0.cursor_col == b0.text()[b0.cursor_row as int].len() && b0.cursor_row + 1 < b0.text().len()
                        ==> TextBuffer::rows_joined(
                        b0,
                        b1,
                        b0.cursor_row + 1,
                    )
                    &&& b0.cursor_col == b0.text()[b0.cursor_row as int].len() && b0.cursor_row + 1 == b0.text().len() ==> TextBuffer::unchanged(b0, b1)
                },
                Key::Up => TextBuffer::same_text_and_links(b0, b1)
                    && TextBuffer::same_extras(b0, b1) && (b1.cursor_row as int, b1.cursor_col as int) == move_target(
                    b0.text(),
                    b0.cursor_row as int,
                    b0.cursor_col as int,
                    CursorMove::Up,
                ),
                Key::Down => TextBuffer::same_text_and_links(b0, b1)
                    && TextBuffer::same_extras(b0, b1) && (b1.cursor_row as int, b1.cursor_col as int) == move_target(
                    b0.text(),
                    b0.cursor_row as int,
                    b0.cursor_col as int,
                    CursorMove::Down,
                ),
                Key::Left => TextBuffer::same_text_and_links(b0, b1)
                    && TextBuffer::same_extras(b0, b1) && (b1.cursor_row as int, b1.cursor_col as int) == move_target(
                    b0.text(),
                    b0.cursor_row as int,
                    b0.cursor_col as int,
                    CursorMove::Back,
                ),
                Key::Right => TextBuffer::same_text_and_links(b0, b1)
                    && TextBuffer::same_extras(b0, b1) && (b1.cursor_row as int, b1.cursor_col as int) == move_target(
                    b0.text(),
                    b0.cursor_row as int,
                    b0.cursor_col as int,
                    CursorMove::Forward,
                ),
                Key::Esc => TextBuffer::unchanged(b0, b1),
                Key::Null => TextBuffer::unchanged(b0, b1),
                Key::Char(c) => {
                    let r = b0.cursor_row as int;
                    let nline = b0.text()[r].insert(b0.cursor_col as int, c);
                    &&& b1.text() =~= b0.text().update(r, nline)
                    &&& b1.cursor_row == b0.cursor_row
                    &&& b1.cursor_col == b0.cursor_col + 1
                    &&& b1.deleted_link_ids@ == b0.deleted_link_ids@
                        + newly_deleted_ids(
                        b0.links@,
                        (EditEvent::ColsInserted {
                            row: b0.cursor_row,
                            at: b0.cursor_col,
                            count: 1,
                        }),
                    )
                    &&& b1.yank == b0.yank
                    &&& TextBuffer::same_nav(b0, b1)
                    &&& TextBuffer::same_undo(b0, b1)
                    &&& ({
                        let mapped = b0.links@.map_values(
                            |a: Anchor| anchor_after_event(
                                a,
                                (EditEvent::ColsInserted {
                                    row: b0.cursor_row,
                                    at: b0.cursor_col,
                                    count: 1,
                                }),
                            ),
                        );
                        if c == ']' {
                            match gesture_open(nline, b0.cursor_col + 1) {
                                Some(j) => {
                                    if b0.next_link_id < usize::MAX {
                                        &&& b1.links@ == mapped.push(
                                            (Anchor {
                                                id: b0.next_link_id,
                                                row: b0.cursor_row,
                                                start_col: j as usize,
                                                end_col: (b0.cursor_col + 1) as usize,
                                                edited: false,
                                                deleted: false,
                                            }),
                                        )
                                        &&& b1.next_link_id == b0.next_link_id + 1
                                        &&& b1.new_link
                                    } else {
                                        b1.links@ == mapped
                                            && TextBuffer::same_link_meta(b0, b1)
                                    }
                                },
                                None => b1.links@ == mapped
                                    && TextBuffer::same_link_meta(b0, b1),
                            }
                        } else {
                            b1.links@ == mapped && TextBuffer::same_link_meta(
                                b0,
                                b1,
                            )
                        }
                    })
                },
            })
    }

    /// One insert-mode key: characters, newline, deletions and plain cursor
    /// keys go straight into the text; anything else is ignored. A `]` that
    /// closes a link gesture draws its anchor.
    pub fn input(&mut self, inp: Input)
        requires
            old(self).wf(),
        ensures
            final(self).wf(),
            TextBuffer::input_applied(*old(self), *final(self), inp),
    {
        match inp.key {
            Key::Char(c) => {
                self.insert_char(c);
                if c == ']' {
                    self.complete_link_gesture();
                }
            },
            Key::Enter => {
                self.insert_newline();
            },
            Key::Backspace => {
                self.delete_char();
            },
            Key::Delete => {
                self.delete_next_char();
            },
            Key::Tab => {
                self.insert_char(' ');
            },
            Key::Up => {
                self.move_cursor(CursorMove::Up);
            },
            Key::Down => {
                self.move_cursor(CursorMove::Down);
            },
            Key::Left => {
                self.move_cursor(CursorMove::Back);
            },
            Key::Right => {
                self.move_cursor(CursorMove::Forward);
            },
            _ => {},
        }
    }

    /// The current text, cursor and anchor table as one undo step.
    fn take_snapshot(&self) -> (s: Snapshot)
        requires
            self.wf(),
        ensures
            s.wf(),
            text_of(s.lines@) == self.text(),
            s.cursor_row == self.cursor_row,
            s.cursor_col == self.cursor_col,
            s.links@ == self.links@,
    {
        let s = Snapshot {
            lines: copy_lines(&self.lines),
            cursor_row: self.cursor_row,
            cursor_col: self.cursor_col,
            links: copy_vec(&self.links),
        };
        proof {
            assert(text_of(s.lines@) =~= self.text());
        }
        s
    }

    /// Record the current state as an undo step and drop any redo steps.
    pub fn push_history(&mut self)
        requires
            old(self).wf(),
        ensures
            final(self).wf(),
            TextBuffer::same_content(*old(self), *final(self)),
            final(self).cursor_row == old(self).cursor_row,
            final(self).cursor_col == old(self).cursor_col,
            TextBuffer::same_link_meta(*old(self), *final(self)),
            final(self).yank == old(self).yank,
            final(self).select_start == old(self).select_start,
            final(self).search_pattern@ == old(self).search_pattern@,
            final(self).hop_matches@ == old(self).hop_matches@,
            final(self).max_col == old(self).max_col,
            final(self).redo_stack@.len() == 0,
            final(self).history@.len() == old(self).history@.len() + 1,
            final(self).history@.subrange(0, old(self).history@.len() as int) == old(self).history@,
            ({
                let s = final(self).history@.last();
                text_of(s.lines@) == old(self).text() && s.cursor_row == old(self).cursor_row
                    && s.cursor_col == old(self).cursor_col && s.links@ == old(self).links@
            }),
    {
        let s = self.take_snapshot();
        self.history.push(s);
        self.redo_stack.clear();
        proof {
            assert(final(self).history@.subrange(0, old(self).history@.len() as int) =~= old(self).history@);
        }
    }

    /// Restore the most recent undo step, pushing the current state onto the
    /// redo stack; with no undo steps recorded this is a no-op.
    pub fn undo(&mut self)
        requires
            old(self).wf(),
        ensures
            final(self).wf(),
            old(self).history@.len() == 0 ==> TextBuffer::unchanged(*old(self), *final(self)),
            old(self).history@.len() > 0 ==> ({
                let s = old(self).history@.last();
                &&& final(self).text() == text_of(s.lines@)
                &&& final(self).cursor_row == s.cursor_row
                &&& final(self).cursor_col == s.cursor_col
                &&& final(self).links@ == s.links@
                &&& final(self).history@ == old(self).history@.drop_last()
                &&& final(self).redo_stack@.len() == old(self).redo_stack@.len() + 1
                &&& final(self).redo_stack@.subrange(0, old(self).redo_stack@.len() as int)
                    == old(self).redo_stack@
                &&& ({
                    let r = final(self).redo_stack@.last();
                    text_of(r.lines@) == old(self).text() && r.cursor_row == old(self).cursor_row
                        && r.cursor_col == old(self).cursor_col && r.links@ == old(self).links@
                })
                &&& final(self).deleted_link_ids@ == old(self).deleted_link_ids@
                &&& TextBuffer::same_link_meta(*old(self), *final(self))
                &&& final(self).yank == old(self).yank
                &&& final(self).select_start == old(self).select_start
                &&& final(self).search_pattern@ == old(self).search_pattern@
                &&& final(self).hop_matches@ == old(self).hop_matches@
                &&& final(self).max_col == old(self).max_col
            }),
            TextBuffer::undone(*old(self), *final(self)),
    {
        let n = self.history.len();
        if n == 0 {
            return ;
        }
        let cur = self.take_snapshot();
        let s = self.history.remove(n - 1);
        self.redo_stack.push(cur);
        self.lines = s.lines;
        self.cursor_row = s.cursor_row;
        self.cursor_col = s.cursor_col;
        self.links = s.links;
        proof {
            assert(old(self).history@.remove(n - 1) =~= old(self).history@.drop_last());
            assert(final(self).redo_stack@.subrange(0, old(self).redo_stack@.len() as int) =~= old(self).redo_stack@);
        }
    }

    /// Restore the most recent redo step, pushing the current state back onto
    /// the undo history; with no redo steps recorded this is a no-op.
    pub fn redo(&mut self)
        requires
            old(self).wf(),
        ensures
            final(self).wf(),
            old(self).redo_stack@.len() == 0 ==> TextBuffer::unchanged(*old(self), *final(self)),
            old(self).redo_stack@.len() > 0 ==> ({
                let s = old(self).redo_stack@.last();
                &&& final(self).text() == text_of(s.lines@)
                &&& final(self).cursor_row == s.cursor_row
                &&& final(self).cursor_col == s.cursor_col
                &&& final(self).links@ == s.links@
                &&& final(self).redo_stack@ == old(self).redo_stack@.drop_last()
                &&& final(self).history@.len() == old(self).history@.len() + 1
                &&& final(self).history@.subrange(0, old(self).history@.len() as int) == old(self).history@
                &&& ({
                    let r = final(self).history@.last();
                    text_of(r.lines@) == old(self).text() && r.cursor_row == old(self).cursor_row
                        && r.cursor_col == old(self).cursor_col && r.links@ == old(self).links@
                })
                &&& final(self).deleted_link_ids@ == old(self).deleted_link_ids@
                &&& TextBuffer::same_link_meta(*old(self), *final(self))
                &&& final(self).yank == old(self).yank
                &&& final(self).select_start == old(self).select_start
                &&& final(self).search_pattern@ == old(self).search_pattern@
                &&& final(self).hop_matches@ == old(self).hop_matches@
                &&& final(self).max_col == old(self).max_col
            }),
            TextBuffer::redone(*old(self), *final(self)),
    {
        let n = self.redo_stack.len();
        if n == 0 {
            return ;
        }
        let cur = self.take_snapshot();
        let s = self.redo_stack.remove(n - 1);
        self.history.push(cur);
        self.lines = s.lines;
        self.cursor_row = s.cursor_row;
        self.cursor_col = s.cursor_col;
        self.links = s.links;
        proof {
            assert(old(self).redo_stack@.remove(n - 1) =~= old(self).redo_stack@.drop_last());
            assert(final(self).history@.subrange(0, old(self).history@.len() as int) =~= old(self).history@);
        }
    }
}

} // verus!
