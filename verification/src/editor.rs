//! The modal command interpreter: one keystroke at a time it drives the text
//! buffer, tracks the partially-typed multi-key command and its repeat-count
//! prefix, and remembers the column for vertical motion.

use vstd::prelude::*;

use crate::buffer::{
    apply_n, apply_n_snoc, imin, move_target, step_backspace, step_delete_line,
    step_delete_line_by_end, step_delete_next_char, step_delete_next_word, step_delete_word,
    step_move, all_matches, pairs_of, pos_valid, BufView,
    CursorMove, TextBuffer,
};
use crate::digits_value;
use crate::input::{Input, Key};
use crate::links::{anchor_of, Link};
use crate::anchors::{anchor_lookup, Anchor};
use crate::ui::ComponentState;

verus! {

/// The partially-typed multi-key command.
#[derive(Debug, Clone, Copy, PartialEq, Eq, Structural)]
pub enum CommandState {
    NoCommand,
    Delete,
    Yank,
    GoTo,
    FindForward,
    FindBackward,
    PrimeHop,
    ExecuteHop,
}

/// The editing mode.
#[derive(Debug, Clone, Copy, PartialEq, Eq, Structural)]
pub enum EditorMode {
    Insert,
    Normal,
    Visual,
}

/// One editing session: the buffer, the link store mirroring its anchor
/// table, and the interpreter state.
#[derive(Debug, Clone)]
pub struct Editor {
    pub title: String,
    pub note_id: Option<i64>,
    pub body: TextBuffer,
    /// The session's link records, keyed by their text anchor id.
    pub links: Vec<Link>,
    /// Anchor ids whose links were newly marked deleted by reconciliation.
    pub deleted_link_ids: Vec<i64>,
    pub mode: EditorMode,
    pub block_info: String,
    /// The column to restore after vertical motion.
    pub prev_cursor_col: usize,
    /// Buffered repeat-count digits, in typed order.
    pub num_buf: Vec<u32>,
    /// Already-typed characters of the pending multi-key command.
    pub cmd_buf: Vec<char>,
    pub cmd_state: CommandState,
    pub sidebar_open: bool,
    pub searchbar_open: bool,
    pub state: ComponentState,
    pub max_col: u16,
}

/// The digit a key character stands for.
pub open spec fn digit_of(c: char) -> Option<u32> {
    let u = c as u32;
    if 48 <= u <= 57 {
        Some((u - 48) as u32)
    } else {
        None
    }
}

/// The repeat count a digit buffer demands: 1 with no digits, else the
/// base-10 value of the digits in typed order, capped at the largest count
/// the interpreter applies.
pub open spec fn reps_of(digits: Seq<u32>) -> nat {
    if digits.len() == 0 {
        1
    } else if digits_value(digits) > u16::MAX {
        u16::MAX as nat
    } else {
        digits_value(digits) as nat
    }
}

/// The cursor after `n` repetitions of one motion.
pub open spec fn move_n(text: Seq<Seq<char>>, row: int, col: int, m: CursorMove, n: nat) -> (
    int,
    int,
)
    decreases n,
{
    if n == 0 {
        (row, col)
    } else {
        let (r, c) = move_target(text, row, col, m);
        move_n(text, r, c, m, (n - 1) as nat)
    }
}

/// One more repetition moves from the position reached so far.
pub proof fn move_n_snoc(text: Seq<Seq<char>>, row: int, col: int, m: CursorMove, n: nat)
    ensures
        move_n(text, row, col, m, n + 1) == ({
            let (r, c) = move_n(text, row, col, m, n);
            move_target(text, r, c, m)
        }),
    decreases n,
{
    let (r1, c1) = move_target(text, row, col, m);
    if n == 0 {
        assert(move_n(text, row, col, m, 1) == move_n(text, r1, c1, m, 0));
    } else {
        move_n_snoc(text, r1, c1, m, (n - 1) as nat);
        assert(move_n(text, row, col, m, n + 1) == move_n(text, r1, c1, m, n));
        assert(move_n(text, row, col, m, n) == move_n(text, r1, c1, m, (n - 1) as nat));
    }
}

/// Appending a digit multiplies the buffered value by ten and adds it: the
/// first typed digit is the most significant.
pub proof fn lemma_digits_append(digits: Seq<u32>, d: u32)
    ensures
        digits_value(digits.push(d)) == digits_value(digits) * 10 + d,
{
    assert(digits.push(d).drop_last() =~= digits);
    assert(digits.push(d).last() == d);
}

/// For every digit sequence typed before an operator whose base-10 value the
/// interpreter can count to, the repeat count is exactly that value.
pub proof fn lemma_repeat_count(digits: Seq<u32>)
    requires
        digits.len() > 0,
        digits_value(digits) <= u16::MAX,
    ensures
        reps_of(digits) == digits_value(digits),
{
    crate::lemma_digits_value_nonneg(digits);
}

/// Column memory: a vertical move onto a line too short for the remembered
/// column snaps to that line's end, and a move onto a line at least as long
/// restores the remembered column exactly.
pub proof fn lemma_column_memory(prev: int, short_len: int, long_len: int)
    requires
        0 <= short_len <= prev <= long_len,
    ensures
        imin(prev, short_len) == short_len,
        imin(prev, long_len) == prev,
{
}

/// The first occurrence of `t` in the line at or after `from`.
pub open spec fn find_char_from(line: Seq<char>, t: char, from: int) -> Option<int>
    decreases line.len() - from,
{
    if from < 0 || from >= line.len() {
        None
    } else if line[from] == t {
        Some(from)
    } else {
        find_char_from(line, t, from + 1)
    }
}

/// The last occurrence of `t` in the line strictly before `upto`.
pub open spec fn rfind_char(line: Seq<char>, t: char, upto: int) -> Option<int>
    decreases upto,
{
    if upto <= 0 || upto > line.len() {
        None
    } else if line[upto - 1] == t {
        Some(upto - 1)
    } else {
        rfind_char(line, t, upto - 1)
    }
}

/// The label shown for a mode.
pub open spec fn mode_info(m: EditorMode) -> Seq<char> {
    match m {
        EditorMode::Insert => " <| INSERT |>"@,
        EditorMode::Normal => " <| NORMAL |>"@,
        EditorMode::Visual => " <| VISUAL |>"@,
    }
}

impl Editor {
    /// The session is consistent when its buffer is.
    pub open spec fn wf(self) -> bool {
        self.body.wf()
    }

    /// Note identity, layout switches and widget state unchanged.
    pub open spec fn same_app_meta(e0: Editor, e1: Editor) -> bool {
        &&& e1.title@ == e0.title@
        &&& e1.note_id == e0.note_id
        &&& e1.sidebar_open == e0.sidebar_open
        &&& e1.searchbar_open == e0.searchbar_open
        &&& e1.state == e0.state
        &&& e1.max_col == e0.max_col
    }

    /// The link store and its pending-deletion list unchanged.
    pub open spec fn same_store(e0: Editor, e1: Editor) -> bool {
        &&& e1.links@ == e0.links@
        &&& e1.deleted_link_ids@ == e0.deleted_link_ids@
    }

    /// Mode, its label, and the interpreter buffers unchanged.
    pub open spec fn same_command_state(e0: Editor, e1: Editor) -> bool {
        &&& e1.mode == e0.mode
        &&& e1.block_info@ == e0.block_info@
        &&& e1.num_buf@ == e0.num_buf@
        &&& e1.cmd_buf@ == e0.cmd_buf@
        &&& e1.cmd_state == e0.cmd_state
    }

    /// The pending command and its buffers are clear.
    pub open spec fn command_cleared(self) -> bool {
        &&& self.num_buf@.len() == 0
        &&& self.cmd_buf@.len() == 0
        &&& self.cmd_state == CommandState::NoCommand
    }

    /// The buffer gained exactly one undo step, recording the given state.
    pub open spec fn history_pushed(b0: TextBuffer, b1: TextBuffer) -> bool {
        &&& b1.history@.len() == b0.history@.len() + 1
        &&& b1.history@.subrange(0, b0.history@.len() as int) == b0.history@
        &&& ({
            let s = b1.history@.last();
            crate::buffer::text_of(s.lines@) == b0.text() && s.cursor_row == b0.cursor_row
                && s.cursor_col == b0.cursor_col && s.links@ == b0.links@
        })
        &&& b1.redo_stack@.len() == 0
    }

    /// Mode, its label and the remembered column unchanged, as are the note
    /// metadata and the link store: what every completed or aborted command
    /// leaves alone.
    pub open spec fn command_frame(e0: Editor, e1: Editor) -> bool {
        &&& e1.mode == e0.mode
        &&& e1.block_info@ == e0.block_info@
        &&& e1.prev_cursor_col == e0.prev_cursor_col
        &&& Editor::same_app_meta(e0, e1)
        &&& Editor::same_store(e0, e1)
    }

    /// One completed deletion or yank command: the buffered count was
    /// consumed, one undo step was recorded, and the buffer stepped `f`
    /// exactly that many times.
    pub open spec fn repeated_edit_n(
        e0: Editor,
        e1: Editor,
        f: spec_fn(BufView) -> BufView,
        n: nat,
    ) -> bool {
        &&& e1.num_buf@.len() == 0
        &&& Editor::history_pushed(e0.body, e1.body)
        &&& e1.body.view() == apply_n(f, e0.body.view(), n)
        &&& TextBuffer::same_nav(e0.body, e1.body)
        &&& TextBuffer::same_link_meta(e0.body, e1.body)
    }

    /// `repeated_edit_n`, with the count the digit buffer demands.
    pub open spec fn repeated_edit(e0: Editor, e1: Editor, f: spec_fn(BufView) -> BufView) -> bool {
        Editor::repeated_edit_n(e0, e1, f, reps_of(e0.num_buf@))
    }

    /// The whole-line deletion count: the buffered count, but never more
    /// than the lines from the cursor's row to the end of the buffer, so a
    /// counted deletion that runs out of buffer stops rather than climbing
    /// into the lines above the cursor.
    pub open spec fn dd_count(e0: Editor) -> nat {
        imin(
            reps_of(e0.num_buf@) as int,
            e0.body.text().len() - e0.body.cursor_row,
        ) as nat
    }

    /// What `execute_delete` does for each completion key.
    pub open spec fn delete_executed(e0: Editor, e1: Editor, m: char) -> bool {
        &&& e1.cmd_state == CommandState::NoCommand
        &&& e1.cmd_buf@.len() == 0
        &&& Editor::command_frame(e0, e1)
        &&& (match m {
            'd' | 'j' => Editor::repeated_edit_n(
                e0,
                e1,
                |v: BufView| step_delete_line(v, false),
                Editor::dd_count(e0),
            ),
            'k' => Editor::repeated_edit(e0, e1, |v: BufView| step_delete_line(v, true)),
            'h' => Editor::repeated_edit(e0, e1, |v: BufView| step_backspace(v)),
            'l' => Editor::repeated_edit(e0, e1, |v: BufView| step_delete_next_char(v)),
            'w' => Editor::repeated_edit(e0, e1, |v: BufView| step_delete_next_word(v)),
            'b' => Editor::repeated_edit(e0, e1, |v: BufView| step_delete_word(v)),
            _ => e1.num_buf@.len() == 0 && TextBuffer::unchanged(e0.body, e1.body),
        })
    }

    /// What `execute_yank` does for each completion key.
    pub open spec fn yank_executed(e0: Editor, e1: Editor, m: char) -> bool {
        &&& e1.cmd_state == CommandState::NoCommand
        &&& e1.cmd_buf@.len() == 0
        &&& Editor::command_frame(e0, e1)
        &&& (match m {
            'l' => Editor::repeated_edit(e0, e1, |v: BufView| step_delete_next_char(v)),
            'w' => Editor::repeated_edit(e0, e1, |v: BufView| step_delete_next_word(v)),
            'b' => Editor::repeated_edit(e0, e1, |v: BufView| step_delete_word(v)),
            _ => e1.num_buf@.len() == 0 && TextBuffer::unchanged(e0.body, e1.body),
        })
    }

    /// What `execute_goto` does: `gg` goes to the top, a counted `gg` to
    /// line count − 1, clamped to the last line, always at column 0.
    pub open spec fn goto_executed(e0: Editor, e1: Editor, m: char) -> bool {
        &&& e1.cmd_state == CommandState::NoCommand
        &&& e1.cmd_buf@.len() == 0
        &&& e1.num_buf@.len() == 0
        &&& Editor::command_frame(e0, e1)
        &&& (match m {
            'g' => {
                &&& TextBuffer::same_text_and_links(e0.body, e1.body)
                &&& TextBuffer::same_extras(e0.body, e1.body)
                &&& e1.body.cursor_col == 0
                &&& e1.body.cursor_row as int == ({
                    if e0.num_buf@.len() == 0 {
                        0int
                    } else {
                        let val = imin(digits_value(e0.num_buf@), u16::MAX as int);
                        let target = if val > 0 {
                            val - 1
                        } else {
                            0int
                        };
                        imin(target, e0.body.text().len() - 1)
                    }
                })
            },
            _ => TextBuffer::unchanged(e0.body, e1.body),
        })
    }

    /// What `execute_find` does: jump to the first occurrence of the target
    /// after the cursor (forward), or the last one before the character left
    /// of the cursor (backward), scanning the current line only; absent a
    /// match the cursor stays.
    pub open spec fn find_executed(e0: Editor, e1: Editor, target: char, forward: bool) -> bool {
        let line = e0.body.text()[e0.body.cursor_row as int];
        let col = e0.body.cursor_col as int;
        &&& e1.cmd_state == CommandState::NoCommand
        &&& e1.cmd_buf@.len() == 0
        &&& e1.num_buf@.len() == 0
        &&& Editor::command_frame(e0, e1)
        &&& TextBuffer::same_text_and_links(e0.body, e1.body)
        &&& TextBuffer::same_extras(e0.body, e1.body)
        &&& e1.body.cursor_row == e0.body.cursor_row
        &&& e1.body.cursor_col as int == ({
            let hit = if forward {
                find_char_from(line, target, col + 1)
            } else {
                rfind_char(line, target, col)
            };
            match hit {
                Some(p) => p,
                None => col,
            }
        })
    }

    /// What `execute_hop` does: jump to the buffered-count hop match, then
    /// clear all hop state.
    pub open spec fn hop_executed(e0: Editor, e1: Editor) -> bool {
        &&& e1.cmd_state == CommandState::NoCommand
        &&& e1.cmd_buf@.len() == 0
        &&& e1.num_buf@.len() == 0
        &&& Editor::command_frame(e0, e1)
        &&& e1.body.lines@ == e0.body.lines@
        &&& e1.body.links@ == e0.body.links@
        &&& e1.body.deleted_link_ids@ == e0.body.deleted_link_ids@
        &&& e1.body.hop_matches@.len() == 0
        &&& TextBuffer::same_link_meta(e0.body, e1.body)
        &&& TextBuffer::same_undo(e0.body, e1.body)
        &&& e1.body.yank == e0.body.yank
        &&& e1.body.select_start == e0.body.select_start
        &&& e1.body.search_pattern@ == e0.body.search_pattern@
        &&& ({
            let hops = e0.body.hop_matches@;
            let idx = imin(digits_value(e0.num_buf@), u16::MAX as int);
            if 0 <= idx < hops.len() && pos_valid(
                e0.body.text(),
                hops[idx].0 as int,
                hops[idx].1 as int,
            ) {
                e1.body.cursor_row == hops[idx].0 && e1.body.cursor_col == hops[idx].1
            } else {
                e1.body.cursor_row == e0.body.cursor_row && e1.body.cursor_col
                    == e0.body.cursor_col
            }
        })
    }

    pub fn set_state(&mut self, new_state: ComponentState)
        ensures
            *final(self) == (Editor { state: new_state, ..*old(self) }),
    {
        self.state = new_state;
    }

    pub fn set_title(&mut self, title: String)
        ensures
            final(self).title == title,
            *final(self) == (Editor { title, ..*old(self) }),
    {
        self.title = title;
    }

    /// What switching to `m` does: the mode and its label change, entering
    /// any mode drops the selection, all but Normal clear the search, and
    /// Visual starts a fresh selection at the cursor.
    /// What every mode transition does, apart from the pending-input
    /// buffers: the mode and its label change, any active selection and the
    /// search highlight are cleared, and Visual starts a fresh selection at
    /// the cursor.
    pub open spec fn mode_transition(e0: Editor, e1: Editor, m: EditorMode) -> bool {
        &&& e1.mode == m
        &&& e1.block_info@ == mode_info(m)
        &&& TextBuffer::same_content(e0.body, e1.body)
        &&& e1.body.cursor_row == e0.body.cursor_row
        &&& e1.body.cursor_col == e0.body.cursor_col
        &&& TextBuffer::same_link_meta(e0.body, e1.body)
        &&& TextBuffer::same_undo(e0.body, e1.body)
        &&& e1.body.yank == e0.body.yank
        &&& e1.body.hop_matches@ == e0.body.hop_matches@
        &&& e1.body.max_col == e0.body.max_col
        &&& e1.body.search_pattern@ =~= Seq::<char>::empty()
        &&& (match m {
            EditorMode::Insert => e1.body.select_start is None,
            EditorMode::Normal => e1.body.select_start is None,
            EditorMode::Visual => e1.body.select_start == Some(
                (e0.body.cursor_row, e0.body.cursor_col),
            ),
        })
        &&& Editor::same_app_meta(e0, e1)
        &&& Editor::same_store(e0, e1)
        &&& e1.cmd_state == e0.cmd_state
        &&& e1.prev_cursor_col == e0.prev_cursor_col
    }

    /// A bare mode switch: a transition that leaves the pending-input
    /// buffers alone.
    pub open spec fn mode_set(e0: Editor, e1: Editor, m: EditorMode) -> bool {
        &&& Editor::mode_transition(e0, e1, m)
        &&& e1.num_buf@ == e0.num_buf@
        &&& e1.cmd_buf@ == e0.cmd_buf@
    }

    /// A mode switch taken as an immediate action: the transition, with the
    /// pending input reset.
    pub open spec fn mode_switched(e0: Editor, e1: Editor, m: EditorMode) -> bool {
        &&& Editor::mode_transition(e0, e1, m)
        &&& e1.num_buf@.len() == 0
        &&& e1.cmd_buf@.len() == 0
    }

    /// Switch mode: entering any mode drops the selection and the search
    /// highlight; Visual starts a fresh selection at the cursor.
    pub fn set_mode(&mut self, mode: EditorMode)
        requires
            old(self).wf(),
        ensures
            final(self).wf(),
            Editor::mode_set(*old(self), *final(self), mode),
    {
        match mode {
            EditorMode::Insert => {
                self.body.cancel_selection();
                self.body.clear_search();
                self.block_info = " <| INSERT |>".to_owned();
            },
            EditorMode::Normal => {
                self.body.cancel_selection();
                self.body.clear_search();
                self.block_info = " <| NORMAL |>".to_owned();
            },
            EditorMode::Visual => {
                self.body.start_selection();
                self.body.clear_search();
                self.block_info = " <| VISUAL |>".to_owned();
            },
        }
        self.mode = mode;
    }

    /// Remember the cursor's column for later vertical motion.
    pub fn set_prev_cursor_col(&mut self)
        ensures
            *final(self) == (Editor { prev_cursor_col: old(self).body.cursor_col, ..*old(self) }),
    {
        self.prev_cursor_col = self.body.cursor_col;
    }

    /// Restore the remembered column on the current line, snapping to the
    /// end of a line too short to hold it.
    pub fn jump_cursor_to_prev_col(&mut self)
        requires
            old(self).wf(),
        ensures
            final(self).wf(),
            final(self).body.cursor_col as int == imin(
                old(self).prev_cursor_col as int,
                old(self).body.text()[old(self).body.cursor_row as int].len() as int,
            ),
            final(self).body.cursor_row == old(self).body.cursor_row,
            TextBuffer::same_text_and_links(old(self).body, final(self).body),
            TextBuffer::same_extras(old(self).body, final(self).body),
            Editor::same_app_meta(*old(self), *final(self)),
            Editor::same_store(*old(self), *final(self)),
            Editor::same_command_state(*old(self), *final(self)),
            final(self).prev_cursor_col == old(self).prev_cursor_col,
    {
        let row = self.body.cursor_row;
        let line_len = self.body.lines[row].len();
        if self.prev_cursor_col < line_len {
            self.body.cursor_col = self.prev_cursor_col;
        } else {
            self.body.cursor_col = line_len;
        }
    }

    /// The repeat count the digit buffer demands: its base-10 value in typed
    /// order, saturated at the largest representable count.
    pub fn get_num_from_buf(&self) -> (r: u16)
        ensures
            r as int == imin(digits_value(self.num_buf@), u16::MAX as int),
            self.num_buf@.len() == 0 ==> r == 0,
    {
        let mut acc: u32 = 0;
        let mut i: usize = 0;
        while i < self.num_buf.len()
            invariant
                i <= self.num_buf@.len(),
                acc as int == imin(digits_value(self.num_buf@.subrange(0, i as int)), 65536),
            decreases self.num_buf@.len() - i,
        {
            let d = self.num_buf[i];
            let t: u64 = (acc as u64) * 10 + (d as u64);
            acc = if t > 65536 {
                65536
            } else {
                t as u32
            };
            proof {
                let ghost ii = i as int;
                assert(self.num_buf@.subrange(0, ii + 1).drop_last() =~= self.num_buf@.subrange(
                    0,
                    ii,
                ));
                assert(self.num_buf@.subrange(0, ii + 1).last() == self.num_buf@[ii]);
            }
            i = i + 1;
        }
        proof {
            assert(self.num_buf@.subrange(0, self.num_buf@.len() as int) =~= self.num_buf@);
            crate::lemma_digits_value_nonneg(self.num_buf@);
        }
        if acc > 65535 {
            65535
        } else {
            acc as u16
        }
    }

    /// Complete a pending delete command.
    pub fn execute_delete(&mut self, modifier: char)
        requires
            old(self).wf(),
        ensures
            final(self).wf(),
            Editor::delete_executed(*old(self), *final(self), modifier),
    {
        match modifier {
            'd' | 'j' => {
                self.body.push_history();
                let count = self.count_or_one();
                let avail = self.body.lines.len() - self.body.cursor_row;
                let reps: u16 = if (count as usize) > avail {
                    avail as u16
                } else {
                    count
                };
                repeat_delete_line(&mut self.body, false, reps);
                self.num_buf.clear();
                self.cmd_buf.clear();
            },
            'k' => {
                self.body.push_history();
                let reps = self.count_or_one();
                repeat_delete_line(&mut self.body, true, reps);
                self.num_buf.clear();
                self.cmd_buf.clear();
            },
            'h' => {
                self.body.push_history();
                let reps = self.count_or_one();
                repeat_backspace(&mut self.body, reps);
                self.num_buf.clear();
                self.cmd_buf.clear();
            },
            'l' => {
                self.body.push_history();
                let reps = self.count_or_one();
                repeat_delete_next_char(&mut self.body, reps);
                self.num_buf.clear();
                self.cmd_buf.clear();
            },
            'w' => {
                self.body.push_history();
                let reps = self.count_or_one();
                repeat_delete_next_word(&mut self.body, reps);
                self.num_buf.clear();
                self.cmd_buf.clear();
            },
            'b' => {
                self.body.push_history();
                let reps = self.count_or_one();
                repeat_delete_word(&mut self.body, reps);
                self.num_buf.clear();
                self.cmd_buf.clear();
            },
            _ => {
                self.cmd_buf.clear();
                self.num_buf.clear();
            },
        }
        self.cmd_state = CommandState::NoCommand;
    }

    /// Complete a pending yank command; this system treats a yank as a
    /// consuming edit, structurally identical to the corresponding delete
    /// primitive.
    pub fn execute_yank(&mut self, modifier: char)
        requires
            old(self).wf(),
        ensures
            final(self).wf(),
            Editor::yank_executed(*old(self), *final(self), modifier),
    {
        match modifier {
            'l' => {
                self.body.push_history();
                let reps = self.count_or_one();
                repeat_delete_next_char(&mut self.body, reps);
                self.num_buf.clear();
                self.cmd_buf.clear();
            },
            'w' => {
                self.body.push_history();
                let reps = self.count_or_one();
                repeat_delete_next_word(&mut self.body, reps);
                self.num_buf.clear();
                self.cmd_buf.clear();
            },
            'b' => {
                self.body.push_history();
                let reps = self.count_or_one();
                repeat_delete_word(&mut self.body, reps);
                self.num_buf.clear();
                self.cmd_buf.clear();
            },
            _ => {
                self.cmd_buf.clear();
                self.num_buf.clear();
            },
        }
        self.cmd_state = CommandState::NoCommand;
    }

    /// Complete a pending go-to command.
    pub fn execute_goto(&mut self, modifier: char)
        requires
            old(self).wf(),
        ensures
            final(self).wf(),
            Editor::goto_executed(*old(self), *final(self), modifier),
    {
        match modifier {
            'g' => {
                if self.num_buf.len() > 0 {
                    let num = self.get_num_from_buf();
                    let target: u16 = if num > 0 {
                        num - 1
                    } else {
                        0
                    };
                    self.body.move_cursor(CursorMove::Jump(target, 0));
                    self.num_buf.clear();
                } else {
                    self.body.move_cursor(CursorMove::Top);
                    self.body.move_cursor(CursorMove::Head);
                }
                self.cmd_buf.clear();
            },
            _ => {
                self.cmd_buf.clear();
                self.num_buf.clear();
            },
        }
        self.cmd_state = CommandState::NoCommand;
    }

    /// Complete a pending find command: scan the current line only, from
    /// just past (or before) the cursor, and jump to the first hit.
    #[verifier::loop_isolation(false)]
    pub fn execute_find(&mut self, target: char, forward: bool)
        requires
            old(self).wf(),
        ensures
            final(self).wf(),
            Editor::find_executed(*old(self), *final(self), target, forward),
    {
        let row = self.body.cursor_row;
        let col = self.body.cursor_col;
        let line_len = self.body.lines[row].len();
        if forward {
            if col < line_len {
                let mut i: usize = col + 1;
                while i < line_len
                    invariant
                        col + 1 <= i <= line_len,
                        *self == *old(self),
                        find_char_from(self.body.text()[row as int], target, col + 1)
                            == find_char_from(self.body.text()[row as int], target, i as int),
                    decreases line_len - i,
                {
                    if self.body.lines[row][i] == target {
                        self.body.cursor_col = i;
                        self.cmd_buf.clear();
                        self.num_buf.clear();
                        self.cmd_state = CommandState::NoCommand;
                        return ;
                    }
                    i = i + 1;
                }
            }
        } else {
            if col >= 1 {
                let mut i: usize = col;
                while i > 0
                    invariant
                        i <= col,
                        *self == *old(self),
                        rfind_char(self.body.text()[row as int], target, col as int) == rfind_char(
                            self.body.text()[row as int],
                            target,
                            i as int,
                        ),
                    decreases i,
                {
                    if self.body.lines[row][i - 1] == target {
                        self.body.cursor_col = i - 1;
                        self.cmd_buf.clear();
                        self.num_buf.clear();
                        self.cmd_state = CommandState::NoCommand;
                        return ;
                    }
                    i = i - 1;
                }
            }
        }
        self.cmd_buf.clear();
        self.num_buf.clear();
        self.cmd_state = CommandState::NoCommand;
    }

    /// Ask the buffer for the ranked match positions of a hop key, then
    /// await the match index.
    pub fn prime_hop(&mut self, target: &Vec<char>)
        requires
            old(self).wf(),
        ensures
            final(self).wf(),
            final(self).cmd_state == CommandState::ExecuteHop,
            pairs_of(final(self).body.hop_matches@) == all_matches(old(self).body.text(), target@),
            TextBuffer::same_content(old(self).body, final(self).body),
            final(self).body.cursor_row == old(self).body.cursor_row,
            final(self).body.cursor_col == old(self).body.cursor_col,
            TextBuffer::same_link_meta(old(self).body, final(self).body),
            TextBuffer::same_undo(old(self).body, final(self).body),
            final(self).body.yank == old(self).body.yank,
            final(self).body.select_start == old(self).body.select_start,
            final(self).body.search_pattern@ == old(self).body.search_pattern@,
            final(self).body.max_col == old(self).body.max_col,
            Editor::command_frame(*old(self), *final(self)),
            final(self).num_buf@ == old(self).num_buf@,
            final(self).cmd_buf@ == old(self).cmd_buf@,
    {
        self.body.set_hop_pattern(target);
        self.cmd_state = CommandState::ExecuteHop;
    }

    /// Jump to the selected hop match and clear all hop state.
    pub fn execute_hop(&mut self)
        requires
            old(self).wf(),
        ensures
            final(self).wf(),
            Editor::hop_executed(*old(self), *final(self)),
    {
        let idx = self.get_num_from_buf();
        proof {
            crate::lemma_digits_value_nonneg(self.num_buf@);
        }
        self.body.hop_to_idx(idx as usize);
        self.body.clear_hop();
        self.cmd_buf.clear();
        self.num_buf.clear();
        self.cmd_state = CommandState::NoCommand;
    }

    /// What `prime_command_state` does with a key seen in no-command state:
    /// collect a digit, open a multi-key command, or reset.
    pub open spec fn command_primed(e0: Editor, e1: Editor, input: Input) -> bool {
        &&& TextBuffer::unchanged(e0.body, e1.body)
        &&& e1.mode == e0.mode
        &&& e1.block_info@ == e0.block_info@
        &&& e1.prev_cursor_col == e0.prev_cursor_col
        &&& Editor::same_app_meta(e0, e1)
        &&& Editor::same_store(e0, e1)
        &&& (match input.key {
            Key::Char(c) => {
                match digit_of(c) {
                    Some(d) => e1.num_buf@ == e0.num_buf@.push(d) && e1.cmd_buf@ == e0.cmd_buf@
                        && e1.cmd_state == e0.cmd_state,
                    None => {
                        if e0.cmd_state == CommandState::NoCommand && (c == 'd' || c == 'g' || c
                            == 'y' || c == 'f' || c == 'F') {
                            &&& e1.cmd_buf@ == e0.cmd_buf@.push(c)
                            &&& e1.num_buf@ == e0.num_buf@
                            &&& e1.cmd_state == (if c == 'd' {
                                CommandState::Delete
                            } else if c == 'g' {
                                CommandState::GoTo
                            } else if c == 'y' {
                                CommandState::Yank
                            } else if c == 'f' {
                                CommandState::FindForward
                            } else {
                                CommandState::FindBackward
                            })
                        } else if e0.cmd_state == CommandState::NoCommand && c == 's' {
                            e1.cmd_buf@ == e0.cmd_buf@ && e1.num_buf@ == e0.num_buf@
                                && e1.cmd_state == CommandState::PrimeHop
                        } else {
                            e1.cmd_state == CommandState::NoCommand && e1.cmd_buf@.len() == 0
                                && e1.num_buf@ == e0.num_buf@
                        }
                    },
                }
            },
            _ => e1.command_cleared(),
        })
    }

    /// An unrecognized continuation aborted the pending command: all pending
    /// state clears and nothing else happens.
    pub open spec fn command_aborted(e0: Editor, e1: Editor) -> bool {
        &&& e1.command_cleared()
        &&& TextBuffer::unchanged(e0.body, e1.body)
        &&& e1.mode == e0.mode
        &&& e1.block_info@ == e0.block_info@
        &&& e1.prev_cursor_col == e0.prev_cursor_col
        &&& Editor::same_app_meta(e0, e1)
        &&& Editor::same_store(e0, e1)
    }

    /// What `process_command_key_inputs` does: match the key against the
    /// pending command's completion set, execute on a hit, abort otherwise.
    pub open spec fn command_key_processed(e0: Editor, e1: Editor, input: Input) -> bool {
        match input.key {
            Key::Char(c) => {
                match e0.cmd_state {
                    CommandState::Delete => {
                        if c == 'd' || c == 'j' || c == 'k' || c == 'h' || c == 'l' || c == 'w' || c
                            == 'b' {
                            Editor::delete_executed(e0, e1, c)
                        } else {
                            Editor::command_aborted(e0, e1)
                        }
                    },
                    CommandState::Yank => {
                        if c == 'w' || c == 'b' || c == 'j' || c == 'k' || c == 'l' || c == 'h' {
                            Editor::yank_executed(e0, e1, c)
                        } else {
                            Editor::command_aborted(e0, e1)
                        }
                    },
                    CommandState::GoTo => {
                        if c == 'g' {
                            Editor::goto_executed(e0, e1, c)
                        } else {
                            Editor::command_aborted(e0, e1)
                        }
                    },
                    CommandState::FindForward => Editor::find_executed(e0, e1, c, true),
                    CommandState::FindBackward => Editor::find_executed(e0, e1, c, false),
                    CommandState::PrimeHop => {
                        if e0.cmd_buf@.len() + 1 == 2 {
                            &&& e1.cmd_state == CommandState::ExecuteHop
                            &&& e1.cmd_buf@ == e0.cmd_buf@.push(c)
                            &&& e1.num_buf@ == e0.num_buf@
                            &&& pairs_of(e1.body.hop_matches@) == all_matches(
                                e0.body.text(),
                                e0.cmd_buf@.push(c),
                            )
                            &&& TextBuffer::same_content(e0.body, e1.body)
                            &&& e1.body.cursor_row == e0.body.cursor_row
                            &&& e1.body.cursor_col == e0.body.cursor_col
                            &&& e1.mode == e0.mode
                            &&& e1.block_info@ == e0.block_info@
                            &&& e1.prev_cursor_col == e0.prev_cursor_col
                            &&& Editor::same_app_meta(e0, e1)
                            &&& Editor::same_store(e0, e1)
                        } else {
                            &&& e1.cmd_state == CommandState::PrimeHop
                            &&& e1.cmd_buf@ == e0.cmd_buf@.push(c)
                            &&& e1.num_buf@ == e0.num_buf@
                            &&& TextBuffer::unchanged(e0.body, e1.body)
                            &&& e1.mode == e0.mode
                            &&& e1.block_info@ == e0.block_info@
                            &&& e1.prev_cursor_col == e0.prev_cursor_col
                            &&& Editor::same_app_meta(e0, e1)
                            &&& Editor::same_store(e0, e1)
                        }
                    },
                    CommandState::ExecuteHop => {
                        match digit_of(c) {
                            Some(d) => {
                                &&& e1.cmd_state == CommandState::ExecuteHop
                                &&& e1.cmd_buf@ == e0.cmd_buf@.push(c)
                                &&& e1.num_buf@ == e0.num_buf@.push(d)
                                &&& TextBuffer::unchanged(e0.body, e1.body)
                                &&& e1.mode == e0.mode
                                &&& e1.block_info@ == e0.block_info@
                                &&& e1.prev_cursor_col == e0.prev_cursor_col
                                &&& Editor::same_app_meta(e0, e1)
                                &&& Editor::same_store(e0, e1)
                            },
                            None => {
                                if c == 'h' {
                                    Editor::hop_executed(e0, e1)
                                } else {
                                    Editor::command_aborted(e0, e1)
                                }
                            },
                        }
                    },
                    CommandState::NoCommand => Editor::command_aborted(e0, e1),
                }
            },
            _ => Editor::command_aborted(e0, e1),
        }
    }

    /// Feed one key to the pending multi-key command.
    pub fn process_command_key_inputs(&mut self, input: Input)
        requires
            old(self).wf(),
        ensures
            final(self).wf(),
            Editor::command_key_processed(*old(self), *final(self), input),
    {
        match input.key {
            Key::Char(c) => {
                self.cmd_buf.push(c);
                match self.cmd_state {
                    CommandState::Delete => {
                        if c == 'd' || c == 'j' || c == 'k' || c == 'h' || c == 'l' || c == 'w' || c
                            == 'b' {
                            self.execute_delete(c);
                        } else {
                            self.abort_command();
                        }
                    },
                    CommandState::Yank => {
                        if c == 'w' || c == 'b' || c == 'j' || c == 'k' || c == 'l' || c == 'h' {
                            self.execute_yank(c);
                        } else {
                            self.abort_command();
                        }
                    },
                    CommandState::GoTo => {
                        if c == 'g' {
                            self.execute_goto(c);
                        } else {
                            self.abort_command();
                        }
                    },
                    CommandState::FindForward => {
                        self.execute_find(c, true);
                    },
                    CommandState::FindBackward => {
                        self.execute_find(c, false);
                    },
                    CommandState::PrimeHop => {
                        if self.cmd_buf.len() == 2 {
                            let pat = crate::text::copy_vec(&self.cmd_buf);
                            self.prime_hop(&pat);
                        }
                    },
                    CommandState::ExecuteHop => {
                        let u = c as u32;
                        if 48 <= u && u <= 57 {
                            self.num_buf.push(u - 48);
                        } else if c == 'h' {
                            self.execute_hop();
                        } else {
                            self.abort_command();
                        }
                    },
                    CommandState::NoCommand => {
                        self.abort_command();
                    },
                }
            },
            _ => {
                self.abort_command();
            },
        }
    }

    /// Abort the pending command: clear its buffers and reset.
    fn abort_command(&mut self)
        ensures
            final(self).command_cleared(),
            final(self).body == old(self).body,
            final(self).mode == old(self).mode,
            final(self).block_info@ == old(self).block_info@,
            final(self).prev_cursor_col == old(self).prev_cursor_col,
            Editor::same_app_meta(*old(self), *final(self)),
            Editor::same_store(*old(self), *final(self)),
    {
        self.num_buf.clear();
        self.cmd_buf.clear();
        self.cmd_state = CommandState::NoCommand;
    }

    /// Classify one key seen with no command pending: collect a digit, open
    /// a multi-key command, or reset.
    pub fn prime_command_state(&mut self, input: Input)
        requires
            old(self).wf(),
        ensures
            final(self).wf(),
            Editor::command_primed(*old(self), *final(self), input),
    {
        match input.key {
            Key::Char(c) => {
                let u = c as u32;
                if 48 <= u && u <= 57 {
                    self.num_buf.push(u - 48);
                } else {
                    match self.cmd_state {
                        CommandState::NoCommand => {
                            if c == 'd' {
                                self.cmd_buf.push(c);
                                self.cmd_state = CommandState::Delete;
                            } else if c == 'g' {
                                self.cmd_buf.push(c);
                                self.cmd_state = CommandState::GoTo;
                            } else if c == 'y' {
                                self.cmd_buf.push(c);
                                self.cmd_state = CommandState::Yank;
                            } else if c == 'f' {
                                self.cmd_buf.push(c);
                                self.cmd_state = CommandState::FindForward;
                            } else if c == 'F' {
                                self.cmd_buf.push(c);
                                self.cmd_state = CommandState::FindBackward;
                            } else if c == 's' {
                                self.cmd_state = CommandState::PrimeHop;
                            } else {
                                self.cmd_state = CommandState::NoCommand;
                                self.cmd_buf.clear();
                            }
                        },
                        _ => {
                            self.cmd_state = CommandState::NoCommand;
                            self.cmd_buf.clear();
                        },
                    }
                }
            },
            _ => {
                self.cmd_buf.clear();
                self.num_buf.clear();
                self.cmd_state = CommandState::NoCommand;
            },
        }
    }

    /// The buffered count, or one with no digits buffered.
    fn count_or_one(&self) -> (r: u16)
        ensures
            r as nat == reps_of(self.num_buf@),
    {
        if self.num_buf.len() == 0 {
            1
        } else {
            proof {
                crate::lemma_digits_value_nonneg(self.num_buf@);
            }
            self.get_num_from_buf()
        }
    }
}

/// The keys whose edits can remove a link's backing text, after which the
/// buffer's pending anchor deletions must be drained.
pub open spec fn deletion_key(k: Key) -> bool {
    ||| k == Key::Char('d')
    ||| k == Key::Char('w')
    ||| k == Key::Char('b')
    ||| k == Key::Char('j')
    ||| k == Key::Char('k')
    ||| k == Key::Char('l')
    ||| k == Key::Char('h')
    ||| k == Key::Char('x')
    ||| k == Key::Delete
    ||| k == Key::Backspace
}

/// Marking one link deleted never changes how many links the store holds.
pub proof fn lemma_mark_deleted_len(links: Seq<Link>, id: int)
    ensures
        Editor::mark_deleted(links, id).len() == links.len(),
{
    crate::links::lemma_find_link_sound(links, id);
}

/// Draining a stack of deleted anchor ids never changes how many links the
/// store holds.
pub proof fn lemma_drain_preserves_len(links: Seq<Link>, ids: Seq<usize>)
    ensures
        Editor::links_after_drain(links, ids).len() == links.len(),
    decreases ids.len(),
{
    if ids.len() > 0 {
        lemma_mark_deleted_len(links, ids.last() as int);
        lemma_drain_preserves_len(
            Editor::mark_deleted(links, ids.last() as int),
            ids.drop_last(),
        );
    }
}

impl Editor {
    /// The link store after the reconciliation that follows one keystroke:
    /// a deleting key drains the buffer's pending anchor deletions; undo or
    /// redo copies every anchor's deletion flag; and whenever any links are
    /// held at all, drifted anchor geometry is copied over.
    pub open spec fn reconciled_links(e: Editor, input: Input) -> Seq<Link> {
        let links1 = if deletion_key(input.key) {
            Editor::links_after_drain(e.links@, e.body.deleted_link_ids@)
        } else {
            e.links@
        };
        let links2 = if input.key == Key::Char('u') || input.key == Key::Char('r') {
            links1.map_values(|l: Link| Editor::edit_synced(l, e.body.links@))
        } else {
            links1
        };
        if e.links@.len() > 0 {
            links2.map_values(|l: Link| Editor::move_synced(l, e.body.links@))
        } else {
            links2
        }
    }

    /// Reconcile the link store against the buffer's anchor table after one
    /// keystroke, as the control flow prescribes: drain pending deletions
    /// after a deleting key, copy deletion flags after undo or redo, and
    /// copy drifted geometry whenever links are held.
    pub fn reconcile_after(&mut self, input: Input)
        requires
            old(self).wf(),
        ensures
            final(self).wf(),
            final(self).links@ == Editor::reconciled_links(*old(self), input),
            final(self).deleted_link_ids@ == if deletion_key(input.key) {
                old(self).deleted_link_ids@ + Editor::drained_ids(
                    old(self).body.deleted_link_ids@,
                )
            } else {
                old(self).deleted_link_ids@
            },
            deletion_key(input.key) ==> final(self).body.deleted_link_ids@.len() == 0,
            !deletion_key(input.key) ==> final(self).body.deleted_link_ids@ == old(
                self,
            ).body.deleted_link_ids@,
            final(self).body.lines@ == old(self).body.lines@,
            final(self).body.cursor_row == old(self).body.cursor_row,
            final(self).body.cursor_col == old(self).body.cursor_col,
            final(self).body.links@ == old(self).body.links@,
            TextBuffer::same_extras(old(self).body, final(self).body),
            final(self).mode == old(self).mode,
            final(self).block_info@ == old(self).block_info@,
            final(self).prev_cursor_col == old(self).prev_cursor_col,
            Editor::same_command_state(*old(self), *final(self)),
            Editor::same_app_meta(*old(self), *final(self)),
    {
        let deletes = match input.key {
            Key::Char(c) => c == 'd' || c == 'w' || c == 'b' || c == 'j' || c == 'k' || c == 'l'
                || c == 'h' || c == 'x',
            Key::Delete => true,
            Key::Backspace => true,
            _ => false,
        };
        if deletes {
            self.check_link_deletion();
        }
        let undo_redo = match input.key {
            Key::Char(c) => c == 'u' || c == 'r',
            _ => false,
        };
        if undo_redo {
            self.check_link_edits();
        }
        proof {
            if deletion_key(input.key) {
                lemma_drain_preserves_len(
                    old(self).links@,
                    old(self).body.deleted_link_ids@,
                );
            }
        }
        if self.links.len() > 0 {
            self.check_link_moved();
        }
    }

    /// Fold one committed synchronization into the session: the store takes
    /// its synced shape, and the pending-deletion list, now persisted, is
    /// emptied.
    pub fn commit_sync(&mut self)
        ensures
            final(self).links@ == crate::events::synced_store(old(self).links@),
            final(self).deleted_link_ids@.len() == 0,
            final(self).body == old(self).body,
            final(self).mode == old(self).mode,
            final(self).block_info@ == old(self).block_info@,
            final(self).prev_cursor_col == old(self).prev_cursor_col,
            Editor::same_command_state(*old(self), *final(self)),
            Editor::same_app_meta(*old(self), *final(self)),
    {
        crate::events::Events::apply_sync_success(&mut self.links);
        self.deleted_link_ids.clear();
    }

    /// The ids of links whose anchors are missing from the buffer's table: a
    /// reconciliation bug the embedding program should fail loudly on.
    pub open spec fn orphan_ids(links: Seq<Link>, anchors: Seq<Anchor>) -> Seq<i64>
        decreases links.len(),
    {
        if links.len() == 0 {
            Seq::empty()
        } else {
            Editor::orphan_ids(links.drop_last(), anchors) + if anchor_lookup(
                anchors,
                links.last().text_id as int,
            ) is None {
                seq![links.last().text_id]
            } else {
                Seq::<i64>::empty()
            }
        }
    }

    /// The anchor ids of links the buffer's table no longer knows.
    pub fn orphaned_link_ids(&self) -> (r: Vec<i64>)
        ensures
            r@ == Editor::orphan_ids(self.links@, self.body.links@),
    {
        let mut r: Vec<i64> = Vec::new();
        let mut i: usize = 0;
        while i < self.links.len()
            invariant
                i <= self.links@.len(),
                r@ =~= Editor::orphan_ids(
                    self.links@.subrange(0, i as int),
                    self.body.links@,
                ),
            decreases self.links@.len() - i,
        {
            let l = self.links[i];
            let mut found = false;
            if l.text_id >= 0 {
                let tid = l.text_id as u64;
                if tid <= usize::MAX as u64 {
                    found = match crate::anchors::find_anchor(&self.body.links, tid as usize) {
                        Some(_) => true,
                        None => false,
                    };
                } else {
                    proof {
                        crate::anchors::lemma_anchor_lookup_out_of_range(
                            self.body.links@,
                            l.text_id as int,
                        );
                    }
                }
            } else {
                proof {
                    crate::anchors::lemma_anchor_lookup_out_of_range(
                        self.body.links@,
                        l.text_id as int,
                    );
                }
            }
            if !found {
                r.push(l.text_id);
            }
            proof {
                let ghost ii = i as int;
                assert(self.links@.subrange(0, ii + 1).drop_last() =~= self.links@.subrange(
                    0,
                    ii,
                ));
                assert(self.links@.subrange(0, ii + 1).last() == self.links@[ii]);
            }
            i = i + 1;
        }
        proof {
            assert(self.links@.subrange(0, self.links@.len() as int) =~= self.links@);
        }
        r
    }
}


/// Delete the current line, `reps` times over.
#[verifier::loop_isolation(false)]
fn repeat_delete_line(b: &mut TextBuffer, up: bool, reps: u16)
    requires
        old(b).wf(),
    ensures
        final(b).wf(),
        final(b).view() == apply_n(
            |v: BufView| step_delete_line(v, up),
            old(b).view(),
            reps as nat,
        ),
        TextBuffer::same_nav(*old(b), *final(b)),
        TextBuffer::same_link_meta(*old(b), *final(b)),
        TextBuffer::same_undo(*old(b), *final(b)),
{
    let ghost f = |v: BufView| step_delete_line(v, up);
    let ghost v0 = b.view();
    let mut i: u16 = 0;
    while i < reps
        invariant
            i <= reps,
            b.wf(),
            b.view() == apply_n(f, v0, i as nat),
            TextBuffer::same_nav(*old(b), *b),
            TextBuffer::same_link_meta(*old(b), *b),
            TextBuffer::same_undo(*old(b), *b),
        decreases reps - i,
    {
        let ghost prev = *b;
        b.delete_line(up);
        proof {
            apply_n_snoc(f, v0, i as nat);
            assert(f(prev.view()) == step_delete_line(prev.view(), up));
            assert(b.view() == f(prev.view()));
        }
        i = i + 1;
    }
}

/// Delete the character before the cursor, `reps` times over.
#[verifier::loop_isolation(false)]
fn repeat_backspace(b: &mut TextBuffer, reps: u16)
    requires
        old(b).wf(),
    ensures
        final(b).wf(),
        final(b).view() == apply_n(|v: BufView| step_backspace(v), old(b).view(), reps as nat),
        TextBuffer::same_nav(*old(b), *final(b)),
        TextBuffer::same_link_meta(*old(b), *final(b)),
        TextBuffer::same_undo(*old(b), *final(b)),
{
    let ghost f = |v: BufView| step_backspace(v);
    let ghost v0 = b.view();
    let mut i: u16 = 0;
    while i < reps
        invariant
            i <= reps,
            b.wf(),
            b.view() == apply_n(f, v0, i as nat),
            TextBuffer::same_nav(*old(b), *b),
            TextBuffer::same_link_meta(*old(b), *b),
            TextBuffer::same_undo(*old(b), *b),
        decreases reps - i,
    {
        let ghost prev = *b;
        b.delete_char();
        proof {
            apply_n_snoc(f, v0, i as nat);
            assert(f(prev.view()) == step_backspace(prev.view()));
            assert(b.view() == f(prev.view()));
        }
        i = i + 1;
    }
}

/// Delete the character at the cursor, `reps` times over.
#[verifier::loop_isolation(false)]
pub fn repeat_delete_next_char(b: &mut TextBuffer, reps: u16)
    requires
        old(b).wf(),
    ensures
        final(b).wf(),
        final(b).view() == apply_n(
            |v: BufView| step_delete_next_char(v),
            old(b).view(),
            reps as nat,
        ),
        TextBuffer::same_nav(*old(b), *final(b)),
        TextBuffer::same_link_meta(*old(b), *final(b)),
        TextBuffer::same_undo(*old(b), *final(b)),
{
    let ghost f = |v: BufView| step_delete_next_char(v);
    let ghost v0 = b.view();
    let mut i: u16 = 0;
    while i < reps
        invariant
            i <= reps,
            b.wf(),
            b.view() == apply_n(f, v0, i as nat),
            TextBuffer::same_nav(*old(b), *b),
            TextBuffer::same_link_meta(*old(b), *b),
            TextBuffer::same_undo(*old(b), *b),
        decreases reps - i,
    {
        let ghost prev = *b;
        b.delete_next_char();
        proof {
            apply_n_snoc(f, v0, i as nat);
            assert(f(prev.view()) == step_delete_next_char(prev.view()));
            assert(b.view() == f(prev.view()));
        }
        i = i + 1;
    }
}

/// Delete the word after the cursor, `reps` times over.
#[verifier::loop_isolation(false)]
fn repeat_delete_next_word(b: &mut TextBuffer, reps: u16)
    requires
        old(b).wf(),
    ensures
        final(b).wf(),
        final(b).view() == apply_n(
            |v: BufView| step_delete_next_word(v),
            old(b).view(),
            reps as nat,
        ),
        TextBuffer::same_nav(*old(b), *final(b)),
        TextBuffer::same_link_meta(*old(b), *final(b)),
        TextBuffer::same_undo(*old(b), *final(b)),
{
    let ghost f = |v: BufView| step_delete_next_word(v);
    let ghost v0 = b.view();
    let mut i: u16 = 0;
    while i < reps
        invariant
            i <= reps,
            b.wf(),
            b.view() == apply_n(f, v0, i as nat),
            TextBuffer::same_nav(*old(b), *b),
            TextBuffer::same_link_meta(*old(b), *b),
            TextBuffer::same_undo(*old(b), *b),
        decreases reps - i,
    {
        let ghost prev = *b;
        b.delete_next_word();
        proof {
            apply_n_snoc(f, v0, i as nat);
            assert(f(prev.view()) == step_delete_next_word(prev.view()));
            assert(b.view() == f(prev.view()));
        }
        i = i + 1;
    }
}

/// Delete the word before the cursor, `reps` times over.
#[verifier::loop_isolation(false)]
fn repeat_delete_word(b: &mut TextBuffer, reps: u16)
    requires
        old(b).wf(),
    ensures
        final(b).wf(),
        final(b).view() == apply_n(|v: BufView| step_delete_word(v), old(b).view(), reps as nat),
        TextBuffer::same_nav(*old(b), *final(b)),
        TextBuffer::same_link_meta(*old(b), *final(b)),
        TextBuffer::same_undo(*old(b), *final(b)),
{
    let ghost f = |v: BufView| step_delete_word(v);
    let ghost v0 = b.view();
    let mut i: u16 = 0;
    while i < reps
        invariant
            i <= reps,
            b.wf(),
            b.view() == apply_n(f, v0, i as nat),
            TextBuffer::same_nav(*old(b), *b),
            TextBuffer::same_link_meta(*old(b), *b),
            TextBuffer::same_undo(*old(b), *b),
        decreases reps - i,
    {
        let ghost prev = *b;
        b.delete_word();
        proof {
            apply_n_snoc(f, v0, i as nat);
            assert(f(prev.view()) == step_delete_word(prev.view()));
            assert(b.view() == f(prev.view()));
        }
        i = i + 1;
    }
}

impl Editor {
    /// Everything but the buffer's cursor, the command buffers and the
    /// remembered column unchanged; the repeat count, if any, was consumed.
    pub open spec fn motion_frame(e0: Editor, e1: Editor) -> bool {
        &&& TextBuffer::same_text_and_links(e0.body, e1.body)
        &&& TextBuffer::same_extras(e0.body, e1.body)
        &&& e1.num_buf@.len() == 0
        &&& e1.cmd_buf@ == e0.cmd_buf@
        &&& e1.cmd_state == e0.cmd_state
        &&& e1.mode == e0.mode
        &&& e1.block_info@ == e0.block_info@
        &&& Editor::same_app_meta(e0, e1)
        &&& Editor::same_store(e0, e1)
    }

    /// A horizontal motion, repeated by the buffered count; the landing
    /// column becomes the remembered column.
    pub open spec fn motion_h(e0: Editor, e1: Editor, m: CursorMove) -> bool {
        let (r, c) = move_n(
            e0.body.text(),
            e0.body.cursor_row as int,
            e0.body.cursor_col as int,
            m,
            reps_of(e0.num_buf@),
        );
        &&& Editor::motion_frame(e0, e1)
        &&& e1.body.cursor_row == r
        &&& e1.body.cursor_col == c
        &&& e1.prev_cursor_col == e1.body.cursor_col
    }

    /// A vertical motion, repeated by the buffered count; the remembered
    /// column is restored on the landing line, clamped to its end.
    pub open spec fn motion_v(e0: Editor, e1: Editor, m: CursorMove) -> bool {
        let (r, c) = move_n(
            e0.body.text(),
            e0.body.cursor_row as int,
            e0.body.cursor_col as int,
            m,
            reps_of(e0.num_buf@),
        );
        &&& Editor::motion_frame(e0, e1)
        &&& e1.body.cursor_row == r
        &&& e1.body.cursor_col as int == imin(
            e0.prev_cursor_col as int,
            e0.body.text()[r].len() as int,
        )
        &&& e1.prev_cursor_col == e0.prev_cursor_col
    }

    /// The jump to the last line's head; the remembered column follows when
    /// `set_prev` is set.
    pub open spec fn bottom_moved(e0: Editor, e1: Editor, set_prev: bool) -> bool {
        &&& TextBuffer::same_text_and_links(e0.body, e1.body)
        &&& TextBuffer::same_extras(e0.body, e1.body)
        &&& e1.body.cursor_row as int == e0.body.text().len() - 1
        &&& e1.body.cursor_col == 0
        &&& e1.prev_cursor_col == if set_prev {
            0usize
        } else {
            e0.prev_cursor_col
        }
        &&& e1.num_buf@.len() == 0
        &&& e1.cmd_buf@ == e0.cmd_buf@
        &&& e1.cmd_state == e0.cmd_state
        &&& e1.mode == e0.mode
        &&& e1.block_info@ == e0.block_info@
        &&& Editor::same_app_meta(e0, e1)
        &&& Editor::same_store(e0, e1)
    }

    /// One undo-recorded edit stepping the buffer once by `f`, nothing else
    /// consumed.
    pub open spec fn edited_once(e0: Editor, e1: Editor, f: spec_fn(BufView) -> BufView) -> bool {
        &&& Editor::history_pushed(e0.body, e1.body)
        &&& e1.body.view() == f(e0.body.view())
        &&& TextBuffer::same_nav(e0.body, e1.body)
        &&& TextBuffer::same_link_meta(e0.body, e1.body)
        &&& e1.num_buf@.len() == 0
        &&& e1.cmd_buf@.len() == 0
        &&& e1.cmd_state == e0.cmd_state
        &&& e1.mode == e0.mode
        &&& e1.block_info@ == e0.block_info@
        &&& e1.prev_cursor_col == e0.prev_cursor_col
        &&& Editor::same_app_meta(e0, e1)
        &&& Editor::same_store(e0, e1)
    }

    /// Nothing happened at all.
    pub open spec fn untouched(e0: Editor, e1: Editor) -> bool {
        &&& TextBuffer::unchanged(e0.body, e1.body)
        &&& Editor::same_command_state(e0, e1)
        &&& e1.prev_cursor_col == e0.prev_cursor_col
        &&& Editor::same_app_meta(e0, e1)
        &&& Editor::same_store(e0, e1)
    }

    /// What one Normal-mode character does with no command pending.
    pub open spec fn normal_char_handled(e0: Editor, e1: Editor, input: Input, c: char) -> bool {
        if c == 'h' {
            Editor::motion_h(e0, e1, CursorMove::Back)
        } else if c == 'j' {
            Editor::motion_v(e0, e1, CursorMove::Down)
        } else if c == 'k' {
            Editor::motion_v(e0, e1, CursorMove::Up)
        } else if c == 'l' {
            Editor::motion_h(e0, e1, CursorMove::Forward)
        } else if c == 'w' {
            Editor::motion_h(e0, e1, CursorMove::WordForward)
        } else if c == 'b' {
            Editor::motion_h(e0, e1, CursorMove::WordBack)
        } else if c == '^' {
            Editor::motion_h(e0, e1, CursorMove::Head)
        } else if c == '$' {
            Editor::motion_h(e0, e1, CursorMove::End)
        } else if c == 'G' {
            Editor::bottom_moved(e0, e1, false)
        } else if c == 'D' {
            Editor::edited_once(e0, e1, |v: BufView| step_delete_line_by_end(v))
        } else if c == 'C' {
            &&& Editor::history_pushed(e0.body, e1.body)
            &&& e1.body.view() == step_delete_line_by_end(e0.body.view())
            &&& e1.mode == EditorMode::Insert
            &&& e1.block_info@ == mode_info(EditorMode::Insert)
            &&& e1.body.select_start is None
            &&& e1.body.search_pattern@ =~= Seq::<char>::empty()
            &&& e1.prev_cursor_col == e1.body.cursor_col
            &&& e1.num_buf@.len() == 0
            &&& e1.cmd_buf@.len() == 0
            &&& e1.cmd_state == e0.cmd_state
            &&& TextBuffer::same_link_meta(e0.body, e1.body)
            &&& e1.body.hop_matches@ == e0.body.hop_matches@
            &&& e1.body.max_col == e0.body.max_col
            &&& Editor::same_app_meta(e0, e1)
            &&& Editor::same_store(e0, e1)
        } else if c == 'p' {
            &&& Editor::history_pushed(e0.body, e1.body)
            &&& TextBuffer::paste_content(e0.body, e1.body)
            &&& e1.prev_cursor_col == e1.body.cursor_col
            &&& e1.num_buf@.len() == 0
            &&& e1.cmd_buf@.len() == 0
            &&& e1.cmd_state == e0.cmd_state
            &&& e1.mode == e0.mode
            &&& e1.block_info@ == e0.block_info@
            &&& Editor::same_app_meta(e0, e1)
            &&& Editor::same_store(e0, e1)
        } else if c == 'u' && !input.ctrl {
            &&& TextBuffer::undone(e0.body, e1.body)
            &&& e1.prev_cursor_col == e1.body.cursor_col
            &&& e1.num_buf@.len() == 0
            &&& e1.cmd_buf@.len() == 0
            &&& e1.cmd_state == e0.cmd_state
            &&& e1.mode == e0.mode
            &&& e1.block_info@ == e0.block_info@
            &&& Editor::same_app_meta(e0, e1)
            &&& Editor::same_store(e0, e1)
        } else if c == 'r' && !input.ctrl {
            &&& TextBuffer::redone(e0.body, e1.body)
            &&& e1.prev_cursor_col == e1.body.cursor_col
            &&& e1.num_buf@.len() == 0
            &&& e1.cmd_buf@.len() == 0
            &&& e1.cmd_state == e0.cmd_state
            &&& e1.mode == e0.mode
            &&& e1.block_info@ == e0.block_info@
            &&& Editor::same_app_meta(e0, e1)
            &&& Editor::same_store(e0, e1)
        } else if c == 'x' {
            &&& Editor::history_pushed(e0.body, e1.body)
            &&& e1.body.view() == apply_n(
                |v: BufView| step_delete_next_char(v),
                e0.body.view(),
                reps_of(e0.num_buf@),
            )
            &&& TextBuffer::same_nav(e0.body, e1.body)
            &&& TextBuffer::same_link_meta(e0.body, e1.body)
            &&& e1.num_buf@.len() == 0
            &&& e1.cmd_buf@.len() == 0
            &&& e1.cmd_state == e0.cmd_state
            &&& e1.prev_cursor_col == e1.body.cursor_col
            &&& e1.mode == e0.mode
            &&& e1.block_info@ == e0.block_info@
            &&& Editor::same_app_meta(e0, e1)
            &&& Editor::same_store(e0, e1)
        } else if c == 'O' && input.shift {
            &&& Editor::history_pushed(e0.body, e1.body)
            &&& e1.body.view() == crate::buffer::step_split(
                step_move(step_move(e0.body.view(), CursorMove::Up), CursorMove::End),
            )
            &&& e1.mode == EditorMode::Insert
            &&& e1.block_info@ == mode_info(EditorMode::Insert)
            &&& e1.body.select_start is None
            &&& e1.body.search_pattern@ =~= Seq::<char>::empty()
            &&& e1.prev_cursor_col == e0.prev_cursor_col
            &&& e1.num_buf@.len() == 0
            &&& e1.cmd_buf@.len() == 0
            &&& e1.cmd_state == e0.cmd_state
            &&& TextBuffer::same_link_meta(e0.body, e1.body)
            &&& e1.body.hop_matches@ == e0.body.hop_matches@
            &&& e1.body.max_col == e0.body.max_col
            &&& Editor::same_app_meta(e0, e1)
            &&& Editor::same_store(e0, e1)
        } else if c == 'o' && !input.shift {
            &&& Editor::history_pushed(e0.body, e1.body)
            &&& e1.body.view() == crate::buffer::step_split(
                step_move(e0.body.view(), CursorMove::End),
            )
            &&& e1.mode == EditorMode::Insert
            &&& e1.block_info@ == mode_info(EditorMode::Insert)
            &&& e1.body.select_start is None
            &&& e1.body.search_pattern@ =~= Seq::<char>::empty()
            &&& e1.prev_cursor_col == e0.prev_cursor_col
            &&& e1.num_buf@.len() == 0
            &&& e1.cmd_buf@.len() == 0
            &&& e1.cmd_state == e0.cmd_state
            &&& TextBuffer::same_link_meta(e0.body, e1.body)
            &&& e1.body.hop_matches@ == e0.body.hop_matches@
            &&& e1.body.max_col == e0.body.max_col
            &&& Editor::same_app_meta(e0, e1)
            &&& Editor::same_store(e0, e1)
        } else if (c == 'a' || c == 'i') && !input.ctrl {
            Editor::mode_switched(e0, e1, EditorMode::Insert)
        } else if c == 'A' && !input.ctrl {
            &&& e1.mode == EditorMode::Insert
            &&& e1.block_info@ == mode_info(EditorMode::Insert)
            &&& TextBuffer::same_text_and_links(e0.body, e1.body)
            &&& e1.body.cursor_row == e0.body.cursor_row
            &&& e1.body.cursor_col == e0.body.text()[e0.body.cursor_row as int].len()
            &&& e1.body.select_start is None
            &&& e1.body.search_pattern@ =~= Seq::<char>::empty()
            &&& e1.prev_cursor_col == e0.prev_cursor_col
            &&& e1.num_buf@.len() == 0
            &&& e1.cmd_buf@.len() == 0
            &&& e1.cmd_state == e0.cmd_state
            &&& Editor::same_app_meta(e0, e1)
            &&& Editor::same_store(e0, e1)
        } else if c == 'I' && !input.ctrl {
            &&& e1.mode == EditorMode::Insert
            &&& e1.block_info@ == mode_info(EditorMode::Insert)
            &&& TextBuffer::same_text_and_links(e0.body, e1.body)
            &&& e1.body.cursor_row == e0.body.cursor_row
            &&& e1.body.cursor_col == 0
            &&& e1.body.select_start is None
            &&& e1.body.search_pattern@ =~= Seq::<char>::empty()
            &&& e1.prev_cursor_col == e0.prev_cursor_col
            &&& e1.num_buf@.len() == 0
            &&& e1.cmd_buf@.len() == 0
            &&& e1.cmd_state == e0.cmd_state
            &&& Editor::same_app_meta(e0, e1)
            &&& Editor::same_store(e0, e1)
        } else if c == 'v' && !input.ctrl {
            Editor::mode_switched(e0, e1, EditorMode::Visual)
        } else if c == 'V' && !input.ctrl {
            &&& e1.mode == EditorMode::Visual
            &&& e1.block_info@ == mode_info(EditorMode::Visual)
            &&& TextBuffer::same_text_and_links(e0.body, e1.body)
            &&& e1.body.cursor_row == e0.body.cursor_row
            &&& e1.body.cursor_col == e0.body.text()[e0.body.cursor_row as int].len()
            &&& e1.body.select_start == Some((e0.body.cursor_row, 0usize))
            &&& e1.body.search_pattern@ =~= Seq::<char>::empty()
            &&& e1.prev_cursor_col == e0.prev_cursor_col
            &&& e1.num_buf@.len() == 0
            &&& e1.cmd_buf@.len() == 0
            &&& e1.cmd_state == e0.cmd_state
            &&& Editor::same_app_meta(e0, e1)
            &&& Editor::same_store(e0, e1)
        } else {
            Editor::command_primed(e0, e1, input)
        }
    }

    /// What one Visual-mode character does with no command pending.
    pub open spec fn visual_char_handled(e0: Editor, e1: Editor, input: Input, c: char) -> bool {
        if c == 'h' {
            Editor::motion_h(e0, e1, CursorMove::Back)
        } else if c == 'j' {
            Editor::motion_v(e0, e1, CursorMove::Down)
        } else if c == 'k' {
            Editor::motion_v(e0, e1, CursorMove::Up)
        } else if c == 'l' {
            Editor::motion_h(e0, e1, CursorMove::Forward)
        } else if c == 'w' {
            Editor::motion_h(e0, e1, CursorMove::WordForward)
        } else if c == 'b' && !input.ctrl {
            Editor::motion_h(e0, e1, CursorMove::WordBack)
        } else if c == '^' {
            Editor::motion_h(e0, e1, CursorMove::Head)
        } else if c == '$' {
            Editor::motion_h(e0, e1, CursorMove::End)
        } else if c == 'G' {
            Editor::bottom_moved(e0, e1, true)
        } else if c == 'y' {
            &&& TextBuffer::copy_content(e0.body, e1.body)
            &&& TextBuffer::same_undo(e0.body, e1.body)
            &&& e1.mode == EditorMode::Normal
            &&& e1.block_info@ == mode_info(EditorMode::Normal)
            &&& e1.body.select_start is None
            &&& e1.body.search_pattern@ =~= Seq::<char>::empty()
            &&& e1.prev_cursor_col == e0.prev_cursor_col
            &&& e1.num_buf@ == e0.num_buf@
            &&& e1.cmd_buf@ == e0.cmd_buf@
            &&& e1.cmd_state == e0.cmd_state
            &&& Editor::same_app_meta(e0, e1)
            &&& Editor::same_store(e0, e1)
        } else if c == 'x' {
            &&& Editor::history_pushed(e0.body, e1.body)
            &&& TextBuffer::cut_content(e0.body, e1.body)
            &&& e1.mode == EditorMode::Normal
            &&& e1.block_info@ == mode_info(EditorMode::Normal)
            &&& e1.body.select_start is None
            &&& e1.body.search_pattern@ =~= Seq::<char>::empty()
            &&& e1.prev_cursor_col == e0.prev_cursor_col
            &&& e1.num_buf@ == e0.num_buf@
            &&& e1.cmd_buf@ == e0.cmd_buf@
            &&& e1.cmd_state == e0.cmd_state
            &&& Editor::same_app_meta(e0, e1)
            &&& Editor::same_store(e0, e1)
        } else {
            Editor::untouched(e0, e1)
        }
    }

    /// What one keystroke does: the whole interpreter, one key at a time.
    pub open spec fn handled(e0: Editor, e1: Editor, input: Input) -> bool {
        match e0.mode {
            EditorMode::Insert => {
                match input.key {
                    Key::Esc => Editor::mode_set(e0, e1, EditorMode::Normal),
                    Key::Up | Key::Down => {
                        let m = if input.key == Key::Up {
                            CursorMove::Up
                        } else {
                            CursorMove::Down
                        };
                        let r = move_target(
                            e0.body.text(),
                            e0.body.cursor_row as int,
                            e0.body.cursor_col as int,
                            m,
                        ).0;
                        &&& TextBuffer::same_text_and_links(e0.body, e1.body)
                        &&& TextBuffer::same_extras(e0.body, e1.body)
                        &&& e1.body.cursor_row as int == r
                        &&& e1.body.cursor_col as int == imin(
                            e0.prev_cursor_col as int,
                            e0.body.text()[r].len() as int,
                        )
                        &&& e1.prev_cursor_col == e0.prev_cursor_col
                        &&& Editor::same_command_state(e0, e1)
                        &&& Editor::same_app_meta(e0, e1)
                        &&& Editor::same_store(e0, e1)
                    },
                    Key::Left | Key::Right => {
                        let m = if input.key == Key::Left {
                            CursorMove::Back
                        } else {
                            CursorMove::Forward
                        };
                        &&& TextBuffer::same_text_and_links(e0.body, e1.body)
                        &&& TextBuffer::same_extras(e0.body, e1.body)
                        &&& (e1.body.cursor_row as int, e1.body.cursor_col as int) == move_target(
                            e0.body.text(),
                            e0.body.cursor_row as int,
                            e0.body.cursor_col as int,
                            m,
                        )
                        &&& e1.prev_cursor_col == e1.body.cursor_col
                        &&& Editor::same_command_state(e0, e1)
                        &&& Editor::same_app_meta(e0, e1)
                        &&& Editor::same_store(e0, e1)
                    },
                    _ => {
                        &&& TextBuffer::input_applied(e0.body, e1.body, input)
                        &&& Editor::same_command_state(e0, e1)
                        &&& e1.prev_cursor_col == e0.prev_cursor_col
                        &&& Editor::same_app_meta(e0, e1)
                        &&& Editor::same_store(e0, e1)
                    },
                }
            },
            EditorMode::Normal => {
                if e0.cmd_state != CommandState::NoCommand {
                    Editor::command_key_processed(e0, e1, input)
                } else {
                    match input.key {
                        Key::Left => Editor::motion_h(e0, e1, CursorMove::Back),
                        Key::Right => Editor::motion_h(e0, e1, CursorMove::Forward),
                        Key::Up => Editor::motion_v(e0, e1, CursorMove::Up),
                        Key::Down => Editor::motion_v(e0, e1, CursorMove::Down),
                        Key::Char(c) => Editor::normal_char_handled(e0, e1, input, c),
                        _ => Editor::command_primed(e0, e1, input),
                    }
                }
            },
            EditorMode::Visual => {
                match input.key {
                    Key::Esc => Editor::mode_set(e0, e1, EditorMode::Normal),
                    _ => {
                        if e0.cmd_state == CommandState::GoTo || e0.cmd_state
                            == CommandState::Delete || e0.cmd_state == CommandState::Yank {
                            Editor::command_key_processed(e0, e1, input)
                        } else {
                            match input.key {
                                Key::Left => Editor::motion_h(e0, e1, CursorMove::Back),
                                Key::Right => Editor::motion_h(e0, e1, CursorMove::Forward),
                                Key::Up => Editor::motion_v(e0, e1, CursorMove::Up),
                                Key::Down => Editor::motion_v(e0, e1, CursorMove::Down),
                                Key::Char(c) => Editor::visual_char_handled(e0, e1, input, c),
                                _ => Editor::untouched(e0, e1),
                            }
                        }
                    },
                }
            },
        }
    }
}

impl Editor {
    /// One repeated-or-single horizontal motion, landing column remembered.
    fn do_motion_h(&mut self, m: CursorMove)
        requires
            old(self).wf(),
        ensures
            final(self).wf(),
            Editor::motion_h(*old(self), *final(self), m),
    {
        if self.num_buf.len() == 0 {
            let ghost t = self.body.text();
            let ghost r0 = self.body.cursor_row as int;
            let ghost c0 = self.body.cursor_col as int;
            self.body.move_cursor(m);
            proof {
                assert(move_n(t, r0, c0, m, 1) == ({
                    let (r, c) = move_target(t, r0, c0, m);
                    move_n(t, r, c, m, 0)
                }));
            }
        } else {
            proof {
                crate::lemma_digits_value_nonneg(self.num_buf@);
            }
            let n = self.get_num_from_buf();
            repeat_move(&mut self.body, m, n);
            self.num_buf.clear();
        }
        self.set_prev_cursor_col();
    }

    /// One repeated-or-single vertical motion, remembered column restored.
    fn do_motion_v(&mut self, m: CursorMove)
        requires
            old(self).wf(),
        ensures
            final(self).wf(),
            Editor::motion_v(*old(self), *final(self), m),
    {
        if self.num_buf.len() == 0 {
            let ghost t = self.body.text();
            let ghost r0 = self.body.cursor_row as int;
            let ghost c0 = self.body.cursor_col as int;
            self.body.move_cursor(m);
            proof {
                assert(move_n(t, r0, c0, m, 1) == ({
                    let (r, c) = move_target(t, r0, c0, m);
                    move_n(t, r, c, m, 0)
                }));
            }
        } else {
            proof {
                crate::lemma_digits_value_nonneg(self.num_buf@);
            }
            let n = self.get_num_from_buf();
            repeat_move(&mut self.body, m, n);
            self.num_buf.clear();
        }
        self.jump_cursor_to_prev_col();
    }

    /// One Normal-mode character with no command pending.
    #[verifier::rlimit(100)]
    fn handle_normal_char(&mut self, input: Input, c: char)
        requires
            old(self).wf(),
            input.key == Key::Char(c),
        ensures
            final(self).wf(),
            Editor::normal_char_handled(*old(self), *final(self), input, c),
    {
        if c == 'h' {
            self.do_motion_h(CursorMove::Back);
        } else if c == 'j' {
            self.do_motion_v(CursorMove::Down);
        } else if c == 'k' {
            self.do_motion_v(CursorMove::Up);
        } else if c == 'l' {
            self.do_motion_h(CursorMove::Forward);
        } else if c == 'w' {
            self.do_motion_h(CursorMove::WordForward);
        } else if c == 'b' {
            self.do_motion_h(CursorMove::WordBack);
        } else if c == '^' {
            self.do_motion_h(CursorMove::Head);
        } else if c == '$' {
            self.do_motion_h(CursorMove::End);
        } else if c == 'G' {
            self.body.move_cursor(CursorMove::Bottom);
            self.body.move_cursor(CursorMove::Head);
            self.num_buf.clear();
        } else if c == 'D' {
            self.body.push_history();
            let ghost v0 = self.body.view();
            self.body.delete_line_by_end();
            proof {
                let ghost f = |v: BufView| step_delete_line_by_end(v);
                assert(f(v0) == step_delete_line_by_end(v0));
            }
            self.num_buf.clear();
            self.cmd_buf.clear();
        } else if c == 'C' {
            self.body.push_history();
            let ghost v0 = self.body.view();
            self.body.delete_line_by_end();
            let ghost mid = self.body;
            self.set_mode(EditorMode::Insert);
            proof {
                assert(self.body.view() == mid.view());
            }
            self.set_prev_cursor_col();
            self.num_buf.clear();
            self.cmd_buf.clear();
        } else if c == 'p' {
            self.body.push_history();
            self.body.paste();
            self.set_prev_cursor_col();
            self.num_buf.clear();
            self.cmd_buf.clear();
        } else if c == 'u' && !input.ctrl {
            self.body.undo();
            self.set_prev_cursor_col();
            self.num_buf.clear();
            self.cmd_buf.clear();
        } else if c == 'r' && !input.ctrl {
            self.body.redo();
            self.set_prev_cursor_col();
            self.num_buf.clear();
            self.cmd_buf.clear();
        } else if c == 'x' {
            self.body.push_history();
            if self.num_buf.len() == 0 {
                let ghost v0 = self.body.view();
                self.body.delete_next_char();
                proof {
                    let ghost f = |v: BufView| step_delete_next_char(v);
                    apply_n_snoc(f, v0, 0);
                    assert(f(v0) == step_delete_next_char(v0));
                }
            } else {
                proof {
                    crate::lemma_digits_value_nonneg(self.num_buf@);
                }
                let n = self.get_num_from_buf();
                repeat_delete_next_char(&mut self.body, n);
                self.num_buf.clear();
            }
            self.set_prev_cursor_col();
            self.cmd_buf.clear();
        } else if c == 'O' && input.shift {
            self.body.push_history();
            let ghost v0 = self.body.view();
            self.body.move_cursor(CursorMove::Up);
            proof {
                assert(self.body.view() == step_move(v0, CursorMove::Up));
            }
            let ghost v1 = self.body.view();
            self.body.move_cursor(CursorMove::End);
            proof {
                assert(self.body.view() == step_move(v1, CursorMove::End));
            }
            self.body.insert_newline();
            let ghost mid = self.body;
            self.set_mode(EditorMode::Insert);
            proof {
                assert(self.body.view() == mid.view());
            }
            self.num_buf.clear();
            self.cmd_buf.clear();
        } else if c == 'o' && !input.shift {
            self.body.push_history();
            let ghost v0 = self.body.view();
            self.body.move_cursor(CursorMove::End);
            proof {
                assert(self.body.view() == step_move(v0, CursorMove::End));
            }
            self.body.insert_newline();
            let ghost mid = self.body;
            self.set_mode(EditorMode::Insert);
            proof {
                assert(self.body.view() == mid.view());
            }
            self.num_buf.clear();
            self.cmd_buf.clear();
        } else if (c == 'a' || c == 'i') && !input.ctrl {
            self.set_mode(EditorMode::Insert);
            self.num_buf.clear();
            self.cmd_buf.clear();
        } else if c == 'A' && !input.ctrl {
            self.body.move_cursor(CursorMove::End);
            self.set_mode(EditorMode::Insert);
            self.num_buf.clear();
            self.cmd_buf.clear();
        } else if c == 'I' && !input.ctrl {
            self.body.move_cursor(CursorMove::Head);
            self.set_mode(EditorMode::Insert);
            self.num_buf.clear();
            self.cmd_buf.clear();
        } else if c == 'v' && !input.ctrl {
            self.set_mode(EditorMode::Visual);
            self.num_buf.clear();
            self.cmd_buf.clear();
        } else if c == 'V' && !input.ctrl {
            self.body.move_cursor(CursorMove::Head);
            self.set_mode(EditorMode::Visual);
            self.body.move_cursor(CursorMove::End);
            self.num_buf.clear();
            self.cmd_buf.clear();
        } else {
            self.prime_command_state(input);
        }
    }

    /// One Visual-mode character with no command pending.
    fn handle_visual_char(&mut self, input: Input, c: char)
        requires
            old(self).wf(),
            input.key == Key::Char(c),
        ensures
            final(self).wf(),
            Editor::visual_char_handled(*old(self), *final(self), input, c),
    {
        if c == 'h' {
            self.do_motion_h(CursorMove::Back);
        } else if c == 'j' {
            self.do_motion_v(CursorMove::Down);
        } else if c == 'k' {
            self.do_motion_v(CursorMove::Up);
        } else if c == 'l' {
            self.do_motion_h(CursorMove::Forward);
        } else if c == 'w' {
            self.do_motion_h(CursorMove::WordForward);
        } else if c == 'b' && !input.ctrl {
            self.do_motion_h(CursorMove::WordBack);
        } else if c == '^' {
            self.do_motion_h(CursorMove::Head);
        } else if c == '$' {
            self.do_motion_h(CursorMove::End);
        } else if c == 'G' {
            self.body.move_cursor(CursorMove::Bottom);
            self.body.move_cursor(CursorMove::Head);
            self.set_prev_cursor_col();
            self.num_buf.clear();
        } else if c == 'y' {
            self.body.copy();
            self.set_mode(EditorMode::Normal);
        } else if c == 'x' {
            self.body.push_history();
            self.body.cut();
            self.set_mode(EditorMode::Normal);
        }
    }

    /// Interpret one keystroke: the Command Interpreter's single entry
    /// point. All effects are on the editor and its buffer.
    pub fn handle_input(&mut self, input: Input)
        requires
            old(self).wf(),
        ensures
            final(self).wf(),
            Editor::handled(*old(self), *final(self), input),
    {
        match self.mode {
            EditorMode::Insert => {
                match input.key {
                    Key::Esc => {
                        self.set_mode(EditorMode::Normal);
                    },
                    Key::Up | Key::Down => {
                        self.body.input(input);
                        self.jump_cursor_to_prev_col();
                    },
                    Key::Left | Key::Right => {
                        self.body.input(input);
                        self.set_prev_cursor_col();
                    },
                    _ => {
                        self.body.input(input);
                    },
                }
            },
            EditorMode::Normal => {
                if self.cmd_state != CommandState::NoCommand {
                    self.process_command_key_inputs(input);
                } else {
                    match input.key {
                        Key::Left => {
                            self.do_motion_h(CursorMove::Back);
                        },
                        Key::Right => {
                            self.do_motion_h(CursorMove::Forward);
                        },
                        Key::Up => {
                            self.do_motion_v(CursorMove::Up);
                        },
                        Key::Down => {
                            self.do_motion_v(CursorMove::Down);
                        },
                        Key::Char(c) => {
                            self.handle_normal_char(input, c);
                        },
                        _ => {
                            self.prime_command_state(input);
                        },
                    }
                }
            },
            EditorMode::Visual => {
                match input.key {
                    Key::Esc => {
                        self.set_mode(EditorMode::Normal);
                    },
                    _ => {
                        if self.cmd_state == CommandState::GoTo || self.cmd_state
                            == CommandState::Delete || self.cmd_state == CommandState::Yank {
                            self.process_command_key_inputs(input);
                        } else {
                            match input.key {
                                Key::Left => {
                                    self.do_motion_h(CursorMove::Back);
                                },
                                Key::Right => {
                                    self.do_motion_h(CursorMove::Forward);
                                },
                                Key::Up => {
                                    self.do_motion_v(CursorMove::Up);
                                },
                                Key::Down => {
                                    self.do_motion_v(CursorMove::Down);
                                },
                                Key::Char(c) => {
                                    self.handle_visual_char(input, c);
                                },
                                _ => {},
                            }
                        }
                    },
                }
            },
        }
    }
}

/// Repeat one cursor motion.
#[verifier::loop_isolation(false)]
fn repeat_move(b: &mut TextBuffer, m: CursorMove, reps: u16)
    requires
        old(b).wf(),
    ensures
        final(b).wf(),
        TextBuffer::same_text_and_links(*old(b), *final(b)),
        TextBuffer::same_extras(*old(b), *final(b)),
        (final(b).cursor_row as int, final(b).cursor_col as int) == move_n(
            old(b).text(),
            old(b).cursor_row as int,
            old(b).cursor_col as int,
            m,
            reps as nat,
        ),
{
    let ghost t = b.text();
    let ghost r0 = b.cursor_row as int;
    let ghost c0 = b.cursor_col as int;
    let mut i: u16 = 0;
    while i < reps
        invariant
            i <= reps,
            b.wf(),
            TextBuffer::same_text_and_links(*old(b), *b),
            TextBuffer::same_extras(*old(b), *b),
            (b.cursor_row as int, b.cursor_col as int) == move_n(t, r0, c0, m, i as nat),
        decreases reps - i,
    {
        b.move_cursor(m);
        proof {
            move_n_snoc(t, r0, c0, m, i as nat);
        }
        i = i + 1;
    }
}

impl Editor {
    /// The link a reconciliation pass leaves after copying the matching
    /// anchor's deletion flag; a link whose anchor is missing is untouched.
    pub open spec fn edit_synced(l: Link, anchors: Seq<Anchor>) -> Link {
        match anchor_lookup(anchors, l.text_id as int) {
            Some(a) => (Link { deleted: a.deleted, ..l }),
            None => l,
        }
    }

    /// The link a reconciliation pass leaves after copying drifted anchor
    /// geometry; an unmoved or missing anchor leaves the link untouched.
    pub open spec fn move_synced(l: Link, anchors: Seq<Anchor>) -> Link {
        match anchor_lookup(anchors, l.text_id as int) {
            Some(a) => {
                if a.row != l.row || a.start_col != l.start_col || a.end_col != l.end_col {
                    Link {
                        row: a.row,
                        start_col: a.start_col,
                        end_col: a.end_col,
                        updated: true,
                        ..l
                    }
                } else {
                    l
                }
            },
            None => l,
        }
    }

    /// The store with the link of the given anchor id marked deleted.
    pub open spec fn mark_deleted(links: Seq<Link>, id: int) -> Seq<Link> {
        match crate::links::find_link(links, id) {
            Some(i) => links.update(i, (Link { deleted: true, ..links[i] })),
            None => links,
        }
    }

    /// The store after draining a stack of newly deleted anchor ids, most
    /// recent first.
    pub open spec fn links_after_drain(links: Seq<Link>, ids: Seq<usize>) -> Seq<Link>
        decreases ids.len(),
    {
        if ids.len() == 0 {
            links
        } else {
            Editor::links_after_drain(
                Editor::mark_deleted(links, ids.last() as int),
                ids.drop_last(),
            )
        }
    }

    /// The drained ids as stored on the session's own pending-deletion
    /// list, most recent first; ids too large for the list's signed form
    /// are dropped.
    pub open spec fn drained_ids(ids: Seq<usize>) -> Seq<i64>
        decreases ids.len(),
    {
        if ids.len() == 0 {
            Seq::empty()
        } else {
            (if ids.last() <= i64::MAX {
                seq![ids.last() as i64]
            } else {
                Seq::<i64>::empty()
            }) + Editor::drained_ids(ids.drop_last())
        }
    }

    /// A fresh editing session over a note body and its saved links.
    pub fn new(
        title: String,
        body: Vec<String>,
        links: Vec<Link>,
        note_id: Option<i64>,
        sidebar_open: bool,
        max_col: u16,
    ) -> (e: Editor)
        requires
            forall|i: int|
                0 <= i < links@.len() ==> 0 <= (#[trigger] links@[i]).text_id <= usize::MAX,
        ensures
            e.wf(),
            e.title@ == title@,
            e.note_id == note_id,
            e.body.text() == if body@.len() == 0 {
                seq![Seq::<char>::empty()]
            } else {
                body@.map_values(|s: String| s@)
            },
            e.body.links@ == links@.map_values(
                |l: Link| crate::buffer::sanitize_anchor(anchor_of(l), e.body.text()),
            ),
            e.body.cursor_row == 0 && e.body.cursor_col == 0,
            e.body.deleted_link_ids@.len() == 0,
            !e.body.new_link,
            e.body.select_start is None,
            e.body.search_pattern@.len() == 0,
            e.body.hop_matches@.len() == 0,
            e.body.history@.len() == 0,
            e.body.redo_stack@.len() == 0,
            e.body.max_col == max_col,
            e.links@ == links@,
            e.deleted_link_ids@.len() == 0,
            e.mode == EditorMode::Normal,
            e.block_info@ == mode_info(EditorMode::Normal),
            e.prev_cursor_col == 0,
            e.command_cleared(),
            e.sidebar_open == sidebar_open,
            !e.searchbar_open,
            e.state == ComponentState::Active,
            e.max_col == max_col,
    {
        let mut anchors: Vec<Anchor> = Vec::new();
        let mut i: usize = 0;
        while i < links.len()
            invariant
                i <= links@.len(),
                forall|j: int|
                    0 <= j < links@.len() ==> 0 <= (#[trigger] links@[j]).text_id <= usize::MAX,
                anchors@ =~= links@.subrange(0, i as int).map_values(|l: Link| anchor_of(l)),
            decreases links@.len() - i,
        {
            anchors.push(links[i].to_anchor());
            proof {
                let ghost ii = i as int;
                assert(links@.subrange(0, ii + 1) =~= links@.subrange(0, ii).push(links@[ii]));
            }
            i = i + 1;
        }
        proof {
            assert(links@.subrange(0, links@.len() as int) =~= links@);
        }
        let body_buf = TextBuffer::new(body, anchors, max_col);
        proof {
            assert(body_buf.links@ =~= links@.map_values(
                |l: Link| crate::buffer::sanitize_anchor(anchor_of(l), body_buf.text()),
            ));
        }
        Editor {
            title,
            note_id,
            body: body_buf,
            links,
            deleted_link_ids: Vec::new(),
            mode: EditorMode::Normal,
            block_info: " <| NORMAL |>".to_owned(),
            prev_cursor_col: 0,
            num_buf: Vec::new(),
            cmd_buf: Vec::new(),
            cmd_state: CommandState::NoCommand,
            sidebar_open,
            searchbar_open: false,
            state: ComponentState::Active,
            max_col,
        }
    }

    /// Reset the session onto another note, keeping the surrounding layout
    /// and widget state.
    pub fn refresh(
        &mut self,
        title: String,
        body: Vec<String>,
        links: Vec<Link>,
        note_id: Option<i64>,
        max_col: u16,
    )
        requires
            forall|i: int|
                0 <= i < links@.len() ==> 0 <= (#[trigger] links@[i]).text_id <= usize::MAX,
        ensures
            final(self).wf(),
            final(self).title@ == title@,
            final(self).note_id == note_id,
            final(self).body.text() == if body@.len() == 0 {
                seq![Seq::<char>::empty()]
            } else {
                body@.map_values(|s: String| s@)
            },
            final(self).links@ == links@,
            final(self).deleted_link_ids@.len() == 0,
            final(self).mode == EditorMode::Normal,
            final(self).command_cleared(),
            final(self).body.cursor_row == 0 && final(self).body.cursor_col == 0,
            final(self).sidebar_open == old(self).sidebar_open,
            final(self).searchbar_open == old(self).searchbar_open,
            final(self).state == old(self).state,
            final(self).max_col == max_col,
    {
        let sidebar = self.sidebar_open;
        let searchbar = self.searchbar_open;
        let widget_state = self.state;
        let mut fresh = Editor::new(title, body, links, note_id, sidebar, max_col);
        fresh.searchbar_open = searchbar;
        fresh.state = widget_state;
        *self = fresh;
    }

    /// Copy each anchor's deletion flag onto its link: reconciliation after
    /// an undo or redo, whose edits bypass the per-keystroke bookkeeping.
    pub fn check_link_edits(&mut self)
        requires
            old(self).wf(),
        ensures
            final(self).wf(),
            final(self).links@ == old(self).links@.map_values(
                |l: Link| Editor::edit_synced(l, old(self).body.links@),
            ),
            final(self).body == old(self).body,
            final(self).deleted_link_ids@ == old(self).deleted_link_ids@,
            final(self).mode == old(self).mode,
            final(self).block_info@ == old(self).block_info@,
            final(self).prev_cursor_col == old(self).prev_cursor_col,
            Editor::same_command_state(*old(self), *final(self)),
            Editor::same_app_meta(*old(self), *final(self)),
    {
        let ghost orig = self.links@;
        let mut out: Vec<Link> = Vec::new();
        let mut i: usize = 0;
        while i < self.links.len()
            invariant
                i <= orig.len(),
                self.links@ == orig,
                *self == (Editor { links: self.links, ..*old(self) }),
                out@ =~= orig.subrange(0, i as int).map_values(
                    |l: Link| Editor::edit_synced(l, old(self).body.links@),
                ),
            decreases orig.len() - i,
        {
            let l = self.links[i];
            let mut synced = l;
            if l.text_id >= 0 {
                let tid = l.text_id as u64;
                if tid <= usize::MAX as u64 {
                    match crate::anchors::find_anchor(&self.body.links, tid as usize) {
                        Some(a) => {
                            synced = Link { deleted: a.deleted, ..l };
                        },
                        None => {},
                    }
                } else {
                    proof {
                        crate::anchors::lemma_anchor_lookup_out_of_range(
                            self.body.links@,
                            l.text_id as int,
                        );
                    }
                }
            } else {
                proof {
                    crate::anchors::lemma_anchor_lookup_out_of_range(
                        self.body.links@,
                        l.text_id as int,
                    );
                }
            }
            out.push(synced);
            proof {
                let ghost ii = i as int;
                assert(orig.subrange(0, ii + 1) =~= orig.subrange(0, ii).push(orig[ii]));
            }
            i = i + 1;
        }
        proof {
            assert(orig.subrange(0, orig.len() as int) =~= orig);
        }
        self.links = out;
    }

    /// Copy each drifted anchor's geometry onto its link, marking it
    /// updated: reconciliation after a mutating keystroke.
    pub fn check_link_moved(&mut self)
        requires
            old(self).wf(),
        ensures
            final(self).wf(),
            final(self).links@ == old(self).links@.map_values(
                |l: Link| Editor::move_synced(l, old(self).body.links@),
            ),
            final(self).body == old(self).body,
            final(self).deleted_link_ids@ == old(self).deleted_link_ids@,
            final(self).mode == old(self).mode,
            final(self).block_info@ == old(self).block_info@,
            final(self).prev_cursor_col == old(self).prev_cursor_col,
            Editor::same_command_state(*old(self), *final(self)),
            Editor::same_app_meta(*old(self), *final(self)),
    {
        let ghost orig = self.links@;
        let mut out: Vec<Link> = Vec::new();
        let mut i: usize = 0;
        while i < self.links.len()
            invariant
                i <= orig.len(),
                self.links@ == orig,
                *self == (Editor { links: self.links, ..*old(self) }),
                out@ =~= orig.subrange(0, i as int).map_values(
                    |l: Link| Editor::move_synced(l, old(self).body.links@),
                ),
            decreases orig.len() - i,
        {
            let l = self.links[i];
            let mut synced = l;
            if l.text_id >= 0 {
                let tid = l.text_id as u64;
                if tid <= usize::MAX as u64 {
                    match crate::anchors::find_anchor(&self.body.links, tid as usize) {
                        Some(a) => {
                            if l.moved(&a) {
                                synced = Link {
                                    row: a.row,
                                    start_col: a.start_col,
                                    end_col: a.end_col,
                                    updated: true,
                                    ..l
                                };
                            }
                        },
                        None => {},
                    }
                } else {
                    proof {
                        crate::anchors::lemma_anchor_lookup_out_of_range(
                            self.body.links@,
                            l.text_id as int,
                        );
                    }
                }
            } else {
                proof {
                    crate::anchors::lemma_anchor_lookup_out_of_range(
                        self.body.links@,
                        l.text_id as int,
                    );
                }
            }
            out.push(synced);
            proof {
                let ghost ii = i as int;
                assert(orig.subrange(0, ii + 1) =~= orig.subrange(0, ii).push(orig[ii]));
            }
            i = i + 1;
        }
        proof {
            assert(orig.subrange(0, orig.len() as int) =~= orig);
        }
        self.links = out;
    }

    /// Drain the buffer's newly deleted anchor ids, marking the matching
    /// links deleted and recording the ids for the next synchronization.
    #[verifier::loop_isolation(false)]
    pub fn check_link_deletion(&mut self)
        requires
            old(self).wf(),
        ensures
            final(self).wf(),
            final(self).links@ == Editor::links_after_drain(
                old(self).links@,
                old(self).body.deleted_link_ids@,
            ),
            final(self).deleted_link_ids@ == old(self).deleted_link_ids@ + Editor::drained_ids(
                old(self).body.deleted_link_ids@,
            ),
            final(self).body.deleted_link_ids@.len() == 0,
            final(self).body.lines@ == old(self).body.lines@,
            final(self).body.cursor_row == old(self).body.cursor_row,
            final(self).body.cursor_col == old(self).body.cursor_col,
            final(self).body.links@ == old(self).body.links@,
            TextBuffer::same_extras(old(self).body, final(self).body),
            final(self).mode == old(self).mode,
            final(self).block_info@ == old(self).block_info@,
            final(self).prev_cursor_col == old(self).prev_cursor_col,
            Editor::same_command_state(*old(self), *final(self)),
            Editor::same_app_meta(*old(self), *final(self)),
    {
        while self.body.deleted_link_ids.len() > 0
            invariant
                self.body.wf(),
                Editor::links_after_drain(self.links@, self.body.deleted_link_ids@)
                    == Editor::links_after_drain(
                    old(self).links@,
                    old(self).body.deleted_link_ids@,
                ),
                self.deleted_link_ids@ + Editor::drained_ids(self.body.deleted_link_ids@) == old(
                    self,
                ).deleted_link_ids@ + Editor::drained_ids(old(self).body.deleted_link_ids@),
                self.body.lines@ == old(self).body.lines@,
                self.body.cursor_row == old(self).body.cursor_row,
                self.body.cursor_col == old(self).body.cursor_col,
                self.body.links@ == old(self).body.links@,
                TextBuffer::same_extras(old(self).body, self.body),
                self.mode == old(self).mode,
                self.block_info@ == old(self).block_info@,
                self.prev_cursor_col == old(self).prev_cursor_col,
                Editor::same_command_state(*old(self), *self),
                Editor::same_app_meta(*old(self), *self),
            decreases self.body.deleted_link_ids@.len(),
        {
            let ghost rem0 = self.body.deleted_link_ids@;
            let ghost links0 = self.links@;
            let popped = self.body.deleted_link_ids.pop();
            match popped {
                Some(id) => {
                    if (id as u64) <= (i64::MAX as u64) {
                        let tid = id as i64;
                        match crate::links::link_index(&self.links, tid) {
                            Some(ix) => {
                                proof {
                                    crate::links::lemma_find_link_sound(links0, id as int);
                                }
                                let lk = self.links.remove(ix);
                                self.links.insert(ix, Link { deleted: true, ..lk });
                                proof {
                                    assert(self.links@ =~= Editor::mark_deleted(
                                        links0,
                                        id as int,
                                    ));
                                }
                            },
                            None => {
                                proof {
                                    crate::links::lemma_find_link_sound(links0, id as int);
                                }
                            },
                        }
                        self.deleted_link_ids.push(tid);
                    } else {
                        proof {
                            crate::links::lemma_find_link_out_of_i64(links0, id as int);
                        }
                    }
                    proof {
                        assert(rem0.drop_last() =~= self.body.deleted_link_ids@);
                    }
                },
                None => {},
            }
        }
    }

    /// The current link set in persistable form, one row per record.
    pub fn persistable_links(&self) -> (rows: Vec<crate::links::DbNoteLink>)
        requires
            forall|i: int|
                0 <= i < self.links@.len() ==> crate::links::link_geometry_fits(
                    #[trigger] self.links@[i],
                ),
        ensures
            rows@ == self.links@.map_values(|l: Link| crate::links::row_of_link(l)),
    {
        let mut rows: Vec<crate::links::DbNoteLink> = Vec::new();
        let mut i: usize = 0;
        while i < self.links.len()
            invariant
                i <= self.links@.len(),
                forall|j: int|
                    0 <= j < self.links@.len() ==> crate::links::link_geometry_fits(
                        #[trigger] self.links@[j],
                    ),
                rows@ =~= self.links@.subrange(0, i as int).map_values(
                    |l: Link| crate::links::row_of_link(l),
                ),
            decreases self.links@.len() - i,
        {
            rows.push(self.links[i].to_db_link());
            proof {
                let ghost ii = i as int;
                assert(self.links@.subrange(0, ii + 1) =~= self.links@.subrange(0, ii).push(
                    self.links@[ii],
                ));
            }
            i = i + 1;
        }
        proof {
            assert(self.links@.subrange(0, self.links@.len() as int) =~= self.links@);
            assert(rows@ =~= self.links@.map_values(|l: Link| crate::links::row_of_link(l)));
        }
        rows
    }

    /// Record a freshly completed link, replacing any record sharing its
    /// anchor id, and consume the buffer's one-shot new-link signal.
    pub fn insert_link(&mut self, new_link: Link)
        requires
            old(self).wf(),
        ensures
            final(self).wf(),
            final(self).links@ == (match crate::links::find_link(
                old(self).links@,
                new_link.text_id as int,
            ) {
                Some(i) => old(self).links@.update(i, new_link),
                None => old(self).links@.push(new_link),
            }),
            !final(self).body.new_link,
            final(self).body.lines@ == old(self).body.lines@,
            final(self).body.cursor_row == old(self).body.cursor_row,
            final(self).body.cursor_col == old(self).body.cursor_col,
            final(self).body.links@ == old(self).body.links@,
            final(self).body.deleted_link_ids@ == old(self).body.deleted_link_ids@,
            final(self).body.next_link_id == old(self).body.next_link_id,
            final(self).body.yank == old(self).body.yank,
            TextBuffer::same_nav(old(self).body, final(self).body),
            TextBuffer::same_undo(old(self).body, final(self).body),
            final(self).deleted_link_ids@ == old(self).deleted_link_ids@,
            final(self).mode == old(self).mode,
            final(self).block_info@ == old(self).block_info@,
            final(self).prev_cursor_col == old(self).prev_cursor_col,
            Editor::same_command_state(*old(self), *final(self)),
            Editor::same_app_meta(*old(self), *final(self)),
    {
        let found = crate::links::link_index(&self.links, new_link.text_id);
        match found {
            Some(ix) => {
                proof {
                    crate::links::lemma_find_link_sound(self.links@, new_link.text_id as int);
                }
                let ghost links0 = self.links@;
                self.links.remove(ix);
                self.links.insert(ix, new_link);
                proof {
                    assert(self.links@ =~= links0.update(ix as int, new_link));
                }
            },
            None => {
                self.links.push(new_link);
            },
        }
        self.body.new_link = false;
    }
}

} // verus!
