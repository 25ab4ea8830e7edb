use tuipaz::buffer::CursorMove;
use tuipaz::editor::{CommandState, Editor, EditorMode};
use tuipaz::input::{Input, Key};

fn editor_of(lines: &[&str]) -> Editor {
    Editor::new(
        "Scratch".to_string(),
        lines.iter().map(|l| l.to_string()).collect(),
        Vec::new(),
        None,
        false,
        140,
    )
}

fn key(c: char) -> Input {
    Input { key: Key::Char(c), ..Default::default() }
}

#[test]
fn repeat_count_concatenates_digits() {
    let mut editor = editor_of(&["abcdefghijklmnop"]);
    editor.handle_input(key('1'));
    editor.handle_input(key('2'));
    assert_eq!(editor.num_buf, vec![1, 2]);
    editor.handle_input(key('x'));
    assert_eq!(editor.body.lines(), vec!["mnop".to_string()]);
}

#[test]
fn repeat_count_is_positional_not_summed() {
    let editor = {
        let mut e = editor_of(&[""]);
        e.num_buf = vec![1, 2];
        e
    };
    assert_eq!(editor.get_num_from_buf(), 12);
}

#[test]
fn dd_through_handle_input() {
    let mut editor = editor_of(&["first", "second"]);
    editor.handle_input(key('d'));
    assert_eq!(editor.cmd_state, CommandState::Delete);
    editor.handle_input(key('d'));
    assert_eq!(editor.body.lines(), vec!["second".to_string()]);
    assert_eq!(editor.cmd_state, CommandState::NoCommand);
}

#[test]
fn counted_gg_through_handle_input() {
    let mut editor = editor_of(&["1", "2", "3", "4", "5"]);
    editor.handle_input(key('5'));
    editor.handle_input(key('g'));
    editor.handle_input(key('g'));
    assert_eq!(editor.body.cursor(), (4, 0));
}

#[test]
fn find_forward_jumps_to_target() {
    let mut editor = editor_of(&["abcdef"]);
    editor.handle_input(key('f'));
    editor.handle_input(key('d'));
    assert_eq!(editor.body.cursor(), (0, 3));
}

#[test]
fn find_forward_missing_target_is_a_no_op() {
    let mut editor = editor_of(&["abcdef"]);
    editor.handle_input(key('f'));
    editor.handle_input(key('z'));
    assert_eq!(editor.body.cursor(), (0, 0));
    assert_eq!(editor.cmd_state, CommandState::NoCommand);
}

#[test]
fn find_backward_scans_before_cursor() {
    let mut editor = editor_of(&["abcdef"]);
    editor.body.move_cursor(CursorMove::End);
    editor.handle_input(key('F'));
    editor.handle_input(key('b'));
    assert_eq!(editor.body.cursor(), (0, 1));
}

#[test]
fn unrecognized_continuation_aborts_command() {
    let mut editor = editor_of(&["abc"]);
    editor.handle_input(key('3'));
    editor.handle_input(key('d'));
    editor.handle_input(key('q'));
    assert_eq!(editor.cmd_state, CommandState::NoCommand);
    assert!(editor.num_buf.is_empty());
    assert!(editor.cmd_buf.is_empty());
    assert_eq!(editor.body.lines(), vec!["abc".to_string()]);
}

#[test]
fn vertical_moves_remember_the_column() {
    let mut editor = editor_of(&["abcdef", "ab", "abcdef"]);
    for _ in 0..4 {
        editor.handle_input(key('l'));
    }
    assert_eq!(editor.body.cursor(), (0, 4));
    editor.handle_input(key('j'));
    assert_eq!(editor.body.cursor(), (1, 2));
    editor.handle_input(key('j'));
    assert_eq!(editor.body.cursor(), (2, 4));
}

#[test]
fn insert_mode_types_text() {
    let mut editor = editor_of(&[""]);
    editor.handle_input(key('i'));
    assert_eq!(editor.mode, EditorMode::Insert);
    editor.handle_input(key('h'));
    editor.handle_input(key('i'));
    editor.handle_input(Input { key: Key::Esc, ..Default::default() });
    assert_eq!(editor.mode, EditorMode::Normal);
    assert_eq!(editor.body.lines(), vec!["hi".to_string()]);
}

#[test]
fn closing_a_link_gesture_draws_an_anchor() {
    let mut editor = editor_of(&[""]);
    editor.handle_input(key('i'));
    for c in "[[note]]".chars() {
        editor.handle_input(key(c));
    }
    assert!(editor.body.new_link);
    assert_eq!(editor.body.links.len(), 1);
    assert_eq!(editor.body.links[0].start_col, 0);
    assert_eq!(editor.body.links[0].end_col, 8);
    assert_eq!(editor.body.in_link((0, 3)), Some(0));
    assert_eq!(editor.body.in_link((0, 8)), None);
}

#[test]
fn hop_jumps_to_the_indexed_match() {
    let mut editor = editor_of(&["xy ab xy", "xy"]);
    editor.handle_input(key('s'));
    assert_eq!(editor.cmd_state, CommandState::PrimeHop);
    editor.handle_input(key('x'));
    editor.handle_input(key('y'));
    assert_eq!(editor.cmd_state, CommandState::ExecuteHop);
    assert_eq!(editor.body.hop_matches, vec![(0, 0), (0, 6), (1, 0)]);
    editor.handle_input(key('1'));
    editor.handle_input(key('h'));
    assert_eq!(editor.body.cursor(), (0, 6));
    assert!(editor.body.hop_matches.is_empty());
    assert_eq!(editor.cmd_state, CommandState::NoCommand);
}

#[test]
fn undo_restores_the_deleted_text() {
    let mut editor = editor_of(&["abc"]);
    editor.handle_input(key('x'));
    assert_eq!(editor.body.lines(), vec!["bc".to_string()]);
    editor.handle_input(key('u'));
    assert_eq!(editor.body.lines(), vec!["abc".to_string()]);
    editor.handle_input(key('r'));
    assert_eq!(editor.body.lines(), vec!["bc".to_string()]);
}

#[test]
fn delete_line_then_paste_reinserts_it() {
    let mut editor = editor_of(&["one", "two"]);
    editor.handle_input(key('d'));
    editor.handle_input(key('d'));
    assert_eq!(editor.body.lines(), vec!["two".to_string()]);
    editor.handle_input(key('p'));
    assert_eq!(editor.body.lines(), vec!["two".to_string(), "one".to_string()]);
}

#[test]
fn visual_cut_and_paste_round_trip() {
    let mut editor = editor_of(&["abcdef"]);
    editor.handle_input(key('v'));
    assert_eq!(editor.mode, EditorMode::Visual);
    editor.handle_input(key('l'));
    editor.handle_input(key('l'));
    editor.handle_input(key('x'));
    assert_eq!(editor.mode, EditorMode::Normal);
    assert_eq!(editor.body.lines(), vec!["cdef".to_string()]);
    editor.handle_input(key('p'));
    assert_eq!(editor.body.lines(), vec!["abcdef".to_string()]);
}

#[test]
fn delete_to_end_of_line() {
    let mut editor = editor_of(&["abcdef"]);
    editor.body.move_cursor(CursorMove::Jump(0, 2));
    editor.handle_input(key('D'));
    assert_eq!(editor.body.lines(), vec!["ab".to_string()]);
}

#[test]
fn word_motions_move_between_words() {
    let mut editor = editor_of(&["aaa bbb ccc"]);
    editor.handle_input(key('w'));
    assert_eq!(editor.body.cursor(), (0, 4));
    editor.handle_input(key('w'));
    assert_eq!(editor.body.cursor(), (0, 8));
    editor.handle_input(key('b'));
    assert_eq!(editor.body.cursor(), (0, 4));
}

#[test]
fn counted_goto_zero_goes_to_top() {
    let mut editor = editor_of(&["1", "2", "3"]);
    editor.body.move_cursor(CursorMove::Jump(2, 0));
    editor.handle_input(key('0'));
    editor.handle_input(key('g'));
    editor.handle_input(key('g'));
    assert_eq!(editor.body.cursor(), (0, 0));
}

#[test]
fn yank_l_consumes_one_character_forward() {
    let mut editor = editor_of(&["abcdef"]);
    editor.handle_input(key('y'));
    editor.handle_input(key('l'));
    assert_eq!(editor.body.lines(), vec!["bcdef".to_string()]);
    assert_eq!(editor.body.cursor(), (0, 0));
}

#[test]
fn yank_w_consumes_to_the_next_word_boundary() {
    let mut editor = editor_of(&["ab cd"]);
    editor.handle_input(key('y'));
    editor.handle_input(key('w'));
    assert_eq!(editor.body.lines(), vec![" cd".to_string()]);
}

#[test]
fn yank_b_consumes_to_the_previous_word_boundary() {
    let mut editor = editor_of(&["ab cd"]);
    editor.handle_input(key('$'));
    editor.handle_input(key('y'));
    editor.handle_input(key('b'));
    assert_eq!(editor.body.lines(), vec!["ab ".to_string()]);
    editor.handle_input(key('p'));
    assert_eq!(editor.body.lines(), vec!["ab cd".to_string()]);
}

#[test]
fn counted_dd_stops_when_the_buffer_runs_out_below() {
    let mut editor = editor_of(&["one", "two", "three"]);
    editor.body.move_cursor(CursorMove::Jump(2, 0));
    editor.handle_input(key('2'));
    editor.handle_input(key('d'));
    editor.handle_input(key('d'));
    assert_eq!(editor.body.lines(), vec!["one".to_string(), "two".to_string()]);
}

#[test]
fn escape_from_insert_clears_the_search_highlight() {
    let mut editor = editor_of(&["abc"]);
    editor.handle_input(key('i'));
    editor.body.set_search_pattern(vec!['a', 'b']);
    editor.handle_input(Input { key: Key::Esc, ..Default::default() });
    assert_eq!(editor.mode, EditorMode::Normal);
    assert!(editor.body.search_pattern.is_empty());
}

#[test]
fn find_backward_sees_the_adjacent_column() {
    let mut editor = editor_of(&["abc"]);
    editor.body.move_cursor(CursorMove::Jump(0, 2));
    editor.handle_input(key('F'));
    editor.handle_input(key('b'));
    assert_eq!(editor.body.cursor(), (0, 1));
}

#[test]
fn motions_and_immediate_actions_consume_the_count() {
    let mut editor = editor_of(&["abcdef"]);
    editor.handle_input(key('3'));
    editor.handle_input(key('$'));
    assert_eq!(editor.body.cursor(), (0, 6));
    assert!(editor.num_buf.is_empty());

    editor.handle_input(key('2'));
    editor.handle_input(key('i'));
    assert_eq!(editor.mode, EditorMode::Insert);
    assert!(editor.num_buf.is_empty());
}
