use tuipaz::buffer::CursorMove;
use tuipaz::editor::{Editor, EditorMode};
use tuipaz::input::{Input, Key};

fn editor_with(lines: &[&str]) -> Editor {
    Editor::new(
        "Test Note".to_string(),
        lines.iter().map(|l| l.to_string()).collect(),
        Vec::new(),
        None,
        false,
        140,
    )
}

#[test]
fn test_execute_delete_dd_no_links() {
    let mut editor = Editor::new(
        "Test Note".to_string(),
        vec!["Line 1".to_string(), "Line 2".to_string()],
        Vec::new(),
        None,
        false,
        140,
    );
    editor.set_mode(EditorMode::Normal);
    editor.body.move_cursor(CursorMove::Jump(0, 0));

    editor.execute_delete('d');
    assert_eq!(editor.body.lines(), vec!["Line 2".to_string()]);
}

#[test]
fn test_execute_delete_dk_no_links() {
    let mut editor = Editor::new(
        "Test Note".to_string(),
        vec!["Line 1".to_string(), "Line 2".to_string()],
        Vec::new(),
        None,
        false,
        140,
    );
    editor.set_mode(EditorMode::Normal);
    editor.body.move_cursor(CursorMove::Jump(1, 0));

    editor.execute_delete('k');
    assert_eq!(editor.body.lines(), vec!["Line 1".to_string()]);
}

#[test]
fn test_execute_delete_dj_no_links() {
    let mut editor = Editor::new(
        "Test Note".to_string(),
        vec!["Line 1".to_string(), "Line 2".to_string()],
        Vec::new(),
        None,
        false,
        140,
    );
    editor.set_mode(EditorMode::Normal);
    editor.body.move_cursor(CursorMove::Jump(0, 0));

    editor.execute_delete('j');
    assert_eq!(editor.body.lines(), vec!["Line 2".to_string()]);
}

#[test]
fn test_execute_delete_num_dd_no_links() {
    let mut editor = Editor::new(
        "Test Note".to_string(),
        vec!["Line 1".to_string(), "Line 2".to_string()],
        Vec::new(),
        None,
        false,
        140,
    );
    editor.set_mode(EditorMode::Normal);
    editor.body.move_cursor(CursorMove::Jump(0, 0));
    editor.num_buf = vec![2];
    editor.execute_delete('d');
    assert_eq!(editor.body.lines(), vec!["".to_string()]);
}

#[test]
fn test_execute_delete_num_dj_no_links() {
    let mut editor = Editor::new(
        "Test Note".to_string(),
        vec!["Line 1".to_string(), "Line 2".to_string(), "Line 3".to_string()],
        Vec::new(),
        None,
        false,
        140,
    );

    editor.set_mode(EditorMode::Normal);
    editor.body.move_cursor(CursorMove::Jump(0, 0));
    editor.num_buf = vec![2];
    editor.execute_delete('j');
    assert_eq!(editor.body.lines(), vec!["Line 3".to_string()]);
}

#[test]
fn test_execute_delete_num_dk_no_links() {
    let mut editor = Editor::new(
        "Test Note".to_string(),
        vec!["Line 1".to_string(), "Line 2".to_string(), "Line 3".to_string()],
        Vec::new(),
        None,
        false,
        140,
    );
    editor.set_mode(EditorMode::Normal);
    editor.num_buf = vec![2];
    editor.body.move_cursor(CursorMove::Jump(1, 0));
    editor.execute_delete('k');
    assert_eq!(editor.body.lines(), vec!["Line 3".to_string()]);
}

#[test]
fn test_execute_delete_dw_no_links() {
    let mut editor = editor_with(&["Line 1"]);
    editor.set_mode(EditorMode::Normal);
    editor.body.move_cursor(CursorMove::Jump(0, 0));
    editor.execute_delete('w');
    assert_eq!(editor.body.lines(), vec![" 1".to_string()]);
}

#[test]
fn test_execute_delete_db_no_links() {
    let mut editor = editor_with(&["Line one"]);
    editor.set_mode(EditorMode::Normal);
    editor.body.move_cursor(CursorMove::End);
    editor.execute_delete('b');
    assert_eq!(editor.body.lines(), vec!["Line ".to_string()]);
}

#[test]
fn test_execute_delete_num_dw_no_links() {
    let mut editor = editor_with(&["Word one Word two"]);
    editor.set_mode(EditorMode::Normal);
    editor.body.move_cursor(CursorMove::Jump(0, 0));
    editor.num_buf = vec![3];
    editor.execute_delete('w');
    assert_eq!(editor.body.lines(), vec![" two".to_string()]);
}

#[test]
fn test_execute_delete_num_db_no_links() {
    let mut editor = editor_with(&["First word second word"]);
    editor.set_mode(EditorMode::Normal);
    editor.num_buf = vec![3];
    editor.body.move_cursor(CursorMove::End);
    editor.execute_delete('b');
    assert_eq!(editor.body.lines(), vec!["First ".to_string()]);
}

#[test]
fn test_multiple_nums_in_buf_delete_char() {
    let mut editor = editor_with(&["1 2 3 4 5 6 7"]);
    editor.set_mode(EditorMode::Normal);
    editor.num_buf = vec![1, 2];
    editor.body.move_cursor(CursorMove::Jump(0, 0));
    editor.handle_input(Input { key: Key::Char('x'), ..Default::default() });
    assert_eq!(editor.body.lines(), vec!["7".to_string()]);
}

#[test]
fn test_goto_top_of_note() {
    let mut editor = editor_with(&["1", "2", "3", "4", "5"]);
    editor.set_mode(EditorMode::Normal);
    editor.body.move_cursor(CursorMove::Jump(4, 0));
    editor.execute_goto('g');
    assert_eq!(editor.body.cursor(), (0, 0));
}

#[test]
fn test_goto_line_num_note() {
    let mut editor = editor_with(&["1", "2", "3", "4", "5"]);
    editor.set_mode(EditorMode::Normal);
    editor.num_buf = vec![3];
    editor.body.move_cursor(CursorMove::Jump(4, 0));
    editor.execute_goto('g');
    assert_eq!(editor.body.cursor(), (2, 0));
}

#[test]
fn test_goto_end_of_note() {
    let mut editor = editor_with(&["1", "2", "3", "4", "5"]);
    editor.set_mode(EditorMode::Normal);
    editor.body.move_cursor(CursorMove::Jump(0, 0));
    editor.handle_input(Input { key: Key::Char('G'), shift: true, ..Default::default() });
    assert_eq!(editor.body.cursor(), (4, 0));
}
