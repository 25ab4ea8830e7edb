use tuipaz::events::{create_db_error, Events};
use tuipaz::links::NoteIdentifier;
use tuipaz::ui::{Button, ButtonAction, ComponentState, MessageType, Screen, UserMessage};

#[test]
fn button_keeps_its_state_and_action() {
    let mut btn = Button::new(
        "New note".to_string(),
        ComponentState::Inactive,
        ButtonAction::RenderNewNoteScreen,
    );
    assert_eq!(btn.get_state(), ComponentState::Inactive);
    btn.set_state(ComponentState::Active);
    assert_eq!(btn.get_state(), ComponentState::Active);
    assert_eq!(btn.get_action(), ButtonAction::RenderNewNoteScreen);
    assert_eq!(btn.text, "New note");
}

#[test]
fn welcome_message_greets() {
    let m = UserMessage::welcome();
    assert_eq!(m.msg, "Welcome to Tuipaz!");
    assert_eq!(m.typ, MessageType::Info);
    assert!(m.next_screen.is_none());
}

#[test]
fn user_message_carries_its_fields() {
    let m = UserMessage::new("Note saved!".to_string(), MessageType::Info, Some(Screen::Main));
    assert_eq!(m.msg, "Note saved!");
    assert_eq!(m.typ, MessageType::Info);
    assert_eq!(m.next_screen, Some(Screen::Main));
}

#[test]
fn db_error_wraps_the_message() {
    let e = create_db_error("Failed to save note".to_string());
    assert_eq!(e.message(), "Failed to save note");
}

#[test]
fn taken_titles_are_detected() {
    let nids = vec![
        NoteIdentifier { id: 1, title: "groceries".to_string() },
        NoteIdentifier { id: 2, title: "ideas".to_string() },
    ];
    assert!(Events::title_taken(&nids, &"ideas".to_string()));
    assert!(!Events::title_taken(&nids, &"journal".to_string()));
    assert_eq!(nids[0].to_string(), "groceries");
}
