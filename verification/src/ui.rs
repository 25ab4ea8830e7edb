//! Screen-facing state shared by the widgets: component activity states,
//! screen identifiers, buttons and user-facing messages. Rendering itself is
//! left to the embedding program; these types only carry the state it draws.

use vstd::prelude::*;

verus! {

/// Activity state of a focusable component.
#[derive(Debug, Clone, Copy, PartialEq, Eq, Structural)]
pub enum ComponentState {
    Active,
    Inactive,
    Unavailable,
    Error,
}

/// The application screens a message can point back to.
#[derive(Debug, Clone, Copy, PartialEq, Eq, Structural)]
pub enum Screen {
    Welcome,
    Main,
    NewNote,
    NewLinkedNote,
    LoadNote,
    Popup,
    DeleteNoteConfirmation,
    Exiting,
}

/// What pressing a welcome-screen button does.
#[derive(Debug, Clone, Copy, PartialEq, Eq, Structural)]
pub enum ButtonAction {
    RenderMainScreen,
    RenderNewNoteScreen,
    RenderLoadNoteScreen,
}

/// A labelled button with an activity state and an action.
#[derive(Debug, Clone)]
pub struct Button {
    pub text: String,
    pub state: ComponentState,
    pub action: ButtonAction,
}

impl Button {
    pub fn new(text: String, state: ComponentState, action: ButtonAction) -> (btn: Button)
        ensures
            btn.text@ == text@,
            btn.state == state,
            btn.action == action,
    {
        Button { text, state, action }
    }

    pub fn set_state(&mut self, new_state: ComponentState)
        ensures
            final(self).state == new_state,
            final(self).text == old(self).text,
            final(self).action == old(self).action,
    {
        self.state = new_state;
    }

    pub fn get_state(&self) -> (s: ComponentState)
        ensures
            s == self.state,
    {
        self.state
    }

    pub fn get_action(&self) -> (a: ButtonAction)
        ensures
            a == self.action,
    {
        self.action
    }
}

/// Severity of a user-facing message.
#[derive(Debug, Clone, Copy, PartialEq, Eq, Structural)]
pub enum MessageType {
    Info,
    Warning,
    Error,
}

/// A message shown to the user, optionally directing the application to a
/// particular screen once dismissed.
#[derive(Debug, Clone)]
pub struct UserMessage {
    pub msg: String,
    pub typ: MessageType,
    pub next_screen: Option<Screen>,
}

impl UserMessage {
    pub fn welcome() -> (m: UserMessage)
        ensures
            m.msg@ == "Welcome to Tuipaz!"@,
            m.typ == MessageType::Info,
            m.next_screen is None,
    {
        UserMessage {
            msg: "Welcome to Tuipaz!".to_owned(),
            typ: MessageType::Info,
            next_screen: None,
        }
    }

    pub fn new(msg: String, typ: MessageType, next_screen: Option<Screen>) -> (m: UserMessage)
        ensures
            m.msg@ == msg@,
            m.typ == typ,
            m.next_screen == next_screen,
    {
        UserMessage { msg, typ, next_screen }
    }
}

} // verus!
