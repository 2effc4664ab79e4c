//! Keys to wizard messages. The terminal's key events are read by the
//! application, which hands each over as a [`KeyPress`].

use vstd::prelude::*;

use crate::setup::tui::app::{Action, App, Message, State};

verus! {

/// A key the wizard reacts to.
#[derive(Debug, Clone, Copy, PartialEq, Eq, Structural)]
pub enum KeyPress {
    Up,
    Down,
    Enter,
    Esc,
    Backspace,
    /// A character typed on its own (or with Shift).
    Char(char),
    /// A character typed with Ctrl.
    Ctrl(char),
    /// Any other key.
    Other,
}

/// The digit value of `c` when it is `1` to `9`.
pub open spec fn digit_choice(c: char) -> Option<int> {
    if '1' <= c && c <= '9' {
        Some(c as int - '1' as int)
    } else {
        None
    }
}

/// The message a key stands for in the wizard's current state: Esc cancels
/// anywhere; on the provider list Enter picks the highlighted provider and a
/// digit `1`–`9` the provider of that number; in the key field characters
/// are typed, Backspace deletes, Ctrl-U clears and Enter submits. Other keys
/// stand for nothing.
pub open spec fn key_message(key: KeyPress, state: State, selected: int) -> Option<Action> {
    match (key, state) {
        (KeyPress::Esc, _) => Some(Action::Cancel),
        (KeyPress::Enter, State::PickProvider) => Some(Action::SelectProvider(selected)),
        (KeyPress::Char(c), State::PickProvider) => match digit_choice(c) {
            Some(i) => Some(Action::SelectProvider(i)),
            None => None,
        },
        (KeyPress::Ctrl(c), State::EnterApiKey) => if c == 'u' {
            Some(Action::Clear)
        } else {
            None
        },
        (KeyPress::Char(c), State::EnterApiKey) => Some(Action::Char(c)),
        (KeyPress::Backspace, State::EnterApiKey) => Some(Action::Backspace),
        (KeyPress::Enter, State::EnterApiKey) => Some(Action::Submit),
        _ => None,
    }
}

/// The message `key` stands for in `app`'s state.
pub fn key_to_message(key: KeyPress, app: &App) -> (m: Option<Message>)
    ensures
        match m {
            Some(msg) => key_message(key, app.state, app.selected as int) == Some(msg.view()),
            None => key_message(key, app.state, app.selected as int) is None,
        },
{
    match key {
        KeyPress::Esc => Some(Message::Cancel),
        KeyPress::Enter => match app.state {
            State::PickProvider => Some(Message::SelectProvider(app.selected)),
            State::EnterApiKey => Some(Message::Submit),
            _ => None,
        },
        KeyPress::Char(c) => match app.state {
            State::PickProvider => if '1' <= c && c <= '9' {
                Some(Message::SelectProvider((c as u32 - '1' as u32) as usize))
            } else {
                None
            },
            State::EnterApiKey => Some(Message::Char(c)),
            _ => None,
        },
        KeyPress::Ctrl(c) => if app.state == State::EnterApiKey && c == 'u' {
            Some(Message::Clear)
        } else {
            None
        },
        KeyPress::Backspace => if app.state == State::EnterApiKey {
            Some(Message::Backspace)
        } else {
            None
        },
        _ => None,
    }
}

/// The highlighted provider after an arrow key: on the provider list, Up
/// moves to the one before (staying on the first) and Down to the one after
/// (staying on the last). Everything else about the wizard stays.
pub fn move_highlight(app: App, key: KeyPress) -> (r: App)
    ensures
        r.state == app.state,
        r.providers == app.providers,
        r.input == app.input,
        r.error == app.error,
        r.selected == if app.state == State::PickProvider && app.providers@.len() > 0 {
            match key {
                KeyPress::Up => if app.selected > 0 {
                    (app.selected - 1) as usize
                } else {
                    0usize
                },
                KeyPress::Down => if app.selected + 1 < app.providers@.len() {
                    (app.selected + 1) as usize
                } else {
                    (app.providers@.len() - 1) as usize
                },
                _ => app.selected,
            }
        } else {
            app.selected
        },
{
    let mut app = app;
    if app.state == State::PickProvider && app.providers.len() > 0 {
        match key {
            KeyPress::Up => {
                if app.selected > 0 {
                    app.selected = app.selected - 1;
                }
            },
            KeyPress::Down => {
                if app.selected < app.providers.len() - 1 {
                    app.selected = app.selected + 1;
                } else {
                    app.selected = app.providers.len() - 1;
                }
            },
            _ => {},
        }
    }
    app
}

} // verus!
