//! The wizard's state machine: `update(msg, app)` gives the next app and
//! does no input or output.
//!
//! States: `PickProvider` → `EnterApiKey` → `Saving` → `Done` or `Error`.

use vstd::prelude::*;

use crate::setup::providers::Provider;
use crate::text::{chars_of, push_char, string_of_range};

verus! {

/// The actions the state machine takes.
#[derive(Debug, PartialEq, Eq)]
pub enum Message {
    /// Choose a provider (a digit key, or Enter on the highlighted one).
    SelectProvider(usize),
    /// A character of the API key.
    Char(char),
    /// Delete the last character.
    Backspace,
    /// Clear the whole input.
    Clear,
    /// Submit the current state (Enter).
    Submit,
    /// Cancel or quit (Esc).
    Cancel,
    /// The result of saving the key has come back.
    CommitDone(Result<(), String>),
}

/// The wizard's states.
#[derive(Debug, Clone, Copy, PartialEq, Eq, Structural)]
pub enum State {
    /// Picking a provider.
    PickProvider,
    /// Typing the API key (shown masked).
    EnterApiKey,
    /// Writing the keychain and the config.
    Saving,
    /// Finished.
    Done,
    /// A recoverable error.
    Error,
}

/// The wizard.
#[derive(Debug, Clone, PartialEq, Eq)]
pub struct App {
    /// The current state.
    pub state: State,
    /// The providers offered (from the catalog).
    pub providers: Vec<Provider>,
    /// The highlighted provider.
    pub selected: usize,
    /// The API key typed so far.
    pub input: String,
    /// The error shown in `State::Error`.
    pub error: Option<String>,
}

/// What the state machine reads and changes of the wizard.
pub struct Screen {
    pub state: State,
    pub selected: int,
    pub input: Seq<char>,
    pub error: Option<Seq<char>>,
}

/// A message with its text as a sequence.
pub enum Action {
    SelectProvider(int),
    Char(char),
    Backspace,
    Clear,
    Submit,
    Cancel,
    CommitOk,
    CommitErr(Seq<char>),
}

impl Message {
    /// The message as an action.
    pub open spec fn view(self) -> Action {
        match self {
            Message::SelectProvider(i) => Action::SelectProvider(i as int),
            Message::Char(c) => Action::Char(c),
            Message::Backspace => Action::Backspace,
            Message::Clear => Action::Clear,
            Message::Submit => Action::Submit,
            Message::Cancel => Action::Cancel,
            Message::CommitDone(Ok(())) => Action::CommitOk,
            Message::CommitDone(Err(e)) => Action::CommitErr(e@),
        }
    }
}

impl App {
    /// What the state machine reads and changes of the wizard.
    pub open spec fn screen(self) -> Screen {
        Screen {
            state: self.state,
            selected: self.selected as int,
            input: self.input@,
            error: match self.error {
                Some(e) => Some(e@),
                None => None,
            },
        }
    }

    /// A wizard picking among `providers`, the first highlighted.
    pub fn new(providers: Vec<Provider>) -> (app: Self)
        ensures
            app.providers@ == providers@,
            app.screen() == (Screen {
                state: State::PickProvider,
                selected: 0,
                input: Seq::empty(),
                error: None,
            }),
    {
        App { state: State::PickProvider, providers, selected: 0, input: String::new(), error: None }
    }

    /// The highlighted provider, if the index is in range.
    pub fn current_provider(&self) -> (p: Option<&Provider>)
        ensures
            match p {
                Some(x) => self.selected < self.providers@.len() && *x == self.providers@[self.selected as int],
                None => self.selected >= self.providers@.len(),
            },
    {
        if self.selected < self.providers.len() {
            Some(&self.providers[self.selected])
        } else {
            None
        }
    }
}

/// Control characters (`char::is_control`: the general category Cc).
pub open spec fn is_control(c: char) -> bool {
    let u = c as u32;
    u <= 0x1f || (0x7f <= u && u <= 0x9f)
}

/// The text of the error for an empty key.
pub open spec fn empty_key_message() -> Seq<char> {
    "API key cannot be empty"@
}

/// The next screen. A message that does not fit the state changes nothing.
pub open spec fn step(a: Action, s: Screen, provider_count: int) -> Screen {
    match (a, s.state) {
        (Action::SelectProvider(i), State::PickProvider) => if i < provider_count {
            Screen { selected: i, state: State::EnterApiKey, ..s }
        } else {
            s
        },
        (Action::Char(c), State::EnterApiKey) => if is_control(c) {
            s
        } else {
            Screen { input: s.input.push(c), ..s }
        },
        (Action::Backspace, State::EnterApiKey) => if s.input.len() > 0 {
            Screen { input: s.input.drop_last(), ..s }
        } else {
            s
        },
        (Action::Clear, State::EnterApiKey) => Screen { input: Seq::empty(), ..s },
        (Action::Submit, State::EnterApiKey) => if s.input.len() == 0 {
            Screen { error: Some(empty_key_message()), state: State::Error, ..s }
        } else {
            Screen { state: State::Saving, ..s }
        },
        (Action::CommitOk, State::Saving) => Screen { state: State::Done, ..s },
        (Action::CommitErr(e), State::Saving) => Screen { error: Some(e), state: State::Error, ..s },
        _ => s,
    }
}

fn char_is_control(c: char) -> (b: bool)
    ensures
        b == is_control(c),
{
    let u = c as u32;
    u <= 0x1f || (0x7f <= u && u <= 0x9f)
}

/// The next wizard: a pure state transition.
pub fn update(msg: Message, app: App) -> (r: App)
    ensures
        r.providers@ == app.providers@,
        r.screen() == step(msg.view(), app.screen(), app.providers@.len() as int),
{
    let mut app = app;
    match msg {
        Message::SelectProvider(i) => {
            if app.state == State::PickProvider && i < app.providers.len() {
                app.selected = i;
                app.state = State::EnterApiKey;
            }
        },
        Message::Char(c) => {
            if app.state == State::EnterApiKey && !char_is_control(c) {
                push_char(&mut app.input, c);
            }
        },
        Message::Backspace => {
            if app.state == State::EnterApiKey {
                let v = chars_of(app.input.as_str());
                if v.len() > 0 {
                    app.input = string_of_range(v.as_slice(), 0, v.len() - 1);
                    assert(v@.subrange(0, v@.len() - 1) =~= v@.drop_last());
                }
            }
        },
        Message::Clear => {
            if app.state == State::EnterApiKey {
                app.input = String::new();
            }
        },
        Message::Submit => {
            if app.state == State::EnterApiKey {
                if app.input.unicode_len() == 0 {
                    app.error = Some(String::from_str("API key cannot be empty"));
                    app.state = State::Error;
                } else {
                    app.state = State::Saving;
                }
            }
        },
        Message::Cancel => {},
        Message::CommitDone(result) => {
            if app.state == State::Saving {
                match result {
                    Ok(()) => {
                        app.state = State::Done;
                    },
                    Err(e) => {
                        app.error = Some(e);
                        app.state = State::Error;
                    },
                }
            }
        },
    }
    app
}

/// Typing a character and deleting it again gives back the same screen.
pub proof fn law_backspace_undoes_char(s: Screen, c: char, n: int)
    requires
        s.state == State::EnterApiKey,
        !is_control(c),
    ensures
        step(Action::Backspace, step(Action::Char(c), s, n), n) == s,
{
    assert(s.input.push(c).drop_last() =~= s.input);
}

/// The wizard is done only after saving: no step reaches `Done` from any
/// other state.
pub proof fn law_done_only_after_saving(a: Action, s: Screen, n: int)
    requires
        step(a, s, n).state == State::Done,
    ensures
        s.state == State::Saving || s.state == State::Done,
{
}

/// A key is never empty when it is saved: `Saving` is entered only with a
/// non-empty input.
pub proof fn law_saving_has_a_key(a: Action, s: Screen, n: int)
    requires
        s.state != State::Saving,
        step(a, s, n).state == State::Saving,
    ensures
        step(a, s, n).input.len() > 0,
{
}

/// Control characters never reach the key.
pub proof fn law_control_chars_ignored(s: Screen, c: char, n: int)
    requires
        is_control(c),
    ensures
        step(Action::Char(c), s, n) == s,
{
}

} // verus!
