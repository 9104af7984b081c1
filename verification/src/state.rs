//! The application's state and its two pure steps: from a message to the
//! action it asks for, and from an action to the next state.

use crate::action::Action;
use crate::message::{Key, Message};
use vstd::prelude::*;

verus! {

/// What the application remembers between events.
#[derive(Clone, Copy, Debug, PartialEq, Eq, Structural, Hash)]
pub struct AppState {
    pub should_quit: bool,
}

/// The action a key asks for: `q` quits, every other key asks for nothing.
pub open spec fn action_for_key(key: Key) -> Option<Action> {
    if key == Key::Char('q') {
        Some(Action::Quit)
    } else {
        Some(Action::Nothing)
    }
}

/// The action a message asks for.
pub open spec fn action_for(message: Message) -> Option<Action> {
    match message {
        Message::Quit => Some(Action::Quit),
        Message::Tick => Some(Action::Tick),
        Message::Init => Some(Action::Render),
        Message::Render => Some(Action::Render),
        Message::Key(key) => action_for_key(key),
        _ => None,
    }
}

/// The state after an action: `Quit` asks the application to end, every
/// other action leaves the state as it is.
pub open spec fn state_after(state: AppState, action: Action) -> AppState {
    if action == Action::Quit {
        AppState { should_quit: true }
    } else {
        state
    }
}

/// The state after a message has been handled to the end.
pub open spec fn state_after_message(state: AppState, message: Message) -> AppState {
    match action_for(message) {
        Some(action) => state_after(state, action),
        None => state,
    }
}

/// Maps a key press to an action.
pub fn map_key_event_to_action(key: Key) -> (out: Option<Action>)
    ensures
        out == action_for_key(key),
{
    match key {
        Key::Char(c) => {
            if c == 'q' {
                Some(Action::Quit)
            } else {
                Some(Action::Nothing)
            }
        },
        Key::Other => Some(Action::Nothing),
    }
}

impl AppState {
    /// The state of an application that has just started.
    pub fn new() -> (out: AppState)
        ensures
            !out.should_quit,
    {
        AppState { should_quit: false }
    }

    /// Maps a message to the action it asks for.
    pub fn handle_event(&self, message: &Message) -> (out: Option<Action>)
        ensures
            out == action_for(*message),
    {
        match message {
            Message::Quit => Some(Action::Quit),
            Message::Tick => Some(Action::Tick),
            Message::Init => Some(Action::Render),
            Message::Render => Some(Action::Render),
            Message::Key(key) => map_key_event_to_action(*key),
            _ => None,
        }
    }

    /// Applies an action to the state and says which action follows from
    /// it; none does.
    pub fn update(&mut self, action: Action) -> (out: Option<Action>)
        ensures
            *final(self) == state_after(*old(self), action),
            out is None,
    {
        match action {
            Action::Quit => {
                self.should_quit = true;
            },
            _ => {},
        }
        None
    }

    /// Handles one message to the end: the action it asks for is applied,
    /// then every action that follows from it.
    pub fn step(&mut self, message: &Message)
        ensures
            *final(self) == state_after_message(*old(self), *message),
    {
        let mut pending = self.handle_event(message);
        let ghost target = state_after_message(*old(self), *message);
        let mut rounds: u8 = 1;
        while pending.is_some() && rounds > 0
            invariant
                rounds <= 1,
                match pending {
                    Some(action) => rounds == 1 && state_after(*self, action) == target,
                    None => *self == target,
                },
            decreases rounds,
        {
            let action = match pending {
                Some(action) => action,
                None => Action::Nothing,
            };
            pending = self.update(action);
            rounds = rounds - 1;
        }
    }
}

} // verus!
