//! From what the keyboard delivers to the actions of a match.

use crate::game::{initial_state, step, Action, MatchState, Phase};
use vstd::prelude::*;

verus! {

/// The keys that a match tells apart.
#[derive(Copy, Clone, PartialEq, Eq, Debug, Structural)]
pub enum Key {
    Char(char),
    Left,
    Right,
    Enter,
    Other,
}

/// One stroke on the keyboard.
#[derive(Copy, Clone, PartialEq, Eq, Debug, Structural)]
pub struct KeyPress {
    pub key: Key,
    /// Control, and no other modifier, was held down.
    pub control: bool,
}

/// What the terminal reports.
#[derive(Copy, Clone, PartialEq, Eq, Debug, Structural)]
pub enum Input {
    Key(KeyPress),
    /// Anything that is no key stroke: a resize, the mouse, the focus.
    Other,
}

/// The stroke that ends the session in every phase: Control with `c`.
pub open spec fn is_interrupt(press: KeyPress) -> bool {
    press.control && press.key == Key::Char('c')
}

/// The action that `input` stands for in `phase`, if any. Control with `c`
/// quits in every phase. Before a match and after it any other key begins
/// or restarts; during it the arrows or `h` and `l` move the cursor, and
/// Enter confirms.
pub open spec fn action_of(phase: Phase, input: Input) -> Option<Action> {
    match input {
        Input::Other => None,
        Input::Key(press) => if is_interrupt(press) {
            Some(Action::Quit)
        } else {
            match phase {
                Phase::Start => Some(Action::Begin),
                Phase::Playing => match press.key {
                    Key::Left | Key::Char('h') => Some(Action::MoveCursorLeft),
                    Key::Right | Key::Char('l') => Some(Action::MoveCursorRight),
                    Key::Enter => Some(Action::Confirm),
                    _ => None,
                },
                Phase::GameOver { .. } => Some(Action::Restart),
            }
        },
    }
}

/// The action that `input` stands for while the match is being played.
fn playing_action(key: Key) -> (action: Option<Action>)
    ensures
        action == match key {
            Key::Left | Key::Char('h') => Some(Action::MoveCursorLeft),
            Key::Right | Key::Char('l') => Some(Action::MoveCursorRight),
            Key::Enter => Some(Action::Confirm),
            _ => None,
        },
    no_unwind
{
    match key {
        Key::Left => Some(Action::MoveCursorLeft),
        Key::Right => Some(Action::MoveCursorRight),
        Key::Enter => Some(Action::Confirm),
        Key::Char(c) => {
            if c == 'h' {
                Some(Action::MoveCursorLeft)
            } else if c == 'l' {
                Some(Action::MoveCursorRight)
            } else {
                None
            }
        },
        Key::Other => None,
    }
}

/// The action that `input` stands for in `phase`, if any.
pub fn action_for(phase: Phase, input: Input) -> (action: Option<Action>)
    ensures
        action == action_of(phase, input),
    no_unwind
{
    match input {
        Input::Other => None,
        Input::Key(press) => {
            let interrupt = press.control && match press.key {
                Key::Char(c) => c == 'c',
                _ => false,
            };
            if interrupt {
                Some(Action::Quit)
            } else {
                match phase {
                    Phase::Start => Some(Action::Begin),
                    Phase::Playing => playing_action(press.key),
                    Phase::GameOver { .. } => Some(Action::Restart),
                }
            }
        },
    }
}

/// After a match is over, any key but the interrupt leads to a match before
/// its first action: an empty grid, the first player to move, the cursor on
/// the first column.
pub proof fn lemma_any_key_restarts(s: MatchState, press: KeyPress)
    requires
        s.phase is GameOver,
        !is_interrupt(press),
    ensures
        action_of(s.phase, Input::Key(press)) is Some,
        step(s, action_of(s.phase, Input::Key(press))->Some_0) == initial_state(),
{
}

/// Before the first move, any key but the interrupt starts the match.
pub proof fn lemma_any_key_begins(s: MatchState, press: KeyPress)
    requires
        s.phase == Phase::Start,
        !is_interrupt(press),
    ensures
        action_of(s.phase, Input::Key(press)) is Some,
        step(s, action_of(s.phase, Input::Key(press))->Some_0).phase == Phase::Playing,
{
}

/// What is no key stroke never acts on a match.
pub proof fn lemma_only_keys_act(phase: Phase)
    ensures
        action_of(phase, Input::Other) is None,
{
}

} // verus!
