//! The input dispatcher: maps key events to state-machine operations,
//! conditioned on the current phase.

use vstd::prelude::*;
use crate::game::GameState;

verus! {

/// A key event, reduced to what the dispatcher inspects.
#[derive(Debug, Clone, Copy, PartialEq, Eq, Structural)]
pub enum KeyInput {
    /// A printable character key.
    Char(char),
    /// The enter key.
    Enter,
    /// Any other key.
    Other,
}

/// What the game loop should do in response to one key event.
#[derive(Debug, Clone, Copy, PartialEq, Eq, Structural)]
pub enum GameAction {
    /// Leave the game loop.
    Quit,
    /// Answer the current question with the given answer index.
    Answer(usize),
    /// Start a round from the menu.
    Start,
    /// Return to the menu after a finished round.
    Reset,
    /// Do nothing.
    Ignore,
}

/// The dispatch table: the quit key always quits; the digit keys one to
/// four pick an answer while a question is shown; enter starts a round
/// from the menu and resets after a finished one; all else is ignored.
pub open spec fn dispatch_spec(state: GameState, key: KeyInput) -> GameAction {
    match key {
        KeyInput::Char(c) => if c == 'q' {
            GameAction::Quit
        } else if state == GameState::Question && ('1' as u32) <= (c as u32) && (c as u32) <= (
        '4' as u32) {
            GameAction::Answer(((c as u32) - ('1' as u32)) as usize)
        } else {
            GameAction::Ignore
        },
        KeyInput::Enter => if state == GameState::Menu {
            GameAction::Start
        } else if state == GameState::GameOver {
            GameAction::Reset
        } else {
            GameAction::Ignore
        },
        KeyInput::Other => GameAction::Ignore,
    }
}

/// Maps one key event to the operation the current phase allows.
pub fn dispatch_key(state: GameState, key: KeyInput) -> (a: GameAction)
    ensures
        a == dispatch_spec(state, key),
{
    match key {
        KeyInput::Char(c) => {
            if c == 'q' {
                GameAction::Quit
            } else if state == GameState::Question && ('1' as u32) <= (c as u32) && (c as u32)
                <= ('4' as u32) {
                GameAction::Answer(((c as u32) - ('1' as u32)) as usize)
            } else {
                GameAction::Ignore
            }
        },
        KeyInput::Enter => {
            if state == GameState::Menu {
                GameAction::Start
            } else if state == GameState::GameOver {
                GameAction::Reset
            } else {
                GameAction::Ignore
            }
        },
        KeyInput::Other => GameAction::Ignore,
    }
}

} // verus!
