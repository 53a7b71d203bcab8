//! Which key does what during a match.
use vstd::prelude::*;

use crate::game::PlayerAction;

verus! {

/// A key press, as far as the game tells keys apart.
#[derive(Clone, Copy, Debug, PartialEq, Eq, Structural)]
pub enum Key {
    Left,
    Right,
    Esc,
    Char(char),
    /// Any other key.
    Other,
}

/// The action a key asks for during a match: the arrows move, the space bar
/// fires, `q`, `Q` and Escape quit; other keys do nothing.
pub open spec fn key_action(key: Key) -> Option<PlayerAction> {
    match key {
        Key::Left => Some(PlayerAction::MoveLeft),
        Key::Right => Some(PlayerAction::MoveRight),
        Key::Char(' ') => Some(PlayerAction::Shoot),
        Key::Char('q') | Key::Char('Q') | Key::Esc => Some(PlayerAction::Quit),
        _ => None,
    }
}

/// The action `key` asks for during a match, if any.
pub fn action_for_key(key: Key) -> (action: Option<PlayerAction>)
    ensures
        action == key_action(key),
{
    match key {
        Key::Left => Some(PlayerAction::MoveLeft),
        Key::Right => Some(PlayerAction::MoveRight),
        Key::Char(' ') => Some(PlayerAction::Shoot),
        Key::Char('q') | Key::Char('Q') | Key::Esc => Some(PlayerAction::Quit),
        _ => None,
    }
}

} // verus!
