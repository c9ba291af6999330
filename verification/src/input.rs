use vstd::prelude::*;

verus! {

/// What the player asked for.
#[derive(Clone, Copy, Debug, PartialEq, Eq, Structural)]
pub enum Action {
    Move(i32, i32),
    Quit,
    Wait,
    /// No action: the key is not bound.
    Idle,
}

/// A key of the keyboard, as far as the game tells keys apart.
#[derive(Clone, Copy, Debug, PartialEq, Eq, Structural)]
pub enum Key {
    Up,
    Down,
    Left,
    Right,
    Char(char),
    Other,
}

/// Turns keys into actions.
#[derive(Debug)]
pub struct InputManager;

/// The action bound to a key: the arrows and `h j k l` move along the axes,
/// `y u b n` along the diagonals, `q` quits, `.` waits; no other key is bound.
pub open spec fn action_of_key(key: Key) -> Action {
    match key {
        Key::Up => Action::Move(0, -1i32),
        Key::Down => Action::Move(0, 1),
        Key::Left => Action::Move(-1i32, 0),
        Key::Right => Action::Move(1, 0),
        Key::Char(c) => if c == 'k' {
            Action::Move(0, -1i32)
        } else if c == 'j' {
            Action::Move(0, 1)
        } else if c == 'h' {
            Action::Move(-1i32, 0)
        } else if c == 'l' {
            Action::Move(1, 0)
        } else if c == 'y' {
            Action::Move(-1i32, -1i32)
        } else if c == 'u' {
            Action::Move(1, -1i32)
        } else if c == 'b' {
            Action::Move(-1i32, 1)
        } else if c == 'n' {
            Action::Move(1, 1)
        } else if c == 'q' {
            Action::Quit
        } else if c == '.' {
            Action::Wait
        } else {
            Action::Idle
        },
        Key::Other => Action::Idle,
    }
}

impl InputManager {
    pub fn new() -> (manager: InputManager) {
        InputManager
    }

    /// The action bound to `key`.
    pub fn key_to_action(&self, key: Key) -> (action: Action)
        ensures
            action == action_of_key(key),
    {
        match key {
            Key::Up => Action::Move(0, -1i32),
            Key::Down => Action::Move(0, 1),
            Key::Left => Action::Move(-1i32, 0),
            Key::Right => Action::Move(1, 0),
            Key::Char('k') => Action::Move(0, -1i32),
            Key::Char('j') => Action::Move(0, 1),
            Key::Char('h') => Action::Move(-1i32, 0),
            Key::Char('l') => Action::Move(1, 0),
            Key::Char('y') => Action::Move(-1i32, -1i32),
            Key::Char('u') => Action::Move(1, -1i32),
            Key::Char('b') => Action::Move(-1i32, 1),
            Key::Char('n') => Action::Move(1, 1),
            Key::Char('q') => Action::Quit,
            Key::Char('.') => Action::Wait,
            _ => Action::Idle,
        }
    }
}

impl Default for InputManager {
    fn default() -> (manager: InputManager) {
        InputManager
    }
}

} // verus!
