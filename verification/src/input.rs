//! The commands that drive the player, and the keys that give them.

use vstd::prelude::*;

verus! {

/// One logical command. At most one is sampled per tick.
#[derive(Clone, Copy, Debug, PartialEq, Eq, PartialOrd, Structural)]
pub enum InputState {
    Up,
    Down,
    Left,
    Right,
    ShiftUp,
    ShiftDown,
    ShiftLeft,
    ShiftRight,
    Pickup,
    Action,
    ToggleHelp,
    Quit,
    Clear,
    Idle,
}

/// The command of the present tick.
pub struct Input(pub InputState);

impl Default for Input {
    fn default() -> (input: Input)
        ensures
            input.0 == InputState::Idle,
    {
        Input(InputState::Idle)
    }
}

/// The key of a key event, as far as the game tells keys apart.
#[derive(Clone, Copy, Debug, PartialEq, Eq, Structural)]
pub enum Key {
    Left,
    Right,
    Up,
    Down,
    Char(char),
    Other,
}

/// The modifiers of a key event: none, shift alone, control alone, or any
/// other set.
#[derive(Clone, Copy, Debug, PartialEq, Eq, Structural)]
pub enum Modifiers {
    Plain,
    Shift,
    Control,
    Mixed,
}

/// The direction that a key stands for: the arrows, and `h`, `j`, `k`, `l`
/// in either case.
pub open spec fn direction_of(key: Key) -> Option<InputState> {
    match key {
        Key::Left => Some(InputState::Left),
        Key::Right => Some(InputState::Right),
        Key::Down => Some(InputState::Down),
        Key::Up => Some(InputState::Up),
        Key::Char(c) => if c == 'h' || c == 'H' {
            Some(InputState::Left)
        } else if c == 'l' || c == 'L' {
            Some(InputState::Right)
        } else if c == 'j' || c == 'J' {
            Some(InputState::Down)
        } else if c == 'k' || c == 'K' {
            Some(InputState::Up)
        } else {
            None
        },
        Key::Other => None,
    }
}

/// The fast variant of a direction.
pub open spec fn hurried(direction: InputState) -> InputState {
    match direction {
        InputState::Left => InputState::ShiftLeft,
        InputState::Right => InputState::ShiftRight,
        InputState::Down => InputState::ShiftDown,
        InputState::Up => InputState::ShiftUp,
        other => other,
    }
}

/// The command that a key event gives. Only a press gives one. Quitting
/// comes before everything else, then the directions, which shift alone
/// makes fast, then the single keys.
pub open spec fn command_of(pressed: bool, key: Key, mods: Modifiers) -> InputState {
    if !pressed {
        InputState::Idle
    } else if (key == Key::Char('c') && mods == Modifiers::Control) || key == Key::Char('q') {
        InputState::Quit
    } else if let Some(direction) = direction_of(key) {
        if mods == Modifiers::Shift {
            hurried(direction)
        } else {
            direction
        }
    } else if key == Key::Char('u') {
        InputState::Action
    } else if key == Key::Char(' ') {
        InputState::Pickup
    } else if key == Key::Char('?') {
        InputState::ToggleHelp
    } else {
        InputState::Idle
    }
}

fn direction(key: Key) -> (found: Option<InputState>)
    ensures
        found == direction_of(key),
{
    match key {
        Key::Left => Some(InputState::Left),
        Key::Right => Some(InputState::Right),
        Key::Down => Some(InputState::Down),
        Key::Up => Some(InputState::Up),
        Key::Char(c) => {
            if c == 'h' || c == 'H' {
                Some(InputState::Left)
            } else if c == 'l' || c == 'L' {
                Some(InputState::Right)
            } else if c == 'j' || c == 'J' {
                Some(InputState::Down)
            } else if c == 'k' || c == 'K' {
                Some(InputState::Up)
            } else {
                None
            }
        },
        Key::Other => None,
    }
}

/// Turns a key event into the command it stands for.
pub fn command_for_key(pressed: bool, key: Key, mods: Modifiers) -> (command: InputState)
    ensures
        command == command_of(pressed, key, mods),
        command != InputState::Clear,
{
    if !pressed {
        return InputState::Idle;
    }
    let is_char_c: bool = match key {
        Key::Char(c) => c == 'c',
        _ => false,
    };
    let is_char_q: bool = match key {
        Key::Char(c) => c == 'q',
        _ => false,
    };
    if (is_char_c && mods == Modifiers::Control) || is_char_q {
        return InputState::Quit;
    }
    match direction(key) {
        Some(d) => {
            if mods == Modifiers::Shift {
                match d {
                    InputState::Left => InputState::ShiftLeft,
                    InputState::Right => InputState::ShiftRight,
                    InputState::Down => InputState::ShiftDown,
                    _ => InputState::ShiftUp,
                }
            } else {
                d
            }
        },
        None => match key {
            Key::Char(c) => {
                if c == 'u' {
                    InputState::Action
                } else if c == ' ' {
                    InputState::Pickup
                } else if c == '?' {
                    InputState::ToggleHelp
                } else {
                    InputState::Idle
                }
            },
            _ => InputState::Idle,
        },
    }
}

/// The unit step of a directional command on each axis, doubled for the
/// fast variant; nothing for any other command.
pub open spec fn impulse_of(command: InputState) -> (int, int) {
    match command {
        InputState::Left => (-1, 0),
        InputState::Right => (1, 0),
        InputState::Up => (0, -1),
        InputState::Down => (0, 1),
        InputState::ShiftLeft => (-2, 0),
        InputState::ShiftRight => (2, 0),
        InputState::ShiftUp => (0, -2),
        InputState::ShiftDown => (0, 2),
        _ => (0, 0),
    }
}

/// The step that a command asks the player to take.
pub fn impulse(command: InputState) -> (step: (i64, i64))
    ensures
        step.0 == impulse_of(command).0,
        step.1 == impulse_of(command).1,
{
    match command {
        InputState::Left => (-1, 0),
        InputState::Right => (1, 0),
        InputState::Up => (0, -1),
        InputState::Down => (0, 1),
        InputState::ShiftLeft => (-2, 0),
        InputState::ShiftRight => (2, 0),
        InputState::ShiftUp => (0, -2),
        InputState::ShiftDown => (0, 2),
        _ => (0, 0),
    }
}

/// What a tick is given: the time, the command sampled for it, and the size
/// of the terminal in columns and rows.
#[derive(Clone, Copy, Debug)]
pub struct TickInput {
    pub time: u64,
    pub command: InputState,
    pub size: (u16, u16),
}

} // verus!
