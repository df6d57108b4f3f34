//! The one-byte commands that a caller writes onto a connection it got from
//! a scan, and the arrow keys that stand for them.

use vstd::prelude::*;

verus! {

/// A command for the device at the other end of a connection.
#[derive(Clone, Copy, Debug, PartialEq, Eq, Structural)]
pub enum Command {
    TiltUp,
    TiltDown,
    TiltOff,
    PanRight,
    PanLeft,
    PanOff,
}

impl Command {
    /// The byte that goes onto the wire.
    pub open spec fn spec_code(self) -> u8 {
        match self {
            Command::TiltUp => 0,
            Command::TiltDown => 1,
            Command::TiltOff => 2,
            Command::PanRight => 3,
            Command::PanLeft => 4,
            Command::PanOff => 5,
        }
    }

    /// The byte that goes onto the wire.
    pub fn code(self) -> (byte: u8)
        ensures
            byte == self.spec_code(),
    {
        match self {
            Command::TiltUp => 0,
            Command::TiltDown => 1,
            Command::TiltOff => 2,
            Command::PanRight => 3,
            Command::PanLeft => 4,
            Command::PanOff => 5,
        }
    }
}

impl From<Command> for u8 {
    fn from(value: Command) -> (byte: u8) {
        value.code()
    }
}

impl vstd::std_specs::convert::FromSpecImpl<Command> for u8 {
    open spec fn obeys_from_spec() -> bool {
        true
    }

    open spec fn from_spec(value: Command) -> u8 {
        value.spec_code()
    }
}

/// The keys that the caller tells apart.
#[derive(Clone, Copy, Debug, PartialEq, Eq, Structural)]
pub enum Key {
    Up,
    Down,
    Left,
    Right,
    Other,
}

/// What happened to a key.
#[derive(Clone, Copy, Debug, PartialEq, Eq, Structural)]
pub enum KeyMotion {
    Press,
    Repeat,
    Release,
}

/// The command that a key event stands for: an arrow key starts its movement
/// when pressed and stops the movement of its axis when released. Nothing
/// else stands for a command.
pub open spec fn spec_command_for(key: Key, motion: KeyMotion) -> Option<Command> {
    match (key, motion) {
        (Key::Up, KeyMotion::Press) => Some(Command::TiltUp),
        (Key::Down, KeyMotion::Press) => Some(Command::TiltDown),
        (Key::Up, KeyMotion::Release) => Some(Command::TiltOff),
        (Key::Down, KeyMotion::Release) => Some(Command::TiltOff),
        (Key::Right, KeyMotion::Press) => Some(Command::PanRight),
        (Key::Left, KeyMotion::Press) => Some(Command::PanLeft),
        (Key::Right, KeyMotion::Release) => Some(Command::PanOff),
        (Key::Left, KeyMotion::Release) => Some(Command::PanOff),
        _ => None,
    }
}

/// The command that a key event stands for, if any.
pub fn command_for(key: Key, motion: KeyMotion) -> (command: Option<Command>)
    ensures
        command == spec_command_for(key, motion),
{
    match motion {
        KeyMotion::Press => match key {
            Key::Up => Some(Command::TiltUp),
            Key::Down => Some(Command::TiltDown),
            Key::Right => Some(Command::PanRight),
            Key::Left => Some(Command::PanLeft),
            Key::Other => None,
        },
        KeyMotion::Release => match key {
            Key::Up | Key::Down => Some(Command::TiltOff),
            Key::Right | Key::Left => Some(Command::PanOff),
            Key::Other => None,
        },
        KeyMotion::Repeat => None,
    }
}

} // verus!
