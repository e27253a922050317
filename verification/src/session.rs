//! What a key asks of a session.

use vstd::prelude::*;

verus! {

/// A key, as far as a session tells keys apart.
#[derive(Clone, Copy, Debug, PartialEq, Eq, Structural)]
pub enum Key {
    Char(char),
    Escape,
    Other,
}

/// What a session does when a key is pressed.
#[derive(Clone, Copy, Debug, PartialEq, Eq, Structural)]
pub enum Command {
    /// End the session.
    Quit,
    /// Switch between the gimbal view and the debug view.
    ToggleDebug,
    /// Return the gimbal to the level orientation and forget held keys.
    Reset,
    /// Hand the character to the controller as a steering key.
    Steer(char),
    /// Do nothing.
    Ignore,
}

/// The command a pressed key gives: `q` and Escape quit, `t` toggles the
/// debug view, `x` resets, and any other character steers, the six steering
/// keys W, S, A, D, R and F among them.
pub open spec fn spec_command(key: Key) -> Command {
    match key {
        Key::Escape => Command::Quit,
        Key::Other => Command::Ignore,
        Key::Char(c) => if c == 'q' {
            Command::Quit
        } else if c == 't' {
            Command::ToggleDebug
        } else if c == 'x' {
            Command::Reset
        } else {
            Command::Steer(c)
        },
    }
}

/// No steering key is taken for another command: each of them, in either
/// case, is handed on to the controller.
pub proof fn lemma_steering_keys_steer(c: char)
    requires
        c == 'w' || c == 's' || c == 'a' || c == 'd' || c == 'r' || c == 'f' || c == 'W' || c == 'S'
            || c == 'A' || c == 'D' || c == 'R' || c == 'F',
    ensures
        spec_command(Key::Char(c)) == Command::Steer(c),
{
}

/// Computes `spec_command`.
pub fn command_for(key: Key) -> (command: Command)
    ensures
        command == spec_command(key),
{
    match key {
        Key::Escape => Command::Quit,
        Key::Other => Command::Ignore,
        Key::Char(c) => if c == 'q' {
            Command::Quit
        } else if c == 't' {
            Command::ToggleDebug
        } else if c == 'x' {
            Command::Reset
        } else {
            Command::Steer(c)
        },
    }
}

} // verus!
