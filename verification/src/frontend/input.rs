//! Keys: from what the window system reports to what the keypad is told.

use vstd::prelude::*;
use crate::state::KEY_COUNT;

verus! {

/// What an input source can report: one of the sixteen keys of the keypad,
/// named by its label, or the request to leave.
#[derive(Clone, Copy, Debug, PartialEq, Eq, Structural)]
pub enum Chip8KeyCode {
    One,
    Two,
    Three,
    C,
    Four,
    Five,
    Six,
    D,
    Seven,
    Eight,
    Nine,
    E,
    A,
    Zero,
    B,
    F,
    Exit,
}

/// The keypad number of a key: the hexadecimal digit on its label. `Exit`
/// is no key of the keypad and is given 0.
pub open spec fn key_index(input: Chip8KeyCode) -> usize {
    match input {
        Chip8KeyCode::One => 0x1,
        Chip8KeyCode::Two => 0x2,
        Chip8KeyCode::Three => 0x3,
        Chip8KeyCode::C => 0xc,
        Chip8KeyCode::Four => 0x4,
        Chip8KeyCode::Five => 0x5,
        Chip8KeyCode::Six => 0x6,
        Chip8KeyCode::D => 0xd,
        Chip8KeyCode::Seven => 0x7,
        Chip8KeyCode::Eight => 0x8,
        Chip8KeyCode::Nine => 0x9,
        Chip8KeyCode::E => 0xe,
        Chip8KeyCode::A => 0xa,
        Chip8KeyCode::Zero => 0x0,
        Chip8KeyCode::B => 0xb,
        Chip8KeyCode::F => 0xf,
        Chip8KeyCode::Exit => 0x0,
    }
}

/// The keypad number to hand to the interpreter for `input`.
pub fn decode_input(input: Chip8KeyCode) -> (index: usize)
    ensures
        index == key_index(input),
        index < KEY_COUNT,
{
    match input {
        Chip8KeyCode::One => 1,
        Chip8KeyCode::Two => 2,
        Chip8KeyCode::Three => 3,
        Chip8KeyCode::C => 0xc,
        Chip8KeyCode::Four => 4,
        Chip8KeyCode::Five => 5,
        Chip8KeyCode::Six => 6,
        Chip8KeyCode::D => 0xd,
        Chip8KeyCode::Seven => 7,
        Chip8KeyCode::Eight => 8,
        Chip8KeyCode::Nine => 9,
        Chip8KeyCode::E => 0xe,
        Chip8KeyCode::A => 0xa,
        Chip8KeyCode::Zero => 0,
        Chip8KeyCode::B => 0xb,
        Chip8KeyCode::F => 0xf,
        Chip8KeyCode::Exit => 0,
    }
}

/// Where a key sits on the keyboard, by the letter or digit that a QWERTY
/// layout prints on it. `Other` stands for every key outside the block of
/// sixteen that is mapped to the keypad.
#[derive(Clone, Copy, Debug, PartialEq, Eq, Structural)]
pub enum KeyPosition {
    Num1,
    Num2,
    Num3,
    Num4,
    Q,
    W,
    E,
    R,
    A,
    S,
    D,
    F,
    Z,
    X,
    C,
    V,
    Other,
}

/// What the window system reported. For a key, `escape` tells whether the
/// key is the one that the layout in use labels Escape, and `position`
/// where the key sits.
#[derive(Clone, Copy, Debug, PartialEq, Eq, Structural)]
pub enum InputEvent {
    Quit,
    KeyDown { escape: bool, position: KeyPosition },
    KeyUp { escape: bool, position: KeyPosition },
    Other,
}

/// What the driver is to do about a report from the input source.
#[derive(Clone, Copy, Debug, PartialEq, Eq, Structural)]
pub enum KeyAction {
    /// Leave the session.
    Quit,
    /// Nothing to do.
    Nothing,
    /// Tell the interpreter that key number `index` went down or up.
    Key { index: usize, pressed: bool },
}

/// The keypad key at a position. The block `1234 / QWER / ASDF / ZXCV` of
/// the keyboard stands for the keypad's `123C / 456D / 789E / A0BF`.
pub open spec fn keypad_key(position: KeyPosition) -> Option<Chip8KeyCode> {
    match position {
        KeyPosition::Num1 => Some(Chip8KeyCode::One),
        KeyPosition::Num2 => Some(Chip8KeyCode::Two),
        KeyPosition::Num3 => Some(Chip8KeyCode::Three),
        KeyPosition::Num4 => Some(Chip8KeyCode::C),
        KeyPosition::Q => Some(Chip8KeyCode::Four),
        KeyPosition::W => Some(Chip8KeyCode::Five),
        KeyPosition::E => Some(Chip8KeyCode::Six),
        KeyPosition::R => Some(Chip8KeyCode::D),
        KeyPosition::A => Some(Chip8KeyCode::Seven),
        KeyPosition::S => Some(Chip8KeyCode::Eight),
        KeyPosition::D => Some(Chip8KeyCode::Nine),
        KeyPosition::F => Some(Chip8KeyCode::E),
        KeyPosition::Z => Some(Chip8KeyCode::A),
        KeyPosition::X => Some(Chip8KeyCode::Zero),
        KeyPosition::C => Some(Chip8KeyCode::B),
        KeyPosition::V => Some(Chip8KeyCode::F),
        KeyPosition::Other => None,
    }
}

/// The key, if any, and whether it is down, that an event amounts to.
/// Closing the window counts as Escape going down. Escape is told by its
/// label, every other key by its position; a key outside the mapped block
/// amounts to nothing.
pub open spec fn event_report(event: InputEvent) -> (Option<Chip8KeyCode>, bool) {
    match event {
        InputEvent::Quit => (Some(Chip8KeyCode::Exit), true),
        InputEvent::KeyDown { escape, position } => if escape {
            (Some(Chip8KeyCode::Exit), true)
        } else if keypad_key(position) is Some {
            (keypad_key(position), true)
        } else {
            (None, false)
        },
        InputEvent::KeyUp { escape, position } => if escape {
            (Some(Chip8KeyCode::Exit), false)
        } else {
            (keypad_key(position), false)
        },
        InputEvent::Other => (None, false),
    }
}

/// What a report of `key` and `pressed` asks of the driver: Escape going
/// down ends the session, no key is nothing, and anything else is handed to
/// the keypad under the number `key_index` gives it.
pub open spec fn action_for(key: Option<Chip8KeyCode>, pressed: bool) -> KeyAction {
    match key {
        None => KeyAction::Nothing,
        Some(code) => if code == Chip8KeyCode::Exit && pressed {
            KeyAction::Quit
        } else {
            KeyAction::Key { index: key_index(code), pressed }
        },
    }
}

/// The keypad key at a position of the keyboard.
pub fn key_at(position: KeyPosition) -> (key: Option<Chip8KeyCode>)
    ensures
        key == keypad_key(position),
{
    match position {
        KeyPosition::Num1 => Some(Chip8KeyCode::One),
        KeyPosition::Num2 => Some(Chip8KeyCode::Two),
        KeyPosition::Num3 => Some(Chip8KeyCode::Three),
        KeyPosition::Num4 => Some(Chip8KeyCode::C),
        KeyPosition::Q => Some(Chip8KeyCode::Four),
        KeyPosition::W => Some(Chip8KeyCode::Five),
        KeyPosition::E => Some(Chip8KeyCode::Six),
        KeyPosition::R => Some(Chip8KeyCode::D),
        KeyPosition::A => Some(Chip8KeyCode::Seven),
        KeyPosition::S => Some(Chip8KeyCode::Eight),
        KeyPosition::D => Some(Chip8KeyCode::Nine),
        KeyPosition::F => Some(Chip8KeyCode::E),
        KeyPosition::Z => Some(Chip8KeyCode::A),
        KeyPosition::X => Some(Chip8KeyCode::Zero),
        KeyPosition::C => Some(Chip8KeyCode::B),
        KeyPosition::V => Some(Chip8KeyCode::F),
        KeyPosition::Other => None,
    }
}

/// Turns an event of the window system into a key and whether it is down.
pub fn read_event(event: InputEvent) -> (report: (Option<Chip8KeyCode>, bool))
    ensures
        report == event_report(event),
{
    match event {
        InputEvent::Quit => (Some(Chip8KeyCode::Exit), true),
        InputEvent::KeyDown { escape, position } => {
            if escape {
                (Some(Chip8KeyCode::Exit), true)
            } else {
                match key_at(position) {
                    Some(key) => (Some(key), true),
                    None => (None, false),
                }
            }
        },
        InputEvent::KeyUp { escape, position } => {
            if escape {
                (Some(Chip8KeyCode::Exit), false)
            } else {
                (key_at(position), false)
            }
        },
        InputEvent::Other => (None, false),
    }
}

/// Decides what the driver does about a report from the input source.
pub fn key_action(key: Option<Chip8KeyCode>, pressed: bool) -> (action: KeyAction)
    ensures
        action == action_for(key, pressed),
        action matches KeyAction::Key { index, .. } ==> index < KEY_COUNT,
{
    match key {
        None => KeyAction::Nothing,
        Some(code) => {
            let leaving: bool = match code {
                Chip8KeyCode::Exit => pressed,
                _ => false,
            };
            if leaving {
                KeyAction::Quit
            } else {
                KeyAction::Key { index: decode_input(code), pressed }
            }
        },
    }
}

} // verus!
