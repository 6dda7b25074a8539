//! The four-byte packet a client sends for every input event, as the server
//! reads it: `[negative, magnitude, kind, code]`.  `kind` is 1 for a button
//! and 2 for an axis; `code` names the button or axis.  For a button the
//! magnitude is 1 while it is pressed; for an axis it is the position in
//! percent, negated when `negative` is 1.

use vstd::prelude::*;
use crate::vjoystick::{Axis, Button};

verus! {

/// Packet kind of a button event.
pub const KIND_BUTTON: u8 = 1;
/// Packet kind of an axis event.
pub const KIND_AXIS: u8 = 2;

/// The axis that a packet code names, if any.
pub open spec fn spec_joystick_map(i: u8) -> Option<Axis> {
    if i == 0 {
        Some(Axis::LJSH)
    } else if i == 1 {
        Some(Axis::LJSV)
    } else if i == 2 {
        Some(Axis::TRGL)
    } else if i == 3 {
        Some(Axis::RJSH)
    } else if i == 4 {
        Some(Axis::RJSV)
    } else if i == 5 {
        Some(Axis::TRGR)
    } else if i == 6 {
        Some(Axis::HT0X)
    } else if i == 7 {
        Some(Axis::HT0Y)
    } else {
        None
    }
}

/// The button that a packet code names, if any.  Codes 2 and 3 name Y and
/// X, in that order.
pub open spec fn spec_button_map(i: u8) -> Option<Button> {
    if i == 0 {
        Some(Button::A)
    } else if i == 1 {
        Some(Button::B)
    } else if i == 2 {
        Some(Button::Y)
    } else if i == 3 {
        Some(Button::X)
    } else if i == 4 {
        Some(Button::Select)
    } else if i == 5 {
        Some(Button::Start)
    } else if i == 6 {
        Some(Button::ShoulderL)
    } else if i == 7 {
        Some(Button::ShoulderR)
    } else if i == 8 {
        Some(Button::ThumbL)
    } else if i == 9 {
        Some(Button::ThumbR)
    } else if i == 10 {
        Some(Button::Mode)
    } else {
        None
    }
}

/// The axis named by packet code `i`: 0 to 7 name LJSH, LJSV, TRGL, RJSH,
/// RJSV, TRGR, HT0X and HT0Y; any other code names none.
pub fn joystick_map(i: u8) -> (axis: Option<Axis>)
    ensures
        axis == spec_joystick_map(i),
{
    match i {
        0 => Some(Axis::LJSH),
        1 => Some(Axis::LJSV),
        2 => Some(Axis::TRGL),
        3 => Some(Axis::RJSH),
        4 => Some(Axis::RJSV),
        5 => Some(Axis::TRGR),
        6 => Some(Axis::HT0X),
        7 => Some(Axis::HT0Y),
        _ => None,
    }
}

/// The button named by packet code `i`: 0 to 10 name A, B, Y, X, Select,
/// Start, ShoulderL, ShoulderR, ThumbL, ThumbR and Mode; any other code
/// names none.
pub fn button_map(i: u8) -> (button: Option<Button>)
    ensures
        button == spec_button_map(i),
{
    match i {
        0 => Some(Button::A),
        1 => Some(Button::B),
        2 => Some(Button::Y),
        3 => Some(Button::X),
        4 => Some(Button::Select),
        5 => Some(Button::Start),
        6 => Some(Button::ShoulderL),
        7 => Some(Button::ShoulderR),
        8 => Some(Button::ThumbL),
        9 => Some(Button::ThumbR),
        10 => Some(Button::Mode),
        _ => None,
    }
}

/// The position an axis packet carries: its magnitude, negated when the
/// first byte is 1.
pub open spec fn packet_position(data: [u8; 4]) -> i32 {
    if data[0] == 1 {
        (-(data[1] as int)) as i32
    } else {
        data[1] as i32
    }
}

/// The axis and position of an axis packet.
pub fn parse_joystick(data: &[u8; 4]) -> (r: (Option<Axis>, i32))
    ensures
        r.0 == spec_joystick_map(data[3]),
        r.1 == packet_position(*data),
{
    let axis = joystick_map(data[3]);
    let magnitude: u8 = data[1];
    let mut position: i32 = magnitude as i32;
    assert(0 <= position <= 255);
    if data[0] == 1 {
        position = -position;
    }
    (axis, position)
}

/// The button of a button packet, and whether it is pressed (magnitude 1).
pub fn parse_button(data: &[u8; 4]) -> (r: (Option<Button>, bool))
    ensures
        r.0 == spec_button_map(data[3]),
        r.1 == (data[1] == 1),
{
    let is_pressed = data[1] == 1;
    let button = button_map(data[3]);
    (button, is_pressed)
}

/// What the server does with a packet.
#[derive(Clone, Copy, Debug, PartialEq, Eq, Structural)]
pub enum DeviceCommand {
    /// Press (`true`) or release the button.
    Press(Button, bool),
    /// Move the axis to the position.
    Move(Axis, i32),
    /// A button packet whose code names no button: nothing is written.
    UnknownButton,
    /// An axis packet whose code names no axis: nothing is written.
    UnknownAxis,
    /// A packet of another kind: nothing is written.
    UnknownKind(u8),
}

/// The command that a packet stands for.
pub open spec fn spec_decode_packet(data: [u8; 4]) -> DeviceCommand {
    if data[2] == KIND_BUTTON {
        match spec_button_map(data[3]) {
            Some(b) => DeviceCommand::Press(b, data[1] == 1),
            None => DeviceCommand::UnknownButton,
        }
    } else if data[2] == KIND_AXIS {
        match spec_joystick_map(data[3]) {
            Some(a) => DeviceCommand::Move(a, packet_position(data)),
            None => DeviceCommand::UnknownAxis,
        }
    } else {
        DeviceCommand::UnknownKind(data[2])
    }
}

/// Decodes a packet into the command the server carries out for it.
pub fn decode_packet(data: &[u8; 4]) -> (command: DeviceCommand)
    ensures
        command == spec_decode_packet(*data),
{
    match data[2] {
        1 => {
            let (button, is_pressed) = parse_button(data);
            match button {
                Some(b) => DeviceCommand::Press(b, is_pressed),
                None => DeviceCommand::UnknownButton,
            }
        },
        2 => {
            let (axis, position) = parse_joystick(data);
            match axis {
                Some(a) => DeviceCommand::Move(a, position),
                None => DeviceCommand::UnknownAxis,
            }
        },
        kind => DeviceCommand::UnknownKind(kind),
    }
}

} // verus!
