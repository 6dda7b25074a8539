use vstd::prelude::*;

verus! {

/// `EV_SYN`: synchronization events.
pub const EV_SYN: u16 = 0x00;
/// `EV_KEY`: key and button events.
pub const EV_KEY: u16 = 0x01;
/// `EV_ABS`: absolute axis events.
pub const EV_ABS: u16 = 0x03;

/// `SYN_REPORT`: the code of the event that ends a batch of events.
pub const SYN_REPORT: u16 = 0x00;

/// `BUS_VIRTUAL`: bus type of a virtual device.
pub const BUS_VIRTUAL: u16 = 0x06;

/// `ABS_X`: left stick, horizontal.
pub const ABS_X: u16 = 0x00;
/// `ABS_Y`: left stick, vertical.
pub const ABS_Y: u16 = 0x01;
/// `ABS_Z`: left trigger.
pub const ABS_Z: u16 = 0x02;
/// `ABS_RX`: right stick, horizontal.
pub const ABS_RX: u16 = 0x03;
/// `ABS_RY`: right stick, vertical.
pub const ABS_RY: u16 = 0x04;
/// `ABS_RZ`: right trigger.
pub const ABS_RZ: u16 = 0x05;
/// `ABS_HAT0X`: directional pad, horizontal.
pub const ABS_HAT0X: u16 = 0x10;
/// `ABS_HAT0Y`: directional pad, vertical.
pub const ABS_HAT0Y: u16 = 0x11;

/// `BTN_TRIGGER`: its presence makes a device count as a joystick.
pub const BTN_TRIGGER: u16 = 0x120;
/// `BTN_SOUTH` (A).
pub const BTN_SOUTH: u16 = 0x130;
/// `BTN_EAST` (B).
pub const BTN_EAST: u16 = 0x131;
/// `BTN_NORTH` (X).
pub const BTN_NORTH: u16 = 0x133;
/// `BTN_WEST` (Y).
pub const BTN_WEST: u16 = 0x134;
/// `BTN_TL`: left shoulder.
pub const BTN_TL: u16 = 0x136;
/// `BTN_TR`: right shoulder.
pub const BTN_TR: u16 = 0x137;
/// `BTN_SELECT`.
pub const BTN_SELECT: u16 = 0x13a;
/// `BTN_START`.
pub const BTN_START: u16 = 0x13b;
/// `BTN_MODE`.
pub const BTN_MODE: u16 = 0x13c;
/// `BTN_THUMBL`: left stick press.
pub const BTN_THUMBL: u16 = 0x13d;
/// `BTN_THUMBR`: right stick press.
pub const BTN_THUMBR: u16 = 0x13e;
/// `BTN_DPAD_UP`.
pub const BTN_DPAD_UP: u16 = 0x220;
/// `BTN_DPAD_DOWN`.
pub const BTN_DPAD_DOWN: u16 = 0x221;
/// `BTN_DPAD_LEFT`.
pub const BTN_DPAD_LEFT: u16 = 0x222;
/// `BTN_DPAD_RIGHT`.
pub const BTN_DPAD_RIGHT: u16 = 0x223;

/// One input event as the kernel reports it: its type (`EV_*`), its code
/// within that type, and its value.  The timestamp plays no part here.
#[derive(Clone, Copy, Debug, PartialEq, Eq, Structural)]
pub struct InputEvent {
    pub event_type: u16,
    pub code: u16,
    pub value: i32,
}

impl InputEvent {
    /// Builds an event from its three parts.
    pub fn new(event_type: u16, code: u16, value: i32) -> (e: InputEvent)
        ensures
            e == (InputEvent { event_type, code, value }),
    {
        InputEvent { event_type, code, value }
    }
}

} // verus!
