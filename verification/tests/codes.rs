use input_linux::{AbsoluteAxis, Key};
use net_joystick::events::{
    ABS_HAT0X, ABS_HAT0Y, ABS_RX, ABS_RY, ABS_RZ, ABS_X, ABS_Y, ABS_Z, BTN_DPAD_DOWN,
    BTN_DPAD_LEFT, BTN_DPAD_RIGHT, BTN_DPAD_UP, BTN_EAST, BTN_MODE, BTN_NORTH, BTN_SELECT,
    BTN_SOUTH, BTN_START, BTN_THUMBL, BTN_THUMBR, BTN_TL, BTN_TR, BTN_TRIGGER, BTN_WEST,
    BUS_VIRTUAL, EV_ABS, EV_KEY, EV_SYN, SYN_REPORT,
};

#[test]
fn event_types_match_evdev() {
    assert_eq!(EV_SYN, evdev::EventType::SYNCHRONIZATION.0);
    assert_eq!(EV_KEY, evdev::EventType::KEY.0);
    assert_eq!(EV_ABS, evdev::EventType::ABSOLUTE.0);
    assert_eq!(SYN_REPORT as i32, input_linux::sys::SYN_REPORT);
    assert_eq!(BUS_VIRTUAL, input_linux::sys::BUS_VIRTUAL);
}

#[test]
fn key_codes_match_evdev() {
    assert_eq!(BTN_SOUTH, evdev::Key::BTN_SOUTH.code());
    assert_eq!(BTN_EAST, evdev::Key::BTN_EAST.code());
    assert_eq!(BTN_NORTH, evdev::Key::BTN_NORTH.code());
    assert_eq!(BTN_WEST, evdev::Key::BTN_WEST.code());
    assert_eq!(BTN_SELECT, evdev::Key::BTN_SELECT.code());
    assert_eq!(BTN_START, evdev::Key::BTN_START.code());
    assert_eq!(BTN_TL, evdev::Key::BTN_TL.code());
    assert_eq!(BTN_TR, evdev::Key::BTN_TR.code());
    assert_eq!(BTN_THUMBL, evdev::Key::BTN_THUMBL.code());
    assert_eq!(BTN_THUMBR, evdev::Key::BTN_THUMBR.code());
    assert_eq!(BTN_MODE, evdev::Key::BTN_MODE.code());
}

#[test]
fn axis_codes_match_evdev() {
    assert_eq!(ABS_X, evdev::AbsoluteAxisType::ABS_X.0);
    assert_eq!(ABS_Y, evdev::AbsoluteAxisType::ABS_Y.0);
    assert_eq!(ABS_Z, evdev::AbsoluteAxisType::ABS_Z.0);
    assert_eq!(ABS_RX, evdev::AbsoluteAxisType::ABS_RX.0);
    assert_eq!(ABS_RY, evdev::AbsoluteAxisType::ABS_RY.0);
    assert_eq!(ABS_RZ, evdev::AbsoluteAxisType::ABS_RZ.0);
    assert_eq!(ABS_HAT0X, evdev::AbsoluteAxisType::ABS_HAT0X.0);
    assert_eq!(ABS_HAT0Y, evdev::AbsoluteAxisType::ABS_HAT0Y.0);
}

#[test]
fn key_codes_match_input_linux() {
    assert_eq!(BTN_TRIGGER, Key::ButtonTrigger as u16);
    assert_eq!(BTN_SOUTH, Key::ButtonSouth as u16);
    assert_eq!(BTN_EAST, Key::ButtonEast as u16);
    assert_eq!(BTN_NORTH, Key::ButtonNorth as u16);
    assert_eq!(BTN_WEST, Key::ButtonWest as u16);
    assert_eq!(BTN_SELECT, Key::ButtonSelect as u16);
    assert_eq!(BTN_START, Key::ButtonStart as u16);
    assert_eq!(BTN_TL, Key::ButtonTL as u16);
    assert_eq!(BTN_TR, Key::ButtonTR as u16);
    assert_eq!(BTN_THUMBL, Key::ButtonThumbl as u16);
    assert_eq!(BTN_THUMBR, Key::ButtonThumbr as u16);
    assert_eq!(BTN_MODE, Key::ButtonMode as u16);
    assert_eq!(BTN_DPAD_UP, Key::ButtonDpadUp as u16);
    assert_eq!(BTN_DPAD_DOWN, Key::ButtonDpadDown as u16);
    assert_eq!(BTN_DPAD_LEFT, Key::ButtonDpadLeft as u16);
    assert_eq!(BTN_DPAD_RIGHT, Key::ButtonDpadRight as u16);
}

#[test]
fn axis_codes_match_input_linux() {
    assert_eq!(ABS_X, AbsoluteAxis::X as u16);
    assert_eq!(ABS_Y, AbsoluteAxis::Y as u16);
    assert_eq!(ABS_Z, AbsoluteAxis::Z as u16);
    assert_eq!(ABS_RX, AbsoluteAxis::RX as u16);
    assert_eq!(ABS_RY, AbsoluteAxis::RY as u16);
    assert_eq!(ABS_RZ, AbsoluteAxis::RZ as u16);
    assert_eq!(ABS_HAT0X, AbsoluteAxis::Hat0X as u16);
    assert_eq!(ABS_HAT0Y, AbsoluteAxis::Hat0Y as u16);
}
