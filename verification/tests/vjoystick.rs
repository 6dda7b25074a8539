use net_joystick::events::{
    InputEvent, ABS_HAT0X, ABS_HAT0Y, ABS_RX, ABS_RY, ABS_RZ, ABS_X, ABS_Y, ABS_Z, BTN_EAST,
    BTN_MODE, BTN_NORTH, BTN_SELECT, BTN_SOUTH, BTN_START, BTN_THUMBL, BTN_THUMBR, BTN_TL,
    BTN_TR, BTN_TRIGGER, BTN_WEST, BUS_VIRTUAL, EV_ABS, EV_KEY, EV_SYN, SYN_REPORT,
};
use net_joystick::vjoystick::{
    axis_event, button_event, device_setup, sync_event, Axis, Button, JoystickError,
};

#[test]
fn axis_codes_of_current_joystick() {
    let codes: Vec<u16> = Axis::all_axis().iter().map(|a| a.to_evdev()).collect();
    assert_eq!(codes, vec![ABS_X, ABS_Y, ABS_Z, ABS_RX, ABS_RY, ABS_RZ, ABS_HAT0X, ABS_HAT0Y]);
}

#[test]
fn button_codes_of_current_joystick() {
    let codes: Vec<u16> = Button::all_buttons().iter().map(|b| b.to_evdev()).collect();
    assert_eq!(
        codes,
        vec![
            BTN_SOUTH, BTN_EAST, BTN_NORTH, BTN_WEST, BTN_SELECT, BTN_START, BTN_TL, BTN_TR,
            BTN_THUMBL, BTN_THUMBR, BTN_MODE
        ]
    );
}

#[test]
fn axis_event_accepts_percentages() {
    assert_eq!(axis_event(Axis::LJSH, 0), Ok(InputEvent::new(EV_ABS, ABS_X, 0)));
    assert_eq!(axis_event(Axis::TRGR, 100), Ok(InputEvent::new(EV_ABS, ABS_RZ, 100)));
    assert_eq!(axis_event(Axis::HT0Y, 37), Ok(InputEvent::new(EV_ABS, ABS_HAT0Y, 37)));
}

#[test]
fn axis_event_refuses_out_of_range() {
    assert_eq!(axis_event(Axis::LJSV, -1), Err(JoystickError::PositionOutOfRange));
    assert_eq!(axis_event(Axis::LJSV, 101), Err(JoystickError::PositionOutOfRange));
    assert_eq!(axis_event(Axis::RJSH, i32::MIN), Err(JoystickError::PositionOutOfRange));
}

#[test]
fn button_and_sync_events() {
    assert_eq!(button_event(Button::Start, true), InputEvent::new(EV_KEY, BTN_START, 1));
    assert_eq!(button_event(Button::X, false), InputEvent::new(EV_KEY, BTN_NORTH, 0));
    assert_eq!(sync_event(), InputEvent::new(EV_SYN, SYN_REPORT, 0));
}

#[test]
fn device_setup_for_client() {
    let setup = device_setup(String::from("192.168.4.122"));
    assert_eq!(setup.name, "VJoystick for 192.168.4.122");
    assert_eq!(setup.bus_type, BUS_VIRTUAL);
    assert_eq!((setup.vendor, setup.product, setup.version), (69, 420, 7));
    assert_eq!(setup.event_kinds, vec![EV_ABS, EV_KEY]);
    assert_eq!(
        setup.key_codes,
        vec![
            BTN_TRIGGER, BTN_SOUTH, BTN_EAST, BTN_NORTH, BTN_WEST, BTN_SELECT, BTN_START, BTN_TL,
            BTN_TR, BTN_THUMBL, BTN_THUMBR, BTN_MODE
        ]
    );
    assert_eq!(
        setup.abs_axes,
        vec![ABS_X, ABS_Y, ABS_Z, ABS_RX, ABS_RY, ABS_RZ, ABS_HAT0X, ABS_HAT0Y]
    );
    assert_eq!(
        (setup.abs_value, setup.abs_minimum, setup.abs_maximum),
        (0, -100, 100)
    );
    assert_eq!((setup.abs_fuzz, setup.abs_flat, setup.abs_resolution), (0, 0, 50));
    assert_eq!(setup.ff_effects_max, 0);
}

#[test]
fn every_packet_target_is_set_up() {
    let setup = device_setup(String::from("x"));
    for code in 0u8..=255 {
        if let Some(b) = net_joystick::packet::button_map(code) {
            assert!(setup.key_codes.contains(&b.to_evdev()));
        }
        if let Some(a) = net_joystick::packet::joystick_map(code) {
            assert!(setup.abs_axes.contains(&a.to_evdev()));
        }
    }
}
