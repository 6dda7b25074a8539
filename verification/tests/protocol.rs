use net_joystick::client::{axis_packet_code, encode_packet, key_packet_code};
use net_joystick::events::{
    InputEvent, ABS_HAT0X, ABS_HAT0Y, ABS_RX, ABS_RY, ABS_RZ, ABS_X, ABS_Y, ABS_Z, BTN_EAST,
    BTN_MODE, BTN_NORTH, BTN_SELECT, BTN_SOUTH, BTN_START, BTN_THUMBL, BTN_THUMBR, BTN_TL,
    BTN_TR, BTN_TRIGGER, BTN_WEST, EV_ABS, EV_KEY, EV_SYN,
};
use net_joystick::packet::{
    button_map, decode_packet, joystick_map, parse_button, parse_joystick, DeviceCommand,
};
use net_joystick::vjoystick::{axis_event, Axis, Button};

#[test]
fn joystick_map_codes() {
    assert_eq!(joystick_map(0), Some(Axis::LJSH));
    assert_eq!(joystick_map(1), Some(Axis::LJSV));
    assert_eq!(joystick_map(2), Some(Axis::TRGL));
    assert_eq!(joystick_map(3), Some(Axis::RJSH));
    assert_eq!(joystick_map(4), Some(Axis::RJSV));
    assert_eq!(joystick_map(5), Some(Axis::TRGR));
    assert_eq!(joystick_map(6), Some(Axis::HT0X));
    assert_eq!(joystick_map(7), Some(Axis::HT0Y));
    assert_eq!(joystick_map(8), None);
    assert_eq!(joystick_map(255), None);
}

#[test]
fn button_map_codes() {
    assert_eq!(button_map(0), Some(Button::A));
    assert_eq!(button_map(1), Some(Button::B));
    assert_eq!(button_map(2), Some(Button::Y));
    assert_eq!(button_map(3), Some(Button::X));
    assert_eq!(button_map(4), Some(Button::Select));
    assert_eq!(button_map(5), Some(Button::Start));
    assert_eq!(button_map(6), Some(Button::ShoulderL));
    assert_eq!(button_map(7), Some(Button::ShoulderR));
    assert_eq!(button_map(8), Some(Button::ThumbL));
    assert_eq!(button_map(9), Some(Button::ThumbR));
    assert_eq!(button_map(10), Some(Button::Mode));
    assert_eq!(button_map(11), None);
}

#[test]
fn parse_joystick_sign_and_magnitude() {
    assert_eq!(parse_joystick(&[1, 40, 2, 3]), (Some(Axis::RJSH), -40));
    assert_eq!(parse_joystick(&[0, 40, 2, 3]), (Some(Axis::RJSH), 40));
    assert_eq!(parse_joystick(&[2, 255, 2, 9]), (None, 255));
    assert_eq!(parse_joystick(&[1, 0, 2, 0]), (Some(Axis::LJSH), 0));
}

#[test]
fn parse_button_pressed_only_on_one() {
    assert_eq!(parse_button(&[0, 1, 1, 0]), (Some(Button::A), true));
    assert_eq!(parse_button(&[0, 0, 1, 10]), (Some(Button::Mode), false));
    assert_eq!(parse_button(&[0, 2, 1, 4]), (Some(Button::Select), false));
    assert_eq!(parse_button(&[0, 1, 1, 42]), (None, true));
}

#[test]
fn decode_packet_variants() {
    assert_eq!(decode_packet(&[0, 1, 1, 5]), DeviceCommand::Press(Button::Start, true));
    assert_eq!(decode_packet(&[1, 20, 2, 0]), DeviceCommand::Move(Axis::LJSH, -20));
    assert_eq!(decode_packet(&[0, 1, 1, 99]), DeviceCommand::UnknownButton);
    assert_eq!(decode_packet(&[0, 1, 2, 99]), DeviceCommand::UnknownAxis);
    assert_eq!(decode_packet(&[0, 1, 3, 0]), DeviceCommand::UnknownKind(3));
    assert_eq!(decode_packet(&[0, 0, 0, 0]), DeviceCommand::UnknownKind(0));
}

#[test]
fn client_key_codes() {
    let keys = [
        BTN_SOUTH, BTN_EAST, BTN_NORTH, BTN_WEST, BTN_SELECT, BTN_START, BTN_TL, BTN_TR,
        BTN_THUMBL, BTN_THUMBR, BTN_MODE,
    ];
    for (i, k) in keys.iter().enumerate() {
        assert_eq!(key_packet_code(*k), Some(i as u8));
    }
    assert_eq!(key_packet_code(BTN_TRIGGER), None);
    let axes = [ABS_X, ABS_Y, ABS_Z, ABS_RX, ABS_RY, ABS_RZ, ABS_HAT0X, ABS_HAT0Y];
    for (i, a) in axes.iter().enumerate() {
        assert_eq!(axis_packet_code(*a), Some(i as u8));
    }
    assert_eq!(axis_packet_code(0x06), None);
}

#[test]
fn encode_packet_examples() {
    let key = InputEvent::new(EV_KEY, BTN_EAST, 1);
    assert_eq!(encode_packet(&key, (false, 0)), Some([0, 1, 1, 1]));
    let unknown_key = InputEvent::new(EV_KEY, BTN_TRIGGER, 1);
    assert_eq!(encode_packet(&unknown_key, (false, 0)), Some([0, 1, 1, 0]));
    let key_value_truncated = InputEvent::new(EV_KEY, BTN_SOUTH, 258);
    assert_eq!(encode_packet(&key_value_truncated, (false, 0)), Some([0, 2, 1, 0]));
    let axis = InputEvent::new(EV_ABS, ABS_RY, -30000);
    assert_eq!(encode_packet(&axis, (true, 92)), Some([1, 92, 2, 4]));
    let unknown_axis = InputEvent::new(EV_ABS, 0x28, 5);
    assert_eq!(encode_packet(&unknown_axis, (false, 0)), Some([0, 0, 2, 0]));
    let sync = InputEvent::new(EV_SYN, 0, 0);
    assert_eq!(encode_packet(&sync, (true, 4)), None);
    let relative = InputEvent::new(0x02, 0, 7);
    assert_eq!(encode_packet(&relative, (false, 0)), Some([0, 0, 0, 0]));
}

#[test]
fn button_round_trip_keeps_the_key() {
    for key in [
        BTN_SOUTH, BTN_EAST, BTN_SELECT, BTN_START, BTN_TL, BTN_TR, BTN_THUMBL, BTN_THUMBR,
        BTN_MODE,
    ] {
        for value in [0, 1] {
            let packet = encode_packet(&InputEvent::new(EV_KEY, key, value), (false, 0)).unwrap();
            match decode_packet(&packet) {
                DeviceCommand::Press(b, pressed) => {
                    assert_eq!(b.to_evdev(), key);
                    assert_eq!(pressed, value == 1);
                }
                other => panic!("unexpected {:?}", other),
            }
        }
    }
}

#[test]
fn north_and_west_are_exchanged() {
    let north = encode_packet(&InputEvent::new(EV_KEY, BTN_NORTH, 1), (false, 0)).unwrap();
    assert_eq!(decode_packet(&north), DeviceCommand::Press(Button::Y, true));
    assert_eq!(Button::Y.to_evdev(), BTN_WEST);
    let west = encode_packet(&InputEvent::new(EV_KEY, BTN_WEST, 0), (false, 0)).unwrap();
    assert_eq!(decode_packet(&west), DeviceCommand::Press(Button::X, false));
    assert_eq!(Button::X.to_evdev(), BTN_NORTH);
}

#[test]
fn axis_round_trip_keeps_axis_and_signed_magnitude() {
    for axis in [ABS_X, ABS_Y, ABS_Z, ABS_RX, ABS_RY, ABS_RZ, ABS_HAT0X, ABS_HAT0Y] {
        let packet =
            encode_packet(&InputEvent::new(EV_ABS, axis, 123), (true, 57)).unwrap();
        match decode_packet(&packet) {
            DeviceCommand::Move(a, position) => {
                assert_eq!(a.to_evdev(), axis);
                assert_eq!(position, -57);
            }
            other => panic!("unexpected {:?}", other),
        }
    }
}

#[test]
fn negative_moves_are_refused_by_the_joystick() {
    match decode_packet(&[1, 57, 2, 0]) {
        DeviceCommand::Move(a, p) => assert!(axis_event(a, p).is_err()),
        other => panic!("unexpected {:?}", other),
    }
    match decode_packet(&[1, 0, 2, 0]) {
        DeviceCommand::Move(a, p) => assert!(axis_event(a, p).is_ok()),
        other => panic!("unexpected {:?}", other),
    }
    match decode_packet(&[0, 101, 2, 5]) {
        DeviceCommand::Move(a, p) => assert!(axis_event(a, p).is_err()),
        other => panic!("unexpected {:?}", other),
    }
    match decode_packet(&[0, 100, 2, 5]) {
        DeviceCommand::Move(a, p) => assert!(axis_event(a, p).is_ok()),
        other => panic!("unexpected {:?}", other),
    }
}

#[test]
fn events_from_evdev_convert_one_for_one() {
    let ev = evdev::InputEvent::new(evdev::EventType::ABSOLUTE, ABS_RZ, 200);
    let mine = InputEvent::new(ev.event_type().0, ev.code(), ev.value());
    assert_eq!(mine, InputEvent::new(EV_ABS, ABS_RZ, 200));
    assert_eq!(encode_packet(&mine, (false, 78)), Some([0, 78, 2, 5]));
}
