use net_joystick::client::{
    select_joysticks, split_server_address, AxisRange, AxisReading, Calibration,
};
use net_joystick::events::{
    InputEvent, ABS_HAT0X, ABS_HAT0Y, ABS_RX, ABS_RY, ABS_RZ, ABS_X, ABS_Y, ABS_Z, BTN_SOUTH,
    EV_ABS, EV_KEY,
};

fn calibrated(values: &[(u16, i32)]) -> Calibration {
    let mut c = Calibration::new();
    for (code, value) in values {
        c.observe(&InputEvent::new(EV_ABS, *code, *value));
    }
    c
}

#[test]
fn fresh_calibration_is_unseen() {
    let c = Calibration::new();
    let unseen = AxisRange { min: i32::MAX, max: i32::MIN };
    assert_eq!(c.left_horizontal, unseen);
    assert_eq!(c.right_trigger, unseen);
}

#[test]
fn calibration_records_low_and_later_high() {
    let c = calibrated(&[(ABS_X, 5), (ABS_X, 3), (ABS_X, 7), (ABS_X, 2), (ABS_X, 9)]);
    assert_eq!(c.left_horizontal, AxisRange { min: 2, max: 9 });
    assert_eq!(c.left_vertical, AxisRange { min: i32::MAX, max: i32::MIN });
}

#[test]
fn calibration_new_lows_are_not_highs() {
    let c = calibrated(&[(ABS_RX, 10), (ABS_RX, 5), (ABS_RX, 3)]);
    assert_eq!(c.right_horizontal, AxisRange { min: 3, max: i32::MIN });
}

#[test]
fn calibration_first_value_at_i32_max_is_a_high() {
    let c = calibrated(&[(ABS_Y, i32::MAX)]);
    assert_eq!(c.left_vertical, AxisRange { min: i32::MAX, max: i32::MAX });
}

#[test]
fn calibration_routes_axes() {
    let c = calibrated(&[
        (ABS_X, -1),
        (ABS_Y, -2),
        (ABS_RX, -3),
        (ABS_RY, -4),
        (ABS_Z, -5),
        (ABS_RZ, -6),
        (ABS_HAT0X, -7),
    ]);
    assert_eq!(c.left_horizontal.min, -1);
    assert_eq!(c.left_vertical.min, -2);
    assert_eq!(c.right_horizontal.min, -3);
    assert_eq!(c.right_vertical.min, -4);
    assert_eq!(c.left_trigger.min, -5);
    assert_eq!(c.right_trigger.min, -6);
    let mut d = c;
    d.observe(&InputEvent::new(EV_KEY, ABS_X, -100));
    assert_eq!(d, c);
}

fn pad() -> Calibration {
    calibrated(&[
        (ABS_X, 0),
        (ABS_X, -100),
        (ABS_X, 100),
        (ABS_Y, 10),
        (ABS_Y, 0),
        (ABS_Y, 255),
        (ABS_RX, 0),
        (ABS_RX, -32768),
        (ABS_RX, 32767),
        (ABS_RY, 0),
        (ABS_RY, -32768),
        (ABS_RY, 32767),
        (ABS_Z, 0),
        (ABS_Z, 255),
        (ABS_RZ, 0),
        (ABS_RZ, 1023),
    ])
}

#[test]
fn parse_input_sticks() {
    let c = pad();
    let ev = InputEvent::new(EV_ABS, ABS_X, -50);
    assert!(c.can_parse_input(&ev));
    assert_eq!(
        c.parse_input(&ev),
        AxisReading::Scaled { negative: true, numerator: -50, denominator: -100 }
    );
    let ev = InputEvent::new(EV_ABS, ABS_X, 25);
    assert_eq!(
        c.parse_input(&ev),
        AxisReading::Scaled { negative: false, numerator: 25, denominator: 100 }
    );
    // Left vertical range 0..255 is centred on 127.
    let ev = InputEvent::new(EV_ABS, ABS_Y, 0);
    assert_eq!(
        c.parse_input(&ev),
        AxisReading::Scaled { negative: true, numerator: -127, denominator: -127 }
    );
    // Right horizontal -32768..32767 sums to -1, centre rounds toward zero.
    let ev = InputEvent::new(EV_ABS, ABS_RX, 32767);
    assert_eq!(
        c.parse_input(&ev),
        AxisReading::Scaled { negative: false, numerator: 32767, denominator: 32767 }
    );
    let ev = InputEvent::new(EV_ABS, ABS_RY, -1);
    assert_eq!(
        c.parse_input(&ev),
        AxisReading::Scaled { negative: true, numerator: -1, denominator: -32768 }
    );
}

#[test]
fn parse_input_triggers_pad_and_others() {
    let c = pad();
    assert_eq!(
        c.parse_input(&InputEvent::new(EV_ABS, ABS_Z, 128)),
        AxisReading::Scaled { negative: false, numerator: 128, denominator: 255 }
    );
    assert_eq!(
        c.parse_input(&InputEvent::new(EV_ABS, ABS_RZ, 1023)),
        AxisReading::Scaled { negative: false, numerator: 1023, denominator: 1023 }
    );
    assert_eq!(
        c.parse_input(&InputEvent::new(EV_ABS, ABS_HAT0X, -1)),
        AxisReading::Exact { negative: true, magnitude: 1 }
    );
    assert_eq!(
        c.parse_input(&InputEvent::new(EV_ABS, ABS_HAT0Y, 300)),
        AxisReading::Exact { negative: false, magnitude: 44 }
    );
    assert_eq!(c.parse_input(&InputEvent::new(EV_KEY, BTN_SOUTH, 1)), AxisReading::Neutral);
    assert_eq!(c.parse_input(&InputEvent::new(EV_ABS, 0x06, 1)), AxisReading::Neutral);
}

#[test]
fn parse_input_refuses_overflow() {
    let c = pad();
    assert!(!c.can_parse_input(&InputEvent::new(EV_ABS, ABS_HAT0X, i32::MIN)));
    assert!(c.can_parse_input(&InputEvent::new(EV_ABS, ABS_HAT0X, i32::MAX)));
    let mut big = pad();
    big.left_vertical = AxisRange { min: i32::MAX, max: 5 };
    assert!(!big.can_parse_input(&InputEvent::new(EV_KEY, BTN_SOUTH, 1)));
    let mut wide = pad();
    wide.left_horizontal = AxisRange { min: 1_000_000_000, max: 1_000_000_000 };
    assert!(!wide.can_parse_input(&InputEvent::new(EV_ABS, ABS_X, -2_000_000_000)));
    assert!(wide.can_parse_input(&InputEvent::new(EV_ABS, ABS_Y, -2_000_000_000)));
    // An uncalibrated controller can be read: the sums are -1.
    let fresh = Calibration::new();
    assert!(fresh.can_parse_input(&InputEvent::new(EV_ABS, ABS_X, 5)));
}

#[test]
fn split_server_address_examples() {
    let s = |a: &str, b: &str| (a.to_string(), b.to_string());
    assert_eq!(split_server_address("192.168.4.122:1025"), s("192.168.4.122", "1025"));
    assert_eq!(split_server_address(""), s("localhost", "69420"));
    assert_eq!(split_server_address(":99"), s("localhost", "99"));
    assert_eq!(split_server_address("host"), s("host", "69420"));
    assert_eq!(split_server_address("a:b:c"), s("a", "b"));
    assert_eq!(split_server_address("a:"), s("a", ""));
    assert_eq!(split_server_address("ä:ü"), s("ä", "ü"));
}

#[test]
fn select_joysticks_keeps_devices_with_abs_x() {
    let devices = vec![
        Some(vec![ABS_Y, ABS_X]),
        None,
        Some(vec![ABS_Y]),
        Some(vec![ABS_X]),
        Some(vec![]),
    ];
    assert_eq!(select_joysticks(&devices), vec![0, 3]);
    assert_eq!(select_joysticks(&vec![]), Vec::<usize>::new());
}

#[test]
fn calibration_ignores_events_off_the_six_axes() {
    let axis_events = [(ABS_X, 3), (ABS_RZ, 9), (ABS_X, -4), (ABS_Y, 2)];
    let mut plain = Calibration::new();
    let mut mixed = Calibration::new();
    for (code, value) in axis_events {
        plain.observe(&InputEvent::new(EV_ABS, code, value));
        mixed.observe(&InputEvent::new(EV_KEY, BTN_SOUTH, 1));
        mixed.observe(&InputEvent::new(EV_ABS, ABS_HAT0X, -1));
        mixed.observe(&InputEvent::new(0, 0, 0));
        mixed.observe(&InputEvent::new(EV_ABS, code, value));
    }
    assert_eq!(plain, mixed);
}
