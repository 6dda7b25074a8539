use net_joystick::events::{
    ABS_RX, ABS_RY, ABS_RZ, ABS_X, ABS_Y, ABS_Z, BTN_DPAD_DOWN, BTN_DPAD_LEFT, BTN_DPAD_RIGHT,
    BTN_DPAD_UP, BTN_EAST, BTN_NORTH, BTN_SOUTH, BTN_THUMBL, BTN_THUMBR, BTN_TL, BTN_TR,
    BTN_TRIGGER, BTN_WEST,
};
use net_joystick::value_stream::{decode_packet, device_setup, Axis, Button, Message, Server};

#[test]
fn value_stream_buttons_and_axes() {
    let codes: Vec<u16> = Button::all_buttons().iter().map(|b| b.to_evdev()).collect();
    assert_eq!(
        codes,
        vec![
            BTN_SOUTH, BTN_EAST, BTN_NORTH, BTN_WEST, BTN_TL, BTN_TR, BTN_THUMBL, BTN_THUMBR,
            BTN_DPAD_UP, BTN_DPAD_DOWN, BTN_DPAD_LEFT, BTN_DPAD_RIGHT
        ]
    );
    let axes: Vec<u16> = Axis::all_axis().iter().map(|a| a.to_evdev()).collect();
    assert_eq!(axes, vec![ABS_X, ABS_Y, ABS_Z, ABS_RX, ABS_RY, ABS_RZ]);
    let setup = device_setup("old".to_string());
    assert_eq!(setup.name, "VJoystick for old");
    assert_eq!(setup.key_codes[0], BTN_TRIGGER);
    assert_eq!(&setup.key_codes[1..], &codes[..]);
    assert_eq!(setup.abs_axes, axes);
}

#[test]
fn value_stream_decode() {
    assert_eq!(decode_packet([6, 0, 0, 0, 0]), Message::Exit);
    assert_eq!(decode_packet([6, 6, 6, 6, 6]), Message::Exit);
    assert_eq!(
        decode_packet([0, 0, 0, 0x12, 0x34]),
        Message::Value { negative: true, magnitude: 0x1234 }
    );
    assert_eq!(
        decode_packet([1, 0, 1, 0xff, 0xff]),
        Message::Value { negative: false, magnitude: 65535 }
    );
}

#[test]
fn value_stream_server_delivers_and_removes() {
    let mut s = Server::new();
    let addr = "1.1.1.1:9".to_string();
    let rx = s.parse_data(addr.clone()).expect("a new client gets a channel");
    s.sender_of(&addr).unwrap().send([0, 0, 1, 0, 7]).unwrap();
    assert_eq!(rx.recv().unwrap(), [0, 0, 1, 0, 7]);
    assert!(s.parse_data(addr.clone()).is_none());
    s.sender_of(&addr).unwrap().send([0, 0, 0, 1, 2]).unwrap();
    assert_eq!(rx.recv().unwrap(), [0, 0, 0, 1, 2]);
    let (tx, packet) = s.remove_client(addr.clone()).expect("a client is removed");
    assert_eq!(packet, [6; 5]);
    assert_eq!(decode_packet(packet), Message::Exit);
    tx.send(packet).unwrap();
    drop(tx);
    assert_eq!(rx.recv().unwrap(), [6; 5]);
    assert!(rx.recv().is_err());
    assert!(s.sender_of(&addr).is_none());
    assert!(s.remove_client(addr).is_none());
}

#[test]
fn value_stream_send_to_a_gone_worker_fails() {
    let mut s = Server::new();
    let addr = "2.2.2.2:9".to_string();
    let rx = s.parse_data(addr.clone());
    drop(rx);
    assert!(s.parse_data(addr.clone()).is_none());
    assert!(s.sender_of(&addr).unwrap().send([0; 5]).is_err());
    let (tx, packet) = s.remove_client(addr).unwrap();
    assert!(tx.send(packet).is_err());
}
