//! Properties of the library that span several functions.

use vstd::prelude::*;
use crate::client::{
    colon_from, server_host, server_port, AxisReading, axis_values, is_new_low, observe_all, observe_events, spec_encode_packet, AxisRange,
    Calibration,
};
use crate::events::{
    ABS_HAT0X, ABS_HAT0Y, ABS_RX, ABS_RY, ABS_RZ, ABS_X, ABS_Y, ABS_Z, BTN_NORTH, BTN_WEST, EV_ABS,
    EV_KEY, EV_SYN,
    InputEvent,
};
use crate::client::{spec_axis_packet_code, spec_key_packet_code};
use crate::packet::{packet_position, spec_button_map, spec_decode_packet, spec_joystick_map, DeviceCommand};
use crate::server::{spec_client_host, PacketRoute, Server};
use std::sync::mpsc::SyncSender;
use crate::value_stream;
use crate::vjoystick::{axis_codes, button_codes, spec_axis_event, Axis, Button};

verus! {

/// A key event that the client knows, other than north and west, reaches the
/// server as a press or release of the button with the same key code; the
/// button is pressed exactly when the event's value, as a byte, is 1.
pub proof fn law_button_round_trip(event: InputEvent, parsed: (bool, u8))
    requires
        event.event_type == EV_KEY,
        spec_key_packet_code(event.code) is Some,
        event.code != BTN_NORTH,
        event.code != BTN_WEST,
    ensures
        spec_encode_packet(event, parsed) matches Some(packet) && spec_decode_packet(packet)
            matches DeviceCommand::Press(b, pressed) && b.code() == event.code && pressed == (
            event.value as u8 == 1),
{
}

/// The north and west keys reach the server as each other's button: packet
/// codes 2 and 3 are read as Y and X.
pub proof fn law_north_west_exchanged(event: InputEvent, parsed: (bool, u8))
    requires
        event.event_type == EV_KEY,
        event.code == BTN_NORTH || event.code == BTN_WEST,
    ensures
        spec_encode_packet(event, parsed) matches Some(packet) && spec_decode_packet(packet)
            matches DeviceCommand::Press(b, _) && b.code() == (if event.code == BTN_NORTH {
            BTN_WEST
        } else {
            BTN_NORTH
        }),
{
}

/// An absolute axis event that the client knows reaches the server as a
/// move of the axis with the same code, to the scaled magnitude negated when
/// the scaling found it negative.
pub proof fn law_axis_round_trip(event: InputEvent, negative: bool, magnitude: u8)
    requires
        event.event_type == EV_ABS,
        spec_axis_packet_code(event.code) is Some,
    ensures
        spec_encode_packet(event, (negative, magnitude)) matches Some(packet)
            && spec_decode_packet(packet) matches DeviceCommand::Move(a, position) && a.code()
            == event.code && position == (if negative {
            -(magnitude as int)
        } else {
            magnitude as int
        }),
{
}

/// Synchronization events are never sent.
pub proof fn law_sync_not_sent(event: InputEvent, parsed: (bool, u8))
    requires
        event.event_type == EV_SYN,
    ensures
        spec_encode_packet(event, parsed) is None,
{
}

/// An event that is neither a key, an absolute axis nor a synchronization
/// event is sent, and the server writes nothing for it.
pub proof fn law_other_events_ignored(event: InputEvent, parsed: (bool, u8))
    requires
        event.event_type != EV_SYN,
        event.event_type != EV_KEY,
        event.event_type != EV_ABS,
    ensures
        spec_encode_packet(event, parsed) matches Some(packet) && spec_decode_packet(packet)
            == DeviceCommand::UnknownKind(0),
{
}

/// A decoded axis move is written exactly when its position is a
/// percentage: a packet with the sign byte set and a non-zero magnitude, or
/// a magnitude above 100, is refused by the virtual joystick.
pub proof fn law_axis_moves_written(data: [u8; 4])
    requires
        spec_decode_packet(data) is Move,
    ensures
        spec_axis_event(spec_decode_packet(data)->Move_0, spec_decode_packet(data)->Move_1) is Ok
            <==> (data[1] == 0 || (data[0] != 1 && data[1] <= 100)),
{
}

/// Every button and axis that a packet can name is set up on the virtual
/// joystick, so no decoded command is for a key or axis the device lacks.
pub proof fn law_packet_targets_set_up(i: u8)
    ensures
        spec_button_map(i) matches Some(b) ==> button_codes(Button::all()).contains(b.code()),
        spec_joystick_map(i) matches Some(a) ==> axis_codes(Axis::all()).contains(a.code()),
{
    let bs = Button::all();
    let axes = Axis::all();
    if let Some(b) = spec_button_map(i) {
        let k = i as int;
        assert(bs[if k == 2 { 3 } else if k == 3 { 2 } else { k }] == b);
        assert(button_codes(bs)[if k == 2 { 3 } else if k == 3 { 2 } else { k }] == b.code());
    }
    if let Some(a) = spec_joystick_map(i) {
        assert(axes[i as int] == a);
        assert(axis_codes(axes)[i as int] == a.code());
    }
}


/// The low that calibrating one axis records is the lowest value it saw,
/// and stays at `i32::MAX` when it saw none.
pub proof fn law_calibration_low(values: Seq<i32>)
    ensures
        values.len() == 0 ==> observe_all(AxisRange::initial(), values) == AxisRange::initial(),
        forall|i: int|
            0 <= i < values.len() ==> observe_all(AxisRange::initial(), values).min <= values[i],
        values.len() > 0 ==> exists|i: int|
            0 <= i < values.len() && observe_all(AxisRange::initial(), values).min == values[i],
    decreases values.len(),
{
    if values.len() > 0 {
        let n = values.len() - 1;
        let prev = values.drop_last();
        law_calibration_low(prev);
        let rp = observe_all(AxisRange::initial(), prev);
        let r = observe_all(AxisRange::initial(), values);
        assert(r == rp.stepped(values[n]));
        assert forall|i: int| 0 <= i < values.len() implies r.min <= values[i] by {
            if i < n {
                assert(values[i] == prev[i]);
            }
        }
        if rp.min <= values[n] && n > 0 {
            let w = choose|j: int| 0 <= j < prev.len() && rp.min == prev[j];
            assert(values[w] == prev[w]);
        }
    }
}

/// Below the last value, being a new low does not depend on the last value.
proof fn lemma_new_low_prefix(values: Seq<i32>, i: int)
    requires
        0 <= i < values.len() - 1,
    ensures
        is_new_low(values, i) == is_new_low(values.drop_last(), i),
{
    let prev = values.drop_last();
    reveal(is_new_low);
    assert forall|j: int| 0 <= j <= i implies values[j] == prev[j] by {}
}

/// The last value is a new low exactly when it is below the low recorded
/// before it.
proof fn lemma_new_low_last(values: Seq<i32>)
    requires
        values.len() > 0,
    ensures
        is_new_low(values, values.len() - 1) <==> values.last() < observe_all(
            AxisRange::initial(),
            values.drop_last(),
        ).min,
{
    let n = values.len() - 1;
    let prev = values.drop_last();
    law_calibration_low(prev);
    let rp = observe_all(AxisRange::initial(), prev);
    reveal(is_new_low);
    if n > 0 {
        if values[n] < rp.min {
            assert forall|j: int| 0 <= j < n implies values[n] < values[j] by {
                assert(values[j] == prev[j]);
            }
        } else {
            let w = choose|j: int| 0 <= j < prev.len() && rp.min == prev[j];
            assert(values[w] == prev[w]);
        }
    }
}

/// The high that calibrating one axis records: the highest of the values
/// that were not, when they came, new lows (below `i32::MAX` and below
/// every value before them; a new low is recorded as the low only);
/// `i32::MIN` when every value was a new low.
pub proof fn law_calibration_high(values: Seq<i32>)
    ensures
        forall|i: int|
            0 <= i < values.len() && !is_new_low(values, i) ==> values[i] <= observe_all(
                AxisRange::initial(),
                values,
            ).max,
        (exists|i: int| 0 <= i < values.len() && !is_new_low(values, i)) ==> exists|i: int|
            0 <= i < values.len() && !is_new_low(values, i) && observe_all(
                AxisRange::initial(),
                values,
            ).max == values[i],
        (forall|i: int| 0 <= i < values.len() ==> is_new_low(values, i)) ==> observe_all(
            AxisRange::initial(),
            values,
        ).max == i32::MIN,
    decreases values.len(),
{
    if values.len() > 0 {
        let n = values.len() - 1;
        let prev = values.drop_last();
        let v = values[n];
        law_calibration_high(prev);
        lemma_new_low_last(values);
        let rp = observe_all(AxisRange::initial(), prev);
        let r = observe_all(AxisRange::initial(), values);
        assert(r == rp.stepped(v));
        assert forall|i: int| 0 <= i < n implies is_new_low(values, i) == is_new_low(prev, i)
            && values[i] == prev[i] by {
            lemma_new_low_prefix(values, i);
        }
        if rp.min > v {
            assert(r.max == rp.max);
            assert(is_new_low(values, n));
            if exists|i: int| 0 <= i < values.len() && !is_new_low(values, i) {
                let i = choose|i: int| 0 <= i < values.len() && !is_new_low(values, i);
                assert(!is_new_low(prev, i));
                let k = choose|k: int|
                    0 <= k < prev.len() && !is_new_low(prev, k) && rp.max == prev[k];
                assert(!is_new_low(values, k) && r.max == values[k]);
            }
            if forall|i: int| 0 <= i < values.len() ==> is_new_low(values, i) {
                assert forall|i: int| 0 <= i < prev.len() implies is_new_low(prev, i) by {
                    assert(is_new_low(values, i));
                }
            }
        } else {
            assert(!is_new_low(values, n));
            if rp.max < v {
                assert(r.max == v);
            } else {
                assert(r.max == rp.max);
                if exists|i: int| 0 <= i < prev.len() && !is_new_low(prev, i) {
                    let k = choose|k: int|
                        0 <= k < prev.len() && !is_new_low(prev, k) && rp.max == prev[k];
                    assert(!is_new_low(values, k) && r.max == values[k]);
                } else {
                    assert(r.max == values[n]);
                }
            }
            assert forall|i: int| 0 <= i < values.len() && !is_new_low(values, i) implies values[i]
                <= r.max by {
                if i < n {
                    assert(!is_new_low(prev, i));
                }
            }
        }
    }
}

/// Calibrating on a sequence of events steps each axis's range with the
/// values of that axis's events, in order, and with nothing else.
pub proof fn law_calibration_per_axis(c: Calibration, events: Seq<InputEvent>)
    ensures
        observe_events(c, events).left_horizontal == observe_all(
            c.left_horizontal,
            axis_values(events, ABS_X),
        ),
        observe_events(c, events).left_vertical == observe_all(
            c.left_vertical,
            axis_values(events, ABS_Y),
        ),
        observe_events(c, events).right_horizontal == observe_all(
            c.right_horizontal,
            axis_values(events, ABS_RX),
        ),
        observe_events(c, events).right_vertical == observe_all(
            c.right_vertical,
            axis_values(events, ABS_RY),
        ),
        observe_events(c, events).left_trigger == observe_all(
            c.left_trigger,
            axis_values(events, ABS_Z),
        ),
        observe_events(c, events).right_trigger == observe_all(
            c.right_trigger,
            axis_values(events, ABS_RZ),
        ),
    decreases events.len(),
{
    if events.len() > 0 {
        let prev = events.drop_last();
        let e = events.last();
        law_calibration_per_axis(c, prev);
        let codes = seq![ABS_X, ABS_Y, ABS_RX, ABS_RY, ABS_Z, ABS_RZ];
        assert forall|k: int| 0 <= k < 6 implies {
            let code = #[trigger] codes[k];
            let rest = axis_values(prev, code);
            e.event_type == EV_ABS && e.code == code ==> rest.push(e.value).drop_last() == rest
        } by {
            let code = codes[k];
            let rest = axis_values(prev, code);
            assert(rest.push(e.value).drop_last() =~= rest);
        }
        assert(codes[0] == ABS_X);
        assert(codes[1] == ABS_Y);
        assert(codes[2] == ABS_RX);
        assert(codes[3] == ABS_RY);
        assert(codes[4] == ABS_Z);
        assert(codes[5] == ABS_RZ);
    }
}


/// The first packet from an unknown address makes it pending; while it is
/// pending and not connected, its further packets are dropped.
pub proof fn law_first_packet_makes_pending(s0: Server, s1: Server, source: Seq<char>)
    requires
        !s0.connected().contains_key(source),
        !s0.pending().contains(source),
        s1.connected() == s0.connected(),
        s1.pending() == s0.pending().insert(source),
    ensures
        s0.route(source) == PacketRoute::NewClient,
        s1.route(source) == PacketRoute::Ignore,
{
}

/// Accepting a client (connecting it with a sender, then taking it off the
/// pending addresses) leaves it connected with that sender, no longer
/// pending, and its packets forwarded; no other address changes.
pub proof fn law_accept_client(
    s0: Server,
    s1: Server,
    s2: Server,
    client: Seq<char>,
    sender: SyncSender<[u8; 4]>,
)
    requires
        s1.connected() == s0.connected().insert(client, sender),
        s1.pending() == s0.pending(),
        s2.pending() == s1.pending().remove(client),
        s2.connected() == s1.connected(),
    ensures
        s2.connected().contains_key(client),
        s2.connected()[client] == sender,
        !s2.pending().contains(client),
        s2.route(client) == PacketRoute::Forward,
        forall|k: Seq<char>|
            k != client ==> (s2.pending().contains(k) == s0.pending().contains(k)
                && s2.connected().contains_key(k) == s0.connected().contains_key(k)
                && (s0.connected().contains_key(k) ==> s2.connected()[k] == s0.connected()[k])),
{
}

/// Denying a client (taking it off the pending addresses) makes the next
/// packet from it, if it is not connected, a new request.
pub proof fn law_deny_client(s0: Server, s1: Server, client: Seq<char>)
    requires
        s1.pending() == s0.pending().remove(client),
        s1.connected() == s0.connected(),
        !s0.connected().contains_key(client),
    ensures
        s1.route(client) == PacketRoute::NewClient,
{
}

/// A disconnected client is no longer forwarded to: its next packet is
/// dropped while it is pending, and is a new request otherwise.
pub proof fn law_disconnect_client(s0: Server, s1: Server, client: Seq<char>)
    requires
        s1.connected() == s0.connected().remove(client),
        s1.pending() == s0.pending(),
    ensures
        !s1.connected().contains_key(client),
        s1.route(client) == (if s0.pending().contains(client) {
            PacketRoute::Ignore
        } else {
            PacketRoute::NewClient
        }),
{
}


/// A stick at the highest value its calibration recorded reads as full
/// deflection (the distance from the centre over itself); at the lowest,
/// when that lies below the centre, as full negative deflection; and at the
/// centre as zero.
pub proof fn law_stick_extremes(r: AxisRange)
    requires
        r.min <= r.max,
        r.stick_fits(r.min),
        r.stick_fits(r.max),
    ensures
        r.stick_reading(r.max) == (AxisReading::Scaled {
            negative: false,
            numerator: (r.max - r.offset()) as i32,
            denominator: (r.max - r.offset()) as i32,
        }),
        r.min < r.offset() ==> r.stick_reading(r.min) == (AxisReading::Scaled {
            negative: true,
            numerator: (r.min - r.offset()) as i32,
            denominator: (r.min - r.offset()) as i32,
        }),
        r.stick_reading(r.offset() as i32) matches AxisReading::Scaled { numerator, .. }
            && numerator == 0,
{
    assert(r.min <= r.offset() <= r.max);
}

/// The packet a removed client's worker is sent is read by the worker as
/// the order to stop.
pub proof fn law_exit_packet_stops_worker()
    ensures
        value_stream::spec_decode_packet(
            [value_stream::EXIT_CODE, value_stream::EXIT_CODE, value_stream::EXIT_CODE, value_stream::EXIT_CODE, value_stream::EXIT_CODE],
        ) == value_stream::Message::Exit,
{
}


/// In a text whose part from `start` to `end` has no `:`, the first `:` at
/// or after `start` is the first one at or after `end`.
proof fn lemma_colon_skips(s: Seq<char>, start: int, end: int)
    requires
        0 <= start <= end <= s.len(),
        forall|i: int| start <= i < end ==> s[i] != ':',
    ensures
        colon_from(s, start) == colon_from(s, end),
    decreases end - start,
{
    if start < end {
        lemma_colon_skips(s, start + 1, end);
    }
}

/// Joining a host and a port with `:` and splitting the result gives them
/// back, when neither holds a `:` and the host is not empty.
pub proof fn law_server_address_round_trip(host: Seq<char>, port: Seq<char>)
    requires
        host.len() > 0,
        !host.contains(':'),
        !port.contains(':'),
    ensures
        server_host(host + seq![':'] + port) == host,
        server_port(host + seq![':'] + port) == port,
        spec_client_host(host + seq![':'] + port) == Some(host),
{
    let s = host + seq![':'] + port;
    let n = host.len() as int;
    assert forall|i: int| 0 <= i < n implies s[i] != ':' by {
        assert(s[i] == host[i]);
    }
    assert(s[n] == ':');
    lemma_colon_skips(s, 0, n);
    assert(colon_from(s, n) == n);
    assert forall|i: int| n + 1 <= i < s.len() implies s[i] != ':' by {
        assert(s[i] == port[i - n - 1]);
    }
    lemma_colon_skips(s, n + 1, s.len() as int);
    assert(s.subrange(0, n) =~= host);
    assert(s.subrange(n + 1, s.len() as int) =~= port);
}


/// One call on the client registry.
pub enum RegistryOp {
    /// `add_client`
    Add(String),
    /// `remove_client`
    Remove(String),
    /// `connect_client`
    Connect(String, SyncSender<[u8; 4]>),
    /// `disconnect_client`
    Disconnect(String),
}

/// The pending addresses after `ops`, starting from none: adding inserts,
/// removing deletes, connecting and disconnecting leave them.
pub open spec fn pending_after(ops: Seq<RegistryOp>) -> Set<Seq<char>>
    decreases ops.len(),
{
    if ops.len() == 0 {
        Set::empty()
    } else {
        let p = pending_after(ops.drop_last());
        match ops.last() {
            RegistryOp::Add(c) => p.insert(c@),
            RegistryOp::Remove(c) => p.remove(c@),
            _ => p,
        }
    }
}

/// The connected addresses and their senders after `ops`, starting from
/// none: connecting stores the sender, disconnecting deletes, adding and
/// removing leave them.
pub open spec fn connected_after(ops: Seq<RegistryOp>) -> Map<Seq<char>, SyncSender<[u8; 4]>>
    decreases ops.len(),
{
    if ops.len() == 0 {
        Map::empty()
    } else {
        let m = connected_after(ops.drop_last());
        match ops.last() {
            RegistryOp::Connect(c, sender) => m.insert(c@, sender),
            RegistryOp::Disconnect(c) => m.remove(c@),
            _ => m,
        }
    }
}

/// `s1` is what the registry call `op` makes of `s0`, as the call's
/// contract states it.
pub open spec fn registry_step(s0: Server, op: RegistryOp, s1: Server) -> bool {
    match op {
        RegistryOp::Add(c) => s1.pending() == s0.pending().insert(c@) && s1.connected()
            == s0.connected(),
        RegistryOp::Remove(c) => s1.pending() == s0.pending().remove(c@) && s1.connected()
            == s0.connected(),
        RegistryOp::Connect(c, sender) => s1.pending() == s0.pending() && s1.connected()
            == s0.connected().insert(c@, sender),
        RegistryOp::Disconnect(c) => s1.pending() == s0.pending() && s1.connected()
            == s0.connected().remove(c@),
    }
}

/// A registry built from an empty one by a sequence of calls holds as
/// pending the addresses added and not removed since, and as connected the
/// addresses connected and not disconnected since, each with the sender of
/// its last connection.  `states[k + 1]` is the registry after call
/// `ops[k]`.
pub proof fn law_registry_history(states: Seq<Server>, ops: Seq<RegistryOp>)
    requires
        states.len() == ops.len() + 1,
        states[0].pending() == Set::<Seq<char>>::empty(),
        states[0].connected() == Map::<Seq<char>, SyncSender<[u8; 4]>>::empty(),
        forall|k: int| 0 <= k < ops.len() ==> registry_step(states[k], ops[k], states[k + 1]),
    ensures
        states.last().pending() == pending_after(ops),
        states.last().connected() == connected_after(ops),
    decreases ops.len(),
{
    if ops.len() > 0 {
        let n = ops.len() - 1;
        let s2 = states.drop_last();
        let o2 = ops.drop_last();
        assert forall|k: int| 0 <= k < o2.len() implies registry_step(s2[k], o2[k], s2[k + 1]) by {
            assert(registry_step(states[k], ops[k], states[k + 1]));
        }
        law_registry_history(s2, o2);
        assert(registry_step(states[n], ops[n], states[n + 1]));
        assert(s2.last() == states[n]);
    }
}

/// The event is on one of the six axes that calibration records.
pub open spec fn is_calibrated_axis_event(e: InputEvent) -> bool {
    &&& e.event_type == EV_ABS
    &&& (e.code == ABS_X || e.code == ABS_Y || e.code == ABS_RX || e.code == ABS_RY || e.code
        == ABS_Z || e.code == ABS_RZ)
}

/// The events of `events` on the six calibrated axes, in order.
pub open spec fn calibrated_events(events: Seq<InputEvent>) -> Seq<InputEvent>
    decreases events.len(),
{
    if events.len() == 0 {
        Seq::empty()
    } else {
        let rest = calibrated_events(events.drop_last());
        if is_calibrated_axis_event(events.last()) {
            rest.push(events.last())
        } else {
            rest
        }
    }
}

/// Calibrating on `events` comes to the same as calibrating on its events
/// on the six calibrated axes alone.
proof fn lemma_calibration_keeps_axis_events(c: Calibration, events: Seq<InputEvent>)
    ensures
        observe_events(c, events) == observe_events(c, calibrated_events(events)),
    decreases events.len(),
{
    if events.len() > 0 {
        let prev = events.drop_last();
        let e = events.last();
        lemma_calibration_keeps_axis_events(c, prev);
        let rest = calibrated_events(prev);
        if is_calibrated_axis_event(e) {
            assert(rest.push(e).drop_last() =~= rest);
        } else {
            assert(observe_events(c, prev).stepped(e) == observe_events(c, prev));
        }
    }
}

/// Two sequences of events that differ only in events other than those on
/// the six calibrated axes (keys, the directional pad, synchronization,
/// other axes) calibrate alike.
pub proof fn law_calibration_ignores_other_events(
    c: Calibration,
    events1: Seq<InputEvent>,
    events2: Seq<InputEvent>,
)
    requires
        calibrated_events(events1) == calibrated_events(events2),
    ensures
        observe_events(c, events1) == observe_events(c, events2),
{
    lemma_calibration_keeps_axis_events(c, events1);
    lemma_calibration_keeps_axis_events(c, events2);
}


/// The directional pad reads as its sign and its absolute value truncated
/// to a byte: negative exactly when the value is below zero, and a
/// magnitude equal to the absolute value modulo 256, whatever the
/// calibration.
pub proof fn law_dpad_reading(c: Calibration, event: InputEvent)
    requires
        event.event_type == EV_ABS,
        event.code == ABS_HAT0X || event.code == ABS_HAT0Y,
    ensures
        c.reading(event) matches AxisReading::Exact { negative, magnitude } && negative == (
        event.value < 0) && magnitude as int == (if event.value < 0 {
            -(event.value as int)
        } else {
            event.value as int
        }) % 256,
{
}


/// What a range recorded from `values` holds: with no value it is the
/// unseen range (`min` at `i32::MAX`, `max` at `i32::MIN`); otherwise its low
/// is one of the values, and no value is below it.
pub open spec fn low_is_seen(r: AxisRange, values: Seq<i32>) -> bool {
    &&& values.len() == 0 ==> r.min == i32::MAX && r.max == i32::MIN
    &&& values.len() > 0 ==> exists|i: int| 0 <= i < values.len() && r.min == values[i]
    &&& forall|i: int| 0 <= i < values.len() ==> r.min <= values[i]
}

/// A calibration that starts from nothing and sees `events` records, on
/// each of its six axes, the unseen range when no event came on that axis,
/// and otherwise a low that is the lowest value seen on that axis.
pub proof fn law_fresh_calibration(events: Seq<InputEvent>)
    ensures
        low_is_seen(
            observe_events(Calibration::initial(), events).left_horizontal,
            axis_values(events, ABS_X),
        ),
        low_is_seen(
            observe_events(Calibration::initial(), events).left_vertical,
            axis_values(events, ABS_Y),
        ),
        low_is_seen(
            observe_events(Calibration::initial(), events).right_horizontal,
            axis_values(events, ABS_RX),
        ),
        low_is_seen(
            observe_events(Calibration::initial(), events).right_vertical,
            axis_values(events, ABS_RY),
        ),
        low_is_seen(
            observe_events(Calibration::initial(), events).left_trigger,
            axis_values(events, ABS_Z),
        ),
        low_is_seen(
            observe_events(Calibration::initial(), events).right_trigger,
            axis_values(events, ABS_RZ),
        ),
{
    law_calibration_per_axis(Calibration::initial(), events);
    law_calibration_low(axis_values(events, ABS_X));
    law_calibration_low(axis_values(events, ABS_Y));
    law_calibration_low(axis_values(events, ABS_RX));
    law_calibration_low(axis_values(events, ABS_RY));
    law_calibration_low(axis_values(events, ABS_Z));
    law_calibration_low(axis_values(events, ABS_RZ));
}

/// An axis move is accepted exactly when its position is in `0..=100`, and
/// what is written then is an absolute event on the axis's own code with
/// the position unchanged.
pub proof fn law_axis_event(axis: Axis, position: i32)
    ensures
        spec_axis_event(axis, position) is Ok <==> 0 <= position <= 100,
        spec_axis_event(axis, position) matches Ok(e) ==> e.event_type == EV_ABS && e.code
            == axis.code() && e.value == position,
{
}

/// Different axes are written on different codes, and every axis on the
/// code of the evdev axis it stands for.
pub proof fn law_axis_codes()
    ensures
        forall|a: Axis, b: Axis| a != b ==> a.code() != b.code(),
        Axis::LJSH.code() == ABS_X && Axis::LJSV.code() == ABS_Y && Axis::TRGL.code() == ABS_Z
            && Axis::RJSH.code() == ABS_RX && Axis::RJSV.code() == ABS_RY && Axis::TRGR.code()
            == ABS_RZ && Axis::HT0X.code() == ABS_HAT0X && Axis::HT0Y.code() == ABS_HAT0Y,
{
}

/// A value stream packet whose first byte is not the exit code carries the
/// big-endian value of bytes 3 and 4, negative exactly when byte 2 is 0;
/// the magnitude does not depend on byte 2.
pub proof fn law_value_stream_decode(data: [u8; 5])
    requires
        data[0] != value_stream::EXIT_CODE,
    ensures
        value_stream::spec_decode_packet(data) matches value_stream::Message::Value {
            negative,
            magnitude,
        } && negative == (data[2] == 0) && magnitude as int == data[3] as int * 256
            + data[4] as int,
{
}

/// Two value stream packets that differ only in byte 2 carry the same
/// magnitude; a packet whose first byte is the exit code is always the stop
/// order.
pub proof fn law_value_stream_sign_only_in_byte_two(d1: [u8; 5], d2: [u8; 5])
    requires
        d1[0] == d2[0],
        d1[1] == d2[1],
        d1[3] == d2[3],
        d1[4] == d2[4],
    ensures
        d1[0] != value_stream::EXIT_CODE ==> (value_stream::spec_decode_packet(d1)
            matches value_stream::Message::Value { magnitude: m1, .. }
            && value_stream::spec_decode_packet(d2) matches value_stream::Message::Value {
            magnitude: m2,
            ..
        } && m1 == m2),
        d1[0] == value_stream::EXIT_CODE ==> value_stream::spec_decode_packet(d1)
            == value_stream::Message::Exit,
{
}

} // verus!
