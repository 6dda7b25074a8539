//! The client side: which controllers qualify, how a controller is
//! calibrated, how an event is scaled and how it is packed into the
//! four-byte packet `[negative, magnitude, kind, code]` sent to the server.

use vstd::prelude::*;
use crate::events::{
    ABS_HAT0X, ABS_HAT0Y, ABS_RX, ABS_RY, ABS_RZ, ABS_X, ABS_Y, ABS_Z, BTN_EAST, BTN_MODE,
    BTN_NORTH, BTN_SELECT, BTN_SOUTH, BTN_START, BTN_THUMBL, BTN_THUMBR, BTN_TL, BTN_TR,
    BTN_WEST, EV_ABS, EV_KEY, EV_SYN, InputEvent,
};
use crate::packet::{KIND_AXIS, KIND_BUTTON};

verus! {

/// The packet code of a key, if the client knows it: south, east, north,
/// west, select, start, left and right shoulder, left and right thumb and
/// mode get 0 to 10.
pub open spec fn spec_key_packet_code(code: u16) -> Option<u8> {
    if code == BTN_SOUTH {
        Some(0u8)
    } else if code == BTN_EAST {
        Some(1u8)
    } else if code == BTN_NORTH {
        Some(2u8)
    } else if code == BTN_WEST {
        Some(3u8)
    } else if code == BTN_SELECT {
        Some(4u8)
    } else if code == BTN_START {
        Some(5u8)
    } else if code == BTN_TL {
        Some(6u8)
    } else if code == BTN_TR {
        Some(7u8)
    } else if code == BTN_THUMBL {
        Some(8u8)
    } else if code == BTN_THUMBR {
        Some(9u8)
    } else if code == BTN_MODE {
        Some(10u8)
    } else {
        None
    }
}

/// The packet code of an absolute axis, if the client knows it: X, Y, Z,
/// RX, RY, RZ, HAT0X and HAT0Y get 0 to 7.
pub open spec fn spec_axis_packet_code(code: u16) -> Option<u8> {
    if code == ABS_X {
        Some(0u8)
    } else if code == ABS_Y {
        Some(1u8)
    } else if code == ABS_Z {
        Some(2u8)
    } else if code == ABS_RX {
        Some(3u8)
    } else if code == ABS_RY {
        Some(4u8)
    } else if code == ABS_RZ {
        Some(5u8)
    } else if code == ABS_HAT0X {
        Some(6u8)
    } else if code == ABS_HAT0Y {
        Some(7u8)
    } else {
        None
    }
}

/// The packet code of key `code`, if it is one of the client's buttons.
pub fn key_packet_code(code: u16) -> (r: Option<u8>)
    ensures
        r == spec_key_packet_code(code),
{
    if code == BTN_SOUTH {
        Some(0)
    } else if code == BTN_EAST {
        Some(1)
    } else if code == BTN_NORTH {
        Some(2)
    } else if code == BTN_WEST {
        Some(3)
    } else if code == BTN_SELECT {
        Some(4)
    } else if code == BTN_START {
        Some(5)
    } else if code == BTN_TL {
        Some(6)
    } else if code == BTN_TR {
        Some(7)
    } else if code == BTN_THUMBL {
        Some(8)
    } else if code == BTN_THUMBR {
        Some(9)
    } else if code == BTN_MODE {
        Some(10)
    } else {
        None
    }
}

/// The packet code of absolute axis `code`, if it is one of the client's axes.
pub fn axis_packet_code(code: u16) -> (r: Option<u8>)
    ensures
        r == spec_axis_packet_code(code),
{
    if code == ABS_X {
        Some(0)
    } else if code == ABS_Y {
        Some(1)
    } else if code == ABS_Z {
        Some(2)
    } else if code == ABS_RX {
        Some(3)
    } else if code == ABS_RY {
        Some(4)
    } else if code == ABS_RZ {
        Some(5)
    } else if code == ABS_HAT0X {
        Some(6)
    } else if code == ABS_HAT0Y {
        Some(7)
    } else {
        None
    }
}

/// The packet sent for `event`, given the sign and magnitude that scaling
/// gave it (see [`Calibration::parse_input`]).  Synchronization events are
/// not sent.  A key event is sent as a button packet whose magnitude is the
/// key's value; an unknown key gets code 0.  An absolute axis event is sent
/// as an axis packet with the scaled magnitude; an unknown axis gets code
/// 0.  Any other event is sent with kind 0 and code 0.
pub open spec fn spec_encode_packet(event: InputEvent, parsed: (bool, u8)) -> Option<[u8; 4]> {
    let negative: u8 = if parsed.0 { 1u8 } else { 0u8 };
    if event.event_type == EV_SYN {
        None
    } else if event.event_type == EV_KEY {
        let code = match spec_key_packet_code(event.code) {
            Some(c) => c,
            None => 0u8,
        };
        Some([negative, event.value as u8, KIND_BUTTON, code])
    } else if event.event_type == EV_ABS {
        let code = match spec_axis_packet_code(event.code) {
            Some(c) => c,
            None => 0u8,
        };
        Some([negative, parsed.1, KIND_AXIS, code])
    } else {
        Some([negative, parsed.1, 0u8, 0u8])
    }
}

/// Packs `event` into the packet that the client sends, or `None` for a
/// synchronization event, which is not sent.
pub fn encode_packet(event: &InputEvent, parsed: (bool, u8)) -> (packet: Option<[u8; 4]>)
    ensures
        packet == spec_encode_packet(*event, parsed),
{
    let negative: u8 = if parsed.0 { 1 } else { 0 };
    if event.event_type == EV_SYN {
        None
    } else if event.event_type == EV_KEY {
        let code: u8 = match key_packet_code(event.code) {
            Some(c) => c,
            None => 0,
        };
        let magnitude: u8 = event.value as u8;
        Some([negative, magnitude, KIND_BUTTON, code])
    } else if event.event_type == EV_ABS {
        let code: u8 = match axis_packet_code(event.code) {
            Some(c) => c,
            None => 0,
        };
        Some([negative, parsed.1, KIND_AXIS, code])
    } else {
        Some([negative, parsed.1, 0, 0])
    }
}


/// The lowest and highest value a calibration recorded for one axis.
#[derive(Clone, Copy, Debug, PartialEq, Eq, Structural)]
pub struct AxisRange {
    pub min: i32,
    pub max: i32,
}

impl AxisRange {
    /// The range before any value is seen: `min` at `i32::MAX` and `max` at
    /// `i32::MIN`.
    pub open spec fn initial() -> AxisRange {
        AxisRange { min: i32::MAX, max: i32::MIN }
    }

    /// The range after seeing `value`: a value below `min` becomes the new
    /// `min`; otherwise a value above `max` becomes the new `max`.
    pub open spec fn stepped(self, value: i32) -> AxisRange {
        if self.min > value {
            AxisRange { min: value, max: self.max }
        } else if self.max < value {
            AxisRange { min: self.min, max: value }
        } else {
            self
        }
    }

    /// The range before any value is seen.
    pub fn new() -> (r: AxisRange)
        ensures
            r == AxisRange::initial(),
            r.min == i32::MAX,
            r.max == i32::MIN,
    {
        AxisRange { min: i32::MAX, max: i32::MIN }
    }

    /// Records `value`.
    pub fn observe(&mut self, value: i32)
        ensures
            *final(self) == old(self).stepped(value),
    {
        if self.min > value {
            self.min = value;
        } else if self.max < value {
            self.max = value;
        }
    }

    /// The centre of the range, `(min + max) / 2` rounded toward zero.
    pub open spec fn offset(self) -> int {
        let s = self.min + self.max;
        if s >= 0 {
            s / 2
        } else {
            -((-s) / 2)
        }
    }

    /// `min + max` fits in an `i32`.
    pub open spec fn sum_fits(self) -> bool {
        i32::MIN <= self.min + self.max <= i32::MAX
    }

    /// A stick value on this range can be read without overflow.
    pub open spec fn stick_fits(self, value: i32) -> bool {
        &&& self.sum_fits()
        &&& i32::MIN <= self.min - self.offset() <= i32::MAX
        &&& i32::MIN <= self.max - self.offset() <= i32::MAX
        &&& i32::MIN <= value - self.offset() <= i32::MAX
    }

    /// The reading of a stick value: the value's distance from the centre,
    /// over the distance from the centre to `min` when it lies below the
    /// centre and to `max` otherwise.
    pub open spec fn stick_reading(self, value: i32) -> AxisReading {
        let v = value - self.offset();
        if v < 0 {
            AxisReading::Scaled {
                negative: true,
                numerator: v as i32,
                denominator: (self.min - self.offset()) as i32,
            }
        } else {
            AxisReading::Scaled {
                negative: false,
                numerator: v as i32,
                denominator: (self.max - self.offset()) as i32,
            }
        }
    }

    /// The centre of the range.
    fn centre(&self) -> (c: i32)
        requires
            self.sum_fits(),
        ensures
            c == self.offset(),
    {
        let s: i32 = self.min + self.max;
        if s >= 0 {
            s / 2
        } else {
            let t: i64 = -(s as i64);
            let h: i64 = t / 2;
            (-h) as i32
        }
    }

    /// Reads a stick value against this range.
    fn read_stick(&self, value: i32, centre: i32) -> (r: AxisReading)
        requires
            self.stick_fits(value),
            centre == self.offset(),
        ensures
            r == self.stick_reading(value),
    {
        let v: i32 = value - centre;
        if v < 0 {
            AxisReading::Scaled { negative: true, numerator: v, denominator: self.min - centre }
        } else {
            AxisReading::Scaled { negative: false, numerator: v, denominator: self.max - centre }
        }
    }
}

/// The range after seeing `values` in order, starting from `r`.
pub open spec fn observe_all(r: AxisRange, values: Seq<i32>) -> AxisRange
    decreases values.len(),
{
    if values.len() == 0 {
        r
    } else {
        observe_all(r, values.drop_last()).stepped(values.last())
    }
}

/// The value at `i` is a new low: below the low a calibration starts from
/// (`i32::MAX`) and below every value before it.
#[verifier::opaque]
pub open spec fn is_new_low(values: Seq<i32>, i: int) -> bool {
    &&& values[i] < i32::MAX
    &&& forall|j: int| 0 <= j < i ==> values[i] < values[j]
}

/// The values of the absolute axis events on axis `code` in `events`, in
/// order.
pub open spec fn axis_values(events: Seq<InputEvent>, code: u16) -> Seq<i32>
    decreases events.len(),
{
    if events.len() == 0 {
        Seq::empty()
    } else {
        let rest = axis_values(events.drop_last(), code);
        let e = events.last();
        if e.event_type == EV_ABS && e.code == code {
            rest.push(e.value)
        } else {
            rest
        }
    }
}

/// The calibration after seeing `events` in order, starting from `c`.
pub open spec fn observe_events(c: Calibration, events: Seq<InputEvent>) -> Calibration
    decreases events.len(),
{
    if events.len() == 0 {
        c
    } else {
        observe_events(c, events.drop_last()).stepped(events.last())
    }
}

/// The range that one axis of a controller has been seen to cover, for each
/// of the six analogue axes.
#[derive(Clone, Copy, Debug, PartialEq, Eq, Structural)]
pub struct Calibration {
    pub left_horizontal: AxisRange,
    pub left_vertical: AxisRange,
    pub right_horizontal: AxisRange,
    pub right_vertical: AxisRange,
    pub left_trigger: AxisRange,
    pub right_trigger: AxisRange,
}

/// What an event reads as, before the magnitude is turned into a
/// percentage.
#[derive(Clone, Copy, Debug, PartialEq, Eq, Structural)]
pub enum AxisReading {
    /// The magnitude is `numerator / denominator` as a percentage, rounded
    /// to the nearest integer.
    Scaled { negative: bool, numerator: i32, denominator: i32 },
    /// The magnitude is given as it is.
    Exact { negative: bool, magnitude: u8 },
    /// Not an axis that is scaled: not negative, magnitude 0.
    Neutral,
}

impl Calibration {
    /// No value seen on any axis yet.
    pub open spec fn initial() -> Calibration {
        Calibration {
            left_horizontal: AxisRange::initial(),
            left_vertical: AxisRange::initial(),
            right_horizontal: AxisRange::initial(),
            right_vertical: AxisRange::initial(),
            left_trigger: AxisRange::initial(),
            right_trigger: AxisRange::initial(),
        }
    }

    /// The calibration after seeing `event`: an absolute axis event on X,
    /// RX, Y, RY, Z or RZ steps the range of that axis; any other event
    /// changes nothing.
    pub open spec fn stepped(self, event: InputEvent) -> Calibration {
        if event.event_type != EV_ABS {
            self
        } else if event.code == ABS_X {
            Calibration { left_horizontal: self.left_horizontal.stepped(event.value), ..self }
        } else if event.code == ABS_RX {
            Calibration { right_horizontal: self.right_horizontal.stepped(event.value), ..self }
        } else if event.code == ABS_Y {
            Calibration { left_vertical: self.left_vertical.stepped(event.value), ..self }
        } else if event.code == ABS_RY {
            Calibration { right_vertical: self.right_vertical.stepped(event.value), ..self }
        } else if event.code == ABS_Z {
            Calibration { left_trigger: self.left_trigger.stepped(event.value), ..self }
        } else if event.code == ABS_RZ {
            Calibration { right_trigger: self.right_trigger.stepped(event.value), ..self }
        } else {
            self
        }
    }

    /// A calibration that has seen no value yet: every axis at the unseen
    /// range, `min` at `i32::MAX` and `max` at `i32::MIN`.
    pub fn new() -> (c: Calibration)
        ensures
            c == Calibration::initial(),
            c.left_horizontal == (AxisRange { min: i32::MAX, max: i32::MIN }),
            c.left_vertical == (AxisRange { min: i32::MAX, max: i32::MIN }),
            c.right_horizontal == (AxisRange { min: i32::MAX, max: i32::MIN }),
            c.right_vertical == (AxisRange { min: i32::MAX, max: i32::MIN }),
            c.left_trigger == (AxisRange { min: i32::MAX, max: i32::MIN }),
            c.right_trigger == (AxisRange { min: i32::MAX, max: i32::MIN }),
    {
        Calibration {
            left_horizontal: AxisRange::new(),
            left_vertical: AxisRange::new(),
            right_horizontal: AxisRange::new(),
            right_vertical: AxisRange::new(),
            left_trigger: AxisRange::new(),
            right_trigger: AxisRange::new(),
        }
    }

    /// Records one event seen while calibrating.
    pub fn observe(&mut self, event: &InputEvent)
        ensures
            *final(self) == old(self).stepped(*event),
    {
        if event.event_type != EV_ABS {
            return;
        }
        if event.code == ABS_X {
            self.left_horizontal.observe(event.value);
        } else if event.code == ABS_RX {
            self.right_horizontal.observe(event.value);
        } else if event.code == ABS_Y {
            self.left_vertical.observe(event.value);
        } else if event.code == ABS_RY {
            self.right_vertical.observe(event.value);
        } else if event.code == ABS_Z {
            self.left_trigger.observe(event.value);
        } else if event.code == ABS_RZ {
            self.right_trigger.observe(event.value);
        }
    }

    /// `event` can be read without an arithmetic overflow: the four stick
    /// centres can be computed, the stick that the event is on (if any) can
    /// be measured from its centre, and a directional pad value has an
    /// absolute value.
    pub open spec fn can_read(self, event: InputEvent) -> bool {
        &&& self.left_horizontal.sum_fits()
        &&& self.left_vertical.sum_fits()
        &&& self.right_horizontal.sum_fits()
        &&& self.right_vertical.sum_fits()
        &&& event.event_type == EV_ABS ==> {
            &&& event.code == ABS_X ==> self.left_horizontal.stick_fits(event.value)
            &&& event.code == ABS_Y ==> self.left_vertical.stick_fits(event.value)
            &&& event.code == ABS_RX ==> self.right_horizontal.stick_fits(event.value)
            &&& event.code == ABS_RY ==> self.right_vertical.stick_fits(event.value)
            &&& (event.code == ABS_HAT0X || event.code == ABS_HAT0Y) ==> event.value != i32::MIN
        }
    }

    /// What `event` reads as.  Sticks are measured from the centre of their
    /// range (see [`AxisRange::stick_reading`]); a trigger is its value over
    /// the highest value recorded for it; the directional pad gives its sign
    /// and its absolute value, truncated to a byte; anything else reads as
    /// neutral.
    pub open spec fn reading(self, event: InputEvent) -> AxisReading {
        if event.event_type != EV_ABS {
            AxisReading::Neutral
        } else if event.code == ABS_X {
            self.left_horizontal.stick_reading(event.value)
        } else if event.code == ABS_Y {
            self.left_vertical.stick_reading(event.value)
        } else if event.code == ABS_RX {
            self.right_horizontal.stick_reading(event.value)
        } else if event.code == ABS_RY {
            self.right_vertical.stick_reading(event.value)
        } else if event.code == ABS_Z {
            AxisReading::Scaled {
                negative: false,
                numerator: event.value,
                denominator: self.left_trigger.max,
            }
        } else if event.code == ABS_RZ {
            AxisReading::Scaled {
                negative: false,
                numerator: event.value,
                denominator: self.right_trigger.max,
            }
        } else if event.code == ABS_HAT0X || event.code == ABS_HAT0Y {
            AxisReading::Exact {
                negative: event.value < 0,
                magnitude: ((if event.value < 0 {
                    -(event.value as int)
                } else {
                    event.value as int
                }) % 256) as u8,
            }
        } else {
            AxisReading::Neutral
        }
    }

    /// Whether [`Calibration::parse_input`] can read `event`.
    pub fn can_parse_input(&self, event: &InputEvent) -> (ok: bool)
        ensures
            ok == self.can_read(*event),
    {
        if !(sum_fits(&self.left_horizontal) && sum_fits(&self.left_vertical)
            && sum_fits(&self.right_horizontal) && sum_fits(&self.right_vertical)) {
            return false;
        }
        if event.event_type != EV_ABS {
            return true;
        }
        if event.code == ABS_X {
            stick_fits(&self.left_horizontal, event.value)
        } else if event.code == ABS_Y {
            stick_fits(&self.left_vertical, event.value)
        } else if event.code == ABS_RX {
            stick_fits(&self.right_horizontal, event.value)
        } else if event.code == ABS_RY {
            stick_fits(&self.right_vertical, event.value)
        } else if event.code == ABS_HAT0X || event.code == ABS_HAT0Y {
            event.value != i32::MIN
        } else {
            true
        }
    }

    /// Reads `event` against the calibration.
    pub fn parse_input(&self, event: &InputEvent) -> (r: AxisReading)
        requires
            self.can_read(*event),
        ensures
            r == self.reading(*event),
    {
        let ljs_h_offset: i32 = self.left_horizontal.centre();
        let ljs_v_offset: i32 = self.left_vertical.centre();
        let rjs_h_offset: i32 = self.right_horizontal.centre();
        let rjs_v_offset: i32 = self.right_vertical.centre();
        if event.event_type != EV_ABS {
            AxisReading::Neutral
        } else if event.code == ABS_X {
            self.left_horizontal.read_stick(event.value, ljs_h_offset)
        } else if event.code == ABS_Y {
            self.left_vertical.read_stick(event.value, ljs_v_offset)
        } else if event.code == ABS_RX {
            self.right_horizontal.read_stick(event.value, rjs_h_offset)
        } else if event.code == ABS_RY {
            self.right_vertical.read_stick(event.value, rjs_v_offset)
        } else if event.code == ABS_Z {
            AxisReading::Scaled {
                negative: false,
                numerator: event.value,
                denominator: self.left_trigger.max,
            }
        } else if event.code == ABS_RZ {
            AxisReading::Scaled {
                negative: false,
                numerator: event.value,
                denominator: self.right_trigger.max,
            }
        } else if event.code == ABS_HAT0X || event.code == ABS_HAT0Y {
            let value: i32 = event.value;
            let a: i32 = if value < 0 { -value } else { value };
            let magnitude: u8 = a as u8;
            assert(magnitude == a % 256) by (bit_vector)
                requires
                    a >= 0,
                    magnitude == a as u8,
            ;
            AxisReading::Exact { negative: value < 0, magnitude }
        } else {
            AxisReading::Neutral
        }
    }
}

/// Whether `min + max` of a range fits in an `i32`.
fn sum_fits(r: &AxisRange) -> (ok: bool)
    ensures
        ok == r.sum_fits(),
{
    let s: i64 = r.min as i64 + r.max as i64;
    i32::MIN as i64 <= s && s <= i32::MAX as i64
}

/// Whether a stick value can be measured from the centre of a range.
fn stick_fits(r: &AxisRange, value: i32) -> (ok: bool)
    ensures
        ok == r.stick_fits(value),
{
    if !sum_fits(r) {
        return false;
    }
    let c: i64 = r.centre() as i64;
    let lo: i64 = r.min as i64 - c;
    let hi: i64 = r.max as i64 - c;
    let v: i64 = value as i64 - c;
    let lo_fits = i32::MIN as i64 <= lo && lo <= i32::MAX as i64;
    let hi_fits = i32::MIN as i64 <= hi && hi <= i32::MAX as i64;
    let v_fits = i32::MIN as i64 <= v && v <= i32::MAX as i64;
    lo_fits && hi_fits && v_fits
}


/// The index of the first `:` at or after `start` in `s`, or `s.len()` when
/// there is none.
pub open spec fn colon_from(s: Seq<char>, start: int) -> int
    decreases s.len() - start,
{
    if start < 0 || start >= s.len() {
        s.len() as int
    } else if s[start] == ':' {
        start
    } else {
        colon_from(s, start + 1)
    }
}

/// The host part of a server address: what comes before the first `:`, or
/// `localhost` when that is empty.
pub open spec fn server_host(s: Seq<char>) -> Seq<char> {
    let h = s.subrange(0, colon_from(s, 0));
    if h.len() == 0 {
        "localhost"@
    } else {
        h
    }
}

/// The port part of a server address: what lies between the first and the
/// second `:` (or the end), or `69420` when there is no `:`.
pub open spec fn server_port(s: Seq<char>) -> Seq<char> {
    let c = colon_from(s, 0);
    if c < s.len() {
        s.subrange(c + 1, colon_from(s, c + 1))
    } else {
        "69420"@
    }
}

proof fn lemma_colon_from_bounds(s: Seq<char>, start: int)
    requires
        0 <= start <= s.len(),
    ensures
        start <= colon_from(s, start) <= s.len(),
    decreases s.len() - start,
{
    if start < s.len() && s[start] != ':' {
        lemma_colon_from_bounds(s, start + 1);
    }
}

/// The index of the first `:` at or after `start`, or the length of `s`.
fn find_colon(s: &str, start: usize) -> (i: usize)
    requires
        start <= s@.len(),
    ensures
        i == colon_from(s@, start as int),
        start <= i <= s@.len(),
{
    let n: usize = s.unicode_len();
    let mut i: usize = start;
    proof {
        lemma_colon_from_bounds(s@, start as int);
    }
    while i < n
        invariant
            n == s@.len(),
            start <= i <= n,
            colon_from(s@, start as int) == colon_from(s@, i as int),
        decreases n - i,
    {
        if s.get_char(i) == ':' {
            return i;
        }
        i = i + 1;
    }
    i
}

/// The index of the first `:` in `s`, or the length of `s`.
pub fn first_colon(s: &str) -> (i: usize)
    ensures
        i == colon_from(s@, 0),
        i <= s@.len(),
{
    find_colon(s, 0)
}

/// Splits the server address typed by the user into host and port: the
/// host is what comes before the first `:` (`localhost` when that is empty)
/// and the port what lies between the first and the second `:` (`69420`
/// when there is no `:`).
pub fn split_server_address(selected_server: &str) -> (r: (String, String))
    ensures
        r.0@ == server_host(selected_server@),
        r.1@ == server_port(selected_server@),
{
    let n: usize = selected_server.unicode_len();
    let first: usize = find_colon(selected_server, 0);
    let ip = if first == 0 {
        String::from_str("localhost")
    } else {
        String::from_str(selected_server.substring_char(0, first))
    };
    let port = if first < n {
        let second: usize = find_colon(selected_server, first + 1);
        String::from_str(selected_server.substring_char(first + 1, second))
    } else {
        String::from_str("69420")
    };
    (ip, port)
}

/// The device at `i` reports absolute axes, and `ABS_X` among them.
pub open spec fn is_joystick(devices: Seq<Option<Vec<u16>>>, i: int) -> bool {
    match devices[i] {
        Some(axes) => axes@.contains(ABS_X),
        None => false,
    }
}

/// The positions, in increasing order, of the devices that count as
/// controllers: those whose supported absolute axes include `ABS_X`.
/// `devices[i]` lists the absolute axis codes that device `i` supports, or
/// is `None` when it supports none.
pub fn select_joysticks(devices: &Vec<Option<Vec<u16>>>) -> (selected: Vec<usize>)
    ensures
        forall|k: int, l: int| 0 <= k < l < selected.len() ==> selected[k] < selected[l],
        forall|k: int| 0 <= k < selected.len() ==> selected[k] < devices.len(),
        forall|i: int|
            0 <= i < devices.len() ==> (is_joystick(devices@, i) <==> selected@.contains(
                i as usize,
            )),
{
    let mut selected: Vec<usize> = Vec::new();
    let mut i: usize = 0;
    while i < devices.len()
        invariant
            i <= devices.len(),
            forall|k: int, l: int| 0 <= k < l < selected.len() ==> selected[k] < selected[l],
            forall|k: int| 0 <= k < selected.len() ==> selected[k] < i,
            forall|j: int|
                0 <= j < i ==> (is_joystick(devices@, j) <==> selected@.contains(j as usize)),
        decreases devices.len() - i,
    {
        let found = match &devices[i] {
            Some(axes) => contains_code(axes, ABS_X),
            None => false,
        };
        let ghost before = selected@;
        if found {
            selected.push(i);
        }
        assert forall|j: int| 0 <= j < i + 1 implies (is_joystick(devices@, j)
            <==> selected@.contains(j as usize)) by {
            if j < i {
                if selected@.contains(j as usize) && !before.contains(j as usize) {
                    let k = choose|k: int| 0 <= k < selected.len() && selected@[k] == j as usize;
                    assert(k == before.len());
                }
                if before.contains(j as usize) {
                    let k = choose|k: int| 0 <= k < before.len() && before[k] == j as usize;
                    assert(selected@[k] == j as usize);
                }
            } else {
                if found {
                    assert(selected@[selected.len() - 1] == i);
                } else {
                    if selected@.contains(j as usize) {
                        let k = choose|k: int|
                            0 <= k < selected.len() && selected@[k] == j as usize;
                        assert(selected[k] < i);
                    }
                }
            }
        }
        i = i + 1;
    }
    selected
}

/// Whether `codes` holds `code`.
fn contains_code(codes: &Vec<u16>, code: u16) -> (found: bool)
    ensures
        found == codes@.contains(code),
{
    let mut i: usize = 0;
    while i < codes.len()
        invariant
            i <= codes.len(),
            forall|j: int| 0 <= j < i ==> codes[j] != code,
        decreases codes.len() - i,
    {
        if codes[i] == code {
            assert(codes@[i as int] == code);
            return true;
        }
        i = i + 1;
    }
    false
}

} // verus!
