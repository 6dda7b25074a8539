use vstd::prelude::*;
use crate::events::{
    ABS_HAT0X, ABS_HAT0Y, ABS_RX, ABS_RY, ABS_RZ, ABS_X, ABS_Y, ABS_Z, BTN_EAST, BTN_MODE,
    BTN_NORTH, BTN_SELECT, BTN_SOUTH, BTN_START, BTN_THUMBL, BTN_THUMBR, BTN_TL, BTN_TR,
    BTN_WEST, BTN_TRIGGER, BUS_VIRTUAL, EV_ABS, EV_KEY, EV_SYN, SYN_REPORT, InputEvent,
};

verus! {

/// An absolute axis of the virtual joystick.
#[derive(Clone, Copy, Debug, PartialEq, Eq, Structural)]
pub enum Axis {
    /// Left stick, horizontal (X).
    LJSH,
    /// Left stick, vertical (Y).
    LJSV,
    /// Left trigger (Z).
    TRGL,
    /// Right stick, horizontal (RX).
    RJSH,
    /// Right stick, vertical (RY).
    RJSV,
    /// Right trigger (RZ).
    TRGR,
    /// Directional pad, horizontal (HAT0X).
    HT0X,
    /// Directional pad, vertical (HAT0Y).
    HT0Y,
}

/// A button of the virtual joystick.
#[derive(Clone, Copy, Debug, PartialEq, Eq, Structural)]
pub enum Button {
    A,
    B,
    X,
    Y,
    Select,
    Start,
    ShoulderL,
    ShoulderR,
    ThumbL,
    ThumbR,
    Mode,
}

impl Axis {
    /// The evdev absolute axis code that the axis is written as.
    pub open spec fn code(self) -> u16 {
        match self {
            Axis::LJSH => ABS_X,
            Axis::LJSV => ABS_Y,
            Axis::TRGL => ABS_Z,
            Axis::RJSH => ABS_RX,
            Axis::RJSV => ABS_RY,
            Axis::TRGR => ABS_RZ,
            Axis::HT0X => ABS_HAT0X,
            Axis::HT0Y => ABS_HAT0Y,
        }
    }

    /// The evdev absolute axis code of this axis.
    pub fn to_evdev(&self) -> (code: u16)
        ensures
            code == self.code(),
    {
        match self {
            Axis::LJSH => ABS_X,
            Axis::LJSV => ABS_Y,
            Axis::TRGL => ABS_Z,
            Axis::RJSH => ABS_RX,
            Axis::RJSV => ABS_RY,
            Axis::TRGR => ABS_RZ,
            Axis::HT0X => ABS_HAT0X,
            Axis::HT0Y => ABS_HAT0Y,
        }
    }

    /// Every axis of the virtual joystick, in the order they are set up.
    pub open spec fn all() -> Seq<Axis> {
        seq![
            Axis::LJSH,
            Axis::LJSV,
            Axis::TRGL,
            Axis::RJSH,
            Axis::RJSV,
            Axis::TRGR,
            Axis::HT0X,
            Axis::HT0Y,
        ]
    }

    /// Every axis of the virtual joystick.
    pub fn all_axis() -> (axes: Vec<Axis>)
        ensures
            axes@ == Axis::all(),
    {
        let axes = vec![
            Axis::LJSH,
            Axis::LJSV,
            Axis::TRGL,
            Axis::RJSH,
            Axis::RJSV,
            Axis::TRGR,
            Axis::HT0X,
            Axis::HT0Y,
        ];
        assert(axes@ =~= Axis::all());
        axes
    }
}

impl Button {
    /// The evdev key code that the button is written as.
    pub open spec fn code(self) -> u16 {
        match self {
            Button::A => BTN_SOUTH,
            Button::B => BTN_EAST,
            Button::X => BTN_NORTH,
            Button::Y => BTN_WEST,
            Button::Select => BTN_SELECT,
            Button::Start => BTN_START,
            Button::ShoulderL => BTN_TL,
            Button::ShoulderR => BTN_TR,
            Button::ThumbL => BTN_THUMBL,
            Button::ThumbR => BTN_THUMBR,
            Button::Mode => BTN_MODE,
        }
    }

    /// The evdev key code of this button.
    pub fn to_evdev(&self) -> (code: u16)
        ensures
            code == self.code(),
    {
        match self {
            Button::A => BTN_SOUTH,
            Button::B => BTN_EAST,
            Button::X => BTN_NORTH,
            Button::Y => BTN_WEST,
            Button::Select => BTN_SELECT,
            Button::Start => BTN_START,
            Button::ShoulderL => BTN_TL,
            Button::ShoulderR => BTN_TR,
            Button::ThumbL => BTN_THUMBL,
            Button::ThumbR => BTN_THUMBR,
            Button::Mode => BTN_MODE,
        }
    }

    /// Every button of the virtual joystick, in the order they are set up.
    pub open spec fn all() -> Seq<Button> {
        seq![
            Button::A,
            Button::B,
            Button::X,
            Button::Y,
            Button::Select,
            Button::Start,
            Button::ShoulderL,
            Button::ShoulderR,
            Button::ThumbL,
            Button::ThumbR,
            Button::Mode,
        ]
    }

    /// Every button of the virtual joystick.
    pub fn all_buttons() -> (buttons: Vec<Button>)
        ensures
            buttons@ == Button::all(),
    {
        let buttons = vec![
            Button::A,
            Button::B,
            Button::X,
            Button::Y,
            Button::Select,
            Button::Start,
            Button::ShoulderL,
            Button::ShoulderR,
            Button::ThumbL,
            Button::ThumbR,
            Button::Mode,
        ];
        assert(buttons@ =~= Button::all());
        buttons
    }
}


/// Why the virtual joystick refused to write an event.
#[derive(Clone, Copy, Debug, PartialEq, Eq, Structural)]
pub enum JoystickError {
    /// An axis position outside `0..=100`.
    PositionOutOfRange,
}

/// The event that moves `axis` to `position`, a percentage in `0..=100`;
/// any other position is refused.
pub open spec fn spec_axis_event(axis: Axis, position: i32) -> Result<InputEvent, JoystickError> {
    if position < 0 || position > 100 {
        Err(JoystickError::PositionOutOfRange)
    } else {
        Ok(InputEvent { event_type: EV_ABS, code: axis.code(), value: position })
    }
}

/// The event that moves `axis` to `position`.  Positions outside
/// `0..=100` are refused with `PositionOutOfRange`.
pub fn axis_event(axis: Axis, position: i32) -> (r: Result<InputEvent, JoystickError>)
    ensures
        r == spec_axis_event(axis, position),
        r is Ok <==> 0 <= position <= 100,
        r matches Ok(e) ==> e.event_type == EV_ABS && e.code == axis.code() && e.value
            == position,
{
    if position < 0 || position > 100 {
        return Err(JoystickError::PositionOutOfRange);
    }
    Ok(InputEvent { event_type: EV_ABS, code: axis.to_evdev(), value: position })
}

/// The event that presses (value 1) or releases (value 0) `button`.
pub fn button_event(button: Button, is_pressed: bool) -> (e: InputEvent)
    ensures
        e == (InputEvent {
            event_type: EV_KEY,
            code: button.code(),
            value: if is_pressed { 1i32 } else { 0i32 },
        }),
{
    let value: i32 = if is_pressed { 1 } else { 0 };
    InputEvent { event_type: EV_KEY, code: button.to_evdev(), value }
}

/// The `SYN_REPORT` event that publishes the events written before it.
pub fn sync_event() -> (e: InputEvent)
    ensures
        e == (InputEvent { event_type: EV_SYN, code: SYN_REPORT, value: 0 }),
{
    InputEvent { event_type: EV_SYN, code: SYN_REPORT, value: 0 }
}

/// Everything a virtual joystick is created with: its name and identity, the
/// event kinds, keys and absolute axes it reports, and the range of every
/// axis.
pub struct DeviceSetup {
    pub name: String,
    pub bus_type: u16,
    pub vendor: u16,
    pub product: u16,
    pub version: u16,
    /// Event kinds enabled, in order.
    pub event_kinds: Vec<u16>,
    /// Key codes enabled, in order.
    pub key_codes: Vec<u16>,
    /// Absolute axis codes set up, in order; each gets the range below.
    pub abs_axes: Vec<u16>,
    pub abs_value: i32,
    pub abs_minimum: i32,
    pub abs_maximum: i32,
    pub abs_fuzz: i32,
    pub abs_flat: i32,
    pub abs_resolution: i32,
    pub ff_effects_max: u32,
}

/// The name a virtual joystick gets for a client: `VJoystick for <identifier>`.
pub open spec fn device_name(identifier: Seq<char>) -> Seq<char> {
    "VJoystick for "@ + identifier
}

impl DeviceSetup {
    /// What every virtual joystick shares: a virtual bus, vendor 69, product
    /// 420, version 7, absolute and key events, the trigger key followed by
    /// the given keys, and axes from -100 to 100 at resolution 50, with no
    /// force feedback.
    pub open spec fn describes(
        self,
        identifier: Seq<char>,
        keys: Seq<u16>,
        axes: Seq<u16>,
    ) -> bool {
        &&& self.name@ == device_name(identifier)
        &&& self.bus_type == BUS_VIRTUAL
        &&& self.vendor == 69
        &&& self.product == 420
        &&& self.version == 7
        &&& self.event_kinds@ == seq![EV_ABS, EV_KEY]
        &&& self.key_codes@ == seq![BTN_TRIGGER] + keys
        &&& self.abs_axes@ == axes
        &&& self.abs_value == 0
        &&& self.abs_minimum == -100
        &&& self.abs_maximum == 100
        &&& self.abs_fuzz == 0
        &&& self.abs_flat == 0
        &&& self.abs_resolution == 50
        &&& self.ff_effects_max == 0
    }

    /// The setup of a virtual joystick for `identifier` with the given keys
    /// and axes.
    pub fn new(identifier: &str, keys: &Vec<u16>, axes: Vec<u16>) -> (setup: DeviceSetup)
        ensures
            setup.describes(identifier@, keys@, axes@),
    {
        let mut name = String::from_str("VJoystick for ");
        name.append(identifier);
        let mut key_codes: Vec<u16> = Vec::new();
        key_codes.push(BTN_TRIGGER);
        let mut i: usize = 0;
        while i < keys.len()
            invariant
                i <= keys.len(),
                key_codes@ == seq![BTN_TRIGGER] + keys@.take(i as int),
            decreases keys.len() - i,
        {
            key_codes.push(keys[i]);
            i = i + 1;
            assert(key_codes@ =~= seq![BTN_TRIGGER] + keys@.take(i as int));
        }
        assert(keys@.take(keys.len() as int) =~= keys@);
        let mut event_kinds: Vec<u16> = Vec::new();
        event_kinds.push(EV_ABS);
        event_kinds.push(EV_KEY);
        assert(event_kinds@ =~= seq![EV_ABS, EV_KEY]);
        DeviceSetup {
            name,
            bus_type: BUS_VIRTUAL,
            vendor: 69,
            product: 420,
            version: 7,
            event_kinds,
            key_codes,
            abs_axes: axes,
            abs_value: 0,
            abs_minimum: -100,
            abs_maximum: 100,
            abs_fuzz: 0,
            abs_flat: 0,
            abs_resolution: 50,
            ff_effects_max: 0,
        }
    }
}

/// The key codes of the buttons in `buttons`, in order.
pub open spec fn button_codes(buttons: Seq<Button>) -> Seq<u16> {
    buttons.map_values(|b: Button| b.code())
}

/// The axis codes of the axes in `axes`, in order.
pub open spec fn axis_codes(axes: Seq<Axis>) -> Seq<u16> {
    axes.map_values(|a: Axis| a.code())
}

/// The codes of a list of buttons.
pub fn codes_of_buttons(buttons: &Vec<Button>) -> (codes: Vec<u16>)
    ensures
        codes@ == button_codes(buttons@),
{
    let mut codes: Vec<u16> = Vec::new();
    let mut i: usize = 0;
    while i < buttons.len()
        invariant
            i <= buttons.len(),
            codes@ == button_codes(buttons@.take(i as int)),
        decreases buttons.len() - i,
    {
        codes.push(buttons[i].to_evdev());
        i = i + 1;
        assert(codes@ =~= button_codes(buttons@.take(i as int)));
    }
    assert(buttons@.take(buttons.len() as int) =~= buttons@);
    codes
}

/// The codes of a list of axes.
pub fn codes_of_axes(axes: &Vec<Axis>) -> (codes: Vec<u16>)
    ensures
        codes@ == axis_codes(axes@),
{
    let mut codes: Vec<u16> = Vec::new();
    let mut i: usize = 0;
    while i < axes.len()
        invariant
            i <= axes.len(),
            codes@ == axis_codes(axes@.take(i as int)),
        decreases axes.len() - i,
    {
        codes.push(axes[i].to_evdev());
        i = i + 1;
        assert(codes@ =~= axis_codes(axes@.take(i as int)));
    }
    assert(axes@.take(axes.len() as int) =~= axes@);
    codes
}

/// The setup of the virtual joystick for a client: every button of
/// [`Button::all`] and every axis of [`Axis::all`].
pub fn device_setup(identifier: String) -> (setup: DeviceSetup)
    ensures
        setup.describes(identifier@, button_codes(Button::all()), axis_codes(Axis::all())),
{
    let buttons = Button::all_buttons();
    let keys = codes_of_buttons(&buttons);
    let axes = Axis::all_axis();
    let axis_list = codes_of_axes(&axes);
    DeviceSetup::new(identifier.as_str(), &keys, axis_list)
}

} // verus!
