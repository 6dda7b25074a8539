//! The value stream protocol: five-byte packets
//! `[exit, _, positive, high, low]` where an exit byte of 6 ends the
//! client's worker, and otherwise `high` and `low` are a big-endian
//! magnitude that is negative when `positive` is 0.  Its virtual joystick
//! has the six analogue axes and a button set with the directional pad as
//! buttons.

use vstd::prelude::*;
use std::sync::mpsc::{Receiver, Sender};
use crate::events::{
    ABS_RX, ABS_RY, ABS_RZ, ABS_X, ABS_Y, ABS_Z, BTN_DPAD_DOWN, BTN_DPAD_LEFT, BTN_DPAD_RIGHT,
    BTN_DPAD_UP, BTN_EAST, BTN_NORTH, BTN_SOUTH, BTN_THUMBL, BTN_THUMBR, BTN_TL, BTN_TR,
    BTN_WEST,
};
use crate::server::{
    distinct_names, entry_index, entry_map, entry_names, lemma_entry_map_at, lemma_entry_map_dom,
    lemma_entry_map_push, lemma_entry_map_remove,
};
use crate::vjoystick::DeviceSetup;

verus! {

#[verifier::external_type_specification]
#[verifier::external_body]
#[verifier::reject_recursive_types(T)]
pub struct ExSender<T>(Sender<T>);

#[verifier::external_type_specification]
#[verifier::external_body]
#[verifier::reject_recursive_types(T)]
pub struct ExReceiver<T>(Receiver<T>);

/// A button of the pad-button virtual joystick.
#[derive(Clone, Copy, Debug, PartialEq, Eq, Structural)]
pub enum Button {
    A,
    B,
    X,
    Y,
    ShoulderLEFT,
    ShoulderRIGHT,
    JsLEFT,
    JsRIGHT,
    UP,
    DOWN,
    LEFT,
    RIGHT,
}

impl Button {
    /// The evdev key code that the button is written as.
    pub open spec fn code(self) -> u16 {
        match self {
            Button::A => BTN_SOUTH,
            Button::B => BTN_EAST,
            Button::X => BTN_NORTH,
            Button::Y => BTN_WEST,
            Button::ShoulderLEFT => BTN_TL,
            Button::ShoulderRIGHT => BTN_TR,
            Button::JsLEFT => BTN_THUMBL,
            Button::JsRIGHT => BTN_THUMBR,
            Button::UP => BTN_DPAD_UP,
            Button::DOWN => BTN_DPAD_DOWN,
            Button::LEFT => BTN_DPAD_LEFT,
            Button::RIGHT => BTN_DPAD_RIGHT,
        }
    }

    /// The evdev key code of this button.
    pub fn to_evdev(&self) -> (code: u16)
        ensures
            code == self.code(),
    {
        match self {
            Button::A => BTN_SOUTH,
            Button::B => BTN_EAST,
            Button::X => BTN_NORTH,
            Button::Y => BTN_WEST,
            Button::ShoulderLEFT => BTN_TL,
            Button::ShoulderRIGHT => BTN_TR,
            Button::JsLEFT => BTN_THUMBL,
            Button::JsRIGHT => BTN_THUMBR,
            Button::UP => BTN_DPAD_UP,
            Button::DOWN => BTN_DPAD_DOWN,
            Button::LEFT => BTN_DPAD_LEFT,
            Button::RIGHT => BTN_DPAD_RIGHT,
        }
    }

    /// Every button, in the order they are set up.
    pub open spec fn all() -> Seq<Button> {
        seq![
            Button::A,
            Button::B,
            Button::X,
            Button::Y,
            Button::ShoulderLEFT,
            Button::ShoulderRIGHT,
            Button::JsLEFT,
            Button::JsRIGHT,
            Button::UP,
            Button::DOWN,
            Button::LEFT,
            Button::RIGHT,
        ]
    }

    /// Every button of the pad-button virtual joystick.
    pub fn all_buttons() -> (buttons: Vec<Button>)
        ensures
            buttons@ == Button::all(),
    {
        let buttons = vec![
            Button::A,
            Button::B,
            Button::X,
            Button::Y,
            Button::ShoulderLEFT,
            Button::ShoulderRIGHT,
            Button::JsLEFT,
            Button::JsRIGHT,
            Button::UP,
            Button::DOWN,
            Button::LEFT,
            Button::RIGHT,
        ];
        assert(buttons@ =~= Button::all());
        buttons
    }
}

/// An analogue axis of the pad-button virtual joystick.
#[derive(Clone, Copy, Debug, PartialEq, Eq, Structural)]
pub enum Axis {
    /// Left stick, horizontal (X).
    LJSH,
    /// Left stick, vertical (Y).
    LJSV,
    /// Left trigger (Z).
    TRGL,
    /// Right stick, horizontal (RX).
    RJSH,
    /// Right stick, vertical (RY).
    RJSV,
    /// Right trigger (RZ).
    TRGR,
}

impl Axis {
    /// The evdev absolute axis code that the axis is written as.
    pub open spec fn code(self) -> u16 {
        match self {
            Axis::LJSH => ABS_X,
            Axis::LJSV => ABS_Y,
            Axis::TRGL => ABS_Z,
            Axis::RJSH => ABS_RX,
            Axis::RJSV => ABS_RY,
            Axis::TRGR => ABS_RZ,
        }
    }

    /// The evdev absolute axis code of this axis.
    pub fn to_evdev(&self) -> (code: u16)
        ensures
            code == self.code(),
    {
        match self {
            Axis::LJSH => ABS_X,
            Axis::LJSV => ABS_Y,
            Axis::TRGL => ABS_Z,
            Axis::RJSH => ABS_RX,
            Axis::RJSV => ABS_RY,
            Axis::TRGR => ABS_RZ,
        }
    }

    /// Every axis, in the order they are set up.
    pub open spec fn all() -> Seq<Axis> {
        seq![Axis::LJSH, Axis::LJSV, Axis::TRGL, Axis::RJSH, Axis::RJSV, Axis::TRGR]
    }

    /// Every axis of the pad-button virtual joystick.
    pub fn all_axis() -> (axes: Vec<Axis>)
        ensures
            axes@ == Axis::all(),
    {
        let axes = vec![Axis::LJSH, Axis::LJSV, Axis::TRGL, Axis::RJSH, Axis::RJSV, Axis::TRGR];
        assert(axes@ =~= Axis::all());
        axes
    }
}

/// The key codes of `buttons`, in order.
pub open spec fn button_codes(buttons: Seq<Button>) -> Seq<u16> {
    buttons.map_values(|b: Button| b.code())
}

/// The axis codes of `axes`, in order.
pub open spec fn axis_codes(axes: Seq<Axis>) -> Seq<u16> {
    axes.map_values(|a: Axis| a.code())
}

/// The setup of the pad-button virtual joystick for a client: every button of
/// [`Button::all`] and every axis of [`Axis::all`].
pub fn device_setup(identifier: String) -> (setup: DeviceSetup)
    ensures
        setup.describes(identifier@, button_codes(Button::all()), axis_codes(Axis::all())),
{
    let buttons = Button::all_buttons();
    let mut keys: Vec<u16> = Vec::new();
    let mut i: usize = 0;
    while i < buttons.len()
        invariant
            i <= buttons.len(),
            buttons@ == Button::all(),
            keys@ == button_codes(buttons@.take(i as int)),
        decreases buttons.len() - i,
    {
        keys.push(buttons[i].to_evdev());
        i = i + 1;
        assert(keys@ =~= button_codes(buttons@.take(i as int)));
    }
    assert(buttons@.take(buttons.len() as int) =~= buttons@);
    let axes = Axis::all_axis();
    let mut codes: Vec<u16> = Vec::new();
    let mut j: usize = 0;
    while j < axes.len()
        invariant
            j <= axes.len(),
            axes@ == Axis::all(),
            codes@ == axis_codes(axes@.take(j as int)),
        decreases axes.len() - j,
    {
        codes.push(axes[j].to_evdev());
        j = j + 1;
        assert(codes@ =~= axis_codes(axes@.take(j as int)));
    }
    assert(axes@.take(axes.len() as int) =~= axes@);
    DeviceSetup::new(identifier.as_str(), &keys, codes)
}

/// The exit code: a packet whose first byte is 6 ends the client's worker.
pub const EXIT_CODE: u8 = 6;

/// What a worker makes of a five-byte packet.
#[derive(Clone, Copy, Debug, PartialEq, Eq, Structural)]
pub enum Message {
    /// The worker stops.
    Exit,
    /// A value: `magnitude`, negative when `negative` is set.
    Value { negative: bool, magnitude: u16 },
}

/// The message a five-byte packet carries.
pub open spec fn spec_decode_packet(data: [u8; 5]) -> Message {
    if data[0] == EXIT_CODE {
        Message::Exit
    } else {
        Message::Value { negative: data[2] == 0, magnitude: (data[3] * 256 + data[4]) as u16 }
    }
}

/// Decodes a five-byte packet: the exit code, or a big-endian magnitude in
/// bytes 3 and 4 that is negative when byte 2 is 0.
pub fn decode_packet(data: [u8; 5]) -> (m: Message)
    ensures
        m == spec_decode_packet(data),
        data[0] == EXIT_CODE ==> m == Message::Exit,
        data[0] != EXIT_CODE ==> (m matches Message::Value { negative, magnitude } && negative
            == (data[2] == 0) && magnitude as int == data[3] as int * 256 + data[4] as int),
{
    if data[0] == EXIT_CODE {
        return Message::Exit;
    }
    let high: u16 = data[3] as u16;
    let low: u16 = data[4] as u16;
    Message::Value { negative: data[2] == 0, magnitude: high * 256 + low }
}

/// `std::sync::mpsc::channel`: a new unbounded channel.  Its two ends are
/// opaque here; nothing is claimed of them.
#[verifier::external_body]
fn new_channel() -> (Sender<[u8; 5]>, Receiver<[u8; 5]>) {
    std::sync::mpsc::channel()
}

/// The value stream server: every client address with the sending
/// end of its worker's channel.
pub struct Server {
    clients: Vec<(String, Sender<[u8; 5]>)>,
}

impl Server {
    /// No address is stored twice.
    pub closed spec fn wf(self) -> bool {
        distinct_names(entry_names(self.clients@))
    }

    /// The clients, each with the sending end of its worker's channel.
    pub closed spec fn clients(self) -> Map<Seq<char>, Sender<[u8; 5]>> {
        entry_map(self.clients@)
    }

    /// A server with no client.
    pub fn new() -> (s: Server)
        ensures
            s.wf(),
            s.clients() == Map::<Seq<char>, Sender<[u8; 5]>>::empty(),
    {
        Server { clients: Vec::new() }
    }

    /// Registers `client_information` if it is new.  An address seen for the
    /// first time becomes a client with a new channel, and the receiving end
    /// of that channel is returned for its worker; the channels of all other
    /// clients stay as they were.  The packet itself then goes on the
    /// client's sender (see [`Server::sender_of`]).
    pub fn parse_data(&mut self, client_information: String) -> (r: Option<Receiver<[u8; 5]>>)
        requires
            old(self).wf(),
        ensures
            final(self).wf(),
            final(self).clients().dom() == old(self).clients().dom().insert(
                client_information@,
            ),
            forall|k: Seq<char>|
                old(self).clients().contains_key(k) ==> #[trigger] final(self).clients()[k]
                    == old(self).clients()[k],
            r is Some <==> !old(self).clients().contains_key(client_information@),
    {
        proof {
            lemma_entry_map_dom(self.clients@);
        }
        match entry_index(&self.clients, &client_information) {
            Some(_) => None,
            None => {
                let (sender, receiver) = new_channel();
                let ghost before = self.clients@;
                proof {
                    lemma_entry_map_push(before, (client_information, sender));
                }
                self.clients.push((client_information, sender));
                Some(receiver)
            },
        }
    }

    /// The sender of the worker of `client_information`, if it is a client.
    pub fn sender_of(&self, client_information: &String) -> (s: Option<&Sender<[u8; 5]>>)
        requires
            self.wf(),
        ensures
            s matches Some(x) ==> self.clients().contains_key(client_information@) && *x
                == self.clients()[client_information@],
            s is None ==> !self.clients().contains_key(client_information@),
    {
        proof {
            lemma_entry_map_dom(self.clients@);
        }
        match entry_index(&self.clients, client_information) {
            Some(i) => {
                proof {
                    lemma_entry_map_at(self.clients@, i as int);
                }
                Some(&self.clients[i].1)
            },
            None => None,
        }
    }

    /// Removes `client_information`, and gives back the sender of its worker
    /// with the exit packet to send on it, so that the worker stops; `None`
    /// when it was not a client.
    pub fn remove_client(&mut self, client_information: String) -> (r: Option<
        (Sender<[u8; 5]>, [u8; 5]),
    >)
        requires
            old(self).wf(),
        ensures
            final(self).wf(),
            final(self).clients() == old(self).clients().remove(client_information@),
            r is Some <==> old(self).clients().contains_key(client_information@),
            r matches Some(p) ==> p.0 == old(self).clients()[client_information@] && p.1 == [
                EXIT_CODE,
                EXIT_CODE,
                EXIT_CODE,
                EXIT_CODE,
                EXIT_CODE,
            ],
    {
        proof {
            lemma_entry_map_dom(self.clients@);
        }
        match entry_index(&self.clients, &client_information) {
            Some(i) => {
                let ghost before = self.clients@;
                proof {
                    lemma_entry_map_remove(before, i as int);
                    lemma_entry_map_at(before, i as int);
                }
                let (_name, sender) = self.clients.remove(i);
                Some((sender, [EXIT_CODE, EXIT_CODE, EXIT_CODE, EXIT_CODE, EXIT_CODE]))
            },
            None => {
                assert(self.clients() =~= self.clients().remove(client_information@));
                None
            },
        }
    }
}

} // verus!
