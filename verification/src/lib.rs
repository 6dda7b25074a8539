//! NetJoystick: forwarding a game controller over UDP to a virtual
//! joystick on another machine.
//!
//! The client reads input events from a local controller, scales them with a
//! per-device calibration and sends each one as a four-byte packet.  The
//! server keeps a registry of clients, and turns every packet of an accepted
//! client into an event written to a virtual uinput joystick.
//!
//! Modules:
//! - [`events`]: Linux input event codes and the plain event record.
//! - [`vjoystick`]: the virtual joystick's axes, buttons and the events and
//!   device description it is driven with.
//! - [`packet`]: decoding of the four-byte packets on the server.
//! - [`client`]: calibration, event scaling and packet encoding on the client.
//! - [`server`]: the registry of pending and connected clients.
//! - [`value_stream`]: the five-byte protocol that streams signed values
//!   to a server that prints them, and the joystick with pad buttons.
//! - [`laws`]: properties that span several of the functions above.

pub mod events;
pub mod vjoystick;
pub mod packet;
pub mod client;
pub mod server;
pub mod value_stream;
pub mod laws;
