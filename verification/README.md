# net_joystick

Forwards a game controller over UDP to a virtual joystick on another Linux
machine.

- `src/` is the verified library: the event codes, the four-byte packet a
  client sends and how the server decodes it, the calibration and scaling of
  controller events, the server's registry of pending and connected clients,
  the description of the uinput device, the five-byte value stream protocol,
  and the laws that relate them (`src/laws.rs`).
- `app/` is the command line program around it: reading controllers with
  `evdev`, writing the virtual joystick with `input-linux`, the UDP sockets,
  the worker threads, and the floating point step that turns a scaled reading
  into a percentage.
- `tests/` runs the library on concrete values.
