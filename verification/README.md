# riddle (reMarkable 1 device layer)

The verified device layer of Riddle on the reMarkable 1:

- `geometry`: the 1404 x 1872 portrait panel.
- `evdev`: `_IOR`/`EVIOCGABS` request numbers and the decoding of
  `struct input_event` records in the machine's layout (16 bytes on ARMv7,
  24 on 64-bit hosts), one `read` at a time.
- `pen`: the Wacom digitizer state machine (Rot270 axes, pressure scaling,
  one sample per `SYN_REPORT` after a change) and the choice of the pen's
  event device by name.
- `rm1fb`: the framebuffer stride and mapping length, and the planning of
  `MXCFB_SEND_UPDATE` requests (clipping, 8-pixel blocks, waveform, marker).
- `display`: the backend dispatch, as actions for the caller to perform.

`app/` holds the kernel I/O: `open`, `ioctl`, `read`, `mmap`.
