# matrix_protocol

A verified library for a 16x16 WS2812 LED matrix driven by a Raspberry Pi
Pico W and fed frames and animations by a desktop studio app over TCP.

- `src/` — the library, verified with Verus:
  - `geometry`: the zig-zag wiring (`xy_to_index`) and row-major to chain order;
  - `color`: colours, gamma correction, channel sums, HSV colours;
  - `protocol`: the command set and its byte encoding (`Command::encode` / `Command::decode`);
  - `wire`: the length-prefixed framing used on the TCP stream;
  - `studio`: what the studio app sends for a set of frames;
  - `control`: how the device applies received commands (animation upload);
  - `matrix`: the picture held for the LEDs;
  - `animation`, `player`: stored, static and procedural animations and the display loop's decisions.
- `app/` — the programs around it: the Tauri studio app and, for the RP2040, the firmware's hardware,
  network and floating-point parts.
- `tests/` — tests of the library on concrete values.

## Differences from the sources it was built from

- The newer firmware passes each picture through `apply_brightness_limited`, which its shared
  protocol crate never defines. Brightness is therefore stored (`DeviceStorage::brightness_percent`)
  but not applied. In its place the firmware skips any frame whose estimated draw exceeds
  `MAX_CURRENT_MA` (`color::exceeds_current_limit`), as the older firmware's `show` did.
- The studio's `set_ma` and the firmware's `SetAmper` arm are dropped: the shared `Command` enum has
  no `SetAmper` variant and no wire tag for it, so nothing sets `max_amper`.
- The older firmware program is merged into the newer one: its pixel setters, current estimate
  and frame skip are the library's and app's; its own `main` and `Wifi` struct are not kept.
- As in the sources, the connection handler stores uploaded animations in its own state, which
  the display loop (playing `DeviceStorage::custom_animation`) does not read.
