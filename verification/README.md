# solcatears

Servo-driven ears that follow the wearer's gaze. A forwarder on the headset
reads the gaze from SteamVR and sends it over USB as lines of text; a controller
on an ESP32-S3 reads the lines and drives four servos.

## The line protocol

One line for each gaze sample, about a thousand in a second:

```
LLLL,LLLL,RRRR,RRRR\n
```

Each field is a four-digit integer from 0 to 1024, filled up with zeros, with 512
straight ahead: the x and y components of the left and of the right gaze vector.

## Layout

- `src/` is the library, verified with Verus: the protocol, the forwarder's
  decisions (`session`, `host`, `usb`) and the controller's (`controller`,
  `servo`, `sweep`, `line`, `message`, `clock`, `text`). `laws` states what holds
  of the controller over several bytes and ticks, and of both ends together.
- `app/` is what surrounds it: `main.rs` is the forwarder, `firmware.rs` the
  controller's loop, and `firmware_esp32s3.rs` sets up the board for it. The
  library uses `String` and `Vec` and links `std`, which the bare ESP32-S3 target
  does not have: the board's program links only on a toolchain that provides it.
- `tests/` runs the library on concrete values.
