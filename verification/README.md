# esp-rs-pad

Verified core of the firmware for a SparkFun button pad (sixteen RGB keys behind a
bit-banged SPI bus) wired to an ESP32, which reports key presses over BLE.

- `src/wire.rs`: the bit order of frames on the bus, through the `bit_vec` crate.
- `src/controller.rs`: `ButtonPadController`, the key colours and button states, and the
  step machine of one commit (lock, clock the colour frames out, clock the button frame in,
  unlock) that a pin driver runs action by action.
- `src/transaction.rs`: whole-commit properties of that machine.
- `src/keypad.rs`: which key is reported to the paired device, and the colours of pressed keys.
- `app/`: the ESP32 program: pins, delays, BLE, and the main loop.
