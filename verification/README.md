# nes_core

A Nintendo Entertainment System emulator core written in Verus, with a
small SDL front end.

- `src/` is the verified library: the 6502 CPU (an interpreter and a
  decoded-block cache), the picture unit, the pulse channels of the audio
  unit, the joypads, iNES cartridge parsing, twenty cartridge boards, and
  the byte-level save-state format.  Every function carries a contract
  that Verus proves; `src/bits.rs` holds the mask and shift facts that the
  rest uses.
- `tests/` runs the library on concrete ROM images and save states.
- `app/` is the desktop program: it reads the ROM and the input
  configuration, opens the window and the audio queue, turns the recorded
  channel levels into floating-point samples, and keeps battery RAM and
  save states on disk.

Run it as `nes <rom> [--audio-output <file.wav>]`.
