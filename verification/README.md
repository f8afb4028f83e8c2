# rumiga

The core of an Amiga emulator as a verified library: the custom chipset
(copper, blitter, playfield, sprites, interrupts and DMA control), the two
CIAs, the floppy controller with MFM encoding, the Gayle IDE drive, an
A2065-compatible Ethernet card, the memory map, pieces of a 68000-family
CPU core (effective addresses, shifts and rotates, multiply and divide, the
integer side of the FPU: operand reads and stores, extended-to-double
conversion, control registers, FMOVEM), one scanline of the machine around the CPU
(chip work, floppy, keyboard, frame housekeeping) in the emulator's order,
input recordings and state digests, and the REST API's data types. Every function in `src/` carries a contract that
Verus proves.

- `src/` — the library, one module per component.
- `tests/` — tests of the library on concrete values.
- `app/` — the parts around it that are not verified: the serde forms of
  the API types, the audio output filter and the FPU's arithmetic
  (floating point), error display,
  and the memory map shared with a blitter thread.
