//! Verified core of an Amiga emulator: the custom chipset, its DMA engines,
//! the floppy and IDE controllers, the A2065 network card shell, deterministic
//! input replay, and the shared REST API types.

pub mod custom;
pub mod events;
pub mod playfield;
pub mod video;
pub mod digest;
pub mod network;
pub mod chipset;
pub mod cia;
pub mod copper;
pub mod sprites;
pub mod blitter;
pub mod floppy;
pub mod ide;
pub mod replay;
pub mod a2065;
pub mod api;
pub mod m68k;
pub mod memory;
pub mod capture;
pub mod audio;
pub mod registers;
pub mod emulator;
pub mod scanline;
pub mod machine;
