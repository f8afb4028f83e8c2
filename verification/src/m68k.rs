//! Pieces of a Motorola 68000-family CPU core: operand sizes and CPU models,
//! the bus interface, the register file and condition codes, effective
//! address resolution, the shift, rotate, multiply and divide
//! instructions, and the integer side of the floating-point unit.

pub mod types;
pub mod memory;
pub mod cpu;
pub mod ea;
pub mod shift_rotate;
pub mod mul_div;
pub mod fpu;
