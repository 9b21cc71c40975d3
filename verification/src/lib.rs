//! A small 64-bit ARM-like machine: a two-pass text assembler and an in-order
//! core that executes the byte image the assembler produces.

pub mod assembler;
pub mod emulator;
