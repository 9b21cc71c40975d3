//! The machine: instruction codec, ALU, register file, memory and the core
//! that sequences them.

pub mod cpsr;
pub mod instr;
pub mod mem;
pub mod alu;
pub mod core_sys;
pub mod decoder;
pub mod mem_addr_calculator;
pub mod reg;
pub mod reg_file;
pub mod step_laws;
pub mod wire;

pub use core_sys::CoreSys;
