use vstd::prelude::*;
use crate::emulator::instr::Instr;

verus! {

/// The decode stage's unpacker.
#[derive(Clone, Copy)]
pub struct Decoder {}

impl Decoder {
    pub fn new() -> Decoder {
        Decoder {  }
    }

    /// Unpacks an instruction word into its fields.
    pub fn decode(self, v: u64) -> (r: Instr)
        ensures
            r == Instr::of_word(v),
            r.in_range(),
    {
        Instr::new(v)
    }
}

} // verus!
