use vstd::prelude::*;
use crate::emulator::alu::word_of;

verus! {

/// The address of a memory access: `base + offset * scaler`, with 64-bit wrap.
pub open spec fn effective_address(base: u64, offset: u64, scaler: u64) -> u64 {
    word_of(base + offset * scaler)
}

/// Computes the address of a memory access.
pub struct MemAddressCalculator {}

impl MemAddressCalculator {
    pub fn new() -> MemAddressCalculator {
        MemAddressCalculator {  }
    }

    /// The address `base + offset * scaler`, with 64-bit wrap.
    pub fn calculate(&self, base: u64, offset: u64, scaler: u64) -> (addr: u64)
        ensures
            addr == effective_address(base, offset, scaler),
    {
        let scaled = offset.wrapping_mul(scaler);
        proof {
            let m = 0x1_0000_0000_0000_0000int;
            let p = offset as int * scaler as int;
            assert(p >= 0) by (nonlinear_arith)
                requires
                    p == offset as int * scaler as int,
            ;
            assert(scaled as int == p % m);
            vstd::arithmetic::div_mod::lemma_add_mod_noop(base as int, p, m);
            assert((base as int % m) == base as int);
            assert((base + scaled) % m == (base + p) % m);
        }
        base.wrapping_add(scaled)
    }
}

} // verus!
