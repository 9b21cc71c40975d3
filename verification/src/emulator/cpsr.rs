use vstd::prelude::*;

verus! {

/// The four condition flags: negative, zero, carry, overflow.
#[derive(Clone, Copy, Debug, PartialEq, Eq, Structural)]
pub struct Cpsr {
    pub n: bool,
    pub z: bool,
    pub c: bool,
    pub v: bool,
}


impl Cpsr {
    /// The flags packed into the low nibble of a byte, N at bit 3 down to V at bit 0.
    pub open spec fn nibble(self) -> u8 {
        ((if self.n { 8int } else { 0 }) + (if self.z { 4int } else { 0 })
            + (if self.c { 2int } else { 0 }) + (if self.v { 1int } else { 0 })) as u8
    }

    /// The flags held in the low nibble of `nzcv`; the high nibble is ignored.
    pub open spec fn of_nibble(nzcv: u8) -> Cpsr {
        Cpsr {
            n: (nzcv as int / 8) % 2 == 1,
            z: (nzcv as int / 4) % 2 == 1,
            c: (nzcv as int / 2) % 2 == 1,
            v: nzcv as int % 2 == 1,
        }
    }

    /// All flags clear.
    pub open spec fn clear() -> Cpsr {
        Cpsr { n: false, z: false, c: false, v: false }
    }

    /// Unpacks the flags from the low nibble of `nzcv`.
    pub fn from_u8(nzcv: u8) -> (r: Cpsr)
        ensures
            r == Cpsr::of_nibble(nzcv),
    {
        Cpsr {
            n: (nzcv / 8) % 2 == 1,
            z: (nzcv / 4) % 2 == 1,
            c: (nzcv / 2) % 2 == 1,
            v: nzcv % 2 == 1,
        }
    }

    /// Packs the flags into the low nibble of a byte.
    pub fn to_u8(&self) -> (r: u8)
        ensures
            r == self.nibble(),
            r < 16,
    {
        let mut r: u8 = 0;
        if self.n {
            r = r + 8;
        }
        if self.z {
            r = r + 4;
        }
        if self.c {
            r = r + 2;
        }
        if self.v {
            r = r + 1;
        }
        r
    }

    /// Packing the flags and unpacking the byte gives the flags back.
    pub proof fn lemma_nibble_round_trip(self)
        ensures
            Cpsr::of_nibble(self.nibble()) == self,
            self.nibble() < 16,
    {
    }

    /// Unpacking a nibble and packing the flags gives the nibble back.
    pub proof fn lemma_of_nibble_round_trip(nzcv: u8)
        requires
            nzcv < 16,
        ensures
            Cpsr::of_nibble(nzcv).nibble() == nzcv,
    {
    }
}

} // verus!
