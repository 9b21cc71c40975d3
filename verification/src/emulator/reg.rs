use vstd::prelude::*;

verus! {

/// One 64-bit register.
#[derive(Debug)]
pub struct Reg {
    data: u64,
}

impl View for Reg {
    type V = u64;

    closed spec fn view(&self) -> u64 {
        self.data
    }
}

impl Reg {
    pub fn get(&self) -> (v: u64)
        ensures
            v == self@,
    {
        self.data
    }

    pub fn set(self, v: u64) -> (r: Reg)
        ensures
            r@ == v,
    {
        Reg { data: v }
    }

    pub fn new() -> (r: Reg)
        ensures
            r@ == 0,
    {
        Reg { data: 0 }
    }
}

} // verus!
