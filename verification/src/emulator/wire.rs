use vstd::prelude::*;

verus! {

/// A 64-bit value that one pipeline stage hands to the next.
#[derive(Clone, Copy, Debug)]
pub struct Wire {
    data: u64,
}

impl View for Wire {
    type V = u64;

    closed spec fn view(&self) -> u64 {
        self.data
    }
}

impl Wire {
    pub fn get(&self) -> (v: u64)
        ensures
            v == self@,
    {
        self.data
    }

    pub fn set(self, v: u64) -> (r: Wire)
        ensures
            r@ == v,
    {
        Wire { data: v }
    }

    pub fn new() -> (r: Wire)
        ensures
            r@ == 0,
    {
        Wire { data: 0 }
    }
}

/// A one-bit value that one pipeline stage hands to the next.
#[derive(Clone, Copy, Debug)]
pub struct SingleWire {
    data: bool,
}

impl View for SingleWire {
    type V = bool;

    closed spec fn view(&self) -> bool {
        self.data
    }
}

impl SingleWire {
    pub fn get(&self) -> (v: bool)
        ensures
            v == self@,
    {
        self.data
    }

    pub fn set(self, v: bool) -> (r: SingleWire)
        ensures
            r@ == v,
    {
        SingleWire { data: v }
    }

    pub fn new() -> (r: SingleWire)
        ensures
            r@ == false,
    {
        SingleWire { data: false }
    }
}

} // verus!
