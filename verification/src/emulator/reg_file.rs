use vstd::prelude::*;
use crate::emulator::alu::word_of;
use crate::emulator::cpsr::Cpsr;
use crate::emulator::reg::Reg;

verus! {

/// The fifteen condition codes of an instruction.
#[derive(Clone, Copy, Debug, PartialEq, Eq, Structural)]
pub enum ConditionCode {
    /// Equal.
    EQ,
    /// Not equal.
    NE,
    /// Unsigned higher or same (carry set).
    HS,
    /// Unsigned lower (carry clear).
    LO,
    /// Negative.
    MI,
    /// Positive or zero.
    PL,
    /// Signed overflow.
    VS,
    /// No signed overflow.
    VC,
    /// Unsigned higher.
    HI,
    /// Unsigned lower or same.
    LS,
    /// Signed greater than or equal.
    GE,
    /// Signed less than.
    LT,
    /// Signed greater than.
    GT,
    /// Signed less than or equal.
    LE,
    /// Always.
    AL,
}

impl ConditionCode {
    /// The condition with the given 4-bit code, if there is one.
    pub open spec fn of_code(code: u8) -> Option<ConditionCode> {
        if code == 0 {
            Some(ConditionCode::EQ)
        } else if code == 1 {
            Some(ConditionCode::NE)
        } else if code == 2 {
            Some(ConditionCode::HS)
        } else if code == 3 {
            Some(ConditionCode::LO)
        } else if code == 4 {
            Some(ConditionCode::MI)
        } else if code == 5 {
            Some(ConditionCode::PL)
        } else if code == 6 {
            Some(ConditionCode::VS)
        } else if code == 7 {
            Some(ConditionCode::VC)
        } else if code == 8 {
            Some(ConditionCode::HI)
        } else if code == 9 {
            Some(ConditionCode::LS)
        } else if code == 10 {
            Some(ConditionCode::GE)
        } else if code == 11 {
            Some(ConditionCode::LT)
        } else if code == 12 {
            Some(ConditionCode::GT)
        } else if code == 13 {
            Some(ConditionCode::LE)
        } else if code == 14 {
            Some(ConditionCode::AL)
        } else {
            None
        }
    }

    /// Whether the condition holds under the given flags.
    pub open spec fn holds(self, f: Cpsr) -> bool {
        match self {
            ConditionCode::EQ => f.z,
            ConditionCode::NE => !f.z,
            ConditionCode::HS => f.c,
            ConditionCode::LO => !f.c,
            ConditionCode::MI => f.n,
            ConditionCode::PL => !f.n,
            ConditionCode::VS => f.v,
            ConditionCode::VC => !f.v,
            ConditionCode::HI => f.c && !f.z,
            ConditionCode::LS => !f.c || f.z,
            ConditionCode::GE => f.n == f.v,
            ConditionCode::LT => f.n != f.v,
            ConditionCode::GT => !f.z && (f.n == f.v),
            ConditionCode::LE => f.z || (f.n != f.v),
            ConditionCode::AL => true,
        }
    }

    /// Decodes a condition code; `None` if and only if the code is 15 or more.
    pub fn from_u8(nzcv: u8) -> (r: Option<ConditionCode>)
        ensures
            r == ConditionCode::of_code(nzcv),
            r is Some <==> nzcv < 15,
    {
        if nzcv == 0 {
            Some(ConditionCode::EQ)
        } else if nzcv == 1 {
            Some(ConditionCode::NE)
        } else if nzcv == 2 {
            Some(ConditionCode::HS)
        } else if nzcv == 3 {
            Some(ConditionCode::LO)
        } else if nzcv == 4 {
            Some(ConditionCode::MI)
        } else if nzcv == 5 {
            Some(ConditionCode::PL)
        } else if nzcv == 6 {
            Some(ConditionCode::VS)
        } else if nzcv == 7 {
            Some(ConditionCode::VC)
        } else if nzcv == 8 {
            Some(ConditionCode::HI)
        } else if nzcv == 9 {
            Some(ConditionCode::LS)
        } else if nzcv == 10 {
            Some(ConditionCode::GE)
        } else if nzcv == 11 {
            Some(ConditionCode::LT)
        } else if nzcv == 12 {
            Some(ConditionCode::GT)
        } else if nzcv == 13 {
            Some(ConditionCode::LE)
        } else if nzcv == 14 {
            Some(ConditionCode::AL)
        } else {
            None
        }
    }
}

/// Whether an instruction with condition code `cond_code` commits under the
/// flags `f`; `None` if the code names no condition.
pub open spec fn condition_holds(f: Cpsr, cond_code: u64) -> Option<bool> {
    if cond_code < 15 {
        Some(ConditionCode::of_code(cond_code as u8)->0.holds(f))
    } else {
        None
    }
}

/// The number of registers.
pub const REG_NUMBER: usize = 16;

/// The index of the program counter.
pub const PC: usize = 15;

/// The index of the link register.
pub const LR: usize = 14;

/// The index of the stack pointer.
pub const SP: usize = 13;

/// What a register file holds: sixteen words and the flags.
pub ghost struct RegState {
    pub regs: Seq<u64>,
    pub cpsr: Cpsr,
}

impl RegState {
    /// The state with register `i` set to `val`.
    pub open spec fn with_reg(self, i: int, val: u64) -> RegState {
        RegState { regs: self.regs.update(i, val), cpsr: self.cpsr }
    }
}

/// Sixteen registers (r13 is `sp`, r14 is `lr`, r15 is `pc`) and the flags.
#[derive(Debug)]
pub struct RegFile {
    regs: Vec<Reg>,
    cpsr: Cpsr,
}

impl View for RegFile {
    type V = RegState;

    closed spec fn view(&self) -> RegState {
        RegState { regs: Seq::new(self.regs@.len(), |i: int| self.regs@[i]@), cpsr: self.cpsr }
    }
}

impl RegFile {
    /// The file holds exactly sixteen registers.
    pub open spec fn wf(&self) -> bool {
        self@.regs.len() == 16
    }

    /// A file of sixteen zero registers with all flags clear.
    pub fn new() -> (r: RegFile)
        ensures
            r.wf(),
            r@.cpsr == Cpsr::clear(),
            forall|i: int| 0 <= i < 16 ==> r@.regs[i] == 0,
    {
        let mut regs: Vec<Reg> = Vec::new();
        let mut i: usize = 0;
        while i < REG_NUMBER
            invariant
                i <= 16,
                regs@.len() == i,
                forall|j: int| 0 <= j < i ==> regs@[j]@ == 0,
            decreases 16 - i,
        {
            regs.push(Reg::new());
            i = i + 1;
        }
        RegFile { regs, cpsr: Cpsr { n: false, z: false, c: false, v: false } }
    }

    /// The value of register `reg_num`.
    pub fn get(&self, reg_num: u64) -> (v: u64)
        requires
            self.wf(),
            reg_num < 16,
        ensures
            v == self@.regs[reg_num as int],
    {
        self.regs[reg_num as usize].get()
    }

    /// The operand `reg_num` names: itself if `imm`, else the register of that index.
    pub fn get_imm(&self, reg_num: u64, imm: bool) -> (v: u64)
        requires
            self.wf(),
            !imm ==> reg_num < 16,
        ensures
            v == if imm { reg_num } else { self@.regs[reg_num as int] },
    {
        if imm {
            reg_num
        } else {
            self.regs[reg_num as usize].get()
        }
    }

    /// Sets register `reg_num` to `val`.
    pub fn set(self, reg_num: u64, val: u64) -> (r: RegFile)
        requires
            self.wf(),
            reg_num < 16,
        ensures
            r.wf(),
            r@ == self@.with_reg(reg_num as int, val),
    {
        let mut regs = self.regs;
        regs.set(reg_num as usize, Reg::new().set(val));
        let r = RegFile { regs, cpsr: self.cpsr };
        assert(r@.regs =~= self@.regs.update(reg_num as int, val));
        r
    }

    /// Whether the condition `cond_code` holds under the current flags;
    /// `None` if and only if the code is 15 or more.
    pub fn get_cond(&self, cond_code: u64) -> (r: Option<bool>)
        ensures
            r == condition_holds(self@.cpsr, cond_code),
    {
        if cond_code >= 15 {
            return None;
        }
        let con = match ConditionCode::from_u8(cond_code as u8) {
            Some(c) => c,
            None => { return None; },
        };
        Some(
            match con {
                ConditionCode::EQ => self.cpsr.z,
                ConditionCode::NE => !self.cpsr.z,
                ConditionCode::HS => self.cpsr.c,
                ConditionCode::LO => !self.cpsr.c,
                ConditionCode::MI => self.cpsr.n,
                ConditionCode::PL => !self.cpsr.n,
                ConditionCode::VS => self.cpsr.v,
                ConditionCode::VC => !self.cpsr.v,
                ConditionCode::HI => self.cpsr.c && !self.cpsr.z,
                ConditionCode::LS => !self.cpsr.c || self.cpsr.z,
                ConditionCode::GE => self.cpsr.n == self.cpsr.v,
                ConditionCode::LT => self.cpsr.n != self.cpsr.v,
                ConditionCode::GT => !self.cpsr.z && (self.cpsr.n == self.cpsr.v),
                ConditionCode::LE => self.cpsr.z || (self.cpsr.n != self.cpsr.v),
                ConditionCode::AL => true,
            },
        )
    }

    /// Sets the flags to those in the low nibble of `nzcv`.
    pub fn set_cpsr(self, nzcv: u8) -> (r: RegFile)
        ensures
            r@ == (RegState { regs: self@.regs, cpsr: Cpsr::of_nibble(nzcv) }),
            self.wf() ==> r.wf(),
    {
        let r = RegFile { regs: self.regs, cpsr: Cpsr::from_u8(nzcv) };
        assert(r@.regs =~= self@.regs);
        r
    }

    /// The program counter.
    pub fn get_pc(&self) -> (v: u64)
        requires
            self.wf(),
        ensures
            v == self@.regs[15],
    {
        self.regs[PC].get()
    }

    /// Copies `pc` into `lr`.
    pub fn set_lr(self) -> (r: RegFile)
        requires
            self.wf(),
        ensures
            r.wf(),
            r@ == self@.with_reg(14, self@.regs[15]),
    {
        let pc = self.get_pc();
        self.set(LR as u64, pc)
    }

    /// Moves `sp` down by one word, with wrap.
    pub fn push_stack(self) -> (r: RegFile)
        requires
            self.wf(),
        ensures
            r.wf(),
            r@ == self@.with_reg(13, word_of(self@.regs[13] - 8)),
    {
        let sp = self.get(SP as u64).wrapping_sub(8);
        self.set(SP as u64, sp)
    }

    /// Moves `sp` up by one word, with wrap.
    pub fn pop_stack(self) -> (r: RegFile)
        requires
            self.wf(),
        ensures
            r.wf(),
            r@ == self@.with_reg(13, word_of(self@.regs[13] + 8)),
    {
        let sp = self.get(SP as u64).wrapping_add(8);
        self.set(SP as u64, sp)
    }

    /// Moves `pc` to the next instruction word, with wrap.
    pub fn next_pc(self) -> (r: RegFile)
        requires
            self.wf(),
        ensures
            r.wf(),
            r@ == self@.with_reg(15, word_of(self@.regs[15] + 8)),
    {
        let next_pc = self.get_pc().wrapping_add(8);
        self.set(PC as u64, next_pc)
    }

    /// The sixteen registers, in order.
    pub fn dump_common(&self) -> (v: Vec<u64>)
        ensures
            v@ == self@.regs,
    {
        let mut v: Vec<u64> = Vec::new();
        let mut i: usize = 0;
        while i < self.regs.len()
            invariant
                i <= self.regs@.len(),
                v@.len() == i,
                forall|j: int| 0 <= j < i ==> v@[j] == self.regs@[j]@,
            decreases self.regs@.len() - i,
        {
            v.push(self.regs[i].get());
            i = i + 1;
        }
        assert(v@ =~= self@.regs);
        v
    }

    /// The flags packed as a nibble.
    pub fn dump_cpsr(&self) -> (r: u8)
        ensures
            r == self@.cpsr.nibble(),
    {
        self.cpsr.to_u8()
    }
}

} // verus!
