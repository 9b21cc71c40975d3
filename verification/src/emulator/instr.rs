use vstd::prelude::*;
use vstd::string::StringExecFns;
use crate::assembler::text::{
    char_texts,
    decimal_text,
    push_chars,
    push_decimal,
    push_text,
    string_from,
};

verus! {

/// The fields of one 64-bit instruction word.
#[derive(Clone, Copy, Debug, PartialEq, Eq, Structural)]
pub struct Instr {
    pub cond_code: u64,
    pub set_flags: bool,
    pub c_is_imm: bool,
    pub op_code: u64,
    pub reg_d_mem: u64,
    pub reg_a: u64,
    pub reg_b: u64,
    pub reg_c: u64,
}

/// Bits 63..60: the condition code.
pub open spec fn word_cond(v: u64) -> u64 {
    v / 0x1000_0000_0000_0000
}

/// Bit 59: the set-flags bit.
pub open spec fn word_set_flags(v: u64) -> bool {
    (v / 0x0800_0000_0000_0000) % 2 == 1
}

/// Bit 58: whether the C operand is an immediate.
pub open spec fn word_c_is_imm(v: u64) -> bool {
    (v / 0x0400_0000_0000_0000) % 2 == 1
}

/// Bits 57..44: the opcode.
pub open spec fn word_op(v: u64) -> u64 {
    (v / 0x1000_0000_0000) % 0x4000
}

/// Bits 43..40: the destination register.
pub open spec fn word_rd(v: u64) -> u64 {
    (v / 0x100_0000_0000) % 16
}

/// Bits 39..36: the memory base register.
pub open spec fn word_ra(v: u64) -> u64 {
    (v / 0x10_0000_0000) % 16
}

/// Bits 35..32: the second source register.
pub open spec fn word_rb(v: u64) -> u64 {
    (v / 0x1_0000_0000) % 16
}

/// Bits 31..0 as a 32-bit immediate when the immediate bit is set, else the
/// low four bits as a register index.
pub open spec fn word_c(v: u64) -> u64 {
    if word_c_is_imm(v) {
        v % 0x1_0000_0000
    } else {
        v % 16
    }
}

/// The instruction word that holds the given fields.
pub open spec fn pack_word(f: Instr) -> u64
    recommends
        f.in_range(),
{
    (f.cond_code * 0x1000_0000_0000_0000 + (if f.set_flags { 0x0800_0000_0000_0000int } else { 0 })
        + (if f.c_is_imm { 0x0400_0000_0000_0000int } else { 0 }) + f.op_code * 0x1000_0000_0000
        + f.reg_d_mem * 0x100_0000_0000 + f.reg_a * 0x10_0000_0000 + f.reg_b * 0x1_0000_0000
        + f.reg_c) as u64
}

impl Instr {
    /// The fields that `v` holds.
    pub open spec fn of_word(v: u64) -> Instr {
        Instr {
            cond_code: word_cond(v),
            set_flags: word_set_flags(v),
            c_is_imm: word_c_is_imm(v),
            op_code: word_op(v),
            reg_d_mem: word_rd(v),
            reg_a: word_ra(v),
            reg_b: word_rb(v),
            reg_c: word_c(v),
        }
    }

    /// Every field fits the bits the word has for it.
    pub open spec fn in_range(self) -> bool {
        &&& self.cond_code < 16
        &&& self.op_code < 0x4000
        &&& self.reg_d_mem < 16
        &&& self.reg_a < 16
        &&& self.reg_b < 16
        &&& self.reg_c < 0x1_0000_0000
        &&& (!self.c_is_imm ==> self.reg_c < 16)
    }

    /// Unpacks an instruction word.
    pub fn new(v: u64) -> (r: Instr)
        ensures
            r == Instr::of_word(v),
            r.in_range(),
    {
        let c_is_imm = (v / 0x0400_0000_0000_0000) % 2 == 1;
        Instr {
            cond_code: v / 0x1000_0000_0000_0000,
            set_flags: (v / 0x0800_0000_0000_0000) % 2 == 1,
            c_is_imm,
            op_code: (v / 0x1000_0000_0000) % 0x4000,
            reg_d_mem: (v / 0x100_0000_0000) % 16,
            reg_a: (v / 0x10_0000_0000) % 16,
            reg_b: (v / 0x1_0000_0000) % 16,
            reg_c: if c_is_imm {
                v % 0x1_0000_0000
            } else {
                v % 16
            },
        }
    }

    /// Packs the fields into an instruction word.
    pub fn encode(&self) -> (v: u64)
        requires
            self.in_range(),
        ensures
            v == pack_word(*self),
            Instr::of_word(v) == *self,
    {
        proof {
            lemma_unpack_pack(*self);
            lemma_fields(
                self.cond_code,
                if self.set_flags { 1 } else { 0 },
                if self.c_is_imm { 1 } else { 0 },
                self.op_code,
                self.reg_d_mem,
                self.reg_a,
                self.reg_b,
                self.reg_c,
            );
        }
        let s: u64 = if self.set_flags { 0x0800_0000_0000_0000 } else { 0 };
        let i: u64 = if self.c_is_imm { 0x0400_0000_0000_0000 } else { 0 };
        self.cond_code * 0x1000_0000_0000_0000 + s + i + self.op_code * 0x1000_0000_0000
            + self.reg_d_mem * 0x100_0000_0000 + self.reg_a * 0x10_0000_0000 + self.reg_b
            * 0x1_0000_0000 + self.reg_c
    }
}

/// Unpacking the word built from a field tuple gives the tuple back.
pub proof fn lemma_unpack_pack(f: Instr)
    requires
        f.in_range(),
    ensures
        Instr::of_word(pack_word(f)) == f,
{
    let s: u64 = if f.set_flags { 1 } else { 0 };
    let i: u64 = if f.c_is_imm { 1 } else { 0 };
    lemma_fields(f.cond_code, s, i, f.op_code, f.reg_d_mem, f.reg_a, f.reg_b, f.reg_c);
}

proof fn lemma_fields(cond: u64, s: u64, i: u64, op: u64, rd: u64, ra: u64, rb: u64, c: u64)
    by (bit_vector)
    requires
        cond < 16,
        s < 2,
        i < 2,
        op < 0x4000,
        rd < 16,
        ra < 16,
        rb < 16,
        c < 0x1_0000_0000,
    ensures
        ({
            let v = (cond * 0x1000_0000_0000_0000 + s * 0x0800_0000_0000_0000 + i
                * 0x0400_0000_0000_0000 + op * 0x1000_0000_0000 + rd * 0x100_0000_0000 + ra
                * 0x10_0000_0000 + rb * 0x1_0000_0000 + c) as u64;
            &&& v == cond * 0x1000_0000_0000_0000 + s * 0x0800_0000_0000_0000 + i
                * 0x0400_0000_0000_0000 + op * 0x1000_0000_0000 + rd * 0x100_0000_0000 + ra
                * 0x10_0000_0000 + rb * 0x1_0000_0000 + c
            &&& v / 0x1000_0000_0000_0000 == cond
            &&& (v / 0x0800_0000_0000_0000) % 2 == s
            &&& (v / 0x0400_0000_0000_0000) % 2 == i
            &&& (v / 0x1000_0000_0000) % 0x4000 == op
            &&& (v / 0x100_0000_0000) % 16 == rd
            &&& (v / 0x10_0000_0000) % 16 == ra
            &&& (v / 0x1_0000_0000) % 16 == rb
            &&& v % 0x1_0000_0000 == c
            &&& (c < 16 ==> v % 16 == c)
        }),
{
}

/// Every operation of the machine. An opcode has 14 bits: the class in the
/// top two, the number of the operation within its class below them.
#[derive(Clone, Copy, Debug, PartialEq, Eq, Structural)]
pub enum Operation {
    Nop,
    Hlt,
    Mov,
    Add,
    Sub,
    Mul,
    Div,
    SMul,
    SDiv,
    Modu,
    SModu,
    Mvn,
    And,
    Orr,
    Eor,
    Cmp,
    Cmn,
    Tst,
    Teq,
    Lsl,
    Lsr,
    Asr,
    Rol,
    Ror,
    Mvi,
    Qry,
    Int,
    Ldr,
    Str,
    Pop,
    Push,
    B,
    Bl,
}

impl Operation {
    /// The 14-bit opcode of the operation.
    pub open spec fn code(self) -> u64 {
        match self {
            Operation::Nop => 0x0000,
            Operation::Hlt => 0x0001,
            Operation::Mov => 0x1000,
            Operation::Add => 0x1001,
            Operation::Sub => 0x1002,
            Operation::Mul => 0x1003,
            Operation::Div => 0x1004,
            Operation::SMul => 0x1005,
            Operation::SDiv => 0x1006,
            Operation::Modu => 0x1007,
            Operation::SModu => 0x1008,
            Operation::Mvn => 0x1009,
            Operation::And => 0x100A,
            Operation::Orr => 0x100B,
            Operation::Eor => 0x100C,
            Operation::Cmp => 0x1015,
            Operation::Cmn => 0x1016,
            Operation::Tst => 0x1017,
            Operation::Teq => 0x1018,
            Operation::Lsl => 0x1020,
            Operation::Lsr => 0x1021,
            Operation::Asr => 0x1022,
            Operation::Rol => 0x1023,
            Operation::Ror => 0x1024,
            Operation::Mvi => 0x1030,
            Operation::Qry => 0x1031,
            Operation::Int => 0x1032,
            Operation::Ldr => 0x2000,
            Operation::Str => 0x2001,
            Operation::Pop => 0x2002,
            Operation::Push => 0x2003,
            Operation::B => 0x3000,
            Operation::Bl => 0x3001,
        }
    }

    /// The operation with the given opcode, if there is one.
    pub open spec fn of_code(op_code: u64) -> Option<Operation> {
        if op_code == 0x0000 {
            Some(Operation::Nop)
        } else if op_code == 0x0001 {
            Some(Operation::Hlt)
        } else if op_code == 0x1000 {
            Some(Operation::Mov)
        } else if op_code == 0x1001 {
            Some(Operation::Add)
        } else if op_code == 0x1002 {
            Some(Operation::Sub)
        } else if op_code == 0x1003 {
            Some(Operation::Mul)
        } else if op_code == 0x1004 {
            Some(Operation::Div)
        } else if op_code == 0x1005 {
            Some(Operation::SMul)
        } else if op_code == 0x1006 {
            Some(Operation::SDiv)
        } else if op_code == 0x1007 {
            Some(Operation::Modu)
        } else if op_code == 0x1008 {
            Some(Operation::SModu)
        } else if op_code == 0x1009 {
            Some(Operation::Mvn)
        } else if op_code == 0x100A {
            Some(Operation::And)
        } else if op_code == 0x100B {
            Some(Operation::Orr)
        } else if op_code == 0x100C {
            Some(Operation::Eor)
        } else if op_code == 0x1015 {
            Some(Operation::Cmp)
        } else if op_code == 0x1016 {
            Some(Operation::Cmn)
        } else if op_code == 0x1017 {
            Some(Operation::Tst)
        } else if op_code == 0x1018 {
            Some(Operation::Teq)
        } else if op_code == 0x1020 {
            Some(Operation::Lsl)
        } else if op_code == 0x1021 {
            Some(Operation::Lsr)
        } else if op_code == 0x1022 {
            Some(Operation::Asr)
        } else if op_code == 0x1023 {
            Some(Operation::Rol)
        } else if op_code == 0x1024 {
            Some(Operation::Ror)
        } else if op_code == 0x1030 {
            Some(Operation::Mvi)
        } else if op_code == 0x1031 {
            Some(Operation::Qry)
        } else if op_code == 0x1032 {
            Some(Operation::Int)
        } else if op_code == 0x2000 {
            Some(Operation::Ldr)
        } else if op_code == 0x2001 {
            Some(Operation::Str)
        } else if op_code == 0x2002 {
            Some(Operation::Pop)
        } else if op_code == 0x2003 {
            Some(Operation::Push)
        } else if op_code == 0x3000 {
            Some(Operation::B)
        } else if op_code == 0x3001 {
            Some(Operation::Bl)
        } else {
            None
        }
    }

    /// Whether the operation only compares: it sets flags and writes no register.
    pub open spec fn is_compare(self) -> bool {
        self == Operation::Cmp || self == Operation::Cmn || self == Operation::Tst || self
            == Operation::Teq
    }

    /// Decodes an opcode; `None` if and only if no operation has it.
    pub fn new(op_code: u64) -> (r: Option<Operation>)
        ensures
            r == Operation::of_code(op_code),
    {
        if op_code == 0x0000 {
            Some(Operation::Nop)
        } else if op_code == 0x0001 {
            Some(Operation::Hlt)
        } else if op_code == 0x1000 {
            Some(Operation::Mov)
        } else if op_code == 0x1001 {
            Some(Operation::Add)
        } else if op_code == 0x1002 {
            Some(Operation::Sub)
        } else if op_code == 0x1003 {
            Some(Operation::Mul)
        } else if op_code == 0x1004 {
            Some(Operation::Div)
        } else if op_code == 0x1005 {
            Some(Operation::SMul)
        } else if op_code == 0x1006 {
            Some(Operation::SDiv)
        } else if op_code == 0x1007 {
            Some(Operation::Modu)
        } else if op_code == 0x1008 {
            Some(Operation::SModu)
        } else if op_code == 0x1009 {
            Some(Operation::Mvn)
        } else if op_code == 0x100A {
            Some(Operation::And)
        } else if op_code == 0x100B {
            Some(Operation::Orr)
        } else if op_code == 0x100C {
            Some(Operation::Eor)
        } else if op_code == 0x1015 {
            Some(Operation::Cmp)
        } else if op_code == 0x1016 {
            Some(Operation::Cmn)
        } else if op_code == 0x1017 {
            Some(Operation::Tst)
        } else if op_code == 0x1018 {
            Some(Operation::Teq)
        } else if op_code == 0x1020 {
            Some(Operation::Lsl)
        } else if op_code == 0x1021 {
            Some(Operation::Lsr)
        } else if op_code == 0x1022 {
            Some(Operation::Asr)
        } else if op_code == 0x1023 {
            Some(Operation::Rol)
        } else if op_code == 0x1024 {
            Some(Operation::Ror)
        } else if op_code == 0x1030 {
            Some(Operation::Mvi)
        } else if op_code == 0x1031 {
            Some(Operation::Qry)
        } else if op_code == 0x1032 {
            Some(Operation::Int)
        } else if op_code == 0x2000 {
            Some(Operation::Ldr)
        } else if op_code == 0x2001 {
            Some(Operation::Str)
        } else if op_code == 0x2002 {
            Some(Operation::Pop)
        } else if op_code == 0x2003 {
            Some(Operation::Push)
        } else if op_code == 0x3000 {
            Some(Operation::B)
        } else if op_code == 0x3001 {
            Some(Operation::Bl)
        } else {
            None
        }
    }

    /// The opcode of the operation.
    pub fn opcode(&self) -> (r: u64)
        ensures
            r == self.code(),
            r < 0x4000,
            Operation::of_code(r) == Some(*self),
    {
        match self {
            Operation::Nop => 0x0000,
            Operation::Hlt => 0x0001,
            Operation::Mov => 0x1000,
            Operation::Add => 0x1001,
            Operation::Sub => 0x1002,
            Operation::Mul => 0x1003,
            Operation::Div => 0x1004,
            Operation::SMul => 0x1005,
            Operation::SDiv => 0x1006,
            Operation::Modu => 0x1007,
            Operation::SModu => 0x1008,
            Operation::Mvn => 0x1009,
            Operation::And => 0x100A,
            Operation::Orr => 0x100B,
            Operation::Eor => 0x100C,
            Operation::Cmp => 0x1015,
            Operation::Cmn => 0x1016,
            Operation::Tst => 0x1017,
            Operation::Teq => 0x1018,
            Operation::Lsl => 0x1020,
            Operation::Lsr => 0x1021,
            Operation::Asr => 0x1022,
            Operation::Rol => 0x1023,
            Operation::Ror => 0x1024,
            Operation::Mvi => 0x1030,
            Operation::Qry => 0x1031,
            Operation::Int => 0x1032,
            Operation::Ldr => 0x2000,
            Operation::Str => 0x2001,
            Operation::Pop => 0x2002,
            Operation::Push => 0x2003,
            Operation::B => 0x3000,
            Operation::Bl => 0x3001,
        }
    }

    /// An opcode decodes to an operation exactly when it is that operation's code.
    pub proof fn lemma_code_round_trip(op_code: u64, op: Operation)
        ensures
            Operation::of_code(op_code) == Some(op) <==> op.code() == op_code,
            op.code() < 0x4000,
    {
    }
}

/// Which operands an instruction takes, in the order in which they are written.
#[derive(Clone, Copy, Debug, PartialEq, Eq, Structural)]
pub enum OperandShape {
    /// No operands.
    NoOperands,
    /// The destination register.
    D,
    /// The C operand.
    C,
    /// The B register and the C operand.
    BC,
    /// The destination register and the C operand.
    DC,
    /// The destination register, the B register and the C operand.
    DBC,
    /// The data register and the base register, and optionally the offset
    /// register and the scale.
    Memory,
}

impl Operation {
    /// The mnemonic of the operation.
    pub open spec fn mnemonic(self) -> Seq<char> {
        match self {
            Operation::Nop => "nop"@,
            Operation::Hlt => "hlt"@,
            Operation::Mov => "mov"@,
            Operation::Add => "add"@,
            Operation::Sub => "sub"@,
            Operation::Mul => "mul"@,
            Operation::Div => "div"@,
            Operation::SMul => "smul"@,
            Operation::SDiv => "sdiv"@,
            Operation::Modu => "modu"@,
            Operation::SModu => "smodu"@,
            Operation::Mvn => "mvn"@,
            Operation::And => "and"@,
            Operation::Orr => "orr"@,
            Operation::Eor => "eor"@,
            Operation::Cmp => "cmp"@,
            Operation::Cmn => "cmn"@,
            Operation::Tst => "tst"@,
            Operation::Teq => "teq"@,
            Operation::Lsl => "lsl"@,
            Operation::Lsr => "lsr"@,
            Operation::Asr => "asr"@,
            Operation::Rol => "rol"@,
            Operation::Ror => "ror"@,
            Operation::Mvi => "mvi"@,
            Operation::Qry => "qry"@,
            Operation::Int => "int"@,
            Operation::Ldr => "ldr"@,
            Operation::Str => "str"@,
            Operation::Pop => "pop"@,
            Operation::Push => "push"@,
            Operation::B => "b"@,
            Operation::Bl => "bl"@,
        }
    }

    /// The operands that the operation takes.
    pub open spec fn operand_shape(self) -> OperandShape {
        match self {
            Operation::Nop => OperandShape::NoOperands,
            Operation::Hlt => OperandShape::NoOperands,
            Operation::Mov => OperandShape::DC,
            Operation::Add => OperandShape::DBC,
            Operation::Sub => OperandShape::DBC,
            Operation::Mul => OperandShape::DBC,
            Operation::Div => OperandShape::DBC,
            Operation::SMul => OperandShape::DBC,
            Operation::SDiv => OperandShape::DBC,
            Operation::Modu => OperandShape::DBC,
            Operation::SModu => OperandShape::DBC,
            Operation::Mvn => OperandShape::DC,
            Operation::And => OperandShape::DBC,
            Operation::Orr => OperandShape::DBC,
            Operation::Eor => OperandShape::DBC,
            Operation::Cmp => OperandShape::BC,
            Operation::Cmn => OperandShape::BC,
            Operation::Tst => OperandShape::BC,
            Operation::Teq => OperandShape::BC,
            Operation::Lsl => OperandShape::DBC,
            Operation::Lsr => OperandShape::DBC,
            Operation::Asr => OperandShape::DBC,
            Operation::Rol => OperandShape::DBC,
            Operation::Ror => OperandShape::DBC,
            Operation::Mvi => OperandShape::D,
            Operation::Qry => OperandShape::C,
            Operation::Int => OperandShape::BC,
            Operation::Ldr => OperandShape::Memory,
            Operation::Str => OperandShape::Memory,
            Operation::Pop => OperandShape::D,
            Operation::Push => OperandShape::D,
            Operation::B => OperandShape::C,
            Operation::Bl => OperandShape::C,
        }
    }

    /// The mnemonic of the operation.
    pub fn name(&self) -> (r: &'static str)
        ensures
            r@ == self.mnemonic(),
    {
        match self {
            Operation::Nop => "nop",
            Operation::Hlt => "hlt",
            Operation::Mov => "mov",
            Operation::Add => "add",
            Operation::Sub => "sub",
            Operation::Mul => "mul",
            Operation::Div => "div",
            Operation::SMul => "smul",
            Operation::SDiv => "sdiv",
            Operation::Modu => "modu",
            Operation::SModu => "smodu",
            Operation::Mvn => "mvn",
            Operation::And => "and",
            Operation::Orr => "orr",
            Operation::Eor => "eor",
            Operation::Cmp => "cmp",
            Operation::Cmn => "cmn",
            Operation::Tst => "tst",
            Operation::Teq => "teq",
            Operation::Lsl => "lsl",
            Operation::Lsr => "lsr",
            Operation::Asr => "asr",
            Operation::Rol => "rol",
            Operation::Ror => "ror",
            Operation::Mvi => "mvi",
            Operation::Qry => "qry",
            Operation::Int => "int",
            Operation::Ldr => "ldr",
            Operation::Str => "str",
            Operation::Pop => "pop",
            Operation::Push => "push",
            Operation::B => "b",
            Operation::Bl => "bl",
        }
    }

    /// The operands that the operation takes.
    pub fn shape(&self) -> (r: OperandShape)
        ensures
            r == self.operand_shape(),
    {
        match self {
            Operation::Nop => OperandShape::NoOperands,
            Operation::Hlt => OperandShape::NoOperands,
            Operation::Mov => OperandShape::DC,
            Operation::Add => OperandShape::DBC,
            Operation::Sub => OperandShape::DBC,
            Operation::Mul => OperandShape::DBC,
            Operation::Div => OperandShape::DBC,
            Operation::SMul => OperandShape::DBC,
            Operation::SDiv => OperandShape::DBC,
            Operation::Modu => OperandShape::DBC,
            Operation::SModu => OperandShape::DBC,
            Operation::Mvn => OperandShape::DC,
            Operation::And => OperandShape::DBC,
            Operation::Orr => OperandShape::DBC,
            Operation::Eor => OperandShape::DBC,
            Operation::Cmp => OperandShape::BC,
            Operation::Cmn => OperandShape::BC,
            Operation::Tst => OperandShape::BC,
            Operation::Teq => OperandShape::BC,
            Operation::Lsl => OperandShape::DBC,
            Operation::Lsr => OperandShape::DBC,
            Operation::Asr => OperandShape::DBC,
            Operation::Rol => OperandShape::DBC,
            Operation::Ror => OperandShape::DBC,
            Operation::Mvi => OperandShape::D,
            Operation::Qry => OperandShape::C,
            Operation::Int => OperandShape::BC,
            Operation::Ldr => OperandShape::Memory,
            Operation::Str => OperandShape::Memory,
            Operation::Pop => OperandShape::D,
            Operation::Push => OperandShape::D,
            Operation::B => OperandShape::C,
            Operation::Bl => OperandShape::C,
        }
    }
}

/// The four opcode classes.
#[derive(Clone, Copy, Debug, PartialEq, Eq, Structural)]
pub enum OperationType {
    Special,
    DataProc,
    Mem,
    Branch,
}

impl OperationType {
    /// The class that the top two bits of a 14-bit opcode name.
    pub open spec fn of_code(op_code: u64) -> OperationType {
        let class = (op_code / 0x1000) % 4;
        if class == 0 {
            OperationType::Special
        } else if class == 1 {
            OperationType::DataProc
        } else if class == 2 {
            OperationType::Mem
        } else {
            OperationType::Branch
        }
    }

    pub fn new(op_code: u64) -> (r: OperationType)
        ensures
            r == OperationType::of_code(op_code),
    {
        let class = (op_code / 0x1000) % 4;
        if class == 0 {
            OperationType::Special
        } else if class == 1 {
            OperationType::DataProc
        } else if class == 2 {
            OperationType::Mem
        } else {
            OperationType::Branch
        }
    }
}

/// Decodes an opcode; `None` if and only if no operation has it.
pub fn decode_op(op_code: u64) -> (r: Option<Operation>)
    ensures
        r == Operation::of_code(op_code),
{
    Operation::new(op_code)
}

/// The class of an opcode.
pub fn decode_op_type(op_code: u64) -> (r: OperationType)
    ensures
        r == OperationType::of_code(op_code),
{
    OperationType::new(op_code)
}

/// The name of a condition code as the disassembler writes it; the
/// condition AL has the empty name. `None` for the code 15 and beyond.
pub open spec fn condition_name(cond: u64) -> Option<Seq<char>> {
    if cond == 0 {
        Some("eq"@)
    } else if cond == 1 {
        Some("ne"@)
    } else if cond == 2 {
        Some("cs"@)
    } else if cond == 3 {
        Some("cc"@)
    } else if cond == 4 {
        Some("mi"@)
    } else if cond == 5 {
        Some("pl"@)
    } else if cond == 6 {
        Some("vs"@)
    } else if cond == 7 {
        Some("vc"@)
    } else if cond == 8 {
        Some("hi"@)
    } else if cond == 9 {
        Some("ls"@)
    } else if cond == 10 {
        Some("ge"@)
    } else if cond == 11 {
        Some("lt"@)
    } else if cond == 12 {
        Some("gt"@)
    } else if cond == 13 {
        Some("le"@)
    } else if cond == 14 {
        Some(""@)
    } else {
        None
    }
}

/// What follows the mnemonic in the text of an instruction: the name of the
/// condition for an operation that only compares, else `s` if the
/// instruction sets flags, else the name of the condition.
pub open spec fn postfix_text(op: Operation, f: Instr) -> Option<Seq<char>> {
    if !op.is_compare() && f.set_flags {
        Some("s"@)
    } else {
        condition_name(f.cond_code)
    }
}

/// The text of register `n`.
pub open spec fn register_text(n: u64) -> Seq<char> {
    "r"@ + decimal_text(n as nat)
}

/// The text of the C operand: `#` and the immediate, or the register.
pub open spec fn c_text(f: Instr) -> Seq<char> {
    if f.c_is_imm {
        "#"@ + decimal_text(f.reg_c as nat)
    } else {
        register_text(f.reg_c)
    }
}

/// The texts of the operands of an instruction, in the order of its shape.
/// A memory instruction whose immediate bit is set and whose `rb` and `c`
/// are 0 is written without offset and scale.
pub open spec fn operand_texts(op: Operation, f: Instr) -> Seq<Seq<char>> {
    match op.operand_shape() {
        OperandShape::NoOperands => Seq::empty(),
        OperandShape::D => seq![register_text(f.reg_d_mem)],
        OperandShape::C => seq![c_text(f)],
        OperandShape::BC => seq![register_text(f.reg_b), c_text(f)],
        OperandShape::DC => seq![register_text(f.reg_d_mem), c_text(f)],
        OperandShape::DBC => seq![register_text(f.reg_d_mem), register_text(f.reg_b), c_text(f)],
        OperandShape::Memory => if f.c_is_imm && f.reg_b == 0 && f.reg_c == 0 {
            seq![register_text(f.reg_d_mem), register_text(f.reg_a)]
        } else {
            seq![
                register_text(f.reg_d_mem),
                register_text(f.reg_a),
                register_text(f.reg_b),
                c_text(f),
            ]
        },
    }
}

/// The operands with a comma and a space between them.
pub open spec fn joined(ops: Seq<Seq<char>>) -> Seq<char>
    decreases ops.len(),
{
    if ops.len() == 0 {
        Seq::empty()
    } else if ops.len() == 1 {
        ops[0]
    } else {
        ops[0] + ", "@ + joined(ops.drop_first())
    }
}

/// The text of an instruction: the head, and after one space the operands
/// if there are any.
pub open spec fn instruction_text(head: Seq<char>, ops: Seq<Seq<char>>) -> Seq<char> {
    if ops.len() == 0 {
        head
    } else {
        head + " "@ + joined(ops)
    }
}

/// The canonical text of an instruction word. `None` if the opcode names no
/// operation, or if the text would name the condition and the code is 15.
pub open spec fn disassembled(v: u64) -> Option<Seq<char>> {
    let f = Instr::of_word(v);
    match Operation::of_code(f.op_code) {
        None => None,
        Some(op) => if op == Operation::Nop || op == Operation::Hlt {
            Some(op.mnemonic())
        } else {
            match postfix_text(op, f) {
                None => None,
                Some(p) => Some(instruction_text(op.mnemonic() + p, operand_texts(op, f))),
            }
        },
    }
}

fn condition_str(cond: u64) -> (r: &'static str)
    requires
        cond < 15,
    ensures
        Some(r@) == condition_name(cond),
{
        if cond == 0 {
            "eq"
        } else if cond == 1 {
            "ne"
        } else if cond == 2 {
            "cs"
        } else if cond == 3 {
            "cc"
        } else if cond == 4 {
            "mi"
        } else if cond == 5 {
            "pl"
        } else if cond == 6 {
            "vs"
        } else if cond == 7 {
            "vc"
        } else if cond == 8 {
            "hi"
        } else if cond == 9 {
            "ls"
        } else if cond == 10 {
            "ge"
        } else if cond == 11 {
            "lt"
        } else if cond == 12 {
            "gt"
        } else if cond == 13 {
            "le"
        } else if cond == 14 {
            ""
        } else {
            ""
        }
}

/// The name of a condition code; `None` if and only if the code is 15 or more.
pub fn cond_code_to_string(cond: u8) -> (r: Option<String>)
    ensures
        match r {
            Some(s) => condition_name(cond as u64) == Some(s@),
            None => condition_name(cond as u64) is None,
        },
        r is Some <==> cond < 15,
{
    if cond < 15 {
        Some(String::from_str(condition_str(cond as u64)))
    } else {
        None
    }
}

fn generate_postfix(op: Operation, decoded: Instr) -> (r: Option<&'static str>)
    ensures
        match r {
            Some(s) => postfix_text(op, decoded) == Some(s@),
            None => postfix_text(op, decoded) is None,
        },
{
    let compare = op == Operation::Cmp || op == Operation::Cmn || op == Operation::Tst || op
        == Operation::Teq;
    if !compare && decoded.set_flags {
        Some("s")
    } else if decoded.cond_code < 15 {
        Some(condition_str(decoded.cond_code))
    } else {
        None
    }
}

fn register_chars(n: u64) -> (r: Vec<char>)
    ensures
        r@ == register_text(n),
{
    let mut out: Vec<char> = Vec::new();
    push_text(&mut out, "r");
    push_decimal(&mut out, n);
    assert(out@ =~= register_text(n));
    out
}

fn reg_c_to_string(decoded: Instr) -> (r: Vec<char>)
    ensures
        r@ == c_text(decoded),
{
    if decoded.c_is_imm {
        let mut out: Vec<char> = Vec::new();
        push_text(&mut out, "#");
        push_decimal(&mut out, decoded.reg_c);
        assert(out@ =~= c_text(decoded));
        out
    } else {
        register_chars(decoded.reg_c)
    }
}

fn generate_memo_addr(decoded: Instr) -> (r: Vec<Vec<char>>)
    ensures
        char_texts(r@) == if decoded.c_is_imm && decoded.reg_b == 0 && decoded.reg_c == 0 {
            seq![register_text(decoded.reg_a)]
        } else {
            seq![register_text(decoded.reg_a), register_text(decoded.reg_b), c_text(decoded)]
        },
{
    let mut r: Vec<Vec<char>> = Vec::new();
    r.push(register_chars(decoded.reg_a));
    if !(decoded.c_is_imm && decoded.reg_b == 0 && decoded.reg_c == 0) {
        r.push(register_chars(decoded.reg_b));
        r.push(reg_c_to_string(decoded));
        assert(char_texts(r@) =~= seq![
            register_text(decoded.reg_a),
            register_text(decoded.reg_b),
            c_text(decoded),
        ]);
    } else {
        assert(char_texts(r@) =~= seq![register_text(decoded.reg_a)]);
    }
    r
}

fn operand_list(op: Operation, decoded: Instr) -> (r: Vec<Vec<char>>)
    ensures
        char_texts(r@) == operand_texts(op, decoded),
{
    let mut r: Vec<Vec<char>> = Vec::new();
    match op.shape() {
        OperandShape::NoOperands => {},
        OperandShape::D => {
            r.push(register_chars(decoded.reg_d_mem));
        },
        OperandShape::C => {
            r.push(reg_c_to_string(decoded));
        },
        OperandShape::BC => {
            r.push(register_chars(decoded.reg_b));
            r.push(reg_c_to_string(decoded));
        },
        OperandShape::DC => {
            r.push(register_chars(decoded.reg_d_mem));
            r.push(reg_c_to_string(decoded));
        },
        OperandShape::DBC => {
            r.push(register_chars(decoded.reg_d_mem));
            r.push(register_chars(decoded.reg_b));
            r.push(reg_c_to_string(decoded));
        },
        OperandShape::Memory => {
            r.push(register_chars(decoded.reg_d_mem));
            let mut addr = generate_memo_addr(decoded);
            let ghost tail = char_texts(addr@);
            let ghost first = char_texts(r@);
            r.append(&mut addr);
            assert(char_texts(r@) =~= first + tail);
        },
    }
    assert(char_texts(r@) =~= operand_texts(op, decoded));
    r
}

fn push_joined(out: &mut Vec<char>, ops: &Vec<Vec<char>>, from: usize)
    requires
        from <= ops@.len(),
    ensures
        final(out)@ == old(out)@ + joined(char_texts(ops@).skip(from as int)),
    decreases ops@.len() - from,
{
    let ghost rest = char_texts(ops@).skip(from as int);
    if from < ops.len() {
        assert(rest[0] == ops@[from as int]@);
        assert(rest.drop_first() =~= char_texts(ops@).skip(from + 1));
        push_chars(out, &ops[from]);
        if from + 1 < ops.len() {
            push_text(out, ", ");
            push_joined(out, ops, from + 1);
            assert(out@ =~= old(out)@ + (rest[0] + ", "@ + joined(rest.drop_first())));
        } else {
            assert(out@ =~= old(out)@ + rest[0]);
        }
    } else {
        assert(out@ =~= old(out)@ + Seq::<char>::empty());
    }
}

/// The canonical text of an instruction word. `None` if the opcode names no
/// operation, or if the text would name the condition and the code is 15.
pub fn instr_to_string(instr: u64) -> (r: Option<String>)
    ensures
        match r {
            Some(s) => disassembled(instr) == Some(s@),
            None => disassembled(instr) is None,
        },
{
    let decoded = Instr::new(instr);
    let op = match decode_op(decoded.op_code) {
        Some(op) => op,
        None => { return None; },
    };
    if op == Operation::Nop || op == Operation::Hlt {
        return Some(String::from_str(op.name()));
    }
    let postfix = match generate_postfix(op, decoded) {
        Some(p) => p,
        None => { return None; },
    };
    let mut out: Vec<char> = Vec::new();
    push_text(&mut out, op.name());
    push_text(&mut out, postfix);
    let ghost head = op.mnemonic() + postfix@;
    assert(out@ =~= head);
    let ops = operand_list(op, decoded);
    if ops.len() > 0 {
        push_text(&mut out, " ");
        push_joined(&mut out, &ops, 0);
        assert(char_texts(ops@).skip(0) =~= char_texts(ops@));
        assert(out@ =~= instruction_text(head, char_texts(ops@)));
    }
    Some(string_from(&out))
}

} // verus!
