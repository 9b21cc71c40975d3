use vstd::prelude::*;
use crate::emulator::cpsr::Cpsr;
use crate::emulator::instr::Operation;

verus! {

/// The value of a word read as a 64-bit two's-complement number.
pub open spec fn signed(x: u64) -> int {
    if x < 0x8000_0000_0000_0000 {
        x as int
    } else {
        x as int - 0x1_0000_0000_0000_0000
    }
}

/// The word that holds the low 64 bits of `i` in two's complement.
pub open spec fn word_of(i: int) -> u64 {
    (i % 0x1_0000_0000_0000_0000) as u64
}

/// Bit 63 of a word.
pub open spec fn is_negative(x: u64) -> bool {
    x >= 0x8000_0000_0000_0000
}

/// Whether `i` lies outside the range of a signed 64-bit number.
pub open spec fn signed_overflow(i: int) -> bool {
    i > 0x7fff_ffff_ffff_ffff || i < -0x8000_0000_0000_0000
}

/// The absolute value.
pub open spec fn magnitude(i: int) -> int {
    if i < 0 {
        -i
    } else {
        i
    }
}

/// Division that rounds toward zero.
pub open spec fn trunc_div(a: int, b: int) -> int
    recommends
        b != 0,
{
    if (a < 0) == (b < 0) {
        magnitude(a) / magnitude(b)
    } else {
        -(magnitude(a) / magnitude(b))
    }
}

/// The remainder of the division that rounds toward zero: it has the sign of
/// the dividend.
pub open spec fn trunc_rem(a: int, b: int) -> int
    recommends
        b != 0,
{
    if a < 0 {
        -(magnitude(a) % magnitude(b))
    } else {
        magnitude(a) % magnitude(b)
    }
}

/// Logical shift left; a count of 64 or more shifts every bit out.
pub open spec fn lsl_result(b: u64, c: u64) -> u64 {
    if c < 64 {
        b << c
    } else {
        0
    }
}

/// The last bit that a left shift by `c` moves out of the word: bit `64 - c`.
pub open spec fn lsl_carry(b: u64, c: u64) -> bool {
    1 <= c <= 64 && (b >> ((64 - c) as u64)) & 1 == 1
}

/// Logical shift right; a count of 64 or more shifts every bit out.
pub open spec fn lsr_result(b: u64, c: u64) -> u64 {
    if c < 64 {
        b >> c
    } else {
        0
    }
}

/// The last bit that a right shift by `c` moves out of the word: bit `c - 1`.
pub open spec fn lsr_carry(b: u64, c: u64) -> bool {
    1 <= c <= 64 && (b >> ((c - 1) as u64)) & 1 == 1
}

/// Arithmetic shift right: the vacated bits take the sign bit; a count of 64
/// or more leaves only copies of the sign bit.
pub open spec fn asr_result(b: u64, c: u64) -> u64 {
    if c < 64 {
        if is_negative(b) {
            (b >> c) | !(0xffff_ffff_ffff_ffffu64 >> c)
        } else {
            b >> c
        }
    } else if is_negative(b) {
        0xffff_ffff_ffff_ffff
    } else {
        0
    }
}

/// The last bit that an arithmetic right shift by `c` moves out: bit `c - 1`,
/// which is a copy of the sign bit once `c` exceeds 64.
pub open spec fn asr_carry(b: u64, c: u64) -> bool {
    if c == 0 {
        false
    } else if c <= 64 {
        (b >> ((c - 1) as u64)) & 1 == 1
    } else {
        is_negative(b)
    }
}

/// Rotation to the left by `c mod 64`.
pub open spec fn rol_result(b: u64, c: u64) -> u64 {
    let n = c % 64;
    if n == 0 {
        b
    } else {
        (b << n) | (b >> ((64 - n) as u64))
    }
}

/// Rotation to the right by `c mod 64`.
pub open spec fn ror_result(b: u64, c: u64) -> u64 {
    let n = c % 64;
    if n == 0 {
        b
    } else {
        (b >> n) | (b << ((64 - n) as u64))
    }
}

/// Whether the operation traps on these operands: a division or remainder by zero.
pub open spec fn alu_trap(op: Operation, b: u64, c: u64) -> bool {
    (op == Operation::Div || op == Operation::SDiv || op == Operation::Modu || op
        == Operation::SModu) && c == 0
}

/// The result word of an operation.
pub open spec fn alu_result(op: Operation, b: u64, c: u64) -> u64 {
    match op {
        Operation::Mov => c,
        Operation::Add | Operation::Cmn => word_of(b + c),
        Operation::Sub | Operation::Cmp => word_of(b - c),
        Operation::Mul => word_of(b * c),
        Operation::Div => if c == 0 {
            0
        } else {
            b / c
        },
        Operation::SMul => word_of(signed(b) * signed(c)),
        Operation::SDiv => if c == 0 {
            0
        } else {
            word_of(trunc_div(signed(b), signed(c)))
        },
        Operation::Modu => if c == 0 {
            0
        } else {
            b % c
        },
        Operation::SModu => if c == 0 {
            0
        } else {
            word_of(trunc_rem(signed(b), signed(c)))
        },
        Operation::Mvn => !c,
        Operation::And | Operation::Tst => b & c,
        Operation::Orr => b | c,
        Operation::Eor | Operation::Teq => b ^ c,
        Operation::Lsl => lsl_result(b, c),
        Operation::Lsr => lsr_result(b, c),
        Operation::Asr => asr_result(b, c),
        Operation::Rol => rol_result(b, c),
        Operation::Ror => ror_result(b, c),
        Operation::Str | Operation::Push | Operation::Bl | Operation::B | Operation::Qry => c,
        Operation::Nop | Operation::Hlt | Operation::Mvi | Operation::Int | Operation::Ldr
        | Operation::Pop => 0,
    }
}

/// The carry flag of an operation.
pub open spec fn alu_carry(op: Operation, b: u64, c: u64) -> bool {
    match op {
        Operation::Add | Operation::Cmn => b + c > 0xffff_ffff_ffff_ffff,
        Operation::Sub | Operation::Cmp => b < c,
        Operation::Mul => b * c > 0xffff_ffff_ffff_ffff,
        Operation::Lsl => lsl_carry(b, c),
        Operation::Lsr => lsr_carry(b, c),
        Operation::Asr => asr_carry(b, c),
        Operation::Rol => rol_result(b, c) % 2 == 1,
        Operation::Ror => is_negative(ror_result(b, c)),
        _ => false,
    }
}

/// The overflow flag of an operation.
pub open spec fn alu_overflow(op: Operation, b: u64, c: u64) -> bool {
    match op {
        Operation::Add | Operation::Cmn => signed_overflow(signed(b) + signed(c)),
        Operation::Sub | Operation::Cmp => signed_overflow(signed(b) - signed(c)),
        Operation::SMul => signed_overflow(signed(b) * signed(c)),
        _ => false,
    }
}

/// Whether the operation computes flags at all. The others, and every
/// operation that traps, report all flags clear.
pub open spec fn alu_has_flags(op: Operation) -> bool {
    match op {
        Operation::Str | Operation::Push | Operation::Bl | Operation::B | Operation::Qry
        | Operation::Nop | Operation::Hlt | Operation::Mvi | Operation::Int | Operation::Ldr
        | Operation::Pop => false,
        _ => true,
    }
}

/// The flags of an operation: N and Z describe the result word.
pub open spec fn alu_flags(op: Operation, b: u64, c: u64) -> Cpsr {
    if alu_has_flags(op) && !alu_trap(op, b, c) {
        Cpsr {
            n: is_negative(alu_result(op, b, c)),
            z: alu_result(op, b, c) == 0,
            c: alu_carry(op, b, c),
            v: alu_overflow(op, b, c),
        }
    } else {
        Cpsr::clear()
    }
}

/// The magnitude of the signed value of a word.
fn magnitude_of(x: u64) -> (m: u64)
    ensures
        m == magnitude(signed(x)),
        m <= 0x8000_0000_0000_0000,
{
    if x >= 0x8000_0000_0000_0000 {
        0u64.wrapping_sub(x)
    } else {
        x
    }
}

/// The word that holds `m` or, if `negate`, `-m`.
fn with_sign(m: u64, negate: bool) -> (r: u64)
    requires
        m <= 0x8000_0000_0000_0000,
    ensures
        r == word_of(if negate { -(m as int) } else { m as int }),
{
    if negate {
        0u64.wrapping_sub(m)
    } else {
        m
    }
}

fn pack_flags(r: u64, c: bool, v: bool) -> (f: u8)
    ensures
        f == (Cpsr { n: is_negative(r), z: r == 0, c, v }).nibble(),
{
    Cpsr { n: r >= 0x8000_0000_0000_0000, z: r == 0, c, v }.to_u8()
}

proof fn lemma_signed_product(b: u64, c: u64)
    ensures
        word_of(signed(b) * signed(c)) == word_of(b * c),
        magnitude(signed(b) * signed(c)) == magnitude(signed(b)) * magnitude(signed(c)),
        is_negative(b) != is_negative(c) ==> signed(b) * signed(c) <= 0,
        is_negative(b) == is_negative(c) ==> signed(b) * signed(c) >= 0,
{
    let m = 0x1_0000_0000_0000_0000int;
    let sb = signed(b);
    let sc = signed(c);
    let kb: int = if is_negative(b) { 1 } else { 0 };
    let kc: int = if is_negative(c) { 1 } else { 0 };
    let k = kb * kc * m - kb * c - kc * b;
    assert(sb * sc == m * k + b * c) by (nonlinear_arith)
        requires
            sb == b - kb * m,
            sc == c - kc * m,
            k == kb * kc * m - kb * c - kc * b,
    ;
    vstd::arithmetic::div_mod::lemma_mod_multiples_vanish(k, b * c, m);
    assert(magnitude(sb * sc) == magnitude(sb) * magnitude(sc)) by (nonlinear_arith);
    assert(((sb < 0) != (sc < 0)) ==> sb * sc <= 0) by (nonlinear_arith);
    assert(((sb < 0) == (sc < 0)) ==> sb * sc >= 0) by (nonlinear_arith);
}

/// The signed product's low word and whether the product leaves the signed range.
fn signed_multiply(b: u64, c: u64) -> (r: (u64, bool))
    ensures
        r.0 == word_of(signed(b) * signed(c)),
        r.1 == signed_overflow(signed(b) * signed(c)),
{
    let result = b.wrapping_mul(c);
    let differ = (b >= 0x8000_0000_0000_0000) != (c >= 0x8000_0000_0000_0000);
    let product = magnitude_of(b).checked_mul(magnitude_of(c));
    proof {
        lemma_signed_product(b, c);
    }
    let overflow = match product {
        None => true,
        Some(m) => if differ {
            m > 0x8000_0000_0000_0000
        } else {
            m >= 0x8000_0000_0000_0000
        },
    };
    (result, overflow)
}

/// The quotient of the signed values, rounded toward zero.
fn signed_divide(b: u64, c: u64) -> (r: u64)
    requires
        c != 0,
    ensures
        r == word_of(trunc_div(signed(b), signed(c))),
{
    let differ = (b >= 0x8000_0000_0000_0000) != (c >= 0x8000_0000_0000_0000);
    with_sign(magnitude_of(b) / magnitude_of(c), differ)
}

/// The remainder of the signed values; it takes the sign of `b`.
fn signed_remainder(b: u64, c: u64) -> (r: u64)
    requires
        c != 0,
    ensures
        r == word_of(trunc_rem(signed(b), signed(c))),
{
    with_sign(magnitude_of(b) % magnitude_of(c), b >= 0x8000_0000_0000_0000)
}

/// The arithmetic and logic unit: a pure function of an opcode and two operands.
pub struct Alu {}

impl Alu {
    pub fn new() -> Alu {
        Alu {  }
    }

    /// Computes one operation: the result word, the flags packed as a nibble,
    /// and 1 if the operation trapped, else 0.
    pub fn cal(&self, op: u64, b: u64, c: u64) -> (r: (u64, u8, u64))
        requires
            Operation::of_code(op) is Some,
        ensures
            r.0 == alu_result(Operation::of_code(op)->0, b, c),
            r.1 == alu_flags(Operation::of_code(op)->0, b, c).nibble(),
            r.2 == if alu_trap(Operation::of_code(op)->0, b, c) { 1u64 } else { 0u64 },
    {
        let operation = match Operation::new(op) {
            Some(o) => o,
            None => { return (0, 0, 0); },
        };
        match operation {
            Operation::Mov => (c, pack_flags(c, false, false), 0),
            Operation::Add | Operation::Cmn => {
                let result = b.wrapping_add(c);
                let carry = b > u64::MAX - c;
                let sb = b >= 0x8000_0000_0000_0000;
                let sc = c >= 0x8000_0000_0000_0000;
                let sr = result >= 0x8000_0000_0000_0000;
                let overflow = sb == sc && sr != sb;
                (result, pack_flags(result, carry, overflow), 0)
            },
            Operation::Sub | Operation::Cmp => {
                let result = b.wrapping_sub(c);
                let carry = b < c;
                let sb = b >= 0x8000_0000_0000_0000;
                let sc = c >= 0x8000_0000_0000_0000;
                let sr = result >= 0x8000_0000_0000_0000;
                let overflow = sb != sc && sr != sb;
                (result, pack_flags(result, carry, overflow), 0)
            },
            Operation::Mul => {
                let result = b.wrapping_mul(c);
                let carry = b.checked_mul(c).is_none();
                (result, pack_flags(result, carry, false), 0)
            },
            Operation::Div => {
                if c == 0 {
                    return (0, 0, 1);
                }
                let result = b / c;
                (result, pack_flags(result, false, false), 0)
            },
            Operation::SMul => {
                let (result, overflow) = signed_multiply(b, c);
                (result, pack_flags(result, false, overflow), 0)
            },
            Operation::SDiv => {
                if c == 0 {
                    return (0, 0, 1);
                }
                let result = signed_divide(b, c);
                (result, pack_flags(result, false, false), 0)
            },
            Operation::Modu => {
                if c == 0 {
                    return (0, 0, 1);
                }
                let result = b % c;
                (result, pack_flags(result, false, false), 0)
            },
            Operation::SModu => {
                if c == 0 {
                    return (0, 0, 1);
                }
                let result = signed_remainder(b, c);
                (result, pack_flags(result, false, false), 0)
            },
            Operation::Mvn => {
                let result = !c;
                (result, pack_flags(result, false, false), 0)
            },
            Operation::And | Operation::Tst => {
                let result = b & c;
                (result, pack_flags(result, false, false), 0)
            },
            Operation::Orr => {
                let result = b | c;
                (result, pack_flags(result, false, false), 0)
            },
            Operation::Eor | Operation::Teq => {
                let result = b ^ c;
                (result, pack_flags(result, false, false), 0)
            },
            Operation::Lsl => {
                let result = if c < 64 { b << c } else { 0 };
                let carry = 1 <= c && c <= 64 && (b >> (64 - c)) & 1 == 1;
                (result, pack_flags(result, carry, false), 0)
            },
            Operation::Lsr => {
                let result = if c < 64 { b >> c } else { 0 };
                let carry = 1 <= c && c <= 64 && (b >> (c - 1)) & 1 == 1;
                (result, pack_flags(result, carry, false), 0)
            },
            Operation::Asr => {
                let negative = b >= 0x8000_0000_0000_0000;
                let result = if c < 64 {
                    if negative {
                        (b >> c) | !(0xffff_ffff_ffff_ffffu64 >> c)
                    } else {
                        b >> c
                    }
                } else if negative {
                    0xffff_ffff_ffff_ffff
                } else {
                    0
                };
                let carry = if c == 0 {
                    false
                } else if c <= 64 {
                    (b >> (c - 1)) & 1 == 1
                } else {
                    negative
                };
                (result, pack_flags(result, carry, false), 0)
            },
            Operation::Rol => {
                let n = c % 64;
                let result = if n == 0 { b } else { (b << n) | (b >> (64 - n)) };
                (result, pack_flags(result, result % 2 == 1, false), 0)
            },
            Operation::Ror => {
                let n = c % 64;
                let result = if n == 0 { b } else { (b >> n) | (b << (64 - n)) };
                (result, pack_flags(result, result >= 0x8000_0000_0000_0000, false), 0)
            },
            Operation::Str | Operation::Push | Operation::Bl | Operation::B | Operation::Qry => (
                c,
                0,
                0,
            ),
            Operation::Nop | Operation::Hlt | Operation::Mvi | Operation::Int | Operation::Ldr
            | Operation::Pop => (0, 0, 0),
        }
    }
}

} // verus!
