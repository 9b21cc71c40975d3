use emulator::emulator::alu::Alu;
use emulator::emulator::cpsr::Cpsr;

const MOV: u64 = 0x1000;
const ADD: u64 = 0x1001;
const SUB: u64 = 0x1002;
const MUL: u64 = 0x1003;
const DIV: u64 = 0x1004;
const SMUL: u64 = 0x1005;
const SDIV: u64 = 0x1006;
const MODU: u64 = 0x1007;
const SMODU: u64 = 0x1008;
const MVN: u64 = 0x1009;
const AND: u64 = 0x100A;
const ORR: u64 = 0x100B;
const EOR: u64 = 0x100C;
const CMP: u64 = 0x1015;
const CMN: u64 = 0x1016;
const TST: u64 = 0x1017;
const TEQ: u64 = 0x1018;
const LSL: u64 = 0x1020;
const LSR: u64 = 0x1021;
const ASR: u64 = 0x1022;
const ROL: u64 = 0x1023;
const ROR: u64 = 0x1024;

const N: u8 = 8;
const Z: u8 = 4;
const C: u8 = 2;
const V: u8 = 1;

fn neg(x: i64) -> u64 {
    x as u64
}

#[test]
fn alu_mov_reports_sign_and_zero() {
    let alu = Alu::new();
    assert_eq!(alu.cal(MOV, 99, 5), (5, 0, 0));
    assert_eq!(alu.cal(MOV, 99, 0), (0, Z, 0));
    assert_eq!(alu.cal(MOV, 99, 1 << 63), (1 << 63, N, 0));
}

#[test]
fn alu_add_wraps_and_sets_carry_and_overflow() {
    let alu = Alu::new();
    assert_eq!(alu.cal(ADD, 1, 1), (2, 0, 0));
    assert_eq!(alu.cal(ADD, u64::MAX, 1), (0, Z | C, 0));
    assert_eq!(alu.cal(ADD, i64::MAX as u64, 1), (1 << 63, N | V, 0));
    assert_eq!(alu.cal(ADD, 1 << 63, 1 << 63), (0, Z | C | V, 0));
    assert_eq!(alu.cal(ADD, neg(-1), neg(-1)), (neg(-2), N | C, 0));
    assert_eq!(alu.cal(CMN, u64::MAX, 1), (0, Z | C, 0));
}

#[test]
fn alu_sub_wraps_and_sets_borrow_and_overflow() {
    let alu = Alu::new();
    assert_eq!(alu.cal(SUB, 5, 3), (2, 0, 0));
    assert_eq!(alu.cal(SUB, 1, 1), (0, Z, 0));
    assert_eq!(alu.cal(SUB, 0, 1), (u64::MAX, N | C, 0));
    assert_eq!(alu.cal(SUB, 1 << 63, 1), (i64::MAX as u64, V, 0));
    assert_eq!(alu.cal(SUB, i64::MAX as u64, neg(-1)), (1 << 63, N | C | V, 0));
    assert_eq!(alu.cal(CMP, 0, 1), (u64::MAX, N | C, 0));
}

#[test]
fn alu_mul_sets_carry_on_unsigned_overflow() {
    let alu = Alu::new();
    assert_eq!(alu.cal(MUL, 4, 4), (16, 0, 0));
    assert_eq!(alu.cal(MUL, 7, 0), (0, Z, 0));
    assert_eq!(alu.cal(MUL, 0, 0), (0, Z, 0));
    assert_eq!(alu.cal(MUL, 1 << 32, 1 << 32), (0, Z | C, 0));
    assert_eq!(alu.cal(MUL, u64::MAX, 2), (u64::MAX - 1, N | C, 0));
    assert_eq!(alu.cal(MUL, 1 << 62, 2), (1 << 63, N, 0));
}

#[test]
fn alu_smul_sets_overflow_on_signed_overflow() {
    let alu = Alu::new();
    assert_eq!(alu.cal(SMUL, neg(-3), 4), (neg(-12), N, 0));
    assert_eq!(alu.cal(SMUL, neg(-3), neg(-4)), (12, 0, 0));
    assert_eq!(alu.cal(SMUL, 1 << 62, 2), (1 << 63, N | V, 0));
    assert_eq!(alu.cal(SMUL, neg(i64::MIN), neg(-1)), (1 << 63, N | V, 0));
    assert_eq!(alu.cal(SMUL, neg(i64::MIN), 1), (1 << 63, N, 0));
    assert_eq!(alu.cal(SMUL, neg(-(1 << 62)), 2), (1 << 63, N, 0));
    assert_eq!(alu.cal(SMUL, 0, neg(-5)), (0, Z, 0));
}

#[test]
fn alu_division_by_zero_traps_with_clear_flags() {
    let alu = Alu::new();
    assert_eq!(alu.cal(DIV, 7, 0), (0, 0, 1));
    assert_eq!(alu.cal(SDIV, 7, 0), (0, 0, 1));
    assert_eq!(alu.cal(MODU, 7, 0), (0, 0, 1));
    assert_eq!(alu.cal(SMODU, 7, 0), (0, 0, 1));
}

#[test]
fn alu_unsigned_division_and_remainder() {
    let alu = Alu::new();
    assert_eq!(alu.cal(DIV, 4, 4), (1, 0, 0));
    assert_eq!(alu.cal(DIV, 7, 2), (3, 0, 0));
    assert_eq!(alu.cal(DIV, 1, 2), (0, Z, 0));
    assert_eq!(alu.cal(DIV, u64::MAX, 1), (u64::MAX, N, 0));
    assert_eq!(alu.cal(MODU, 7, 2), (1, 0, 0));
    assert_eq!(alu.cal(MODU, 8, 2), (0, Z, 0));
    assert_eq!(alu.cal(MODU, u64::MAX, 1 << 63), (i64::MAX as u64, 0, 0));
}

#[test]
fn alu_signed_division_rounds_toward_zero() {
    let alu = Alu::new();
    assert_eq!(alu.cal(SDIV, 7, 2), (3, 0, 0));
    assert_eq!(alu.cal(SDIV, neg(-7), 2), (neg(-3), N, 0));
    assert_eq!(alu.cal(SDIV, 7, neg(-2)), (neg(-3), N, 0));
    assert_eq!(alu.cal(SDIV, neg(-7), neg(-2)), (3, 0, 0));
    assert_eq!(alu.cal(SDIV, neg(-1), 2), (0, Z, 0));
    assert_eq!(alu.cal(SDIV, neg(i64::MIN), neg(-1)), (1 << 63, N, 0));
}

#[test]
fn alu_signed_remainder_takes_the_sign_of_the_dividend() {
    let alu = Alu::new();
    assert_eq!(alu.cal(SMODU, 7, 2), (1, 0, 0));
    assert_eq!(alu.cal(SMODU, neg(-7), 2), (neg(-1), N, 0));
    assert_eq!(alu.cal(SMODU, 7, neg(-2)), (1, 0, 0));
    assert_eq!(alu.cal(SMODU, neg(-7), neg(-2)), (neg(-1), N, 0));
    assert_eq!(alu.cal(SMODU, neg(i64::MIN), neg(-1)), (0, Z, 0));
}

#[test]
fn alu_signed_division_agrees_with_native_division() {
    let alu = Alu::new();
    let values: [i64; 9] = [0, 1, -1, 2, -2, 1000, -1000, i64::MAX, i64::MIN];
    for b in values {
        for c in values {
            if c == 0 {
                continue;
            }
            assert_eq!(alu.cal(SDIV, b as u64, c as u64).0, b.wrapping_div(c) as u64);
            assert_eq!(alu.cal(SMODU, b as u64, c as u64).0, b.wrapping_rem(c) as u64);
            assert_eq!(alu.cal(SMUL, b as u64, c as u64).0, b.wrapping_mul(c) as u64);
            let v = alu.cal(SMUL, b as u64, c as u64).1 & V == V;
            assert_eq!(v, b.overflowing_mul(c).1);
        }
    }
}

#[test]
fn alu_add_and_sub_agree_with_native_overflow_checks() {
    let alu = Alu::new();
    let values: [i64; 9] = [0, 1, -1, 2, -2, 1000, -1000, i64::MAX, i64::MIN];
    for b in values {
        for c in values {
            let (r, f, t) = alu.cal(ADD, b as u64, c as u64);
            assert_eq!(r, (b as u64).wrapping_add(c as u64));
            assert_eq!(f & V == V, b.overflowing_add(c).1);
            assert_eq!(f & C == C, (b as u64).overflowing_add(c as u64).1);
            assert_eq!(f & N == N, (r >> 63) == 1);
            assert_eq!(f & Z == Z, r == 0);
            assert_eq!(t, 0);
            let (r, f, _) = alu.cal(SUB, b as u64, c as u64);
            assert_eq!(r, (b as u64).wrapping_sub(c as u64));
            assert_eq!(f & V == V, b.overflowing_sub(c).1);
            assert_eq!(f & C == C, (b as u64) < (c as u64));
        }
    }
}

#[test]
fn alu_bitwise_operations() {
    let alu = Alu::new();
    assert_eq!(alu.cal(MVN, 0, 0), (u64::MAX, N, 0));
    assert_eq!(alu.cal(MVN, 0, u64::MAX), (0, Z, 0));
    assert_eq!(alu.cal(AND, 0b1100, 0b1010), (0b1000, 0, 0));
    assert_eq!(alu.cal(TST, 0b0100, 0b1010), (0, Z, 0));
    assert_eq!(alu.cal(ORR, 0b1100, 0b1010), (0b1110, 0, 0));
    assert_eq!(alu.cal(EOR, 0b1100, 0b1010), (0b0110, 0, 0));
    assert_eq!(alu.cal(TEQ, 5, 5), (0, Z, 0));
    assert_eq!(alu.cal(ORR, 1 << 63, 1), ((1 << 63) | 1, N, 0));
}

#[test]
fn alu_logical_shift_left() {
    let alu = Alu::new();
    assert_eq!(alu.cal(LSL, 0b101, 0), (0b101, 0, 0));
    assert_eq!(alu.cal(LSL, 0b101, 2), (0b10100, 0, 0));
    assert_eq!(alu.cal(LSL, (1 << 63) | 1, 1), (2, C, 0));
    assert_eq!(alu.cal(LSL, 1 << 62, 1), (1 << 63, N, 0));
    assert_eq!(alu.cal(LSL, 3, 63), (1 << 63, N | C, 0));
    assert_eq!(alu.cal(LSL, 1, 64), (0, Z | C, 0));
    assert_eq!(alu.cal(LSL, 2, 64), (0, Z, 0));
    assert_eq!(alu.cal(LSL, u64::MAX, 65), (0, Z, 0));
    assert_eq!(alu.cal(LSL, u64::MAX, u64::MAX), (0, Z, 0));
}

#[test]
fn alu_logical_shift_right() {
    let alu = Alu::new();
    assert_eq!(alu.cal(LSR, 0b101, 0), (0b101, 0, 0));
    assert_eq!(alu.cal(LSR, 0b101, 1), (0b10, C, 0));
    assert_eq!(alu.cal(LSR, 0b100, 1), (0b10, 0, 0));
    assert_eq!(alu.cal(LSR, 1 << 63, 63), (1, 0, 0));
    assert_eq!(alu.cal(LSR, 1 << 63, 64), (0, Z | C, 0));
    assert_eq!(alu.cal(LSR, 1 << 62, 64), (0, Z, 0));
    assert_eq!(alu.cal(LSR, u64::MAX, 65), (0, Z, 0));
}

#[test]
fn alu_arithmetic_shift_right() {
    let alu = Alu::new();
    assert_eq!(alu.cal(ASR, 0b101, 0), (0b101, 0, 0));
    assert_eq!(alu.cal(ASR, 0b101, 1), (0b10, C, 0));
    assert_eq!(alu.cal(ASR, neg(-8), 1), (neg(-4), N, 0));
    assert_eq!(alu.cal(ASR, neg(-7), 1), (neg(-4), N | C, 0));
    assert_eq!(alu.cal(ASR, neg(-1), 63), (neg(-1), N | C, 0));
    assert_eq!(alu.cal(ASR, 1 << 63, 63), (neg(-1), N, 0));
    assert_eq!(alu.cal(ASR, 1 << 63, 64), (neg(-1), N | C, 0));
    assert_eq!(alu.cal(ASR, 1 << 63, 100), (neg(-1), N | C, 0));
    assert_eq!(alu.cal(ASR, i64::MAX as u64, 64), (0, Z, 0));
    assert_eq!(alu.cal(ASR, i64::MAX as u64, 100), (0, Z, 0));
    for c in 0..64u32 {
        for b in [neg(-12345), 12345, 1 << 63, u64::MAX] {
            assert_eq!(alu.cal(ASR, b, c as u64).0, ((b as i64) >> c) as u64);
        }
    }
}

#[test]
fn alu_rotations() {
    let alu = Alu::new();
    assert_eq!(alu.cal(ROL, 1 << 63, 1), (1, C, 0));
    assert_eq!(alu.cal(ROL, 1, 1), (2, 0, 0));
    assert_eq!(alu.cal(ROL, 0b11, 0), (0b11, C, 0));
    assert_eq!(alu.cal(ROL, 0b10, 64), (0b10, 0, 0));
    assert_eq!(alu.cal(ROL, 5, 65), (10, 0, 0));
    assert_eq!(alu.cal(ROR, 1, 1), (1 << 63, N | C, 0));
    assert_eq!(alu.cal(ROR, 2, 1), (1, 0, 0));
    assert_eq!(alu.cal(ROR, 1 << 63, 0), (1 << 63, N | C, 0));
    assert_eq!(alu.cal(ROR, 4, 66), (1, 0, 0));
    for c in 0..130u64 {
        for b in [0x0123_4567_89ab_cdefu64, 1, 1 << 63, u64::MAX, 0] {
            assert_eq!(alu.cal(ROL, b, c).0, b.rotate_left((c % 64) as u32));
            assert_eq!(alu.cal(ROR, b, c).0, b.rotate_right((c % 64) as u32));
        }
    }
}

#[test]
fn alu_passes_the_c_operand_through_for_branches_and_stores() {
    let alu = Alu::new();
    for op in [0x2001u64, 0x2003, 0x3000, 0x3001, 0x1031] {
        assert_eq!(alu.cal(op, 5, 77), (77, 0, 0));
    }
    for op in [0x0000u64, 0x0001, 0x1030, 0x1032, 0x2000, 0x2002] {
        assert_eq!(alu.cal(op, 5, 77), (0, 0, 0));
    }
}

#[test]
fn cpsr_packs_n_z_c_v_into_the_low_nibble() {
    assert_eq!(Cpsr { n: true, z: false, c: false, v: false }.to_u8(), 0b1000);
    assert_eq!(Cpsr { n: false, z: true, c: false, v: false }.to_u8(), 0b0100);
    assert_eq!(Cpsr { n: false, z: false, c: true, v: false }.to_u8(), 0b0010);
    assert_eq!(Cpsr { n: false, z: false, c: false, v: true }.to_u8(), 0b0001);
    for nibble in 0..16u8 {
        assert_eq!(Cpsr::from_u8(nibble).to_u8(), nibble);
        assert_eq!(Cpsr::from_u8(nibble | 0xf0).to_u8(), nibble);
    }
    let f = Cpsr::from_u8(0b1010);
    assert!(f.n && !f.z && f.c && !f.v);
}
