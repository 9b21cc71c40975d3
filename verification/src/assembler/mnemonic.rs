use vstd::prelude::*;
use crate::assembler::error::ErrorKind;
use crate::assembler::text::{same_text, starts_with};
use crate::emulator::instr::Operation;

verus! {

/// The operation whose mnemonic the head of a line begins with. Where two
/// mnemonics fit, the longer one wins: `bl` is tried before `b`.
#[verifier::opaque]
pub open spec fn mnemonic_of(head: Seq<char>) -> Option<Operation> {
    if "smodu"@.is_prefix_of(head) {
        Some(Operation::SModu)
    } else if "smul"@.is_prefix_of(head) {
        Some(Operation::SMul)
    } else if "sdiv"@.is_prefix_of(head) {
        Some(Operation::SDiv)
    } else if "modu"@.is_prefix_of(head) {
        Some(Operation::Modu)
    } else if "push"@.is_prefix_of(head) {
        Some(Operation::Push)
    } else if "nop"@.is_prefix_of(head) {
        Some(Operation::Nop)
    } else if "hlt"@.is_prefix_of(head) {
        Some(Operation::Hlt)
    } else if "mov"@.is_prefix_of(head) {
        Some(Operation::Mov)
    } else if "add"@.is_prefix_of(head) {
        Some(Operation::Add)
    } else if "sub"@.is_prefix_of(head) {
        Some(Operation::Sub)
    } else if "mul"@.is_prefix_of(head) {
        Some(Operation::Mul)
    } else if "div"@.is_prefix_of(head) {
        Some(Operation::Div)
    } else if "mvn"@.is_prefix_of(head) {
        Some(Operation::Mvn)
    } else if "and"@.is_prefix_of(head) {
        Some(Operation::And)
    } else if "orr"@.is_prefix_of(head) {
        Some(Operation::Orr)
    } else if "eor"@.is_prefix_of(head) {
        Some(Operation::Eor)
    } else if "cmp"@.is_prefix_of(head) {
        Some(Operation::Cmp)
    } else if "cmn"@.is_prefix_of(head) {
        Some(Operation::Cmn)
    } else if "tst"@.is_prefix_of(head) {
        Some(Operation::Tst)
    } else if "teq"@.is_prefix_of(head) {
        Some(Operation::Teq)
    } else if "lsl"@.is_prefix_of(head) {
        Some(Operation::Lsl)
    } else if "lsr"@.is_prefix_of(head) {
        Some(Operation::Lsr)
    } else if "asr"@.is_prefix_of(head) {
        Some(Operation::Asr)
    } else if "rol"@.is_prefix_of(head) {
        Some(Operation::Rol)
    } else if "ror"@.is_prefix_of(head) {
        Some(Operation::Ror)
    } else if "mvi"@.is_prefix_of(head) {
        Some(Operation::Mvi)
    } else if "qry"@.is_prefix_of(head) {
        Some(Operation::Qry)
    } else if "int"@.is_prefix_of(head) {
        Some(Operation::Int)
    } else if "ldr"@.is_prefix_of(head) {
        Some(Operation::Ldr)
    } else if "str"@.is_prefix_of(head) {
        Some(Operation::Str)
    } else if "pop"@.is_prefix_of(head) {
        Some(Operation::Pop)
    } else if "bl"@.is_prefix_of(head) {
        Some(Operation::Bl)
    } else if "b"@.is_prefix_of(head) {
        Some(Operation::B)
    } else {
        None
    }
}

/// The operation with exactly this mnemonic.
pub open spec fn operation_named(name: Seq<char>) -> Option<Operation> {
    if name == "smodu"@ {
        Some(Operation::SModu)
    } else if name == "smul"@ {
        Some(Operation::SMul)
    } else if name == "sdiv"@ {
        Some(Operation::SDiv)
    } else if name == "modu"@ {
        Some(Operation::Modu)
    } else if name == "push"@ {
        Some(Operation::Push)
    } else if name == "nop"@ {
        Some(Operation::Nop)
    } else if name == "hlt"@ {
        Some(Operation::Hlt)
    } else if name == "mov"@ {
        Some(Operation::Mov)
    } else if name == "add"@ {
        Some(Operation::Add)
    } else if name == "sub"@ {
        Some(Operation::Sub)
    } else if name == "mul"@ {
        Some(Operation::Mul)
    } else if name == "div"@ {
        Some(Operation::Div)
    } else if name == "mvn"@ {
        Some(Operation::Mvn)
    } else if name == "and"@ {
        Some(Operation::And)
    } else if name == "orr"@ {
        Some(Operation::Orr)
    } else if name == "eor"@ {
        Some(Operation::Eor)
    } else if name == "cmp"@ {
        Some(Operation::Cmp)
    } else if name == "cmn"@ {
        Some(Operation::Cmn)
    } else if name == "tst"@ {
        Some(Operation::Tst)
    } else if name == "teq"@ {
        Some(Operation::Teq)
    } else if name == "lsl"@ {
        Some(Operation::Lsl)
    } else if name == "lsr"@ {
        Some(Operation::Lsr)
    } else if name == "asr"@ {
        Some(Operation::Asr)
    } else if name == "rol"@ {
        Some(Operation::Rol)
    } else if name == "ror"@ {
        Some(Operation::Ror)
    } else if name == "mvi"@ {
        Some(Operation::Mvi)
    } else if name == "qry"@ {
        Some(Operation::Qry)
    } else if name == "int"@ {
        Some(Operation::Int)
    } else if name == "ldr"@ {
        Some(Operation::Ldr)
    } else if name == "str"@ {
        Some(Operation::Str)
    } else if name == "pop"@ {
        Some(Operation::Pop)
    } else if name == "bl"@ {
        Some(Operation::Bl)
    } else if name == "b"@ {
        Some(Operation::B)
    } else {
        None
    }
}

/// The code of a condition name; no name is the condition AL. The codes 2
/// and 3 have two names each.
#[verifier::opaque]
pub open spec fn condition_code(s: Seq<char>) -> Option<u64> {
    if s.len() == 0 {
        Some(14)
    } else if s == "eq"@ {
        Some(0)
    } else if s == "ne"@ {
        Some(1)
    } else if s == "hs"@ {
        Some(2)
    } else if s == "cs"@ {
        Some(2)
    } else if s == "lo"@ {
        Some(3)
    } else if s == "cc"@ {
        Some(3)
    } else if s == "mi"@ {
        Some(4)
    } else if s == "pl"@ {
        Some(5)
    } else if s == "vs"@ {
        Some(6)
    } else if s == "vc"@ {
        Some(7)
    } else if s == "hi"@ {
        Some(8)
    } else if s == "ls"@ {
        Some(9)
    } else if s == "ge"@ {
        Some(10)
    } else if s == "lt"@ {
        Some(11)
    } else if s == "gt"@ {
        Some(12)
    } else if s == "le"@ {
        Some(13)
    } else if s == "al"@ {
        Some(14)
    } else {
        None
    }
}

/// The condition that the suffix of a mnemonic asks for: the suffix is a
/// condition name, or `s`, or `s` and a condition name. With `s` the
/// condition is AL whatever name follows.
pub open spec fn suffix_condition(suffix: Seq<char>) -> Option<u64> {
    if "s"@.is_prefix_of(suffix) {
        if condition_code(suffix.skip(1)) is Some {
            Some(14)
        } else {
            None
        }
    } else {
        condition_code(suffix)
    }
}

/// What the head of an instruction line says.
pub ghost struct Head {
    pub op: Operation,
    pub set_flags: bool,
    pub cond: u64,
}

/// What the head of a line says: the operation of the mnemonic it begins
/// with, and the flags bit and condition of the suffix that follows. `nop`
/// and `hlt` have no suffix: what follows them is ignored. The compare
/// operations set flags with any suffix.
pub open spec fn head_fields(head: Seq<char>) -> Result<Head, ErrorKind> {
    match mnemonic_of(head) {
        None => Err(ErrorKind::UnknownMnemonic),
        Some(op) => {
            let suffix = head.skip(op.mnemonic().len() as int);
            if op == Operation::Nop || op == Operation::Hlt {
                Ok(Head { op, set_flags: false, cond: 14 })
            } else {
                match suffix_condition(suffix) {
                    None => Err(ErrorKind::UnknownCondition),
                    Some(cond) => Ok(
                        Head { op, set_flags: op.is_compare() || "s"@.is_prefix_of(suffix), cond },
                    ),
                }
            }
        },
    }
}

/// The operation whose mnemonic `head` begins with.
pub fn find_mnemonic(head: &Vec<char>) -> (r: Option<Operation>)
    ensures
        r == mnemonic_of(head@),
{
    proof {
        reveal(mnemonic_of);
    }
    if starts_with(head, "smodu") {
        Some(Operation::SModu)
    } else if starts_with(head, "smul") {
        Some(Operation::SMul)
    } else if starts_with(head, "sdiv") {
        Some(Operation::SDiv)
    } else if starts_with(head, "modu") {
        Some(Operation::Modu)
    } else if starts_with(head, "push") {
        Some(Operation::Push)
    } else if starts_with(head, "nop") {
        Some(Operation::Nop)
    } else if starts_with(head, "hlt") {
        Some(Operation::Hlt)
    } else if starts_with(head, "mov") {
        Some(Operation::Mov)
    } else if starts_with(head, "add") {
        Some(Operation::Add)
    } else if starts_with(head, "sub") {
        Some(Operation::Sub)
    } else if starts_with(head, "mul") {
        Some(Operation::Mul)
    } else if starts_with(head, "div") {
        Some(Operation::Div)
    } else if starts_with(head, "mvn") {
        Some(Operation::Mvn)
    } else if starts_with(head, "and") {
        Some(Operation::And)
    } else if starts_with(head, "orr") {
        Some(Operation::Orr)
    } else if starts_with(head, "eor") {
        Some(Operation::Eor)
    } else if starts_with(head, "cmp") {
        Some(Operation::Cmp)
    } else if starts_with(head, "cmn") {
        Some(Operation::Cmn)
    } else if starts_with(head, "tst") {
        Some(Operation::Tst)
    } else if starts_with(head, "teq") {
        Some(Operation::Teq)
    } else if starts_with(head, "lsl") {
        Some(Operation::Lsl)
    } else if starts_with(head, "lsr") {
        Some(Operation::Lsr)
    } else if starts_with(head, "asr") {
        Some(Operation::Asr)
    } else if starts_with(head, "rol") {
        Some(Operation::Rol)
    } else if starts_with(head, "ror") {
        Some(Operation::Ror)
    } else if starts_with(head, "mvi") {
        Some(Operation::Mvi)
    } else if starts_with(head, "qry") {
        Some(Operation::Qry)
    } else if starts_with(head, "int") {
        Some(Operation::Int)
    } else if starts_with(head, "ldr") {
        Some(Operation::Ldr)
    } else if starts_with(head, "str") {
        Some(Operation::Str)
    } else if starts_with(head, "pop") {
        Some(Operation::Pop)
    } else if starts_with(head, "bl") {
        Some(Operation::Bl)
    } else if starts_with(head, "b") {
        Some(Operation::B)
    } else {
        None
    }
}

/// The operation with exactly the mnemonic `name`.
pub fn find_operation(name: &Vec<char>) -> (r: Option<Operation>)
    ensures
        r == operation_named(name@),
{
    if same_text(name, "smodu") {
        Some(Operation::SModu)
    } else if same_text(name, "smul") {
        Some(Operation::SMul)
    } else if same_text(name, "sdiv") {
        Some(Operation::SDiv)
    } else if same_text(name, "modu") {
        Some(Operation::Modu)
    } else if same_text(name, "push") {
        Some(Operation::Push)
    } else if same_text(name, "nop") {
        Some(Operation::Nop)
    } else if same_text(name, "hlt") {
        Some(Operation::Hlt)
    } else if same_text(name, "mov") {
        Some(Operation::Mov)
    } else if same_text(name, "add") {
        Some(Operation::Add)
    } else if same_text(name, "sub") {
        Some(Operation::Sub)
    } else if same_text(name, "mul") {
        Some(Operation::Mul)
    } else if same_text(name, "div") {
        Some(Operation::Div)
    } else if same_text(name, "mvn") {
        Some(Operation::Mvn)
    } else if same_text(name, "and") {
        Some(Operation::And)
    } else if same_text(name, "orr") {
        Some(Operation::Orr)
    } else if same_text(name, "eor") {
        Some(Operation::Eor)
    } else if same_text(name, "cmp") {
        Some(Operation::Cmp)
    } else if same_text(name, "cmn") {
        Some(Operation::Cmn)
    } else if same_text(name, "tst") {
        Some(Operation::Tst)
    } else if same_text(name, "teq") {
        Some(Operation::Teq)
    } else if same_text(name, "lsl") {
        Some(Operation::Lsl)
    } else if same_text(name, "lsr") {
        Some(Operation::Lsr)
    } else if same_text(name, "asr") {
        Some(Operation::Asr)
    } else if same_text(name, "rol") {
        Some(Operation::Rol)
    } else if same_text(name, "ror") {
        Some(Operation::Ror)
    } else if same_text(name, "mvi") {
        Some(Operation::Mvi)
    } else if same_text(name, "qry") {
        Some(Operation::Qry)
    } else if same_text(name, "int") {
        Some(Operation::Int)
    } else if same_text(name, "ldr") {
        Some(Operation::Ldr)
    } else if same_text(name, "str") {
        Some(Operation::Str)
    } else if same_text(name, "pop") {
        Some(Operation::Pop)
    } else if same_text(name, "bl") {
        Some(Operation::Bl)
    } else if same_text(name, "b") {
        Some(Operation::B)
    } else {
        None
    }
}

fn find_condition(s: &Vec<char>) -> (r: Option<u64>)
    ensures
        r == condition_code(s@),
{
    proof {
        reveal(condition_code);
    }
    if s.len() == 0 {
        Some(14)
    } else if same_text(s, "eq") {
        Some(0)
    } else if same_text(s, "ne") {
        Some(1)
    } else if same_text(s, "hs") {
        Some(2)
    } else if same_text(s, "cs") {
        Some(2)
    } else if same_text(s, "lo") {
        Some(3)
    } else if same_text(s, "cc") {
        Some(3)
    } else if same_text(s, "mi") {
        Some(4)
    } else if same_text(s, "pl") {
        Some(5)
    } else if same_text(s, "vs") {
        Some(6)
    } else if same_text(s, "vc") {
        Some(7)
    } else if same_text(s, "hi") {
        Some(8)
    } else if same_text(s, "ls") {
        Some(9)
    } else if same_text(s, "ge") {
        Some(10)
    } else if same_text(s, "lt") {
        Some(11)
    } else if same_text(s, "gt") {
        Some(12)
    } else if same_text(s, "le") {
        Some(13)
    } else if same_text(s, "al") {
        Some(14)
    } else {
        None
    }
}

/// The condition that the suffix of a mnemonic asks for.
pub fn find_suffix_condition(suffix: &Vec<char>) -> (r: Option<u64>)
    ensures
        r == suffix_condition(suffix@),
{
    if starts_with(suffix, "s") {
        proof {
            reveal_strlit("s");
        }
        let mut rest: Vec<char> = Vec::new();
        let mut i: usize = 1;
        while i < suffix.len()
            invariant
                1 <= i <= suffix@.len(),
                rest@ == suffix@.subrange(1, i as int),
            decreases suffix@.len() - i,
        {
            rest.push(suffix[i]);
            assert(suffix@.subrange(1, i as int).push(suffix@[i as int]) =~= suffix@.subrange(
                1,
                i + 1,
            ));
            i = i + 1;
        }
        assert(rest@ =~= suffix@.skip(1));
        match find_condition(&rest) {
            Some(_) => Some(14),
            None => None,
        }
    } else {
        find_condition(suffix)
    }
}

} // verus!
