use vstd::prelude::*;
use crate::assembler::assemble::{
    encoded_line,
    line_fields,
    operand_fields,
    operand_value,
    OperandFields,
};
use crate::assembler::error::ErrorKind;
use crate::assembler::mnemonic::{
    condition_code,
    head_fields,
    mnemonic_of,
    operation_named,
    suffix_condition,
    Head,
};
use crate::assembler::text::{
    decimal_text,
    digit_of,
    field_end,
    fields_from,
    head_end,
    head_of,
    is_separator,
    is_space,
    lemma_decimal_round_trip,
    lemma_field_end_bounds,
    lemma_number_grows,
    number_value,
    operands_of,
    skip_spaces,
};
use crate::emulator::instr::{
    c_text,
    condition_name,
    disassembled,
    instruction_text,
    joined,
    lemma_unpack_pack,
    operand_texts,
    pack_word,
    postfix_text,
    register_text,
    Instr,
    OperandShape,
    Operation,
};

verus! {

/// A text that is one field: not empty, and without a separator in it.
pub open spec fn is_field(s: Seq<char>, commas: bool) -> bool {
    s.len() > 0 && forall|k: int| 0 <= k < s.len() ==> !is_separator(#[trigger] s[k], commas)
}

proof fn lemma_field_end_run(s: Seq<char>, i: int, j: int, commas: bool)
    requires
        0 <= i <= j <= s.len(),
        forall|k: int| i <= k < j ==> !is_separator(#[trigger] s[k], commas),
        j == s.len() || is_separator(s[j], commas),
    ensures
        field_end(s, i, commas) == j,
    decreases j - i,
{
    if i < j {
        lemma_field_end_run(s, i + 1, j, commas);
    }
}

proof fn lemma_field_end_shift(a: Seq<char>, b: Seq<char>, i: int, commas: bool)
    requires
        0 <= i <= b.len(),
    ensures
        field_end(a + b, a.len() + i, commas) == a.len() + field_end(b, i, commas),
    decreases b.len() - i,
{
    if i < b.len() {
        assert((a + b)[a.len() + i] == b[i]);
        if !is_separator(b[i], commas) {
            lemma_field_end_shift(a, b, i + 1, commas);
        }
    }
}

proof fn lemma_fields_shift(a: Seq<char>, b: Seq<char>, i: int, commas: bool)
    requires
        0 <= i <= b.len(),
    ensures
        fields_from(a + b, a.len() + i, commas) == fields_from(b, i, commas),
    decreases b.len() - i,
{
    if i < b.len() {
        assert((a + b)[a.len() + i] == b[i]);
        if is_separator(b[i], commas) {
            lemma_fields_shift(a, b, i + 1, commas);
        } else {
            lemma_field_end_shift(a, b, i, commas);
            lemma_field_end_bounds(b, i, commas);
            let e = field_end(b, i, commas);
            lemma_fields_shift(a, b, e, commas);
            assert((a + b).subrange(a.len() + i, a.len() + e) =~= b.subrange(i, e));
        }
    }
}

/// The fields of operands joined by a comma and a space are the operands.
pub proof fn lemma_fields_of_joined(ops: Seq<Seq<char>>)
    requires
        forall|k: int| 0 <= k < ops.len() ==> is_field(#[trigger] ops[k], true),
    ensures
        fields_from(joined(ops), 0, true) == ops,
    decreases ops.len(),
{
    reveal_strlit(", ");
    if ops.len() == 0 {
        assert(fields_from(joined(ops), 0, true) =~= ops);
    } else {
        let first = ops[0];
        assert(is_field(first, true));
        let s = joined(ops);
        let n = first.len() as int;
        if ops.len() == 1 {
            lemma_field_end_run(s, 0, n, true);
            assert(s.subrange(0, n) =~= first);
            assert(fields_from(s, n, true) =~= Seq::<Seq<char>>::empty());
            assert(seq![first] + Seq::<Seq<char>>::empty() =~= ops);
        } else {
            let rest = ops.drop_first();
            assert forall|k: int| 0 <= k < rest.len() implies is_field(#[trigger] rest[k], true) by {
                assert(rest[k] == ops[k + 1]);
            }
            lemma_fields_of_joined(rest);
            let prefix = first + ", "@;
            assert(s =~= prefix + joined(rest));
            assert(s[n] == ',');
            assert(s[n + 1] == ' ');
            assert forall|k: int| 0 <= k < n implies !is_separator(#[trigger] s[k], true) by {
                assert(s[k] == first[k]);
            }
            lemma_field_end_run(s, 0, n, true);
            assert(s.subrange(0, n) =~= first);
            lemma_fields_shift(prefix, joined(rest), 0, true);
            assert(fields_from(s, n, true) == fields_from(s, n + 1, true));
            assert(fields_from(s, n + 1, true) == fields_from(s, n + 2, true));
            assert(seq![first] + rest =~= ops);
        }
    }
}

/// The text of an instruction splits into the head and the operands that it
/// was made of.
pub proof fn lemma_text_splits(head: Seq<char>, ops: Seq<Seq<char>>)
    requires
        is_field(head, false),
        forall|k: int| 0 <= k < ops.len() ==> is_field(#[trigger] ops[k], true),
    ensures
        head_of(instruction_text(head, ops)) == head,
        operands_of(instruction_text(head, ops)) == ops,
{
    reveal_strlit(" ");
    let t = instruction_text(head, ops);
    let n = head.len() as int;
    assert(!is_separator(head[0], false));
    assert(t[0] == head[0]);
    assert(skip_spaces(t, 0) == 0);
    assert forall|k: int| 0 <= k < n implies !is_separator(#[trigger] t[k], false) by {
        assert(t[k] == head[k]);
    }
    if ops.len() == 0 {
        lemma_field_end_run(t, 0, n, false);
        assert(t.subrange(0, n) =~= head);
        assert(fields_from(t, n, true) =~= ops);
    } else {
        let prefix = head + " "@;
        assert(t =~= prefix + joined(ops));
        assert(t[n] == ' ');
        lemma_field_end_run(t, 0, n, false);
        assert(t.subrange(0, n) =~= head);
        lemma_fields_of_joined(ops);
        lemma_fields_shift(prefix, joined(ops), 0, true);
        assert(fields_from(t, n, true) == fields_from(t, n + 1, true));
    }
}

/// The decimal text of a number is one field.
pub proof fn lemma_decimal_is_field(n: nat)
    ensures
        is_field(decimal_text(n), true),
        is_field(decimal_text(n), false),
{
    lemma_decimal_round_trip(n);
    assert forall|k: int| 0 <= k < decimal_text(n).len() implies !is_separator(
        #[trigger] decimal_text(n)[k],
        true,
    ) by {
        assert(digit_of(decimal_text(n)[k], 10) is Some);
    }
}

/// The text of a register is read as that register.
pub proof fn lemma_register_text_reads(n: u64, labels: Map<Seq<char>, usize>)
    requires
        n <= 15,
    ensures
        operand_value(register_text(n), labels) == Ok::<(u64, bool), ErrorKind>((n, false)),
        is_field(register_text(n), true),
{
    reveal_strlit("r");
    reveal_strlit("lr");
    reveal_strlit("sp");
    reveal_strlit("pc");
    let t = register_text(n);
    lemma_decimal_round_trip(n as nat);
    lemma_decimal_is_field(n as nat);
    assert(t[0] == 'r');
    assert(t.skip(1) =~= decimal_text(n as nat));
    assert(t != "lr"@) by {
        assert("lr"@[0] == 'l');
    }
    assert(t != "sp"@) by {
        assert("sp"@[0] == 's');
    }
    assert(t != "pc"@) by {
        assert("pc"@[0] == 'p');
    }
    assert forall|k: int| 0 <= k < t.len() implies !is_separator(#[trigger] t[k], true) by {
        if k > 0 {
            assert(t[k] == decimal_text(n as nat)[k - 1]);
        }
    }
}

/// The text of a C operand is read as that operand.
pub proof fn lemma_c_text_reads(f: Instr, labels: Map<Seq<char>, usize>)
    requires
        f.in_range(),
    ensures
        operand_value(c_text(f), labels) == Ok::<(u64, bool), ErrorKind>((f.reg_c, f.c_is_imm)),
        is_field(c_text(f), true),
{
    if f.c_is_imm {
        reveal_strlit("#");
        reveal_strlit("lr");
        reveal_strlit("sp");
        reveal_strlit("pc");
        let t = c_text(f);
        lemma_decimal_round_trip(f.reg_c as nat);
        lemma_decimal_is_field(f.reg_c as nat);
        assert(t[0] == '#');
        assert(t.skip(1) =~= decimal_text(f.reg_c as nat));
        assert(t != "lr"@) by {
            assert("lr"@[0] == 'l');
        }
        assert(t != "sp"@) by {
            assert("sp"@[0] == 's');
        }
        assert(t != "pc"@) by {
            assert("pc"@[0] == 'p');
        }
        assert forall|k: int| 0 <= k < t.len() implies !is_separator(#[trigger] t[k], true) by {
            if k > 0 {
                assert(t[k] == decimal_text(f.reg_c as nat)[k - 1]);
            }
        }
    } else {
        lemma_register_text_reads(f.reg_c, labels);
    }
}

proof fn reveal_mnemonics()
    ensures
        forall|op: Operation| 1 <= (#[trigger] op.mnemonic()).len() <= 5,
        forall|op: Operation, k: int|
            0 <= k < op.mnemonic().len() ==> !is_space(#[trigger] op.mnemonic()[k]),
{
    reveal_strlit("smodu");
    reveal_strlit("smul");
    reveal_strlit("sdiv");
    reveal_strlit("modu");
    reveal_strlit("push");
    reveal_strlit("nop");
    reveal_strlit("hlt");
    reveal_strlit("mov");
    reveal_strlit("add");
    reveal_strlit("sub");
    reveal_strlit("mul");
    reveal_strlit("div");
    reveal_strlit("mvn");
    reveal_strlit("and");
    reveal_strlit("orr");
    reveal_strlit("eor");
    reveal_strlit("cmp");
    reveal_strlit("cmn");
    reveal_strlit("tst");
    reveal_strlit("teq");
    reveal_strlit("lsl");
    reveal_strlit("lsr");
    reveal_strlit("asr");
    reveal_strlit("rol");
    reveal_strlit("ror");
    reveal_strlit("mvi");
    reveal_strlit("qry");
    reveal_strlit("int");
    reveal_strlit("ldr");
    reveal_strlit("str");
    reveal_strlit("pop");
    reveal_strlit("bl");
    reveal_strlit("b");
    assert forall|op: Operation| 1 <= (#[trigger] op.mnemonic()).len() <= 5 by {
        match op {
            _ => {},
        }
    }
    assert forall|op: Operation, k: int| 0 <= k < op.mnemonic().len() implies !is_space(
        #[trigger] op.mnemonic()[k],
    ) by {
        match op {
            _ => {},
        }
    }
}

/// A head that begins with a mnemonic is found to begin with it, unless
/// the mnemonic is `b` and the head begins with `bl` too.
pub proof fn lemma_mnemonic_decides(op: Operation, head: Seq<char>)
    requires
        op.mnemonic().is_prefix_of(head),
    ensures
        mnemonic_of(head) == Some(op) || (op == Operation::B && "bl"@.is_prefix_of(head)
            && mnemonic_of(head) == Some(Operation::Bl)),
{
    reveal_strlit("smodu");
    reveal_strlit("smul");
    reveal_strlit("sdiv");
    reveal_strlit("modu");
    reveal_strlit("push");
    reveal_strlit("nop");
    reveal_strlit("hlt");
    reveal_strlit("mov");
    reveal_strlit("add");
    reveal_strlit("sub");
    reveal_strlit("mul");
    reveal_strlit("div");
    reveal_strlit("mvn");
    reveal_strlit("and");
    reveal_strlit("orr");
    reveal_strlit("eor");
    reveal_strlit("cmp");
    reveal_strlit("cmn");
    reveal_strlit("tst");
    reveal_strlit("teq");
    reveal_strlit("lsl");
    reveal_strlit("lsr");
    reveal_strlit("asr");
    reveal_strlit("rol");
    reveal_strlit("ror");
    reveal_strlit("mvi");
    reveal_strlit("qry");
    reveal_strlit("int");
    reveal_strlit("ldr");
    reveal_strlit("str");
    reveal_strlit("pop");
    reveal_strlit("bl");
    reveal_strlit("b");
    reveal(mnemonic_of);
    match op {
        Operation::Nop => {
            assert(head.subrange(0, 3)[0] == 'n');
            assert(head.subrange(0, 3)[1] == 'o');
            assert(head.subrange(0, 3)[2] == 'p');
        },
        Operation::Hlt => {
            assert(head.subrange(0, 3)[0] == 'h');
            assert(head.subrange(0, 3)[1] == 'l');
            assert(head.subrange(0, 3)[2] == 't');
        },
        Operation::Mov => {
            assert(head.subrange(0, 3)[0] == 'm');
            assert(head.subrange(0, 3)[1] == 'o');
            assert(head.subrange(0, 3)[2] == 'v');
        },
        Operation::Add => {
            assert(head.subrange(0, 3)[0] == 'a');
            assert(head.subrange(0, 3)[1] == 'd');
            assert(head.subrange(0, 3)[2] == 'd');
        },
        Operation::Sub => {
            assert(head.subrange(0, 3)[0] == 's');
            assert(head.subrange(0, 3)[1] == 'u');
            assert(head.subrange(0, 3)[2] == 'b');
        },
        Operation::Mul => {
            assert(head.subrange(0, 3)[0] == 'm');
            assert(head.subrange(0, 3)[1] == 'u');
            assert(head.subrange(0, 3)[2] == 'l');
        },
        Operation::Div => {
            assert(head.subrange(0, 3)[0] == 'd');
            assert(head.subrange(0, 3)[1] == 'i');
            assert(head.subrange(0, 3)[2] == 'v');
        },
        Operation::SMul => {
            assert(head.subrange(0, 4)[0] == 's');
            assert(head.subrange(0, 4)[1] == 'm');
            assert(head.subrange(0, 4)[2] == 'u');
            assert(head.subrange(0, 4)[3] == 'l');
        },
        Operation::SDiv => {
            assert(head.subrange(0, 4)[0] == 's');
            assert(head.subrange(0, 4)[1] == 'd');
            assert(head.subrange(0, 4)[2] == 'i');
            assert(head.subrange(0, 4)[3] == 'v');
        },
        Operation::Modu => {
            assert(head.subrange(0, 4)[0] == 'm');
            assert(head.subrange(0, 4)[1] == 'o');
            assert(head.subrange(0, 4)[2] == 'd');
            assert(head.subrange(0, 4)[3] == 'u');
        },
        Operation::SModu => {
            assert(head.subrange(0, 5)[0] == 's');
            assert(head.subrange(0, 5)[1] == 'm');
            assert(head.subrange(0, 5)[2] == 'o');
            assert(head.subrange(0, 5)[3] == 'd');
            assert(head.subrange(0, 5)[4] == 'u');
        },
        Operation::Mvn => {
            assert(head.subrange(0, 3)[0] == 'm');
            assert(head.subrange(0, 3)[1] == 'v');
            assert(head.subrange(0, 3)[2] == 'n');
        },
        Operation::And => {
            assert(head.subrange(0, 3)[0] == 'a');
            assert(head.subrange(0, 3)[1] == 'n');
            assert(head.subrange(0, 3)[2] == 'd');
        },
        Operation::Orr => {
            assert(head.subrange(0, 3)[0] == 'o');
            assert(head.subrange(0, 3)[1] == 'r');
            assert(head.subrange(0, 3)[2] == 'r');
        },
        Operation::Eor => {
            assert(head.subrange(0, 3)[0] == 'e');
            assert(head.subrange(0, 3)[1] == 'o');
            assert(head.subrange(0, 3)[2] == 'r');
        },
        Operation::Cmp => {
            assert(head.subrange(0, 3)[0] == 'c');
            assert(head.subrange(0, 3)[1] == 'm');
            assert(head.subrange(0, 3)[2] == 'p');
        },
        Operation::Cmn => {
            assert(head.subrange(0, 3)[0] == 'c');
            assert(head.subrange(0, 3)[1] == 'm');
            assert(head.subrange(0, 3)[2] == 'n');
        },
        Operation::Tst => {
            assert(head.subrange(0, 3)[0] == 't');
            assert(head.subrange(0, 3)[1] == 's');
            assert(head.subrange(0, 3)[2] == 't');
        },
        Operation::Teq => {
            assert(head.subrange(0, 3)[0] == 't');
            assert(head.subrange(0, 3)[1] == 'e');
            assert(head.subrange(0, 3)[2] == 'q');
        },
        Operation::Lsl => {
            assert(head.subrange(0, 3)[0] == 'l');
            assert(head.subrange(0, 3)[1] == 's');
            assert(head.subrange(0, 3)[2] == 'l');
        },
        Operation::Lsr => {
            assert(head.subrange(0, 3)[0] == 'l');
            assert(head.subrange(0, 3)[1] == 's');
            assert(head.subrange(0, 3)[2] == 'r');
        },
        Operation::Asr => {
            assert(head.subrange(0, 3)[0] == 'a');
            assert(head.subrange(0, 3)[1] == 's');
            assert(head.subrange(0, 3)[2] == 'r');
        },
        Operation::Rol => {
            assert(head.subrange(0, 3)[0] == 'r');
            assert(head.subrange(0, 3)[1] == 'o');
            assert(head.subrange(0, 3)[2] == 'l');
        },
        Operation::Ror => {
            assert(head.subrange(0, 3)[0] == 'r');
            assert(head.subrange(0, 3)[1] == 'o');
            assert(head.subrange(0, 3)[2] == 'r');
        },
        Operation::Mvi => {
            assert(head.subrange(0, 3)[0] == 'm');
            assert(head.subrange(0, 3)[1] == 'v');
            assert(head.subrange(0, 3)[2] == 'i');
        },
        Operation::Qry => {
            assert(head.subrange(0, 3)[0] == 'q');
            assert(head.subrange(0, 3)[1] == 'r');
            assert(head.subrange(0, 3)[2] == 'y');
        },
        Operation::Int => {
            assert(head.subrange(0, 3)[0] == 'i');
            assert(head.subrange(0, 3)[1] == 'n');
            assert(head.subrange(0, 3)[2] == 't');
        },
        Operation::Ldr => {
            assert(head.subrange(0, 3)[0] == 'l');
            assert(head.subrange(0, 3)[1] == 'd');
            assert(head.subrange(0, 3)[2] == 'r');
        },
        Operation::Str => {
            assert(head.subrange(0, 3)[0] == 's');
            assert(head.subrange(0, 3)[1] == 't');
            assert(head.subrange(0, 3)[2] == 'r');
        },
        Operation::Pop => {
            assert(head.subrange(0, 3)[0] == 'p');
            assert(head.subrange(0, 3)[1] == 'o');
            assert(head.subrange(0, 3)[2] == 'p');
        },
        Operation::Push => {
            assert(head.subrange(0, 4)[0] == 'p');
            assert(head.subrange(0, 4)[1] == 'u');
            assert(head.subrange(0, 4)[2] == 's');
            assert(head.subrange(0, 4)[3] == 'h');
        },
        Operation::B => {
            assert(head.subrange(0, 1)[0] == 'b');
            if "bl"@.is_prefix_of(head) {
                assert(head.subrange(0, 2)[1] == 'l');
            }
        },
        Operation::Bl => {
            assert(head.subrange(0, 2)[0] == 'b');
            assert(head.subrange(0, 2)[1] == 'l');
        },
    }
}

/// Of the mnemonics that a head begins with, the longest is found; none is
/// found only if the head begins with none.
pub proof fn lemma_longest_mnemonic_wins(head: Seq<char>, other: Operation)
    ensures
        mnemonic_of(head) matches Some(op) ==> op.mnemonic().is_prefix_of(head),
        other.mnemonic().is_prefix_of(head) ==> mnemonic_of(head) is Some
            && other.mnemonic().len() <= mnemonic_of(head)->0.mnemonic().len(),
{
    reveal_strlit("b");
    reveal_strlit("bl");
    if mnemonic_of(head) is Some {
        crate::assembler::assemble::lemma_mnemonic_is_prefix(head);
    }
    if other.mnemonic().is_prefix_of(head) {
        lemma_mnemonic_decides(other, head);
    }
}

/// A mnemonic with anything after it is found to begin with that mnemonic,
/// unless it is `b` with an `l` after it, which reads as `bl`.
pub proof fn lemma_mnemonic_found(op: Operation, rest: Seq<char>)
    requires
        op == Operation::B ==> (rest.len() == 0 || rest[0] != 'l'),
    ensures
        mnemonic_of(op.mnemonic() + rest) == Some(op),
        (op.mnemonic() + rest).skip(op.mnemonic().len() as int) == rest,
{
    reveal_strlit("b");
    reveal_strlit("bl");
    let m = op.mnemonic();
    let t = m + rest;
    assert(t.skip(m.len() as int) =~= rest);
    assert(m =~= t.subrange(0, m.len() as int));
    lemma_mnemonic_decides(op, t);
    if op == Operation::B && "bl"@.is_prefix_of(t) {
        assert(t.subrange(0, 2)[1] == 'l');
        assert(t[1] == rest[0]);
    }
}

/// An operation is named by its mnemonic and by nothing else.
pub proof fn lemma_operation_named(name: Seq<char>, op: Operation)
    ensures
        operation_named(name) == Some(op) <==> name == op.mnemonic(),
{
    reveal_strlit("smodu");
    reveal_strlit("smul");
    reveal_strlit("sdiv");
    reveal_strlit("modu");
    reveal_strlit("push");
    reveal_strlit("nop");
    reveal_strlit("hlt");
    reveal_strlit("mov");
    reveal_strlit("add");
    reveal_strlit("sub");
    reveal_strlit("mul");
    reveal_strlit("div");
    reveal_strlit("mvn");
    reveal_strlit("and");
    reveal_strlit("orr");
    reveal_strlit("eor");
    reveal_strlit("cmp");
    reveal_strlit("cmn");
    reveal_strlit("tst");
    reveal_strlit("teq");
    reveal_strlit("lsl");
    reveal_strlit("lsr");
    reveal_strlit("asr");
    reveal_strlit("rol");
    reveal_strlit("ror");
    reveal_strlit("mvi");
    reveal_strlit("qry");
    reveal_strlit("int");
    reveal_strlit("ldr");
    reveal_strlit("str");
    reveal_strlit("pop");
    reveal_strlit("bl");
    reveal_strlit("b");
    match op {
        Operation::Nop => {
            if name == op.mnemonic() {
                assert(name[0] == 'n');
                assert(name[1] == 'o');
                assert(name[2] == 'p');
                assert(operation_named(name) == Some(op));
            }
        },
        Operation::Hlt => {
            if name == op.mnemonic() {
                assert(name[0] == 'h');
                assert(name[1] == 'l');
                assert(name[2] == 't');
                assert(operation_named(name) == Some(op));
            }
        },
        Operation::Mov => {
            if name == op.mnemonic() {
                assert(name[0] == 'm');
                assert(name[1] == 'o');
                assert(name[2] == 'v');
                assert(operation_named(name) == Some(op));
            }
        },
        Operation::Add => {
            if name == op.mnemonic() {
                assert(name[0] == 'a');
                assert(name[1] == 'd');
                assert(name[2] == 'd');
                assert(operation_named(name) == Some(op));
            }
        },
        Operation::Sub => {
            if name == op.mnemonic() {
                assert(name[0] == 's');
                assert(name[1] == 'u');
                assert(name[2] == 'b');
                assert(operation_named(name) == Some(op));
            }
        },
        Operation::Mul => {
            if name == op.mnemonic() {
                assert(name[0] == 'm');
                assert(name[1] == 'u');
                assert(name[2] == 'l');
                assert(operation_named(name) == Some(op));
            }
        },
        Operation::Div => {
            if name == op.mnemonic() {
                assert(name[0] == 'd');
                assert(name[1] == 'i');
                assert(name[2] == 'v');
                assert(operation_named(name) == Some(op));
            }
        },
        Operation::SMul => {
            if name == op.mnemonic() {
                assert(name[0] == 's');
                assert(name[1] == 'm');
                assert(name[2] == 'u');
                assert(name[3] == 'l');
                assert(operation_named(name) == Some(op));
            }
        },
        Operation::SDiv => {
            if name == op.mnemonic() {
                assert(name[0] == 's');
                assert(name[1] == 'd');
                assert(name[2] == 'i');
                assert(name[3] == 'v');
                assert(operation_named(name) == Some(op));
            }
        },
        Operation::Modu => {
            if name == op.mnemonic() {
                assert(name[0] == 'm');
                assert(name[1] == 'o');
                assert(name[2] == 'd');
                assert(name[3] == 'u');
                assert(operation_named(name) == Some(op));
            }
        },
        Operation::SModu => {
            if name == op.mnemonic() {
                assert(name[0] == 's');
                assert(name[1] == 'm');
                assert(name[2] == 'o');
                assert(name[3] == 'd');
                assert(name[4] == 'u');
                assert(operation_named(name) == Some(op));
            }
        },
        Operation::Mvn => {
            if name == op.mnemonic() {
                assert(name[0] == 'm');
                assert(name[1] == 'v');
                assert(name[2] == 'n');
                assert(operation_named(name) == Some(op));
            }
        },
        Operation::And => {
            if name == op.mnemonic() {
                assert(name[0] == 'a');
                assert(name[1] == 'n');
                assert(name[2] == 'd');
                assert(operation_named(name) == Some(op));
            }
        },
        Operation::Orr => {
            if name == op.mnemonic() {
                assert(name[0] == 'o');
                assert(name[1] == 'r');
                assert(name[2] == 'r');
                assert(operation_named(name) == Some(op));
            }
        },
        Operation::Eor => {
            if name == op.mnemonic() {
                assert(name[0] == 'e');
                assert(name[1] == 'o');
                assert(name[2] == 'r');
                assert(operation_named(name) == Some(op));
            }
        },
        Operation::Cmp => {
            if name == op.mnemonic() {
                assert(name[0] == 'c');
                assert(name[1] == 'm');
                assert(name[2] == 'p');
                assert(operation_named(name) == Some(op));
            }
        },
        Operation::Cmn => {
            if name == op.mnemonic() {
                assert(name[0] == 'c');
                assert(name[1] == 'm');
                assert(name[2] == 'n');
                assert(operation_named(name) == Some(op));
            }
        },
        Operation::Tst => {
            if name == op.mnemonic() {
                assert(name[0] == 't');
                assert(name[1] == 's');
                assert(name[2] == 't');
                assert(operation_named(name) == Some(op));
            }
        },
        Operation::Teq => {
            if name == op.mnemonic() {
                assert(name[0] == 't');
                assert(name[1] == 'e');
                assert(name[2] == 'q');
                assert(operation_named(name) == Some(op));
            }
        },
        Operation::Lsl => {
            if name == op.mnemonic() {
                assert(name[0] == 'l');
                assert(name[1] == 's');
                assert(name[2] == 'l');
                assert(operation_named(name) == Some(op));
            }
        },
        Operation::Lsr => {
            if name == op.mnemonic() {
                assert(name[0] == 'l');
                assert(name[1] == 's');
                assert(name[2] == 'r');
                assert(operation_named(name) == Some(op));
            }
        },
        Operation::Asr => {
            if name == op.mnemonic() {
                assert(name[0] == 'a');
                assert(name[1] == 's');
                assert(name[2] == 'r');
                assert(operation_named(name) == Some(op));
            }
        },
        Operation::Rol => {
            if name == op.mnemonic() {
                assert(name[0] == 'r');
                assert(name[1] == 'o');
                assert(name[2] == 'l');
                assert(operation_named(name) == Some(op));
            }
        },
        Operation::Ror => {
            if name == op.mnemonic() {
                assert(name[0] == 'r');
                assert(name[1] == 'o');
                assert(name[2] == 'r');
                assert(operation_named(name) == Some(op));
            }
        },
        Operation::Mvi => {
            if name == op.mnemonic() {
                assert(name[0] == 'm');
                assert(name[1] == 'v');
                assert(name[2] == 'i');
                assert(operation_named(name) == Some(op));
            }
        },
        Operation::Qry => {
            if name == op.mnemonic() {
                assert(name[0] == 'q');
                assert(name[1] == 'r');
                assert(name[2] == 'y');
                assert(operation_named(name) == Some(op));
            }
        },
        Operation::Int => {
            if name == op.mnemonic() {
                assert(name[0] == 'i');
                assert(name[1] == 'n');
                assert(name[2] == 't');
                assert(operation_named(name) == Some(op));
            }
        },
        Operation::Ldr => {
            if name == op.mnemonic() {
                assert(name[0] == 'l');
                assert(name[1] == 'd');
                assert(name[2] == 'r');
                assert(operation_named(name) == Some(op));
            }
        },
        Operation::Str => {
            if name == op.mnemonic() {
                assert(name[0] == 's');
                assert(name[1] == 't');
                assert(name[2] == 'r');
                assert(operation_named(name) == Some(op));
            }
        },
        Operation::Pop => {
            if name == op.mnemonic() {
                assert(name[0] == 'p');
                assert(name[1] == 'o');
                assert(name[2] == 'p');
                assert(operation_named(name) == Some(op));
            }
        },
        Operation::Push => {
            if name == op.mnemonic() {
                assert(name[0] == 'p');
                assert(name[1] == 'u');
                assert(name[2] == 's');
                assert(name[3] == 'h');
                assert(operation_named(name) == Some(op));
            }
        },
        Operation::B => {
            if name == op.mnemonic() {
                assert(name[0] == 'b');
                assert(name.len() == 1);
                assert("bl"@.len() == 2);
                assert(operation_named(name) == Some(op));
            }
        },
        Operation::Bl => {
            if name == op.mnemonic() {
                assert(name[0] == 'b');
                assert(name[1] == 'l');
                assert(operation_named(name) == Some(op));
            }
        },
    }
}

/// The name of a condition reads as that condition, begins with no `s` and
/// holds no white space.
pub proof fn lemma_condition_name_reads(cond: u64)
    requires
        cond < 15,
    ensures
        condition_name(cond) is Some,
        condition_code(condition_name(cond)->0) == Some(cond),
        suffix_condition(condition_name(cond)->0) == Some(cond),
        !"s"@.is_prefix_of(condition_name(cond)->0),
        forall|k: int|
            0 <= k < condition_name(cond)->0.len() ==> !is_space(
                #[trigger] condition_name(cond)->0[k],
            ),
        condition_name(cond)->0.len() > 0 && condition_name(cond)->0[0] == 'l' ==> cond == 9
            || cond == 11 || cond == 13,
{
    reveal_strlit("eq");
    reveal_strlit("ne");
    reveal_strlit("hs");
    reveal_strlit("cs");
    reveal_strlit("lo");
    reveal_strlit("cc");
    reveal_strlit("mi");
    reveal_strlit("pl");
    reveal_strlit("vs");
    reveal_strlit("vc");
    reveal_strlit("hi");
    reveal_strlit("ls");
    reveal_strlit("ge");
    reveal_strlit("lt");
    reveal_strlit("gt");
    reveal_strlit("le");
    reveal_strlit("al");
    reveal_strlit("s");
    reveal_strlit("");
    reveal(condition_code);
    let n = condition_name(cond)->0;
    if "s"@.is_prefix_of(n) {
        assert(n.subrange(0, 1)[0] == 's');
    }
    if cond == 0 {
        assert(n[0] == 'e');
        assert(n[1] == 'q');
        assert(condition_code(n) == Some(cond));
    } else if cond == 1 {
        assert(n[0] == 'n');
        assert(n[1] == 'e');
        assert(condition_code(n) == Some(cond));
    } else if cond == 2 {
        assert(n[0] == 'c');
        assert(n[1] == 's');
        assert(condition_code(n) == Some(cond));
    } else if cond == 3 {
        assert(n[0] == 'c');
        assert(n[1] == 'c');
        assert(condition_code(n) == Some(cond));
    } else if cond == 4 {
        assert(n[0] == 'm');
        assert(n[1] == 'i');
        assert(condition_code(n) == Some(cond));
    } else if cond == 5 {
        assert(n[0] == 'p');
        assert(n[1] == 'l');
        assert(condition_code(n) == Some(cond));
    } else if cond == 6 {
        assert(n[0] == 'v');
        assert(n[1] == 's');
        assert(condition_code(n) == Some(cond));
    } else if cond == 7 {
        assert(n[0] == 'v');
        assert(n[1] == 'c');
        assert(condition_code(n) == Some(cond));
    } else if cond == 8 {
        assert(n[0] == 'h');
        assert(n[1] == 'i');
        assert(condition_code(n) == Some(cond));
    } else if cond == 9 {
        assert(n[0] == 'l');
        assert(n[1] == 's');
        assert(condition_code(n) == Some(cond));
    } else if cond == 10 {
        assert(n[0] == 'g');
        assert(n[1] == 'e');
        assert(condition_code(n) == Some(cond));
    } else if cond == 11 {
        assert(n[0] == 'l');
        assert(n[1] == 't');
        assert(condition_code(n) == Some(cond));
    } else if cond == 12 {
        assert(n[0] == 'g');
        assert(n[1] == 't');
        assert(condition_code(n) == Some(cond));
    } else if cond == 13 {
        assert(n[0] == 'l');
        assert(n[1] == 'e');
        assert(condition_code(n) == Some(cond));
    } else if cond == 14 {
        assert(n.len() == 0);
        assert(condition_code(n) == Some(cond));
    }
}

/// A head that reads as `b` reads with none of the conditions LS, LT and
/// LE, unless it sets flags.
proof fn lemma_b_conditions(x: Seq<char>)
    requires
        head_fields(x) is Ok,
        head_fields(x)->Ok_0.op == Operation::B,
        !head_fields(x)->Ok_0.set_flags,
    ensures
        head_fields(x)->Ok_0.cond != 9,
        head_fields(x)->Ok_0.cond != 11,
        head_fields(x)->Ok_0.cond != 13,
{
    reveal_strlit("smodu");
    reveal_strlit("smul");
    reveal_strlit("sdiv");
    reveal_strlit("modu");
    reveal_strlit("push");
    reveal_strlit("nop");
    reveal_strlit("hlt");
    reveal_strlit("mov");
    reveal_strlit("add");
    reveal_strlit("sub");
    reveal_strlit("mul");
    reveal_strlit("div");
    reveal_strlit("mvn");
    reveal_strlit("and");
    reveal_strlit("orr");
    reveal_strlit("eor");
    reveal_strlit("cmp");
    reveal_strlit("cmn");
    reveal_strlit("tst");
    reveal_strlit("teq");
    reveal_strlit("lsl");
    reveal_strlit("lsr");
    reveal_strlit("asr");
    reveal_strlit("rol");
    reveal_strlit("ror");
    reveal_strlit("mvi");
    reveal_strlit("qry");
    reveal_strlit("int");
    reveal_strlit("ldr");
    reveal_strlit("str");
    reveal_strlit("pop");
    reveal_strlit("bl");
    reveal_strlit("b");
    reveal_strlit("eq");
    reveal_strlit("ne");
    reveal_strlit("hs");
    reveal_strlit("cs");
    reveal_strlit("lo");
    reveal_strlit("cc");
    reveal_strlit("mi");
    reveal_strlit("pl");
    reveal_strlit("vs");
    reveal_strlit("vc");
    reveal_strlit("hi");
    reveal_strlit("ls");
    reveal_strlit("ge");
    reveal_strlit("lt");
    reveal_strlit("gt");
    reveal_strlit("le");
    reveal_strlit("al");
    reveal_strlit("s");
    reveal(mnemonic_of);
    reveal(condition_code);
    let suffix = x.skip(1);
    let cond = head_fields(x)->Ok_0.cond;
    assert("b"@.is_prefix_of(x));
    assert(!"bl"@.is_prefix_of(x));
    if cond == 9 || cond == 11 || cond == 13 {
        assert(suffix[0] == 'l');
        assert(x[1] == 'l');
        assert(x.subrange(0, 1)[0] == 'b');
        assert("bl"@ =~= x.subrange(0, 2));
    }
}

proof fn lemma_condition_bound(s: Seq<char>)
    requires
        suffix_condition(s) is Some,
    ensures
        suffix_condition(s)->0 < 15,
{
    reveal(condition_code);
}

/// The head of the text of an instruction reads as the head that the
/// instruction came from.
proof fn lemma_head_reparses(x: Seq<char>, f: Instr)
    requires
        head_fields(x) is Ok,
        f.set_flags == head_fields(x)->Ok_0.set_flags,
        f.cond_code == head_fields(x)->Ok_0.cond,
    ensures
        head_fields(x)->Ok_0.cond < 15,
        ({
            let h = head_fields(x)->Ok_0;
            if h.op == Operation::Nop || h.op == Operation::Hlt {
                head_fields(h.op.mnemonic()) == Ok::<Head, ErrorKind>(h) && is_field(
                    h.op.mnemonic(),
                    false,
                )
            } else {
                &&& postfix_text(h.op, f) is Some
                &&& head_fields(h.op.mnemonic() + postfix_text(h.op, f)->0) == Ok::<
                    Head,
                    ErrorKind,
                >(h)
                &&& is_field(h.op.mnemonic() + postfix_text(h.op, f)->0, false)
            }
        }),
{
    let h = head_fields(x)->Ok_0;
    let m = h.op.mnemonic();
    reveal_mnemonics();
    reveal_strlit("s");
    if h.op == Operation::Nop || h.op == Operation::Hlt {
        lemma_mnemonic_found(h.op, Seq::empty());
        assert(m + Seq::<char>::empty() =~= m);
        assert forall|k: int| 0 <= k < m.len() implies !is_separator(#[trigger] m[k], false) by {
            assert(!is_space(h.op.mnemonic()[k]));
        }
        assert(head_fields(m) == Ok::<Head, ErrorKind>(h));
        assert(is_field(m, false));
    } else {
        let suffix = x.skip(m.len() as int);
        assert(suffix_condition(suffix) == Some(h.cond));
        lemma_condition_bound(suffix);
        if !h.op.is_compare() && h.set_flags {
            let p = "s"@;
            assert(h.cond == 14);
            lemma_mnemonic_found(h.op, p);
            assert(p.skip(1) =~= Seq::<char>::empty());
            assert(p.is_prefix_of(p)) by {
                assert(p =~= p.subrange(0, p.len() as int));
            }
            assert forall|k: int| 0 <= k < (m + p).len() implies !is_separator(
                #[trigger] (m + p)[k],
                false,
            ) by {
                if k < m.len() {
                    assert(!is_space(h.op.mnemonic()[k]));
                }
            }
            assert(postfix_text(h.op, f) == Some(p));
            assert(suffix_condition(p) == Some(14u64)) by {
                reveal(condition_code);
            }
            assert(head_fields(m + p) == Ok::<Head, ErrorKind>(h));
            assert(is_field(m + p, false));
        } else {
            assert(h.cond < 15);
            lemma_condition_name_reads(h.cond);
            let p = condition_name(h.cond)->0;
            if h.op == Operation::B {
                lemma_b_conditions(x);
            }
            lemma_mnemonic_found(h.op, p);
            assert forall|k: int| 0 <= k < (m + p).len() implies !is_separator(
                #[trigger] (m + p)[k],
                false,
            ) by {
                if k < m.len() {
                    assert(!is_space(h.op.mnemonic()[k]));
                } else {
                    assert((m + p)[k] == p[k - m.len()]);
                    assert(!is_space(condition_name(h.cond)->0[k - m.len()]));
                }
            }
            assert(postfix_text(h.op, f) == Some(p));
            assert(head_fields(m + p) == Ok::<Head, ErrorKind>(h));
            assert(is_field(m + p, false));
        }
    }
}

/// The operand fields of `f`.
pub open spec fn fields_of(f: Instr) -> OperandFields {
    OperandFields { rd: f.reg_d_mem, ra: f.reg_a, rb: f.reg_b, c: f.reg_c, imm: f.c_is_imm }
}

/// Operand fields that were read from operands are in range: a register is
/// at most 15, an immediate has at most 32 bits.
pub proof fn lemma_operand_fields_in_range(
    shape: OperandShape,
    ops: Seq<Seq<char>>,
    labels: Map<Seq<char>, usize>,
)
    requires
        operand_fields(shape, ops, labels) is Ok,
    ensures
        operand_fields(shape, ops, labels)->Ok_0.in_range(),
{
    if ops.len() > 0 {
        lemma_operand_value_in_range(ops[0], labels);
    }
    if ops.len() > 1 {
        lemma_operand_value_in_range(ops[1], labels);
    }
    if ops.len() > 2 {
        lemma_operand_value_in_range(ops[2], labels);
    }
    if ops.len() > 3 {
        lemma_operand_value_in_range(ops[3], labels);
    }
}

/// What an operand denotes fits 32 bits, and 4 bits if it is a register.
pub proof fn lemma_operand_value_in_range(operand: Seq<char>, labels: Map<Seq<char>, usize>)
    ensures
        operand_value(operand, labels) matches Ok(v) ==> v.0 <= 0xffff_ffff && (!v.1 ==> v.0
            <= 15),
{
    if operand.len() > 0 && number_value(operand.skip(1), 10) is Some {
        let s = operand.skip(1);
        assert(s.take(s.len() as int) =~= s);
        lemma_number_grows(s, s.len() as int, 10);
    }
}

/// The texts of the operands of an instruction read as the fields that the
/// instruction holds, whatever labels there are.
proof fn lemma_operands_reparse(
    op: Operation,
    f: Instr,
    ops: Seq<Seq<char>>,
    labels: Map<Seq<char>, usize>,
    other: Map<Seq<char>, usize>,
)
    requires
        operand_fields(op.operand_shape(), ops, labels) == Ok::<OperandFields, ErrorKind>(
            fields_of(f),
        ),
        f.in_range(),
    ensures
        operand_fields(op.operand_shape(), operand_texts(op, f), other) == Ok::<
            OperandFields,
            ErrorKind,
        >(fields_of(f)),
        forall|k: int|
            0 <= k < operand_texts(op, f).len() ==> is_field(#[trigger] operand_texts(op, f)[k], true),
{
    lemma_register_text_reads(f.reg_d_mem, other);
    lemma_register_text_reads(f.reg_a, other);
    lemma_register_text_reads(f.reg_b, other);
    lemma_c_text_reads(f, other);
    let texts = operand_texts(op, f);
    match op.operand_shape() {
        OperandShape::NoOperands => {},
        OperandShape::D => {
            assert(texts[0] == register_text(f.reg_d_mem));
        },
        OperandShape::C => {
            assert(texts[0] == c_text(f));
        },
        OperandShape::BC => {
            assert(texts[0] == register_text(f.reg_b));
            assert(texts[1] == c_text(f));
        },
        OperandShape::DC => {
            assert(texts[0] == register_text(f.reg_d_mem));
            assert(texts[1] == c_text(f));
        },
        OperandShape::DBC => {
            assert(texts[0] == register_text(f.reg_d_mem));
            assert(texts[1] == register_text(f.reg_b));
            assert(texts[2] == c_text(f));
        },
        OperandShape::Memory => {
            assert(texts[0] == register_text(f.reg_d_mem));
            assert(texts[1] == register_text(f.reg_a));
            if !(f.c_is_imm && f.reg_b == 0 && f.reg_c == 0) {
                assert(texts[2] == register_text(f.reg_b));
                assert(texts[3] == c_text(f));
            }
        },
    }
}

/// The fields of an encoded line are in range.
pub proof fn lemma_line_fields_in_range(line: Seq<char>, labels: Map<Seq<char>, usize>)
    requires
        line_fields(line, labels) is Ok,
    ensures
        line_fields(line, labels)->Ok_0.in_range(),
{
    let h = head_fields(head_of(line))->Ok_0;
    lemma_operand_fields_in_range(h.op.operand_shape(), operands_of(line), labels);
    Operation::lemma_code_round_trip(h.op.code(), h.op);
    let f = line_fields(line, labels)->Ok_0;
    lemma_head_reparses(head_of(line), f);
}

/// Decoding the word of an encoded line gives the fields that the word was
/// built from.
pub proof fn lemma_decode_of_encoded(line: Seq<char>, labels: Map<Seq<char>, usize>)
    requires
        encoded_line(line, labels) is Ok,
    ensures
        Instr::of_word(encoded_line(line, labels)->Ok_0) == line_fields(line, labels)->Ok_0,
{
    lemma_line_fields_in_range(line, labels);
    lemma_unpack_pack(line_fields(line, labels)->Ok_0);
}

/// The disassembly of the word of an encoded line is a line that encodes to
/// the same word, whatever labels there are.
pub proof fn lemma_disassembly_reassembles(
    line: Seq<char>,
    labels: Map<Seq<char>, usize>,
    other: Map<Seq<char>, usize>,
)
    requires
        encoded_line(line, labels) is Ok,
    ensures
        disassembled(encoded_line(line, labels)->Ok_0) is Some,
        encoded_line(disassembled(encoded_line(line, labels)->Ok_0)->0, other) == encoded_line(
            line,
            labels,
        ),
{
    let w = encoded_line(line, labels)->Ok_0;
    let f = line_fields(line, labels)->Ok_0;
    let h = head_fields(head_of(line))->Ok_0;
    lemma_decode_of_encoded(line, labels);
    lemma_line_fields_in_range(line, labels);
    Operation::lemma_code_round_trip(f.op_code, h.op);
    lemma_head_reparses(head_of(line), f);
    lemma_operands_reparse(h.op, f, operands_of(line), labels, other);
    if h.op == Operation::Nop || h.op == Operation::Hlt {
        let t = h.op.mnemonic();
        assert(operand_texts(h.op, f) =~= Seq::<Seq<char>>::empty());
        lemma_text_splits(t, Seq::empty());
        assert(instruction_text(t, Seq::empty()) == t);
        assert(line_fields(t, other) == Ok::<Instr, ErrorKind>(f));
    } else {
        let head = h.op.mnemonic() + postfix_text(h.op, f)->0;
        let t = instruction_text(head, operand_texts(h.op, f));
        lemma_text_splits(head, operand_texts(h.op, f));
        assert(disassembled(w) == Some(t));
        assert(line_fields(t, other) == Ok::<Instr, ErrorKind>(f));
    }
}

} // verus!
