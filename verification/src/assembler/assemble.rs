use vstd::prelude::*;
use vstd::string::StringSliceAdditionalSpecFns;
use vstd::string::StrSliceExecFns;
use crate::assembler::error::{AssembleError, ErrorKind, Failure};
use crate::assembler::labels::LabelMap;
use crate::assembler::mnemonic::{
    find_mnemonic,
    find_operation,
    condition_code,
    find_suffix_condition,
    head_fields,
    mnemonic_of,
    operation_named,
    suffix_condition,
};
use crate::assembler::preprocess::{expand_from, expand_ite, expand_push_pop, stack_expanded};
use crate::assembler::text::{
    char_texts,
    chars_of,
    head_of,
    number_value,
    operands_of,
    parse_number,
    same_text,
    split_line,
    starts_with,
    string_from,
    string_of,
    texts,
};
use crate::assembler::trim::{
    nonblank_lines,
    remove_comments,
    remove_empty_lines,
    remove_whitespace,
    trimmed_lines,
    uncommented_lines,
};
use crate::emulator::alu::word_of;
use crate::emulator::instr::{pack_word, Instr, OperandShape, Operation};
use crate::emulator::mem::be_byte;

verus! {

/// One item of the assembler's intermediate stream: a data word that a
/// directive emitted, or a source line that is still to be encoded. Each
/// item takes one 64-bit word of the image.
#[derive(Debug)]
pub enum AssemblerIntermediary {
    Assembled(u64),
    Original(String),
}

/// What an item of the intermediate stream holds.
pub ghost enum Item {
    Assembled(u64),
    Original(Seq<char>),
}

impl View for AssemblerIntermediary {
    type V = Item;

    open spec fn view(&self) -> Item {
        match self {
            AssemblerIntermediary::Assembled(w) => Item::Assembled(*w),
            AssemblerIntermediary::Original(s) => Item::Original(s@),
        }
    }
}

/// What a vector of items holds.
pub open spec fn items_of(v: Seq<AssemblerIntermediary>) -> Seq<Item> {
    Seq::new(v.len(), |i: int| v[i]@)
}

/// The most items a program may have, so that every byte offset fits the
/// 32 bits of an immediate.
pub const MAX_ITEMS: usize = 0x1fff_ffff;

/// The number that a text of digits denotes, if it is no more than `limit`.
pub open spec fn bounded_number(s: Seq<char>, radix: int, limit: int) -> Option<u64> {
    match number_value(s, radix) {
        Some(n) => if n <= limit {
            Some(n as u64)
        } else {
            None
        },
        None => None,
    }
}

/// The word that the literal of a `.word` directive denotes: hexadecimal
/// digits after `0x`, binary digits after `0b`, else decimal digits with an
/// optional sign, in the range of a signed 64-bit number and read in two's
/// complement.
pub open spec fn word_literal(s: Seq<char>) -> Option<u64> {
    if "0x"@.is_prefix_of(s) {
        bounded_number(s.skip(2), 16, 0xffff_ffff_ffff_ffff)
    } else if "0b"@.is_prefix_of(s) {
        bounded_number(s.skip(2), 2, 0xffff_ffff_ffff_ffff)
    } else if s.len() > 0 && s[0] == '-' {
        match bounded_number(s.skip(1), 10, 0x8000_0000_0000_0000) {
            Some(n) => Some(word_of(-(n as int))),
            None => None,
        }
    } else if s.len() > 0 && s[0] == '+' {
        bounded_number(s.skip(1), 10, 0x7fff_ffff_ffff_ffff)
    } else {
        bounded_number(s, 10, 0x7fff_ffff_ffff_ffff)
    }
}

fn parse_word_literal(s: &Vec<char>) -> (r: Option<u64>)
    ensures
        r == word_literal(s@),
{
    if starts_with(s, "0x") {
        proof {
            reveal_strlit("0x");
        }
        parse_number(s, 2, 16, 0xffff_ffff_ffff_ffff)
    } else if starts_with(s, "0b") {
        proof {
            reveal_strlit("0b");
        }
        parse_number(s, 2, 2, 0xffff_ffff_ffff_ffff)
    } else if s.len() > 0 && s[0] == '-' {
        match parse_number(s, 1, 10, 0x8000_0000_0000_0000) {
            Some(n) => Some(0u64.wrapping_sub(n)),
            None => None,
        }
    } else if s.len() > 0 && s[0] == '+' {
        parse_number(s, 1, 10, 0x7fff_ffff_ffff_ffff)
    } else {
        assert(s@.skip(0) =~= s@);
        parse_number(s, 0, 10, 0x7fff_ffff_ffff_ffff)
    }
}

/// The items of a text literal: its length in bytes, then each byte of its
/// UTF-8 encoding as a word of its own.
pub open spec fn text_items(literal: Seq<char>) -> Seq<Item> {
    let bytes = vstd::utf8::encode_utf8(literal);
    seq![Item::Assembled(bytes.len() as u64)] + Seq::new(
        bytes.len(),
        |i: int| Item::Assembled(bytes[i] as u64),
    )
}

/// The items of the lines from line `i` on. The line after a line that
/// begins with `.asciz` is a text literal, the line after a line that begins
/// with `.word` is a word literal; every other line is a source line.
pub open spec fn raw_items(lines: Seq<Seq<char>>, i: int) -> Result<Seq<Item>, Failure>
    decreases lines.len() - i,
{
    if i < 0 || i >= lines.len() {
        Ok(Seq::empty())
    } else if ".asciz"@.is_prefix_of(lines[i]) {
        if i + 1 >= lines.len() {
            Err(Failure { kind: ErrorKind::MalformedLiteral, line: lines[i] })
        } else {
            match raw_items(lines, i + 2) {
                Err(e) => Err(e),
                Ok(rest) => Ok(text_items(lines[i + 1]) + rest),
            }
        }
    } else if ".word"@.is_prefix_of(lines[i]) {
        if i + 1 >= lines.len() {
            Err(Failure { kind: ErrorKind::MalformedLiteral, line: lines[i] })
        } else {
            match word_literal(lines[i + 1]) {
                None => Err(Failure { kind: ErrorKind::MalformedLiteral, line: lines[i + 1] }),
                Some(w) => match raw_items(lines, i + 2) {
                    Err(e) => Err(e),
                    Ok(rest) => Ok(seq![Item::Assembled(w)] + rest),
                },
            }
        }
    } else {
        match raw_items(lines, i + 1) {
            Err(e) => Err(e),
            Ok(rest) => Ok(seq![Item::Original(lines[i])] + rest),
        }
    }
}

/// Emits the data of the `.asciz` and `.word` directives. Fails with
/// `MalformedLiteral` on the first directive without a literal line, or
/// with a word literal that cannot be read.
pub fn assemble_raw(lines: Vec<String>) -> (r: Result<Vec<AssemblerIntermediary>, AssembleError>)
    ensures
        match r {
            Ok(ret) => raw_items(texts(lines@), 0) == Ok::<Seq<Item>, Failure>(items_of(ret@)),
            Err(e) => raw_items(texts(lines@), 0) == Err::<Seq<Item>, Failure>(e@),
        },
{
    let mut ret: Vec<AssemblerIntermediary> = Vec::new();
    let mut i: usize = 0;
    let ghost all = texts(lines@);
    assert(items_of(ret@) =~= Seq::<Item>::empty());
    while i < lines.len()
        invariant
            all == texts(lines@),
            i <= lines@.len(),
            match raw_items(all, i as int) {
                Ok(rest) => raw_items(all, 0) is Ok && raw_items(all, 0)->Ok_0 == items_of(ret@)
                    + rest,
                Err(e) => raw_items(all, 0) == Err::<Seq<Item>, Failure>(e),
            },
        decreases lines@.len() - i,
    {
        let line = chars_of(lines[i].as_str());
        assert(all[i as int] == line@);
        let ghost so_far = items_of(ret@);
        if starts_with(&line, ".asciz") {
            if i + 1 >= lines.len() {
                return Err(
                    AssembleError { kind: ErrorKind::MalformedLiteral, line: lines[i].clone() },
                );
            }
            assert(all[i + 1] == lines@[i + 1]@);
            let bytes = lines[i + 1].as_str().as_bytes_vec();
            ret.push(AssemblerIntermediary::Assembled(bytes.len() as u64));
            let ghost with_len = items_of(ret@);
            assert(with_len =~= so_far.push(Item::Assembled(bytes@.len() as u64)));
            let mut j: usize = 0;
            while j < bytes.len()
                invariant
                    j <= bytes@.len(),
                    items_of(ret@) == with_len + Seq::new(
                        j as nat,
                        |k: int| Item::Assembled(bytes@[k] as u64),
                    ),
                decreases bytes@.len() - j,
            {
                let ghost before = items_of(ret@);
                ret.push(AssemblerIntermediary::Assembled(bytes[j] as u64));
                assert(items_of(ret@) =~= before.push(Item::Assembled(bytes@[j as int] as u64)));
                assert(before.push(Item::Assembled(bytes@[j as int] as u64)) =~= with_len + Seq::new(
                    (j + 1) as nat,
                    |k: int| Item::Assembled(bytes@[k] as u64),
                ));
                j = j + 1;
            }
            proof {
                let emitted = text_items(all[i + 1]);
                assert(items_of(ret@) =~= so_far + emitted);
                match raw_items(all, i + 2) {
                    Ok(rest) => {
                        assert(so_far + (emitted + rest) =~= (so_far + emitted) + rest);
                    },
                    Err(_) => {},
                }
            }
            i = i + 2;
        } else if starts_with(&line, ".word") {
            if i + 1 >= lines.len() {
                return Err(
                    AssembleError { kind: ErrorKind::MalformedLiteral, line: lines[i].clone() },
                );
            }
            assert(all[i + 1] == lines@[i + 1]@);
            let literal = chars_of(lines[i + 1].as_str());
            let w = match parse_word_literal(&literal) {
                Some(w) => w,
                None => {
                    return Err(
                        AssembleError {
                            kind: ErrorKind::MalformedLiteral,
                            line: lines[i + 1].clone(),
                        },
                    );
                },
            };
            ret.push(AssemblerIntermediary::Assembled(w));
            proof {
                assert(items_of(ret@) =~= so_far + seq![Item::Assembled(w)]);
                match raw_items(all, i + 2) {
                    Ok(rest) => {
                        assert(so_far + (seq![Item::Assembled(w)] + rest) =~= (so_far
                            + seq![Item::Assembled(w)]) + rest);
                    },
                    Err(_) => {},
                }
            }
            i = i + 2;
        } else {
            ret.push(AssemblerIntermediary::Original(lines[i].clone()));
            proof {
                assert(items_of(ret@) =~= so_far + seq![Item::Original(line@)]);
                match raw_items(all, i + 1) {
                    Ok(rest) => {
                        assert(so_far + (seq![Item::Original(line@)] + rest) =~= (so_far
                            + seq![Item::Original(line@)]) + rest);
                    },
                    Err(_) => {},
                }
            }
            i = i + 1;
        }
    }
    proof {
        assert(items_of(ret@) + Seq::<Item>::empty() =~= items_of(ret@));
    }
    Ok(ret)
}

/// Whether an item defines a label: a source line that ends in `:`.
pub open spec fn is_label(item: Item) -> bool {
    item matches Item::Original(line) && line.len() > 0 && line.last() == ':'
}

/// A text without the colons at its end.
pub open spec fn without_colons(s: Seq<char>) -> Seq<char>
    decreases s.len(),
{
    if s.len() > 0 && s.last() == ':' {
        without_colons(s.drop_last())
    } else {
        s
    }
}

/// The items that are no label definitions, in order.
pub open spec fn kept_items(items: Seq<Item>) -> Seq<Item>
    decreases items.len(),
{
    if items.len() == 0 {
        Seq::empty()
    } else if is_label(items.last()) {
        kept_items(items.drop_last())
    } else {
        kept_items(items.drop_last()).push(items.last())
    }
}

/// The label map of a stream: each label names the byte offset of the item
/// that follows it, eight times the number of kept items before it. A
/// later definition of a name replaces an earlier one.
pub open spec fn label_offsets(items: Seq<Item>) -> Map<Seq<char>, usize>
    decreases items.len(),
{
    if items.len() == 0 {
        Map::empty()
    } else if is_label(items.last()) {
        label_offsets(items.drop_last()).insert(
            without_colons(items.last()->Original_0),
            (kept_items(items.drop_last()).len() * 8) as usize,
        )
    } else {
        label_offsets(items.drop_last())
    }
}

/// The label pass keeps no more items than it is given.
pub proof fn lemma_kept_items_len(items: Seq<Item>)
    ensures
        kept_items(items).len() <= items.len(),
    decreases items.len(),
{
    if items.len() > 0 {
        lemma_kept_items_len(items.drop_last());
    }
}

/// Every label offset is a multiple of 8 and at most eight times the number
/// of kept items.
pub proof fn lemma_label_offsets_aligned(items: Seq<Item>, name: Seq<char>)
    requires
        items.len() <= MAX_ITEMS,
        label_offsets(items).contains_key(name),
    ensures
        label_offsets(items)[name] % 8 == 0,
        label_offsets(items)[name] <= kept_items(items).len() * 8,
    decreases items.len(),
{
    lemma_kept_items_len(items);
    lemma_kept_items_len(items.drop_last());
    if items.len() > 0 {
        if is_label(items.last()) && name == without_colons(items.last()->Original_0) {
        } else {
            lemma_label_offsets_aligned(items.drop_last(), name);
        }
    }
}

fn strip_colons(line: &Vec<char>) -> (r: Vec<char>)
    ensures
        r@ == without_colons(line@),
{
    let mut end: usize = line.len();
    assert(line@.take(end as int) =~= line@);
    while end > 0 && line[end - 1] == ':'
        invariant
            end <= line@.len(),
            without_colons(line@) == without_colons(line@.take(end as int)),
        decreases end,
    {
        assert(line@.take(end as int).drop_last() =~= line@.take(end - 1));
        end = end - 1;
    }
    let mut r: Vec<char> = Vec::new();
    let mut i: usize = 0;
    while i < end
        invariant
            i <= end <= line@.len(),
            r@ == line@.take(i as int),
        decreases end - i,
    {
        r.push(line[i]);
        assert(line@.take(i as int).push(line@[i as int]) =~= line@.take(i + 1));
        i = i + 1;
    }
    r
}

/// The label pass: records each label's byte offset and drops the label
/// definitions from the stream.
pub fn generate_label_map(lines: &Vec<AssemblerIntermediary>) -> (r: (
    LabelMap,
    Vec<AssemblerIntermediary>,
))
    requires
        lines@.len() <= MAX_ITEMS,
    ensures
        r.0@ == label_offsets(items_of(lines@)),
        items_of(r.1@) == kept_items(items_of(lines@)),
{
    let mut label_map = LabelMap::new();
    let mut ret: Vec<AssemblerIntermediary> = Vec::new();
    let mut line_count: usize = 0;
    let mut i: usize = 0;
    let ghost all = items_of(lines@);
    assert(all.take(0) =~= Seq::<Item>::empty());
    assert(items_of(ret@) =~= Seq::<Item>::empty());
    while i < lines.len()
        invariant
            all == items_of(lines@),
            i <= lines@.len() <= MAX_ITEMS,
            line_count == ret@.len(),
            line_count <= i,
            label_map@ == label_offsets(all.take(i as int)),
            items_of(ret@) == kept_items(all.take(i as int)),
        decreases lines@.len() - i,
    {
        proof {
            assert(all.take(i + 1).drop_last() =~= all.take(i as int));
            assert(all.take(i + 1).last() == lines@[i as int]@);
        }
        let ghost before = items_of(ret@);
        match &lines[i] {
            AssemblerIntermediary::Original(line) => {
                let text = chars_of(line.as_str());
                if text.len() > 0 && text[text.len() - 1] == ':' {
                    label_map.insert_chars(strip_colons(&text), line_count * 8);
                } else {
                    ret.push(AssemblerIntermediary::Original(line.clone()));
                    assert(items_of(ret@) =~= before.push(Item::Original(text@)));
                    line_count = line_count + 1;
                }
            },
            AssemblerIntermediary::Assembled(v) => {
                ret.push(AssemblerIntermediary::Assembled(*v));
                assert(items_of(ret@) =~= before.push(Item::Assembled(*v)));
                line_count = line_count + 1;
            },
        }
        i = i + 1;
    }
    assert(all.take(lines@.len() as int) =~= all);
    (label_map, ret)
}

/// The condition code that a mnemonic's suffix asks for. Fails with
/// `UnknownCondition` if and only if the suffix is none.
pub fn parse_cond(postfix: &str) -> (r: Result<u64, ErrorKind>)
    ensures
        r == match suffix_condition(postfix@) {
            Some(c) => Ok::<u64, ErrorKind>(c),
            None => Err::<u64, ErrorKind>(ErrorKind::UnknownCondition),
        },
{
    match find_suffix_condition(&chars_of(postfix)) {
        Some(c) => Ok(c),
        None => Err(ErrorKind::UnknownCondition),
    }
}

/// Reads the head of the characters of a line.
fn parse_head(head: &Vec<char>) -> (r: Result<(Operation, bool, u64), ErrorKind>)
    ensures
        match head_fields(head@) {
            Err(e) => r == Err::<(Operation, bool, u64), ErrorKind>(e),
            Ok(h) => r == Ok::<(Operation, bool, u64), ErrorKind>((h.op, h.set_flags, h.cond)),
        },
        r matches Ok(h) ==> h.2 < 15,
{
    proof {
        reveal(condition_code);
    }
    let op = match find_mnemonic(head) {
        Some(op) => op,
        None => { return Err(ErrorKind::UnknownMnemonic); },
    };
    if op == Operation::Nop || op == Operation::Hlt {
        return Ok((op, false, 14));
    }
    let name = chars_of(op.name());
    assert(name@.is_prefix_of(head@)) by {
        lemma_mnemonic_is_prefix(head@);
    }
    let mut suffix: Vec<char> = Vec::new();
    let mut i: usize = name.len();
    while i < head.len()
        invariant
            name@.len() <= i <= head@.len(),
            suffix@ == head@.subrange(name@.len() as int, i as int),
        decreases head@.len() - i,
    {
        suffix.push(head[i]);
        assert(head@.subrange(name@.len() as int, i as int).push(head@[i as int]) =~= head@.subrange(
            name@.len() as int,
            i + 1,
        ));
        i = i + 1;
    }
    assert(suffix@ =~= head@.skip(name@.len() as int));
    let cond = match find_suffix_condition(&suffix) {
        Some(c) => c,
        None => { return Err(ErrorKind::UnknownCondition); },
    };
    let compare = op == Operation::Cmp || op == Operation::Cmn || op == Operation::Tst || op
        == Operation::Teq;
    let set_flags = compare || starts_with(&suffix, "s");
    Ok((op, set_flags, cond))
}

/// The mnemonic that the head of a line is found to begin with is a prefix of it.
pub proof fn lemma_mnemonic_is_prefix(head: Seq<char>)
    requires
        mnemonic_of(head) is Some,
    ensures
        mnemonic_of(head)->0.mnemonic().is_prefix_of(head),
{
    reveal(mnemonic_of);
}

/// Reads the head of an instruction line: the opcode, the set-flags bit,
/// the condition code and the mnemonic. Fails with `UnknownMnemonic` if the
/// head begins with no mnemonic, with `UnknownCondition` if what follows the
/// mnemonic is no suffix.
pub fn parse_instruction(l: &str) -> (r: Result<(u64, bool, u64, &'static str), ErrorKind>)
    ensures
        match head_fields(head_of(l@)) {
            Err(e) => r == Err::<(u64, bool, u64, &'static str), ErrorKind>(e),
            Ok(h) => r matches Ok(t) && t.0 == h.op.code() && t.1 == h.set_flags && t.2 == h.cond
                && t.3@ == h.op.mnemonic(),
        },
{
    let line = chars_of(l);
    let (head, _) = split_line(&line);
    match parse_head(&head) {
        Err(e) => Err(e),
        Ok((op, set_flags, cond)) => Ok((op.opcode(), set_flags, cond, op.name())),
    }
}

/// What an operand denotes: its value, and whether it is an immediate. The
/// registers are `lr`, `sp`, `pc` and `r0` to `r15`; `#` and a decimal number
/// of at most 32 bits is an immediate; `=` and the name of a label is the
/// label's offset as an immediate, which must fit 32 bits too.
pub open spec fn operand_value(operand: Seq<char>, labels: Map<Seq<char>, usize>) -> Result<
    (u64, bool),
    ErrorKind,
> {
    if operand == "lr"@ {
        Ok((14, false))
    } else if operand == "sp"@ {
        Ok((13, false))
    } else if operand == "pc"@ {
        Ok((15, false))
    } else if operand.len() > 0 && operand[0] == 'r' {
        match number_value(operand.skip(1), 10) {
            Some(n) => if n <= 15 {
                Ok((n as u64, false))
            } else {
                Err(ErrorKind::UnknownOperand)
            },
            None => Err(ErrorKind::UnknownOperand),
        }
    } else if operand.len() > 0 && operand[0] == '#' {
        match number_value(operand.skip(1), 10) {
            Some(n) => if n <= 0xffff_ffff {
                Ok((n as u64, true))
            } else {
                Err(ErrorKind::UnknownOperand)
            },
            None => Err(ErrorKind::UnknownOperand),
        }
    } else if operand.len() > 0 && operand[0] == '=' {
        if labels.contains_key(operand.skip(1)) {
            if labels[operand.skip(1)] <= 0xffff_ffff {
                Ok((labels[operand.skip(1)] as u64, true))
            } else {
                Err(ErrorKind::UnknownOperand)
            }
        } else {
            Err(ErrorKind::UnknownLabel)
        }
    } else {
        Err(ErrorKind::UnknownOperand)
    }
}

fn read_operand(operand: &Vec<char>, label_map: &LabelMap) -> (r: Result<(u64, bool), ErrorKind>)
    ensures
        r == operand_value(operand@, label_map@),
        r matches Ok(v) ==> v.0 <= 0xffff_ffff && (!v.1 ==> v.0 <= 15),
{
    if same_text(operand, "lr") {
        Ok((14, false))
    } else if same_text(operand, "sp") {
        Ok((13, false))
    } else if same_text(operand, "pc") {
        Ok((15, false))
    } else if operand.len() > 0 && operand[0] == 'r' {
        match parse_number(operand, 1, 10, 15) {
            Some(n) => Ok((n, false)),
            None => Err(ErrorKind::UnknownOperand),
        }
    } else if operand.len() > 0 && operand[0] == '#' {
        match parse_number(operand, 1, 10, 0xffff_ffff) {
            Some(n) => Ok((n, true)),
            None => Err(ErrorKind::UnknownOperand),
        }
    } else if operand.len() > 0 && operand[0] == '=' {
        let mut name: Vec<char> = Vec::new();
        let mut i: usize = 1;
        while i < operand.len()
            invariant
                1 <= i <= operand@.len(),
                name@ == operand@.subrange(1, i as int),
            decreases operand@.len() - i,
        {
            name.push(operand[i]);
            assert(operand@.subrange(1, i as int).push(operand@[i as int]) =~= operand@.subrange(
                1,
                i + 1,
            ));
            i = i + 1;
        }
        assert(name@ =~= operand@.skip(1));
        match label_map.get_chars(&name) {
            Some(addr) => if addr <= 0xffff_ffff {
                Ok((addr as u64, true))
            } else {
                Err(ErrorKind::UnknownOperand)
            },
            None => Err(ErrorKind::UnknownLabel),
        }
    } else {
        Err(ErrorKind::UnknownOperand)
    }
}

/// Reads one operand. Fails with `UnknownLabel` on a reference to a label
/// that the map does not hold, with `UnknownOperand` on anything else that
/// is no operand.
pub fn parse_operand(operand: &str, label_map: &LabelMap) -> (r: Result<(u64, bool), ErrorKind>)
    ensures
        r == operand_value(operand@, label_map@),
{
    read_operand(&chars_of(operand), label_map)
}

/// The operands of a line: the fields after the mnemonic, which white space
/// and commas separate.
pub fn split_operands(l: &str) -> (ret: Vec<String>)
    ensures
        texts(ret@) == operands_of(l@),
{
    let line = chars_of(l);
    let (_, operands) = split_line(&line);
    let mut ret: Vec<String> = Vec::new();
    let mut i: usize = 0;
    while i < operands.len()
        invariant
            i <= operands@.len(),
            ret@.len() == i,
            forall|j: int| 0 <= j < i ==> ret@[j]@ == operands@[j]@,
        decreases operands@.len() - i,
    {
        ret.push(string_from(&operands[i]));
        i = i + 1;
    }
    assert(texts(ret@) =~= char_texts(operands@));
    ret
}

/// The operand fields of an instruction word.
#[derive(Clone, Copy, Debug, PartialEq, Eq, Structural)]
pub struct OperandFields {
    pub rd: u64,
    pub ra: u64,
    pub rb: u64,
    pub c: u64,
    pub imm: bool,
}

impl OperandFields {
    /// The fields as the low 44 bits of a word: `rd` at bits 43..40, `ra` at
    /// 39..36, `rb` at 35..32, `c` at 31..0.
    pub open spec fn bits(self) -> u64 {
        (self.rd * 0x100_0000_0000 + self.ra * 0x10_0000_0000 + self.rb * 0x1_0000_0000
            + self.c) as u64
    }

    /// Every field fits its bits, and a C operand that is no immediate is a
    /// register index.
    pub open spec fn in_range(self) -> bool {
        &&& self.rd < 16
        &&& self.ra < 16
        &&& self.rb < 16
        &&& self.c < 0x1_0000_0000
        &&& (!self.imm ==> self.c < 16)
    }
}

/// The register that operand `i` names.
pub open spec fn register_at(ops: Seq<Seq<char>>, i: int, labels: Map<Seq<char>, usize>) -> Result<
    u64,
    ErrorKind,
> {
    if i >= ops.len() {
        Err(ErrorKind::UnknownOperand)
    } else {
        match operand_value(ops[i], labels) {
            Err(e) => Err(e),
            Ok(v) => if v.1 {
                Err(ErrorKind::UnknownOperand)
            } else {
                Ok(v.0)
            },
        }
    }
}

/// What operand `i` denotes.
pub open spec fn value_at(ops: Seq<Seq<char>>, i: int, labels: Map<Seq<char>, usize>) -> Result<
    (u64, bool),
    ErrorKind,
> {
    if i >= ops.len() {
        Err(ErrorKind::UnknownOperand)
    } else {
        operand_value(ops[i], labels)
    }
}

/// The operand fields that the operands of a line give, read from left to
/// right in the order of the shape; the first operand that is missing or
/// wrong decides the error. Operands beyond the shape are ignored. A memory
/// instruction with exactly two operands has no offset: its immediate bit
/// is set and `rb` and `c` are 0.
pub open spec fn operand_fields(
    shape: OperandShape,
    ops: Seq<Seq<char>>,
    labels: Map<Seq<char>, usize>,
) -> Result<OperandFields, ErrorKind> {
    let none = OperandFields { rd: 0, ra: 0, rb: 0, c: 0, imm: false };
    match shape {
        OperandShape::NoOperands => Ok(none),
        OperandShape::D => match register_at(ops, 0, labels) {
            Err(e) => Err(e),
            Ok(rd) => Ok(OperandFields { rd, ..none }),
        },
        OperandShape::C => match value_at(ops, 0, labels) {
            Err(e) => Err(e),
            Ok(v) => Ok(OperandFields { c: v.0, imm: v.1, ..none }),
        },
        OperandShape::BC => match register_at(ops, 0, labels) {
            Err(e) => Err(e),
            Ok(rb) => match value_at(ops, 1, labels) {
                Err(e) => Err(e),
                Ok(v) => Ok(OperandFields { rb, c: v.0, imm: v.1, ..none }),
            },
        },
        OperandShape::DC => match register_at(ops, 0, labels) {
            Err(e) => Err(e),
            Ok(rd) => match value_at(ops, 1, labels) {
                Err(e) => Err(e),
                Ok(v) => Ok(OperandFields { rd, c: v.0, imm: v.1, ..none }),
            },
        },
        OperandShape::DBC => match register_at(ops, 0, labels) {
            Err(e) => Err(e),
            Ok(rd) => match register_at(ops, 1, labels) {
                Err(e) => Err(e),
                Ok(rb) => match value_at(ops, 2, labels) {
                    Err(e) => Err(e),
                    Ok(v) => Ok(OperandFields { rd, rb, c: v.0, imm: v.1, ..none }),
                },
            },
        },
        OperandShape::Memory => match register_at(ops, 0, labels) {
            Err(e) => Err(e),
            Ok(rd) => match register_at(ops, 1, labels) {
                Err(e) => Err(e),
                Ok(ra) => if ops.len() == 2 {
                    Ok(OperandFields { rd, ra, imm: true, ..none })
                } else {
                    match register_at(ops, 2, labels) {
                        Err(e) => Err(e),
                        Ok(rb) => match value_at(ops, 3, labels) {
                            Err(e) => Err(e),
                            Ok(v) => Ok(OperandFields { rd, ra, rb, c: v.0, imm: v.1 }),
                        },
                    }
                },
            },
        },
    }
}

fn read_register(ops: &Vec<Vec<char>>, i: usize, label_map: &LabelMap) -> (r: Result<
    u64,
    ErrorKind,
>)
    ensures
        r == register_at(char_texts(ops@), i as int, label_map@),
        r matches Ok(v) ==> v <= 15,
{
    if i >= ops.len() {
        return Err(ErrorKind::UnknownOperand);
    }
    assert(char_texts(ops@)[i as int] == ops@[i as int]@);
    match read_operand(&ops[i], label_map) {
        Err(e) => Err(e),
        Ok((v, imm)) => if imm {
            Err(ErrorKind::UnknownOperand)
        } else {
            Ok(v)
        },
    }
}

fn read_value(ops: &Vec<Vec<char>>, i: usize, label_map: &LabelMap) -> (r: Result<
    (u64, bool),
    ErrorKind,
>)
    ensures
        r == value_at(char_texts(ops@), i as int, label_map@),
        r matches Ok(v) ==> v.0 <= 0xffff_ffff && (!v.1 ==> v.0 <= 15),
{
    if i >= ops.len() {
        return Err(ErrorKind::UnknownOperand);
    }
    assert(char_texts(ops@)[i as int] == ops@[i as int]@);
    read_operand(&ops[i], label_map)
}

fn read_fields(shape: OperandShape, ops: &Vec<Vec<char>>, label_map: &LabelMap) -> (r: Result<
    OperandFields,
    ErrorKind,
>)
    ensures
        r == operand_fields(shape, char_texts(ops@), label_map@),
        r matches Ok(f) ==> f.in_range(),
{
    let none = OperandFields { rd: 0, ra: 0, rb: 0, c: 0, imm: false };
    match shape {
        OperandShape::NoOperands => Ok(none),
        OperandShape::D => {
            let rd = read_register(ops, 0, label_map)?;
            Ok(OperandFields { rd, ra: 0, rb: 0, c: 0, imm: false })
        },
        OperandShape::C => {
            let (c, imm) = read_value(ops, 0, label_map)?;
            Ok(OperandFields { rd: 0, ra: 0, rb: 0, c, imm })
        },
        OperandShape::BC => {
            let rb = read_register(ops, 0, label_map)?;
            let (c, imm) = read_value(ops, 1, label_map)?;
            Ok(OperandFields { rd: 0, ra: 0, rb, c, imm })
        },
        OperandShape::DC => {
            let rd = read_register(ops, 0, label_map)?;
            let (c, imm) = read_value(ops, 1, label_map)?;
            Ok(OperandFields { rd, ra: 0, rb: 0, c, imm })
        },
        OperandShape::DBC => {
            let rd = read_register(ops, 0, label_map)?;
            let rb = read_register(ops, 1, label_map)?;
            let (c, imm) = read_value(ops, 2, label_map)?;
            Ok(OperandFields { rd, ra: 0, rb, c, imm })
        },
        OperandShape::Memory => {
            let rd = read_register(ops, 0, label_map)?;
            let ra = read_register(ops, 1, label_map)?;
            if ops.len() == 2 {
                Ok(OperandFields { rd, ra, rb: 0, c: 0, imm: true })
            } else {
                let rb = read_register(ops, 2, label_map)?;
                let (c, imm) = read_value(ops, 3, label_map)?;
                Ok(OperandFields { rd, ra, rb, c, imm })
            }
        },
    }
}

/// The operand bits of the line `l` for the operation with the mnemonic
/// `op_name`, and the immediate bit. Fails with `UnknownMnemonic` if
/// `op_name` is no mnemonic, else with the error of the first operand that
/// is missing or wrong.
pub fn operand_to_u64(l: &str, op_name: &str, label_map: &LabelMap) -> (r: Result<
    (u64, bool),
    ErrorKind,
>)
    ensures
        r == match operation_named(op_name@) {
            None => Err::<(u64, bool), ErrorKind>(ErrorKind::UnknownMnemonic),
            Some(op) => match operand_fields(op.operand_shape(), operands_of(l@), label_map@) {
                Err(e) => Err::<(u64, bool), ErrorKind>(e),
                Ok(f) => Ok::<(u64, bool), ErrorKind>((f.bits(), f.imm)),
            },
        },
{
    let op = match find_operation(&chars_of(op_name)) {
        Some(op) => op,
        None => { return Err(ErrorKind::UnknownMnemonic); },
    };
    let line = chars_of(l);
    let (_, operands) = split_line(&line);
    match read_fields(op.shape(), &operands, label_map) {
        Err(e) => Err(e),
        Ok(f) => Ok(
            (f.rd * 0x100_0000_0000 + f.ra * 0x10_0000_0000 + f.rb * 0x1_0000_0000 + f.c, f.imm),
        ),
    }
}

/// The fields of the instruction that a line denotes.
pub open spec fn line_fields(line: Seq<char>, labels: Map<Seq<char>, usize>) -> Result<
    Instr,
    ErrorKind,
> {
    match head_fields(head_of(line)) {
        Err(e) => Err(e),
        Ok(h) => match operand_fields(h.op.operand_shape(), operands_of(line), labels) {
            Err(e) => Err(e),
            Ok(f) => Ok(
                Instr {
                    cond_code: h.cond,
                    set_flags: h.set_flags,
                    c_is_imm: f.imm,
                    op_code: h.op.code(),
                    reg_d_mem: f.rd,
                    reg_a: f.ra,
                    reg_b: f.rb,
                    reg_c: f.c,
                },
            ),
        },
    }
}

/// The instruction word that a line denotes.
pub open spec fn encoded_line(line: Seq<char>, labels: Map<Seq<char>, usize>) -> Result<
    u64,
    ErrorKind,
> {
    match line_fields(line, labels) {
        Err(e) => Err(e),
        Ok(f) => Ok(pack_word(f)),
    }
}

/// Encodes one instruction line. The head is read first, then the operands.
pub fn assemble_one(line: &str, label_map: &LabelMap) -> (r: Result<u64, ErrorKind>)
    ensures
        r == encoded_line(line@, label_map@),
        r is Ok ==> line_fields(line@, label_map@)->Ok_0.in_range(),
{
    let text = chars_of(line);
    let (head, operands) = split_line(&text);
    let (op, set_flags, cond) = parse_head(&head)?;
    let f = read_fields(op.shape(), &operands, label_map)?;
    let fields = Instr {
        cond_code: cond,
        set_flags,
        c_is_imm: f.imm,
        op_code: op.opcode(),
        reg_d_mem: f.rd,
        reg_a: f.ra,
        reg_b: f.rb,
        reg_c: f.c,
    };
    Ok(fields.encode())
}

/// The words of the items from item `i` on: a data word stands for itself,
/// a source line for its instruction word.
pub open spec fn encoded_items(items: Seq<Item>, labels: Map<Seq<char>, usize>, i: int) -> Result<
    Seq<u64>,
    Failure,
>
    decreases items.len() - i,
{
    if i < 0 || i >= items.len() {
        Ok(Seq::empty())
    } else {
        match items[i] {
            Item::Assembled(w) => match encoded_items(items, labels, i + 1) {
                Err(e) => Err(e),
                Ok(rest) => Ok(seq![w] + rest),
            },
            Item::Original(line) => match encoded_line(line, labels) {
                Err(kind) => Err(Failure { kind, line }),
                Ok(w) => match encoded_items(items, labels, i + 1) {
                    Err(e) => Err(e),
                    Ok(rest) => Ok(seq![w] + rest),
                },
            },
        }
    }
}

/// Every item becomes exactly one word.
pub proof fn lemma_one_word_per_item(items: Seq<Item>, labels: Map<Seq<char>, usize>, i: int)
    requires
        0 <= i <= items.len(),
        encoded_items(items, labels, i) is Ok,
    ensures
        encoded_items(items, labels, i)->Ok_0.len() == items.len() - i,
    decreases items.len() - i,
{
    if i < items.len() {
        lemma_one_word_per_item(items, labels, i + 1);
    }
}

/// The words of a preprocessed program: the directives emit their data, the
/// label pass maps the labels and drops their definitions, and every line
/// that is left is encoded. The first line that is at fault decides the error.
pub open spec fn binary_of(lines: Seq<Seq<char>>) -> Result<Seq<u64>, Failure> {
    match raw_items(lines, 0) {
        Err(e) => Err(e),
        Ok(items) => if items.len() > MAX_ITEMS {
            Err(Failure { kind: ErrorKind::ProgramTooLarge, line: Seq::empty() })
        } else {
            encoded_items(kept_items(items), label_offsets(items), 0)
        },
    }
}

/// Turns preprocessed lines into instruction and data words.
pub fn to_binary(lines: &Vec<String>) -> (r: Result<Vec<u64>, AssembleError>)
    ensures
        match r {
            Ok(words) => binary_of(texts(lines@)) == Ok::<Seq<u64>, Failure>(words@),
            Err(e) => binary_of(texts(lines@)) == Err::<Seq<u64>, Failure>(e@),
        },
{
    let mut copy: Vec<String> = Vec::new();
    let mut c: usize = 0;
    while c < lines.len()
        invariant
            c <= lines@.len(),
            copy@.len() == c,
            forall|j: int| 0 <= j < c ==> copy@[j]@ == lines@[j]@,
        decreases lines@.len() - c,
    {
        copy.push(lines[c].clone());
        c = c + 1;
    }
    assert(texts(copy@) =~= texts(lines@));
    let raw = assemble_raw(copy)?;
    if raw.len() > MAX_ITEMS {
        return Err(AssembleError { kind: ErrorKind::ProgramTooLarge, line: String::new() });
    }
    let (label_map, intermediate) = generate_label_map(&raw);
    let ghost items = items_of(intermediate@);
    let ghost labels = label_map@;
    let mut ret: Vec<u64> = Vec::new();
    let mut i: usize = 0;
    while i < intermediate.len()
        invariant
            i <= intermediate@.len(),
            items == items_of(intermediate@),
            labels == label_map@,
            binary_of(texts(lines@)) == encoded_items(items, labels, 0),
            match encoded_items(items, labels, i as int) {
                Ok(rest) => encoded_items(items, labels, 0) is Ok && encoded_items(
                    items,
                    labels,
                    0,
                )->Ok_0 == ret@ + rest,
                Err(e) => encoded_items(items, labels, 0) == Err::<Seq<u64>, Failure>(e),
            },
        decreases intermediate@.len() - i,
    {
        let ghost so_far = ret@;
        assert(items[i as int] == intermediate@[i as int]@);
        let w = match &intermediate[i] {
            AssemblerIntermediary::Assembled(v) => *v,
            AssemblerIntermediary::Original(s) => match assemble_one(s.as_str(), &label_map) {
                Ok(w) => w,
                Err(kind) => { return Err(AssembleError { kind, line: s.clone() }); },
            },
        };
        ret.push(w);
        proof {
            match encoded_items(items, labels, i + 1) {
                Ok(rest) => {
                    assert(so_far + (seq![w] + rest) =~= so_far.push(w) + rest);
                },
                Err(_) => {},
            }
        }
        i = i + 1;
    }
    proof {
        assert(ret@ + Seq::<u64>::empty() =~= ret@);
    }
    Ok(ret)
}

/// The byte image of a sequence of words: each word takes eight bytes, the
/// most significant first.
pub open spec fn image_of(words: Seq<u64>) -> Seq<u8> {
    Seq::new(words.len() * 8, |i: int| be_byte(words[i / 8], i % 8))
}

/// Serializes the words in big-endian order.
pub fn to_memory(assembled: Vec<u64>) -> (ret: Vec<u8>)
    ensures
        ret@ == image_of(assembled@),
{
    let mut ret: Vec<u8> = Vec::new();
    let mut i: usize = 0;
    while i < assembled.len()
        invariant
            i <= assembled@.len(),
            ret@.len() == i * 8,
            forall|j: int| 0 <= j < ret@.len() ==> ret@[j] == be_byte(assembled@[j / 8], j % 8),
        decreases assembled@.len() - i,
    {
        let v = assembled[i];
        ret.push((v / 0x100_0000_0000_0000) as u8);
        ret.push(((v / 0x1_0000_0000_0000) % 256) as u8);
        ret.push(((v / 0x100_0000_0000) % 256) as u8);
        ret.push(((v / 0x1_0000_0000) % 256) as u8);
        ret.push(((v / 0x100_0000) % 256) as u8);
        ret.push(((v / 0x1_0000) % 256) as u8);
        ret.push(((v / 0x100) % 256) as u8);
        ret.push((v % 256) as u8);
        i = i + 1;
    }
    assert(ret@ =~= image_of(assembled@));
    ret
}

/// Where the line that starts at `i` ends: the first index at or after `i`
/// that holds a line feed, or the length.
pub open spec fn line_end(s: Seq<char>, i: int) -> int
    decreases s.len() - i,
{
    if 0 <= i < s.len() && s[i] != '\n' {
        line_end(s, i + 1)
    } else {
        i
    }
}

/// A line ends within the text.
pub proof fn lemma_line_end_bounds(s: Seq<char>, i: int)
    requires
        0 <= i <= s.len(),
    ensures
        i <= line_end(s, i) <= s.len(),
    decreases s.len() - i,
{
    if i < s.len() && s[i] != '\n' {
        lemma_line_end_bounds(s, i + 1);
    }
}

/// The lines of `s[i..]`: the texts between its line feeds. A text with `k`
/// line feeds has `k + 1` lines.
pub open spec fn split_lines(s: Seq<char>, i: int) -> Seq<Seq<char>>
    decreases s.len() - i,
    via split_lines_decreases
{
    if 0 <= i <= s.len() {
        if line_end(s, i) >= s.len() {
            seq![s.subrange(i, s.len() as int)]
        } else {
            seq![s.subrange(i, line_end(s, i))] + split_lines(s, line_end(s, i) + 1)
        }
    } else {
        Seq::empty()
    }
}

#[via_fn]
proof fn split_lines_decreases(s: Seq<char>, i: int) {
    if 0 <= i <= s.len() {
        lemma_line_end_bounds(s, i);
    }
}

/// The lines of a source text after preprocessing: every line trimmed,
/// comments removed, blank lines dropped, `it` directives expanded, stack
/// instructions expanded, in this order.
pub open spec fn preprocessed(text: Seq<char>) -> Result<Seq<Seq<char>>, Failure> {
    match expand_from(nonblank_lines(uncommented_lines(trimmed_lines(split_lines(text, 0)))), 0) {
        Err(e) => Err(e),
        Ok(lines) => Ok(stack_expanded(lines)),
    }
}

fn lines_of(text: &Vec<char>) -> (ret: Vec<String>)
    ensures
        texts(ret@) == split_lines(text@, 0),
{
    let n = text.len();
    let mut ret: Vec<String> = Vec::new();
    let mut start: usize = 0;
    let mut i: usize = 0;
    assert(texts(ret@) =~= Seq::<Seq<char>>::empty());
    while i < n
        invariant
            start <= i <= n == text@.len(),
            line_end(text@, start as int) == line_end(text@, i as int),
            split_lines(text@, 0) == texts(ret@) + split_lines(text@, start as int),
        decreases n - i,
    {
        if text[i] == '\n' {
            let ghost so_far = texts(ret@);
            ret.push(string_of(text, start, i));
            proof {
                let line = text@.subrange(start as int, i as int);
                assert(texts(ret@) =~= so_far.push(line));
                assert(so_far + (seq![line] + split_lines(text@, i + 1)) =~= so_far.push(line)
                    + split_lines(text@, i + 1));
            }
            start = i + 1;
        }
        i = i + 1;
    }
    let ghost so_far = texts(ret@);
    ret.push(string_of(text, start, n));
    proof {
        let line = text@.subrange(start as int, n as int);
        assert(texts(ret@) =~= so_far.push(line));
        assert(so_far + seq![line] =~= so_far.push(line));
    }
    ret
}

/// Splits a source text into lines and runs the preprocessor on them.
pub fn preprocess(text: String) -> (r: Result<Vec<String>, AssembleError>)
    ensures
        match r {
            Ok(lines) => preprocessed(text@) == Ok::<Seq<Seq<char>>, Failure>(texts(lines@)),
            Err(e) => preprocessed(text@) == Err::<Seq<Seq<char>>, Failure>(e@),
        },
{
    let lines = lines_of(&chars_of(text.as_str()));
    let lines = remove_whitespace(&lines);
    let lines = remove_comments(&lines);
    let lines = remove_empty_lines(&lines);
    let lines = expand_ite(&lines)?;
    Ok(expand_push_pop(&lines))
}

/// The byte image of a source text.
pub open spec fn assembled(text: Seq<char>) -> Result<Seq<u8>, Failure> {
    match preprocessed(text) {
        Err(e) => Err(e),
        Ok(lines) => match binary_of(lines) {
            Err(e) => Err(e),
            Ok(words) => Ok(image_of(words)),
        },
    }
}

/// Assembles a source text into its big-endian byte image. Fails with the
/// first line that is at fault.
pub fn assemble(text: &str) -> (r: Result<Vec<u8>, AssembleError>)
    ensures
        match r {
            Ok(bytes) => assembled(text@) == Ok::<Seq<u8>, Failure>(bytes@),
            Err(e) => assembled(text@) == Err::<Seq<u8>, Failure>(e@),
        },
{
    let lines = preprocess(string_from(&chars_of(text)))?;
    let words = to_binary(&lines)?;
    Ok(to_memory(words))
}

} // verus!
