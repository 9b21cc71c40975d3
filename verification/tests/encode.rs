use emulator::assembler::assemble::{
    assemble, assemble_one, assemble_raw, generate_label_map, operand_to_u64, parse_cond,
    parse_instruction, parse_operand, split_operands, to_binary, to_memory, AssemblerIntermediary,
    MAX_ITEMS,
};
use emulator::assembler::error::ErrorKind;
use emulator::assembler::labels::LabelMap;
use emulator::emulator::instr::{instr_to_string, Instr};

fn lines(v: &[&str]) -> Vec<String> {
    v.iter().map(|s| s.to_string()).collect()
}

fn labels() -> LabelMap {
    let mut map = LabelMap::new();
    map.insert("x", 24);
    map.insert("far", 0xffff_fff8);
    map.insert("too_far", 0x1_0000_0000);
    map
}

#[test]
fn condition_suffixes() {
    let cases: [(&str, u64); 20] = [
        ("", 14),
        ("eq", 0),
        ("ne", 1),
        ("hs", 2),
        ("cs", 2),
        ("lo", 3),
        ("cc", 3),
        ("mi", 4),
        ("pl", 5),
        ("vs", 6),
        ("vc", 7),
        ("hi", 8),
        ("ls", 9),
        ("ge", 10),
        ("lt", 11),
        ("gt", 12),
        ("le", 13),
        ("al", 14),
        ("s", 14),
        ("seq", 14),
    ];
    for (suffix, code) in cases {
        assert_eq!(parse_cond(suffix), Ok(code), "{}", suffix);
    }
    for suffix in ["e", "xx", "eqq", "xeq", "sx", "ss", "EQ", " eq", "t"] {
        assert_eq!(parse_cond(suffix), Err(ErrorKind::UnknownCondition), "{}", suffix);
    }
}

#[test]
fn instruction_heads() {
    assert_eq!(parse_instruction("mov r0, #1"), Ok((0x1000, false, 14, "mov")));
    assert_eq!(parse_instruction("  adds r0, r0, r1"), Ok((0x1001, true, 14, "add")));
    assert_eq!(parse_instruction("subne r0, r0, r1"), Ok((0x1002, false, 1, "sub")));
    assert_eq!(parse_instruction("smul r0, r0, r1"), Ok((0x1005, false, 14, "smul")));
    assert_eq!(parse_instruction("smodu"), Ok((0x1008, false, 14, "smodu")));
    assert_eq!(parse_instruction("smoduge"), Ok((0x1008, false, 10, "smodu")));
    assert_eq!(parse_instruction("modulo"), Ok((0x1007, false, 3, "modu")));
    assert_eq!(parse_instruction("modulus"), Err(ErrorKind::UnknownCondition));
    assert_eq!(parse_instruction("cmp r0, r1"), Ok((0x1015, true, 14, "cmp")));
    assert_eq!(parse_instruction("cmpeq r0, r1"), Ok((0x1015, true, 0, "cmp")));
    assert_eq!(parse_instruction("tsts r0, r1"), Ok((0x1017, true, 14, "tst")));
    assert_eq!(parse_instruction("push r0"), Ok((0x2003, false, 14, "push")));
    assert_eq!(parse_instruction("pop r0"), Ok((0x2002, false, 14, "pop")));
    assert_eq!(parse_instruction("b =x"), Ok((0x3000, false, 14, "b")));
    assert_eq!(parse_instruction("bl =x"), Ok((0x3001, false, 14, "bl")));
    assert_eq!(parse_instruction("beq =x"), Ok((0x3000, false, 0, "b")));
    assert_eq!(parse_instruction("bleq =x"), Ok((0x3001, false, 0, "bl")));
    assert_eq!(parse_instruction("bls =x"), Ok((0x3001, true, 14, "bl")));
    assert_eq!(parse_instruction("blls =x"), Ok((0x3001, false, 9, "bl")));
    assert_eq!(parse_instruction("blt =x"), Err(ErrorKind::UnknownCondition));
    assert_eq!(parse_instruction("bs =x"), Ok((0x3000, true, 14, "b")));
    assert_eq!(parse_instruction("qry r0"), Ok((0x1031, false, 14, "qry")));
    assert_eq!(parse_instruction("int r0, #1"), Ok((0x1032, false, 14, "int")));
    assert_eq!(parse_instruction("nop"), Ok((0x0000, false, 14, "nop")));
    assert_eq!(parse_instruction("hlt"), Ok((0x0001, false, 14, "hlt")));
    assert_eq!(parse_instruction("hlteq"), Ok((0x0001, false, 14, "hlt")));
    assert_eq!(parse_instruction("nopxyz"), Ok((0x0000, false, 14, "nop")));
    assert_eq!(parse_instruction(""), Err(ErrorKind::UnknownMnemonic));
    assert_eq!(parse_instruction("   "), Err(ErrorKind::UnknownMnemonic));
    assert_eq!(parse_instruction("jmp r0"), Err(ErrorKind::UnknownMnemonic));
    assert_eq!(parse_instruction("MOV r0, #1"), Err(ErrorKind::UnknownMnemonic));
    assert_eq!(parse_instruction("movxx r0, #1"), Err(ErrorKind::UnknownCondition));
    assert_eq!(parse_instruction("addsx r0, #1"), Err(ErrorKind::UnknownCondition));
}

#[test]
fn operands() {
    let map = labels();
    assert_eq!(parse_operand("lr", &map), Ok((14, false)));
    assert_eq!(parse_operand("sp", &map), Ok((13, false)));
    assert_eq!(parse_operand("pc", &map), Ok((15, false)));
    assert_eq!(parse_operand("r0", &map), Ok((0, false)));
    assert_eq!(parse_operand("r15", &map), Ok((15, false)));
    assert_eq!(parse_operand("r007", &map), Ok((7, false)));
    assert_eq!(parse_operand("#0", &map), Ok((0, true)));
    assert_eq!(parse_operand("#4294967295", &map), Ok((4294967295, true)));
    assert_eq!(parse_operand("=x", &map), Ok((24, true)));
    assert_eq!(parse_operand("=far", &map), Ok((0xffff_fff8, true)));
    for bad in [
        "", "r", "r16", "r-1", "r+1", "rx", "lrx", "spp", "#", "#-1", "#4294967296", "#1a", "5",
        "x", "R0", "=too_far",
    ] {
        assert_eq!(parse_operand(bad, &map), Err(ErrorKind::UnknownOperand), "{}", bad);
    }
    for missing in ["=", "=y", "=X", "=x "] {
        assert_eq!(parse_operand(missing, &map), Err(ErrorKind::UnknownLabel), "{}", missing);
    }
}

#[test]
fn operands_are_split_at_white_space_and_commas() {
    assert_eq!(split_operands("add r0, r1, #2"), ["r0", "r1", "#2"]);
    assert_eq!(split_operands("add r0,r1,#2"), ["r0", "r1", "#2"]);
    assert_eq!(split_operands("  push   r0 ,r1,, r2,"), ["r0", "r1", "r2"]);
    assert_eq!(split_operands("hlt"), Vec::<String>::new());
    assert_eq!(split_operands(""), Vec::<String>::new());
}

#[test]
fn operand_bits_by_shape() {
    let map = labels();
    assert_eq!(operand_to_u64("nop", "nop", &map), Ok((0, false)));
    assert_eq!(operand_to_u64("hlt r1, r2", "hlt", &map), Ok((0, false)));
    assert_eq!(operand_to_u64("push r3", "push", &map), Ok((3 << 40, false)));
    assert_eq!(operand_to_u64("mvi lr", "mvi", &map), Ok((14 << 40, false)));
    assert_eq!(operand_to_u64("b =x", "b", &map), Ok((24, true)));
    assert_eq!(operand_to_u64("b lr", "bl", &map), Ok((14, false)));
    assert_eq!(operand_to_u64("qry #9", "qry", &map), Ok((9, true)));
    assert_eq!(operand_to_u64("cmp r3, #7", "cmp", &map), Ok(((3 << 32) | 7, true)));
    assert_eq!(operand_to_u64("int r3, r4", "int", &map), Ok(((3 << 32) | 4, false)));
    assert_eq!(operand_to_u64("mov r1, #1", "mov", &map), Ok(((1 << 40) | 1, true)));
    assert_eq!(
        operand_to_u64("add r1, r2, r3", "add", &map),
        Ok(((1 << 40) | (2 << 32) | 3, false))
    );
    assert_eq!(
        operand_to_u64("add r1, r2, r3, r4, r5", "add", &map),
        Ok(((1 << 40) | (2 << 32) | 3, false))
    );
    assert_eq!(operand_to_u64("ldr r4, sp", "ldr", &map), Ok(((4 << 40) | (13 << 36), true)));
    assert_eq!(
        operand_to_u64("str r5, r0, r1, #8", "str", &map),
        Ok(((5 << 40) | (1 << 32) | 8, true))
    );
    assert_eq!(
        operand_to_u64("str r5, r6, r7, r8", "str", &map),
        Ok(((5 << 40) | (6 << 36) | (7 << 32) | 8, false))
    );
    // the mnemonic is given by name, not read from the line
    assert_eq!(operand_to_u64("whatever r3", "pop", &map), Ok((3 << 40, false)));
    assert_eq!(operand_to_u64("pop r3", "pops", &map), Err(ErrorKind::UnknownMnemonic));
    assert_eq!(operand_to_u64("pop r3", "", &map), Err(ErrorKind::UnknownMnemonic));
    for (line, name) in [
        ("push", "push"),
        ("push #1", "push"),
        ("push =x", "push"),
        ("b", "b"),
        ("cmp r1", "cmp"),
        ("cmp #1, r1", "cmp"),
        ("mov r1", "mov"),
        ("add r1, r2", "add"),
        ("add r1, #2, r3", "add"),
        ("ldr r1", "ldr"),
        ("ldr r1, r2, r3", "ldr"),
        ("ldr r1, #2", "ldr"),
        ("ldr r1, r2, #3, #4", "ldr"),
        ("mov r16, #1", "mov"),
    ] {
        assert_eq!(operand_to_u64(line, name, &map), Err(ErrorKind::UnknownOperand), "{}", line);
    }
    assert_eq!(operand_to_u64("b =nowhere", "b", &map), Err(ErrorKind::UnknownLabel));
    assert_eq!(operand_to_u64("mov =nowhere, r1", "mov", &map), Err(ErrorKind::UnknownLabel));
}

#[test]
fn single_lines_encode_to_their_words() {
    let map = labels();
    let cases: [(&str, u64); 27] = [
        ("mov r1, #1", 0xE500010000000001),
        ("add r0, r0, r1", 0xE100100000000001),
        ("subs r1, r1, r0", 0xE900210100000000),
        ("hlt", 0xE000100000000000),
        ("nop", 0xE000000000000000),
        ("cmpeq r3, #7", 0x0D01500300000007),
        ("cmp r0, r1", 0xE901500000000001),
        ("ldr r4, sp", 0xE60004D000000000),
        ("ldr r5, r0, r1, #8", 0xE600050100000008),
        ("str r3, sp", 0xE60013D000000000),
        ("push lr", 0xE2003E0000000000),
        ("pop r2", 0xE200220000000000),
        ("b lr", 0xE30000000000000E),
        ("bl #64", 0xE700100000000040),
        ("bne #16", 0x1700000000000010),
        ("bcc #8", 0x3700000000000008),
        ("bls #8", 0xEF00100000000008),
        ("mvi r0", 0xE103000000000000),
        ("qry #5", 0xE503100000000005),
        ("int r1, #2", 0xE503200100000002),
        ("smodu r1, r2, r3", 0xE100810200000003),
        ("lsl r1, r2, #3", 0xE502010200000003),
        ("mvnhs r15, pc", 0x21009F000000000F),
        ("mov r0, #4294967295", 0xE5000000FFFFFFFF),
        ("addal r1, r2, #3", 0xE500110200000003),
        ("addseq r1, r2, #3", 0xED00110200000003),
        ("b =x", 0xE700000000000018),
    ];
    for (line, word) in cases {
        assert_eq!(assemble_one(line, &map), Ok(word), "{}", line);
    }
    assert_eq!(assemble_one("mov r0,#1", &map), assemble_one("mov   r0 , #1 ", &map));
    assert_eq!(assemble_one("frob r0", &map), Err(ErrorKind::UnknownMnemonic));
    assert_eq!(assemble_one("movzz r0, #1", &map), Err(ErrorKind::UnknownCondition));
    assert_eq!(assemble_one("mov r0", &map), Err(ErrorKind::UnknownOperand));
    assert_eq!(assemble_one("b =y", &map), Err(ErrorKind::UnknownLabel));
    // the head is read before the operands
    assert_eq!(assemble_one("movzz r99", &map), Err(ErrorKind::UnknownCondition));
}

#[test]
fn decoding_an_encoded_word_gives_the_fields_back() {
    let map = labels();
    let i = Instr::new(assemble_one("addne r3, r4, #77", &map).unwrap());
    assert_eq!(
        i,
        Instr {
            cond_code: 1,
            set_flags: false,
            c_is_imm: true,
            op_code: 0x1001,
            reg_d_mem: 3,
            reg_a: 0,
            reg_b: 4,
            reg_c: 77,
        }
    );
    let i = Instr::new(assemble_one("strs r3, r4, r5, r6", &map).unwrap());
    assert_eq!(
        i,
        Instr {
            cond_code: 14,
            set_flags: true,
            c_is_imm: false,
            op_code: 0x2001,
            reg_d_mem: 3,
            reg_a: 4,
            reg_b: 5,
            reg_c: 6,
        }
    );
}

#[test]
fn disassembly_reassembles_to_the_same_word() {
    let map = labels();
    let empty = LabelMap::new();
    let heads = [
        "mov", "add", "sub", "mul", "div", "smul", "sdiv", "modu", "smodu", "mvn", "and", "orr",
        "eor", "cmp", "cmn", "tst", "teq", "lsl", "lsr", "asr", "rol", "ror", "mvi", "qry", "int",
        "ldr", "str", "pop", "push", "b", "bl", "nop", "hlt",
    ];
    let suffixes = [
        "", "s", "eq", "ne", "hs", "cs", "lo", "cc", "mi", "pl", "vs", "vc", "hi", "ls", "ge",
        "lt", "gt", "le", "al", "seq",
    ];
    let operands = [
        "",
        "r1",
        "#5",
        "=x",
        "lr",
        "r1, r2",
        "r1, #0",
        "sp, =far",
        "r1, r2, r3",
        "r1, r2, #4294967295",
        "r15, r0, r0, #0",
        "r1, r2, r0, r0",
        "r1, r2, r3, #8",
        "pc, lr, sp, r9",
    ];
    let mut encoded = 0;
    for head in heads {
        for suffix in suffixes {
            for ops in operands {
                let line = format!("{}{} {}", head, suffix, ops);
                if let Ok(word) = assemble_one(&line, &map) {
                    let text = instr_to_string(word).unwrap();
                    assert_eq!(assemble_one(&text, &empty), Ok(word), "{} -> {}", line, text);
                    assert_eq!(Instr::new(word).encode(), word);
                    encoded += 1;
                }
            }
        }
    }
    assert!(encoded > 2000);
}

#[test]
fn directives_emit_their_data() {
    let got = assemble_raw(lines(&[
        "mov r0, #1",
        ".word",
        "0x10",
        ".word",
        "0b101",
        ".word",
        "-1",
        ".word",
        "+7",
        ".word",
        "9223372036854775807",
        ".word",
        "-9223372036854775808",
        ".asciz",
        "ab",
        ".asciz",
        "é",
        "label:",
    ]))
    .unwrap();
    let mut words = Vec::new();
    let mut sources = Vec::new();
    for item in &got {
        match item {
            AssemblerIntermediary::Assembled(w) => words.push(*w),
            AssemblerIntermediary::Original(s) => sources.push(s.clone()),
        }
    }
    assert_eq!(
        words,
        vec![
            16,
            5,
            u64::MAX,
            7,
            i64::MAX as u64,
            1 << 63,
            2,
            'a' as u64,
            'b' as u64,
            2,
            0xc3,
            0xa9
        ]
    );
    assert_eq!(sources, lines(&["mov r0, #1", "label:"]));
    assert!(matches!(got[0], AssemblerIntermediary::Original(_)));
    assert!(matches!(got[1], AssemblerIntermediary::Assembled(16)));
    assert_eq!(got.len(), 14);
    let empty = assemble_raw(lines(&[".asciz", ""])).unwrap();
    assert!(matches!(empty[..], [AssemblerIntermediary::Assembled(0)]));
}

#[test]
fn directives_fail_on_a_missing_or_malformed_literal() {
    for (src, line) in [
        (vec![".word"], ".word"),
        (vec!["nop", ".asciz"], ".asciz"),
        (vec![".word", "abc"], "abc"),
        (vec![".word", "0x"], "0x"),
        (vec![".word", "0xg"], "0xg"),
        (vec![".word", "0x-1"], "0x-1"),
        (vec![".word", "0b2"], "0b2"),
        (vec![".word", "0x10000000000000000"], "0x10000000000000000"),
        (vec![".word", "9223372036854775808"], "9223372036854775808"),
        (vec![".word", "-9223372036854775809"], "-9223372036854775809"),
        (vec![".word", "-"], "-"),
        (vec![".word", "1 2"], "1 2"),
        (vec![".word", "1", ".word", "x"], "x"),
    ] {
        let err = assemble_raw(lines(&src)).unwrap_err();
        assert_eq!(err.kind, ErrorKind::MalformedLiteral);
        assert_eq!(err.line, line);
    }
}

#[test]
fn labels_name_the_offset_of_the_next_item() {
    let items = vec![
        AssemblerIntermediary::Original("start:".to_string()),
        AssemblerIntermediary::Original("mov r0, #1".to_string()),
        AssemblerIntermediary::Assembled(7),
        AssemblerIntermediary::Original("mid::".to_string()),
        AssemblerIntermediary::Original("twice:".to_string()),
        AssemblerIntermediary::Original("hlt".to_string()),
        AssemblerIntermediary::Original("twice:".to_string()),
        AssemblerIntermediary::Original("end:".to_string()),
    ];
    let (map, kept) = generate_label_map(&items);
    assert_eq!(map.get("start"), Some(0));
    assert_eq!(map.get("mid"), Some(16));
    assert_eq!(map.get("twice"), Some(24));
    assert_eq!(map.get("end"), Some(24));
    assert_eq!(map.get("mid:"), None);
    assert_eq!(map.get("hlt"), None);
    assert_eq!(kept.len(), 3);
    assert!(matches!(&kept[0], AssemblerIntermediary::Original(s) if s == "mov r0, #1"));
    assert!(matches!(&kept[1], AssemblerIntermediary::Assembled(7)));
    assert!(matches!(&kept[2], AssemblerIntermediary::Original(s) if s == "hlt"));
    assert_eq!(MAX_ITEMS, 0x1fff_ffff);
}

#[test]
fn to_binary_resolves_labels_and_reports_the_offending_line() {
    let words = to_binary(&lines(&["b =end", ".word", "0xff", "end:", "hlt"])).unwrap();
    assert_eq!(words, vec![0xE700000000000010, 0xff, 0xE000100000000000]);
    assert_eq!(to_binary(&lines(&[])).unwrap(), Vec::<u64>::new());
    for (src, kind, line) in [
        (vec!["nop", "frob r1", "bad"], ErrorKind::UnknownMnemonic, "frob r1"),
        (vec!["movxx r1, #1"], ErrorKind::UnknownCondition, "movxx r1, #1"),
        (vec!["mov r1"], ErrorKind::UnknownOperand, "mov r1"),
        (vec!["l:", "b =m"], ErrorKind::UnknownLabel, "b =m"),
        (vec!["b =m", ".word"], ErrorKind::MalformedLiteral, ".word"),
        (vec!["it eq"], ErrorKind::UnknownMnemonic, "it eq"),
    ] {
        let err = to_binary(&lines(&src)).unwrap_err();
        assert_eq!(err.kind, kind);
        assert_eq!(err.line, line);
    }
}

#[test]
fn to_memory_writes_each_word_most_significant_byte_first() {
    assert_eq!(to_memory(vec![]), Vec::<u8>::new());
    assert_eq!(
        to_memory(vec![0x0102_0304_0506_0708, u64::MAX, 1]),
        vec![
            1, 2, 3, 4, 5, 6, 7, 8, 255, 255, 255, 255, 255, 255, 255, 255, 0, 0, 0, 0, 0, 0, 0, 1
        ]
    );
}

#[test]
fn assemble_gives_the_byte_image() {
    let image = assemble("mov r1, #1 ; one\n\nloop:\n  b =loop\n").unwrap();
    assert_eq!(
        image,
        vec![0xE5, 0x00, 0x01, 0, 0, 0, 0, 1, 0xE7, 0, 0, 0, 0, 0, 0, 8]
    );
    assert_eq!(assemble("").unwrap(), Vec::<u8>::new());
    let err = assemble("nop\n  frob r1 ; what\n").unwrap_err();
    assert_eq!(err.kind, ErrorKind::UnknownMnemonic);
    assert_eq!(err.line, "frob r1 ");
    let err = assemble("itt eq\nnop").unwrap_err();
    assert_eq!(err.kind, ErrorKind::MalformedDirective);
    let err = assemble(".word\nzz").unwrap_err();
    assert_eq!(err.kind, ErrorKind::MalformedLiteral);
    assert_eq!(err.line, "zz");
}
