use emulator::assembler::assemble::preprocess;
use emulator::assembler::error::ErrorKind;
use emulator::assembler::preprocess::{expand_ite, expand_push_pop};
use emulator::assembler::trim::{remove_comments, remove_empty_lines, remove_whitespace};

fn lines(v: &[&str]) -> Vec<String> {
    v.iter().map(|s| s.to_string()).collect()
}

#[test]
fn remove_whitespace_trims_every_line() {
    let got = remove_whitespace(&lines(&["  mov r0, #1  ", "\thlt", "", "   ", "a  b"]));
    assert_eq!(got, lines(&["mov r0, #1", "hlt", "", "", "a  b"]));
    assert_eq!(remove_whitespace(&lines(&[])), lines(&[]));
}

#[test]
fn remove_comments_drops_comment_lines_and_cuts_the_others() {
    let got = remove_comments(&lines(&[
        "; a comment",
        "mov r0, #1 ; set",
        "hlt",
        ";",
        "a;b;c",
        "",
        " ; indented",
    ]));
    assert_eq!(got, lines(&["mov r0, #1 ", "hlt", "a", "", " "]));
}

#[test]
fn remove_empty_lines_drops_blank_lines() {
    let got = remove_empty_lines(&lines(&["", "a", "   ", "\t", " b ", ""]));
    assert_eq!(got, lines(&["a", " b "]));
}

#[test]
fn expand_push_pop_gives_one_line_per_register() {
    let got = expand_push_pop(&lines(&[
        "push r0, r1, r2",
        "mov r0, #1",
        "pop r2,r3,",
        "push lr",
        "push",
        "pusheq r4, r5",
        "label:",
    ]));
    assert_eq!(
        got,
        lines(&[
            "push r0", "push r1", "push r2", "mov r0, #1", "pop r2", "pop r3", "push lr",
            "pusheq r4", "pusheq r5", "label:",
        ])
    );
}

#[test]
fn expand_ite_of_a_bare_it() {
    let got = expand_ite(&lines(&["it eq", "mov r1, #1", "hlt"])).unwrap();
    assert_eq!(
        got,
        lines(&[
            "beq =__IF_THEN_0",
            "b =__IF_ELSE_0",
            "__IF_THEN_0:",
            "mov r1, #1",
            "b =__IF_END_0",
            "__IF_ELSE_0:",
            "__IF_END_0:",
            "hlt",
        ])
    );
}

#[test]
fn expand_ite_of_itee_takes_one_then_and_two_else() {
    let got = expand_ite(&lines(&["nop", "itee ne", "a", "b", "c", "d"])).unwrap();
    assert_eq!(
        got,
        lines(&[
            "nop",
            "bne =__IF_THEN_0",
            "b =__IF_ELSE_0",
            "__IF_THEN_0:",
            "a",
            "b =__IF_END_0",
            "__IF_ELSE_0:",
            "b",
            "c",
            "__IF_END_0:",
            "d",
        ])
    );
}

#[test]
fn expand_ite_numbers_the_blocks_in_order() {
    let got = expand_ite(&lines(&["it eq", "a", "itt lt", "b", "c", "ite gt", "d", "e"])).unwrap();
    assert_eq!(
        got,
        lines(&[
            "beq =__IF_THEN_0",
            "b =__IF_ELSE_0",
            "__IF_THEN_0:",
            "a",
            "b =__IF_END_0",
            "__IF_ELSE_0:",
            "__IF_END_0:",
            "blt =__IF_THEN_1",
            "b =__IF_ELSE_1",
            "__IF_THEN_1:",
            "b",
            "c",
            "b =__IF_END_1",
            "__IF_ELSE_1:",
            "__IF_END_1:",
            "bgt =__IF_THEN_2",
            "b =__IF_ELSE_2",
            "__IF_THEN_2:",
            "d",
            "b =__IF_END_2",
            "__IF_ELSE_2:",
            "e",
            "__IF_END_2:",
        ])
    );
}

#[test]
fn expand_ite_expands_nested_blocks_with_their_own_numbers() {
    let got = expand_ite(&lines(&["ite eq", "it ne", "a", "b", "c"])).unwrap();
    assert_eq!(
        got,
        lines(&[
            "beq =__IF_THEN_0",
            "b =__IF_ELSE_0",
            "__IF_THEN_0:",
            "bne =__IF_THEN_1",
            "b =__IF_ELSE_1",
            "__IF_THEN_1:",
            "a",
            "b =__IF_END_1",
            "__IF_ELSE_1:",
            "__IF_END_1:",
            "b =__IF_END_0",
            "__IF_ELSE_0:",
            "b",
            "__IF_END_0:",
            "c",
        ])
    );
}

#[test]
fn expand_ite_counts_past_nine_blocks() {
    let mut src = Vec::new();
    for _ in 0..11 {
        src.push("it eq".to_string());
        src.push("nop".to_string());
    }
    let got = expand_ite(&src).unwrap();
    assert_eq!(got.len(), 11 * 7);
    assert_eq!(got[10 * 7], "beq =__IF_THEN_10");
    assert_eq!(got[10 * 7 + 6], "__IF_END_10:");
    assert_eq!(got[9 * 7 + 2], "__IF_THEN_9:");
}

#[test]
fn expand_ite_leaves_other_lines_that_begin_with_it() {
    let src = lines(&["iterate:", "item r0", "itx eq", "i", "it"]);
    let err = expand_ite(&src).unwrap_err();
    assert_eq!(err.kind, ErrorKind::MalformedDirective);
    assert_eq!(err.line, "it");
    let src = lines(&["iterate:", "item r0", "itx eq", "i"]);
    assert_eq!(expand_ite(&src).unwrap(), src);
}

#[test]
fn expand_ite_fails_on_a_block_that_the_lines_end_in() {
    let err = expand_ite(&lines(&["nop", "itt eq", "a"])).unwrap_err();
    assert_eq!(err.kind, ErrorKind::MalformedDirective);
    assert_eq!(err.line, "itt eq");
    let err = expand_ite(&lines(&["ite eq", "a"])).unwrap_err();
    assert_eq!(err.line, "ite eq");
    let err = expand_ite(&lines(&["itt eq", "it ne"])).unwrap_err();
    assert_eq!(err.line, "it ne");
    let err = expand_ite(&lines(&["it eq"])).unwrap_err();
    assert_eq!(err.line, "it eq");
}

#[test]
fn expand_ite_fails_on_a_directive_without_condition() {
    let err = expand_ite(&lines(&["nop", "ite", "a", "b"])).unwrap_err();
    assert_eq!(err.kind, ErrorKind::MalformedDirective);
    assert_eq!(err.line, "ite");
}

#[test]
fn preprocess_runs_the_passes_in_order() {
    let got = preprocess(
        "  ; header\n\n  mov r0, #1 ; one\n\tpush r0, r1\n   \n it eq ; cond\n pop r2, r3\nhlt\n"
            .to_string(),
    )
    .unwrap();
    assert_eq!(
        got,
        lines(&[
            "mov r0, #1 ",
            "push r0",
            "push r1",
            "beq =__IF_THEN_0",
            "b =__IF_ELSE_0",
            "__IF_THEN_0:",
            "pop r2",
            "pop r3",
            "b =__IF_END_0",
            "__IF_ELSE_0:",
            "__IF_END_0:",
            "hlt",
        ])
    );
    assert_eq!(preprocess(String::new()).unwrap(), lines(&[]));
    assert_eq!(preprocess("\n\n".to_string()).unwrap(), lines(&[]));
    assert_eq!(preprocess("a\r\nb".to_string()).unwrap(), lines(&["a", "b"]));
    let err = preprocess("nop\n it eq ; nothing follows".to_string()).unwrap_err();
    assert_eq!(err.kind, ErrorKind::MalformedDirective);
    assert_eq!(err.line, "it eq ");
}
