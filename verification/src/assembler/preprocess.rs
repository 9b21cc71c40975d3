use vstd::prelude::*;
use crate::assembler::error::{AssembleError, ErrorKind, Failure};
use crate::assembler::text::{
    char_texts,
    chars_of,
    decimal_text,
    head_of,
    operands_of,
    push_chars,
    push_decimal,
    push_text,
    split_line,
    starts_with,
    string_from,
    texts,
};

verus! {

/// Whether a line pushes or pops: its head begins with `push` or `pop`.
pub open spec fn is_stack_line(line: Seq<char>) -> bool {
    "push"@.is_prefix_of(head_of(line)) || "pop"@.is_prefix_of(head_of(line))
}

/// What a line becomes when stack instructions are expanded: a stack line
/// becomes one line per operand, the head and that operand with one space
/// between them; any other line stays.
pub open spec fn stack_lines(line: Seq<char>) -> Seq<Seq<char>> {
    if is_stack_line(line) {
        Seq::new(
            operands_of(line).len(),
            |i: int| head_of(line) + seq![' '] + operands_of(line)[i],
        )
    } else {
        seq![line]
    }
}

/// The lines with every stack line expanded, in order.
pub open spec fn stack_expanded(lines: Seq<Seq<char>>) -> Seq<Seq<char>>
    decreases lines.len(),
{
    if lines.len() == 0 {
        Seq::empty()
    } else {
        stack_expanded(lines.drop_last()) + stack_lines(lines.last())
    }
}

/// Expands `push r0, r1, r2` to `push r0`, `push r1`, `push r2`, and `pop` likewise.
pub fn expand_push_pop(lines: &Vec<String>) -> (ret: Vec<String>)
    ensures
        texts(ret@) == stack_expanded(texts(lines@)),
{
    let mut ret: Vec<String> = Vec::new();
    let mut i: usize = 0;
    let ghost all = texts(lines@);
    assert(all.take(0) =~= Seq::<Seq<char>>::empty());
    assert(texts(ret@) =~= Seq::<Seq<char>>::empty());
    while i < lines.len()
        invariant
            i <= lines@.len(),
            all == texts(lines@),
            texts(ret@) == stack_expanded(all.take(i as int)),
        decreases lines@.len() - i,
    {
        let line = chars_of(lines[i].as_str());
        proof {
            assert(all.take(i + 1).drop_last() =~= all.take(i as int));
            assert(all.take(i + 1).last() == line@);
        }
        let ghost before = texts(ret@);
        let (head, operands) = split_line(&line);
        if starts_with(&head, "push") || starts_with(&head, "pop") {
            let mut j: usize = 0;
            while j < operands.len()
                invariant
                    j <= operands@.len(),
                    head@ == head_of(line@),
                    char_texts(operands@) == operands_of(line@),
                    is_stack_line(line@),
                    texts(ret@) == before + stack_lines(line@).take(j as int),
                decreases operands@.len() - j,
            {
                let mut text: Vec<char> = Vec::new();
                push_chars(&mut text, &head);
                text.push(' ');
                push_chars(&mut text, &operands[j]);
                let ghost so_far = texts(ret@);
                ret.push(string_from(&text));
                proof {
                    assert(operands@[j as int]@ == char_texts(operands@)[j as int]);
                    assert(text@ =~= head_of(line@) + seq![' '] + operands_of(line@)[j as int]);
                    assert(texts(ret@) =~= so_far.push(text@));
                    assert(stack_lines(line@).take(j + 1) =~= stack_lines(line@).take(
                        j as int,
                    ).push(text@));
                    assert(before + stack_lines(line@).take(j + 1) =~= (before + stack_lines(
                        line@,
                    ).take(j as int)).push(text@));
                }
                j = j + 1;
            }
            assert(stack_lines(line@).take(operands@.len() as int) =~= stack_lines(line@));
        } else {
            ret.push(lines[i].clone());
            assert(texts(ret@) =~= before + stack_lines(line@));
        }
        i = i + 1;
    }
    assert(all.take(lines@.len() as int) =~= all);
    ret
}

/// How often `c` occurs in `s`.
pub open spec fn count_letter(s: Seq<char>, c: char) -> nat
    decreases s.len(),
{
    if s.len() == 0 {
        0
    } else {
        count_letter(s.drop_last(), c) + if s.last() == c {
            1nat
        } else {
            0nat
        }
    }
}

/// Whether a line is an `it` directive: its head is `it` followed by
/// letters `t` and `e` only.
pub open spec fn is_directive(line: Seq<char>) -> bool {
    let head = head_of(line);
    "it"@.is_prefix_of(head) && forall|k: int|
        2 <= k < head.len() ==> #[trigger] head[k] == 't' || head[k] == 'e'
}

/// How many instructions of a directive's block run when the condition
/// holds: the one that `it` itself stands for, and one for each `t` after it.
pub open spec fn then_count(line: Seq<char>) -> nat {
    1 + count_letter(head_of(line).skip(2), 't')
}

/// How many instructions of a directive's block run when the condition does
/// not hold: one for each `e`.
pub open spec fn else_count(line: Seq<char>) -> nat {
    count_letter(head_of(line).skip(2), 'e')
}

/// The label of the "then" section of block `k`.
pub open spec fn then_label(k: nat) -> Seq<char> {
    "__IF_THEN_"@ + decimal_text(k)
}

/// The label of the "else" section of block `k`.
pub open spec fn else_label(k: nat) -> Seq<char> {
    "__IF_ELSE_"@ + decimal_text(k)
}

/// The label at the end of block `k`.
pub open spec fn end_label(k: nat) -> Seq<char> {
    "__IF_END_"@ + decimal_text(k)
}

/// The lines that open block `k`: the branch to its "then" section under the
/// condition, the branch to its "else" section, and the "then" label.
pub open spec fn block_open(cond: Seq<char>, k: nat) -> Seq<Seq<char>> {
    seq![
        "b"@ + cond + " ="@ + then_label(k),
        "b ="@ + else_label(k),
        then_label(k) + ":"@,
    ]
}

/// The lines between the two sections of block `k`: the branch over the
/// "else" section, and the "else" label.
pub open spec fn block_middle(k: nat) -> Seq<Seq<char>> {
    seq!["b ="@ + end_label(k), else_label(k) + ":"@]
}

/// The line that closes block `k`: its end label.
pub open spec fn block_close(k: nat) -> Seq<Seq<char>> {
    seq![end_label(k) + ":"@]
}

/// How many directives stand before line `pos`. The blocks are numbered by it.
pub open spec fn directives_before(src: Seq<Seq<char>>, pos: int) -> nat
    decreases pos,
{
    if pos <= 0 || pos > src.len() {
        0
    } else {
        directives_before(src, pos - 1) + if is_directive(src[pos - 1]) {
            1nat
        } else {
            0nat
        }
    }
}

/// Where `n` instructions that start at line `pos` end. A directive counts
/// as one instruction together with the instructions of its block. If the
/// lines run out first, this is the number of lines.
pub open spec fn run_end(src: Seq<Seq<char>>, pos: int, n: nat) -> int
    decreases src.len() - pos,
{
    if n == 0 || pos < 0 || pos >= src.len() {
        pos
    } else if is_directive(src[pos]) {
        run_end(src, pos + 1, ((n - 1) + then_count(src[pos]) + else_count(src[pos])) as nat)
    } else {
        run_end(src, pos + 1, (n - 1) as nat)
    }
}

/// A run ends within the lines, and after its start if it holds an instruction.
pub proof fn lemma_run_end_bounds(src: Seq<Seq<char>>, pos: int, n: nat)
    requires
        0 <= pos <= src.len(),
    ensures
        pos <= run_end(src, pos, n) <= src.len(),
        n > 0 && pos < src.len() ==> pos < run_end(src, pos, n),
    decreases src.len() - pos,
{
    if n == 0 || pos >= src.len() {
    } else if is_directive(src[pos]) {
        lemma_run_end_bounds(
            src,
            pos + 1,
            ((n - 1) + then_count(src[pos]) + else_count(src[pos])) as nat,
        );
    } else {
        lemma_run_end_bounds(src, pos + 1, (n - 1) as nat);
    }
}

/// Two runs in a row end where one run of their joint length ends.
pub proof fn lemma_run_end_splits(src: Seq<Seq<char>>, pos: int, n: nat, m: nat)
    requires
        0 <= pos <= src.len(),
    ensures
        run_end(src, run_end(src, pos, n), m) == run_end(src, pos, n + m),
    decreases src.len() - pos,
{
    if pos >= src.len() {
        if n == 0 {
        } else {
            assert(run_end(src, pos, n) == pos);
        }
    } else if n == 0 {
    } else if is_directive(src[pos]) {
        let k = ((n - 1) + then_count(src[pos]) + else_count(src[pos])) as nat;
        lemma_run_end_splits(src, pos + 1, k, m);
        assert(k + m == ((n + m - 1) + then_count(src[pos]) + else_count(src[pos])) as nat);
    } else {
        lemma_run_end_splits(src, pos + 1, (n - 1) as nat, m);
    }
}

/// The expansion of `n` instructions that start at line `pos`. A line that
/// is no directive stands for itself. A directive needs a condition, its
/// first operand; it opens a block, numbered by the directives before it,
/// whose "then" instructions and then "else" instructions follow and are
/// expanded in turn. If the lines run out, the directive `owner` that asked
/// for the instructions is at fault.
pub open spec fn expand_run(src: Seq<Seq<char>>, pos: int, n: nat, owner: Seq<char>) -> Result<
    Seq<Seq<char>>,
    Failure,
>
    decreases src.len() - pos, n,
    via expand_run_decreases
{
    if n == 0 {
        Ok(Seq::empty())
    } else if pos < 0 || pos >= src.len() {
        Err(Failure { kind: ErrorKind::MalformedDirective, line: owner })
    } else if !is_directive(src[pos]) {
        match expand_run(src, pos + 1, (n - 1) as nat, owner) {
            Err(e) => Err(e),
            Ok(rest) => Ok(seq![src[pos]] + rest),
        }
    } else if operands_of(src[pos]).len() == 0 {
        Err(Failure { kind: ErrorKind::MalformedDirective, line: src[pos] })
    } else {
        let line = src[pos];
        let k = directives_before(src, pos);
        let else_start = run_end(src, pos + 1, then_count(line));
        let rest_start = run_end(src, else_start, else_count(line));
        match expand_run(src, pos + 1, then_count(line), line) {
            Err(e) => Err(e),
            Ok(thens) => match expand_run(src, else_start, else_count(line), line) {
                Err(e) => Err(e),
                Ok(elses) => match expand_run(src, rest_start, (n - 1) as nat, owner) {
                    Err(e) => Err(e),
                    Ok(rest) => Ok(
                        block_open(operands_of(line)[0], k) + thens + block_middle(k) + elses
                            + block_close(k) + rest,
                    ),
                },
            },
        }
    }
}

#[via_fn]
proof fn expand_run_decreases(src: Seq<Seq<char>>, pos: int, n: nat, owner: Seq<char>) {
    if n != 0 && 0 <= pos < src.len() && is_directive(src[pos]) {
        let line = src[pos];
        lemma_run_end_bounds(src, pos + 1, then_count(line));
        lemma_run_end_bounds(src, run_end(src, pos + 1, then_count(line)), else_count(line));
    }
}

/// The expansion of every instruction from line `pos` on.
pub open spec fn expand_from(src: Seq<Seq<char>>, pos: int) -> Result<Seq<Seq<char>>, Failure>
    decreases src.len() - pos,
    via expand_from_decreases
{
    if pos < 0 || pos >= src.len() {
        Ok(Seq::empty())
    } else {
        match expand_run(src, pos, 1, src[pos]) {
            Err(e) => Err(e),
            Ok(one) => match expand_from(src, run_end(src, pos, 1)) {
                Err(e) => Err(e),
                Ok(rest) => Ok(one + rest),
            },
        }
    }
}

#[via_fn]
proof fn expand_from_decreases(src: Seq<Seq<char>>, pos: int) {
    if 0 <= pos < src.len() {
        lemma_run_end_bounds(src, pos, 1);
    }
}

/// Whether the head `head` is that of a directive, and if so its counts.
fn directive_counts(head: &Vec<char>) -> (r: Option<(usize, usize)>)
    ensures
        r is Some <==> ("it"@.is_prefix_of(head@) && forall|k: int|
            2 <= k < head@.len() ==> #[trigger] head@[k] == 't' || head@[k] == 'e'),
        r matches Some(counts) ==> counts.0 == 1 + count_letter(head@.skip(2), 't') && counts.1
            == count_letter(head@.skip(2), 'e'),
{
    if !starts_with(head, "it") {
        return None;
    }
    proof {
        reveal_strlit("it");
    }
    let mut t: usize = 1;
    let mut e: usize = 0;
    let mut i: usize = 2;
    let ghost tail = head@.skip(2);
    assert(tail.take(0) =~= Seq::<char>::empty());
    while i < head.len()
        invariant
            2 <= i <= head@.len(),
            tail == head@.skip(2),
            t == 1 + count_letter(tail.take(i - 2), 't'),
            e == count_letter(tail.take(i - 2), 'e'),
            t <= i,
            e <= i,
            forall|k: int| 2 <= k < i ==> #[trigger] head@[k] == 't' || head@[k] == 'e',
        decreases head@.len() - i,
    {
        proof {
            assert(tail.take(i - 1).drop_last() =~= tail.take(i - 2));
            assert(tail.take(i - 1).last() == head@[i as int]);
        }
        if head[i] == 't' {
            t = t + 1;
        } else if head[i] == 'e' {
            e = e + 1;
        } else {
            return None;
        }
        i = i + 1;
    }
    assert(tail.take(head@.len() - 2) =~= tail);
    Some((t, e))
}

fn label_text(prefix: &str, k: usize) -> (r: Vec<char>)
    ensures
        r@ == prefix@ + decimal_text(k as nat),
{
    let mut text: Vec<char> = Vec::new();
    push_text(&mut text, prefix);
    push_decimal(&mut text, k as u64);
    assert(Seq::<char>::empty() + prefix@ =~= prefix@);
    text
}

fn push_branch(out: &mut Vec<String>, cond: &Vec<char>, label: &Vec<char>)
    ensures
        texts(final(out)@) == texts(old(out)@).push("b"@ + cond@ + " ="@ + label@),
{
    let mut text: Vec<char> = Vec::new();
    push_text(&mut text, "b");
    push_chars(&mut text, cond);
    push_text(&mut text, " =");
    push_chars(&mut text, label);
    assert(text@ =~= "b"@ + cond@ + " ="@ + label@);
    out.push(string_from(&text));
    assert(texts(out@) =~= texts(old(out)@).push("b"@ + cond@ + " ="@ + label@));
}

fn push_label(out: &mut Vec<String>, label: &Vec<char>)
    ensures
        texts(final(out)@) == texts(old(out)@).push(label@ + ":"@),
{
    let mut text: Vec<char> = Vec::new();
    push_chars(&mut text, label);
    push_text(&mut text, ":");
    assert(text@ =~= label@ + ":"@);
    out.push(string_from(&text));
    assert(texts(out@) =~= texts(old(out)@).push(label@ + ":"@));
}

/// Expands `n` instructions from line `pos` on, appends the result to `out`,
/// and returns where they end.
fn expand_block(
    src: &Vec<String>,
    pos: usize,
    n: usize,
    k: usize,
    owner: &String,
    out: &mut Vec<String>,
) -> (r: Result<(usize, usize), AssembleError>)
    requires
        pos <= src@.len(),
        k == directives_before(texts(src@), pos as int),
        k <= pos,
    ensures
        match r {
            Ok((next, count)) => {
                &&& expand_run(texts(src@), pos as int, n as nat, owner@) is Ok
                &&& texts(final(out)@) == texts(old(out)@) + expand_run(
                    texts(src@),
                    pos as int,
                    n as nat,
                    owner@,
                )->Ok_0
                &&& next == run_end(texts(src@), pos as int, n as nat)
                &&& pos <= next <= src@.len()
                &&& count == directives_before(texts(src@), next as int)
                &&& count <= next
            },
            Err(e) => expand_run(texts(src@), pos as int, n as nat, owner@) == Err::<
                Seq<Seq<char>>,
                Failure,
            >(e@),
        },
    decreases src@.len() - pos, n,
{
    let ghost all = texts(src@);
    let ghost start = texts(out@);
    let mut at: usize = pos;
    let mut left: usize = n;
    let mut count: usize = k;
    proof {
        assert(start + Seq::<Seq<char>>::empty() =~= start);
    }
    while left > 0
        invariant
            all == texts(src@),
            start == texts(old(out)@),
            pos <= at <= src@.len(),
            left <= n,
            at == pos ==> left == n,
            count == directives_before(all, at as int),
            count <= at,
            run_end(all, pos as int, n as nat) == run_end(all, at as int, left as nat),
            match expand_run(all, at as int, left as nat, owner@) {
                Ok(rest) => expand_run(all, pos as int, n as nat, owner@) is Ok && start
                    + expand_run(all, pos as int, n as nat, owner@)->Ok_0 == texts(out@) + rest,
                Err(e) => expand_run(all, pos as int, n as nat, owner@) == Err::<
                    Seq<Seq<char>>,
                    Failure,
                >(e),
            },
        decreases src@.len() - at, left,
    {
        if at >= src.len() {
            return Err(
                AssembleError { kind: ErrorKind::MalformedDirective, line: owner.clone() },
            );
        }
        let line = chars_of(src[at].as_str());
        let (head, operands) = split_line(&line);
        assert(all[at as int] == line@);
        let ghost so_far = texts(out@);
        match directive_counts(&head) {
            None => {
                out.push(src[at].clone());
                proof {
                    assert(texts(out@) =~= so_far.push(line@));
                    match expand_run(all, at + 1, (left - 1) as nat, owner@) {
                        Ok(rest) => {
                            assert(so_far + (seq![line@] + rest) =~= so_far.push(line@) + rest);
                        },
                        Err(_) => {},
                    }
                }
                at = at + 1;
                left = left - 1;
                count = count;
            },
            Some((thens, elses)) => {
                if operands.len() == 0 {
                    return Err(
                        AssembleError {
                            kind: ErrorKind::MalformedDirective,
                            line: src[at].clone(),
                        },
                    );
                }
                assert(operands@[0]@ == char_texts(operands@)[0]);
                let then_name = label_text("__IF_THEN_", count);
                let else_name = label_text("__IF_ELSE_", count);
                let end_name = label_text("__IF_END_", count);
                let empty: Vec<char> = Vec::new();
                push_branch(out, &operands[0], &then_name);
                push_branch(out, &empty, &else_name);
                push_label(out, &then_name);
                proof {
                    assert("b"@ + empty@ + " ="@ =~= "b ="@) by {
                        reveal_strlit("b");
                        reveal_strlit(" =");
                        reveal_strlit("b =");
                    }
                    assert(texts(out@) =~= so_far + block_open(operands_of(line@)[0], count as nat));
                    lemma_run_end_bounds(all, at + 1, thens as nat);
                }
                let ghost opened = texts(out@);
                let (else_start, count_a) = match expand_block(
                    src,
                    at + 1,
                    thens,
                    count + 1,
                    &src[at],
                    out,
                ) {
                    Ok(x) => x,
                    Err(e) => { return Err(e); },
                };
                let ghost then_lines = expand_run(all, at + 1, thens as nat, line@)->Ok_0;
                let ghost with_thens = texts(out@);
                push_branch(out, &empty, &end_name);
                push_label(out, &else_name);
                proof {
                    assert(texts(out@) =~= with_thens + block_middle(count as nat));
                    lemma_run_end_bounds(all, else_start as int, elses as nat);
                }
                let ghost at_else = texts(out@);
                let (rest_start, count_b) = match expand_block(
                    src,
                    else_start,
                    elses,
                    count_a,
                    &src[at],
                    out,
                ) {
                    Ok(x) => x,
                    Err(e) => { return Err(e); },
                };
                let ghost else_lines = expand_run(
                    all,
                    else_start as int,
                    elses as nat,
                    line@,
                )->Ok_0;
                let ghost with_elses = texts(out@);
                push_label(out, &end_name);
                proof {
                    assert(texts(out@) =~= with_elses + block_close(count as nat));
                    lemma_run_end_splits(all, at + 1, thens as nat, elses as nat);
                    lemma_run_end_splits(
                        all,
                        at + 1,
                        (thens + elses) as nat,
                        (left - 1) as nat,
                    );
                    assert(run_end(all, at as int, left as nat) == run_end(
                        all,
                        rest_start as int,
                        (left - 1) as nat,
                    ));
                    match expand_run(all, rest_start as int, (left - 1) as nat, owner@) {
                        Ok(rest) => {
                            let block = block_open(operands_of(line@)[0], count as nat)
                                + then_lines + block_middle(count as nat) + else_lines
                                + block_close(count as nat);
                            assert(texts(out@) =~= so_far + block);
                            assert(so_far + (block + rest) =~= (so_far + block) + rest);
                        },
                        Err(_) => {},
                    }
                }
                at = rest_start;
                left = left - 1;
                count = count_b;
            },
        }
    }
    proof {
        assert(texts(out@) + Seq::<Seq<char>>::empty() =~= texts(out@));
    }
    Ok((at, count))
}

/// Expands the `it` directives. A directive `it<letters> <cond>` stands for
/// one "then" instruction, one more for each letter `t` and one "else"
/// instruction for each letter `e`; the "then" instructions follow the
/// directive, then the "else" instructions. Block `k` becomes
///
/// ```text
/// b<cond> =__IF_THEN_k
/// b =__IF_ELSE_k
/// __IF_THEN_k:
///   the "then" instructions
/// b =__IF_END_k
/// __IF_ELSE_k:
///   the "else" instructions
/// __IF_END_k:
/// ```
///
/// An instruction of a block may be a directive again. Fails on a directive
/// without a condition and on a block that the lines end in.
pub fn expand_ite(lines: &Vec<String>) -> (r: Result<Vec<String>, AssembleError>)
    ensures
        match r {
            Ok(ret) => expand_from(texts(lines@), 0) == Ok::<Seq<Seq<char>>, Failure>(texts(ret@)),
            Err(e) => expand_from(texts(lines@), 0) == Err::<Seq<Seq<char>>, Failure>(e@),
        },
{
    let mut ret: Vec<String> = Vec::new();
    let mut pos: usize = 0;
    let mut count: usize = 0;
    let ghost all = texts(lines@);
    assert(texts(ret@) =~= Seq::<Seq<char>>::empty());
    while pos < lines.len()
        invariant
            all == texts(lines@),
            pos <= lines@.len(),
            count == directives_before(all, pos as int),
            count <= pos,
            match expand_from(all, pos as int) {
                Ok(rest) => expand_from(all, 0) is Ok && expand_from(all, 0)->Ok_0 == texts(ret@)
                    + rest,
                Err(e) => expand_from(all, 0) == Err::<Seq<Seq<char>>, Failure>(e),
            },
        decreases lines@.len() - pos,
    {
        let ghost so_far = texts(ret@);
        proof {
            lemma_run_end_bounds(all, pos as int, 1);
            assert(all[pos as int] == lines@[pos as int]@);
        }
        let (next, count_next) = match expand_block(lines, pos, 1, count, &lines[pos], &mut ret) {
            Ok(x) => x,
            Err(e) => { return Err(e); },
        };
        proof {
            let one = expand_run(all, pos as int, 1, all[pos as int])->Ok_0;
            match expand_from(all, next as int) {
                Ok(rest) => {
                    assert(so_far + (one + rest) =~= (so_far + one) + rest);
                },
                Err(_) => {},
            }
        }
        pos = next;
        count = count_next;
    }
    proof {
        assert(texts(ret@) + Seq::<Seq<char>>::empty() =~= texts(ret@));
    }
    Ok(ret)
}

} // verus!
