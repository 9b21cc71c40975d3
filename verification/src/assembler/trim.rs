use vstd::prelude::*;
use crate::assembler::text::{chars_of, string_from, string_of, texts, trim, trim_chars};

verus! {

/// Every line without its leading and trailing white space.
pub open spec fn trimmed_lines(lines: Seq<Seq<char>>) -> Seq<Seq<char>> {
    Seq::new(lines.len(), |i: int| trim(lines[i]))
}

/// Where the comment of a line starts: the first index at or after `i` that
/// holds a `;`, or the length.
pub open spec fn comment_start(s: Seq<char>, i: int) -> int
    decreases s.len() - i,
{
    if 0 <= i < s.len() && s[i] != ';' {
        comment_start(s, i + 1)
    } else {
        i
    }
}

/// The lines without their comments: a line that begins with `;` is dropped,
/// any other line loses what follows its first `;`, the `;` included.
pub open spec fn uncommented_lines(lines: Seq<Seq<char>>) -> Seq<Seq<char>>
    decreases lines.len(),
{
    if lines.len() == 0 {
        Seq::empty()
    } else {
        let rest = uncommented_lines(lines.drop_last());
        let line = lines.last();
        if line.len() > 0 && line[0] == ';' {
            rest
        } else {
            rest.push(line.take(comment_start(line, 0)))
        }
    }
}

/// Whether a line holds nothing but white space.
pub open spec fn is_blank(line: Seq<char>) -> bool {
    trim(line).len() == 0
}

/// The lines that are not blank, in order.
pub open spec fn nonblank_lines(lines: Seq<Seq<char>>) -> Seq<Seq<char>>
    decreases lines.len(),
{
    if lines.len() == 0 {
        Seq::empty()
    } else {
        let rest = nonblank_lines(lines.drop_last());
        if is_blank(lines.last()) {
            rest
        } else {
            rest.push(lines.last())
        }
    }
}

/// Trims every line.
pub fn remove_whitespace(lines: &Vec<String>) -> (ret: Vec<String>)
    ensures
        texts(ret@) == trimmed_lines(texts(lines@)),
{
    let mut ret: Vec<String> = Vec::new();
    let mut i: usize = 0;
    while i < lines.len()
        invariant
            i <= lines@.len(),
            ret@.len() == i,
            forall|j: int| 0 <= j < i ==> ret@[j]@ == trim(lines@[j]@),
        decreases lines@.len() - i,
    {
        let line = chars_of(lines[i].as_str());
        ret.push(string_from(&trim_chars(&line)));
        i = i + 1;
    }
    assert(texts(ret@) =~= trimmed_lines(texts(lines@)));
    ret
}

/// Drops the lines that begin with `;` and cuts every other line at its first `;`.
pub fn remove_comments(lines: &Vec<String>) -> (ret: Vec<String>)
    ensures
        texts(ret@) == uncommented_lines(texts(lines@)),
{
    let mut ret: Vec<String> = Vec::new();
    let mut i: usize = 0;
    let ghost all = texts(lines@);
    assert(all.take(0) =~= Seq::<Seq<char>>::empty());
    assert(texts(ret@) =~= Seq::<Seq<char>>::empty());
    while i < lines.len()
        invariant
            i <= lines@.len(),
            all == texts(lines@),
            texts(ret@) == uncommented_lines(all.take(i as int)),
        decreases lines@.len() - i,
    {
        let line = chars_of(lines[i].as_str());
        proof {
            assert(all.take(i + 1).drop_last() =~= all.take(i as int));
            assert(all.take(i + 1).last() == line@);
        }
        if !(line.len() > 0 && line[0] == ';') {
            let mut end: usize = 0;
            while end < line.len() && line[end] != ';'
                invariant
                    end <= line@.len(),
                    comment_start(line@, 0) == comment_start(line@, end as int),
                decreases line@.len() - end,
            {
                end = end + 1;
            }
            let ghost before = texts(ret@);
            let kept = string_of(&line, 0, end);
            ret.push(kept);
            assert(texts(ret@) =~= before.push(line@.take(end as int)));
        }
        i = i + 1;
    }
    assert(all.take(lines@.len() as int) =~= all);
    ret
}

/// Drops the lines that hold nothing but white space.
pub fn remove_empty_lines(lines: &Vec<String>) -> (ret: Vec<String>)
    ensures
        texts(ret@) == nonblank_lines(texts(lines@)),
{
    let mut ret: Vec<String> = Vec::new();
    let mut i: usize = 0;
    let ghost all = texts(lines@);
    assert(all.take(0) =~= Seq::<Seq<char>>::empty());
    assert(texts(ret@) =~= Seq::<Seq<char>>::empty());
    while i < lines.len()
        invariant
            i <= lines@.len(),
            all == texts(lines@),
            texts(ret@) == nonblank_lines(all.take(i as int)),
        decreases lines@.len() - i,
    {
        let line = chars_of(lines[i].as_str());
        proof {
            assert(all.take(i + 1).drop_last() =~= all.take(i as int));
            assert(all.take(i + 1).last() == line@);
        }
        if trim_chars(&line).len() != 0 {
            let ghost before = texts(ret@);
            ret.push(lines[i].clone());
            assert(texts(ret@) =~= before.push(line@));
        }
        i = i + 1;
    }
    assert(all.take(lines@.len() as int) =~= all);
    ret
}

} // verus!
