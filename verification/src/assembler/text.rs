use vstd::prelude::*;

verus! {

/// `String::push` appends one character to the end of the string.
pub assume_specification[ String::push ](s: &mut String, c: char)
    ensures
        final(s)@ == old(s)@.push(c),
;

/// The characters of a string, in order.
pub fn chars_of(s: &str) -> (v: Vec<char>)
    ensures
        v@ == s@,
{
    let mut v: Vec<char> = Vec::new();
    for c in it: s.chars()
        invariant
            v@ == it.seq().take(it.index() as int),
            it.seq() == s@,
    {
        v.push(c);
    }
    v
}

/// The string made of the characters `v[from..to]`.
pub fn string_of(v: &Vec<char>, from: usize, to: usize) -> (s: String)
    requires
        from <= to <= v@.len(),
    ensures
        s@ == v@.subrange(from as int, to as int),
{
    let mut s = String::new();
    let mut i: usize = from;
    while i < to
        invariant
            from <= i <= to <= v@.len(),
            s@ == v@.subrange(from as int, i as int),
        decreases to - i,
    {
        s.push(v[i]);
        assert(v@.subrange(from as int, i as int).push(v@[i as int]) =~= v@.subrange(
            from as int,
            i + 1,
        ));
        i = i + 1;
    }
    s
}

/// The string made of all the characters of `v`.
pub fn string_from(v: &Vec<char>) -> (s: String)
    ensures
        s@ == v@,
{
    let s = string_of(v, 0, v.len());
    assert(v@.subrange(0, v@.len() as int) =~= v@);
    s
}

/// The texts of a vector of strings.
pub open spec fn texts(lines: Seq<String>) -> Seq<Seq<char>> {
    Seq::new(lines.len(), |i: int| lines[i]@)
}

/// The characters with the Unicode property White_Space.
pub open spec fn is_space(c: char) -> bool {
    ('\u{9}' <= c <= '\u{d}') || c == ' ' || c == '\u{85}' || c == '\u{a0}' || c == '\u{1680}' || (
    '\u{2000}' <= c <= '\u{200a}') || c == '\u{2028}' || c == '\u{2029}' || c == '\u{202f}' || c
        == '\u{205f}' || c == '\u{3000}'
}

/// Whether `c` has the Unicode property White_Space.
pub fn is_whitespace(c: char) -> (r: bool)
    ensures
        r == is_space(c),
{
    ('\u{9}' <= c && c <= '\u{d}') || c == ' ' || c == '\u{85}' || c == '\u{a0}' || c
        == '\u{1680}' || ('\u{2000}' <= c && c <= '\u{200a}') || c == '\u{2028}' || c
        == '\u{2029}' || c == '\u{202f}' || c == '\u{205f}' || c == '\u{3000}'
}

/// Whether `c` separates fields: white space always, a comma where `commas` is set.
pub open spec fn is_separator(c: char, commas: bool) -> bool {
    is_space(c) || (commas && c == ',')
}

fn separates(c: char, commas: bool) -> (r: bool)
    ensures
        r == is_separator(c, commas),
{
    is_whitespace(c) || (commas && c == ',')
}

/// The first index at or after `i` that holds no white space.
pub open spec fn skip_spaces(s: Seq<char>, i: int) -> int
    decreases s.len() - i,
{
    if 0 <= i < s.len() && is_space(s[i]) {
        skip_spaces(s, i + 1)
    } else {
        i
    }
}

/// The least index `k <= j` such that `s[k..j]` is all white space.
pub open spec fn skip_spaces_back(s: Seq<char>, j: int) -> int
    decreases j,
{
    if 0 < j <= s.len() && is_space(s[j - 1]) {
        skip_spaces_back(s, j - 1)
    } else {
        j
    }
}

/// The text without its leading and trailing white space.
pub open spec fn trim(s: Seq<char>) -> Seq<char> {
    let a = skip_spaces(s, 0);
    let b = skip_spaces_back(s, s.len() as int);
    if a < b {
        s.subrange(a, b)
    } else {
        Seq::empty()
    }
}

/// The characters of `v` without leading and trailing white space.
pub fn trim_chars(v: &Vec<char>) -> (r: Vec<char>)
    ensures
        r@ == trim(v@),
{
    let n = v.len();
    let mut a: usize = 0;
    while a < n && is_whitespace(v[a])
        invariant
            a <= n == v@.len(),
            skip_spaces(v@, 0) == skip_spaces(v@, a as int),
        decreases n - a,
    {
        a = a + 1;
    }
    let mut b: usize = n;
    while b > 0 && is_whitespace(v[b - 1])
        invariant
            b <= n == v@.len(),
            skip_spaces_back(v@, n as int) == skip_spaces_back(v@, b as int),
        decreases b,
    {
        b = b - 1;
    }
    let mut r: Vec<char> = Vec::new();
    if a < b {
        let mut i: usize = a;
        while i < b
            invariant
                a <= i <= b <= v@.len(),
                r@ == v@.subrange(a as int, i as int),
            decreases b - i,
        {
            r.push(v[i]);
            assert(v@.subrange(a as int, i as int).push(v@[i as int]) =~= v@.subrange(
                a as int,
                i + 1,
            ));
            i = i + 1;
        }
    }
    r
}

/// The end of the field that starts at `i`: the first index at or after `i`
/// that holds a separator, or the length.
pub open spec fn field_end(s: Seq<char>, i: int, commas: bool) -> int
    decreases s.len() - i,
{
    if 0 <= i < s.len() && !is_separator(s[i], commas) {
        field_end(s, i + 1, commas)
    } else {
        i
    }
}

/// A field ends within the text, and after its start if it is not empty.
pub proof fn lemma_field_end_bounds(s: Seq<char>, i: int, commas: bool)
    requires
        0 <= i <= s.len(),
    ensures
        i <= field_end(s, i, commas) <= s.len(),
        i < s.len() && !is_separator(s[i], commas) ==> i < field_end(s, i, commas),
    decreases s.len() - i,
{
    if i < s.len() && !is_separator(s[i], commas) {
        lemma_field_end_bounds(s, i + 1, commas);
    }
}

/// The fields of `s[i..]`: its maximal runs of characters that are no separators.
pub open spec fn fields_from(s: Seq<char>, i: int, commas: bool) -> Seq<Seq<char>>
    decreases s.len() - i,
    via fields_from_decreases
{
    if 0 <= i < s.len() {
        if is_separator(s[i], commas) {
            fields_from(s, i + 1, commas)
        } else {
            seq![s.subrange(i, field_end(s, i, commas))] + fields_from(
                s,
                field_end(s, i, commas),
                commas,
            )
        }
    } else {
        Seq::empty()
    }
}

#[via_fn]
proof fn fields_from_decreases(s: Seq<char>, i: int, commas: bool) {
    if 0 <= i < s.len() {
        lemma_field_end_bounds(s, i, commas);
    }
}

/// The fields of a text that white space separates.
pub open spec fn words(s: Seq<char>) -> Seq<Seq<char>> {
    fields_from(s, 0, false)
}

/// The views of a vector of character vectors.
pub open spec fn char_texts(v: Seq<Vec<char>>) -> Seq<Seq<char>> {
    Seq::new(v.len(), |i: int| v[i]@)
}

/// The fields of `v[from..]`.
pub fn split_fields(v: &Vec<char>, from: usize, commas: bool) -> (r: Vec<Vec<char>>)
    requires
        from <= v@.len(),
    ensures
        char_texts(r@) == fields_from(v@, from as int, commas),
{
    let n = v.len();
    let mut r: Vec<Vec<char>> = Vec::new();
    let mut i: usize = from;
    assert(char_texts(r@) =~= Seq::<Seq<char>>::empty());
    while i < n
        invariant
            from <= i <= n == v@.len(),
            fields_from(v@, from as int, commas) == char_texts(r@) + fields_from(
                v@,
                i as int,
                commas,
            ),
        decreases n - i,
    {
        if separates(v[i], commas) {
            i = i + 1;
        } else {
            let start = i;
            let mut field: Vec<char> = Vec::new();
            while i < n && !separates(v[i], commas)
                invariant
                    start <= i <= n == v@.len(),
                    field@ == v@.subrange(start as int, i as int),
                    field_end(v@, start as int, commas) == field_end(v@, i as int, commas),
                decreases n - i,
            {
                field.push(v[i]);
                assert(v@.subrange(start as int, i as int).push(v@[i as int]) =~= v@.subrange(
                    start as int,
                    i + 1,
                ));
                i = i + 1;
            }
            proof {
                let ghost before = char_texts(r@);
                assert(field_end(v@, start as int, commas) == i);
                assert(char_texts(r@.push(field)) =~= before + seq![field@]);
                assert((before + seq![field@]) + fields_from(v@, i as int, commas) =~= before + (
                seq![field@] + fields_from(v@, i as int, commas)));
            }
            r.push(field);
        }
    }
    assert(fields_from(v@, n as int, commas) =~= Seq::<Seq<char>>::empty());
    assert(char_texts(r@) + Seq::<Seq<char>>::empty() =~= char_texts(r@));
    r
}

/// Where the head of a line ends: the end of its first field.
pub open spec fn head_end(line: Seq<char>) -> int {
    field_end(line, skip_spaces(line, 0), false)
}

/// The head of a line: its first field, which holds the mnemonic. Empty if
/// the line is blank.
pub open spec fn head_of(line: Seq<char>) -> Seq<char> {
    if skip_spaces(line, 0) < head_end(line) {
        line.subrange(skip_spaces(line, 0), head_end(line))
    } else {
        Seq::empty()
    }
}

/// The operands of a line: the fields after the head, which white space and
/// commas separate.
pub open spec fn operands_of(line: Seq<char>) -> Seq<Seq<char>> {
    fields_from(line, head_end(line), true)
}

/// Splits a line into its head and its operands.
pub fn split_line(v: &Vec<char>) -> (r: (Vec<char>, Vec<Vec<char>>))
    ensures
        r.0@ == head_of(v@),
        char_texts(r.1@) == operands_of(v@),
{
    let n = v.len();
    let mut a: usize = 0;
    while a < n && is_whitespace(v[a])
        invariant
            a <= n == v@.len(),
            skip_spaces(v@, 0) == skip_spaces(v@, a as int),
        decreases n - a,
    {
        a = a + 1;
    }
    let mut head: Vec<char> = Vec::new();
    let mut e: usize = a;
    while e < n && !separates(v[e], false)
        invariant
            a <= e <= n == v@.len(),
            head@ == v@.subrange(a as int, e as int),
            field_end(v@, a as int, false) == field_end(v@, e as int, false),
        decreases n - e,
    {
        head.push(v[e]);
        assert(v@.subrange(a as int, e as int).push(v@[e as int]) =~= v@.subrange(a as int, e + 1));
        e = e + 1;
    }
    assert(a == e ==> head@ =~= Seq::<char>::empty());
    let operands = split_fields(v, e, true);
    (head, operands)
}

/// Whether `v` begins with the characters of `p`.
pub fn starts_with(v: &Vec<char>, p: &str) -> (r: bool)
    ensures
        r == p@.is_prefix_of(v@),
{
    let pat = chars_of(p);
    if pat.len() > v.len() {
        return false;
    }
    let mut i: usize = 0;
    while i < pat.len()
        invariant
            i <= pat@.len() <= v@.len(),
            pat@ == p@,
            forall|j: int| 0 <= j < i ==> pat@[j] == v@[j],
        decreases pat@.len() - i,
    {
        if pat[i] != v[i] {
            assert(p@[i as int] != v@.subrange(0, p@.len() as int)[i as int]);
            return false;
        }
        i = i + 1;
    }
    assert(p@ =~= v@.subrange(0, p@.len() as int));
    true
}

/// Whether `v` is exactly the characters of `p`.
pub fn same_text(v: &Vec<char>, p: &str) -> (r: bool)
    ensures
        r == (v@ == p@),
{
    let pat = chars_of(p);
    same_chars(v, &pat)
}

/// Whether two character vectors hold the same text.
pub fn same_chars(a: &Vec<char>, b: &Vec<char>) -> (r: bool)
    ensures
        r == (a@ == b@),
{
    if a.len() != b.len() {
        return false;
    }
    let mut i: usize = 0;
    while i < a.len()
        invariant
            i <= a@.len() == b@.len(),
            forall|j: int| 0 <= j < i ==> a@[j] == b@[j],
        decreases a@.len() - i,
    {
        if a[i] != b[i] {
            return false;
        }
        i = i + 1;
    }
    assert(a@ =~= b@);
    true
}

/// The value of a digit in the given radix, if `c` is one: `0` to `9`, then
/// `a` to `f` in either case.
pub open spec fn digit_of(c: char, radix: int) -> Option<int> {
    let d: int = if c == '0' {
        0
    } else if c == '1' {
        1
    } else if c == '2' {
        2
    } else if c == '3' {
        3
    } else if c == '4' {
        4
    } else if c == '5' {
        5
    } else if c == '6' {
        6
    } else if c == '7' {
        7
    } else if c == '8' {
        8
    } else if c == '9' {
        9
    } else if c == 'a' || c == 'A' {
        10
    } else if c == 'b' || c == 'B' {
        11
    } else if c == 'c' || c == 'C' {
        12
    } else if c == 'd' || c == 'D' {
        13
    } else if c == 'e' || c == 'E' {
        14
    } else if c == 'f' || c == 'F' {
        15
    } else {
        16
    };
    if d < radix {
        Some(d)
    } else {
        None
    }
}

fn digit_value(c: char, radix: u64) -> (r: Option<u64>)
    requires
        2 <= radix <= 16,
    ensures
        r is Some <==> digit_of(c, radix as int) is Some,
        r is Some ==> r->0 == digit_of(c, radix as int)->0,
        r is Some ==> r->0 < radix,
{
    let d: u64 = if c == '0' {
        0
    } else if c == '1' {
        1
    } else if c == '2' {
        2
    } else if c == '3' {
        3
    } else if c == '4' {
        4
    } else if c == '5' {
        5
    } else if c == '6' {
        6
    } else if c == '7' {
        7
    } else if c == '8' {
        8
    } else if c == '9' {
        9
    } else if c == 'a' || c == 'A' {
        10
    } else if c == 'b' || c == 'B' {
        11
    } else if c == 'c' || c == 'C' {
        12
    } else if c == 'd' || c == 'D' {
        13
    } else if c == 'e' || c == 'E' {
        14
    } else if c == 'f' || c == 'F' {
        15
    } else {
        16
    };
    if d < radix {
        Some(d)
    } else {
        None
    }
}

/// The number that a non-empty text of digits denotes in the given radix.
pub open spec fn number_value(s: Seq<char>, radix: int) -> Option<int>
    decreases s.len(),
{
    if s.len() == 0 {
        None
    } else {
        match digit_of(s.last(), radix) {
            None => None,
            Some(d) => if s.len() == 1 {
                Some(d)
            } else {
                match number_value(s.drop_last(), radix) {
                    None => None,
                    Some(h) => Some(h * radix + d),
                }
            },
        }
    }
}

/// A number is never negative, and a longer text of digits denotes no less
/// than any of its prefixes.
pub proof fn lemma_number_grows(s: Seq<char>, k: int, radix: int)
    requires
        2 <= radix <= 16,
        0 < k <= s.len(),
        number_value(s, radix) is Some,
    ensures
        number_value(s.take(k), radix) is Some,
        0 <= number_value(s.take(k), radix)->0 <= number_value(s, radix)->0,
    decreases s.len(),
{
    if k == s.len() {
        assert(s.take(k) =~= s);
        if s.len() > 1 {
            lemma_number_grows(s.drop_last(), k - 1, radix);
            let h = number_value(s.drop_last(), radix)->0;
            assert(h * radix >= 0) by (nonlinear_arith)
                requires
                    h >= 0,
                    radix >= 2,
            ;
        }
    } else {
        assert(s.drop_last().take(k) =~= s.take(k));
        lemma_number_grows(s.drop_last(), k, radix);
        let h = number_value(s.drop_last(), radix)->0;
        assert(h * radix >= h) by (nonlinear_arith)
            requires
                h >= 0,
                radix >= 2,
        ;
    }
}

/// Parses `v[from..]` as a number in the given radix. `None` if the text is
/// empty, holds a character that is no digit, or denotes more than `limit`.
pub fn parse_number(v: &Vec<char>, from: usize, radix: u64, limit: u64) -> (r: Option<u64>)
    requires
        from <= v@.len(),
        2 <= radix <= 16,
    ensures
        r is Some <==> (number_value(v@.skip(from as int), radix as int) is Some && number_value(
            v@.skip(from as int),
            radix as int,
        )->0 <= limit),
        r is Some ==> r->0 == number_value(v@.skip(from as int), radix as int)->0,
{
    let n = v.len();
    let ghost s = v@.skip(from as int);
    if from == n {
        return None;
    }
    let mut acc: u64 = 0;
    let mut i: usize = from;
    while i < n
        invariant
            from <= i <= n == v@.len(),
            from < n,
            s == v@.skip(from as int),
            2 <= radix <= 16,
            i > from ==> number_value(s.take(i - from), radix as int) == Some(acc as int),
            i == from ==> acc == 0,
            acc <= limit,
        decreases n - i,
    {
        let ghost prefix = s.take(i - from + 1);
        proof {
            assert(prefix.last() == v@[i as int]);
            assert(prefix.drop_last() =~= s.take(i - from));
        }
        let d = match digit_value(v[i], radix) {
            Some(d) => d,
            None => {
                proof {
                    if number_value(s, radix as int) is Some {
                        lemma_number_grows(s, i - from + 1, radix as int);
                    }
                }
                return None;
            },
        };
        let next = match acc.checked_mul(radix) {
            Some(m) => m.checked_add(d),
            None => None,
        };
        let ok = match next {
            Some(x) => x <= limit,
            None => false,
        };
        if !ok {
            proof {
                assert(number_value(prefix, radix as int) == Some(acc * radix + d));
                if number_value(s, radix as int) is Some {
                    lemma_number_grows(s, i - from + 1, radix as int);
                }
            }
            return None;
        }
        acc = next.unwrap();
        i = i + 1;
    }
    assert(s.take(n - from) =~= s);
    Some(acc)
}

/// The character of a decimal digit.
pub open spec fn digit_char(d: int) -> char
    recommends
        0 <= d < 10,
{
    if d == 0 {
        '0'
    } else if d == 1 {
        '1'
    } else if d == 2 {
        '2'
    } else if d == 3 {
        '3'
    } else if d == 4 {
        '4'
    } else if d == 5 {
        '5'
    } else if d == 6 {
        '6'
    } else if d == 7 {
        '7'
    } else if d == 8 {
        '8'
    } else {
        '9'
    }
}

/// The decimal text of a number, without leading zeros.
pub open spec fn decimal_text(n: nat) -> Seq<char>
    decreases n,
{
    if n < 10 {
        seq![digit_char(n as int)]
    } else {
        decimal_text(n / 10).push(digit_char((n % 10) as int))
    }
}

/// The decimal text of a number denotes the number, and holds digits only.
pub proof fn lemma_decimal_round_trip(n: nat)
    ensures
        number_value(decimal_text(n), 10) == Some(n as int),
        decimal_text(n).len() > 0,
        forall|i: int|
            0 <= i < decimal_text(n).len() ==> digit_of(#[trigger] decimal_text(n)[i], 10) is Some,
    decreases n,
{
    if n >= 10 {
        lemma_decimal_round_trip(n / 10);
        let t = decimal_text(n);
        assert(t.drop_last() =~= decimal_text(n / 10));
        assert(t.last() == digit_char((n % 10) as int));
    }
}

/// Appends the decimal text of `n`.
pub fn push_decimal(out: &mut Vec<char>, n: u64)
    ensures
        final(out)@ == old(out)@ + decimal_text(n as nat),
    decreases n,
{
    if n >= 10 {
        push_decimal(out, n / 10);
    }
    let d = n % 10;
    let c = if d == 0 {
        '0'
    } else if d == 1 {
        '1'
    } else if d == 2 {
        '2'
    } else if d == 3 {
        '3'
    } else if d == 4 {
        '4'
    } else if d == 5 {
        '5'
    } else if d == 6 {
        '6'
    } else if d == 7 {
        '7'
    } else if d == 8 {
        '8'
    } else {
        '9'
    };
    proof {
        if n >= 10 {
            assert((old(out)@ + decimal_text((n / 10) as nat)).push(c) =~= old(out)@
                + decimal_text(n as nat));
        } else {
            assert(old(out)@.push(c) =~= old(out)@ + decimal_text(n as nat));
        }
    }
    out.push(c);
}

/// Appends the characters of `p`.
pub fn push_text(out: &mut Vec<char>, p: &str)
    ensures
        final(out)@ == old(out)@ + p@,
{
    let pat = chars_of(p);
    push_chars(out, &pat);
}

/// Appends the characters of `p`.
pub fn push_chars(out: &mut Vec<char>, p: &Vec<char>)
    ensures
        final(out)@ == old(out)@ + p@,
{
    let mut i: usize = 0;
    while i < p.len()
        invariant
            i <= p@.len(),
            out@ == old(out)@ + p@.take(i as int),
        decreases p@.len() - i,
    {
        out.push(p[i]);
        assert((old(out)@ + p@.take(i as int)).push(p@[i as int]) =~= old(out)@ + p@.take(i + 1));
        i = i + 1;
    }
    assert(p@.take(p@.len() as int) =~= p@);
}

} // verus!
