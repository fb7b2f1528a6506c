//! Character-level helpers: comparing, building and formatting text.
use vstd::prelude::*;

verus! {

/// The decimal digit character for `d` (which must be below ten).
pub open spec fn digit_char(d: nat) -> char {
    if d == 0 { '0' }
    else if d == 1 { '1' }
    else if d == 2 { '2' }
    else if d == 3 { '3' }
    else if d == 4 { '4' }
    else if d == 5 { '5' }
    else if d == 6 { '6' }
    else if d == 7 { '7' }
    else if d == 8 { '8' }
    else { '9' }
}

/// The decimal text of a natural number, most significant digit first.
pub open spec fn nat_text(n: nat) -> Seq<char>
    decreases n,
{
    if n < 10 {
        seq![digit_char(n)]
    } else {
        nat_text(n / 10).push(digit_char(n % 10))
    }
}

/// The decimal text of an integer, with a leading `-` when it is negative.
pub open spec fn int_text(x: int) -> Seq<char> {
    if x < 0 {
        seq!['-'] + nat_text((-x) as nat)
    } else {
        nat_text(x as nat)
    }
}

/// Relies on `String::push`: the character is appended at the end.
#[verifier::external_body]
pub(crate) fn push_char(s: &mut String, c: char)
    ensures
        final(s)@ == old(s)@.push(c),
{
    s.push(c);
}

pub(crate) fn digit_of(d: u128) -> (c: char)
    requires
        d < 10,
    ensures
        c == digit_char(d as nat),
{
    if d == 0 { '0' }
    else if d == 1 { '1' }
    else if d == 2 { '2' }
    else if d == 3 { '3' }
    else if d == 4 { '4' }
    else if d == 5 { '5' }
    else if d == 6 { '6' }
    else if d == 7 { '7' }
    else if d == 8 { '8' }
    else { '9' }
}

/// Appends the decimal text of `n` to `out`.
pub fn append_nat(out: &mut String, n: u128)
    ensures
        final(out)@ == old(out)@ + nat_text(n as nat),
    decreases n,
{
    if n < 10 {
        push_char(out, digit_of(n));
        assert(nat_text(n as nat) == seq![digit_char(n as nat)]);
    } else {
        append_nat(out, n / 10);
        push_char(out, digit_of(n % 10));
        assert(nat_text(n as nat) == nat_text((n / 10) as nat).push(digit_char((n % 10) as nat)));
    }
}

/// Appends the decimal text of `x` to `out`.
pub fn append_int(out: &mut String, x: i128)
    ensures
        final(out)@ == old(out)@ + int_text(x as int),
{
    if x < 0 {
        push_char(out, '-');
        let m: u128 = ((-(x + 1)) as u128) + 1;
        append_nat(out, m);
    } else {
        append_nat(out, x as u128);
    }
}

/// The decimal text of `x`.
pub fn format_int(x: i128) -> (s: String)
    ensures
        s@ == int_text(x as int),
{
    let mut s = String::new();
    append_int(&mut s, x);
    s
}

/// Whether `a` and `b` hold the same characters.
pub fn same_text(a: &str, b: &str) -> (r: bool)
    ensures
        r == (a@ == b@),
{
    let n = a.unicode_len();
    if n != b.unicode_len() {
        return false;
    }
    let mut i: usize = 0;
    while i < n
        invariant
            n == a@.len(),
            n == b@.len(),
            i <= n,
            a@.subrange(0, i as int) == b@.subrange(0, i as int),
        decreases n - i,
    {
        if a.get_char(i) != b.get_char(i) {
            return false;
        }
        assert(a@.subrange(0, i + 1) == a@.subrange(0, i as int).push(a@[i as int]));
        assert(b@.subrange(0, i + 1) == b@.subrange(0, i as int).push(b@[i as int]));
        i = i + 1;
    }
    assert(a@ == a@.subrange(0, n as int));
    assert(b@ == b@.subrange(0, n as int));
    true
}

/// The characters of `s`, in order.
pub fn chars_of(s: &str) -> (v: Vec<char>)
    ensures
        v@ == s@,
{
    let mut v: Vec<char> = Vec::new();
    for c in it: s.chars()
        invariant
            v@ == it.seq().subrange(0, it.index() as int),
    {
        v.push(c);
    }
    v
}

/// The views of a sequence of strings.
pub open spec fn strings_view(v: Seq<String>) -> Seq<Seq<char>> {
    v.map_values(|s: String| s@)
}

/// The white-space characters: those with the Unicode `White_Space`
/// property, as `char::is_whitespace` documents them.
pub open spec fn is_space(c: char) -> bool {
    ('\u{9}' <= c && c <= '\u{d}') || c == ' ' || c == '\u{85}' || c == '\u{a0}'
        || c == '\u{1680}' || ('\u{2000}' <= c && c <= '\u{200a}') || c == '\u{2028}'
        || c == '\u{2029}' || c == '\u{202f}' || c == '\u{205f}' || c == '\u{3000}'
}

/// Whether `c` is a white-space character (see `is_space`).
pub fn is_space_char(c: char) -> (r: bool)
    ensures
        r == is_space(c),
{
    ('\u{9}' <= c && c <= '\u{d}') || c == ' ' || c == '\u{85}' || c == '\u{a0}'
        || c == '\u{1680}' || ('\u{2000}' <= c && c <= '\u{200a}') || c == '\u{2028}'
        || c == '\u{2029}' || c == '\u{202f}' || c == '\u{205f}' || c == '\u{3000}'
}

/// The characters that end the current word and form a word of their own.
pub open spec fn is_delimiter(c: char) -> bool {
    c == '(' || c == ')' || c == '{' || c == '}' || c == '[' || c == ']' || c == ','
        || c == '=' || c == '+' || c == '-' || c == '*' || c == '"'
}

/// The word under construction, as a list of zero or one words.
pub open spec fn flush(cur: Seq<char>) -> Seq<Seq<char>> {
    if cur.len() > 0 { seq![cur] } else { seq![] }
}

/// The words of `s`, when `cur` holds the characters of an unfinished word
/// that precede `s`. White space separates words; each delimiter is a word of its
/// own; every other character belongs to the current word.
pub open spec fn split_from(s: Seq<char>, cur: Seq<char>) -> Seq<Seq<char>>
    decreases s.len(),
{
    if s.len() == 0 {
        flush(cur)
    } else if is_space(s[0]) {
        flush(cur) + split_from(s.drop_first(), seq![])
    } else if is_delimiter(s[0]) {
        flush(cur) + seq![seq![s[0]]] + split_from(s.drop_first(), seq![])
    } else {
        split_from(s.drop_first(), cur.push(s[0]))
    }
}

/// The words of a source line.
pub open spec fn split_words(s: Seq<char>) -> Seq<Seq<char>> {
    split_from(s, seq![])
}

/// Splits a source line into its words (see `split_words`).
pub fn generate_strings(line: &str) -> (r: Vec<String>)
    ensures
        strings_view(r@) == split_words(line@),
{
    let chars = chars_of(line);
    let mut r: Vec<String> = Vec::new();
    let mut cur = String::new();
    let mut i: usize = 0;
    assert(chars@.skip(0) =~= chars@);
    assert(strings_view(r@) =~= Seq::<Seq<char>>::empty());
    while i < chars.len()
        invariant
            i <= chars.len(),
            chars@ == line@,
            strings_view(r@) + split_from(chars@.skip(i as int), cur@) == split_words(line@),
        decreases chars.len() - i,
    {
        let c = chars[i];
        let ghost rest = chars@.skip(i as int);
        let ghost before = strings_view(r@);
        let ghost old_cur = cur@;
        assert(rest.drop_first() =~= chars@.skip(i + 1));
        assert(rest[0] == c);
        assert(rest.len() > 0);
        proof {
            if is_space(c) {
                assert(split_from(rest, old_cur) == flush(old_cur) + split_from(rest.drop_first(), seq![]));
            } else if is_delimiter(c) {
                assert(split_from(rest, old_cur) == flush(old_cur) + seq![seq![c]] + split_from(rest.drop_first(), seq![]));
            } else {
                assert(split_from(rest, old_cur) == split_from(rest.drop_first(), old_cur.push(c)));
            }
        }
        let space = is_space_char(c);
        if space || is_delimiter_char(c) {
            if cur.unicode_len() > 0 {
                r.push(cur);
                cur = String::new();
                assert(strings_view(r@) =~= before + flush(old_cur));
            } else {
                assert(cur@ =~= Seq::<char>::empty());
                assert(strings_view(r@) =~= before + flush(old_cur));
            }
            if !space {
                let mut d = String::new();
                push_char(&mut d, c);
                let ghost mid = strings_view(r@);
                r.push(d);
                assert(strings_view(r@) =~= mid + seq![seq![c]]);
            }
        } else {
            push_char(&mut cur, c);
        }
        assert(strings_view(r@) + split_from(rest.drop_first(), cur@) =~= before + split_from(
            rest,
            old_cur,
        ));
        i = i + 1;
    }
    let ghost before = strings_view(r@);
    assert(chars@.skip(i as int) =~= Seq::<char>::empty());
    if cur.unicode_len() > 0 {
        r.push(cur);
    }
    assert(strings_view(r@) =~= before + flush(cur@));
    r
}

/// Whether `c` is one of the delimiter characters.
fn is_delimiter_char(c: char) -> (r: bool)
    ensures
        r == is_delimiter(c),
{
    c == '(' || c == ')' || c == '{' || c == '}' || c == '[' || c == ']' || c == ','
        || c == '=' || c == '+' || c == '-' || c == '*' || c == '"'
}

/// Whether `c` is an ASCII decimal digit.
pub open spec fn is_digit(c: char) -> bool {
    '0' <= c && c <= '9'
}

/// The value of a decimal digit character.
pub open spec fn digit_value(c: char) -> nat {
    (c as u32 - '0' as u32) as nat
}

/// The value of a run of decimal digits (zero for the empty run).
pub open spec fn digits_value(s: Seq<char>) -> nat
    decreases s.len(),
{
    if s.len() == 0 {
        0
    } else {
        digits_value(s.drop_last()) * 10 + digit_value(s.last())
    }
}

/// `s` without a leading `+`.
pub open spec fn digit_part(s: Seq<char>) -> Seq<char> {
    if s.len() > 0 && s[0] == '+' { s.drop_first() } else { s }
}

/// The unsigned number that `s` spells: an optional `+` followed by one or
/// more decimal digits, and nothing else.
pub open spec fn parse_unsigned(s: Seq<char>) -> Option<nat> {
    let d = digit_part(s);
    if d.len() > 0 && (forall|i: int| 0 <= i < d.len() ==> is_digit(#[trigger] d[i])) {
        Some(digits_value(d))
    } else {
        None
    }
}

/// A run of digits is worth at least as much as any of its prefixes.
proof fn lemma_digits_prefix(s: Seq<char>, k: int)
    requires
        0 <= k <= s.len(),
    ensures
        digits_value(s.subrange(0, k)) <= digits_value(s),
    decreases s.len() - k,
{
    if k < s.len() {
        lemma_digits_prefix(s, k + 1);
        assert(s.subrange(0, k + 1).drop_last() =~= s.subrange(0, k));
    } else {
        assert(s.subrange(0, k) =~= s);
    }
}

/// The number that `s` spells, when it is one and fits in 64 bits.
pub fn parse_u64(s: &str) -> (r: Option<u64>)
    ensures
        r == (match parse_unsigned(s@) {
            Some(v) => if v <= u64::MAX { Some(v as u64) } else { None },
            None => None,
        }),
{
    let chars = chars_of(s);
    let mut start: usize = 0;
    if chars.len() > 0 && chars[0] == '+' {
        start = 1;
    }
    let ghost d = digit_part(s@);
    assert(d =~= chars@.skip(start as int));
    if start >= chars.len() {
        return None;
    }
    let mut v: u64 = 0;
    let mut i: usize = start;
    while i < chars.len()
        invariant
            start <= i <= chars.len(),
            chars@ == s@,
            d =~= chars@.skip(start as int),
            d == digit_part(s@),
            forall|j: int| 0 <= j < i - start ==> is_digit(#[trigger] d[j]),
            v == digits_value(d.subrange(0, i - start)),
        decreases chars.len() - i,
    {
        let c = chars[i];
        assert(d[i - start] == c);
        if !('0' <= c && c <= '9') {
            assert(!is_digit(d[i - start]));
            return None;
        }
        let dv: u64 = (c as u32 - '0' as u32) as u64;
        assert(d.subrange(0, i + 1 - start).drop_last() =~= d.subrange(0, i - start));
        assert(digits_value(d.subrange(0, i + 1 - start)) == v * 10 + dv);
        if v > (u64::MAX - dv) / 10 {
            proof {
                assert(v * 10 + dv > u64::MAX) by (nonlinear_arith)
                    requires
                        v > (u64::MAX - dv) / 10,
                        dv < 10,
                ;
                lemma_digits_prefix(d, i + 1 - start);
                if parse_unsigned(s@) is Some {
                    assert(parse_unsigned(s@)->0 == digits_value(d));
                    assert(parse_unsigned(s@)->0 > u64::MAX);
                }
            }
            return None;
        }
        v = v * 10 + dv;
        i = i + 1;
    }
    assert(d.subrange(0, d.len() as int) =~= d);
    Some(v)
}

/// Words joined with single spaces between them.
pub open spec fn join_words(ws: Seq<Seq<char>>) -> Seq<char>
    decreases ws.len(),
{
    if ws.len() == 0 {
        seq![]
    } else if ws.len() == 1 {
        ws[0]
    } else {
        join_words(ws.drop_last()) + seq![' '] + ws.last()
    }
}

/// `s` with each backslash-`n` pair, read from left to right, turned into a
/// line break.
pub open spec fn unescape(s: Seq<char>) -> Seq<char>
    decreases s.len(),
{
    if s.len() < 2 {
        s
    } else if s[0] == '\\' && s[1] == 'n' {
        seq!['\n'] + unescape(s.skip(2))
    } else {
        seq![s[0]] + unescape(s.drop_first())
    }
}

/// Turns each backslash-`n` pair of `s` into a line break (see `unescape`).
pub fn unescape_newlines(s: &str) -> (r: String)
    ensures
        r@ == unescape(s@),
{
    let chars = chars_of(s);
    let mut r = String::new();
    let mut i: usize = 0;
    assert(chars@.skip(0) =~= chars@);
    while i < chars.len()
        invariant
            i <= chars.len(),
            chars@ == s@,
            r@ + unescape(chars@.skip(i as int)) == unescape(s@),
        decreases chars.len() - i,
    {
        let ghost rest = chars@.skip(i as int);
        let ghost before = r@;
        if i + 1 < chars.len() && chars[i] == '\\' && chars[i + 1] == 'n' {
            push_char(&mut r, '\n');
            assert(rest.skip(2) =~= chars@.skip(i + 2));
            assert(r@ + unescape(chars@.skip(i + 2)) =~= before + unescape(rest));
            i = i + 2;
        } else {
            push_char(&mut r, chars[i]);
            assert(rest.drop_first() =~= chars@.skip(i + 1));
            proof {
                if rest.len() < 2 {
                    assert(rest.drop_first() =~= Seq::<char>::empty());
                    assert(rest =~= seq![rest[0]]);
                }
            }
            assert(r@ + unescape(chars@.skip(i + 1)) =~= before + unescape(rest));
            i = i + 1;
        }
    }
    assert(chars@.skip(i as int) =~= Seq::<char>::empty());
    assert(r@ + unescape(chars@.skip(i as int)) =~= r@);
    r
}

/// The characters that end a source line: a line feed, or `~`, which
/// stands for one.
pub open spec fn is_line_break(c: char) -> bool {
    c == '\n' || c == '~'
}

/// A line without the carriage return that ended it, if any.
pub open spec fn strip_cr(l: Seq<char>) -> Seq<char> {
    if l.len() > 0 && l.last() == '\r' { l.drop_last() } else { l }
}

/// The lines of `s`, when `cur` holds the start of the current line: a
/// line that a break ends loses a final carriage return; a last line
/// without a break is kept only when it is not empty.
pub open spec fn lines_from(s: Seq<char>, cur: Seq<char>) -> Seq<Seq<char>>
    decreases s.len(),
{
    if s.len() == 0 {
        flush(cur)
    } else if is_line_break(s[0]) {
        seq![strip_cr(cur)] + lines_from(s.drop_first(), seq![])
    } else {
        lines_from(s.drop_first(), cur.push(s[0]))
    }
}

/// The lines of a source text.
pub open spec fn source_lines(s: Seq<char>) -> Seq<Seq<char>> {
    lines_from(s, seq![])
}

/// Splits a source text into its lines (see `source_lines`).
pub fn split_lines(text: &str) -> (r: Vec<String>)
    ensures
        strings_view(r@) == source_lines(text@),
{
    let chars = chars_of(text);
    let mut r: Vec<String> = Vec::new();
    let mut cur = String::new();
    let mut i: usize = 0;
    assert(chars@.skip(0) =~= chars@);
    assert(strings_view(r@) =~= Seq::<Seq<char>>::empty());
    while i < chars.len()
        invariant
            i <= chars.len(),
            chars@ == text@,
            strings_view(r@) + lines_from(chars@.skip(i as int), cur@) == source_lines(text@),
        decreases chars.len() - i,
    {
        let c = chars[i];
        let ghost rest = chars@.skip(i as int);
        let ghost before = strings_view(r@);
        let ghost old_cur = cur@;
        assert(rest.drop_first() =~= chars@.skip(i + 1));
        assert(rest[0] == c);
        if c == '\n' || c == '~' {
            let n = cur.unicode_len();
            let line = if n > 0 && cur.as_str().get_char(n - 1) == '\r' {
                let l = cur.as_str().substring_char(0, n - 1).to_owned();
                assert(l@ =~= old_cur.drop_last());
                l
            } else {
                cur
            };
            r.push(line);
            cur = String::new();
            assert(strings_view(r@) =~= before.push(strip_cr(old_cur)));
            assert(strings_view(r@) + lines_from(rest.drop_first(), cur@) =~= before + lines_from(rest, old_cur));
        } else {
            push_char(&mut cur, c);
        }
        i = i + 1;
    }
    let ghost before = strings_view(r@);
    assert(chars@.skip(i as int) =~= Seq::<char>::empty());
    if cur.unicode_len() > 0 {
        r.push(cur);
    }
    assert(strings_view(r@) =~= before + flush(cur@));
    r
}

} // verus!
