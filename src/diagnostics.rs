//! Caret-annotated error reports that point at a word of a source line.
use vstd::prelude::*;
use crate::console::{PrintT, printed};
use crate::text::{nat_text, append_nat, chars_of, push_char, is_space, is_space_char};

verus! {

/// `n` copies of `c`.
pub open spec fn repeat(c: char, n: nat) -> Seq<char> {
    Seq::new(n, |i: int| c)
}

/// Over the characters of `s`, read as words separated by runs of white
/// space, when `started` words began before `s` and `inside` tells whether
/// `s` starts inside the last of them: how many characters belong to the
/// words before word number `loc`, and how many to word number `loc`.
pub open spec fn caret_widths(s: Seq<char>, loc: nat, started: nat, inside: bool) -> (nat, nat)
    decreases s.len(),
{
    if s.len() == 0 {
        (0, 0)
    } else if is_space(s[0]) {
        caret_widths(s.drop_first(), loc, started, false)
    } else {
        let k = if inside { started } else { started + 1 };
        let (pad, carets) = caret_widths(s.drop_first(), loc, k, true);
        if k - 1 == loc {
            (pad, carets + 1)
        } else if k - 1 < loc {
            (pad + 1, carets)
        } else {
            (pad, carets)
        }
    }
}

/// The error report for `error` at line `line_number`, whose text is `line`:
/// the labelled message, a gutter line, the numbered source line, a line of
/// carets under word number `loc` followed by `note`, and a closing gutter
/// line. The carets stand under the marked word: the words before it are
/// replaced by as many spaces as they have characters.
pub open spec fn error_report(error: Seq<char>, line: Seq<char>, line_number: nat, loc: nat, note: Seq<char>) -> Seq<char> {
    let number = nat_text(line_number);
    let gutter = repeat(' ', number.len() + 1);
    let (pad, carets) = caret_widths(line, loc, 0, false);
    printed(PrintT::Error, error)
        + gutter + seq!['|', '\n']
        + number + seq![' ', '|', ' '] + line + seq!['\n']
        + gutter + seq!['|', ' ', ' '] + repeat(' ', pad) + repeat('^', carets) + seq![' '] + note + seq!['\n']
        + gutter + seq!['|', '\n']
}

/// Appends `n` copies of `c` to `out`.
fn append_repeat(out: &mut String, c: char, n: usize)
    ensures
        final(out)@ == old(out)@ + repeat(c, n as nat),
{
    let mut i: usize = 0;
    while i < n
        invariant
            i <= n,
            out@ == old(out)@ + repeat(c, i as nat),
        decreases n - i,
    {
        push_char(out, c);
        assert(repeat(c, (i + 1) as nat) =~= repeat(c, i as nat).push(c));
        i = i + 1;
    }
}

/// Counts the characters of the words before word number `loc` of `line`,
/// and of that word (see `caret_widths`).
fn count_caret_widths(line: &str, loc: usize) -> (r: (usize, usize))
    ensures
        r.0 as nat == caret_widths(line@, loc as nat, 0, false).0,
        r.1 as nat == caret_widths(line@, loc as nat, 0, false).1,
{
    let chars = chars_of(line);
    let n = chars.len();
    let mut pad: usize = 0;
    let mut carets: usize = 0;
    let mut started: usize = 0;
    let mut inside = false;
    let mut j: usize = 0;
    assert(chars@.skip(0) =~= chars@);
    while j < n
        invariant
            j <= n,
            n == chars@.len(),
            chars@ == line@,
            started <= j,
            inside ==> started > 0,
            pad + carets <= j,
            pad + caret_widths(chars@.skip(j as int), loc as nat, started as nat, inside).0
                == caret_widths(line@, loc as nat, 0, false).0,
            carets + caret_widths(chars@.skip(j as int), loc as nat, started as nat, inside).1
                == caret_widths(line@, loc as nat, 0, false).1,
        decreases n - j,
    {
        assert(chars@.skip(j as int).drop_first() =~= chars@.skip(j + 1));
        if is_space_char(chars[j]) {
            inside = false;
        } else {
            if !inside {
                started = started + 1;
                inside = true;
            }
            if started - 1 == loc {
                carets = carets + 1;
            } else if started - 1 < loc {
                pad = pad + 1;
            }
        }
        j = j + 1;
    }
    assert(chars@.skip(n as int) =~= Seq::<char>::empty());
    (pad, carets)
}

/// The error report for `error` at line `line_number` (see `error_report`).
pub fn render_error(error: &str, line_string: &str, line_number: usize, error_loc: usize, error_line: &str) -> (r: String)
    ensures
        r@ == error_report(error@, line_string@, line_number as nat, error_loc as nat, error_line@),
{
    let mut number = String::new();
    append_nat(&mut number, line_number as u128);
    let width = number.unicode_len();
    let (pad, carets) = count_caret_widths(line_string, error_loc);
    let mut r = "[Error]: ".to_owned();
    r.append(error);
    push_char(&mut r, '\n');
    append_repeat(&mut r, ' ', width);
    push_char(&mut r, ' ');
    push_char(&mut r, '|');
    push_char(&mut r, '\n');
    r.append(number.as_str());
    push_char(&mut r, ' ');
    push_char(&mut r, '|');
    push_char(&mut r, ' ');
    r.append(line_string);
    push_char(&mut r, '\n');
    append_repeat(&mut r, ' ', width);
    push_char(&mut r, ' ');
    push_char(&mut r, '|');
    push_char(&mut r, ' ');
    push_char(&mut r, ' ');
    append_repeat(&mut r, ' ', pad);
    append_repeat(&mut r, '^', carets);
    push_char(&mut r, ' ');
    r.append(error_line);
    push_char(&mut r, '\n');
    append_repeat(&mut r, ' ', width);
    push_char(&mut r, ' ');
    push_char(&mut r, '|');
    push_char(&mut r, '\n');
    let ghost number_text = nat_text(line_number as nat);
    let ghost gutter = repeat(' ', number_text.len() + 1);
    assert(gutter =~= repeat(' ', width as nat).push(' '));
    assert(r@ =~= error_report(error@, line_string@, line_number as nat, error_loc as nat, error_line@));
    r
}

} // verus!
