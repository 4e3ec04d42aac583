//! Characters and runs of characters: what counts as whitespace, how a comment
//! body is padded, and how the line breaks inside a string literal are
//! rewritten.

use vstd::prelude::*;
use vstd::std_specs::iter::IteratorSpec;
use vstd::string::{StrSliceExecFns, StringExecFns};

use crate::context::Newline;

verus! {

/// Assumed of `String::push` of the standard library: it puts the character
/// at the end of the string and leaves what was there as it was.
pub assume_specification[ String::push ](s: &mut String, ch: char)
    ensures
        final(s)@ == old(s)@.push(ch),
;

/// The characters with the Unicode property `White_Space`.
pub open spec fn is_white_space(c: char) -> bool {
    let u = c as u32;
    ||| 0x09 <= u <= 0x0D
    ||| u == 0x20
    ||| u == 0x85
    ||| u == 0xA0
    ||| u == 0x1680
    ||| 0x2000 <= u <= 0x200A
    ||| u == 0x2028
    ||| u == 0x2029
    ||| u == 0x202F
    ||| u == 0x205F
    ||| u == 0x3000
}

/// Whether `c` has the Unicode property `White_Space`.
pub fn is_whitespace(c: char) -> (r: bool)
    ensures
        r == is_white_space(c),
{
    let u: u32 = c as u32;
    (0x09 <= u && u <= 0x0D) || u == 0x20 || u == 0x85 || u == 0xA0 || u == 0x1680 || (0x2000 <= u
        && u <= 0x200A) || u == 0x2028 || u == 0x2029 || u == 0x202F || u == 0x205F || u == 0x3000
}

/// The first character of `s` is whitespace.
pub open spec fn starts_with_space(s: Seq<char>) -> bool {
    s.len() > 0 && is_white_space(s[0])
}

/// The last character of `s` is whitespace.
pub open spec fn ends_with_space(s: Seq<char>) -> bool {
    s.len() > 0 && is_white_space(s.last())
}

/// `s` without one line ending at its end: `"\r\n"` if it ends so, else `"\n"`.
pub open spec fn spec_without_trailing_nl(s: Seq<char>) -> Seq<char> {
    if s.len() >= 2 && s[s.len() - 2] == '\r' && s[s.len() - 1] == '\n' {
        s.take(s.len() - 2)
    } else if s.len() >= 1 && s[s.len() - 1] == '\n' {
        s.take(s.len() - 1)
    } else {
        s
    }
}

/// `s` with one space before it, unless it already starts with whitespace.
pub open spec fn spec_start_with_space(s: Seq<char>) -> Seq<char> {
    if starts_with_space(s) {
        s
    } else {
        " "@ + s
    }
}

/// `s` with one space on each side, unless that side already is whitespace.
pub open spec fn spec_delimited_with_spaces(s: Seq<char>) -> Seq<char> {
    (if starts_with_space(s) {
        s
    } else {
        " "@ + s
    }) + (if ends_with_space(s) {
        Seq::<char>::empty()
    } else {
        " "@
    })
}

/// `s` with every match of the non-empty pattern `from` replaced by `to`.
/// Matches are found from left to right and do not overlap.
pub open spec fn spec_replace(s: Seq<char>, from: Seq<char>, to: Seq<char>) -> Seq<char>
    recommends
        from.len() > 0,
    decreases s.len(),
{
    if s.len() == 0 || from.len() == 0 {
        s
    } else if from.is_prefix_of(s) {
        to + spec_replace(s.skip(from.len() as int), from, to)
    } else {
        seq![s[0]] + spec_replace(s.skip(1), from, to)
    }
}

/// `s` with a carriage return put behind each line feed that has none behind
/// it. A line feed that a carriage return follows stays as it is.
pub open spec fn spec_complete_line_breaks(s: Seq<char>) -> Seq<char>
    decreases s.len(),
{
    if s.len() == 0 {
        s
    } else if s[0] == '\n' && !(s.len() > 1 && s[1] == '\r') {
        "\n\r"@ + spec_complete_line_breaks(s.skip(1))
    } else {
        seq![s[0]] + spec_complete_line_breaks(s.skip(1))
    }
}

/// A string literal with its line breaks in the convention `nl`. For a line
/// feed alone, each `"\n\r"` becomes `"\n"`. For a line feed with a carriage
/// return, each line feed that no carriage return follows gets one, and each
/// `"\n\r"` stays.
pub open spec fn spec_normalize_line_breaks(s: Seq<char>, nl: Newline) -> Seq<char> {
    match nl {
        Newline::Lf => spec_replace(s, "\n\r"@, "\n"@),
        Newline::LfCr => spec_complete_line_breaks(s),
    }
}

/// Strips one trailing line ending (`"\r\n"` or `"\n"`) from `s`.
pub fn without_trailing_nl(s: &str) -> (r: &str)
    ensures
        r@ == spec_without_trailing_nl(s@),
{
    let n = s.unicode_len();
    if n >= 2 && s.get_char(n - 2) == '\r' && s.get_char(n - 1) == '\n' {
        s.substring_char(0, n - 2)
    } else if n >= 1 && s.get_char(n - 1) == '\n' {
        s.substring_char(0, n - 1)
    } else {
        s
    }
}

/// Puts one space before `s` unless `s` starts with whitespace.
pub fn start_with_space(s: &str) -> (r: String)
    ensures
        r@ == spec_start_with_space(s@),
{
    let mut r = String::new();
    if s.is_empty() || !is_whitespace(s.get_char(0)) {
        r.append(" ");
    }
    r.append(s);
    r
}

/// Puts one space on each side of `s` that does not already start, or end,
/// with whitespace.
pub fn delimited_with_spaces(s: &str) -> (r: String)
    ensures
        r@ == spec_delimited_with_spaces(s@),
{
    let n = s.unicode_len();
    let mut r = String::new();
    if n == 0 || !is_whitespace(s.get_char(0)) {
        r.append(" ");
    }
    r.append(s);
    if n == 0 || !is_whitespace(s.get_char(n - 1)) {
        r.append(" ");
    }
    r
}

/// Unfolds [`spec_replace`] once at position `i` of `s`.
proof fn lemma_replace_step(s: Seq<char>, from: Seq<char>, to: Seq<char>, i: int)
    requires
        0 <= i < s.len(),
        from.len() > 0,
    ensures
        from.is_prefix_of(s.skip(i)) ==> spec_replace(s.skip(i), from, to) == to + spec_replace(
            s.skip(i + from.len()),
            from,
            to,
        ),
        !from.is_prefix_of(s.skip(i)) ==> spec_replace(s.skip(i), from, to) == seq![s[i]]
            + spec_replace(s.skip(i + 1), from, to),
{
    assert(s.skip(i).skip(1) == s.skip(i + 1));
    if from.is_prefix_of(s.skip(i)) {
        assert(s.skip(i).skip(from.len() as int) == s.skip(i + from.len()));
    }
}

/// Copies `s`, dropping each carriage return that directly follows a line
/// feed.
fn lf_cr_to_lf(s: &str) -> (r: String)
    ensures
        r@ == spec_replace(s@, "\n\r"@, "\n"@),
{
    let ghost from = "\n\r"@;
    let ghost to = "\n"@;
    proof {
        reveal_strlit("\n\r");
        reveal_strlit("\n");
        assert(s@.skip(0) == s@);
    }
    let mut out = String::new();
    let mut after_lf = false;
    for ch in it: s.chars()
        invariant
            it.seq() == s@,
            from == seq!['\n', '\r'],
            to == seq!['\n'],
            after_lf ==> it.index() > 0 && s@[it.index() - 1] == '\n' && out@.len() > 0
                && out@.last() == '\n',
            after_lf ==> spec_replace(s@, from, to) == out@.drop_last() + spec_replace(
                s@.skip(it.index() - 1),
                from,
                to,
            ),
            !after_lf ==> spec_replace(s@, from, to) == out@ + spec_replace(
                s@.skip(it.index() as int),
                from,
                to,
            ),
    {
        proof {
            lemma_replace_step(s@, from, to, it.index() as int);
            if after_lf {
                lemma_replace_step(s@, from, to, it.index() - 1);
            }
        }
        if after_lf && ch == '\r' {
            after_lf = false;
        } else {
            out.push(ch);
            after_lf = ch == '\n';
        }
    }
    proof {
        if after_lf {
            lemma_replace_step(s@, from, to, s@.len() - 1);
        }
    }
    out
}

/// Unfolds [`spec_complete_line_breaks`] once at position `i` of `s`.
proof fn lemma_complete_step(s: Seq<char>, i: int)
    requires
        0 <= i < s.len(),
    ensures
        spec_complete_line_breaks(s.skip(i)) == (if s[i] == '\n' && !(i + 1 < s.len() && s[i + 1]
            == '\r') {
            "\n\r"@
        } else {
            seq![s[i]]
        }) + spec_complete_line_breaks(s.skip(i + 1)),
{
    assert(s.skip(i).skip(1) == s.skip(i + 1));
}

/// Copies `s`, putting a carriage return behind each line feed that has none
/// behind it.
fn lf_to_lf_cr(s: &str) -> (r: String)
    ensures
        r@ == spec_complete_line_breaks(s@),
{
    proof {
        reveal_strlit("\n\r");
        assert(s@.skip(0) == s@);
    }
    let mut out = String::new();
    let mut after_lf = false;
    for ch in it: s.chars()
        invariant
            it.seq() == s@,
            "\n\r"@ == seq!['\n', '\r'],
            after_lf ==> it.index() > 0 && s@[it.index() - 1] == '\n' && out@.len() > 0
                && out@.last() == '\n',
            after_lf ==> spec_complete_line_breaks(s@) == out@.drop_last()
                + spec_complete_line_breaks(s@.skip(it.index() - 1)),
            !after_lf ==> spec_complete_line_breaks(s@) == out@ + spec_complete_line_breaks(
                s@.skip(it.index() as int),
            ),
    {
        proof {
            lemma_complete_step(s@, it.index() as int);
            if after_lf {
                lemma_complete_step(s@, it.index() - 1);
            }
        }
        if after_lf && ch != '\r' {
            out.push('\r');
        }
        out.push(ch);
        after_lf = ch == '\n';
    }
    if after_lf {
        proof {
            lemma_complete_step(s@, s@.len() - 1);
        }
        out.push('\r');
    }
    out
}

/// Copies the string literal `s` with its line breaks rewritten to the
/// convention `nl`.
pub fn normalize_line_breaks(s: &str, nl: Newline) -> (r: String)
    ensures
        r@ == spec_normalize_line_breaks(s@, nl),
{
    match nl {
        Newline::Lf => lf_cr_to_lf(s),
        Newline::LfCr => lf_to_lf_cr(s),
    }
}

} // verus!
