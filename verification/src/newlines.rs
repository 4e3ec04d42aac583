//! One convention of line endings in the whole output: where each text that
//! is copied from the document is in the convention of the document, every
//! line feed of the rendered document is: none is followed by a carriage
//! return where the convention is a line feed alone, and each is where the
//! convention is a line feed with a carriage return.

use vstd::prelude::*;
use vstd::std_specs::iter::IteratorSpec;

use crate::context::{spec_indent, ContextView, Newline};
use crate::document::{spec_extension, spec_extensions, spec_extensions_first, spec_format_with};
use crate::joined::has_line_break;
use crate::layout::{
    lemma_spec_entries, lemma_spec_values, spec_entries, spec_entry, spec_min_first, spec_min_items,
    spec_option, spec_separated_min, spec_separated_split, spec_split_first, spec_split_items,
    spec_value, spec_values, spec_ws_wrapped_leading_nl, spec_ws_wrapped_leading_single,
    spec_ws_wrapped_min,
};
use crate::lines::lemma_ws_nl_ends_line;
use crate::model::{
    AttributeView, EntryView, FileView, SeparatedView, ValueView, WsFollowedView, WsLeadView,
    WsView, WsWrappedView,
};
use crate::text::{
    ends_with_space, spec_complete_line_breaks, spec_delimited_with_spaces,
    spec_normalize_line_breaks, spec_replace, spec_start_with_space, spec_without_trailing_nl,
    starts_with_space,
};
use crate::whitespace::{
    spec_separator, spec_space_owed, spec_space_owed_after, spec_ws_first, spec_ws_inner,
    spec_ws_min, spec_ws_nl, spec_ws_single,
};

verus! {

/// A carriage return stands directly behind position `i` of `s`.
pub open spec fn carriage_return_behind(s: Seq<char>, i: int) -> bool {
    i + 1 < s.len() && s[i + 1] == '\r'
}

/// Every line feed of `s` is in the convention `nl`: none is followed by a
/// carriage return where the convention is a line feed alone, and each is
/// where the convention is a line feed with a carriage return.
#[verifier::opaque]
pub open spec fn follows_convention(s: Seq<char>, nl: Newline) -> bool {
    forall|i: int|
        0 <= i < s.len() && s[i] == '\n' ==> (#[trigger] carriage_return_behind(s, i) <==> nl
            is LfCr)
}

/// The convention of a text: a line feed with a carriage return where the
/// text holds a line feed and a carriage return stands behind each of its
/// line feeds, a line feed alone otherwise.
pub open spec fn spec_convention(s: Seq<char>) -> Newline {
    if has_line_break(s) && follows_convention(s, Newline::LfCr) {
        Newline::LfCr
    } else {
        Newline::Lf
    }
}

/// Finds the convention of the text of a document.
pub fn convention(text: &str) -> (nl: Newline)
    ensures
        nl == spec_convention(text@),
{
    let mut found = false;
    let mut complete = true;
    let mut after_lf = false;
    for ch in it: text.chars()
        invariant
            it.seq() == text@,
            found <==> exists|j: int| 0 <= j < it.index() && text@[j] == '\n',
            complete <==> forall|j: int|
                0 <= j && j + 1 < it.index() && text@[j] == '\n'
                    ==> #[trigger] carriage_return_behind(text@, j),
            after_lf <==> it.index() > 0 && text@[it.index() - 1] == '\n',
    {
        proof {
            let i = it.index() as int;
            if after_lf && ch != '\r' {
                assert(!carriage_return_behind(text@, i - 1));
            }
            if ch == '\n' {
                assert(text@[i] == '\n');
            }
        }
        if after_lf && ch != '\r' {
            complete = false;
        }
        if ch == '\n' {
            found = true;
        }
        after_lf = ch == '\n';
    }
    proof {
        reveal(has_line_break);
        reveal(follows_convention);
        let n = text@.len() as int;
        if after_lf {
            assert(!carriage_return_behind(text@, n - 1));
        }
        if found && complete && !after_lf {
            assert forall|j: int| 0 <= j < n && text@[j] == '\n' implies
                #[trigger] carriage_return_behind(text@, j) by {
                assert(j + 1 < n);
            }
        }
    }
    if found && complete && !after_lf {
        Newline::LfCr
    } else {
        Newline::Lf
    }
}

/// The text `s` does not start with a carriage return.
pub open spec fn starts_clear(s: Seq<char>) -> bool {
    s.len() > 0 ==> s[0] != '\r'
}

/// The text `s` can stand anywhere in a text of the convention `nl`: its
/// line feeds are in that convention, and where the convention is a line
/// feed alone, it does not start with a carriage return, which would follow
/// a line feed before it.
pub open spec fn keeps_convention(s: Seq<char>, nl: Newline) -> bool {
    follows_convention(s, nl) && (nl is Lf ==> starts_clear(s))
}

/// The text `s` holds neither a line feed nor a carriage return.
#[verifier::opaque]
spec fn plain(s: Seq<char>) -> bool {
    forall|i: int| 0 <= i < s.len() ==> #[trigger] s[i] != '\n' && s[i] != '\r'
}

/// A text without line feeds and carriage returns can stand in a text of
/// either convention.
proof fn lemma_plain_keeps(s: Seq<char>, nl: Newline)
    requires
        plain(s),
    ensures
        keeps_convention(s, nl),
{
    reveal(plain);
    reveal(follows_convention);
    assert forall|i: int| 0 <= i < s.len() && s[i] == '\n' implies (
    #[trigger] carriage_return_behind(s, i) <==> nl is LfCr) by {
        assert(s[i] != '\n');
    }
}

/// Two texts without line feeds and carriage returns, joined, hold none.
proof fn lemma_plain_joined(a: Seq<char>, b: Seq<char>)
    requires
        plain(a),
        plain(b),
    ensures
        plain(a + b),
{
    reveal(plain);
    assert forall|i: int| 0 <= i < (a + b).len() implies #[trigger] (a + b)[i] != '\n' && (a
        + b)[i] != '\r' by {
        if i < a.len() {
            assert(a[i] != '\n');
        } else {
            assert(b[i - a.len()] != '\n');
        }
    }
}

/// Two texts that can stand in a text of the convention `nl` can stand there
/// joined.
proof fn lemma_keeps_joined(a: Seq<char>, b: Seq<char>, nl: Newline)
    requires
        keeps_convention(a, nl),
        keeps_convention(b, nl),
    ensures
        keeps_convention(a + b, nl),
{
    if nl is LfCr && a.len() > 0 && a.last() == '\n' {
        reveal(follows_convention);
        assert(carriage_return_behind(a, a.len() - 1));
    }
    lemma_follows_joined(a, b, nl);
    if a.len() > 0 {
        assert((a + b)[0] == a[0]);
    } else if b.len() > 0 {
        assert((a + b)[0] == b[0]);
    }
}

/// The empty text can stand anywhere.
proof fn lemma_nothing_keeps(nl: Newline)
    ensures
        keeps_convention(Seq::<char>::empty(), nl),
        plain(Seq::<char>::empty()),
{
    reveal(plain);
    reveal(follows_convention);
}

/// The line ending of a convention is in that convention.
proof fn lemma_line_ending_keeps(nl: Newline)
    ensures
        keeps_convention(nl.text(), nl),
{
    reveal(follows_convention);
    reveal_strlit("\n");
    reveal_strlit("\n\r");
    let s = nl.text();
    assert forall|i: int| 0 <= i < s.len() && s[i] == '\n' implies (
    #[trigger] carriage_return_behind(s, i) <==> nl is LfCr) by {
        assert(i == 0);
    }
}

/// An indent holds only spaces.
proof fn lemma_indent_plain(levels: nat)
    ensures
        plain(spec_indent(levels)),
    decreases levels,
{
    if levels == 0 {
        lemma_nothing_keeps(Newline::Lf);
    } else {
        lemma_indent_plain((levels - 1) as nat);
        assert(plain("    "@)) by {
            reveal(plain);
            reveal_strlit("    ");
        }
        lemma_plain_joined(spec_indent((levels - 1) as nat), "    "@);
    }
}

/// The start of a line, a line ending and an indent, is in the convention of
/// its line ending.
proof fn lemma_line_start_keeps(c: ContextView)
    ensures
        keeps_convention(c.line_start(), c.nl),
{
    lemma_line_ending_keeps(c.nl);
    lemma_indent_plain(c.indent);
    lemma_plain_keeps(spec_indent(c.indent), c.nl);
    lemma_keeps_joined(c.nl.text(), spec_indent(c.indent), c.nl);
}

/// The punctuation of the layout holds neither a line feed nor a carriage
/// return.
proof fn lemma_punctuation_plain()
    ensures
        plain(" "@),
        plain("//"@),
        plain("/*"@),
        plain("*/"@),
        plain(","@),
        plain(":"@),
        plain("["@),
        plain("]"@),
        plain("{"@),
        plain("}"@),
        plain("("@),
        plain(")"@),
        plain("#"@),
        plain("!"@),
        plain("enable"@),
{
    reveal(plain);
    reveal_strlit(" ");
    reveal_strlit("//");
    reveal_strlit("/*");
    reveal_strlit("*/");
    reveal_strlit(",");
    reveal_strlit(":");
    reveal_strlit("[");
    reveal_strlit("]");
    reveal_strlit("{");
    reveal_strlit("}");
    reveal_strlit("(");
    reveal_strlit(")");
    reveal_strlit("#");
    reveal_strlit("!");
    reveal_strlit("enable");
}

/// A text whose line feeds are in the convention `nl` keeps them so when it
/// is padded with spaces.
proof fn lemma_padded_follows(s: Seq<char>, nl: Newline)
    requires
        follows_convention(s, nl),
    ensures
        follows_convention(spec_start_with_space(s), nl),
        follows_convention(spec_delimited_with_spaces(s), nl),
{
    lemma_punctuation_plain();
    lemma_nothing_keeps(nl);
    lemma_plain_keeps(" "@, nl);
    reveal_strlit(" ");
    lemma_follows_joined(" "@, s, nl);
    let front = if starts_with_space(s) {
        s
    } else {
        " "@ + s
    };
    let back = if ends_with_space(s) {
        Seq::<char>::empty()
    } else {
        " "@
    };
    lemma_follows_joined(front, back, nl);
}

/// A text that holds neither a line feed nor a carriage return and a text
/// whose line feeds are in the convention `nl` can stand, joined, in a text
/// of that convention, where the first is not empty.
proof fn lemma_plain_then_follows(a: Seq<char>, b: Seq<char>, nl: Newline)
    requires
        plain(a),
        a.len() > 0,
        follows_convention(b, nl),
    ensures
        keeps_convention(a + b, nl),
{
    lemma_plain_keeps(a, nl);
    assert(a.last() != '\n' && a[0] != '\r') by {
        reveal(plain);
    }
    lemma_follows_joined(a, b, nl);
    assert((a + b)[0] == a[0]);
}

/// Two texts whose line feeds are in the convention `nl` keep it when they
/// are joined, unless a line feed at the end of the first meets a carriage
/// return at the start of the second.
proof fn lemma_follows_joined(a: Seq<char>, b: Seq<char>, nl: Newline)
    requires
        follows_convention(a, nl),
        follows_convention(b, nl),
        a.len() > 0 && a.last() == '\n' ==> starts_clear(b),
    ensures
        follows_convention(a + b, nl),
{
    reveal(follows_convention);
    let s = a + b;
    assert forall|i: int| 0 <= i < s.len() && s[i] == '\n' implies (
    #[trigger] carriage_return_behind(s, i) <==> nl is LfCr) by {
        if i < a.len() {
            assert(a[i] == '\n');
            assert(carriage_return_behind(a, i) <==> nl is LfCr);
            if i + 1 < a.len() {
                assert(s[i + 1] == a[i + 1]);
            } else if b.len() > 0 {
                assert(s[i + 1] == b[0]);
            }
        } else {
            let j = i - a.len();
            assert(b[j] == '\n');
            assert(carriage_return_behind(b, j) <==> nl is LfCr);
            if j + 1 < b.len() {
                assert(s[i + 1] == b[j + 1]);
            }
        }
    }
}

/// At position `i` of `s` stand a line feed and two carriage returns.
pub open spec fn stray_carriage_return_at(s: Seq<char>, i: int) -> bool {
    0 <= i && i + 2 < s.len() && s[i] == '\n' && s[i + 1] == '\r' && s[i + 2] == '\r'
}

/// Nowhere in `s` a line feed is followed by two carriage returns.
pub open spec fn no_stray_carriage_return(s: Seq<char>) -> bool {
    forall|i: int| !#[trigger] stray_carriage_return_at(s, i)
}

/// A string literal whose line breaks can be rewritten to the convention
/// `nl`. Every literal can be rewritten to a line feed with a carriage
/// return. For a line feed alone, where the carriage return behind a line
/// feed is dropped, the literal does not start with a carriage return, and
/// no second carriage return stands behind a line feed.
pub open spec fn normalizes(s: Seq<char>, nl: Newline) -> bool {
    nl is Lf ==> starts_clear(s) && no_stray_carriage_return(s)
}

/// A text rewritten to line feeds alone starts as it started, and where it
/// held no line feed with two carriage returns behind it, no line feed of
/// the result is followed by a carriage return.
pub proof fn lemma_replace_to_lf(s: Seq<char>)
    requires
        no_stray_carriage_return(s),
    ensures
        follows_convention(spec_replace(s, "\n\r"@, "\n"@), Newline::Lf),
        spec_replace(s, "\n\r"@, "\n"@).len() > 0 <==> s.len() > 0,
        s.len() > 0 ==> spec_replace(s, "\n\r"@, "\n"@)[0] == s[0],
    decreases s.len(),
{
    let from = "\n\r"@;
    let to = "\n"@;
    reveal_strlit("\n\r");
    reveal_strlit("\n");
    if s.len() == 0 {
        reveal(follows_convention);
    } else if from.is_prefix_of(s) {
        let rest = s.skip(2);
        let done = spec_replace(rest, from, to);
        assert(s.subrange(0, 2)[0] == s[0] && s.subrange(0, 2)[1] == s[1]);
        assert(s[0] == '\n' && s[1] == '\r');
        assert forall|i: int| !#[trigger] stray_carriage_return_at(rest, i) by {
            if stray_carriage_return_at(rest, i) {
                assert(stray_carriage_return_at(s, i + 2));
            }
        }
        lemma_replace_to_lf(rest);
        assert(starts_clear(done)) by {
            if rest.len() > 0 && rest[0] == '\r' {
                assert(stray_carriage_return_at(s, 0));
            }
        }
        lemma_line_ending_keeps(Newline::Lf);
        lemma_follows_joined(to, done, Newline::Lf);
        assert((to + done)[0] == to[0]);
    } else {
        let rest = s.skip(1);
        let done = spec_replace(rest, from, to);
        assert forall|i: int| !#[trigger] stray_carriage_return_at(rest, i) by {
            if stray_carriage_return_at(rest, i) {
                assert(stray_carriage_return_at(s, i + 1));
            }
        }
        lemma_replace_to_lf(rest);
        assert(follows_convention(seq![s[0]], Newline::Lf)) by {
            reveal(follows_convention);
        }
        assert(s[0] == '\n' ==> starts_clear(done)) by {
            if s[0] == '\n' && rest.len() > 0 && rest[0] == '\r' {
                assert(s.subrange(0, 2) =~= from);
            }
        }
        lemma_follows_joined(seq![s[0]], done, Newline::Lf);
        assert((seq![s[0]] + done)[0] == s[0]);
    }
}

/// A text whose line feeds each got a carriage return behind them, where
/// they had none, starts as it started, and every line feed of the result is
/// followed by a carriage return.
pub proof fn lemma_completed_line_breaks(s: Seq<char>)
    ensures
        follows_convention(spec_complete_line_breaks(s), Newline::LfCr),
        spec_complete_line_breaks(s).len() > 0 <==> s.len() > 0,
        s.len() > 0 ==> spec_complete_line_breaks(s)[0] == s[0],
    decreases s.len(),
{
    reveal_strlit("\n\r");
    if s.len() == 0 {
        reveal(follows_convention);
    } else {
        let rest = s.skip(1);
        let done = spec_complete_line_breaks(rest);
        lemma_completed_line_breaks(rest);
        if s[0] == '\n' && !(s.len() > 1 && s[1] == '\r') {
            lemma_line_ending_keeps(Newline::LfCr);
            lemma_follows_joined("\n\r"@, done, Newline::LfCr);
            assert(("\n\r"@ + done)[0] == '\n');
        } else {
            let whole = seq![s[0]] + done;
            assert(whole[0] == s[0]);
            reveal(follows_convention);
            assert forall|i: int| 0 <= i < whole.len() && whole[i] == '\n' implies
                #[trigger] carriage_return_behind(whole, i) by {
                if i == 0 {
                    assert(rest[0] == '\r');
                    assert(whole[1] == done[0]);
                } else {
                    assert(done[i - 1] == '\n');
                    assert(carriage_return_behind(done, i - 1));
                    assert(whole[i + 1] == done[i]);
                }
            }
        }
    }
}

/// A string literal that can be rewritten to the convention `nl` is, once
/// rewritten, in that convention.
pub proof fn lemma_normalized_keeps(s: Seq<char>, nl: Newline)
    requires
        normalizes(s, nl),
    ensures
        keeps_convention(spec_normalize_line_breaks(s, nl), nl),
{
    match nl {
        Newline::Lf => lemma_replace_to_lf(s),
        Newline::LfCr => lemma_completed_line_breaks(s),
    }
}

/// The line feeds of the comment in a piece of whitespace are in the
/// convention `nl`: those in the text of a block comment, and those in the
/// text of a line comment before the line ending that ends it.
pub open spec fn piece_in_convention(ws: WsView, nl: Newline) -> bool {
    match ws {
        WsView::LineComment(text) => follows_convention(spec_without_trailing_nl(text), nl),
        WsView::Space => true,
        WsView::BlockComment(text) => follows_convention(text, nl),
    }
}

/// Every comment of the run is in the convention `nl`.
pub open spec fn ws_in_convention(ws: Seq<WsView>, nl: Newline) -> bool {
    forall|i: int| 0 <= i < ws.len() ==> piece_in_convention(#[trigger] ws[i], nl)
}

/// A piece of whitespace whose comment is in the convention of the document
/// renders in it.
proof fn lemma_ws_inner_convention(ws: WsView, c: ContextView, space: bool)
    requires
        piece_in_convention(ws, c.nl),
    ensures
        keeps_convention(spec_ws_inner(ws, c, space), c.nl),
{
    let owed = spec_separator(space);
    lemma_punctuation_plain();
    lemma_nothing_keeps(c.nl);
    reveal_strlit("//");
    reveal_strlit("/*");
    match ws {
        WsView::LineComment(text) => {
            let padded = spec_start_with_space(spec_without_trailing_nl(text));
            lemma_padded_follows(spec_without_trailing_nl(text), c.nl);
            lemma_plain_joined(owed, "//"@);
            lemma_plain_then_follows(owed + "//"@, padded, c.nl);
            lemma_line_start_keeps(c);
            lemma_keeps_joined(owed + "//"@ + padded, c.line_start(), c.nl);
        },
        WsView::Space => {},
        WsView::BlockComment(text) => {
            let padded = spec_delimited_with_spaces(text);
            lemma_padded_follows(text, c.nl);
            lemma_plain_joined(owed, "/*"@);
            lemma_plain_then_follows(owed + "/*"@, padded, c.nl);
            lemma_plain_keeps("*/"@, c.nl);
            lemma_keeps_joined(owed + "/*"@ + padded, "*/"@, c.nl);
        },
    }
}

/// The first `n` pieces of a run whose comments are in the convention of the
/// document render in it.
proof fn lemma_ws_first_convention(ws: Seq<WsView>, c: ContextView, n: int)
    requires
        ws_in_convention(ws, c.nl),
        0 <= n <= ws.len(),
    ensures
        keeps_convention(spec_ws_first(ws, c, n), c.nl),
    decreases n,
{
    if n == 0 {
        lemma_nothing_keeps(c.nl);
    } else {
        lemma_ws_first_convention(ws, c, n - 1);
        lemma_ws_inner_convention(ws[n - 1], c, spec_space_owed_after(ws, n - 1));
        lemma_keeps_joined(
            spec_ws_first(ws, c, n - 1),
            spec_ws_inner(ws[n - 1], c, spec_space_owed_after(ws, n - 1)),
            c.nl,
        );
    }
}

/// A run whose comments are in the convention of the document renders in
/// it, by each of the three policies.
pub proof fn lemma_ws_convention(ws: Seq<WsView>, c: ContextView)
    requires
        ws_in_convention(ws, c.nl),
    ensures
        keeps_convention(spec_ws_min(ws, c), c.nl),
        keeps_convention(spec_ws_single(ws, c), c.nl),
        keeps_convention(spec_ws_nl(ws, c), c.nl),
{
    lemma_ws_first_convention(ws, c, ws.len() as int);
    lemma_punctuation_plain();
    lemma_plain_keeps(" "@, c.nl);
    lemma_keeps_joined(spec_ws_min(ws, c), " "@, c.nl);
    lemma_nothing_keeps(c.nl);
    lemma_line_start_keeps(c);
    lemma_keeps_joined(
        spec_ws_min(ws, c),
        if spec_space_owed(ws) {
            c.line_start()
        } else {
            Seq::<char>::empty()
        },
        c.nl,
    );
}

/// The parts of a rendered item are in the convention `nl`.
spec fn item_keeps_convention(item: WsWrappedView<Seq<char>>, nl: Newline) -> bool {
    &&& ws_in_convention(item.leading, nl)
    &&& keeps_convention(item.content, nl)
    &&& ws_in_convention(item.following, nl)
}

/// Every rendered item of `s` and the trailing whitespace of `s` are in the
/// convention `nl`.
spec fn separated_keeps_convention(s: SeparatedView<Seq<char>>, nl: Newline) -> bool {
    &&& ws_in_convention(s.trailing_ws, nl)
    &&& forall|i: int|
        0 <= i < s.values.len() ==> item_keeps_convention(#[trigger] s.values[i], nl)
}

/// An item whose parts are in the convention is in it, however its leading
/// whitespace is rendered.
proof fn lemma_wrapped_convention(item: WsWrappedView<Seq<char>>, c: ContextView)
    requires
        item_keeps_convention(item, c.nl),
    ensures
        keeps_convention(spec_ws_wrapped_min(item, c), c.nl),
        keeps_convention(spec_ws_wrapped_leading_single(item, c), c.nl),
        keeps_convention(spec_ws_wrapped_leading_nl(item, c), c.nl),
{
    let follow = spec_ws_min(item.following, c);
    lemma_ws_convention(item.leading, c);
    lemma_ws_convention(item.following, c);
    lemma_keeps_joined(spec_ws_min(item.leading, c), item.content, c.nl);
    lemma_keeps_joined(spec_ws_single(item.leading, c), item.content, c.nl);
    lemma_keeps_joined(spec_ws_nl(item.leading, c), item.content, c.nl);
    lemma_keeps_joined(spec_ws_min(item.leading, c) + item.content, follow, c.nl);
    lemma_keeps_joined(spec_ws_single(item.leading, c) + item.content, follow, c.nl);
    lemma_keeps_joined(spec_ws_nl(item.leading, c) + item.content, follow, c.nl);
}

/// The first `n` items laid out one on each line are in the convention
/// where their parts are.
proof fn lemma_split_first_convention(
    items: Seq<WsWrappedView<Seq<char>>>,
    c: ContextView,
    n: int,
)
    requires
        0 <= n <= items.len(),
        forall|i: int| 0 <= i < items.len() ==> item_keeps_convention(#[trigger] items[i], c.nl),
    ensures
        keeps_convention(spec_split_first(items, c, n), c.nl),
    decreases n,
{
    if n == 0 {
        lemma_nothing_keeps(c.nl);
    } else {
        let front = spec_split_first(items, c, n - 1);
        let last = spec_ws_wrapped_leading_nl(items[n - 1], c);
        lemma_split_first_convention(items, c, n - 1);
        lemma_wrapped_convention(items[n - 1], c);
        lemma_punctuation_plain();
        lemma_plain_keeps(","@, c.nl);
        lemma_keeps_joined(front, last, c.nl);
        lemma_keeps_joined(front + last, ","@, c.nl);
    }
}

/// The first `n` items laid out on one line are in the convention where
/// their parts are.
proof fn lemma_min_first_convention(
    items: Seq<WsWrappedView<Seq<char>>>,
    c: ContextView,
    n: int,
)
    requires
        0 <= n <= items.len(),
        forall|i: int| 0 <= i < items.len() ==> item_keeps_convention(#[trigger] items[i], c.nl),
    ensures
        keeps_convention(spec_min_first(items, c, n), c.nl),
    decreases n,
{
    if n == 0 {
        lemma_nothing_keeps(c.nl);
    } else if n == 1 {
        lemma_wrapped_convention(items[0], c);
    } else {
        let front = spec_min_first(items, c, n - 1);
        let last = spec_ws_wrapped_leading_single(items[n - 1], c);
        lemma_min_first_convention(items, c, n - 1);
        lemma_wrapped_convention(items[n - 1], c);
        lemma_punctuation_plain();
        lemma_plain_keeps(","@, c.nl);
        lemma_keeps_joined(front, ","@, c.nl);
        lemma_keeps_joined(front + ","@, last, c.nl);
    }
}

/// Both layouts of a sequence are in the convention where the parts of the
/// sequence are.
proof fn lemma_separated_convention(s: SeparatedView<Seq<char>>, c: ContextView)
    requires
        separated_keeps_convention(s, c.nl),
    ensures
        keeps_convention(spec_separated_split(s, c), c.nl),
        keeps_convention(spec_separated_min(s, c), c.nl),
{
    lemma_split_first_convention(s.values, c.increase(), s.values.len() as int);
    lemma_min_first_convention(s.values, c, s.values.len() as int);
    lemma_ws_convention(s.trailing_ws, c);
    lemma_keeps_joined(
        spec_split_items(s.values, c.increase()),
        spec_ws_nl(s.trailing_ws, c),
        c.nl,
    );
    lemma_keeps_joined(spec_min_items(s.values, c), spec_ws_min(s.trailing_ws, c), c.nl);
}

/// The identifier of a tuple or a struct, where there is one, and the
/// comments behind it are in the convention `nl`.
pub open spec fn ident_in_convention(
    ident: Option<WsFollowedView<Seq<char>>>,
    nl: Newline,
) -> bool {
    ident matches Some(ident) ==> keeps_convention(ident.content, nl) && ws_in_convention(
        ident.following,
        nl,
    )
}

/// The texts that are copied from the value `v` are in the convention `nl`,
/// and its string literals can be rewritten to it.
pub open spec fn value_in_convention(v: ValueView, nl: Newline) -> bool
    decreases v,
{
    match v {
        ValueView::Int(text)
        | ValueView::Float(text)
        | ValueView::Bool(text)
        | ValueView::Unit(text)
        | ValueView::Char(text) => keeps_convention(text, nl),
        ValueView::Str(text) => normalizes(text, nl),
        ValueView::List(items) => values_in_convention(items, nl),
        ValueView::Mapping(entries) => entries_in_convention(entries, nl),
        ValueView::Tuple { ident, fields } => ident_in_convention(ident, nl)
            && values_in_convention(fields, nl),
        ValueView::Struct { ident, fields } => ident_in_convention(ident, nl)
            && entries_in_convention(fields, nl),
    }
}

/// The same of an entry.
pub open spec fn entry_in_convention(e: EntryView, nl: Newline) -> bool
    decreases e,
{
    &&& keeps_convention(e.key, nl)
    &&& ws_in_convention(e.after_key, nl)
    &&& ws_in_convention(e.value.leading, nl)
    &&& value_in_convention(e.value.content, nl)
}

/// The same of a sequence of values.
pub open spec fn values_in_convention(s: SeparatedView<ValueView>, nl: Newline) -> bool
    decreases s,
{
    &&& ws_in_convention(s.trailing_ws, nl)
    &&& forall|i: int|
        0 <= i < s.values.len() ==> {
            &&& ws_in_convention((#[trigger] s.values[i]).leading, nl)
            &&& value_in_convention(s.values[i].content, nl)
            &&& ws_in_convention(s.values[i].following, nl)
        }
}

/// The same of a sequence of entries.
pub open spec fn entries_in_convention(s: SeparatedView<EntryView>, nl: Newline) -> bool
    decreases s,
{
    &&& ws_in_convention(s.trailing_ws, nl)
    &&& forall|i: int|
        0 <= i < s.values.len() ==> {
            &&& ws_in_convention((#[trigger] s.values[i]).leading, nl)
            &&& entry_in_convention(s.values[i].content, nl)
            &&& ws_in_convention(s.values[i].following, nl)
        }
}

/// The names of a header and the comments between them are in the
/// convention `nl`.
pub open spec fn names_in_convention(s: SeparatedView<Seq<char>>, nl: Newline) -> bool {
    &&& ws_in_convention(s.trailing_ws, nl)
    &&& forall|i: int|
        0 <= i < s.values.len() ==> {
            &&& ws_in_convention((#[trigger] s.values[i]).leading, nl)
            &&& keeps_convention(s.values[i].content, nl)
            &&& ws_in_convention(s.values[i].following, nl)
        }
}

/// The names and the comments of a header are in the convention `nl`.
pub open spec fn extension_in_convention(e: WsLeadView<AttributeView>, nl: Newline) -> bool {
    &&& ws_in_convention(e.leading, nl)
    &&& ws_in_convention(e.content.after_pound, nl)
    &&& ws_in_convention(e.content.after_exclamation, nl)
    &&& ws_in_convention(e.content.after_bracket, nl)
    &&& ws_in_convention(e.content.after_enable, nl)
    &&& names_in_convention(e.content.extensions, nl)
    &&& ws_in_convention(e.content.after_paren, nl)
}

/// Every text that is copied from the document is in the convention `nl`.
/// The line feeds of each comment are: those of a block comment, and those
/// of a line comment before the line ending that ends it. Each scalar
/// literal, key, identifier and name can stand behind a line ending: its
/// line feeds are in the convention, and where the convention is a line feed
/// alone, it does not start with a carriage return. And each string literal
/// can be rewritten to the convention.
pub open spec fn file_in_convention(file: FileView, nl: Newline) -> bool {
    &&& forall|i: int|
        0 <= i < file.extensions.len() ==> extension_in_convention(
            #[trigger] file.extensions[i],
            nl,
        )
    &&& ws_in_convention(file.value.leading, nl)
    &&& value_in_convention(file.value.content, nl)
    &&& ws_in_convention(file.trailing_ws, nl)
}

/// An identifier that is in the convention renders in it.
proof fn lemma_option_convention(ident: Option<WsFollowedView<Seq<char>>>, c: ContextView)
    requires
        ident_in_convention(ident, c.nl),
    ensures
        keeps_convention(spec_option(ident, c), c.nl),
{
    match ident {
        Some(ident) => {
            lemma_ws_convention(ident.following, c);
            lemma_keeps_joined(ident.content, spec_ws_min(ident.following, c), c.nl);
        },
        None => {
            lemma_nothing_keeps(c.nl);
        },
    }
}

/// A head, a body and a closing delimiter that are in the convention are in
/// it when joined.
proof fn lemma_delimited_convention(head: Seq<char>, body: Seq<char>, close: Seq<char>, nl: Newline)
    requires
        keeps_convention(head, nl),
        keeps_convention(body, nl),
        plain(close),
    ensures
        keeps_convention(head + body + close, nl),
{
    lemma_plain_keeps(close, nl);
    lemma_keeps_joined(head, body, nl);
    lemma_keeps_joined(head + body, close, nl);
}

/// A value whose copied texts are in the convention of the document renders
/// in it.
pub proof fn lemma_value_convention(v: ValueView, c: ContextView)
    requires
        value_in_convention(v, c.nl),
    ensures
        keeps_convention(spec_value(v, c), c.nl),
    decreases v, 1nat,
{
    lemma_punctuation_plain();
    match v {
        ValueView::Int(text)
        | ValueView::Float(text)
        | ValueView::Bool(text)
        | ValueView::Unit(text)
        | ValueView::Char(text) => {},
        ValueView::Str(text) => {
            lemma_normalized_keeps(text, c.nl);
        },
        ValueView::List(items) => {
            lemma_values_convention(items, c.increase());
            lemma_separated_convention(spec_values(items, c.increase()), c);
            lemma_plain_keeps("["@, c.nl);
            lemma_delimited_convention(
                "["@,
                spec_separated_split(spec_values(items, c.increase()), c),
                "]"@,
                c.nl,
            );
        },
        ValueView::Mapping(entries) => {
            lemma_entries_convention(entries, c.increase());
            lemma_separated_convention(spec_entries(entries, c.increase()), c);
            lemma_plain_keeps("{"@, c.nl);
            lemma_delimited_convention(
                "{"@,
                spec_separated_split(spec_entries(entries, c.increase()), c),
                "}"@,
                c.nl,
            );
        },
        ValueView::Tuple { ident, fields } => {
            let name = spec_option(ident, c);
            lemma_option_convention(ident, c);
            lemma_plain_keeps("("@, c.nl);
            lemma_keeps_joined(name, "("@, c.nl);
            if fields.values.len() > 1 {
                lemma_values_convention(fields, c.increase());
                lemma_separated_convention(spec_values(fields, c.increase()), c);
                lemma_delimited_convention(
                    name + "("@,
                    spec_separated_split(spec_values(fields, c.increase()), c),
                    ")"@,
                    c.nl,
                );
            } else {
                lemma_values_convention(fields, c);
                lemma_separated_convention(spec_values(fields, c), c);
                lemma_delimited_convention(
                    name + "("@,
                    spec_separated_min(spec_values(fields, c), c),
                    ")"@,
                    c.nl,
                );
            }
        },
        ValueView::Struct { ident, fields } => {
            let name = spec_option(ident, c);
            lemma_option_convention(ident, c);
            lemma_plain_keeps("("@, c.nl);
            lemma_keeps_joined(name, "("@, c.nl);
            lemma_entries_convention(fields, c.increase());
            lemma_separated_convention(spec_entries(fields, c.increase()), c);
            lemma_delimited_convention(
                name + "("@,
                spec_separated_split(spec_entries(fields, c.increase()), c),
                ")"@,
                c.nl,
            );
        },
    }
}

/// An entry whose copied texts are in the convention of the document renders
/// in it.
proof fn lemma_entry_convention(e: EntryView, c: ContextView)
    requires
        entry_in_convention(e, c.nl),
    ensures
        keeps_convention(spec_entry(e, c), c.nl),
    decreases e, 1nat,
{
    let after_key = spec_ws_min(e.after_key, c);
    let leading = spec_ws_single(e.value.leading, c);
    let content = spec_value(e.value.content, c);
    lemma_punctuation_plain();
    lemma_plain_keeps(":"@, c.nl);
    lemma_ws_convention(e.after_key, c);
    lemma_ws_convention(e.value.leading, c);
    lemma_value_convention(e.value.content, c);
    lemma_keeps_joined(e.key, after_key, c.nl);
    lemma_keeps_joined(e.key + after_key, ":"@, c.nl);
    lemma_keeps_joined(leading, content, c.nl);
    lemma_keeps_joined(e.key + after_key + ":"@, leading + content, c.nl);
}

/// The texts of values whose copied texts are in the convention of the
/// document are in it.
proof fn lemma_values_convention(s: SeparatedView<ValueView>, c: ContextView)
    requires
        values_in_convention(s, c.nl),
    ensures
        separated_keeps_convention(spec_values(s, c), c.nl),
    decreases s, 0nat,
{
    let texts = spec_values(s, c);
    lemma_spec_values(s, c);
    assert forall|i: int| 0 <= i < texts.values.len() implies item_keeps_convention(
        #[trigger] texts.values[i],
        c.nl,
    ) by {
        assert(ws_in_convention(s.values[i].leading, c.nl));
        lemma_value_convention(s.values[i].content, c);
    }
}

/// The texts of entries whose copied texts are in the convention of the
/// document are in it.
proof fn lemma_entries_convention(s: SeparatedView<EntryView>, c: ContextView)
    requires
        entries_in_convention(s, c.nl),
    ensures
        separated_keeps_convention(spec_entries(s, c), c.nl),
    decreases s, 0nat,
{
    let texts = spec_entries(s, c);
    lemma_spec_entries(s, c);
    assert forall|i: int| 0 <= i < texts.values.len() implies item_keeps_convention(
        #[trigger] texts.values[i],
        c.nl,
    ) by {
        assert(ws_in_convention(s.values[i].leading, c.nl));
        lemma_entry_convention(s.values[i].content, c);
    }
}

/// A header whose names and comments are in the convention of the document
/// renders in it.
proof fn lemma_extension_convention(e: WsLeadView<AttributeView>, c: ContextView)
    requires
        extension_in_convention(e, c.nl),
    ensures
        keeps_convention(spec_extension(e, c), c.nl),
{
    let a = e.content;
    let nl = c.nl;
    lemma_punctuation_plain();
    lemma_plain_keeps("#"@, nl);
    lemma_plain_keeps("!"@, nl);
    lemma_plain_keeps("["@, nl);
    lemma_plain_keeps("enable"@, nl);
    lemma_plain_keeps("("@, nl);
    lemma_plain_keeps(")"@, nl);
    lemma_plain_keeps("]"@, nl);
    lemma_ws_convention(e.leading, c);
    lemma_ws_convention(a.after_pound, c);
    lemma_ws_convention(a.after_exclamation, c);
    lemma_ws_convention(a.after_bracket, c);
    lemma_ws_convention(a.after_enable, c);
    lemma_ws_convention(a.after_paren, c);
    assert(separated_keeps_convention(a.extensions, nl)) by {
        assert forall|i: int| 0 <= i < a.extensions.values.len() implies item_keeps_convention(
            #[trigger] a.extensions.values[i],
            nl,
        ) by {
            assert(ws_in_convention(a.extensions.values[i].leading, nl));
        }
    }
    lemma_separated_convention(a.extensions, c);
    let t0 = spec_ws_min(e.leading, c);
    let t1 = t0 + "#"@;
    let t2 = t1 + spec_ws_min(a.after_pound, c);
    let t3 = t2 + "!"@;
    let t4 = t3 + spec_ws_min(a.after_exclamation, c);
    let t5 = t4 + "["@;
    let t6 = t5 + spec_ws_min(a.after_bracket, c);
    let t7 = t6 + "enable"@;
    let t8 = t7 + spec_ws_min(a.after_enable, c);
    let t9 = t8 + "("@;
    let t10 = t9 + spec_separated_min(a.extensions, c);
    let t11 = t10 + ")"@;
    let t12 = t11 + spec_ws_min(a.after_paren, c);
    lemma_keeps_joined(t0, "#"@, nl);
    lemma_keeps_joined(t1, spec_ws_min(a.after_pound, c), nl);
    lemma_keeps_joined(t2, "!"@, nl);
    lemma_keeps_joined(t3, spec_ws_min(a.after_exclamation, c), nl);
    lemma_keeps_joined(t4, "["@, nl);
    lemma_keeps_joined(t5, spec_ws_min(a.after_bracket, c), nl);
    lemma_keeps_joined(t6, "enable"@, nl);
    lemma_keeps_joined(t7, spec_ws_min(a.after_enable, c), nl);
    lemma_keeps_joined(t8, "("@, nl);
    lemma_keeps_joined(t9, spec_separated_min(a.extensions, c), nl);
    lemma_keeps_joined(t10, ")"@, nl);
    lemma_keeps_joined(t11, spec_ws_min(a.after_paren, c), nl);
    lemma_keeps_joined(t12, "]"@, nl);
}

/// The first `n` headers render in the convention of the document where
/// their names and comments are in it.
proof fn lemma_extensions_convention(
    es: Seq<WsLeadView<AttributeView>>,
    c: ContextView,
    n: int,
)
    requires
        0 <= n <= es.len(),
        forall|i: int| 0 <= i < es.len() ==> extension_in_convention(#[trigger] es[i], c.nl),
    ensures
        keeps_convention(spec_extensions_first(es, c, n), c.nl),
    decreases n,
{
    if n == 0 {
        lemma_nothing_keeps(c.nl);
    } else {
        lemma_extensions_convention(es, c, n - 1);
        lemma_extension_convention(es[n - 1], c);
        lemma_keeps_joined(
            spec_extensions_first(es, c, n - 1),
            spec_extension(es[n - 1], c),
            c.nl,
        );
    }
}

/// One convention of line endings in the whole output. Where every text that
/// is copied from the document is in the convention `nl`, every line feed of
/// the rendered document is: the line feeds that the layout puts there, the
/// line feeds inside string literals, and the line feeds of the copied texts
/// alike.
pub proof fn lemma_line_breaks_follow_convention(file: FileView, nl: Newline)
    requires
        file_in_convention(file, nl),
    ensures
        follows_convention(spec_format_with(file, nl), nl),
{
    let c = ContextView { indent: 0, nl };
    let headers = spec_extensions(file.extensions, c);
    let value = spec_value(file.value.content, c);
    let trailing = spec_ws_nl(file.trailing_ws, c);
    lemma_extensions_convention(file.extensions, c, file.extensions.len() as int);
    lemma_ws_convention(file.value.leading, c);
    lemma_ws_convention(file.trailing_ws, c);
    lemma_value_convention(file.value.content, c);
    if file.extensions.len() == 0 {
        let body = spec_ws_min(file.value.leading, c) + value;
        lemma_keeps_joined(spec_ws_min(file.value.leading, c), value, nl);
        lemma_keeps_joined(headers, body, nl);
        lemma_keeps_joined(headers + body, trailing, nl);
    } else {
        let body = spec_ws_nl(file.value.leading, c) + value + spec_ws_min(file.trailing_ws, c);
        lemma_keeps_joined(spec_ws_nl(file.value.leading, c), value, nl);
        lemma_keeps_joined(
            spec_ws_nl(file.value.leading, c) + value,
            spec_ws_min(file.trailing_ws, c),
            nl,
        );
        lemma_keeps_joined(headers, body, nl);
        lemma_keeps_joined(headers + body, trailing, nl);
    }
}

/// The rendered document holds a line feed: it ends its last line.
proof fn lemma_output_has_line_break(file: FileView, nl: Newline)
    ensures
        has_line_break(spec_format_with(file, nl)),
{
    let c = ContextView { indent: 0, nl };
    let out = spec_format_with(file, nl);
    let trailing = spec_ws_nl(file.trailing_ws, c);
    let start = c.line_start();
    lemma_ws_nl_ends_line(file.trailing_ws, c);
    reveal_strlit("\n");
    reveal_strlit("\n\r");
    assert(start[0] == '\n') by {
        assert(start[0] == nl.text()[0]);
    }
    let at = trailing.len() - start.len();
    assert(trailing[at] == '\n') by {
        assert(trailing.subrange(at, trailing.len() as int)[0] == start[0]);
    }
    assert(out[out.len() - trailing.len() + at] == '\n');
    reveal(has_line_break);
}

/// The rendered document is in the convention in which it was rendered.
/// Where every text that is copied from the document is in the convention
/// `nl`, the convention that is found in the rendered document is `nl`.
pub proof fn lemma_output_keeps_convention(file: FileView, nl: Newline)
    requires
        file_in_convention(file, nl),
    ensures
        spec_convention(spec_format_with(file, nl)) == nl,
{
    let out = spec_format_with(file, nl);
    lemma_line_breaks_follow_convention(file, nl);
    lemma_output_has_line_break(file, nl);
    if nl is Lf {
        reveal(has_line_break);
        reveal(follows_convention);
        let at = choose|i: int| 0 <= i < out.len() && out[i] == '\n';
        assert(!carriage_return_behind(out, at));
    }
}

} // verus!
