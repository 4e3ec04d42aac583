//! No comment is lost: wherever a comment stands in a document, its text
//! stands in the rendered document, between its delimiters.

use vstd::prelude::*;

use crate::context::{ContextView, Newline};
use crate::document::{spec_extension, spec_extensions, spec_extensions_first, spec_format_with};
use crate::joined::{
    lemma_occurs_in_back, lemma_occurs_in_front, lemma_occurs_in_itself, lemma_occurs_in_middle,
    lemma_occurs_in_part, occurs_in,
};
use crate::layout::{
    lemma_spec_entries, lemma_spec_values, spec_entries, spec_entry, spec_min_first, spec_min_items,
    spec_option, spec_separated_min, spec_separated_split, spec_split_first, spec_split_items,
    spec_value, spec_values, spec_ws_wrapped_leading_nl, spec_ws_wrapped_leading_single,
    spec_ws_wrapped_min,
};
use crate::model::{
    AttributeView, EntryView, FileView, SeparatedView, ValueView, WsFollowedView, WsLeadView,
    WsView, WsWrappedView,
};
use crate::text::{spec_delimited_with_spaces, spec_start_with_space, spec_without_trailing_nl};
use crate::whitespace::{
    spec_separator, spec_space_owed, spec_space_owed_after, spec_ws_first, spec_ws_inner,
    spec_ws_min, spec_ws_nl, spec_ws_single,
};

verus! {

/// The text that a comment carries: for a line comment what follows the
/// `//`, without the line ending; for a block comment what stands between
/// `/*` and `*/`.
pub open spec fn spec_comment_text(ws: WsView) -> Seq<char> {
    match ws {
        WsView::LineComment(text) => spec_without_trailing_nl(text),
        WsView::Space => Seq::empty(),
        WsView::BlockComment(text) => text,
    }
}

/// A comment as it is rendered: a line comment from its `//` to the line
/// ending of the document, a block comment from its `/*` to its `*/`; in both
/// the text is padded with a space at a side where it has no whitespace.
pub open spec fn spec_comment(ws: WsView, nl: Newline) -> Seq<char> {
    match ws {
        WsView::LineComment(text) => "//"@ + spec_start_with_space(spec_without_trailing_nl(text))
            + nl.text(),
        WsView::Space => Seq::empty(),
        WsView::BlockComment(text) => "/*"@ + spec_delimited_with_spaces(text) + "*/"@,
    }
}

/// `comment` is a comment, and it stands in the run `ws`.
pub open spec fn ws_has(ws: Seq<WsView>, comment: WsView) -> bool {
    comment !is Space && ws.contains(comment)
}

/// The text of a comment stands in the rendered comment as it was written.
pub proof fn lemma_comment_keeps_its_text(ws: WsView, nl: Newline)
    ensures
        occurs_in(spec_comment_text(ws), spec_comment(ws, nl)),
{
    let text = spec_comment_text(ws);
    lemma_occurs_in_itself(text);
    match ws {
        WsView::LineComment(_) => {
            let padded = spec_start_with_space(text);
            assert(occurs_in(text, padded)) by {
                if padded != text {
                    lemma_occurs_in_back(text, " "@, text);
                }
            }
            lemma_occurs_in_middle(text, "//"@, padded, nl.text());
        },
        WsView::Space => {},
        WsView::BlockComment(_) => {
            let padded = spec_delimited_with_spaces(text);
            let front = if crate::text::starts_with_space(text) {
                text
            } else {
                " "@ + text
            };
            assert(occurs_in(text, front)) by {
                if front != text {
                    lemma_occurs_in_back(text, " "@, text);
                }
            }
            assert(occurs_in(text, padded)) by {
                lemma_occurs_in_front(
                    text,
                    front,
                    if crate::text::ends_with_space(text) {
                        Seq::<char>::empty()
                    } else {
                        " "@
                    },
                );
            }
            lemma_occurs_in_middle(text, "/*"@, padded, "*/"@);
        },
    }
}

/// A comment stands, rendered, in what it renders to as a piece of
/// whitespace.
pub proof fn lemma_ws_inner_keeps(comment: WsView, c: ContextView, space: bool)
    requires
        comment !is Space,
    ensures
        occurs_in(spec_comment(comment, c.nl), spec_ws_inner(comment, c, space)),
{
    let rendered = spec_comment(comment, c.nl);
    let owed = spec_separator(space);
    lemma_occurs_in_itself(rendered);
    match comment {
        WsView::LineComment(text) => {
            let padded = spec_start_with_space(spec_without_trailing_nl(text));
            let indent = crate::context::spec_indent(c.indent);
            lemma_occurs_in_middle(rendered, owed, rendered, indent);
            assert(owed + "//"@ + padded + (c.nl.text() + indent) =~= owed + ("//"@ + padded
                + c.nl.text()) + indent);
        },
        WsView::Space => {},
        WsView::BlockComment(text) => {
            let padded = spec_delimited_with_spaces(text);
            lemma_occurs_in_back(rendered, owed, rendered);
            assert(owed + "/*"@ + padded + "*/"@ =~= owed + ("/*"@ + padded + "*/"@));
        },
    }
}

/// A comment among the first `n` pieces of a run stands, rendered, in those
/// pieces rendered.
proof fn lemma_ws_first_keeps(ws: Seq<WsView>, c: ContextView, n: int, i: int)
    requires
        0 <= i < n <= ws.len(),
        ws[i] !is Space,
    ensures
        occurs_in(spec_comment(ws[i], c.nl), spec_ws_first(ws, c, n)),
    decreases n,
{
    let rendered = spec_comment(ws[i], c.nl);
    let front = spec_ws_first(ws, c, n - 1);
    let back = spec_ws_inner(ws[n - 1], c, spec_space_owed_after(ws, n - 1));
    if i == n - 1 {
        lemma_ws_inner_keeps(ws[i], c, spec_space_owed_after(ws, n - 1));
        lemma_occurs_in_back(rendered, front, back);
    } else {
        lemma_ws_first_keeps(ws, c, n - 1, i);
        lemma_occurs_in_front(rendered, front, back);
    }
}

/// A comment of a run stands, rendered, in the run rendered with nothing
/// added.
proof fn lemma_ws_min_keeps(ws: Seq<WsView>, c: ContextView, comment: WsView)
    requires
        ws_has(ws, comment),
    ensures
        occurs_in(spec_comment(comment, c.nl), spec_ws_min(ws, c)),
{
    let i = choose|i: int| 0 <= i < ws.len() && ws[i] == comment;
    lemma_ws_first_keeps(ws, c, ws.len() as int, i);
}

/// A comment of a run stands, rendered, in the run rendered by each of the
/// three policies.
pub proof fn lemma_ws_keeps(ws: Seq<WsView>, c: ContextView, comment: WsView)
    requires
        ws_has(ws, comment),
    ensures
        occurs_in(spec_comment(comment, c.nl), spec_ws_min(ws, c)),
        occurs_in(spec_comment(comment, c.nl), spec_ws_single(ws, c)),
        occurs_in(spec_comment(comment, c.nl), spec_ws_nl(ws, c)),
{
    let rendered = spec_comment(comment, c.nl);
    lemma_ws_min_keeps(ws, c, comment);
    lemma_occurs_in_front(rendered, spec_ws_min(ws, c), " "@);
    lemma_occurs_in_front(
        rendered,
        spec_ws_min(ws, c),
        if spec_space_owed(ws) {
            c.line_start()
        } else {
            Seq::<char>::empty()
        },
    );
}

/// The text `x` stands in one of the three parts that an item is rendered
/// from: its leading whitespace, its content, its following whitespace.
spec fn item_keeps(item: WsWrappedView<Seq<char>>, c: ContextView, x: Seq<char>) -> bool {
    ||| occurs_in(x, spec_ws_min(item.leading, c))
    ||| occurs_in(x, item.content)
    ||| occurs_in(x, spec_ws_min(item.following, c))
}

/// What stands in a part of an item stands in the item, however its leading
/// whitespace is rendered.
proof fn lemma_wrapped_keeps(item: WsWrappedView<Seq<char>>, c: ContextView, x: Seq<char>)
    requires
        item_keeps(item, c, x),
    ensures
        occurs_in(x, spec_ws_wrapped_min(item, c)),
        occurs_in(x, spec_ws_wrapped_leading_single(item, c)),
        occurs_in(x, spec_ws_wrapped_leading_nl(item, c)),
{
    let lead = spec_ws_min(item.leading, c);
    let single = spec_ws_single(item.leading, c);
    let nl = spec_ws_nl(item.leading, c);
    let follow = spec_ws_min(item.following, c);
    if occurs_in(x, lead) {
        lemma_occurs_in_front(x, lead, " "@);
        lemma_occurs_in_front(
            x,
            lead,
            if spec_space_owed(item.leading) {
                c.line_start()
            } else {
                Seq::<char>::empty()
            },
        );
        lemma_occurs_in_front(x, lead, item.content);
        lemma_occurs_in_front(x, single, item.content);
        lemma_occurs_in_front(x, nl, item.content);
        lemma_occurs_in_front(x, lead + item.content, follow);
        lemma_occurs_in_front(x, single + item.content, follow);
        lemma_occurs_in_front(x, nl + item.content, follow);
    } else if occurs_in(x, item.content) {
        lemma_occurs_in_middle(x, lead, item.content, follow);
        lemma_occurs_in_middle(x, single, item.content, follow);
        lemma_occurs_in_middle(x, nl, item.content, follow);
    } else {
        lemma_occurs_in_back(x, lead + item.content, follow);
        lemma_occurs_in_back(x, single + item.content, follow);
        lemma_occurs_in_back(x, nl + item.content, follow);
    }
}

/// What stands in a part of one of the first `n` items stands in those
/// items laid out one on each line.
proof fn lemma_split_first_keeps(
    items: Seq<WsWrappedView<Seq<char>>>,
    c: ContextView,
    n: int,
    i: int,
    x: Seq<char>,
)
    requires
        0 <= i < n <= items.len(),
        item_keeps(items[i], c, x),
    ensures
        occurs_in(x, spec_split_first(items, c, n)),
    decreases n,
{
    let front = spec_split_first(items, c, n - 1);
    let last = spec_ws_wrapped_leading_nl(items[n - 1], c);
    if i == n - 1 {
        lemma_wrapped_keeps(items[i], c, x);
        lemma_occurs_in_middle(x, front, last, ","@);
    } else {
        lemma_split_first_keeps(items, c, n - 1, i, x);
        lemma_occurs_in_front(x, front, last);
        lemma_occurs_in_front(x, front + last, ","@);
    }
}

/// What stands in a part of one of the first `n` items stands in those
/// items laid out on one line.
proof fn lemma_min_first_keeps(
    items: Seq<WsWrappedView<Seq<char>>>,
    c: ContextView,
    n: int,
    i: int,
    x: Seq<char>,
)
    requires
        0 <= i < n <= items.len(),
        item_keeps(items[i], c, x),
    ensures
        occurs_in(x, spec_min_first(items, c, n)),
    decreases n,
{
    if n == 1 {
        lemma_wrapped_keeps(items[0], c, x);
    } else {
        let front = spec_min_first(items, c, n - 1);
        let last = spec_ws_wrapped_leading_single(items[n - 1], c);
        if i == n - 1 {
            lemma_wrapped_keeps(items[i], c, x);
            lemma_occurs_in_back(x, front + ","@, last);
        } else {
            lemma_min_first_keeps(items, c, n - 1, i, x);
            lemma_occurs_in_front(x, front, ","@);
            lemma_occurs_in_front(x, front + ","@, last);
        }
    }
}

/// The text `x` stands in a part of an item of `s`, rendered at `inner`, or
/// in the trailing whitespace of `s`, rendered at `c`.
spec fn separated_keeps(
    s: SeparatedView<Seq<char>>,
    inner: ContextView,
    c: ContextView,
    x: Seq<char>,
) -> bool {
    ||| occurs_in(x, spec_ws_min(s.trailing_ws, c))
    ||| exists|i: int| 0 <= i < s.values.len() && item_keeps(#[trigger] s.values[i], inner, x)
}

/// What stands in a part of a sequence stands in its split layout.
proof fn lemma_separated_split_keeps(s: SeparatedView<Seq<char>>, c: ContextView, x: Seq<char>)
    requires
        separated_keeps(s, c.increase(), c, x),
    ensures
        occurs_in(x, spec_separated_split(s, c)),
{
    let items = spec_split_items(s.values, c.increase());
    let trailing = spec_ws_nl(s.trailing_ws, c);
    if occurs_in(x, spec_ws_min(s.trailing_ws, c)) {
        lemma_occurs_in_front(
            x,
            spec_ws_min(s.trailing_ws, c),
            if spec_space_owed(s.trailing_ws) {
                c.line_start()
            } else {
                Seq::<char>::empty()
            },
        );
        lemma_occurs_in_back(x, items, trailing);
    } else {
        let i = choose|i: int|
            0 <= i < s.values.len() && item_keeps(#[trigger] s.values[i], c.increase(), x);
        lemma_split_first_keeps(s.values, c.increase(), s.values.len() as int, i, x);
        lemma_occurs_in_front(x, items, trailing);
    }
}

/// What stands in a part of a sequence stands in its minimal layout.
proof fn lemma_separated_min_keeps(s: SeparatedView<Seq<char>>, c: ContextView, x: Seq<char>)
    requires
        separated_keeps(s, c, c, x),
    ensures
        occurs_in(x, spec_separated_min(s, c)),
{
    let items = spec_min_items(s.values, c);
    let trailing = spec_ws_min(s.trailing_ws, c);
    if occurs_in(x, trailing) {
        lemma_occurs_in_back(x, items, trailing);
    } else {
        let i = choose|i: int| 0 <= i < s.values.len() && item_keeps(#[trigger] s.values[i], c, x);
        lemma_min_first_keeps(s.values, c, s.values.len() as int, i, x);
        lemma_occurs_in_front(x, items, trailing);
    }
}

/// `comment` is a comment behind the identifier of a tuple or a struct.
pub open spec fn ident_has(ident: Option<WsFollowedView<Seq<char>>>, comment: WsView) -> bool {
    ident matches Some(ident) && ws_has(ident.following, comment)
}

/// `comment` is a comment somewhere in the value `v`.
pub open spec fn value_has(v: ValueView, comment: WsView) -> bool
    decreases v,
{
    match v {
        ValueView::List(items) => values_have(items, comment),
        ValueView::Mapping(entries) => entries_have(entries, comment),
        ValueView::Tuple { ident, fields } => ident_has(ident, comment) || values_have(
            fields,
            comment,
        ),
        ValueView::Struct { ident, fields } => ident_has(ident, comment) || entries_have(
            fields,
            comment,
        ),
        _ => false,
    }
}

/// `comment` is a comment somewhere in the entry `e`.
pub open spec fn entry_has(e: EntryView, comment: WsView) -> bool
    decreases e,
{
    ||| ws_has(e.after_key, comment)
    ||| ws_has(e.value.leading, comment)
    ||| value_has(e.value.content, comment)
}

/// `comment` is a comment somewhere in the sequence of values `s`.
pub open spec fn values_have(s: SeparatedView<ValueView>, comment: WsView) -> bool
    decreases s,
{
    ||| ws_has(s.trailing_ws, comment)
    ||| exists|i: int|
        0 <= i < s.values.len() && (ws_has((#[trigger] s.values[i]).leading, comment) || value_has(
            s.values[i].content,
            comment,
        ) || ws_has(s.values[i].following, comment))
}

/// `comment` is a comment somewhere in the sequence of entries `s`.
pub open spec fn entries_have(s: SeparatedView<EntryView>, comment: WsView) -> bool
    decreases s,
{
    ||| ws_has(s.trailing_ws, comment)
    ||| exists|i: int|
        0 <= i < s.values.len() && (ws_has((#[trigger] s.values[i]).leading, comment) || entry_has(
            s.values[i].content,
            comment,
        ) || ws_has(s.values[i].following, comment))
}

/// `comment` is a comment somewhere in the sequence of names `s`.
pub open spec fn names_have(s: SeparatedView<Seq<char>>, comment: WsView) -> bool {
    ||| ws_has(s.trailing_ws, comment)
    ||| exists|i: int|
        0 <= i < s.values.len() && (ws_has((#[trigger] s.values[i]).leading, comment) || ws_has(
            s.values[i].following,
            comment,
        ))
}

/// `comment` is a comment somewhere in the header `e`.
pub open spec fn extension_has(e: WsLeadView<AttributeView>, comment: WsView) -> bool {
    ||| ws_has(e.leading, comment)
    ||| ws_has(e.content.after_pound, comment)
    ||| ws_has(e.content.after_exclamation, comment)
    ||| ws_has(e.content.after_bracket, comment)
    ||| ws_has(e.content.after_enable, comment)
    ||| names_have(e.content.extensions, comment)
    ||| ws_has(e.content.after_paren, comment)
}

/// `comment` is a comment somewhere in the document.
pub open spec fn file_has(file: FileView, comment: WsView) -> bool {
    ||| exists|i: int|
        0 <= i < file.extensions.len() && extension_has(#[trigger] file.extensions[i], comment)
    ||| ws_has(file.value.leading, comment)
    ||| value_has(file.value.content, comment)
    ||| ws_has(file.trailing_ws, comment)
}

/// A comment behind an identifier stands, rendered, in the rendered
/// identifier.
proof fn lemma_option_keeps(
    ident: Option<WsFollowedView<Seq<char>>>,
    c: ContextView,
    comment: WsView,
)
    requires
        ident_has(ident, comment),
    ensures
        occurs_in(spec_comment(comment, c.nl), spec_option(ident, c)),
{
    let ident = ident->0;
    lemma_ws_keeps(ident.following, c, comment);
    lemma_occurs_in_back(
        spec_comment(comment, c.nl),
        ident.content,
        spec_ws_min(ident.following, c),
    );
}

/// A comment in a value stands, rendered, in the rendered value.
pub proof fn lemma_value_keeps(v: ValueView, c: ContextView, comment: WsView)
    requires
        value_has(v, comment),
    ensures
        occurs_in(spec_comment(comment, c.nl), spec_value(v, c)),
    decreases v, 1nat,
{
    let x = spec_comment(comment, c.nl);
    match v {
        ValueView::List(items) => {
            let body = spec_separated_split(spec_values(items, c.increase()), c);
            lemma_values_keep(items, c.increase(), c, comment);
            lemma_separated_split_keeps(spec_values(items, c.increase()), c, x);
            lemma_occurs_in_middle(x, "["@, body, "]"@);
        },
        ValueView::Mapping(entries) => {
            let body = spec_separated_split(spec_entries(entries, c.increase()), c);
            lemma_entries_keep(entries, c.increase(), c, comment);
            lemma_separated_split_keeps(spec_entries(entries, c.increase()), c, x);
            lemma_occurs_in_middle(x, "{"@, body, "}"@);
        },
        ValueView::Tuple { ident, fields } => {
            let name = spec_option(ident, c);
            let body = if fields.values.len() > 1 {
                spec_separated_split(spec_values(fields, c.increase()), c)
            } else {
                spec_separated_min(spec_values(fields, c), c)
            };
            if ident_has(ident, comment) {
                lemma_option_keeps(ident, c, comment);
                lemma_occurs_in_front(x, name, "("@);
                lemma_occurs_in_front(x, name + "("@, body);
                lemma_occurs_in_front(x, name + "("@ + body, ")"@);
            } else {
                if fields.values.len() > 1 {
                    lemma_values_keep(fields, c.increase(), c, comment);
                    lemma_separated_split_keeps(spec_values(fields, c.increase()), c, x);
                } else {
                    lemma_values_keep(fields, c, c, comment);
                    lemma_separated_min_keeps(spec_values(fields, c), c, x);
                }
                lemma_occurs_in_middle(x, name + "("@, body, ")"@);
            }
        },
        ValueView::Struct { ident, fields } => {
            let name = spec_option(ident, c);
            let body = spec_separated_split(spec_entries(fields, c.increase()), c);
            if ident_has(ident, comment) {
                lemma_option_keeps(ident, c, comment);
                lemma_occurs_in_front(x, name, "("@);
                lemma_occurs_in_front(x, name + "("@, body);
                lemma_occurs_in_front(x, name + "("@ + body, ")"@);
            } else {
                lemma_entries_keep(fields, c.increase(), c, comment);
                lemma_separated_split_keeps(spec_entries(fields, c.increase()), c, x);
                lemma_occurs_in_middle(x, name + "("@, body, ")"@);
            }
        },
        _ => {},
    }
}

/// A comment in an entry stands, rendered, in the rendered entry.
proof fn lemma_entry_keeps(e: EntryView, c: ContextView, comment: WsView)
    requires
        entry_has(e, comment),
    ensures
        occurs_in(spec_comment(comment, c.nl), spec_entry(e, c)),
    decreases e, 1nat,
{
    let x = spec_comment(comment, c.nl);
    let after_key = spec_ws_min(e.after_key, c);
    let leading = spec_ws_single(e.value.leading, c);
    let content = spec_value(e.value.content, c);
    let head = e.key + after_key + ":"@;
    assert(spec_entry(e, c) == head + (leading + content));
    if ws_has(e.after_key, comment) {
        lemma_ws_keeps(e.after_key, c, comment);
        lemma_occurs_in_middle(x, e.key, after_key, ":"@);
        lemma_occurs_in_front(x, head, leading + content);
    } else if ws_has(e.value.leading, comment) {
        lemma_ws_keeps(e.value.leading, c, comment);
        lemma_occurs_in_middle(x, head, leading, content);
        assert(head + leading + content == head + (leading + content));
    } else {
        lemma_value_keeps(e.value.content, c, comment);
        lemma_occurs_in_back(x, leading, content);
        lemma_occurs_in_back(x, head, leading + content);
    }
}

/// A comment in a sequence of values stands, rendered, in a part of the
/// sequence of their texts.
proof fn lemma_values_keep(
    s: SeparatedView<ValueView>,
    inner: ContextView,
    c: ContextView,
    comment: WsView,
)
    requires
        values_have(s, comment),
        inner.nl == c.nl,
    ensures
        separated_keeps(spec_values(s, inner), inner, c, spec_comment(comment, c.nl)),
    decreases s, 0nat,
{
    let x = spec_comment(comment, c.nl);
    let texts = spec_values(s, inner);
    if ws_has(s.trailing_ws, comment) {
        lemma_ws_keeps(s.trailing_ws, c, comment);
    } else {
        let i = choose|i: int|
            0 <= i < s.values.len() && (ws_has((#[trigger] s.values[i]).leading, comment)
                || value_has(s.values[i].content, comment) || ws_has(
                s.values[i].following,
                comment,
            ));
        if ws_has(s.values[i].leading, comment) {
            lemma_ws_keeps(s.values[i].leading, inner, comment);
        } else if value_has(s.values[i].content, comment) {
            lemma_value_keeps(s.values[i].content, inner, comment);
        } else {
            lemma_ws_keeps(s.values[i].following, inner, comment);
        }
        lemma_spec_values(s, inner);
        assert(item_keeps(texts.values[i], inner, x));
    }
    lemma_spec_values(s, inner);
}

/// A comment in a sequence of entries stands, rendered, in a part of the
/// sequence of their texts.
proof fn lemma_entries_keep(
    s: SeparatedView<EntryView>,
    inner: ContextView,
    c: ContextView,
    comment: WsView,
)
    requires
        entries_have(s, comment),
        inner.nl == c.nl,
    ensures
        separated_keeps(spec_entries(s, inner), inner, c, spec_comment(comment, c.nl)),
    decreases s, 0nat,
{
    let x = spec_comment(comment, c.nl);
    let texts = spec_entries(s, inner);
    if ws_has(s.trailing_ws, comment) {
        lemma_ws_keeps(s.trailing_ws, c, comment);
    } else {
        let i = choose|i: int|
            0 <= i < s.values.len() && (ws_has((#[trigger] s.values[i]).leading, comment)
                || entry_has(s.values[i].content, comment) || ws_has(
                s.values[i].following,
                comment,
            ));
        if ws_has(s.values[i].leading, comment) {
            lemma_ws_keeps(s.values[i].leading, inner, comment);
        } else if entry_has(s.values[i].content, comment) {
            lemma_entry_keeps(s.values[i].content, inner, comment);
        } else {
            lemma_ws_keeps(s.values[i].following, inner, comment);
        }
        lemma_spec_entries(s, inner);
        assert(item_keeps(texts.values[i], inner, x));
    }
    lemma_spec_entries(s, inner);
}

/// A comment in a sequence of names stands, rendered, in a part of the
/// sequence.
proof fn lemma_names_keep(s: SeparatedView<Seq<char>>, c: ContextView, comment: WsView)
    requires
        names_have(s, comment),
    ensures
        separated_keeps(s, c, c, spec_comment(comment, c.nl)),
{
    let x = spec_comment(comment, c.nl);
    if ws_has(s.trailing_ws, comment) {
        lemma_ws_keeps(s.trailing_ws, c, comment);
    } else {
        let i = choose|i: int|
            0 <= i < s.values.len() && (ws_has((#[trigger] s.values[i]).leading, comment)
                || ws_has(s.values[i].following, comment));
        if ws_has(s.values[i].leading, comment) {
            lemma_ws_keeps(s.values[i].leading, c, comment);
        } else {
            lemma_ws_keeps(s.values[i].following, c, comment);
        }
        assert(item_keeps(s.values[i], c, x));
    }
}

/// A comment in a header stands, rendered, in the rendered header.
proof fn lemma_extension_keeps(e: WsLeadView<AttributeView>, c: ContextView, comment: WsView)
    requires
        extension_has(e, comment),
    ensures
        occurs_in(spec_comment(comment, c.nl), spec_extension(e, c)),
{
    let x = spec_comment(comment, c.nl);
    let a = e.content;
    let t0 = spec_ws_min(e.leading, c);
    let t1 = t0 + "#"@;
    let t2 = t1 + spec_ws_min(a.after_pound, c);
    let t3 = t2 + "!"@;
    let t4 = t3 + spec_ws_min(a.after_exclamation, c);
    let t5 = t4 + "["@;
    let t6 = t5 + spec_ws_min(a.after_bracket, c);
    let t7 = t6 + "enable"@;
    let t8 = t7 + spec_ws_min(a.after_enable, c);
    let t9 = t8 + "("@;
    let t10 = t9 + spec_separated_min(a.extensions, c);
    let t11 = t10 + ")"@;
    let t12 = t11 + spec_ws_min(a.after_paren, c);
    let t13 = t12 + "]"@;
    assert(spec_extension(e, c) == t13);
    if ws_has(e.leading, comment) {
        lemma_ws_keeps(e.leading, c, comment);
    } else if ws_has(a.after_pound, comment) {
        lemma_ws_keeps(a.after_pound, c, comment);
        lemma_occurs_in_back(x, t1, spec_ws_min(a.after_pound, c));
    } else if ws_has(a.after_exclamation, comment) {
        lemma_ws_keeps(a.after_exclamation, c, comment);
        lemma_occurs_in_back(x, t3, spec_ws_min(a.after_exclamation, c));
    } else if ws_has(a.after_bracket, comment) {
        lemma_ws_keeps(a.after_bracket, c, comment);
        lemma_occurs_in_back(x, t5, spec_ws_min(a.after_bracket, c));
    } else if ws_has(a.after_enable, comment) {
        lemma_ws_keeps(a.after_enable, c, comment);
        lemma_occurs_in_back(x, t7, spec_ws_min(a.after_enable, c));
    } else if names_have(a.extensions, comment) {
        lemma_names_keep(a.extensions, c, comment);
        lemma_separated_min_keeps(a.extensions, c, x);
        lemma_occurs_in_back(x, t9, spec_separated_min(a.extensions, c));
    } else {
        lemma_ws_keeps(a.after_paren, c, comment);
        lemma_occurs_in_back(x, t11, spec_ws_min(a.after_paren, c));
    }
    if occurs_in(x, t0) {
        lemma_occurs_in_front(x, t0, "#"@);
    }
    if occurs_in(x, t1) {
        lemma_occurs_in_front(x, t1, spec_ws_min(a.after_pound, c));
    }
    if occurs_in(x, t2) {
        lemma_occurs_in_front(x, t2, "!"@);
    }
    if occurs_in(x, t3) {
        lemma_occurs_in_front(x, t3, spec_ws_min(a.after_exclamation, c));
    }
    if occurs_in(x, t4) {
        lemma_occurs_in_front(x, t4, "["@);
    }
    if occurs_in(x, t5) {
        lemma_occurs_in_front(x, t5, spec_ws_min(a.after_bracket, c));
    }
    if occurs_in(x, t6) {
        lemma_occurs_in_front(x, t6, "enable"@);
    }
    if occurs_in(x, t7) {
        lemma_occurs_in_front(x, t7, spec_ws_min(a.after_enable, c));
    }
    if occurs_in(x, t8) {
        lemma_occurs_in_front(x, t8, "("@);
    }
    if occurs_in(x, t9) {
        lemma_occurs_in_front(x, t9, spec_separated_min(a.extensions, c));
    }
    if occurs_in(x, t10) {
        lemma_occurs_in_front(x, t10, ")"@);
    }
    if occurs_in(x, t11) {
        lemma_occurs_in_front(x, t11, spec_ws_min(a.after_paren, c));
    }
    if occurs_in(x, t12) {
        lemma_occurs_in_front(x, t12, "]"@);
    }
}

/// A comment in one of the first `n` headers stands, rendered, in those
/// headers rendered.
proof fn lemma_extensions_keep(
    es: Seq<WsLeadView<AttributeView>>,
    c: ContextView,
    n: int,
    i: int,
    comment: WsView,
)
    requires
        0 <= i < n <= es.len(),
        extension_has(es[i], comment),
    ensures
        occurs_in(spec_comment(comment, c.nl), spec_extensions_first(es, c, n)),
    decreases n,
{
    let x = spec_comment(comment, c.nl);
    let front = spec_extensions_first(es, c, n - 1);
    let last = spec_extension(es[n - 1], c);
    if i == n - 1 {
        lemma_extension_keeps(es[i], c, comment);
        lemma_occurs_in_back(x, front, last);
    } else {
        lemma_extensions_keep(es, c, n - 1, i, comment);
        lemma_occurs_in_front(x, front, last);
    }
}

/// No comment is lost. Every comment of a document stands in the rendered
/// document: from `//` to the end of its line, or from `/*` to `*/`, with a
/// space where its text has no whitespace at a side. So the text of the
/// comment stands there as it was written.
pub proof fn lemma_comments_are_kept(file: FileView, nl: Newline, comment: WsView)
    requires
        file_has(file, comment),
    ensures
        occurs_in(spec_comment(comment, nl), spec_format_with(file, nl)),
        occurs_in(spec_comment_text(comment), spec_format_with(file, nl)),
{
    let x = spec_comment(comment, nl);
    let c = ContextView { indent: 0, nl };
    let headers = spec_extensions(file.extensions, c);
    let leading = if file.extensions.len() == 0 {
        spec_ws_min(file.value.leading, c)
    } else {
        spec_ws_nl(file.value.leading, c)
    };
    let value = spec_value(file.value.content, c);
    let body = if file.extensions.len() == 0 {
        leading + value
    } else {
        leading + value + spec_ws_min(file.trailing_ws, c)
    };
    let trailing = spec_ws_nl(file.trailing_ws, c);
    let whole = spec_format_with(file, nl);
    assert(whole == headers + body + trailing);
    if ws_has(file.trailing_ws, comment) {
        lemma_ws_keeps(file.trailing_ws, c, comment);
        lemma_occurs_in_back(x, headers + body, trailing);
    } else if ws_has(file.value.leading, comment) || value_has(file.value.content, comment) {
        if ws_has(file.value.leading, comment) {
            lemma_ws_keeps(file.value.leading, c, comment);
            lemma_occurs_in_front(x, leading, value);
        } else {
            lemma_value_keeps(file.value.content, c, comment);
            lemma_occurs_in_back(x, leading, value);
        }
        if file.extensions.len() != 0 {
            lemma_occurs_in_front(x, leading + value, spec_ws_min(file.trailing_ws, c));
        }
        lemma_occurs_in_middle(x, headers, body, trailing);
    } else {
        let i = choose|i: int|
            0 <= i < file.extensions.len() && extension_has(#[trigger] file.extensions[i], comment);
        lemma_extensions_keep(file.extensions, c, file.extensions.len() as int, i, comment);
        lemma_occurs_in_front(x, headers, body);
        lemma_occurs_in_front(x, headers + body, trailing);
    }
    lemma_comment_keeps_its_text(comment, nl);
    lemma_occurs_in_part(spec_comment_text(comment), x, whole);
}

} // verus!
