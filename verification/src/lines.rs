//! Which values stay on one line and which are split: a tuple of one field
//! adds no line break of its own, and the fields of a longer tuple, or of a
//! struct, stand one on each line with a comma behind each.

use vstd::prelude::*;

use crate::context::{ContextView, Newline};
use crate::document::spec_format_with;
use crate::joined::{
    has_line_break, lemma_concat2, lemma_line_break_in_parts, lemma_no_line_break_in_nothing,
    lemma_occurs_in_back, lemma_occurs_in_front, lemma_occurs_in_middle, lemma_suffix_behind,
    lemma_suffix_occurs, lemma_suffix_of_joined, lemma_suffix_with_more, occurs_in,
};
use crate::layout::{
    lemma_spec_entries, lemma_spec_values, spec_entries, spec_entry, spec_min_first, spec_option,
    spec_separated_split, spec_split_first, spec_split_items, spec_value, spec_values,
    spec_ws_wrapped_leading_nl,
};
use crate::model::{
    EntryView, FileView, SeparatedView, ValueView, WsFollowedView, WsView, WsWrappedView,
};
use crate::text::{spec_delimited_with_spaces, spec_start_with_space, spec_without_trailing_nl};
use crate::whitespace::{
    spec_separator, spec_space_owed, spec_space_owed_after, spec_ws_first, spec_ws_inner,
    spec_ws_min, spec_ws_nl,
};

verus! {

/// A piece of whitespace that renders without a line feed: blanks, or a
/// block comment on one line.
pub open spec fn stays_on_line(ws: WsView) -> bool {
    match ws {
        WsView::LineComment(_) => false,
        WsView::Space => true,
        WsView::BlockComment(text) => !has_line_break(text),
    }
}

/// Every piece of the run renders without a line feed.
pub open spec fn ws_stays_on_line(ws: Seq<WsView>) -> bool {
    forall|i: int| 0 <= i < ws.len() ==> stays_on_line(#[trigger] ws[i])
}

/// A piece of whitespace renders with a line feed exactly where it is a line
/// comment, or a block comment over more than one line.
proof fn lemma_ws_inner_line_break(ws: WsView, c: ContextView, space: bool)
    ensures
        has_line_break(spec_ws_inner(ws, c, space)) <==> !stays_on_line(ws),
{
    let owed = spec_separator(space);
    assert(!has_line_break(owed) && !has_line_break(" "@)) by {
        reveal(has_line_break);
        reveal_strlit(" ");
    }
    match ws {
        WsView::LineComment(text) => {
            let head = owed + "//"@ + spec_start_with_space(spec_without_trailing_nl(text));
            assert(has_line_break(c.nl.text())) by {
                reveal(has_line_break);
                reveal_strlit("\n");
                reveal_strlit("\n\r");
                assert(c.nl.text()[0] == '\n');
            }
            lemma_line_break_in_parts(c.nl.text(), crate::context::spec_indent(c.indent));
            lemma_line_break_in_parts(head, c.line_start());
        },
        WsView::Space => {
            lemma_no_line_break_in_nothing();
        },
        WsView::BlockComment(text) => {
            let padded = spec_delimited_with_spaces(text);
            assert(!has_line_break("/*"@) && !has_line_break("*/"@)) by {
                reveal(has_line_break);
                reveal_strlit("/*");
                reveal_strlit("*/");
            }
            assert(has_line_break(padded) <==> has_line_break(text)) by {
                let front = if crate::text::starts_with_space(text) {
                    text
                } else {
                    " "@ + text
                };
                let back = if crate::text::ends_with_space(text) {
                    Seq::<char>::empty()
                } else {
                    " "@
                };
                lemma_no_line_break_in_nothing();
                lemma_line_break_in_parts(" "@, text);
                lemma_line_break_in_parts(front, back);
            }
            lemma_line_break_in_parts(owed, "/*"@);
            lemma_line_break_in_parts(owed + "/*"@, padded);
            lemma_line_break_in_parts(owed + "/*"@ + padded, "*/"@);
        },
    }
}

/// The first `n` pieces of a run render with a line feed exactly where one
/// of them does.
proof fn lemma_ws_first_line_break(ws: Seq<WsView>, c: ContextView, n: int)
    requires
        0 <= n <= ws.len(),
    ensures
        has_line_break(spec_ws_first(ws, c, n)) <==> exists|i: int|
            0 <= i < n && !stays_on_line(#[trigger] ws[i]),
    decreases n,
{
    if n == 0 {
        lemma_no_line_break_in_nothing();
    } else {
        lemma_ws_first_line_break(ws, c, n - 1);
        lemma_ws_inner_line_break(ws[n - 1], c, spec_space_owed_after(ws, n - 1));
        lemma_line_break_in_parts(
            spec_ws_first(ws, c, n - 1),
            spec_ws_inner(ws[n - 1], c, spec_space_owed_after(ws, n - 1)),
        );
        if exists|i: int| 0 <= i < n - 1 && !stays_on_line(#[trigger] ws[i]) {
            let i = choose|i: int| 0 <= i < n - 1 && !stays_on_line(#[trigger] ws[i]);
            assert(0 <= i < n && !stays_on_line(ws[i]));
        }
        if !stays_on_line(ws[n - 1]) {
            assert(0 <= n - 1 < n && !stays_on_line(ws[n - 1]));
        }
    }
}

/// Whitespace that is rendered with nothing added stays on its line exactly
/// where it holds no line comment and no block comment over more than one
/// line.
pub proof fn lemma_ws_min_line_break(ws: Seq<WsView>, c: ContextView)
    ensures
        has_line_break(spec_ws_min(ws, c)) <==> !ws_stays_on_line(ws),
{
    lemma_ws_first_line_break(ws, c, ws.len() as int);
}

/// A tuple of one field, or of none, is not split. Its text holds a line
/// feed only where a part of it holds one: the identifier with the
/// whitespace behind it, the field, or the whitespace around the field.
pub proof fn lemma_short_tuple_stays_on_line(
    ident: Option<WsFollowedView<Seq<char>>>,
    fields: SeparatedView<ValueView>,
    c: ContextView,
)
    requires
        fields.values.len() <= 1,
    ensures
        has_line_break(spec_value(ValueView::Tuple { ident, fields }, c)) <==> {
            ||| has_line_break(spec_option(ident, c))
            ||| fields.values.len() == 1 && {
                ||| has_line_break(spec_ws_min(fields.values[0].leading, c))
                ||| has_line_break(spec_value(fields.values[0].content, c))
                ||| has_line_break(spec_ws_min(fields.values[0].following, c))
            }
            ||| has_line_break(spec_ws_min(fields.trailing_ws, c))
        },
{
    let name = spec_option(ident, c);
    let texts = spec_values(fields, c);
    let items = spec_min_first(texts.values, c, texts.values.len() as int);
    let trailing = spec_ws_min(fields.trailing_ws, c);
    lemma_spec_values(fields, c);
    assert(!has_line_break("("@) && !has_line_break(")"@)) by {
        reveal(has_line_break);
        reveal_strlit("(");
        reveal_strlit(")");
    }
    if fields.values.len() == 1 {
        let f = fields.values[0];
        let leading = spec_ws_min(f.leading, c);
        let content = spec_value(f.content, c);
        let following = spec_ws_min(f.following, c);
        assert(items == leading + content + following);
        lemma_line_break_in_parts(leading, content);
        lemma_line_break_in_parts(leading + content, following);
    } else {
        lemma_no_line_break_in_nothing();
    }
    lemma_line_break_in_parts(items, trailing);
    lemma_line_break_in_parts(name, "("@);
    lemma_line_break_in_parts(name + "("@, items + trailing);
    lemma_line_break_in_parts(name + "("@ + (items + trailing), ")"@);
}

/// Where no separator is owed behind the first `n` pieces of a run, their
/// text ends with the start of a new line.
proof fn lemma_ws_first_ends_line(ws: Seq<WsView>, c: ContextView, n: int)
    requires
        0 <= n <= ws.len(),
        !spec_space_owed_after(ws, n),
    ensures
        c.line_start().is_suffix_of(spec_ws_first(ws, c, n)),
    decreases n,
{
    if n > 0 {
        let front = spec_ws_first(ws, c, n - 1);
        let owed = spec_separator(spec_space_owed_after(ws, n - 1));
        match ws[n - 1] {
            WsView::LineComment(text) => {
                let head = owed + "//"@ + spec_start_with_space(spec_without_trailing_nl(text));
                lemma_suffix_of_joined(head, c.line_start());
                lemma_suffix_behind(c.line_start(), front, head + c.line_start());
            },
            WsView::Space => {
                lemma_ws_first_ends_line(ws, c, n - 1);
                assert(front + Seq::<char>::empty() == front);
            },
            WsView::BlockComment(_) => {},
        }
    }
}

/// Whitespace that is rendered to end its line always ends with the start of
/// a new line at the indent of `c`.
pub proof fn lemma_ws_nl_ends_line(ws: Seq<WsView>, c: ContextView)
    ensures
        c.line_start().is_suffix_of(spec_ws_nl(ws, c)),
{
    if spec_space_owed(ws) {
        lemma_suffix_of_joined(spec_ws_min(ws, c), c.line_start());
    } else {
        lemma_ws_first_ends_line(ws, c, ws.len() as int);
        assert(spec_ws_min(ws, c) + Seq::<char>::empty() == spec_ws_min(ws, c));
    }
}

/// The line of an item in a split layout: the start of a line at the indent
/// of `c`, the item, the whitespace behind the item, and a comma.
pub open spec fn spec_item_line(item: WsWrappedView<Seq<char>>, c: ContextView) -> Seq<char> {
    c.line_start() + item.content + spec_ws_min(item.following, c) + ","@
}

/// An item on a line of its own, with the comma behind it, ends with the
/// line of the item.
proof fn lemma_item_line(item: WsWrappedView<Seq<char>>, c: ContextView)
    ensures
        spec_item_line(item, c).is_suffix_of(spec_ws_wrapped_leading_nl(item, c) + ","@),
{
    let leading = spec_ws_nl(item.leading, c);
    let start = c.line_start();
    let rest = item.content + spec_ws_min(item.following, c) + ","@;
    lemma_ws_nl_ends_line(item.leading, c);
    let front = leading.subrange(0, leading.len() - start.len());
    assert(leading == front + start);
    assert(spec_ws_wrapped_leading_nl(item, c) + ","@ == front + (start + rest)) by {
        assert(spec_ws_wrapped_leading_nl(item, c) + ","@ =~= front + (start + rest));
    }
    assert(spec_item_line(item, c) == start + rest) by {
        assert(spec_item_line(item, c) =~= start + rest);
    }
    lemma_suffix_of_joined(front, start + rest);
}

/// Among the first `n` items of a split layout each has its line.
proof fn lemma_split_first_has_line(
    items: Seq<WsWrappedView<Seq<char>>>,
    c: ContextView,
    n: int,
    i: int,
)
    requires
        0 <= i < n <= items.len(),
    ensures
        occurs_in(spec_item_line(items[i], c), spec_split_first(items, c, n)),
    decreases n,
{
    let line = spec_item_line(items[i], c);
    let front = spec_split_first(items, c, n - 1);
    let last = spec_ws_wrapped_leading_nl(items[n - 1], c);
    lemma_concat2(front, last, ","@);
    if i == n - 1 {
        lemma_item_line(items[i], c);
        lemma_suffix_occurs(line, last + ","@);
        lemma_occurs_in_back(line, front, last + ","@);
    } else {
        lemma_split_first_has_line(items, c, n - 1, i);
        lemma_occurs_in_front(line, front, last + ","@);
    }
}

/// In a split layout every item stands on a line of its own, one level
/// deeper than `c`, with a comma behind it.
pub proof fn lemma_split_item_has_line(s: SeparatedView<Seq<char>>, c: ContextView, i: int)
    requires
        0 <= i < s.values.len(),
    ensures
        occurs_in(spec_item_line(s.values[i], c.increase()), spec_separated_split(s, c)),
{
    lemma_split_first_has_line(s.values, c.increase(), s.values.len() as int, i);
    lemma_occurs_in_front(
        spec_item_line(s.values[i], c.increase()),
        spec_split_items(s.values, c.increase()),
        spec_ws_nl(s.trailing_ws, c),
    );
}

/// A split layout ends with the start of a new line at the indent of `c`.
/// Where it has an item, a comma stands behind the last item, and only the
/// trailing whitespace of the sequence stands behind that comma.
pub proof fn lemma_split_ends_line(s: SeparatedView<Seq<char>>, c: ContextView)
    ensures
        c.line_start().is_suffix_of(spec_separated_split(s, c)),
        s.values.len() > 0 ==> (","@ + spec_ws_nl(s.trailing_ws, c)).is_suffix_of(
            spec_separated_split(s, c),
        ),
{
    let items = spec_split_items(s.values, c.increase());
    let trailing = spec_ws_nl(s.trailing_ws, c);
    lemma_ws_nl_ends_line(s.trailing_ws, c);
    lemma_suffix_behind(c.line_start(), items, trailing);
    if s.values.len() > 0 {
        let n = s.values.len() as int;
        let front = spec_split_first(s.values, c.increase(), n - 1)
            + spec_ws_wrapped_leading_nl(s.values[n - 1], c.increase());
        lemma_suffix_of_joined(front, ","@);
        lemma_suffix_with_more(","@, items, trailing);
    }
}

/// A tuple of two fields or more is split. Each field stands on a line of
/// its own, one level deeper than the tuple, with a comma behind it. A comma
/// stands behind the last field too, and the closing parenthesis stands at
/// the start of a line, at the indent of the tuple.
pub proof fn lemma_long_tuple_is_split(
    ident: Option<WsFollowedView<Seq<char>>>,
    fields: SeparatedView<ValueView>,
    c: ContextView,
    i: int,
)
    requires
        fields.values.len() >= 2,
        0 <= i < fields.values.len(),
    ensures
        ({
            let text = spec_value(ValueView::Tuple { ident, fields }, c);
            let inner = c.increase();
            let field = fields.values[i];
            &&& occurs_in(
                inner.line_start() + spec_value(field.content, inner) + spec_ws_min(
                    field.following,
                    inner,
                ) + ","@,
                text,
            )
            &&& (","@ + spec_ws_nl(fields.trailing_ws, c) + ")"@).is_suffix_of(text)
            &&& (c.line_start() + ")"@).is_suffix_of(text)
        }),
{
    let inner = c.increase();
    let texts = spec_values(fields, inner);
    let head = spec_option(ident, c) + "("@;
    let body = spec_separated_split(texts, c);
    lemma_spec_values(fields, inner);
    lemma_split_item_has_line(texts, c, i);
    lemma_occurs_in_middle(spec_item_line(texts.values[i], inner), head, body, ")"@);
    lemma_split_ends_line(texts, c);
    lemma_suffix_with_more(c.line_start(), body, ")"@);
    lemma_suffix_behind(c.line_start() + ")"@, head, body + ")"@);
    lemma_suffix_with_more(","@ + spec_ws_nl(fields.trailing_ws, c), body, ")"@);
    lemma_suffix_behind(","@ + spec_ws_nl(fields.trailing_ws, c) + ")"@, head, body + ")"@);
    lemma_concat2(head, body, ")"@);
}

/// A struct is split, whatever the number of its fields. Each field stands
/// on a line of its own, one level deeper than the struct, with a comma
/// behind it.
pub proof fn lemma_struct_field_has_line(
    ident: Option<WsFollowedView<Seq<char>>>,
    fields: SeparatedView<EntryView>,
    c: ContextView,
    i: int,
)
    requires
        0 <= i < fields.values.len(),
    ensures
        ({
            let text = spec_value(ValueView::Struct { ident, fields }, c);
            let inner = c.increase();
            let field = fields.values[i];
            occurs_in(
                inner.line_start() + spec_entry(field.content, inner) + spec_ws_min(
                    field.following,
                    inner,
                ) + ","@,
                text,
            )
        }),
{
    let inner = c.increase();
    let texts = spec_entries(fields, inner);
    let head = spec_option(ident, c) + "("@;
    let body = spec_separated_split(texts, c);
    lemma_spec_entries(fields, inner);
    lemma_split_item_has_line(texts, c, i);
    lemma_occurs_in_middle(spec_item_line(texts.values[i], inner), head, body, ")"@);
}

/// The closing parenthesis of a struct stands at the start of a line, at the
/// indent of the struct. Where the struct has a field, a comma stands behind
/// the last field.
pub proof fn lemma_struct_ends_line(
    ident: Option<WsFollowedView<Seq<char>>>,
    fields: SeparatedView<EntryView>,
    c: ContextView,
)
    ensures
        ({
            let text = spec_value(ValueView::Struct { ident, fields }, c);
            &&& (c.line_start() + ")"@).is_suffix_of(text)
            &&& fields.values.len() > 0 ==> (","@ + spec_ws_nl(fields.trailing_ws, c) + ")"@)
                .is_suffix_of(text)
        }),
{
    let inner = c.increase();
    let texts = spec_entries(fields, inner);
    let head = spec_option(ident, c) + "("@;
    let body = spec_separated_split(texts, c);
    lemma_spec_entries(fields, inner);
    lemma_split_ends_line(texts, c);
    lemma_suffix_with_more(c.line_start(), body, ")"@);
    lemma_suffix_behind(c.line_start() + ")"@, head, body + ")"@);
    if fields.values.len() > 0 {
        lemma_suffix_with_more(","@ + spec_ws_nl(fields.trailing_ws, c), body, ")"@);
        lemma_suffix_behind(","@ + spec_ws_nl(fields.trailing_ws, c) + ")"@, head, body + ")"@);
    }
    lemma_concat2(head, body, ")"@);
}

/// The rendered document ends with a line ending, and no indent behind it.
pub proof fn lemma_document_ends_line(file: FileView, nl: Newline)
    ensures
        nl.text().is_suffix_of(spec_format_with(file, nl)),
{
    let c = ContextView { indent: 0, nl };
    let out = spec_format_with(file, nl);
    let trailing = spec_ws_nl(file.trailing_ws, c);
    lemma_ws_nl_ends_line(file.trailing_ws, c);
    assert(c.line_start() =~= nl.text());
    lemma_suffix_behind(nl.text(), out.subrange(0, out.len() - trailing.len()), trailing);
    assert(out.subrange(0, out.len() - trailing.len()) + trailing =~= out);
}

} // verus!
