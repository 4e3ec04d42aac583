//! Rendering values: the scalars are copied, and each list, map, tuple and
//! struct is laid out from the texts of its items, either on one line or with
//! one item on each line.

use vstd::prelude::*;
use vstd::string::StringExecFns;

use crate::context::{Context, ContextView};
use crate::joined::{lemma_concat2, lemma_concat3, lemma_concat4};
use crate::model::{
    ident_view, lemma_entries_view, lemma_values_view, EntryView, SeparatedView, ValueView,
    WsFollowedView, WsView, WsWrappedView,
};
use crate::nesting::{
    entries_fit, fits, lemma_entries_fit_each, lemma_fits_inside, lemma_values_fit_each, values_fit,
};
use crate::syntax::{Entry, Separated, Value, WsFollowed, WsLead, WsWrapped};
use crate::text::{normalize_line_breaks, spec_normalize_line_breaks};
use crate::whitespace::{spec_ws_min, spec_ws_nl, spec_ws_single, ws_min, ws_nl, ws_single};

verus! {

/// The text `content` behind its leading whitespace, rendered with nothing
/// added.
pub open spec fn spec_ws_lead_min(leading: Seq<WsView>, content: Seq<char>, c: ContextView) -> Seq<
    char,
> {
    spec_ws_min(leading, c) + content
}

/// The text `content` behind its leading whitespace and one space.
pub open spec fn spec_ws_lead_single(
    leading: Seq<WsView>,
    content: Seq<char>,
    c: ContextView,
) -> Seq<char> {
    spec_ws_single(leading, c) + content
}

/// The text `content` behind its leading whitespace, on a line of its own.
pub open spec fn spec_ws_lead_nl(leading: Seq<WsView>, content: Seq<char>, c: ContextView) -> Seq<
    char,
> {
    spec_ws_nl(leading, c) + content
}

/// The text `content` and the whitespace behind it.
pub open spec fn spec_ws_followed_min(
    content: Seq<char>,
    following: Seq<WsView>,
    c: ContextView,
) -> Seq<char> {
    content + spec_ws_min(following, c)
}

/// An item on the line where the text before it ended.
pub open spec fn spec_ws_wrapped_min(item: WsWrappedView<Seq<char>>, c: ContextView) -> Seq<char> {
    spec_ws_min(item.leading, c) + item.content + spec_ws_min(item.following, c)
}

/// An item one space behind the text before it.
pub open spec fn spec_ws_wrapped_leading_single(
    item: WsWrappedView<Seq<char>>,
    c: ContextView,
) -> Seq<char> {
    spec_ws_single(item.leading, c) + item.content + spec_ws_min(item.following, c)
}

/// An item on a line of its own.
pub open spec fn spec_ws_wrapped_leading_nl(
    item: WsWrappedView<Seq<char>>,
    c: ContextView,
) -> Seq<char> {
    spec_ws_nl(item.leading, c) + item.content + spec_ws_min(item.following, c)
}

/// The identifier before the parenthesis of a tuple or a struct, where there
/// is one.
pub open spec fn spec_option(ident: Option<WsFollowedView<Seq<char>>>, c: ContextView) -> Seq<
    char,
> {
    match ident {
        Some(ident) => spec_ws_followed_min(ident.content, ident.following, c),
        None => Seq::empty(),
    }
}

/// The first `n` items on one line: a comma between each two, and a space
/// behind each comma.
pub open spec fn spec_min_first(
    items: Seq<WsWrappedView<Seq<char>>>,
    c: ContextView,
    n: int,
) -> Seq<char>
    recommends
        n <= items.len(),
    decreases n,
{
    if n <= 0 {
        Seq::empty()
    } else if n == 1 {
        spec_ws_wrapped_min(items[0], c)
    } else {
        spec_min_first(items, c, n - 1) + ","@ + spec_ws_wrapped_leading_single(items[n - 1], c)
    }
}

/// Items on one line: a comma between each two, and a space behind each
/// comma.
pub open spec fn spec_min_items(items: Seq<WsWrappedView<Seq<char>>>, c: ContextView) -> Seq<char> {
    spec_min_first(items, c, items.len() as int)
}

/// The minimal layout of a sequence whose items are already rendered: the
/// items on one line, no comma behind the last, then the trailing
/// whitespace.
pub open spec fn spec_separated_min(s: SeparatedView<Seq<char>>, c: ContextView) -> Seq<char> {
    spec_min_items(s.values, c) + spec_ws_min(s.trailing_ws, c)
}

/// The first `n` items with each on a line of its own at the indent of `c`,
/// and a comma behind each.
pub open spec fn spec_split_first(
    items: Seq<WsWrappedView<Seq<char>>>,
    c: ContextView,
    n: int,
) -> Seq<char>
    recommends
        n <= items.len(),
    decreases n,
{
    if n <= 0 {
        Seq::empty()
    } else {
        spec_split_first(items, c, n - 1) + spec_ws_wrapped_leading_nl(items[n - 1], c) + ","@
    }
}

/// Items with each on a line of its own at the indent of `c`, and a comma
/// behind each.
pub open spec fn spec_split_items(items: Seq<WsWrappedView<Seq<char>>>, c: ContextView) -> Seq<
    char,
> {
    spec_split_first(items, c, items.len() as int)
}

/// The split layout of a sequence whose items are already rendered: each
/// item on a line of its own, one level deeper than `c`, with a comma behind
/// it; then the trailing whitespace, which ends on a new line at the indent
/// of `c`.
pub open spec fn spec_separated_split(s: SeparatedView<Seq<char>>, c: ContextView) -> Seq<char> {
    spec_split_items(s.values, c.increase()) + spec_ws_nl(s.trailing_ws, c)
}

/// The sequence `s` with each value replaced by its text at `c`.
pub open spec fn spec_values(s: SeparatedView<ValueView>, c: ContextView) -> SeparatedView<
    Seq<char>,
>
    decreases s,
{
    SeparatedView {
        values: Seq::new(
            s.values.len(),
            |i: int|
                if 0 <= i < s.values.len() {
                    WsWrappedView {
                        leading: s.values[i].leading,
                        content: spec_value(s.values[i].content, c),
                        following: s.values[i].following,
                    }
                } else {
                    arbitrary()
                },
        ),
        trailing_comma: s.trailing_comma,
        trailing_ws: s.trailing_ws,
    }
}

/// The sequence `s` with each entry replaced by its text at `c`.
pub open spec fn spec_entries(s: SeparatedView<EntryView>, c: ContextView) -> SeparatedView<
    Seq<char>,
>
    decreases s,
{
    SeparatedView {
        values: Seq::new(
            s.values.len(),
            |i: int|
                if 0 <= i < s.values.len() {
                    WsWrappedView {
                        leading: s.values[i].leading,
                        content: spec_entry(s.values[i].content, c),
                        following: s.values[i].following,
                    }
                } else {
                    arbitrary()
                },
        ),
        trailing_comma: s.trailing_comma,
        trailing_ws: s.trailing_ws,
    }
}

/// The text of an entry: the key, the colon directly behind it or behind the
/// comments in between, one space, and the value.
pub open spec fn spec_entry(e: EntryView, c: ContextView) -> Seq<char>
    decreases e,
{
    e.key + spec_ws_min(e.after_key, c) + ":"@ + spec_ws_lead_single(
        e.value.leading,
        spec_value(e.value.content, c),
        c,
    )
}

/// The text of a value at `c`.
///
/// A scalar is its literal text. A string literal is its text with the line
/// breaks in the convention of the document. A list, a map and a struct are
/// split: one item on each line. A tuple is split where it has two fields or
/// more, and stays on the line where it has one or none.
pub open spec fn spec_value(v: ValueView, c: ContextView) -> Seq<char>
    decreases v,
{
    match v {
        ValueView::Int(text)
        | ValueView::Float(text)
        | ValueView::Bool(text)
        | ValueView::Unit(text)
        | ValueView::Char(text) => text,
        ValueView::Str(text) => spec_normalize_line_breaks(text, c.nl),
        ValueView::List(items) => "["@ + spec_separated_split(spec_values(items, c.increase()), c)
            + "]"@,
        ValueView::Mapping(entries) => "{"@ + spec_separated_split(
            spec_entries(entries, c.increase()),
            c,
        ) + "}"@,
        ValueView::Tuple { ident, fields } => spec_option(ident, c) + "("@ + (if fields.values.len()
            > 1 {
            spec_separated_split(spec_values(fields, c.increase()), c)
        } else {
            spec_separated_min(spec_values(fields, c), c)
        }) + ")"@,
        ValueView::Struct { ident, fields } => spec_option(ident, c) + "("@ + spec_separated_split(
            spec_entries(fields, c.increase()),
            c,
        ) + ")"@,
    }
}

/// The item with its value replaced by the text of the value at `c`.
pub open spec fn spec_value_item(item: WsWrappedView<ValueView>, c: ContextView) -> WsWrappedView<
    Seq<char>,
> {
    WsWrappedView {
        leading: item.leading,
        content: spec_value(item.content, c),
        following: item.following,
    }
}

/// The item with its entry replaced by the text of the entry at `c`.
pub open spec fn spec_entry_item(item: WsWrappedView<EntryView>, c: ContextView) -> WsWrappedView<
    Seq<char>,
> {
    WsWrappedView {
        leading: item.leading,
        content: spec_entry(item.content, c),
        following: item.following,
    }
}

/// The texts of a sequence of values are the texts of its values, between
/// the same whitespace.
pub proof fn lemma_spec_values(s: SeparatedView<ValueView>, c: ContextView)
    ensures
        spec_values(s, c).values.len() == s.values.len(),
        forall|i: int|
            0 <= i < s.values.len() ==> #[trigger] spec_values(s, c).values[i] == spec_value_item(
                s.values[i],
                c,
            ),
        spec_values(s, c).trailing_comma == s.trailing_comma,
        spec_values(s, c).trailing_ws == s.trailing_ws,
{
}

/// The texts of a sequence of entries are the texts of its entries, between
/// the same whitespace.
pub proof fn lemma_spec_entries(s: SeparatedView<EntryView>, c: ContextView)
    ensures
        spec_entries(s, c).values.len() == s.values.len(),
        forall|i: int|
            0 <= i < s.values.len() ==> #[trigger] spec_entries(s, c).values[i] == spec_entry_item(
                s.values[i],
                c,
            ),
        spec_entries(s, c).trailing_comma == s.trailing_comma,
        spec_entries(s, c).trailing_ws == s.trailing_ws,
{
}

/// Appends an identifier and the whitespace behind it.
pub fn ws_followed_min(ident: &WsFollowed<String>, c: Context, out: &mut String)
    ensures
        final(out)@ == old(out)@ + spec_ws_followed_min(ident@.content, ident@.following, c@),
{
    out.append(ident.content.as_str());
    ws_min(&ident.following, c, out);
}

/// Appends the identifier of a tuple or a struct, where it has one.
pub fn option(ident: &Option<WsFollowed<String>>, c: Context, out: &mut String)
    ensures
        final(out)@ == old(out)@ + spec_option(ident_view(*ident), c@),
{
    match ident {
        Some(ident) => ws_followed_min(ident, c, out),
        None => {},
    }
}

/// Appends a value behind its leading whitespace.
pub fn ws_lead_min(it: &WsLead<Value>, c: Context, out: &mut String)
    requires
        fits(it@.content, c@),
    ensures
        final(out)@ == old(out)@ + spec_ws_lead_min(
            it@.leading,
            spec_value(it@.content, c@),
            c@,
        ),
    decreases it,
{
    ws_min(&it.leading, c, out);
    value(&it.content, c, out);
}

/// Appends a value behind its leading whitespace and one space.
pub fn ws_lead_single(it: &WsLead<Value>, c: Context, out: &mut String)
    requires
        fits(it@.content, c@),
    ensures
        final(out)@ == old(out)@ + spec_ws_lead_single(
            it@.leading,
            spec_value(it@.content, c@),
            c@,
        ),
    decreases it,
{
    ws_single(&it.leading, c, out);
    value(&it.content, c, out);
}

/// Appends a value behind its leading whitespace, on a line of its own.
pub fn ws_lead_nl(it: &WsLead<Value>, c: Context, out: &mut String)
    requires
        fits(it@.content, c@),
    ensures
        final(out)@ == old(out)@ + spec_ws_lead_nl(it@.leading, spec_value(it@.content, c@), c@),
    decreases it,
{
    ws_nl(&it.leading, c, out);
    value(&it.content, c, out);
}

/// Appends a value with the whitespace on both sides of it.
pub fn ws_wrapped_min(item: &WsWrapped<Value>, c: Context, out: &mut String)
    requires
        fits(item@.content, c@),
    ensures
        final(out)@ == old(out)@ + spec_ws_wrapped_min(spec_value_item(item@, c@), c@),
    decreases item,
{
    ws_min(&item.leading, c, out);
    value(&item.content, c, out);
    ws_min(&item.following, c, out);
}

/// Appends a value one space behind its leading whitespace, and the
/// whitespace behind it.
pub fn ws_wrapped_leading_single(item: &WsWrapped<Value>, c: Context, out: &mut String)
    requires
        fits(item@.content, c@),
    ensures
        final(out)@ == old(out)@ + spec_ws_wrapped_leading_single(spec_value_item(item@, c@), c@),
    decreases item,
{
    ws_single(&item.leading, c, out);
    value(&item.content, c, out);
    ws_min(&item.following, c, out);
}

/// Appends a value on a line of its own, and the whitespace behind it.
pub fn ws_wrapped_leading_nl(item: &WsWrapped<Value>, c: Context, out: &mut String)
    requires
        fits(item@.content, c@),
    ensures
        final(out)@ == old(out)@ + spec_ws_wrapped_leading_nl(spec_value_item(item@, c@), c@),
    decreases item,
{
    ws_nl(&item.leading, c, out);
    value(&item.content, c, out);
    ws_min(&item.following, c, out);
}

/// Appends an entry on a line of its own, and the whitespace behind it.
pub fn ws_wrapped_leading_nl_entry(item: &WsWrapped<Entry>, c: Context, out: &mut String)
    requires
        fits(item@.content.value.content, c@),
    ensures
        final(out)@ == old(out)@ + spec_ws_wrapped_leading_nl(spec_entry_item(item@, c@), c@),
    decreases item,
{
    ws_nl(&item.leading, c, out);
    entry(&item.content, c, out);
    ws_min(&item.following, c, out);
}

/// Appends a name with the whitespace on both sides of it.
pub fn ws_wrapped_min_name(item: &WsWrapped<String>, c: Context, out: &mut String)
    ensures
        final(out)@ == old(out)@ + spec_ws_wrapped_min(item@, c@),
{
    ws_min(&item.leading, c, out);
    out.append(item.content.as_str());
    ws_min(&item.following, c, out);
}

/// Appends a name one space behind its leading whitespace, and the
/// whitespace behind it.
pub fn ws_wrapped_leading_single_name(item: &WsWrapped<String>, c: Context, out: &mut String)
    ensures
        final(out)@ == old(out)@ + spec_ws_wrapped_leading_single(item@, c@),
{
    ws_single(&item.leading, c, out);
    out.append(item.content.as_str());
    ws_min(&item.following, c, out);
}

/// Appends the values of `s` on one line, then its trailing whitespace.
pub fn separated_min(s: &Separated<Value>, c: Context, out: &mut String)
    requires
        values_fit(s@, c@),
    ensures
        final(out)@ == old(out)@ + spec_separated_min(spec_values(s@, c@), c@),
    decreases s,
{
    let ghost items = spec_values(s@, c@).values;
    proof {
        lemma_values_view(s);
        lemma_spec_values(s@, c@);
    }
    let mut i: usize = 0;
    while i < s.values.len()
        invariant
            i <= s.values.len(),
            items.len() == s.values.len(),
            s@.values.len() == s.values.len(),
            values_fit(s@, c@),
            forall|j: int| 0 <= j < s.values.len() ==> #[trigger] s@.values[j] == s.values[j]@,
            forall|j: int|
                0 <= j < s.values.len() ==> #[trigger] items[j] == spec_value_item(
                    s@.values[j],
                    c@,
                ),
            out@ == old(out)@ + spec_min_first(items, c@, i as int),
        decreases s.values.len() - i,
    {
        proof {
            lemma_values_fit_each(s@, c@, i as int);
            lemma_concat3(
                old(out)@,
                spec_min_first(items, c@, i as int),
                ","@,
                spec_ws_wrapped_leading_single(items[i as int], c@),
            );
        }
        if i == 0 {
            ws_wrapped_min(&s.values[i], c, out);
        } else {
            out.append(",");
            ws_wrapped_leading_single(&s.values[i], c, out);
        }
        i = i + 1;
    }
    proof {
        lemma_concat2(
            old(out)@,
            spec_min_first(items, c@, i as int),
            spec_ws_min(s@.trailing_ws, c@),
        );
    }
    ws_min(&s.trailing_ws, c, out);
}

/// Appends the names of `s` on one line, then its trailing whitespace.
pub fn separated_min_names(s: &Separated<String>, c: Context, out: &mut String)
    ensures
        final(out)@ == old(out)@ + spec_separated_min(s@, c@),
{
    let ghost items = s@.values;
    let mut i: usize = 0;
    while i < s.values.len()
        invariant
            i <= s.values.len(),
            items == s@.values,
            items.len() == s.values.len(),
            out@ == old(out)@ + spec_min_first(items, c@, i as int),
        decreases s.values.len() - i,
    {
        proof {
            lemma_concat3(
                old(out)@,
                spec_min_first(items, c@, i as int),
                ","@,
                spec_ws_wrapped_leading_single(items[i as int], c@),
            );
        }
        if i == 0 {
            ws_wrapped_min_name(&s.values[i], c, out);
        } else {
            out.append(",");
            ws_wrapped_leading_single_name(&s.values[i], c, out);
        }
        i = i + 1;
    }
    proof {
        lemma_concat2(
            old(out)@,
            spec_min_first(items, c@, i as int),
            spec_ws_min(s@.trailing_ws, c@),
        );
    }
    ws_min(&s.trailing_ws, c, out);
}

/// Appends each value of `s` on a line of its own, one level deeper than
/// `c`, with a comma behind it; then the trailing whitespace of `s`, which
/// ends on a new line at the indent of `c`.
pub fn separated_split(s: &Separated<Value>, c: Context, out: &mut String)
    requires
        c@.indent < usize::MAX,
        values_fit(s@, c@.increase()),
    ensures
        final(out)@ == old(out)@ + spec_separated_split(spec_values(s@, c@.increase()), c@),
    decreases s,
{
    let inner = c.increase();
    let ghost items = spec_values(s@, inner@).values;
    proof {
        lemma_values_view(s);
        lemma_spec_values(s@, inner@);
    }
    let mut i: usize = 0;
    while i < s.values.len()
        invariant
            i <= s.values.len(),
            items.len() == s.values.len(),
            s@.values.len() == s.values.len(),
            values_fit(s@, inner@),
            forall|j: int| 0 <= j < s.values.len() ==> #[trigger] s@.values[j] == s.values[j]@,
            forall|j: int|
                0 <= j < s.values.len() ==> #[trigger] items[j] == spec_value_item(
                    s@.values[j],
                    inner@,
                ),
            out@ == old(out)@ + spec_split_first(items, inner@, i as int),
        decreases s.values.len() - i,
    {
        proof {
            lemma_values_fit_each(s@, inner@, i as int);
            lemma_concat3(
                old(out)@,
                spec_split_first(items, inner@, i as int),
                spec_ws_wrapped_leading_nl(items[i as int], inner@),
                ","@,
            );
        }
        ws_wrapped_leading_nl(&s.values[i], inner, out);
        out.append(",");
        i = i + 1;
    }
    proof {
        lemma_concat2(
            old(out)@,
            spec_split_first(items, inner@, i as int),
            spec_ws_nl(s@.trailing_ws, c@),
        );
    }
    ws_nl(&s.trailing_ws, c, out);
}

/// Appends each entry of `s` on a line of its own, one level deeper than
/// `c`, with a comma behind it; then the trailing whitespace of `s`, which
/// ends on a new line at the indent of `c`.
pub fn separated_split_entries(s: &Separated<Entry>, c: Context, out: &mut String)
    requires
        c@.indent < usize::MAX,
        entries_fit(s@, c@.increase()),
    ensures
        final(out)@ == old(out)@ + spec_separated_split(spec_entries(s@, c@.increase()), c@),
    decreases s,
{
    let inner = c.increase();
    let ghost items = spec_entries(s@, inner@).values;
    proof {
        lemma_entries_view(s);
        lemma_spec_entries(s@, inner@);
    }
    let mut i: usize = 0;
    while i < s.values.len()
        invariant
            i <= s.values.len(),
            items.len() == s.values.len(),
            s@.values.len() == s.values.len(),
            entries_fit(s@, inner@),
            forall|j: int| 0 <= j < s.values.len() ==> #[trigger] s@.values[j] == s.values[j]@,
            forall|j: int|
                0 <= j < s.values.len() ==> #[trigger] items[j] == spec_entry_item(
                    s@.values[j],
                    inner@,
                ),
            out@ == old(out)@ + spec_split_first(items, inner@, i as int),
        decreases s.values.len() - i,
    {
        proof {
            lemma_entries_fit_each(s@, inner@, i as int);
            lemma_concat3(
                old(out)@,
                spec_split_first(items, inner@, i as int),
                spec_ws_wrapped_leading_nl(items[i as int], inner@),
                ","@,
            );
        }
        ws_wrapped_leading_nl_entry(&s.values[i], inner, out);
        out.append(",");
        i = i + 1;
    }
    proof {
        lemma_concat2(
            old(out)@,
            spec_split_first(items, inner@, i as int),
            spec_ws_nl(s@.trailing_ws, c@),
        );
    }
    ws_nl(&s.trailing_ws, c, out);
}

/// Appends an entry: the key, the whitespace behind it, the colon, and the
/// value one space behind the colon.
pub fn entry(it: &Entry, c: Context, out: &mut String)
    requires
        fits(it@.value.content, c@),
    ensures
        final(out)@ == old(out)@ + spec_entry(it@, c@),
    decreases it,
{
    out.append(it.key.as_str());
    ws_min(&it.after_key, c, out);
    out.append(":");
    ws_lead_single(&it.value, c, out);
}

/// Appends the value `it` as it is rendered at `c`.
pub fn value(it: &Value, c: Context, out: &mut String)
    requires
        fits(it@, c@),
    ensures
        final(out)@ == old(out)@ + spec_value(it@, c@),
    decreases it,
{
    proof {
        lemma_fits_inside(it@, c@);
    }
    match it {
        Value::Int(text)
        | Value::Float(text)
        | Value::Bool(text)
        | Value::Unit(text)
        | Value::Char(text) => {
            out.append(text.as_str());
        },
        Value::Str(text) => {
            let text = normalize_line_breaks(text.as_str(), c.nl);
            out.append(text.as_str());
        },
        Value::List(items) => {
            let ghost body = spec_separated_split(spec_values(items@, c@.increase()), c@);
            out.append("[");
            separated_split(items, c, out);
            out.append("]");
            proof {
                lemma_concat3(old(out)@, "["@, body, "]"@);
            }
        },
        Value::Mapping(entries) => {
            let ghost body = spec_separated_split(spec_entries(entries@, c@.increase()), c@);
            out.append("{");
            separated_split_entries(entries, c, out);
            out.append("}");
            proof {
                lemma_concat3(old(out)@, "{"@, body, "}"@);
            }
        },
        Value::Tuple { ident, fields } => {
            let ghost name = spec_option(ident_view(*ident), c@);
            let ghost body = if fields@.values.len() > 1 {
                spec_separated_split(spec_values(fields@, c@.increase()), c@)
            } else {
                spec_separated_min(spec_values(fields@, c@), c@)
            };
            proof {
                lemma_values_view(fields);
            }
            option(ident, c, out);
            out.append("(");
            if fields.values.len() > 1 {
                separated_split(fields, c, out);
            } else {
                separated_min(fields, c, out);
            }
            out.append(")");
            proof {
                lemma_concat4(old(out)@, name, "("@, body, ")"@);
            }
        },
        Value::Struct { ident, fields } => {
            let ghost name = spec_option(ident_view(*ident), c@);
            let ghost body = spec_separated_split(spec_entries(fields@, c@.increase()), c@);
            option(ident, c, out);
            out.append("(");
            separated_split_entries(fields, c, out);
            out.append(")");
            proof {
                lemma_concat4(old(out)@, name, "("@, body, ")"@);
            }
        },
    }
}

} // verus!
