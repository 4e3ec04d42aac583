//! The comments keep their order: the comments of a document, taken in the
//! order in which they stand in it, stand in the rendered document one
//! behind the other, and none over another.

use vstd::prelude::*;

use crate::comments::{lemma_ws_inner_keeps, spec_comment};
use crate::context::{ContextView, Newline};
use crate::document::{spec_extension, spec_extensions, spec_extensions_first, spec_format_with};
use crate::joined::{occurs_at, occurs_in};
use crate::layout::{
    lemma_spec_entries, lemma_spec_values, spec_entries, spec_entry, spec_min_first, spec_option,
    spec_separated_min, spec_separated_split, spec_split_first, spec_value, spec_values,
    spec_ws_wrapped_leading_nl, spec_ws_wrapped_leading_single, spec_ws_wrapped_min,
};
use crate::model::{
    AttributeView, EntryView, FileView, SeparatedView, ValueView, WsFollowedView, WsLeadView,
    WsView, WsWrappedView,
};
use crate::whitespace::{
    spec_space_owed, spec_space_owed_after, spec_ws_first, spec_ws_inner, spec_ws_min, spec_ws_nl,
    spec_ws_single,
};

verus! {

/// The texts `parts` stand in `hay` one behind the other: the first
/// somewhere, the second behind the end of the first, and so on.
pub open spec fn stand_in_order(parts: Seq<Seq<char>>, hay: Seq<char>) -> bool
    decreases parts.len(),
{
    parts.len() == 0 || exists|at: int|
        #[trigger] occurs_at(parts[0], hay, at) && stand_in_order(
            parts.skip(1),
            hay.skip(at + parts[0].len()),
        )
}

/// No text stands in every text.
pub proof fn lemma_none_stands(hay: Seq<char>)
    ensures
        stand_in_order(Seq::empty(), hay),
{
}

/// What stands in a text stands alone in order in it.
pub proof fn lemma_one_stands(x: Seq<char>, hay: Seq<char>)
    requires
        occurs_in(x, hay),
    ensures
        stand_in_order(seq![x], hay),
{
    reveal(occurs_in);
    let at = choose|at: int| occurs_at(x, hay, at);
    let parts = seq![x];
    assert(parts[0] == x);
    assert(parts.skip(1).len() == 0);
    assert(stand_in_order(parts.skip(1), hay.skip(at + x.len())));
    assert(occurs_at(parts[0], hay, at));
}

/// Texts that stand in order in one text, and texts that stand in order in
/// a second, stand in order, the first before the second, in the two texts
/// joined.
pub proof fn lemma_stand_joined(
    first: Seq<Seq<char>>,
    a: Seq<char>,
    second: Seq<Seq<char>>,
    b: Seq<char>,
)
    requires
        stand_in_order(first, a),
        stand_in_order(second, b),
    ensures
        stand_in_order(first + second, a + b),
    decreases first.len(),
{
    let parts = first + second;
    if first.len() == 0 {
        assert(parts =~= second);
        lemma_stand_behind(second, a, b);
    } else {
        let at = choose|at: int|
            #[trigger] occurs_at(first[0], a, at) && stand_in_order(
                first.skip(1),
                a.skip(at + first[0].len()),
            );
        let rest = a.skip(at + first[0].len());
        lemma_stand_joined(first.skip(1), rest, second, b);
        assert(parts[0] == first[0]);
        assert(parts.skip(1) =~= first.skip(1) + second);
        assert((a + b).skip(at + first[0].len()) =~= rest + b);
        assert((a + b).subrange(at, at + first[0].len()) =~= a.subrange(at, at + first[0].len()));
        assert(occurs_at(parts[0], a + b, at));
    }
}

/// Texts that stand in order in a text stand in order in that text with more
/// put before it.
pub proof fn lemma_stand_behind(parts: Seq<Seq<char>>, before: Seq<char>, hay: Seq<char>)
    requires
        stand_in_order(parts, hay),
    ensures
        stand_in_order(parts, before + hay),
{
    if parts.len() > 0 {
        let at = choose|at: int|
            #[trigger] occurs_at(parts[0], hay, at) && stand_in_order(
                parts.skip(1),
                hay.skip(at + parts[0].len()),
            );
        let whole = before + hay;
        let moved = before.len() + at;
        assert(whole.subrange(moved, moved + parts[0].len()) =~= hay.subrange(
            at,
            at + parts[0].len(),
        ));
        assert(whole.skip(moved + parts[0].len()) =~= hay.skip(at + parts[0].len()));
        assert(occurs_at(parts[0], whole, moved));
    }
}

/// Texts that stand in order in a text stand in order in that text with more
/// put behind it.
pub proof fn lemma_stand_before(parts: Seq<Seq<char>>, hay: Seq<char>, after: Seq<char>)
    requires
        stand_in_order(parts, hay),
    ensures
        stand_in_order(parts, hay + after),
{
    lemma_none_stands(after);
    lemma_stand_joined(parts, hay, Seq::empty(), after);
    assert(parts + Seq::<Seq<char>>::empty() =~= parts);
}

/// The comments among the first `n` pieces of a run, rendered, in their
/// order.
pub open spec fn spec_ws_comments_first(ws: Seq<WsView>, nl: Newline, n: int) -> Seq<Seq<char>>
    recommends
        n <= ws.len(),
    decreases n,
{
    if n <= 0 {
        Seq::empty()
    } else if ws[n - 1] is Space {
        spec_ws_comments_first(ws, nl, n - 1)
    } else {
        spec_ws_comments_first(ws, nl, n - 1).push(spec_comment(ws[n - 1], nl))
    }
}

/// The comments of a run, rendered, in their order.
pub open spec fn spec_ws_comments(ws: Seq<WsView>, nl: Newline) -> Seq<Seq<char>> {
    spec_ws_comments_first(ws, nl, ws.len() as int)
}

/// The comments among the first `n` pieces of a run stand in their order in
/// those pieces rendered.
proof fn lemma_ws_first_order(ws: Seq<WsView>, c: ContextView, n: int)
    requires
        0 <= n <= ws.len(),
    ensures
        stand_in_order(spec_ws_comments_first(ws, c.nl, n), spec_ws_first(ws, c, n)),
    decreases n,
{
    if n > 0 {
        let front = spec_ws_first(ws, c, n - 1);
        let last = spec_ws_inner(ws[n - 1], c, spec_space_owed_after(ws, n - 1));
        let before = spec_ws_comments_first(ws, c.nl, n - 1);
        lemma_ws_first_order(ws, c, n - 1);
        if ws[n - 1] is Space {
            lemma_stand_before(before, front, last);
        } else {
            lemma_ws_inner_keeps(ws[n - 1], c, spec_space_owed_after(ws, n - 1));
            lemma_one_stands(spec_comment(ws[n - 1], c.nl), last);
            lemma_stand_joined(before, front, seq![spec_comment(ws[n - 1], c.nl)], last);
            assert(before + seq![spec_comment(ws[n - 1], c.nl)] =~= before.push(
                spec_comment(ws[n - 1], c.nl),
            ));
        }
    }
}

/// The comments of a run stand in their order in the run rendered, by each
/// of the three policies.
pub proof fn lemma_ws_order(ws: Seq<WsView>, c: ContextView)
    ensures
        stand_in_order(spec_ws_comments(ws, c.nl), spec_ws_min(ws, c)),
        stand_in_order(spec_ws_comments(ws, c.nl), spec_ws_single(ws, c)),
        stand_in_order(spec_ws_comments(ws, c.nl), spec_ws_nl(ws, c)),
{
    lemma_ws_first_order(ws, c, ws.len() as int);
    lemma_stand_before(spec_ws_comments(ws, c.nl), spec_ws_min(ws, c), " "@);
    lemma_stand_before(
        spec_ws_comments(ws, c.nl),
        spec_ws_min(ws, c),
        if spec_space_owed(ws) {
            c.line_start()
        } else {
            Seq::<char>::empty()
        },
    );
}

/// The comments behind the identifier of a tuple or a struct.
pub open spec fn spec_ident_comments(
    ident: Option<WsFollowedView<Seq<char>>>,
    nl: Newline,
) -> Seq<Seq<char>> {
    match ident {
        Some(ident) => spec_ws_comments(ident.following, nl),
        None => Seq::empty(),
    }
}

/// The comments of a value, rendered, in the order in which they stand in
/// it.
pub open spec fn spec_value_comments(v: ValueView, nl: Newline) -> Seq<Seq<char>>
    decreases v, 0int,
{
    match v {
        ValueView::List(items) => spec_values_comments_first(
            items,
            nl,
            items.values.len() as int,
        ) + spec_ws_comments(items.trailing_ws, nl),
        ValueView::Mapping(entries) => spec_entries_comments_first(
            entries,
            nl,
            entries.values.len() as int,
        ) + spec_ws_comments(entries.trailing_ws, nl),
        ValueView::Tuple { ident, fields } => spec_ident_comments(ident, nl)
            + spec_values_comments_first(fields, nl, fields.values.len() as int)
            + spec_ws_comments(fields.trailing_ws, nl),
        ValueView::Struct { ident, fields } => spec_ident_comments(ident, nl)
            + spec_entries_comments_first(fields, nl, fields.values.len() as int)
            + spec_ws_comments(fields.trailing_ws, nl),
        _ => Seq::empty(),
    }
}

/// The comments of an entry: those behind the key, those behind the colon,
/// and those of the value.
pub open spec fn spec_entry_comments(e: EntryView, nl: Newline) -> Seq<Seq<char>>
    decreases e, 0int,
{
    spec_ws_comments(e.after_key, nl) + spec_ws_comments(e.value.leading, nl)
        + spec_value_comments(e.value.content, nl)
}

/// The comments of the first `n` values of a sequence: for each value those
/// before it, those in it and those behind it.
pub open spec fn spec_values_comments_first(
    s: SeparatedView<ValueView>,
    nl: Newline,
    n: int,
) -> Seq<Seq<char>>
    decreases s, n,
{
    if n <= 0 || n > s.values.len() {
        Seq::empty()
    } else {
        spec_values_comments_first(s, nl, n - 1) + spec_ws_comments(s.values[n - 1].leading, nl)
            + spec_value_comments(s.values[n - 1].content, nl) + spec_ws_comments(
            s.values[n - 1].following,
            nl,
        )
    }
}

/// The comments of the first `n` entries of a sequence: for each entry those
/// before it, those in it and those behind it.
pub open spec fn spec_entries_comments_first(
    s: SeparatedView<EntryView>,
    nl: Newline,
    n: int,
) -> Seq<Seq<char>>
    decreases s, n,
{
    if n <= 0 || n > s.values.len() {
        Seq::empty()
    } else {
        spec_entries_comments_first(s, nl, n - 1) + spec_ws_comments(s.values[n - 1].leading, nl)
            + spec_entry_comments(s.values[n - 1].content, nl) + spec_ws_comments(
            s.values[n - 1].following,
            nl,
        )
    }
}

/// The comments around the first `n` names of a header.
pub open spec fn spec_names_comments_first(
    s: SeparatedView<Seq<char>>,
    nl: Newline,
    n: int,
) -> Seq<Seq<char>>
    decreases n,
{
    if n <= 0 || n > s.values.len() {
        Seq::empty()
    } else {
        spec_names_comments_first(s, nl, n - 1) + spec_ws_comments(s.values[n - 1].leading, nl)
            + spec_ws_comments(s.values[n - 1].following, nl)
    }
}

/// The comments of a header, in the order in which they stand in it.
pub open spec fn spec_extension_comments(e: WsLeadView<AttributeView>, nl: Newline) -> Seq<
    Seq<char>,
> {
    spec_ws_comments(e.leading, nl) + spec_ws_comments(e.content.after_pound, nl)
        + spec_ws_comments(e.content.after_exclamation, nl) + spec_ws_comments(
        e.content.after_bracket,
        nl,
    ) + spec_ws_comments(e.content.after_enable, nl) + spec_names_comments_first(
        e.content.extensions,
        nl,
        e.content.extensions.values.len() as int,
    ) + spec_ws_comments(e.content.extensions.trailing_ws, nl) + spec_ws_comments(
        e.content.after_paren,
        nl,
    )
}

/// The comments of the first `n` headers.
pub open spec fn spec_extensions_comments_first(
    es: Seq<WsLeadView<AttributeView>>,
    nl: Newline,
    n: int,
) -> Seq<Seq<char>>
    decreases n,
{
    if n <= 0 || n > es.len() {
        Seq::empty()
    } else {
        spec_extensions_comments_first(es, nl, n - 1) + spec_extension_comments(es[n - 1], nl)
    }
}

/// The comments of a document, rendered, in the order in which they stand
/// in it: those of the headers, those before the value, those of the value,
/// and those behind it.
pub open spec fn spec_file_comments(file: FileView, nl: Newline) -> Seq<Seq<char>> {
    spec_extensions_comments_first(file.extensions, nl, file.extensions.len() as int)
        + spec_ws_comments(file.value.leading, nl) + spec_value_comments(file.value.content, nl)
        + spec_ws_comments(file.trailing_ws, nl)
}

/// Three texts with their parts, one behind the other.
proof fn lemma_stand3(
    parts1: Seq<Seq<char>>,
    text1: Seq<char>,
    parts2: Seq<Seq<char>>,
    text2: Seq<char>,
    parts3: Seq<Seq<char>>,
    text3: Seq<char>,
)
    requires
        stand_in_order(parts1, text1),
        stand_in_order(parts2, text2),
        stand_in_order(parts3, text3),
    ensures
        stand_in_order(parts1 + parts2 + parts3, text1 + text2 + text3),
{
    lemma_stand_joined(parts1, text1, parts2, text2);
    lemma_stand_joined(parts1 + parts2, text1 + text2, parts3, text3);
}

/// The comments around an item and the texts in the item stand in their
/// order in the item, however its leading whitespace is rendered.
proof fn lemma_wrapped_order(
    item: WsWrappedView<Seq<char>>,
    inner: Seq<Seq<char>>,
    c: ContextView,
)
    requires
        stand_in_order(inner, item.content),
    ensures
        ({
            let parts = spec_ws_comments(item.leading, c.nl) + inner + spec_ws_comments(
                item.following,
                c.nl,
            );
            &&& stand_in_order(parts, spec_ws_wrapped_min(item, c))
            &&& stand_in_order(parts, spec_ws_wrapped_leading_single(item, c))
            &&& stand_in_order(parts, spec_ws_wrapped_leading_nl(item, c))
        }),
{
    let before = spec_ws_comments(item.leading, c.nl);
    let behind = spec_ws_comments(item.following, c.nl);
    let follow = spec_ws_min(item.following, c);
    lemma_ws_order(item.leading, c);
    lemma_ws_order(item.following, c);
    lemma_stand3(before, spec_ws_min(item.leading, c), inner, item.content, behind, follow);
    lemma_stand3(before, spec_ws_single(item.leading, c), inner, item.content, behind, follow);
    lemma_stand3(before, spec_ws_nl(item.leading, c), inner, item.content, behind, follow);
}

/// The comments behind an identifier stand in their order in the rendered
/// identifier.
proof fn lemma_option_order(ident: Option<WsFollowedView<Seq<char>>>, c: ContextView)
    ensures
        stand_in_order(spec_ident_comments(ident, c.nl), spec_option(ident, c)),
{
    match ident {
        Some(ident) => {
            lemma_ws_order(ident.following, c);
            lemma_stand_behind(
                spec_ws_comments(ident.following, c.nl),
                ident.content,
                spec_ws_min(ident.following, c),
            );
        },
        None => {},
    }
}

/// The comments of a value stand in their order in the rendered value.
pub proof fn lemma_value_order(v: ValueView, c: ContextView)
    ensures
        stand_in_order(spec_value_comments(v, c.nl), spec_value(v, c)),
    decreases v, 1int, 0int,
{
    let nl = c.nl;
    let inner = c.increase();
    match v {
        ValueView::List(items) => {
            let texts = spec_values(items, inner);
            let n = items.values.len() as int;
            lemma_spec_values(items, inner);
            lemma_split_values_order(items, inner, n);
            lemma_ws_order(items.trailing_ws, c);
            lemma_stand_joined(
                spec_values_comments_first(items, nl, n),
                spec_split_first(texts.values, inner, n),
                spec_ws_comments(items.trailing_ws, nl),
                spec_ws_nl(items.trailing_ws, c),
            );
            lemma_stand_behind(spec_value_comments(v, nl), "["@, spec_separated_split(texts, c));
            lemma_stand_before(
                spec_value_comments(v, nl),
                "["@ + spec_separated_split(texts, c),
                "]"@,
            );
        },
        ValueView::Mapping(entries) => {
            let texts = spec_entries(entries, inner);
            let n = entries.values.len() as int;
            lemma_spec_entries(entries, inner);
            lemma_split_entries_order(entries, inner, n);
            lemma_ws_order(entries.trailing_ws, c);
            lemma_stand_joined(
                spec_entries_comments_first(entries, nl, n),
                spec_split_first(texts.values, inner, n),
                spec_ws_comments(entries.trailing_ws, nl),
                spec_ws_nl(entries.trailing_ws, c),
            );
            lemma_stand_behind(spec_value_comments(v, nl), "{"@, spec_separated_split(texts, c));
            lemma_stand_before(
                spec_value_comments(v, nl),
                "{"@ + spec_separated_split(texts, c),
                "}"@,
            );
        },
        ValueView::Tuple { ident, fields } => {
            let n = fields.values.len() as int;
            let name = spec_option(ident, c);
            let before = spec_ident_comments(ident, nl);
            let within = spec_values_comments_first(fields, nl, n);
            let behind = spec_ws_comments(fields.trailing_ws, nl);
            lemma_option_order(ident, c);
            lemma_stand_before(before, name, "("@);
            lemma_ws_order(fields.trailing_ws, c);
            if n > 1 {
                let texts = spec_values(fields, inner);
                lemma_spec_values(fields, inner);
                lemma_split_values_order(fields, inner, n);
                lemma_stand3(
                    before,
                    name + "("@,
                    within,
                    spec_split_first(texts.values, inner, n),
                    behind,
                    spec_ws_nl(fields.trailing_ws, c),
                );
                assert(name + "("@ + spec_split_first(texts.values, inner, n) + spec_ws_nl(
                    fields.trailing_ws,
                    c,
                ) =~= name + "("@ + spec_separated_split(texts, c));
                lemma_stand_before(
                    spec_value_comments(v, nl),
                    name + "("@ + spec_separated_split(texts, c),
                    ")"@,
                );
            } else {
                let texts = spec_values(fields, c);
                lemma_spec_values(fields, c);
                lemma_min_values_order(fields, c, n);
                lemma_stand3(
                    before,
                    name + "("@,
                    within,
                    spec_min_first(texts.values, c, n),
                    behind,
                    spec_ws_min(fields.trailing_ws, c),
                );
                assert(name + "("@ + spec_min_first(texts.values, c, n) + spec_ws_min(
                    fields.trailing_ws,
                    c,
                ) =~= name + "("@ + spec_separated_min(texts, c));
                lemma_stand_before(
                    spec_value_comments(v, nl),
                    name + "("@ + spec_separated_min(texts, c),
                    ")"@,
                );
            }
        },
        ValueView::Struct { ident, fields } => {
            let n = fields.values.len() as int;
            let name = spec_option(ident, c);
            let before = spec_ident_comments(ident, nl);
            let within = spec_entries_comments_first(fields, nl, n);
            let behind = spec_ws_comments(fields.trailing_ws, nl);
            let texts = spec_entries(fields, inner);
            lemma_option_order(ident, c);
            lemma_stand_before(before, name, "("@);
            lemma_ws_order(fields.trailing_ws, c);
            lemma_spec_entries(fields, inner);
            lemma_split_entries_order(fields, inner, n);
            lemma_stand3(
                before,
                name + "("@,
                within,
                spec_split_first(texts.values, inner, n),
                behind,
                spec_ws_nl(fields.trailing_ws, c),
            );
            assert(name + "("@ + spec_split_first(texts.values, inner, n) + spec_ws_nl(
                fields.trailing_ws,
                c,
            ) =~= name + "("@ + spec_separated_split(texts, c));
            lemma_stand_before(
                spec_value_comments(v, nl),
                name + "("@ + spec_separated_split(texts, c),
                ")"@,
            );
        },
        _ => {},
    }
}

/// The comments of an entry stand in their order in the rendered entry.
proof fn lemma_entry_order(e: EntryView, c: ContextView)
    ensures
        stand_in_order(spec_entry_comments(e, c.nl), spec_entry(e, c)),
    decreases e, 1int, 0int,
{
    let nl = c.nl;
    let head = e.key + spec_ws_min(e.after_key, c) + ":"@;
    lemma_ws_order(e.after_key, c);
    lemma_ws_order(e.value.leading, c);
    lemma_value_order(e.value.content, c);
    lemma_stand_behind(spec_ws_comments(e.after_key, nl), e.key, spec_ws_min(e.after_key, c));
    lemma_stand_before(
        spec_ws_comments(e.after_key, nl),
        e.key + spec_ws_min(e.after_key, c),
        ":"@,
    );
    lemma_stand3(
        spec_ws_comments(e.after_key, nl),
        head,
        spec_ws_comments(e.value.leading, nl),
        spec_ws_single(e.value.leading, c),
        spec_value_comments(e.value.content, nl),
        spec_value(e.value.content, c),
    );
    assert(head + spec_ws_single(e.value.leading, c) + spec_value(e.value.content, c) =~= head
        + (spec_ws_single(e.value.leading, c) + spec_value(e.value.content, c)));
}

/// The comments of the first `n` values stand in their order in those
/// values laid out one on each line.
proof fn lemma_split_values_order(s: SeparatedView<ValueView>, c: ContextView, n: int)
    requires
        0 <= n <= s.values.len(),
    ensures
        stand_in_order(
            spec_values_comments_first(s, c.nl, n),
            spec_split_first(spec_values(s, c).values, c, n),
        ),
    decreases s, 0int, n,
{
    if n > 0 {
        let texts = spec_values(s, c).values;
        let item = s.values[n - 1];
        lemma_spec_values(s, c);
        lemma_split_values_order(s, c, n - 1);
        lemma_value_order(item.content, c);
        lemma_wrapped_order(texts[n - 1], spec_value_comments(item.content, c.nl), c);
        lemma_stand_joined(
            spec_values_comments_first(s, c.nl, n - 1),
            spec_split_first(texts, c, n - 1),
            spec_ws_comments(item.leading, c.nl) + spec_value_comments(item.content, c.nl)
                + spec_ws_comments(item.following, c.nl),
            spec_ws_wrapped_leading_nl(texts[n - 1], c),
        );
        lemma_stand_before(
            spec_values_comments_first(s, c.nl, n - 1) + (spec_ws_comments(item.leading, c.nl)
                + spec_value_comments(item.content, c.nl) + spec_ws_comments(
                item.following,
                c.nl,
            )),
            spec_split_first(texts, c, n - 1) + spec_ws_wrapped_leading_nl(texts[n - 1], c),
            ","@,
        );
        assert(spec_values_comments_first(s, c.nl, n) =~= spec_values_comments_first(
            s,
            c.nl,
            n - 1,
        ) + (spec_ws_comments(item.leading, c.nl) + spec_value_comments(item.content, c.nl)
            + spec_ws_comments(item.following, c.nl)));
    }
}

/// The comments of the first `n` values stand in their order in those
/// values laid out on one line.
proof fn lemma_min_values_order(s: SeparatedView<ValueView>, c: ContextView, n: int)
    requires
        0 <= n <= s.values.len(),
    ensures
        stand_in_order(
            spec_values_comments_first(s, c.nl, n),
            spec_min_first(spec_values(s, c).values, c, n),
        ),
    decreases s, 0int, n,
{
    if n > 0 {
        let texts = spec_values(s, c).values;
        let item = s.values[n - 1];
        let around = spec_ws_comments(item.leading, c.nl) + spec_value_comments(
            item.content,
            c.nl,
        ) + spec_ws_comments(item.following, c.nl);
        lemma_spec_values(s, c);
        lemma_min_values_order(s, c, n - 1);
        lemma_value_order(item.content, c);
        lemma_wrapped_order(texts[n - 1], spec_value_comments(item.content, c.nl), c);
        assert(spec_values_comments_first(s, c.nl, n) =~= spec_values_comments_first(
            s,
            c.nl,
            n - 1,
        ) + around);
        if n == 1 {
            assert(spec_values_comments_first(s, c.nl, 0) + around =~= around);
        } else {
            lemma_stand_before(
                spec_values_comments_first(s, c.nl, n - 1),
                spec_min_first(texts, c, n - 1),
                ","@,
            );
            lemma_stand_joined(
                spec_values_comments_first(s, c.nl, n - 1),
                spec_min_first(texts, c, n - 1) + ","@,
                around,
                spec_ws_wrapped_leading_single(texts[n - 1], c),
            );
        }
    }
}

/// The comments of the first `n` entries stand in their order in those
/// entries laid out one on each line.
proof fn lemma_split_entries_order(s: SeparatedView<EntryView>, c: ContextView, n: int)
    requires
        0 <= n <= s.values.len(),
    ensures
        stand_in_order(
            spec_entries_comments_first(s, c.nl, n),
            spec_split_first(spec_entries(s, c).values, c, n),
        ),
    decreases s, 0int, n,
{
    if n > 0 {
        let texts = spec_entries(s, c).values;
        let item = s.values[n - 1];
        let around = spec_ws_comments(item.leading, c.nl) + spec_entry_comments(
            item.content,
            c.nl,
        ) + spec_ws_comments(item.following, c.nl);
        lemma_spec_entries(s, c);
        lemma_split_entries_order(s, c, n - 1);
        lemma_entry_order(item.content, c);
        lemma_wrapped_order(texts[n - 1], spec_entry_comments(item.content, c.nl), c);
        lemma_stand_joined(
            spec_entries_comments_first(s, c.nl, n - 1),
            spec_split_first(texts, c, n - 1),
            around,
            spec_ws_wrapped_leading_nl(texts[n - 1], c),
        );
        lemma_stand_before(
            spec_entries_comments_first(s, c.nl, n - 1) + around,
            spec_split_first(texts, c, n - 1) + spec_ws_wrapped_leading_nl(texts[n - 1], c),
            ","@,
        );
        assert(spec_entries_comments_first(s, c.nl, n) =~= spec_entries_comments_first(
            s,
            c.nl,
            n - 1,
        ) + around);
    }
}

/// The comments around the first `n` names stand in their order in those
/// names laid out on one line.
proof fn lemma_min_names_order(s: SeparatedView<Seq<char>>, c: ContextView, n: int)
    requires
        0 <= n <= s.values.len(),
    ensures
        stand_in_order(spec_names_comments_first(s, c.nl, n), spec_min_first(s.values, c, n)),
    decreases n,
{
    if n > 0 {
        let item = s.values[n - 1];
        let around = spec_ws_comments(item.leading, c.nl) + spec_ws_comments(
            item.following,
            c.nl,
        );
        lemma_min_names_order(s, c, n - 1);
        lemma_none_stands(item.content);
        lemma_wrapped_order(item, Seq::empty(), c);
        assert(spec_ws_comments(item.leading, c.nl) + Seq::<Seq<char>>::empty()
            + spec_ws_comments(item.following, c.nl) =~= around);
        assert(spec_names_comments_first(s, c.nl, n) =~= spec_names_comments_first(s, c.nl, n - 1)
            + around);
        if n == 1 {
            assert(spec_names_comments_first(s, c.nl, 0) + around =~= around);
        } else {
            lemma_stand_before(
                spec_names_comments_first(s, c.nl, n - 1),
                spec_min_first(s.values, c, n - 1),
                ","@,
            );
            lemma_stand_joined(
                spec_names_comments_first(s, c.nl, n - 1),
                spec_min_first(s.values, c, n - 1) + ","@,
                around,
                spec_ws_wrapped_leading_single(item, c),
            );
        }
    }
}

/// A text with its parts, then a text without parts, then a run of
/// whitespace with its comments.
proof fn lemma_stand_token_ws(
    parts: Seq<Seq<char>>,
    hay: Seq<char>,
    token: Seq<char>,
    ws: Seq<WsView>,
    c: ContextView,
)
    requires
        stand_in_order(parts, hay),
    ensures
        stand_in_order(
            parts + spec_ws_comments(ws, c.nl),
            hay + token + spec_ws_min(ws, c),
        ),
{
    lemma_stand_before(parts, hay, token);
    lemma_ws_order(ws, c);
    lemma_stand_joined(parts, hay + token, spec_ws_comments(ws, c.nl), spec_ws_min(ws, c));
}

/// The comments of a header stand in their order in the rendered header.
proof fn lemma_extension_order(e: WsLeadView<AttributeView>, c: ContextView)
    ensures
        stand_in_order(spec_extension_comments(e, c.nl), spec_extension(e, c)),
{
    let a = e.content;
    let nl = c.nl;
    let names = a.extensions;
    let n = names.values.len() as int;
    let parts0 = spec_ws_comments(e.leading, nl);
    let t0 = spec_ws_min(e.leading, c);
    lemma_ws_order(e.leading, c);
    let parts1 = parts0 + spec_ws_comments(a.after_pound, nl);
    let t1 = t0 + "#"@ + spec_ws_min(a.after_pound, c);
    lemma_stand_token_ws(parts0, t0, "#"@, a.after_pound, c);
    let parts2 = parts1 + spec_ws_comments(a.after_exclamation, nl);
    let t2 = t1 + "!"@ + spec_ws_min(a.after_exclamation, c);
    lemma_stand_token_ws(parts1, t1, "!"@, a.after_exclamation, c);
    let parts3 = parts2 + spec_ws_comments(a.after_bracket, nl);
    let t3 = t2 + "["@ + spec_ws_min(a.after_bracket, c);
    lemma_stand_token_ws(parts2, t2, "["@, a.after_bracket, c);
    let parts4 = parts3 + spec_ws_comments(a.after_enable, nl);
    let t4 = t3 + "enable"@ + spec_ws_min(a.after_enable, c);
    lemma_stand_token_ws(parts3, t3, "enable"@, a.after_enable, c);
    let parts5 = parts4 + spec_names_comments_first(names, nl, n);
    let t5 = t4 + "("@ + spec_min_first(names.values, c, n);
    lemma_stand_before(parts4, t4, "("@);
    lemma_min_names_order(names, c, n);
    lemma_stand_joined(
        parts4,
        t4 + "("@,
        spec_names_comments_first(names, nl, n),
        spec_min_first(names.values, c, n),
    );
    let parts6 = parts5 + spec_ws_comments(names.trailing_ws, nl);
    let t6 = t5 + spec_ws_min(names.trailing_ws, c);
    lemma_ws_order(names.trailing_ws, c);
    lemma_stand_joined(
        parts5,
        t5,
        spec_ws_comments(names.trailing_ws, nl),
        spec_ws_min(names.trailing_ws, c),
    );
    let parts7 = parts6 + spec_ws_comments(a.after_paren, nl);
    let t7 = t6 + ")"@ + spec_ws_min(a.after_paren, c);
    lemma_stand_token_ws(parts6, t6, ")"@, a.after_paren, c);
    lemma_stand_before(parts7, t7, "]"@);
    assert(t7 + "]"@ =~= spec_extension(e, c));
}

/// The comments of the first `n` headers stand in their order in those
/// headers rendered.
proof fn lemma_extensions_order(es: Seq<WsLeadView<AttributeView>>, c: ContextView, n: int)
    requires
        0 <= n <= es.len(),
    ensures
        stand_in_order(
            spec_extensions_comments_first(es, c.nl, n),
            spec_extensions_first(es, c, n),
        ),
    decreases n,
{
    if n > 0 {
        lemma_extensions_order(es, c, n - 1);
        lemma_extension_order(es[n - 1], c);
        lemma_stand_joined(
            spec_extensions_comments_first(es, c.nl, n - 1),
            spec_extensions_first(es, c, n - 1),
            spec_extension_comments(es[n - 1], c.nl),
            spec_extension(es[n - 1], c),
        );
    }
}

/// The comments keep their order. The comments of a document, each rendered
/// from its `//` to the end of its line or from its `/*` to its `*/`, stand
/// in the rendered document in the order in which they stand in the
/// document, each behind the end of the one before it.
pub proof fn lemma_comments_keep_their_order(file: FileView, nl: Newline)
    ensures
        stand_in_order(spec_file_comments(file, nl), spec_format_with(file, nl)),
{
    let c = ContextView { indent: 0, nl };
    let n = file.extensions.len() as int;
    let headers = spec_extensions(file.extensions, c);
    let value = spec_value(file.value.content, c);
    let parts0 = spec_extensions_comments_first(file.extensions, nl, n);
    let parts1 = spec_ws_comments(file.value.leading, nl);
    let parts2 = spec_value_comments(file.value.content, nl);
    let parts3 = spec_ws_comments(file.trailing_ws, nl);
    lemma_extensions_order(file.extensions, c, n);
    lemma_ws_order(file.value.leading, c);
    lemma_value_order(file.value.content, c);
    lemma_ws_order(file.trailing_ws, c);
    if n == 0 {
        let lead = spec_ws_min(file.value.leading, c);
        lemma_stand3(parts0, headers, parts1, lead, parts2, value);
        lemma_stand_joined(
            parts0 + parts1 + parts2,
            headers + lead + value,
            parts3,
            spec_ws_nl(file.trailing_ws, c),
        );
        assert(headers + lead + value + spec_ws_nl(file.trailing_ws, c) =~= spec_format_with(
            file,
            nl,
        ));
    } else {
        let lead = spec_ws_nl(file.value.leading, c);
        let behind = spec_ws_min(file.trailing_ws, c);
        lemma_stand3(parts0, headers, parts1, lead, parts2, value);
        lemma_stand_joined(parts0 + parts1 + parts2, headers + lead + value, parts3, behind);
        lemma_stand_before(
            parts0 + parts1 + parts2 + parts3,
            headers + lead + value + behind,
            spec_ws_nl(file.trailing_ws, c),
        );
        assert(headers + lead + value + behind + spec_ws_nl(file.trailing_ws, c)
            =~= spec_format_with(file, nl));
    }
}

} // verus!
