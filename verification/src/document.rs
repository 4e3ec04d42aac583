//! Rendering a document: its headers, its value, and the whitespace behind
//! it.

use vstd::prelude::*;
use vstd::string::StringExecFns;

use crate::context::{Context, ContextView, Newline};
use crate::joined::lemma_concat2;
use crate::layout::{
    separated_min_names, spec_separated_min, spec_value, spec_ws_lead_min, spec_ws_lead_nl,
};
use crate::model::{extensions_view, AttributeView, FileView, WsLeadView};
use crate::syntax::{Attribute, WsLead};
use crate::whitespace::{spec_ws_min, spec_ws_nl, ws_min};

verus! {

/// The text of a header: `#![enable(..)]` behind its leading whitespace,
/// with the comments that stood between its tokens and with its names on one
/// line.
pub open spec fn spec_extension(e: WsLeadView<AttributeView>, c: ContextView) -> Seq<char> {
    spec_ws_min(e.leading, c) + "#"@ + spec_ws_min(e.content.after_pound, c) + "!"@ + spec_ws_min(
        e.content.after_exclamation,
        c,
    ) + "["@ + spec_ws_min(e.content.after_bracket, c) + "enable"@ + spec_ws_min(
        e.content.after_enable,
        c,
    ) + "("@ + spec_separated_min(e.content.extensions, c) + ")"@ + spec_ws_min(
        e.content.after_paren,
        c,
    ) + "]"@
}

/// The texts of the first `n` headers, one behind the other.
pub open spec fn spec_extensions_first(
    es: Seq<WsLeadView<AttributeView>>,
    c: ContextView,
    n: int,
) -> Seq<char>
    recommends
        n <= es.len(),
    decreases n,
{
    if n <= 0 {
        Seq::empty()
    } else {
        spec_extensions_first(es, c, n - 1) + spec_extension(es[n - 1], c)
    }
}

/// The texts of the headers, one behind the other.
pub open spec fn spec_extensions(es: Seq<WsLeadView<AttributeView>>, c: ContextView) -> Seq<char> {
    spec_extensions_first(es, c, es.len() as int)
}

/// The text of a document with the line ending `nl`.
///
/// The headers come first. Without a header the value follows its leading
/// whitespace directly. With a header the value starts on a line of its own
/// and the trailing whitespace of the document stands behind it. In both
/// cases the trailing whitespace of the document comes last and ends the
/// last line.
pub open spec fn spec_format_with(file: FileView, nl: Newline) -> Seq<char> {
    let c = ContextView { indent: 0, nl };
    let value = spec_value(file.value.content, c);
    spec_extensions(file.extensions, c) + (if file.extensions.len() == 0 {
        spec_ws_lead_min(file.value.leading, value, c)
    } else {
        spec_ws_lead_nl(file.value.leading, value, c) + spec_ws_min(file.trailing_ws, c)
    }) + spec_ws_nl(file.trailing_ws, c)
}

/// The text of a document with line feeds as line endings.
pub open spec fn spec_format(file: FileView) -> Seq<char> {
    spec_format_with(file, Newline::Lf)
}

/// Appends one header to `out`.
pub fn extension(e: &WsLead<Attribute>, c: Context, out: &mut String)
    ensures
        final(out)@ == old(out)@ + spec_extension(e@, c@),
{
    ws_min(&e.leading, c, out);
    out.append("#");
    ws_min(&e.content.after_pound, c, out);
    out.append("!");
    ws_min(&e.content.after_exclamation, c, out);
    out.append("[");
    ws_min(&e.content.after_bracket, c, out);
    out.append("enable");
    ws_min(&e.content.after_enable, c, out);
    out.append("(");
    separated_min_names(&e.content.extensions, c, out);
    out.append(")");
    ws_min(&e.content.after_paren, c, out);
    out.append("]");
}

/// Appends the headers to `out`, one behind the other.
pub fn extensions(es: &Vec<WsLead<Attribute>>, c: Context, out: &mut String)
    ensures
        final(out)@ == old(out)@ + spec_extensions(extensions_view(es@), c@),
{
    let ghost views = extensions_view(es@);
    let mut i: usize = 0;
    while i < es.len()
        invariant
            i <= es.len(),
            views == extensions_view(es@),
            views.len() == es.len(),
            out@ == old(out)@ + spec_extensions_first(views, c@, i as int),
        decreases es.len() - i,
    {
        proof {
            lemma_concat2(
                old(out)@,
                spec_extensions_first(views, c@, i as int),
                spec_extension(views[i as int], c@),
            );
        }
        extension(&es[i], c, out);
        i = i + 1;
    }
}

} // verus!
