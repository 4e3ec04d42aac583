//! Rendering a run of whitespace: the blanks are dropped, the comments are
//! kept, and what separates them is decided by one thing carried along the
//! run, the separator that is still owed.
//!
//! A run starts with one space owed. A comment is preceded by the owed
//! separator. After a line comment nothing is owed, because the comment ends
//! with a line break and the indent; after a block comment one space is owed.
//! The three policies differ only in what they put at the end of the run.

use vstd::prelude::*;
use vstd::string::StringExecFns;

use crate::context::{Context, ContextView};
use crate::model::WsView;
use crate::syntax::{Whitespace, Ws};
use crate::text::{
    delimited_with_spaces, spec_delimited_with_spaces, spec_start_with_space,
    spec_without_trailing_nl, start_with_space, without_trailing_nl,
};

verus! {

/// The owed separator as text: one space, or nothing.
pub open spec fn spec_separator(space: bool) -> Seq<char> {
    if space {
        " "@
    } else {
        Seq::empty()
    }
}

/// What one piece of whitespace renders to when `space` says whether a space
/// is owed before it.
pub open spec fn spec_ws_inner(ws: WsView, c: ContextView, space: bool) -> Seq<char> {
    match ws {
        WsView::LineComment(text) => spec_separator(space) + "//"@ + spec_start_with_space(
            spec_without_trailing_nl(text),
        ) + c.line_start(),
        WsView::Space => Seq::empty(),
        WsView::BlockComment(text) => spec_separator(space) + "/*"@ + spec_delimited_with_spaces(
            text,
        ) + "*/"@,
    }
}

/// Whether a space is owed after one piece of whitespace, when `space` says
/// whether one was owed before it.
pub open spec fn spec_space_after(ws: WsView, space: bool) -> bool {
    match ws {
        WsView::LineComment(_) => false,
        WsView::Space => space,
        WsView::BlockComment(_) => true,
    }
}

/// Whether a space is owed behind the first `n` pieces of `ws`.
pub open spec fn spec_space_owed_after(ws: Seq<WsView>, n: int) -> bool
    recommends
        n <= ws.len(),
    decreases n,
{
    if n <= 0 {
        true
    } else {
        spec_space_after(ws[n - 1], spec_space_owed_after(ws, n - 1))
    }
}

/// Whether a space is owed at the end of the run `ws`.
pub open spec fn spec_space_owed(ws: Seq<WsView>) -> bool {
    spec_space_owed_after(ws, ws.len() as int)
}

/// The first `n` pieces of `ws` rendered: each piece in turn, each with the
/// separator that the pieces before it left owed.
pub open spec fn spec_ws_first(ws: Seq<WsView>, c: ContextView, n: int) -> Seq<char>
    recommends
        n <= ws.len(),
    decreases n,
{
    if n <= 0 {
        Seq::empty()
    } else {
        spec_ws_first(ws, c, n - 1) + spec_ws_inner(ws[n - 1], c, spec_space_owed_after(ws, n - 1))
    }
}

/// The run `ws` rendered with nothing added at its end.
pub open spec fn spec_ws_min(ws: Seq<WsView>, c: ContextView) -> Seq<char> {
    spec_ws_first(ws, c, ws.len() as int)
}

/// The run `ws` rendered, then one space.
pub open spec fn spec_ws_single(ws: Seq<WsView>, c: ContextView) -> Seq<char> {
    spec_ws_min(ws, c) + " "@
}

/// The run `ws` rendered, then a new line at the indent of `c` unless the
/// run has just started one: that is, where a separator is still owed.
pub open spec fn spec_ws_nl(ws: Seq<WsView>, c: ContextView) -> Seq<char> {
    spec_ws_min(ws, c) + if spec_space_owed(ws) {
        c.line_start()
    } else {
        Seq::empty()
    }
}

/// Appends one piece of whitespace to `out`. `space` says whether a space is
/// owed before it, and afterwards whether one is owed behind it.
pub fn ws_inner(ws: &Ws, c: Context, space: &mut bool, out: &mut String)
    ensures
        final(out)@ == old(out)@ + spec_ws_inner(ws@, c@, *old(space)),
        *final(space) == spec_space_after(ws@, *old(space)),
{
    match ws {
        Ws::LineComment(text) => {
            if *space {
                out.append(" ");
            }
            out.append("//");
            let comment = start_with_space(without_trailing_nl(text.as_str()));
            out.append(comment.as_str());
            c.line_start(out);
            *space = false;
        },
        Ws::Space => {},
        Ws::BlockComment(text) => {
            if *space {
                out.append(" ");
            }
            out.append("/*");
            let comment = delimited_with_spaces(text.as_str());
            out.append(comment.as_str());
            out.append("*/");
            *space = true;
        },
    }
}

/// Appends the pieces of `ws` to `out` and returns whether a space is owed
/// behind them.
fn ws_run(ws: &Whitespace, c: Context, out: &mut String) -> (space: bool)
    ensures
        final(out)@ == old(out)@ + spec_ws_min(ws@, c@),
        space == spec_space_owed(ws@),
{
    let mut space = true;
    let mut i: usize = 0;
    while i < ws.0.len()
        invariant
            i <= ws.0.len(),
            ws@.len() == ws.0.len(),
            out@ == old(out)@ + spec_ws_first(ws@, c@, i as int),
            space == spec_space_owed_after(ws@, i as int),
        decreases ws.0.len() - i,
    {
        ws_inner(&ws.0[i], c, &mut space, out);
        i = i + 1;
    }
    space
}

/// Appends the run `ws` to `out` with nothing added at its end.
pub fn ws_min(ws: &Whitespace, c: Context, out: &mut String)
    ensures
        final(out)@ == old(out)@ + spec_ws_min(ws@, c@),
{
    let _ = ws_run(ws, c, out);
}

/// Appends the run `ws` to `out`, then one space.
pub fn ws_single(ws: &Whitespace, c: Context, out: &mut String)
    ensures
        final(out)@ == old(out)@ + spec_ws_single(ws@, c@),
{
    let _ = ws_run(ws, c, out);
    out.append(" ");
}

/// Appends the run `ws` to `out`, then a new line at the indent of `c`
/// unless the run ended in a line comment.
pub fn ws_nl(ws: &Whitespace, c: Context, out: &mut String)
    ensures
        final(out)@ == old(out)@ + spec_ws_nl(ws@, c@),
{
    let space = ws_run(ws, c, out);
    if space {
        c.line_start(out);
    }
}

} // verus!
