//! A formatter for RON documents that keeps every comment.
//!
//! The input is a loss-less syntax tree, a [`File`]: every value together
//! with the whitespace and the comments around it. [`format`](crate::format)
//! lays the tree out in one canonical style: lists, maps and structs with one
//! item on each line, a tuple of one field on the line where it stands, and
//! each comment where it stood.
//!
//! The text of a document is defined in [`document::spec_format_with`], over
//! the views of [`model`], and every function that renders is proved to
//! append exactly the text that its definition gives. Four properties of
//! that text are proved for all documents: no comment is lost
//! ([`comments`]), the comments keep their order ([`order`]), tuples and
//! structs are split as the style says ([`lines`]), and every line ending
//! of the output is in one convention ([`newlines`]).
//!
//! The renderer calls itself once for each level of nesting, so it renders a
//! document only where the nesting ends within [`MAX_DEPTH`] levels;
//! [`try_format`] tests that first.

use vstd::prelude::*;

pub mod comments;
pub mod context;
pub mod document;
pub mod joined;
pub mod layout;
pub mod lines;
pub mod model;
pub mod nesting;
pub mod newlines;
pub mod order;
pub mod stable;
pub mod syntax;
pub mod text;
pub mod whitespace;

pub use context::{Context, Indent, Newline, MAX_DEPTH};
pub use syntax::{
    Attribute, Entry, File, Separated, Value, Whitespace, Ws, WsFollowed, WsLead, WsWrapped,
};

use document::{extensions, spec_format, spec_format_with};
use joined::lemma_concat2;
use layout::{spec_value, spec_ws_lead_nl, ws_lead_min, ws_lead_nl};
use nesting::lemma_fits;
use whitespace::{spec_ws_min, ws_min, ws_nl};

verus! {

/// Renders a document with the line ending `nl`. The value of the document
/// must nest at most [`MAX_DEPTH`] deep.
#[must_use]
pub fn format_with(file: &File, nl: Newline) -> (out: String)
    requires
        file@.nests_within(MAX_DEPTH as nat),
    ensures
        out@ == spec_format_with(file@, nl),
{
    let mut out = String::new();
    let c = Context { indent: Indent(0), nl };
    extensions(&file.extensions, c, &mut out);
    let ghost headers = out@;
    let ghost value = spec_value(file@.value.content, c@);
    proof {
        lemma_fits(file@.value.content, c@);
    }
    if file.extensions.len() == 0 {
        ws_lead_min(&file.value, c, &mut out);
    } else {
        ws_lead_nl(&file.value, c, &mut out);
        ws_min(&file.trailing_ws, c, &mut out);
        proof {
            lemma_concat2(
                headers,
                spec_ws_lead_nl(file@.value.leading, value, c@),
                spec_ws_min(file@.trailing_ws, c@),
            );
        }
    }
    ws_nl(&file.trailing_ws, c, &mut out);
    out
}

/// Renders a document with line feeds as line endings. The value of the
/// document must nest at most [`MAX_DEPTH`] deep.
#[must_use]
pub fn format(file: &File) -> (out: String)
    requires
        file@.nests_within(MAX_DEPTH as nat),
    ensures
        out@ == spec_format(file@),
{
    format_with(file, Newline::Lf)
}

/// Renders a document with the line ending `nl`, or returns `None` where
/// its value nests more than [`MAX_DEPTH`] deep.
pub fn try_format(file: &File, nl: Newline) -> (out: Option<String>)
    ensures
        match out {
            Some(text) => file@.nests_within(MAX_DEPTH as nat) && text@ == spec_format_with(
                file@,
                nl,
            ),
            None => !file@.nests_within(MAX_DEPTH as nat),
        },
{
    if file.nests_within(MAX_DEPTH) {
        Some(format_with(file, nl))
    } else {
        None
    }
}

} // verus!
