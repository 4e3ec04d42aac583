//! The loss-less syntax tree of a RON document: every value, and around each
//! the whitespace and the comments that stood there.
//!
//! Literals, identifiers and comments are held as the text that was read. The
//! renderer copies them; it never derives them again from a decoded value.

use vstd::prelude::*;

verus! {

/// One piece of whitespace between two tokens.
#[derive(Debug, PartialEq, Eq)]
pub enum Ws {
    /// A comment from `//` to the end of the line. The text is what follows
    /// the `//`, the line ending included where there is one.
    LineComment(String),
    /// Blanks, tabs and line breaks.
    Space,
    /// A comment between `/*` and `*/`. The text is what stands between them.
    BlockComment(String),
}

/// The whitespace between two tokens, in the order it was read.
#[derive(Debug, PartialEq, Eq)]
pub struct Whitespace(pub Vec<Ws>);

/// Something with the whitespace before it.
#[derive(Debug, PartialEq, Eq)]
pub struct WsLead<T> {
    pub leading: Whitespace,
    pub content: T,
}

/// Something with the whitespace after it.
#[derive(Debug, PartialEq, Eq)]
pub struct WsFollowed<T> {
    pub content: T,
    pub following: Whitespace,
}

/// Something with the whitespace on both sides of it.
#[derive(Debug, PartialEq, Eq)]
pub struct WsWrapped<T> {
    pub leading: Whitespace,
    pub content: T,
    pub following: Whitespace,
}

/// Items that were separated by commas.
#[derive(Debug, PartialEq, Eq)]
pub struct Separated<T> {
    pub values: Vec<WsWrapped<T>>,
    /// Whether a comma stood behind the last item. The renderer does not
    /// read this.
    pub trailing_comma: bool,
    /// The whitespace between the last item, or its comma, and the closing
    /// delimiter.
    pub trailing_ws: Whitespace,
}

/// A value.
#[derive(Debug, PartialEq, Eq)]
#[allow(inconsistent_fields)]
pub enum Value {
    /// An integer literal.
    Int(String),
    /// A literal with a fraction or an exponent, `inf` or `NaN`.
    Float(String),
    /// A string literal with its delimiters.
    Str(String),
    /// A character literal with its quotes.
    Char(String),
    /// `true` or `false`.
    Bool(String),
    /// `[a, b]`
    List(Separated<Value>),
    /// `{k: a, l: b}`
    Mapping(Separated<Entry>),
    /// A bare identifier.
    Unit(String),
    /// `(a, b)` or `Name(a, b)`
    Tuple { ident: Option<WsFollowed<String>>, fields: Separated<Value> },
    /// `(x: a, y: b)` or `Name(x: a, y: b)`
    Struct { ident: Option<WsFollowed<String>>, fields: Separated<Entry> },
}

/// A key with its value: an entry of a map, or a named field of a struct.
#[derive(Debug, PartialEq, Eq)]
pub struct Entry {
    /// The key as it was written: a field name, or the text of a map key.
    pub key: String,
    /// The whitespace between the key and the colon.
    pub after_key: Whitespace,
    /// The value, with the whitespace between the colon and it.
    pub value: WsLead<Value>,
}

/// A header `#![enable(name, ...)]`. Each field named `after_..` is the
/// whitespace behind that token.
#[derive(Debug, PartialEq, Eq)]
pub struct Attribute {
    pub after_pound: Whitespace,
    pub after_exclamation: Whitespace,
    pub after_bracket: Whitespace,
    pub after_enable: Whitespace,
    pub extensions: Separated<String>,
    pub after_paren: Whitespace,
}

/// A document: its headers, its one value, and the whitespace behind it.
#[derive(Debug, PartialEq, Eq)]
pub struct File {
    pub extensions: Vec<WsLead<Attribute>>,
    pub value: WsLead<Value>,
    pub trailing_ws: Whitespace,
}

} // verus!
