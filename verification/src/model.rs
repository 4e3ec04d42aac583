//! The syntax tree as mathematics: the same shapes as in [`crate::syntax`],
//! with sequences of characters for the texts. The contracts of the renderer
//! are stated over these.

use vstd::prelude::*;

use crate::syntax::{
    Attribute, Entry, File, Separated, Value, Whitespace, Ws, WsFollowed, WsLead, WsWrapped,
};

verus! {

/// The view of a [`Ws`].
pub ghost enum WsView {
    LineComment(Seq<char>),
    Space,
    BlockComment(Seq<char>),
}

/// The view of a [`WsLead`].
pub ghost struct WsLeadView<T> {
    pub leading: Seq<WsView>,
    pub content: T,
}

/// The view of a [`WsFollowed`].
pub ghost struct WsFollowedView<T> {
    pub content: T,
    pub following: Seq<WsView>,
}

/// The view of a [`WsWrapped`].
pub ghost struct WsWrappedView<T> {
    pub leading: Seq<WsView>,
    pub content: T,
    pub following: Seq<WsView>,
}

/// The view of a [`Separated`].
pub ghost struct SeparatedView<T> {
    pub values: Seq<WsWrappedView<T>>,
    pub trailing_comma: bool,
    pub trailing_ws: Seq<WsView>,
}

/// The view of a [`Value`].
#[allow(inconsistent_fields)]
pub ghost enum ValueView {
    Int(Seq<char>),
    Float(Seq<char>),
    Str(Seq<char>),
    Char(Seq<char>),
    Bool(Seq<char>),
    List(SeparatedView<ValueView>),
    Mapping(SeparatedView<EntryView>),
    Unit(Seq<char>),
    Tuple { ident: Option<WsFollowedView<Seq<char>>>, fields: SeparatedView<ValueView> },
    Struct { ident: Option<WsFollowedView<Seq<char>>>, fields: SeparatedView<EntryView> },
}

/// The view of an [`Entry`].
pub ghost struct EntryView {
    pub key: Seq<char>,
    pub after_key: Seq<WsView>,
    pub value: WsLeadView<ValueView>,
}

/// The view of an [`Attribute`].
pub ghost struct AttributeView {
    pub after_pound: Seq<WsView>,
    pub after_exclamation: Seq<WsView>,
    pub after_bracket: Seq<WsView>,
    pub after_enable: Seq<WsView>,
    pub extensions: SeparatedView<Seq<char>>,
    pub after_paren: Seq<WsView>,
}

/// The view of a [`File`].
pub ghost struct FileView {
    pub extensions: Seq<WsLeadView<AttributeView>>,
    pub value: WsLeadView<ValueView>,
    pub trailing_ws: Seq<WsView>,
}

impl View for Ws {
    type V = WsView;

    open spec fn view(&self) -> WsView {
        match self {
            Ws::LineComment(text) => WsView::LineComment(text@),
            Ws::Space => WsView::Space,
            Ws::BlockComment(text) => WsView::BlockComment(text@),
        }
    }
}

impl View for Whitespace {
    type V = Seq<WsView>;

    open spec fn view(&self) -> Seq<WsView> {
        self.0@.map_values(|ws: Ws| ws@)
    }
}

/// The view of an optional identifier.
pub open spec fn ident_view(ident: Option<WsFollowed<String>>) -> Option<
    WsFollowedView<Seq<char>>,
> {
    match ident {
        Some(ident) => Some(ident@),
        None => None,
    }
}

/// The view of a value. The views of the types that a value is made of are
/// this function and the three that follow.
pub open spec fn value_view(v: Value) -> ValueView
    decreases v,
{
    match v {
        Value::Int(text) => ValueView::Int(text@),
        Value::Float(text) => ValueView::Float(text@),
        Value::Str(text) => ValueView::Str(text@),
        Value::Char(text) => ValueView::Char(text@),
        Value::Bool(text) => ValueView::Bool(text@),
        Value::List(items) => ValueView::List(values_view(items)),
        Value::Mapping(entries) => ValueView::Mapping(entries_view(entries)),
        Value::Unit(text) => ValueView::Unit(text@),
        Value::Tuple { ident, fields } => ValueView::Tuple {
            ident: ident_view(ident),
            fields: values_view(fields),
        },
        Value::Struct { ident, fields } => ValueView::Struct {
            ident: ident_view(ident),
            fields: entries_view(fields),
        },
    }
}

/// The view of an entry.
pub open spec fn entry_view(e: Entry) -> EntryView
    decreases e,
{
    EntryView {
        key: e.key@,
        after_key: e.after_key@,
        value: WsLeadView { leading: e.value.leading@, content: value_view(e.value.content) },
    }
}

/// The view of a sequence of values.
#[verifier::opaque]
pub open spec fn values_view(s: Separated<Value>) -> SeparatedView<ValueView>
    decreases s,
{
    SeparatedView {
        values: Seq::new(
            s.values.len() as nat,
            |i: int|
                if 0 <= i < s.values.len() {
                    WsWrappedView {
                        leading: s.values[i].leading@,
                        content: value_view(s.values[i].content),
                        following: s.values[i].following@,
                    }
                } else {
                    arbitrary()
                },
        ),
        trailing_comma: s.trailing_comma,
        trailing_ws: s.trailing_ws@,
    }
}

/// The view of a sequence of entries.
#[verifier::opaque]
pub open spec fn entries_view(s: Separated<Entry>) -> SeparatedView<EntryView>
    decreases s,
{
    SeparatedView {
        values: Seq::new(
            s.values.len() as nat,
            |i: int|
                if 0 <= i < s.values.len() {
                    WsWrappedView {
                        leading: s.values[i].leading@,
                        content: entry_view(s.values[i].content),
                        following: s.values[i].following@,
                    }
                } else {
                    arbitrary()
                },
        ),
        trailing_comma: s.trailing_comma,
        trailing_ws: s.trailing_ws@,
    }
}

/// The view of a sequence of values is made of the views of its parts.
pub proof fn lemma_values_view(s: &Separated<Value>)
    ensures
        s@.values.len() == s.values.len(),
        forall|i: int| 0 <= i < s.values.len() ==> #[trigger] s@.values[i] == s.values[i]@,
        s@.trailing_comma == s.trailing_comma,
        s@.trailing_ws == s.trailing_ws@,
{
    reveal(values_view);
}

/// The view of a sequence of entries is made of the views of its parts.
pub proof fn lemma_entries_view(s: &Separated<Entry>)
    ensures
        s@.values.len() == s.values.len(),
        forall|i: int| 0 <= i < s.values.len() ==> #[trigger] s@.values[i] == s.values[i]@,
        s@.trailing_comma == s.trailing_comma,
        s@.trailing_ws == s.trailing_ws@,
{
    reveal(entries_view);
}

impl View for Value {
    type V = ValueView;

    open spec fn view(&self) -> ValueView {
        value_view(*self)
    }
}

impl View for Entry {
    type V = EntryView;

    open spec fn view(&self) -> EntryView {
        entry_view(*self)
    }
}

impl View for Separated<Value> {
    type V = SeparatedView<ValueView>;

    open spec fn view(&self) -> SeparatedView<ValueView> {
        values_view(*self)
    }
}

impl View for Separated<Entry> {
    type V = SeparatedView<EntryView>;

    open spec fn view(&self) -> SeparatedView<EntryView> {
        entries_view(*self)
    }
}

impl View for Separated<String> {
    type V = SeparatedView<Seq<char>>;

    open spec fn view(&self) -> SeparatedView<Seq<char>> {
        SeparatedView {
            values: self.values@.map_values(|w: WsWrapped<String>| w@),
            trailing_comma: self.trailing_comma,
            trailing_ws: self.trailing_ws@,
        }
    }
}

impl View for WsWrapped<Value> {
    type V = WsWrappedView<ValueView>;

    open spec fn view(&self) -> WsWrappedView<ValueView> {
        WsWrappedView {
            leading: self.leading@,
            content: self.content@,
            following: self.following@,
        }
    }
}

impl View for WsWrapped<Entry> {
    type V = WsWrappedView<EntryView>;

    open spec fn view(&self) -> WsWrappedView<EntryView> {
        WsWrappedView {
            leading: self.leading@,
            content: self.content@,
            following: self.following@,
        }
    }
}

impl View for WsWrapped<String> {
    type V = WsWrappedView<Seq<char>>;

    open spec fn view(&self) -> WsWrappedView<Seq<char>> {
        WsWrappedView {
            leading: self.leading@,
            content: self.content@,
            following: self.following@,
        }
    }
}

impl View for WsFollowed<String> {
    type V = WsFollowedView<Seq<char>>;

    open spec fn view(&self) -> WsFollowedView<Seq<char>> {
        WsFollowedView { content: self.content@, following: self.following@ }
    }
}

impl View for WsLead<Value> {
    type V = WsLeadView<ValueView>;

    open spec fn view(&self) -> WsLeadView<ValueView> {
        WsLeadView { leading: self.leading@, content: self.content@ }
    }
}

impl View for WsLead<Attribute> {
    type V = WsLeadView<AttributeView>;

    open spec fn view(&self) -> WsLeadView<AttributeView> {
        WsLeadView { leading: self.leading@, content: self.content@ }
    }
}

impl View for Attribute {
    type V = AttributeView;

    open spec fn view(&self) -> AttributeView {
        AttributeView {
            after_pound: self.after_pound@,
            after_exclamation: self.after_exclamation@,
            after_bracket: self.after_bracket@,
            after_enable: self.after_enable@,
            extensions: self.extensions@,
            after_paren: self.after_paren@,
        }
    }
}

/// The views of the headers of a document.
pub open spec fn extensions_view(es: Seq<WsLead<Attribute>>) -> Seq<WsLeadView<AttributeView>> {
    es.map_values(|e: WsLead<Attribute>| e@)
}

impl View for File {
    type V = FileView;

    open spec fn view(&self) -> FileView {
        FileView {
            extensions: extensions_view(self.extensions@),
            value: self.value@,
            trailing_ws: self.trailing_ws@,
        }
    }
}

} // verus!
