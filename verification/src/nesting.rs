//! How deep a value nests. The renderer calls itself once for each level of
//! lists, maps, tuples and structs, so it renders a value only where the
//! nesting is known to end within [`MAX_DEPTH`] levels. The indent is bounded
//! by the machine alone.

use vstd::prelude::*;

use crate::context::{ContextView, MAX_DEPTH};
use crate::model::{
    lemma_entries_view, lemma_values_view, EntryView, FileView, SeparatedView, ValueView,
};
use crate::syntax::{Entry, File, Separated, Value};

verus! {

impl ValueView {
    /// Lists, maps, tuples and structs are nested in this value at most
    /// `budget` deep.
    pub open spec fn nests_within(self, budget: nat) -> bool
        decreases self,
    {
        match self {
            ValueView::List(s) => budget > 0 && forall|i: int|
                0 <= i < s.values.len() ==> (#[trigger] s.values[i]).content.nests_within(
                    (budget - 1) as nat,
                ),
            ValueView::Tuple { ident, fields } => budget > 0 && forall|i: int|
                0 <= i < fields.values.len() ==> (#[trigger] fields.values[i]).content.nests_within(
                    (budget - 1) as nat,
                ),
            ValueView::Mapping(s) => budget > 0 && forall|i: int|
                0 <= i < s.values.len() ==> (
                #[trigger] s.values[i]).content.value.content.nests_within((budget - 1) as nat),
            ValueView::Struct { ident, fields } => budget > 0 && forall|i: int|
                0 <= i < fields.values.len() ==> (
                #[trigger] fields.values[i]).content.value.content.nests_within(
                    (budget - 1) as nat,
                ),
            _ => true,
        }
    }
}

impl FileView {
    /// The value of the document nests at most `budget` deep.
    pub open spec fn nests_within(self, budget: nat) -> bool {
        self.value.content.nests_within(budget)
    }
}

/// Every value of `s` nests at most `budget` deep.
pub open spec fn values_nest_within(s: SeparatedView<ValueView>, budget: nat) -> bool {
    forall|i: int|
        0 <= i < s.values.len() ==> (#[trigger] s.values[i]).content.nests_within(budget)
}

/// The value of every entry of `s` nests at most `budget` deep.
pub open spec fn entries_nest_within(s: SeparatedView<EntryView>, budget: nat) -> bool {
    forall|i: int|
        0 <= i < s.values.len() ==> (#[trigger] s.values[i]).content.value.content.nests_within(
            budget,
        )
}

/// What [`ValueView::nests_within`] asks of the items of a value.
pub proof fn lemma_nests_within_items(v: ValueView, budget: nat)
    ensures
        match v {
            ValueView::List(s) => v.nests_within(budget) <==> budget > 0 && values_nest_within(
                s,
                (budget - 1) as nat,
            ),
            ValueView::Tuple { ident, fields } => v.nests_within(budget) <==> budget > 0
                && values_nest_within(fields, (budget - 1) as nat),
            ValueView::Mapping(s) => v.nests_within(budget) <==> budget > 0 && entries_nest_within(
                s,
                (budget - 1) as nat,
            ),
            ValueView::Struct { ident, fields } => v.nests_within(budget) <==> budget > 0
                && entries_nest_within(fields, (budget - 1) as nat),
            _ => v.nests_within(budget),
        },
{
}

/// Values that nest within a budget nest within every larger one.
pub proof fn lemma_values_nest_within_more(s: SeparatedView<ValueView>, small: nat, large: nat)
    requires
        values_nest_within(s, small),
        small <= large,
    ensures
        values_nest_within(s, large),
    decreases s,
{
    assert forall|i: int| 0 <= i < s.values.len() implies (#[trigger] s.values[i])
        .content.nests_within(large) by {
        lemma_nests_within_more(s.values[i].content, small, large);
    }
}

/// Entries whose values nest within a budget nest within every larger one.
pub proof fn lemma_entries_nest_within_more(s: SeparatedView<EntryView>, small: nat, large: nat)
    requires
        entries_nest_within(s, small),
        small <= large,
    ensures
        entries_nest_within(s, large),
    decreases s,
{
    assert forall|i: int| 0 <= i < s.values.len() implies (#[trigger] s.values[i])
        .content.value.content.nests_within(large) by {
        lemma_nests_within_more(s.values[i].content.value.content, small, large);
    }
}

/// A value that nests within a budget nests within every larger one.
pub proof fn lemma_nests_within_more(v: ValueView, small: nat, large: nat)
    requires
        v.nests_within(small),
        small <= large,
    ensures
        v.nests_within(large),
    decreases v,
{
    match v {
        ValueView::List(s) => {
            lemma_values_nest_within_more(s, (small - 1) as nat, (large - 1) as nat);
        },
        ValueView::Tuple { ident, fields } => {
            lemma_values_nest_within_more(fields, (small - 1) as nat, (large - 1) as nat);
        },
        ValueView::Mapping(s) => {
            lemma_entries_nest_within_more(s, (small - 1) as nat, (large - 1) as nat);
        },
        ValueView::Struct { ident, fields } => {
            lemma_entries_nest_within_more(fields, (small - 1) as nat, (large - 1) as nat);
        },
        _ => {},
    }
}

/// How deep a value may nest where it is rendered at `c`: [`MAX_DEPTH`]
/// levels, or as many as the indent can still be counted up by the machine,
/// where those are fewer.
pub open spec fn spec_room(c: ContextView) -> nat {
    if c.indent + MAX_DEPTH <= usize::MAX {
        MAX_DEPTH as nat
    } else if c.indent <= usize::MAX {
        (usize::MAX - c.indent) as nat
    } else {
        0
    }
}

/// The value `v` can be rendered at `c`: it nests at most [`MAX_DEPTH`]
/// deep, and the machine can count the indent of its deepest line.
#[verifier::opaque]
pub open spec fn fits(v: ValueView, c: ContextView) -> bool {
    v.nests_within(spec_room(c))
}

/// Every value of `s` can be rendered at `c`.
#[verifier::opaque]
pub open spec fn values_fit(s: SeparatedView<ValueView>, c: ContextView) -> bool {
    values_nest_within(s, spec_room(c))
}

/// The value of every entry of `s` can be rendered at `c`.
#[verifier::opaque]
pub open spec fn entries_fit(s: SeparatedView<EntryView>, c: ContextView) -> bool {
    entries_nest_within(s, spec_room(c))
}

/// A value that nests at most [`MAX_DEPTH`] deep can be rendered at every
/// indent that leaves the machine that many levels to count.
pub proof fn lemma_fits(v: ValueView, c: ContextView)
    requires
        v.nests_within(MAX_DEPTH as nat),
        c.indent + MAX_DEPTH <= usize::MAX,
    ensures
        fits(v, c),
{
    reveal(fits);
}

/// Where a list, a map, a tuple or a struct can be rendered at `c`, the
/// indent of `c` can be counted up, and the items can be rendered one level
/// deeper, and at `c` too.
pub proof fn lemma_fits_inside(v: ValueView, c: ContextView)
    requires
        fits(v, c),
    ensures
        match v {
            ValueView::List(s) => c.indent < usize::MAX && values_fit(s, c.increase()),
            ValueView::Mapping(s) => c.indent < usize::MAX && entries_fit(s, c.increase()),
            ValueView::Tuple { ident, fields } => c.indent < usize::MAX && values_fit(
                fields,
                c.increase(),
            ) && values_fit(fields, c),
            ValueView::Struct { ident, fields } => c.indent < usize::MAX && entries_fit(
                fields,
                c.increase(),
            ),
            _ => true,
        },
{
    reveal(fits);
    reveal(values_fit);
    reveal(entries_fit);
    lemma_nests_within_items(v, spec_room(c));
    let inside = (spec_room(c) - 1) as nat;
    match v {
        ValueView::List(s) => {
            lemma_values_nest_within_more(s, inside, spec_room(c.increase()));
        },
        ValueView::Mapping(s) => {
            lemma_entries_nest_within_more(s, inside, spec_room(c.increase()));
        },
        ValueView::Tuple { ident, fields } => {
            lemma_values_nest_within_more(fields, inside, spec_room(c.increase()));
            lemma_values_nest_within_more(fields, inside, spec_room(c));
        },
        ValueView::Struct { ident, fields } => {
            lemma_entries_nest_within_more(fields, inside, spec_room(c.increase()));
        },
        _ => {},
    }
}

/// Where the values of `s` can be rendered at `c`, each of them can.
pub proof fn lemma_values_fit_each(s: SeparatedView<ValueView>, c: ContextView, i: int)
    requires
        values_fit(s, c),
        0 <= i < s.values.len(),
    ensures
        fits(s.values[i].content, c),
{
    reveal(fits);
    reveal(values_fit);
}

/// Where the entries of `s` can be rendered at `c`, the value of each can.
pub proof fn lemma_entries_fit_each(s: SeparatedView<EntryView>, c: ContextView, i: int)
    requires
        entries_fit(s, c),
        0 <= i < s.values.len(),
    ensures
        fits(s.values[i].content.value.content, c),
{
    reveal(fits);
    reveal(entries_fit);
}


/// Whether every value of `s` nests at most `budget` deep.
fn values_within(s: &Separated<Value>, budget: usize) -> (r: bool)
    ensures
        r == values_nest_within(s@, budget as nat),
    decreases s,
{
    proof {
        lemma_values_view(s);
    }
    let mut i: usize = 0;
    while i < s.values.len()
        invariant
            i <= s.values.len(),
            s@.values.len() == s.values.len(),
            forall|j: int| 0 <= j < s.values.len() ==> #[trigger] s@.values[j] == s.values[j]@,
            forall|j: int|
                0 <= j < i ==> (#[trigger] s@.values[j]).content.nests_within(budget as nat),
        decreases s.values.len() - i,
    {
        if !s.values[i].content.nests_within(budget) {
            assert(!s@.values[i as int].content.nests_within(budget as nat));
            return false;
        }
        i = i + 1;
    }
    true
}

/// Whether the value of every entry of `s` nests at most `budget` deep.
fn entries_within(s: &Separated<Entry>, budget: usize) -> (r: bool)
    ensures
        r == entries_nest_within(s@, budget as nat),
    decreases s,
{
    proof {
        lemma_entries_view(s);
    }
    let mut i: usize = 0;
    while i < s.values.len()
        invariant
            i <= s.values.len(),
            s@.values.len() == s.values.len(),
            forall|j: int| 0 <= j < s.values.len() ==> #[trigger] s@.values[j] == s.values[j]@,
            forall|j: int|
                0 <= j < i ==> (#[trigger] s@.values[j]).content.value.content.nests_within(
                    budget as nat,
                ),
        decreases s.values.len() - i,
    {
        if !s.values[i].content.value.content.nests_within(budget) {
            assert(!s@.values[i as int].content.value.content.nests_within(budget as nat));
            return false;
        }
        i = i + 1;
    }
    true
}

impl Value {
    /// Whether lists, maps, tuples and structs are nested in this value at
    /// most `budget` deep. The check itself goes no deeper than `budget`
    /// levels.
    pub fn nests_within(&self, budget: usize) -> (r: bool)
        ensures
            r == self@.nests_within(budget as nat),
        decreases self,
    {
        proof {
            lemma_nests_within_items(self@, budget as nat);
        }
        match self {
            Value::List(items) => {
                budget > 0 && values_within(items, budget - 1)
            },
            Value::Tuple { ident, fields } => {
                budget > 0 && values_within(fields, budget - 1)
            },
            Value::Mapping(entries) => {
                budget > 0 && entries_within(entries, budget - 1)
            },
            Value::Struct { ident, fields } => {
                budget > 0 && entries_within(fields, budget - 1)
            },
            _ => true,
        }
    }
}

impl File {
    /// Whether the value of the document nests at most `budget` deep.
    pub fn nests_within(&self, budget: usize) -> (r: bool)
        ensures
            r == self@.nests_within(budget as nat),
    {
        self.value.content.nests_within(budget)
    }
}

} // verus!
