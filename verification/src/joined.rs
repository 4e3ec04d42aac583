//! Texts that are joined from parts: what stands in a part stands in the
//! whole, what ends the last part ends the whole, and a line feed is in the
//! whole exactly where it is in a part.

use vstd::prelude::*;

verus! {

/// The text `needle` stands in `hay`, starting at position `at`.
pub open spec fn occurs_at(needle: Seq<char>, hay: Seq<char>, at: int) -> bool {
    0 <= at && at + needle.len() <= hay.len() && hay.subrange(at, at + needle.len()) == needle
}

/// The text `needle` stands somewhere in `hay`, in one piece.
#[verifier::opaque]
pub open spec fn occurs_in(needle: Seq<char>, hay: Seq<char>) -> bool {
    exists|at: int| occurs_at(needle, hay, at)
}

/// A text stands in itself.
pub proof fn lemma_occurs_in_itself(s: Seq<char>)
    ensures
        occurs_in(s, s),
{
    reveal(occurs_in);
    assert(s.subrange(0, s.len() as int) == s);
    assert(occurs_at(s, s, 0));
}

/// What stands in a text stands in every text that this text is a part of.
pub proof fn lemma_occurs_in_middle(
    needle: Seq<char>,
    before: Seq<char>,
    hay: Seq<char>,
    after: Seq<char>,
)
    requires
        occurs_in(needle, hay),
    ensures
        occurs_in(needle, before + hay + after),
{
    reveal(occurs_in);
    let at = choose|at: int| occurs_at(needle, hay, at);
    let whole = before + hay + after;
    assert(whole.subrange(before.len() + at, before.len() + at + needle.len()) == hay.subrange(
        at,
        at + needle.len(),
    ));
    assert(occurs_at(needle, whole, before.len() + at));
}

/// What stands in a text stands in that text with more put behind it.
pub proof fn lemma_occurs_in_front(needle: Seq<char>, hay: Seq<char>, after: Seq<char>)
    requires
        occurs_in(needle, hay),
    ensures
        occurs_in(needle, hay + after),
{
    lemma_occurs_in_middle(needle, Seq::empty(), hay, after);
}

/// What stands in a text stands in that text with more put before it.
pub proof fn lemma_occurs_in_back(needle: Seq<char>, before: Seq<char>, hay: Seq<char>)
    requires
        occurs_in(needle, hay),
    ensures
        occurs_in(needle, before + hay),
{
    lemma_occurs_in_middle(needle, before, hay, Seq::empty());
}

/// Standing in a text carries over: what stands in a part stands in the
/// whole.
pub proof fn lemma_occurs_in_part(needle: Seq<char>, part: Seq<char>, whole: Seq<char>)
    requires
        occurs_in(needle, part),
        occurs_in(part, whole),
    ensures
        occurs_in(needle, whole),
{
    reveal(occurs_in);
    let inner = choose|at: int| occurs_at(needle, part, at);
    let outer = choose|at: int| occurs_at(part, whole, at);
    assert(whole.subrange(outer + inner, outer + inner + needle.len()) == whole.subrange(
        outer,
        outer + part.len(),
    ).subrange(inner, inner + needle.len()));
    assert(occurs_at(needle, whole, outer + inner));
}

/// The text `s` holds a line feed.
#[verifier::opaque]
pub open spec fn has_line_break(s: Seq<char>) -> bool {
    s.contains('\n')
}

/// Two texts joined hold a line feed exactly where one of them does.
pub proof fn lemma_line_break_in_parts(a: Seq<char>, b: Seq<char>)
    ensures
        has_line_break(a + b) <==> has_line_break(a) || has_line_break(b),
{
    reveal(has_line_break);
    if has_line_break(a) {
        let i = choose|i: int| 0 <= i < a.len() && a[i] == '\n';
        assert((a + b)[i] == '\n');
    }
    if has_line_break(b) {
        let i = choose|i: int| 0 <= i < b.len() && b[i] == '\n';
        assert((a + b)[a.len() + i] == '\n');
    }
}

/// The empty text holds no line feed.
pub proof fn lemma_no_line_break_in_nothing()
    ensures
        !has_line_break(Seq::<char>::empty()),
{
    reveal(has_line_break);
}

/// A text stands at the end of what it is put behind.
pub proof fn lemma_suffix_of_joined(a: Seq<char>, b: Seq<char>)
    ensures
        b.is_suffix_of(a + b),
{
}

/// What stands at the end of a text stands at the end of that text with
/// more put before it.
pub proof fn lemma_suffix_behind(s: Seq<char>, a: Seq<char>, b: Seq<char>)
    requires
        s.is_suffix_of(b),
    ensures
        s.is_suffix_of(a + b),
{
}

/// What stands at the end of a text stands in it.
pub proof fn lemma_suffix_occurs(s: Seq<char>, hay: Seq<char>)
    requires
        s.is_suffix_of(hay),
    ensures
        occurs_in(s, hay),
{
    reveal(occurs_in);
    assert(occurs_at(s, hay, hay.len() - s.len()));
}

/// What stands at the end of a text stands at the end of that text with
/// more put behind both.
pub proof fn lemma_suffix_with_more(s: Seq<char>, hay: Seq<char>, more: Seq<char>)
    requires
        s.is_suffix_of(hay),
    ensures
        (s + more).is_suffix_of(hay + more),
{
}

/// Two texts put behind `a` one by one are the two joined, put behind `a`.
pub proof fn lemma_concat2(a: Seq<char>, b: Seq<char>, c: Seq<char>)
    ensures
        a + b + c == a + (b + c),
{
}

/// Three texts put behind `a` one by one are the three joined, put behind
/// `a`.
pub proof fn lemma_concat3(a: Seq<char>, b: Seq<char>, c: Seq<char>, d: Seq<char>)
    ensures
        a + b + c + d == a + (b + c + d),
{
}

/// Four texts put behind `a` one by one are the four joined, put behind `a`.
pub proof fn lemma_concat4(a: Seq<char>, b: Seq<char>, c: Seq<char>, d: Seq<char>, e: Seq<char>)
    ensures
        a + b + c + d + e == a + (b + c + d + e),
{
}

} // verus!
