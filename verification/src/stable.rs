//! What rendering again leaves as it is: a comment text that was padded is
//! padded, and a string literal that was rewritten to the convention of the
//! document holds nothing to rewrite.

use vstd::prelude::*;

use crate::context::Newline;
use crate::newlines::{
    carriage_return_behind, follows_convention, lemma_completed_line_breaks, lemma_replace_to_lf,
    no_stray_carriage_return,
};
use crate::text::{
    spec_complete_line_breaks, spec_delimited_with_spaces, spec_normalize_line_breaks, spec_replace,
    spec_start_with_space,
};

verus! {

/// A text that was given a space at its start is given none again.
pub proof fn lemma_start_with_space_twice(s: Seq<char>)
    ensures
        spec_start_with_space(spec_start_with_space(s)) == spec_start_with_space(s),
{
    reveal_strlit(" ");
}

/// A text that was given a space at each side is given none again.
pub proof fn lemma_delimited_with_spaces_twice(s: Seq<char>)
    ensures
        spec_delimited_with_spaces(spec_delimited_with_spaces(s)) == spec_delimited_with_spaces(
            s,
        ),
{
    reveal_strlit(" ");
}

/// Where no line feed of a text is followed by a carriage return, rewriting
/// the text to line feeds alone changes nothing.
pub proof fn lemma_nothing_to_replace(s: Seq<char>)
    requires
        follows_convention(s, Newline::Lf),
    ensures
        spec_replace(s, "\n\r"@, "\n"@) == s,
    decreases s.len(),
{
    let from = "\n\r"@;
    reveal_strlit("\n\r");
    reveal(follows_convention);
    if s.len() > 0 {
        assert(!from.is_prefix_of(s)) by {
            if from.is_prefix_of(s) {
                assert(s.subrange(0, 2)[0] == s[0] && s.subrange(0, 2)[1] == s[1]);
                assert(carriage_return_behind(s, 0));
            }
        }
        let rest = s.skip(1);
        assert forall|i: int| 0 <= i < rest.len() && rest[i] == '\n' implies !(
        #[trigger] carriage_return_behind(rest, i)) by {
            assert(s[i + 1] == '\n');
            assert(carriage_return_behind(s, i + 1) == carriage_return_behind(rest, i));
        }
        lemma_nothing_to_replace(rest);
    }
}

/// Where every line feed of a text is followed by a carriage return, giving
/// each line feed its carriage return changes nothing.
pub proof fn lemma_nothing_to_complete(s: Seq<char>)
    requires
        follows_convention(s, Newline::LfCr),
    ensures
        spec_complete_line_breaks(s) == s,
    decreases s.len(),
{
    reveal(follows_convention);
    if s.len() > 0 {
        if s[0] == '\n' {
            assert(carriage_return_behind(s, 0));
        }
        let rest = s.skip(1);
        assert forall|i: int| 0 <= i < rest.len() && rest[i] == '\n' implies
            #[trigger] carriage_return_behind(rest, i) by {
            assert(s[i + 1] == '\n');
            assert(carriage_return_behind(s, i + 1) == carriage_return_behind(rest, i));
        }
        lemma_nothing_to_complete(rest);
        assert(seq![s[0]] + rest =~= s);
    }
}

/// A string literal whose line feeds are in the convention of the document
/// is copied as it is.
pub proof fn lemma_nothing_to_normalize(s: Seq<char>, nl: Newline)
    requires
        follows_convention(s, nl),
    ensures
        spec_normalize_line_breaks(s, nl) == s,
{
    match nl {
        Newline::Lf => lemma_nothing_to_replace(s),
        Newline::LfCr => lemma_nothing_to_complete(s),
    }
}

/// A string literal that was rewritten to the convention of the document is
/// left as it is when it is rewritten again. Where the convention is a line
/// feed alone, this holds of a literal that held no line feed with two
/// carriage returns behind it.
pub proof fn lemma_normalize_line_breaks_twice(s: Seq<char>, nl: Newline)
    requires
        nl is Lf ==> no_stray_carriage_return(s),
    ensures
        spec_normalize_line_breaks(spec_normalize_line_breaks(s, nl), nl)
            == spec_normalize_line_breaks(s, nl),
{
    match nl {
        Newline::Lf => lemma_replace_to_lf(s),
        Newline::LfCr => lemma_completed_line_breaks(s),
    }
    lemma_nothing_to_normalize(spec_normalize_line_breaks(s, nl), nl);
}

} // verus!
