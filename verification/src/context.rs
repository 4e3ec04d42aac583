//! Where the renderer stands: how deep it is indented, and which line ending
//! the document uses.

use vstd::prelude::*;
use vstd::string::StringExecFns;

verus! {

/// The deepest nesting of lists, maps, tuples and structs that is rendered.
/// The renderer calls itself once for each level, so this bounds its stack.
pub const MAX_DEPTH: usize = 128;

/// The line ending of a document.
#[derive(Clone, Copy, PartialEq, Eq, Debug)]
pub enum Newline {
    /// A line feed.
    Lf,
    /// A line feed followed by a carriage return.
    LfCr,
}

impl Newline {
    /// The characters of the line ending.
    pub open spec fn text(self) -> Seq<char> {
        match self {
            Newline::Lf => "\n"@,
            Newline::LfCr => "\n\r"@,
        }
    }

    /// The line ending as a string.
    pub fn as_str(self) -> (r: &'static str)
        ensures
            r@ == self.text(),
    {
        match self {
            Newline::Lf => "\n",
            Newline::LfCr => "\n\r",
        }
    }
}

/// A number of indent levels, each four spaces wide.
#[derive(Clone, Copy, PartialEq, Eq, Debug)]
pub struct Indent(pub usize);

/// `levels` indent levels as text: four spaces for each.
pub open spec fn spec_indent(levels: nat) -> Seq<char>
    decreases levels,
{
    if levels == 0 {
        Seq::empty()
    } else {
        spec_indent((levels - 1) as nat) + "    "@
    }
}

impl Indent {
    /// Appends the indent to `out`.
    pub fn fmt(&self, out: &mut String)
        ensures
            final(out)@ == old(out)@ + spec_indent(self.0 as nat),
    {
        let mut i: usize = 0;
        while i < self.0
            invariant
                i <= self.0,
                out@ == old(out)@ + spec_indent(i as nat),
            decreases self.0 - i,
        {
            out.append("    ");
            i = i + 1;
        }
    }
}

/// The position of the renderer in the document.
#[derive(Clone, Copy, PartialEq, Eq, Debug)]
pub struct Context {
    pub indent: Indent,
    pub nl: Newline,
}

/// A [`Context`] with an indent that is not bounded by the machine.
pub ghost struct ContextView {
    pub indent: nat,
    pub nl: Newline,
}

impl ContextView {
    /// The same position, one level deeper.
    pub open spec fn increase(self) -> ContextView {
        ContextView { indent: self.indent + 1, nl: self.nl }
    }

    /// What starts a new line at this position: the line ending, then the
    /// indent.
    pub open spec fn line_start(self) -> Seq<char> {
        self.nl.text() + spec_indent(self.indent)
    }
}

impl View for Context {
    type V = ContextView;

    open spec fn view(&self) -> ContextView {
        ContextView { indent: self.indent.0 as nat, nl: self.nl }
    }
}

impl Context {
    /// The same position, one level deeper.
    #[must_use]
    pub fn increase(self) -> (r: Context)
        requires
            self.indent.0 < usize::MAX,
        ensures
            r@ == self@.increase(),
    {
        Context { indent: Indent(self.indent.0 + 1), nl: self.nl }
    }

    /// Starts a new line in `out`: the line ending, then the indent.
    pub fn line_start(&self, out: &mut String)
        ensures
            final(out)@ == old(out)@ + self@.line_start(),
    {
        out.append(self.nl.as_str());
        self.indent.fmt(out);
    }
}

} // verus!
