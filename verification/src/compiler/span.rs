use vstd::prelude::*;
use crate::utility::text::{decimal, push_decimal, str_to_string};

verus! {

/// A position in the source text: the line, and the first and last column of
/// a token on that line (both inclusive).
#[derive(Clone, Copy, Debug, PartialEq, Eq, Structural)]
pub struct Span {
    pub m_line: usize,
    pub m_start: usize,
    pub m_end: usize,
}

impl Span {
    pub fn new(m_line: usize, m_start: usize, m_end: usize) -> (r: Self)
        ensures
            r == (Span { m_line, m_start, m_end }),
    {
        Span { m_line, m_start, m_end }
    }

    /// The span as its derived `Debug` formatting prints it.
    pub open spec fn debug_text(self) -> Seq<char> {
        "Span { m_line: "@ + decimal(self.m_line as nat) + ", m_start: "@ + decimal(
            self.m_start as nat,
        ) + ", m_end: "@ + decimal(self.m_end as nat) + " }"@
    }

    /// The text of `format!("{:?}", span)`.
    pub fn debug_string(&self) -> (r: String)
        ensures
            r@ == self.debug_text(),
    {
        let mut s = str_to_string("Span { m_line: ");
        push_decimal(&mut s, self.m_line);
        s.append(", m_start: ");
        push_decimal(&mut s, self.m_start);
        s.append(", m_end: ");
        push_decimal(&mut s, self.m_end);
        s.append(" }");
        s
    }
}

} // verus!
