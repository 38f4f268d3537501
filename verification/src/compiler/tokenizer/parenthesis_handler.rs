use vstd::prelude::*;
use super::operator::Operator;
use super::token::{Token, TokenView};
use crate::compiler::span::Span;

verus! {

/// Tells the brackets of a function call (`exit(..)`, `print(..)`) apart from
/// the grouping brackets of an expression.
///
/// Once a call keyword has activated the detector, the first `(` opens the
/// call and the `)` that closes it at depth zero or one ends the call; every
/// other bracket is an expression operator.
pub struct ParenthesisHandler {
    pub m_function_call: bool,
    pub m_bracket_depth: usize,
}

impl ParenthesisHandler {
    /// The handler's invariant: an inactive detector counts no brackets.
    pub open spec fn inv(self) -> bool {
        self.m_function_call || self.m_bracket_depth == 0
    }

    /// The handler after it has seen one bracket.
    pub open spec fn after_bracket(self, open_bracket: bool) -> ParenthesisHandler {
        if !self.m_function_call {
            self
        } else if open_bracket {
            ParenthesisHandler {
                m_function_call: true,
                m_bracket_depth: (self.m_bracket_depth + 1) as usize,
            }
        } else if self.m_bracket_depth <= 1 {
            ParenthesisHandler { m_function_call: false, m_bracket_depth: 0 }
        } else {
            ParenthesisHandler {
                m_function_call: true,
                m_bracket_depth: (self.m_bracket_depth - 1) as usize,
            }
        }
    }

    /// The token that a bracket at `span` becomes.
    pub open spec fn bracket_token(self, span: Span, open_bracket: bool) -> TokenView {
        if open_bracket {
            if self.m_function_call && self.m_bracket_depth == 0 {
                TokenView::OpenBracket { span }
            } else {
                TokenView::Operator(Operator::OpenBracket { span })
            }
        } else {
            if self.m_function_call && self.m_bracket_depth <= 1 {
                TokenView::ClosedBracket { span }
            } else {
                TokenView::Operator(Operator::ClosedBracket { span })
            }
        }
    }

    pub fn new() -> (r: Self)
        ensures
            r == (ParenthesisHandler { m_function_call: false, m_bracket_depth: 0 }),
            r.inv(),
    {
        ParenthesisHandler { m_function_call: false, m_bracket_depth: 0 }
    }

    pub fn activate_function_detector(&mut self)
        ensures
            *final(self) == (ParenthesisHandler { m_function_call: true, m_bracket_depth: 0 }),
            final(self).inv(),
    {
        self.m_function_call = true;
        self.m_bracket_depth = 0;
    }

    pub fn deactivate_function_detector(&mut self)
        ensures
            *final(self) == (ParenthesisHandler { m_function_call: false, m_bracket_depth: 0 }),
            final(self).inv(),
    {
        self.m_function_call = false;
        self.m_bracket_depth = 0;
    }

    /// The token for a bracket at `span`: an opening one when `open_bracket`.
    pub fn emit_bracket_token(&mut self, span: Span, open_bracket: bool) -> (r: Token)
        requires
            open_bracket && old(self).m_function_call ==> old(self).m_bracket_depth < usize::MAX,
        ensures
            r@ == old(self).bracket_token(span, open_bracket),
            *final(self) == old(self).after_bracket(open_bracket),
            old(self).inv() ==> final(self).inv(),
    {
        if open_bracket {
            self.handle_open_bracket(span)
        } else {
            self.handle_closed_bracket(span)
        }
    }

    fn handle_open_bracket(&mut self, span: Span) -> (r: Token)
        requires
            old(self).m_function_call ==> old(self).m_bracket_depth < usize::MAX,
        ensures
            r@ == old(self).bracket_token(span, true),
            *final(self) == old(self).after_bracket(true),
    {
        let mut res = Token::Operator(Operator::OpenBracket { span });
        if self.m_function_call {
            if self.m_bracket_depth == 0 {
                res = Token::OpenBracket { span };
            }
            self.m_bracket_depth += 1;
        }
        res
    }

    fn handle_closed_bracket(&mut self, span: Span) -> (r: Token)
        ensures
            r@ == old(self).bracket_token(span, false),
            *final(self) == old(self).after_bracket(false),
    {
        let mut res = Token::Operator(Operator::ClosedBracket { span });
        if self.m_function_call {
            if self.m_bracket_depth <= 1 {
                res = Token::ClosedBracket { span };
                self.deactivate_function_detector();
            } else {
                self.m_bracket_depth -= 1;
            }
        }
        res
    }
}

/// An inactive handler turns every bracket into an expression operator and
/// stays inactive, counting nothing.
pub proof fn lemma_inactive_brackets(h: ParenthesisHandler, span: Span)
    requires
        !h.m_function_call,
        h.inv(),
    ensures
        h.bracket_token(span, true) == (TokenView::Operator(Operator::OpenBracket { span })),
        h.bracket_token(span, false) == (TokenView::Operator(Operator::ClosedBracket { span })),
        h.after_bracket(true) == (ParenthesisHandler { m_function_call: false, m_bracket_depth: 0 }),
        h.after_bracket(false) == (ParenthesisHandler { m_function_call: false, m_bracket_depth: 0 }),
{
}

/// An opening bracket of an active call at depth `d`: at depth zero it opens
/// the call, deeper it is an expression operator; either way the depth
/// grows by one and the detector stays on.
pub proof fn lemma_opening_bracket(h: ParenthesisHandler, span: Span)
    requires
        h.m_function_call,
        h.m_bracket_depth < usize::MAX,
    ensures
        h.m_bracket_depth == 0 ==> h.bracket_token(span, true) == (TokenView::OpenBracket { span }),
        h.m_bracket_depth >= 1 ==> h.bracket_token(span, true) == (TokenView::Operator(
            Operator::OpenBracket { span },
        )),
        h.after_bracket(true) == (ParenthesisHandler {
            m_function_call: true,
            m_bracket_depth: (h.m_bracket_depth + 1) as usize,
        }),
        h.after_bracket(true).inv(),
{
}

/// A closing bracket of an active call at depth `d`: at depth one or less it
/// closes the call and switches the detector off; deeper, it is an
/// expression operator and the depth drops by one with the detector on.
pub proof fn lemma_closing_bracket(h: ParenthesisHandler, span: Span)
    requires
        h.m_function_call,
    ensures
        h.m_bracket_depth <= 1 ==> h.bracket_token(span, false) == (TokenView::ClosedBracket { span })
            && h.after_bracket(false) == (ParenthesisHandler {
                m_function_call: false,
                m_bracket_depth: 0,
            }),
        h.m_bracket_depth >= 2 ==> h.bracket_token(span, false) == (TokenView::Operator(
            Operator::ClosedBracket { span },
        )) && h.after_bracket(false) == (ParenthesisHandler {
            m_function_call: true,
            m_bracket_depth: (h.m_bracket_depth - 1) as usize,
        }),
        h.after_bracket(false).inv(),
{
}

/// The handler and the tokens after a sequence of brackets (`true` for an
/// opening one), all at `span`.
pub open spec fn run_brackets(h: ParenthesisHandler, brackets: Seq<bool>, span: Span) -> (
    ParenthesisHandler,
    Seq<TokenView>,
)
    decreases brackets.len(),
{
    if brackets.len() == 0 {
        (h, Seq::empty())
    } else {
        let (h1, ts) = run_brackets(h, brackets.drop_last(), span);
        (h1.after_bracket(brackets.last()), ts.push(h1.bracket_token(span, brackets.last())))
    }
}

/// Opening minus closing brackets.
pub open spec fn nesting(brackets: Seq<bool>) -> int
    decreases brackets.len(),
{
    if brackets.len() == 0 {
        0
    } else {
        nesting(brackets.drop_last()) + if brackets.last() {
            1int
        } else {
            -1int
        }
    }
}

/// Every bracket that closes has one that it closes, and all are closed.
pub open spec fn balanced(brackets: Seq<bool>) -> bool {
    &&& nesting(brackets) == 0
    &&& forall|k: int| 0 <= k <= brackets.len() ==> nesting(#[trigger] brackets.take(k)) >= 0
}

proof fn lemma_inner_brackets(inner: Seq<bool>, k: int, span: Span)
    requires
        0 <= k <= inner.len(),
        inner.len() + 2 < usize::MAX,
        forall|j: int| 0 <= j <= inner.len() ==> nesting(#[trigger] inner.take(j)) >= 0,
        forall|j: int| 0 <= j <= inner.len() ==> nesting(#[trigger] inner.take(j)) <= j,
    ensures
        ({
            let call = ParenthesisHandler { m_function_call: true, m_bracket_depth: 0 };
            let (h, ts) = run_brackets(call, seq![true] + inner.take(k), span);
            &&& h.m_function_call
            &&& h.m_bracket_depth == 1 + nesting(inner.take(k))
            &&& ts.len() == k + 1
            &&& ts[0] == TokenView::OpenBracket { span }
            &&& forall|j: int| 1 <= j < ts.len() ==> #[trigger] ts[j] is Operator
        }),
    decreases k,
{
    let call = ParenthesisHandler { m_function_call: true, m_bracket_depth: 0 };
    let bs = seq![true] + inner.take(k);
    if k == 0 {
        assert(bs =~= seq![true]);
        assert(bs.drop_last() =~= Seq::<bool>::empty());
        assert(inner.take(0) =~= Seq::<bool>::empty());
        assert(run_brackets(call, bs.drop_last(), span) == (call, Seq::<TokenView>::empty()));
        let (h, ts) = run_brackets(call, bs, span);
        assert(ts =~= seq![TokenView::OpenBracket { span }]);
    } else {
        lemma_inner_brackets(inner, k - 1, span);
        assert(bs.drop_last() =~= seq![true] + inner.take(k - 1));
        assert(inner.take(k).drop_last() =~= inner.take(k - 1));
        assert(inner.take(k).last() == inner[k - 1]);
        assert(bs.last() == inner[k - 1]);
        assert(nesting(inner.take(k)) == nesting(inner.take(k - 1)) + if inner[k - 1] {
            1int
        } else {
            -1int
        });
        let (h1, ts1) = run_brackets(call, bs.drop_last(), span);
        if !inner[k - 1] {
            assert(nesting(inner.take(k)) >= 0);
        }
        assert(nesting(inner.take(k - 1)) <= k - 1);
        let (h, ts) = run_brackets(call, bs, span);
        assert(h == h1.after_bracket(inner[k - 1]));
        assert(ts == ts1.push(h1.bracket_token(span, inner[k - 1])));
        assert(h.m_bracket_depth == 1 + nesting(inner.take(k)));
        assert(ts[k] is Operator);
        assert(ts[0] == ts1[0]);
        assert forall|j: int| 1 <= j < ts.len() implies #[trigger] ts[j] is Operator by {
            if j < ts1.len() {
                assert(ts[j] == ts1[j]);
            }
        }
    }
}

/// The brackets of a call: once a call keyword has activated the
/// detector, its opening bracket, any balanced brackets inside, and the
/// bracket that closes it give a call-opening token, expression operators,
/// and a call-closing token, and the detector is off again.
pub proof fn lemma_call_brackets(inner: Seq<bool>, span: Span)
    requires
        balanced(inner),
        inner.len() + 2 < usize::MAX,
    ensures
        ({
            let call = ParenthesisHandler { m_function_call: true, m_bracket_depth: 0 };
            let (h, ts) = run_brackets(call, seq![true] + inner + seq![false], span);
            &&& h == ParenthesisHandler { m_function_call: false, m_bracket_depth: 0 }
            &&& ts.len() == inner.len() + 2
            &&& ts[0] == TokenView::OpenBracket { span }
            &&& ts.last() == TokenView::ClosedBracket { span }
            &&& forall|j: int| 1 <= j < ts.len() - 1 ==> #[trigger] ts[j] is Operator
        }),
{
    assert forall|j: int| 0 <= j <= inner.len() implies nesting(#[trigger] inner.take(j)) <= j by {
        lemma_nesting_bound(inner.take(j));
    }
    lemma_inner_brackets(inner, inner.len() as int, span);
    let call = ParenthesisHandler { m_function_call: true, m_bracket_depth: 0 };
    let bs = seq![true] + inner + seq![false];
    assert(inner.take(inner.len() as int) =~= inner);
    assert(bs.drop_last() =~= seq![true] + inner.take(inner.len() as int));
    let (h1, ts1) = run_brackets(call, bs.drop_last(), span);
    let (h, ts) = run_brackets(call, bs, span);
    assert forall|j: int| 1 <= j < ts.len() - 1 implies #[trigger] ts[j] is Operator by {
        assert(ts[j] == ts1[j]);
    }
}

proof fn lemma_nesting_bound(brackets: Seq<bool>)
    ensures
        nesting(brackets) <= brackets.len(),
    decreases brackets.len(),
{
    if brackets.len() > 0 {
        lemma_nesting_bound(brackets.drop_last());
    }
}

} // verus!
