use vstd::prelude::*;
use crate::compiler::parser::parser_logger::ParserErrorType;
use crate::compiler::parser::token_stream::{
    at_index, current_line, forward, is_whitespace, lemma_pass_tokens_bounds, lemma_skip_whitespace_bounds,
    lemma_skipped, pass_tokens, peek_token, skip_whitespace, skipped, well_formed, with_error,
    StreamState, TokenStream,
};
use crate::compiler::span::Span;
use crate::compiler::tokenizer::{Operator, Token};
use crate::compiler::tokenizer::token::duplicate_tokens;
use crate::utility::text::str_to_string;

verus! {

/// Turns the infix expression at the position of a token stream into
/// postfix (reverse Polish) order with the shunting-yard algorithm.
pub struct ReversePolishNotation {
    pub m_stack: Vec<Operator>,
    pub m_polish: Vec<Token>,
}

/// An operator `lhs` on the stack stays there when `rhs` arrives: it is an
/// opening bracket, or it binds more weakly than `rhs`, or as strongly when
/// `rhs` groups from the right.
pub open spec fn stays_below(lhs: Operator, rhs: Operator) -> bool {
    lhs is OpenBracket || (lhs.spec_precedence() <= rhs.spec_precedence() && (
    lhs.spec_precedence() != rhs.spec_precedence() || rhs.is_right_associative()))
}

/// Moves the operators from the top of the stack to the output until one
/// stays below `rhs`.
pub open spec fn pop_operators(stack: Seq<Operator>, out: Seq<Token>, rhs: Operator) -> (
    Seq<Operator>,
    Seq<Token>,
)
    decreases stack.len(),
{
    if stack.len() == 0 || stays_below(stack.last(), rhs) {
        (stack, out)
    } else {
        pop_operators(stack.drop_last(), out.push(Token::Operator(stack.last())), rhs)
    }
}

/// Moves the operators above the topmost opening bracket to the output and
/// drops the bracket; `None` when the stack holds no opening bracket.
pub open spec fn pop_to_open_bracket(stack: Seq<Operator>, out: Seq<Token>) -> Option<
    (Seq<Operator>, Seq<Token>),
>
    decreases stack.len(),
{
    if stack.len() == 0 {
        None
    } else if stack.last() is OpenBracket {
        Some((stack.drop_last(), out))
    } else {
        pop_to_open_bracket(stack.drop_last(), out.push(Token::Operator(stack.last())))
    }
}

/// The stack and output after the operator `op`; `None` for a closing
/// bracket without an opening one.
pub open spec fn take_operator(stack: Seq<Operator>, out: Seq<Token>, op: Operator) -> Option<
    (Seq<Operator>, Seq<Token>),
> {
    if op is OpenBracket {
        Some((stack.push(op), out))
    } else if op is ClosedBracket {
        pop_to_open_bracket(stack, out)
    } else {
        let (s, o) = pop_operators(stack, out, op);
        Some((s.push(op), o))
    }
}

/// The outcome of reading an expression from the stream.
pub enum ScanOutcome {
    /// The expression ended: the stream, the operator stack and the output.
    Done(StreamState, Seq<Operator>, Seq<Token>),
    /// An error was logged in the stream.
    Failed(StreamState),
}

pub open spec fn is_operand_token(t: Token) -> bool {
    t is ID || t is Number || t is Boolean
}

/// Reads tokens from the position until the line ends or a line break or
/// call-closing bracket is reached; operands go to the output, operators
/// through the stack. Any other token is an error.
pub open spec fn scan_expression(st: StreamState, stack: Seq<Operator>, out: Seq<Token>) -> ScanOutcome
    decreases current_line(st).len() - st.index,
{
    match peek_token(st, 0) {
        None => ScanOutcome::Done(st, stack, out),
        Some(t) => {
            if t is NewLine || t is ClosedBracket {
                ScanOutcome::Done(st, stack, out)
            } else if is_operand_token(t) || t is Operator {
                let next = if is_operand_token(t) {
                    Some((stack, out.push(t)))
                } else {
                    take_operator(stack, out, t->Operator_0)
                };
                match next {
                    None => ScanOutcome::Failed(
                        with_error(
                            st,
                            ParserErrorType::ErrExpressionOpenBracketMissing,
                            t@.span(),
                        ),
                    ),
                    Some((s2, o2)) => {
                        let st2 = skipped(st, 1);
                        if st2.index > st.index && st2.stmt_index == st.stmt_index && st2.lines
                            == st.lines && st2.index <= current_line(st).len() {
                            scan_expression(st2, s2, o2)
                        } else {
                            ScanOutcome::Done(st2, s2, o2)
                        }
                    },
                }
            } else {
                ScanOutcome::Failed(with_error(st, ParserErrorType::ErrUnexpectedToken, t@.span()))
            }
        },
    }
}

/// The outcome of emptying the operator stack.
pub enum FlushOutcome {
    Done(Seq<Token>),
    /// An opening bracket, at this span, was never closed.
    Unclosed(Span),
}

/// Moves the remaining operators, top first, to the output.
pub open spec fn flush_operators(stack: Seq<Operator>, out: Seq<Token>) -> FlushOutcome
    decreases stack.len(),
{
    if stack.len() == 0 {
        FlushOutcome::Done(out)
    } else if stack.last() is OpenBracket {
        FlushOutcome::Unclosed(stack.last().span_of())
    } else {
        flush_operators(stack.drop_last(), out.push(Token::Operator(stack.last())))
    }
}

/// The stream and the postfix form of the expression at its position, or
/// `None` after logging an error.
pub open spec fn postfix_expression(st: StreamState, stack: Seq<Operator>, out: Seq<Token>) -> (
    StreamState,
    Option<Seq<Token>>,
) {
    match scan_expression(st, stack, out) {
        ScanOutcome::Failed(st2) => (st2, None),
        ScanOutcome::Done(st2, s2, o2) => match flush_operators(s2, o2) {
            FlushOutcome::Unclosed(span) => (
                with_error(st2, ParserErrorType::ErrExpressionClosedBracketMissing, span),
                None,
            ),
            FlushOutcome::Done(o3) => (st2, Some(o3)),
        },
    }
}

pub proof fn lemma_scan_expression(st: StreamState, stack: Seq<Operator>, out: Seq<Token>)
    requires
        well_formed(st),
    ensures
        match scan_expression(st, stack, out) {
            ScanOutcome::Done(st2, _, _) => forward(st, st2) && st2.errors == st.errors
                && st2.stmt_index == st.stmt_index && st2.file_name == st.file_name
                && st2.source == st.source,
            ScanOutcome::Failed(st2) => st2.lines == st.lines && st2.stmt_index == st.stmt_index
                && st2.index >= st.index && well_formed(st2) && st2.file_name == st.file_name
                && st2.source == st.source,
        },
    decreases current_line(st).len() - st.index,
{
    match peek_token(st, 0) {
        None => {},
        Some(t) => {
            if t is NewLine || t is ClosedBracket {
            } else if is_operand_token(t) || t is Operator {
                let next = if is_operand_token(t) {
                    Some((stack, out.push(t)))
                } else {
                    take_operator(stack, out, t->Operator_0)
                };
                match next {
                    None => {},
                    Some((s2, o2)) => {
                        lemma_skipped(st, 1);
                        let st2 = skipped(st, 1);
                        if st2.index > st.index && st2.stmt_index == st.stmt_index && st2.lines
                            == st.lines && st2.index <= current_line(st).len() {
                            lemma_scan_expression(st2, s2, o2);
                        }
                    },
                }
            } else {
            }
        },
    }
}

/// The operands of a sequence of tokens, in order.
pub open spec fn operands(s: Seq<Token>) -> Seq<Token>
    decreases s.len(),
{
    if s.len() == 0 {
        Seq::empty()
    } else if is_operand_token(s.last()) {
        operands(s.drop_last()).push(s.last())
    } else {
        operands(s.drop_last())
    }
}

proof fn lemma_operands_single(t: Token)
    ensures
        operands(seq![t]) == if is_operand_token(t) {
            seq![t]
        } else {
            Seq::<Token>::empty()
        },
{
    let s = seq![t];
    assert(s.drop_last() =~= Seq::<Token>::empty());
    assert(operands(s.drop_last()) == Seq::<Token>::empty());
    assert(s.last() == t);
    if is_operand_token(t) {
        assert(Seq::<Token>::empty().push(t) =~= s);
    }
}

proof fn lemma_operands_concat(a: Seq<Token>, b: Seq<Token>)
    ensures
        operands(a + b) == operands(a) + operands(b),
    decreases b.len(),
{
    if b.len() == 0 {
        assert(a + b =~= a);
        assert(operands(a) + operands(b) =~= operands(a));
    } else {
        lemma_operands_concat(a, b.drop_last());
        assert((a + b).drop_last() =~= a + b.drop_last());
        assert((a + b).last() == b.last());
        if is_operand_token(b.last()) {
            assert(operands(a) + operands(b) =~= (operands(a) + operands(b.drop_last())).push(
                b.last(),
            ));
        }
    }
}

/// Moving operators to the output adds no operand to it.
proof fn lemma_pop_operators_operands(stack: Seq<Operator>, out: Seq<Token>, rhs: Operator)
    ensures
        operands(pop_operators(stack, out, rhs).1) == operands(out),
    decreases stack.len(),
{
    if !(stack.len() == 0 || stays_below(stack.last(), rhs)) {
        let t = Token::Operator(stack.last());
        assert(out.push(t).drop_last() =~= out);
        lemma_pop_operators_operands(stack.drop_last(), out.push(t), rhs);
    }
}

proof fn lemma_pop_to_open_bracket_operands(stack: Seq<Operator>, out: Seq<Token>)
    ensures
        pop_to_open_bracket(stack, out) matches Some((_, o)) ==> operands(o) == operands(out),
    decreases stack.len(),
{
    if stack.len() > 0 && !(stack.last() is OpenBracket) {
        let t = Token::Operator(stack.last());
        assert(out.push(t).drop_last() =~= out);
        lemma_pop_to_open_bracket_operands(stack.drop_last(), out.push(t));
    }
}

proof fn lemma_flush_operands(stack: Seq<Operator>, out: Seq<Token>)
    ensures
        flush_operators(stack, out) matches FlushOutcome::Done(o) ==> operands(o) == operands(out),
    decreases stack.len(),
{
    if stack.len() > 0 && !(stack.last() is OpenBracket) {
        let t = Token::Operator(stack.last());
        assert(out.push(t).drop_last() =~= out);
        lemma_flush_operands(stack.drop_last(), out.push(t));
    }
}

/// The tokens from `i` up to the first that is not whitespace hold no
/// operand.
proof fn lemma_whitespace_run(line: Seq<Token>, i: int)
    requires
        0 <= i <= line.len(),
    ensures
        operands(line.subrange(i, skip_whitespace(line, i))) == Seq::<Token>::empty(),
    decreases line.len() - i,
{
    lemma_skip_whitespace_bounds(line, i);
    let j = skip_whitespace(line, i);
    if i < line.len() && is_whitespace(line[i]) {
        lemma_whitespace_run(line, i + 1);
        assert(j == skip_whitespace(line, i + 1));
        lemma_skip_whitespace_bounds(line, i + 1);
        assert(line.subrange(i, j) =~= seq![line[i]] + line.subrange(i + 1, j));
        lemma_operands_concat(seq![line[i]], line.subrange(i + 1, j));
        lemma_operands_single(line[i]);
        assert(operands(line.subrange(i, j)) =~= Seq::<Token>::empty());
    } else {
        assert(line.subrange(i, j) =~= Seq::<Token>::empty());
    }
}

/// Reading an expression keeps its operands in order: the output gains the
/// operands of the tokens read, and nothing else but operators.
proof fn lemma_scan_operands(st: StreamState, stack: Seq<Operator>, out: Seq<Token>)
    requires
        well_formed(st),
    ensures
        scan_expression(st, stack, out) matches ScanOutcome::Done(st2, _, o2) ==> st2.index
            >= st.index && st2.index <= current_line(st).len() && current_line(st2) == current_line(
            st,
        ) && operands(o2) == operands(out) + operands(
            current_line(st).subrange(st.index as int, st2.index as int),
        ),
    decreases current_line(st).len() - st.index,
{
    lemma_scan_expression(st, stack, out);
    let line = current_line(st);
    match peek_token(st, 0) {
        None => {
            assert(line.subrange(st.index as int, st.index as int) =~= Seq::<Token>::empty());
            assert(operands(out) + Seq::<Token>::empty() =~= operands(out));
        },
        Some(t) => {
            if t is NewLine || t is ClosedBracket {
                assert(line.subrange(st.index as int, st.index as int) =~= Seq::<Token>::empty());
                assert(operands(out) + Seq::<Token>::empty() =~= operands(out));
            } else if is_operand_token(t) || t is Operator {
                let next = if is_operand_token(t) {
                    Some((stack, out.push(t)))
                } else {
                    take_operator(stack, out, t->Operator_0)
                };
                if let Some((s2, o2)) = next {
                    let i = st.index as int;
                    lemma_skipped(st, 1);
                    let st2 = skipped(st, 1);
                    lemma_skip_whitespace_bounds(line, i);
                    assert(skip_whitespace(line, i) == i);
                    lemma_pass_tokens_bounds(line, i + 1, 0);
                    assert(pass_tokens(line, i, 1) == i + 1);
                    lemma_skip_whitespace_bounds(line, i + 1);
                    lemma_whitespace_run(line, i + 1);
                    let j = st2.index as int;
                    assert(j == skip_whitespace(line, i + 1));
                    assert(line.subrange(i, j) =~= seq![t] + line.subrange(i + 1, j));
                    lemma_operands_concat(seq![t], line.subrange(i + 1, j));
                    lemma_operands_single(t);
                    if is_operand_token(t) {
                        assert(out.push(t).drop_last() =~= out);
                        assert(operands(o2) == operands(out).push(t));
                    } else {
                        let op = t->Operator_0;
                        if op is OpenBracket {
                        } else if op is ClosedBracket {
                            lemma_pop_to_open_bracket_operands(stack, out);
                        } else {
                            lemma_pop_operators_operands(stack, out, op);
                            let (ps, po) = pop_operators(stack, out, op);
                            assert(po.push(t).drop_last() =~= po);
                        }
                        assert(operands(o2) == operands(out));
                    }
                    if st2.index > st.index && st2.stmt_index == st.stmt_index && st2.lines
                        == st.lines && st2.index <= current_line(st).len() {
                        lemma_scan_operands(st2, s2, o2);
                        if let ScanOutcome::Done(st3, _, o3) = scan_expression(st2, s2, o2) {
                            let k = st3.index as int;
                            assert(line.subrange(i, k) =~= line.subrange(i, j) + line.subrange(
                                j,
                                k,
                            ));
                            lemma_operands_concat(line.subrange(i, j), line.subrange(j, k));
                            assert(operands(out) + operands(line.subrange(i, k)) =~= operands(out)
                                + operands(line.subrange(i, j)) + operands(line.subrange(j, k)));
                        }
                    } else {
                        assert(operands(out) + operands(line.subrange(i, j)) =~= operands(o2));
                    }
                }
            }
        },
    }
}

/// The postfix form of an expression lists its operands in the order the
/// expression writes them: shunting operators around never reorders,
/// drops or adds an operand.
pub proof fn lemma_postfix_keeps_operand_order(st: StreamState)
    requires
        well_formed(st),
    ensures
        postfix_expression(st, Seq::empty(), Seq::empty()) matches (st2, Some(p)) ==> operands(p)
            == operands(current_line(st).subrange(st.index as int, st2.index as int)),
{
    lemma_scan_operands(st, Seq::empty(), Seq::empty());
    if let ScanOutcome::Done(st2, s2, o2) = scan_expression(st, Seq::empty(), Seq::empty()) {
        lemma_flush_operands(s2, o2);
        assert(operands(Seq::<Token>::empty()) + operands(
            current_line(st).subrange(st.index as int, st2.index as int),
        ) =~= operands(current_line(st).subrange(st.index as int, st2.index as int)));
    }
}

/// Reading one operand or operator that is no closing bracket, with no
/// whitespace after it, moves one token on.
proof fn lemma_scan_token(st: StreamState, stack: Seq<Operator>, out: Seq<Token>)
    requires
        well_formed(st),
        st.stmt_index < st.lines.len(),
        st.index < current_line(st).len(),
        is_operand_token(current_line(st)[st.index as int]) || (current_line(
            st,
        )[st.index as int] is Operator && !(current_line(st)[st.index as int]->Operator_0 is ClosedBracket)),
        st.index + 1 == current_line(st).len() || !is_whitespace(
            current_line(st)[st.index as int + 1],
        ),
    ensures
        ({
            let t = current_line(st)[st.index as int];
            let next = if is_operand_token(t) {
                (stack, out.push(t))
            } else {
                take_operator(stack, out, t->Operator_0)->0
            };
            &&& (is_operand_token(t) || take_operator(stack, out, t->Operator_0) is Some)
            &&& scan_expression(st, stack, out) == scan_expression(
                at_index(st, st.index as int + 1),
                next.0,
                next.1,
            )
        }),
{
    let line = current_line(st);
    let i = st.index as int;
    assert(skip_whitespace(line, i) == i);
    assert(pass_tokens(line, i + 1, 0) == i + 1);
    assert(pass_tokens(line, i, 1) == i + 1);
    assert(skip_whitespace(line, i + 1) == i + 1);
    assert(skipped(st, 1) == at_index(st, i + 1));
}

/// How `a op1 b op2 c` groups: as `(a op1 b) op2 c` when `op1` binds more
/// tightly than `op2`, or as tightly and `op2` groups from the left (every
/// operator but `^` and `!!`); otherwise as `a op1 (b op2 c)`. The postfix
/// form lists the operands in order, each operator right after the
/// operands it joins.
pub proof fn lemma_postfix_grouping(
    st: StreamState,
    a: Token,
    op1: Operator,
    b: Token,
    op2: Operator,
    c: Token,
)
    requires
        well_formed(st),
        st.stmt_index < st.lines.len(),
        current_line(st).subrange(st.index as int, current_line(st).len() as int) == seq![
            a,
            Token::Operator(op1),
            b,
            Token::Operator(op2),
            c,
        ],
        is_operand_token(a),
        is_operand_token(b),
        is_operand_token(c),
        !(op1 is OpenBracket) && !(op1 is ClosedBracket),
        !(op2 is OpenBracket) && !(op2 is ClosedBracket),
    ensures
        postfix_expression(st, Seq::empty(), Seq::empty()).1 == Some(
            if op1.spec_precedence() > op2.spec_precedence() || (op1.spec_precedence()
                == op2.spec_precedence() && !(op2 is Exponent) && !(op2 is Not)) {
                seq![a, b, Token::Operator(op1), c, Token::Operator(op2)]
            } else {
                seq![a, b, c, Token::Operator(op2), Token::Operator(op1)]
            },
        ),
{
    let line = current_line(st);
    let i = st.index as int;
    let rest = line.subrange(i, line.len() as int);
    assert(rest.len() == 5);
    assert(line.len() == i + 5);
    assert(line[i] == rest[0]);
    assert(line[i + 1] == rest[1]);
    assert(line[i + 2] == rest[2]);
    assert(line[i + 3] == rest[3]);
    assert(line[i + 4] == rest[4]);
    let e: Seq<Token> = Seq::empty();
    let st1 = at_index(st, i + 1);
    let st2 = at_index(st, i + 2);
    let st3 = at_index(st, i + 3);
    let st4 = at_index(st, i + 4);
    let st5 = at_index(st, i + 5);
    lemma_scan_token(st, Seq::empty(), e);
    let o1 = e.push(a);
    lemma_scan_token(st1, Seq::empty(), o1);
    let (s2, o2) = take_operator(Seq::empty(), o1, op1)->0;
    assert(s2 == seq![op1] && o2 == o1);
    lemma_scan_token(st2, s2, o2);
    let o3 = o2.push(b);
    lemma_scan_token(st3, s2, o3);
    let (s4, o4) = take_operator(s2, o3, op2)->0;
    lemma_scan_token(st4, s4, o4);
    let o5 = o4.push(c);
    assert(peek_token(st5, 0) is None);
    assert(scan_expression(st, Seq::empty(), e) == ScanOutcome::Done(st5, s4, o5));
    let popped = !stays_below(op1, op2);
    assert(seq![op1].drop_last() =~= Seq::<Operator>::empty());
    if popped {
        assert(pop_operators(seq![op1], o3, op2) == pop_operators(
            Seq::<Operator>::empty(),
            o3.push(Token::Operator(op1)),
            op2,
        ));
        assert(s4 =~= seq![op2]);
        assert(s4.drop_last() =~= Seq::<Operator>::empty());
        assert(s4.last() == op2);
        assert(o5 =~= seq![a, b, Token::Operator(op1), c]);
        assert(flush_operators(s4, o5) == flush_operators(
            Seq::<Operator>::empty(),
            o5.push(Token::Operator(op2)),
        ));
        assert(o5.push(Token::Operator(op2)) =~= seq![a, b, Token::Operator(op1), c, Token::Operator(op2)]);
    } else {
        assert(s4 =~= seq![op1, op2]);
        assert(o5 =~= seq![a, b, c]);
        assert(s4.drop_last() =~= seq![op1]);
        let o6 = o5.push(Token::Operator(op2));
        assert(flush_operators(s4, o5) == flush_operators(seq![op1], o6));
        assert(flush_operators(seq![op1], o6) == flush_operators(
            Seq::<Operator>::empty(),
            o6.push(Token::Operator(op1)),
        ));
        assert(o6.push(Token::Operator(op1)) =~= seq![a, b, c, Token::Operator(op2), Token::Operator(op1)]);
    }
}

impl ReversePolishNotation {
    pub fn new() -> (r: Self)
        ensures
            r.m_stack@ == Seq::<Operator>::empty(),
            r.m_polish@ == Seq::<Token>::empty(),
    {
        ReversePolishNotation { m_stack: Vec::new(), m_polish: Vec::new() }
    }

    /// The postfix form of the expression at the position of `stream`, which
    /// moves past it; `None` after logging an error.
    pub fn create(&mut self, stream: &mut TokenStream) -> (r: Option<Vec<Token>>)
        requires
            well_formed(old(stream)@),
        ensures
            (final(stream)@, match r {
                Some(v) => Some(v@),
                None => None,
            }) == postfix_expression(old(stream)@, old(self).m_stack@, old(self).m_polish@),
            final(stream)@.lines == old(stream)@.lines,
            final(stream)@.stmt_index == old(stream)@.stmt_index,
            final(stream)@.index >= old(stream)@.index,
            well_formed(final(stream)@),
    {
        let ghost st0 = stream@;
        let ghost goal = scan_expression(stream@, self.m_stack@, self.m_polish@);
        proof {
            lemma_scan_expression(stream@, self.m_stack@, self.m_polish@);
        }
        loop
            invariant
                st0 == old(stream)@,
                goal == scan_expression(old(stream)@, old(self).m_stack@, old(self).m_polish@),
                well_formed(stream@),
                stream@.lines == st0.lines,
                stream@.stmt_index == st0.stmt_index,
                stream@.index >= st0.index,
                stream@.errors == st0.errors,
                stream@.file_name == st0.file_name,
                stream@.source == st0.source,
                scan_expression(stream@, self.m_stack@, self.m_polish@) == goal,
            ensures
                goal == ScanOutcome::Done(stream@, self.m_stack@, self.m_polish@),
                stream@.lines == st0.lines,
                stream@.stmt_index == st0.stmt_index,
                stream@.index >= st0.index,
                well_formed(stream@),
            decreases current_line(stream@).len() - stream@.index,
        {
            let next = stream.peek(0);
            match next {
                None => {
                    break;
                },
                Some(token) => {
                    if matches!(token, Token::NewLine { .. }) || matches!(
                        token,
                        Token::ClosedBracket { .. }
                    ) {
                        break;
                    } else if matches!(token, Token::ID { .. }) || matches!(
                        token,
                        Token::Number { .. }
                    ) || matches!(token, Token::Boolean { .. }) {
                        self.m_polish.push(token);
                    } else if let Token::Operator(op) = token {
                        if !self.handle_operators(op) {
                            stream.log_error(
                                ParserErrorType::ErrExpressionOpenBracketMissing,
                                &Token::Operator(op),
                            );
                            return None;
                        }
                    } else {
                        stream.log_error(ParserErrorType::ErrUnexpectedToken, &token);
                        return None;
                    }
                    let ghost before = stream@;
                    proof {
                        lemma_skipped(before, 1);
                    }
                    stream.advance_skip_tokens(1, true);
                },
            }
        }
        while self.m_stack.len() > 0
            invariant
                st0 == old(stream)@,
                goal == scan_expression(old(stream)@, old(self).m_stack@, old(self).m_polish@),
                stream@.lines == st0.lines,
                stream@.stmt_index == st0.stmt_index,
                stream@.index >= st0.index,
                well_formed(stream@),
                flush_operators(self.m_stack@, self.m_polish@) == match goal {
                    ScanOutcome::Done(_, s, o) => flush_operators(s, o),
                    _ => FlushOutcome::Done(Seq::empty()),
                },
                goal is Done,
                stream@ == goal->Done_0,
            decreases self.m_stack.len(),
        {
            let op = self.m_stack.pop().unwrap();
            if let Operator::OpenBracket { span } = op {
                stream.log_error(
                    ParserErrorType::ErrExpressionClosedBracketMissing,
                    &Token::OpenBracket { span },
                );
                return None;
            }
            self.m_polish.push(Token::Operator(op));
        }
        Some(duplicate_tokens(&self.m_polish))
    }

    /// Handles the operator `rhs_op`; `false` for a closing bracket without
    /// an opening one.
    fn handle_operators(&mut self, rhs_op: Operator) -> (r: bool)
        ensures
            match take_operator(old(self).m_stack@, old(self).m_polish@, rhs_op) {
                Some((s, o)) => r && final(self).m_stack@ == s && final(self).m_polish@ == o,
                None => !r,
            },
    {
        if let Operator::OpenBracket { .. } = rhs_op {
            self.m_stack.push(rhs_op);
        } else if let Operator::ClosedBracket { .. } = rhs_op {
            let ghost goal = pop_to_open_bracket(self.m_stack@, self.m_polish@);
            loop
                invariant_except_break
                    goal == pop_to_open_bracket(self.m_stack@, self.m_polish@),
                invariant
                    rhs_op is ClosedBracket,
                    goal == pop_to_open_bracket(old(self).m_stack@, old(self).m_polish@),
                ensures
                    goal == Some((self.m_stack@, self.m_polish@)),
                decreases self.m_stack.len(),
            {
                if self.m_stack.len() == 0 {
                    return false;
                }
                let op = self.m_stack.pop().unwrap();
                if let Operator::OpenBracket { .. } = op {
                    break;
                }
                self.m_polish.push(Token::Operator(op));
            }
        } else {
            let ghost goal = pop_operators(self.m_stack@, self.m_polish@, rhs_op);
            loop
                invariant_except_break
                    goal == pop_operators(self.m_stack@, self.m_polish@, rhs_op),
                invariant
                    !(rhs_op is ClosedBracket),
                    !(rhs_op is OpenBracket),
                    goal == pop_operators(old(self).m_stack@, old(self).m_polish@, rhs_op),
                ensures
                    goal == (self.m_stack@, self.m_polish@),
                decreases self.m_stack.len(),
            {
                if self.m_stack.len() == 0 {
                    break;
                }
                let ghost before = self.m_stack@;
                let lhs_op = self.m_stack.pop().unwrap();
                let lhs_is_open_bracket = matches!(lhs_op, Operator::OpenBracket { .. });
                let lhs_leq_precedence = lhs_op.precedence() <= rhs_op.precedence();
                let not_eq_precedence = lhs_op.precedence() != rhs_op.precedence();
                let assoc = rhs_op.associativity();
                proof {
                    reveal_strlit("Right");
                    reveal_strlit("Left");
                    assert("Left"@.len() != "Right"@.len());
                }
                let rhs_right_associative = chars_are_right(&assoc);
                if lhs_is_open_bracket || (lhs_leq_precedence && (not_eq_precedence
                    || rhs_right_associative)) {
                    self.m_stack.push(lhs_op);
                    assert(self.m_stack@ =~= before);
                    assert(stays_below(before.last(), rhs_op));
                    break;
                } else {
                    self.m_polish.push(Token::Operator(lhs_op));
                }
            }
            self.m_stack.push(rhs_op);
        }
        true
    }
}

/// Whether an associativity name is `"Right"`.
fn chars_are_right(s: &String) -> (r: bool)
    ensures
        r == (s@ == "Right"@),
{
    let expected = str_to_string("Right");
    *s == expected
}

} // verus!
