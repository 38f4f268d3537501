use vstd::prelude::*;
use crate::compiler::parser::expression_factory::reverse_polish_notation::{
    is_operand_token, lemma_postfix_keeps_operand_order, operands, postfix_expression,
    ReversePolishNotation,
};
use crate::compiler::parser::nodes::{
    NodeArithmeticExpr, NodeArithmeticOperation, NodeBaseExpr, NodeOperand, ResultType,
};
use crate::compiler::parser::parser_logger::ParserErrorType;
use crate::compiler::parser::statement_factory::expr_of_operand;
use crate::compiler::parser::token_stream::{
    current_line, well_formed, with_error, StreamState, TokenStream,
};
use crate::compiler::span::Span;
use crate::compiler::tokenizer::{Operator, Token};

verus! {

/// Builds the tree of an arithmetic or logical expression from its postfix
/// form, with a stack of the subexpressions built so far.
pub struct ExpressionFactory {
    pub m_expr_stack: Vec<NodeArithmeticExpr>,
}

/// `&&`, `||` and `^|` take boolean operands.
pub open spec fn is_logical_binary(op: Operator) -> bool {
    op is And || op is Or || op is Xor
}

/// Logical operators give a boolean, all others a number.
pub open spec fn result_type_of(op: Operator) -> ResultType {
    if op is And || op is Or || op is Xor || op is Not {
        ResultType::Boolean
    } else {
        ResultType::Numeric
    }
}

/// A boolean literal, or an operation with a boolean value.
pub open spec fn is_boolean_expr(e: NodeArithmeticExpr) -> bool {
    match e {
        NodeArithmeticExpr::Base(NodeBaseExpr::Bool(_)) => true,
        NodeArithmeticExpr::Operation(o) => o.result_type == ResultType::Boolean,
        _ => false,
    }
}

/// An expression taken as the operand of an operation.
pub open spec fn operand_of(e: NodeArithmeticExpr) -> NodeOperand {
    match e {
        NodeArithmeticExpr::Base(b) => NodeOperand::Base(b),
        NodeArithmeticExpr::Operation(o) => NodeOperand::Operation(Box::new(o)),
    }
}

/// The stack after one postfix token, and the error it raised, if any, with
/// its position. An operand is pushed; an operator replaces the two topmost
/// expressions (popped right operand first) by their operation.
pub open spec fn build_step(stack: Seq<NodeArithmeticExpr>, t: Token) -> (
    Seq<NodeArithmeticExpr>,
    Option<(ParserErrorType, Span)>,
) {
    match t {
        Token::ID { .. } => (stack.push(NodeArithmeticExpr::Base(NodeBaseExpr::ID(t))), None),
        Token::Number { .. } => (stack.push(NodeArithmeticExpr::Base(NodeBaseExpr::Num(t))), None),
        Token::Boolean { .. } => (
            stack.push(NodeArithmeticExpr::Base(NodeBaseExpr::Bool(t))),
            None,
        ),
        Token::Operator(op) => {
            if stack.len() < 2 {
                (Seq::empty(), Some((ParserErrorType::ErrMissingOperand, t@.span())))
            } else {
                let rhs = stack.last();
                let lhs = stack[stack.len() - 2];
                let rest = stack.drop_last().drop_last();
                if is_logical_binary(op) && !(is_boolean_expr(lhs) && is_boolean_expr(rhs)) {
                    (rest, Some((ParserErrorType::ErrTypeMismatch, t@.span())))
                } else {
                    (
                        rest.push(
                            NodeArithmeticExpr::Operation(
                                NodeArithmeticOperation {
                                    lhs: operand_of(lhs),
                                    rhs: operand_of(rhs),
                                    op: op,
                                    result_type: result_type_of(op),
                                },
                            ),
                        ),
                        None,
                    )
                }
            }
        },
        _ => (stack, Some((ParserErrorType::ErrUnexpectedToken, t@.span()))),
    }
}

/// The stack after the postfix tokens, up to and including the first that
/// raised an error, and that error.
pub open spec fn build(stack: Seq<NodeArithmeticExpr>, tokens: Seq<Token>) -> (
    Seq<NodeArithmeticExpr>,
    Option<(ParserErrorType, Span)>,
)
    decreases tokens.len(),
{
    if tokens.len() == 0 {
        (stack, None)
    } else {
        let (s, e) = build(stack, tokens.drop_last());
        if e is Some {
            (s, e)
        } else {
            build_step(s, tokens.last())
        }
    }
}

/// Once a prefix of the tokens raised an error, the rest is not read.
pub proof fn lemma_build_stops(stack: Seq<NodeArithmeticExpr>, tokens: Seq<Token>, k: int)
    requires
        0 <= k <= tokens.len(),
        build(stack, tokens.take(k)).1 is Some,
    ensures
        build(stack, tokens) == build(stack, tokens.take(k)),
    decreases tokens.len(),
{
    if k < tokens.len() {
        assert(tokens.drop_last().take(k) =~= tokens.take(k));
        lemma_build_stops(stack, tokens.drop_last(), k);
    } else {
        assert(tokens.take(k) =~= tokens);
    }
}

/// The stream, the expression stack and the expression read from the stream
/// position: the topmost built expression, taken off the stack. `None` when
/// an error was logged, or when the expression is empty.
pub open spec fn expression_outcome(st: StreamState, stack: Seq<NodeArithmeticExpr>) -> (
    StreamState,
    Seq<NodeArithmeticExpr>,
    Option<NodeOperand>,
) {
    let (st2, polish) = postfix_expression(st, Seq::empty(), Seq::empty());
    match polish {
        None => (st2, stack, None),
        Some(p) => {
            let (s, e) = build(stack, p);
            match e {
                Some((error, span)) => (with_error(st2, error, span), s, None),
                None => if s.len() == 0 {
                    (st2, s, None)
                } else {
                    (st2, s.drop_last(), Some(operand_of(s.last())))
                },
            }
        },
    }
}

/// An expression is well typed when every operation in it has the result
/// type of its operator, every `&&`, `||` and `^|` in it has boolean
/// operands, and every base expression holds a token of its kind.
pub open spec fn well_typed(e: NodeArithmeticExpr) -> bool
    decreases e,
{
    match e {
        NodeArithmeticExpr::Base(b) => base_well_formed(b),
        NodeArithmeticExpr::Operation(o) => operation_well_typed(o),
    }
}

/// A base expression holds a token of its own kind.
pub open spec fn base_well_formed(b: NodeBaseExpr) -> bool {
    match b {
        NodeBaseExpr::Num(t) => t is Number,
        NodeBaseExpr::ID(t) => t is ID,
        NodeBaseExpr::Bool(t) => t is Boolean,
    }
}

pub open spec fn operation_well_typed(o: NodeArithmeticOperation) -> bool
    decreases o,
{
    &&& o.result_type == result_type_of(o.op)
    &&& is_logical_binary(o.op) ==> is_boolean_expr(expr_of_operand(o.lhs)) && is_boolean_expr(
        expr_of_operand(o.rhs),
    )
    &&& operand_well_typed(o.lhs)
    &&& operand_well_typed(o.rhs)
}

pub open spec fn operand_well_typed(x: NodeOperand) -> bool
    decreases x,
{
    match x {
        NodeOperand::Operation(b) => operation_well_typed(*b),
        NodeOperand::Base(b) => base_well_formed(b),
    }
}

pub open spec fn all_well_typed(s: Seq<NodeArithmeticExpr>) -> bool {
    forall|i: int| 0 <= i < s.len() ==> well_typed(#[trigger] s[i])
}

proof fn lemma_operand_of_well_typed(e: NodeArithmeticExpr)
    requires
        well_typed(e),
    ensures
        operand_well_typed(operand_of(e)),
        expr_of_operand(operand_of(e)) == e,
{
}

proof fn lemma_build_step_well_typed(stack: Seq<NodeArithmeticExpr>, t: Token)
    requires
        all_well_typed(stack),
    ensures
        all_well_typed(build_step(stack, t).0),
{
    let r = build_step(stack, t).0;
    match t {
        Token::Operator(op) => {
            if stack.len() >= 2 {
                let rhs = stack.last();
                let lhs = stack[stack.len() - 2];
                let rest = stack.drop_last().drop_last();
                assert(well_typed(rhs) && well_typed(lhs));
                lemma_operand_of_well_typed(lhs);
                lemma_operand_of_well_typed(rhs);
                assert forall|i: int| 0 <= i < r.len() implies well_typed(#[trigger] r[i]) by {
                    if i < rest.len() {
                        assert(r[i] == stack[i]);
                    }
                }
            }
        },
        _ => {
            assert forall|i: int| 0 <= i < r.len() implies well_typed(#[trigger] r[i]) by {
                if i < stack.len() {
                    assert(r[i] == stack[i]);
                }
            }
        },
    }
}

proof fn lemma_build_well_typed(stack: Seq<NodeArithmeticExpr>, tokens: Seq<Token>)
    requires
        all_well_typed(stack),
    ensures
        all_well_typed(build(stack, tokens).0),
    decreases tokens.len(),
{
    if tokens.len() > 0 {
        lemma_build_well_typed(stack, tokens.drop_last());
        let (s, e) = build(stack, tokens.drop_last());
        if e is None {
            lemma_build_step_well_typed(s, tokens.last());
        }
    }
}

/// Every expression the factory builds is well typed: the parser never
/// produces a logical operation on an operand that is not boolean, every
/// operation carries the result type of its operator, and every number,
/// variable and boolean holds a token of its kind.
pub proof fn lemma_expressions_well_typed(st: StreamState)
    ensures
        expression_outcome(st, Seq::empty()).2 matches Some(x) ==> operand_well_typed(x),
{
    let (st2, polish) = postfix_expression(st, Seq::empty(), Seq::empty());
    if let Some(p) = polish {
        lemma_build_well_typed(Seq::empty(), p);
        let (s, e) = build(Seq::empty(), p);
        if e is None && s.len() > 0 {
            assert(well_typed(s[s.len() - 1]));
            lemma_operand_of_well_typed(s.last());
        }
    }
}

/// The token of a base expression.
pub open spec fn base_token(b: NodeBaseExpr) -> Token {
    match b {
        NodeBaseExpr::Num(t) => t,
        NodeBaseExpr::ID(t) => t,
        NodeBaseExpr::Bool(t) => t,
    }
}

/// The operands of an expression tree, left to right.
pub open spec fn expr_leaves(e: NodeArithmeticExpr) -> Seq<Token>
    decreases e,
{
    match e {
        NodeArithmeticExpr::Base(b) => seq![base_token(b)],
        NodeArithmeticExpr::Operation(o) => operation_leaves(o),
    }
}

pub open spec fn operation_leaves(o: NodeArithmeticOperation) -> Seq<Token>
    decreases o,
{
    operand_leaves(o.lhs) + operand_leaves(o.rhs)
}

pub open spec fn operand_leaves(x: NodeOperand) -> Seq<Token>
    decreases x,
{
    match x {
        NodeOperand::Operation(b) => operation_leaves(*b),
        NodeOperand::Base(b) => seq![base_token(b)],
    }
}

/// The operands of the expressions on a stack, bottom to top, each left to
/// right.
pub open spec fn stack_leaves(s: Seq<NodeArithmeticExpr>) -> Seq<Token>
    decreases s.len(),
{
    if s.len() == 0 {
        Seq::empty()
    } else {
        stack_leaves(s.drop_last()) + expr_leaves(s.last())
    }
}

proof fn lemma_build_leaves(stack: Seq<NodeArithmeticExpr>, tokens: Seq<Token>)
    ensures
        build(stack, tokens).1 is None ==> stack_leaves(build(stack, tokens).0) == stack_leaves(stack)
            + operands(tokens),
    decreases tokens.len(),
{
    if tokens.len() == 0 {
        assert(stack_leaves(stack) + operands(tokens) =~= stack_leaves(stack));
    } else {
        lemma_build_leaves(stack, tokens.drop_last());
        let (s, e) = build(stack, tokens.drop_last());
        if e is None {
            let t = tokens.last();
            let r = build_step(s, t).0;
            if is_operand_token(t) {
                assert(r.drop_last() =~= s);
                assert(stack_leaves(r) =~= stack_leaves(stack) + operands(tokens));
            } else if t is Operator && s.len() >= 2 && build_step(s, t).1 is None {
                let rhs = s.last();
                let lhs = s[s.len() - 2];
                let rest = s.drop_last().drop_last();
                assert(s.drop_last().last() == lhs);
                assert(r.drop_last() =~= rest);
                assert(operand_leaves(operand_of(lhs)) == expr_leaves(lhs));
                assert(operand_leaves(operand_of(rhs)) == expr_leaves(rhs));
                assert(stack_leaves(r) =~= stack_leaves(rest) + expr_leaves(lhs) + expr_leaves(rhs));
                assert(stack_leaves(s.drop_last()) == stack_leaves(rest) + expr_leaves(lhs));
                assert(stack_leaves(s) == stack_leaves(s.drop_last()) + expr_leaves(rhs));
                assert(stack_leaves(s) =~= stack_leaves(rest) + expr_leaves(lhs) + expr_leaves(rhs));
            }
        }
    }
}

/// The tree keeps the operands in the order the source writes them: the
/// operands of the expression read, after those of any expressions left
/// unused on the stack, are exactly the operands of the tokens read, in
/// order. Every operation takes the expression built before as its left
/// operand and the one built after as its right.
pub proof fn lemma_expression_keeps_operand_order(st: StreamState)
    requires
        well_formed(st),
    ensures
        expression_outcome(st, Seq::empty()) matches (st2, rest, Some(x)) ==> stack_leaves(rest)
            + operand_leaves(x) == operands(
            current_line(st).subrange(st.index as int, st2.index as int),
        ),
{
    lemma_postfix_keeps_operand_order(st);
    let (st2, polish) = postfix_expression(st, Seq::empty(), Seq::empty());
    if let Some(p) = polish {
        lemma_build_leaves(Seq::empty(), p);
        let (s, e) = build(Seq::empty(), p);
        assert(stack_leaves(Seq::<NodeArithmeticExpr>::empty()) + operands(p) =~= operands(p));
        if e is None && s.len() > 0 {
            assert(operand_leaves(operand_of(s.last())) == expr_leaves(s.last()));
        }
    }
}

impl ExpressionFactory {
    pub fn new() -> (r: Self)
        ensures
            r.m_expr_stack@ == Seq::<NodeArithmeticExpr>::empty(),
    {
        ExpressionFactory { m_expr_stack: Vec::new() }
    }

    /// Reads the expression at the position of `stream`, which moves past it,
    /// and returns its tree; `None` after logging an error, or when there is
    /// no expression.
    pub fn create(&mut self, stream: &mut TokenStream) -> (r: Option<NodeOperand>)
        requires
            well_formed(old(stream)@),
        ensures
            (final(stream)@, final(self).m_expr_stack@, r) == expression_outcome(
                old(stream)@,
                old(self).m_expr_stack@,
            ),
            final(stream)@.lines == old(stream)@.lines,
            final(stream)@.stmt_index == old(stream)@.stmt_index,
            final(stream)@.index >= old(stream)@.index,
            well_formed(final(stream)@),
    {
        let mut rpn = ReversePolishNotation::new();
        let polish = rpn.create(stream);
        let ghost stack0 = self.m_expr_stack@;
        let ghost st2 = stream@;
        match polish {
            None => {
                return None;
            },
            Some(p) => {
                let mut i: usize = 0;
                while i < p.len()
                    invariant
                        i <= p.len(),
                        build(stack0, p@.take(i as int)) == (self.m_expr_stack@, None::<
                            (ParserErrorType, Span),
                        >),
                        well_formed(stream@),
                        stream@ == st2,
                        stack0 == old(self).m_expr_stack@,
                        st2.lines == old(stream)@.lines,
                        st2.stmt_index == old(stream)@.stmt_index,
                        st2.index >= old(stream)@.index,
                        postfix_expression(old(stream)@, Seq::empty(), Seq::empty()) == (
                            st2,
                            Some(p@),
                        ),
                    decreases p.len() - i,
                {
                    let token = p[i].duplicate();
                    proof {
                        assert(p@.take(i + 1).drop_last() =~= p@.take(i as int));
                        assert(p@.take(i + 1).last() == token);
                    }
                    let ghost before = self.m_expr_stack@;
                    let ghost sb = stream@;
                    proof {
                        assert(build(stack0, p@.take(i + 1)) == build_step(before, token));
                    }
                    if !self.take_token(stream, token) {
                        proof {
                            lemma_build_stops(stack0, p@, i + 1);
                        }
                        return None;
                    }
                    i = i + 1;
                }
                proof {
                    assert(p@.take(p@.len() as int) =~= p@);
                }
                match self.m_expr_stack.pop() {
                    Some(NodeArithmeticExpr::Base(base)) => Some(NodeOperand::Base(base)),
                    Some(NodeArithmeticExpr::Operation(op)) => Some(
                        NodeOperand::Operation(Box::new(op)),
                    ),
                    None => None,
                }
            },
        }
    }

    /// Takes one postfix token: pushes an operand, applies an operator;
    /// `false` after logging an error.
    fn take_token(&mut self, stream: &mut TokenStream, token: Token) -> (r: bool)
        ensures
            ({
                let (s, e) = build_step(old(self).m_expr_stack@, token);
                &&& final(self).m_expr_stack@ == s
                &&& r == (e is None)
                &&& final(stream)@ == match e {
                    Some((error, span)) => with_error(old(stream)@, error, span),
                    None => old(stream)@,
                }
            }),
    {
        match token {
            Token::ID { .. } => {
                self.m_expr_stack.push(NodeArithmeticExpr::Base(NodeBaseExpr::ID(token)));
                true
            },
            Token::Number { .. } => {
                self.m_expr_stack.push(NodeArithmeticExpr::Base(NodeBaseExpr::Num(token)));
                true
            },
            Token::Boolean { .. } => {
                self.m_expr_stack.push(NodeArithmeticExpr::Base(NodeBaseExpr::Bool(token)));
                true
            },
            Token::Operator(op) => self.create_operation(stream, op),
            _ => {
                stream.log_error(ParserErrorType::ErrUnexpectedToken, &token);
                false
            },
        }
    }

    /// Replaces the two topmost expressions by their operation under
    /// `operator`; `false` after logging a missing operand or, for a logical
    /// operator, an operand that is not boolean.
    fn create_operation(&mut self, stream: &mut TokenStream, operator: Operator) -> (r: bool)
        ensures
            ({
                let (s, e) = build_step(old(self).m_expr_stack@, Token::Operator(operator));
                &&& final(self).m_expr_stack@ == s
                &&& r == (e is None)
                &&& final(stream)@ == match e {
                    Some((error, span)) => with_error(old(stream)@, error, span),
                    None => old(stream)@,
                }
            }),
    {
        let error_token = Token::Operator(operator);
        let rhs = self.m_expr_stack.pop();
        let lhs = self.m_expr_stack.pop();
        match (lhs, rhs) {
            (Some(lhs), Some(rhs)) => {
                let operator_is_bool = matches!(
                    operator,
                    Operator::And { .. } | Operator::Or { .. } | Operator::Xor { .. }
                );
                if operator_is_bool && !Self::type_check_logical_operands(&lhs, &rhs) {
                    stream.log_error(ParserErrorType::ErrTypeMismatch, &error_token);
                    return false;
                }
                let lhs_node = match lhs {
                    NodeArithmeticExpr::Base(base) => NodeOperand::Base(base),
                    NodeArithmeticExpr::Operation(operation) => NodeOperand::Operation(
                        Box::new(operation),
                    ),
                };
                let rhs_node = match rhs {
                    NodeArithmeticExpr::Base(base) => NodeOperand::Base(base),
                    NodeArithmeticExpr::Operation(operation) => NodeOperand::Operation(
                        Box::new(operation),
                    ),
                };
                let result_type = self.get_result_type(&operator);
                self.m_expr_stack.push(
                    NodeArithmeticExpr::Operation(
                        NodeArithmeticOperation {
                            lhs: lhs_node,
                            rhs: rhs_node,
                            op: operator,
                            result_type,
                        },
                    ),
                );
                true
            },
            _ => {
                stream.log_error(ParserErrorType::ErrMissingOperand, &error_token);
                false
            },
        }
    }

    /// Both operands are boolean literals or operations with a boolean value.
    fn type_check_logical_operands(lhs_expr: &NodeArithmeticExpr, rhs_expr: &NodeArithmeticExpr) -> (r:
        bool)
        ensures
            r == (is_boolean_expr(*lhs_expr) && is_boolean_expr(*rhs_expr)),
    {
        let lhs_valid_base = matches!(lhs_expr, NodeArithmeticExpr::Base(NodeBaseExpr::Bool(_)));
        let rhs_valid_base = matches!(rhs_expr, NodeArithmeticExpr::Base(NodeBaseExpr::Bool(_)));
        let lhs_valid_op = match lhs_expr {
            NodeArithmeticExpr::Operation(o) => o.result_type == ResultType::Boolean,
            _ => false,
        };
        let rhs_valid_op = match rhs_expr {
            NodeArithmeticExpr::Operation(o) => o.result_type == ResultType::Boolean,
            _ => false,
        };
        (lhs_valid_base || lhs_valid_op) && (rhs_valid_base || rhs_valid_op)
    }

    /// The type of the value of an operation under `op`.
    fn get_result_type(&self, op: &Operator) -> (r: ResultType)
        ensures
            r == result_type_of(*op),
    {
        let mut res = ResultType::Numeric;
        match op {
            Operator::And { .. } | Operator::Or { .. } | Operator::Xor { .. } | Operator::Not {
                ..
            } => {
                res = ResultType::Boolean;
            },
            _ => {},
        }
        res
    }
}

} // verus!
