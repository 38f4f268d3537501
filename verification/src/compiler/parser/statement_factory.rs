use vstd::prelude::*;
use crate::compiler::parser::expression_factory::expression_factory::{
    expr_leaves, expression_outcome, lemma_expression_keeps_operand_order, operand_leaves,
    stack_leaves, ExpressionFactory,
};
use crate::compiler::parser::expression_factory::reverse_polish_notation::operands;
use crate::compiler::parser::nodes::{
    stmts_view, lemma_stmts_view_push, NodeArithmeticExpr, NodeExit, NodeOperand, NodeScope,
    NodeStmt, NodeVariableAssignment, StmtView,
};
use crate::compiler::parser::parser_logger::ParserErrorType;
use crate::compiler::parser::token_stream::{
    advanced, after_statement, current_line, first_non_whitespace, forward, lemma_after_statement,
    lemma_forward_rank, lemma_forward_trans, lemma_skipped, peek_token, rank, skipped, well_formed, with_error,
    StreamState, TokenStream,
};
use crate::compiler::span::Span;
use crate::compiler::tokenizer::Token;

verus! {

/// Reads one statement at a time from a token stream: `exit(expr)`,
/// `name = expr` or a block `{ ... }`.
pub struct StatementFactory {}

/// The expression an operand stands for.
pub open spec fn expr_of_operand(o: NodeOperand) -> NodeArithmeticExpr {
    match o {
        NodeOperand::Operation(b) => NodeArithmeticExpr::Operation(*b),
        NodeOperand::Base(b) => NodeArithmeticExpr::Base(b),
    }
}

/// The stream and the expression read at its position, with a fresh
/// expression stack.
pub open spec fn read_expression(st: StreamState) -> (StreamState, Option<NodeOperand>) {
    let (st2, _, e) = expression_outcome(st, Seq::empty());
    (st2, e)
}

/// `exit(expr)` at the position: the missing brackets are reported; an
/// empty or wrong expression gives no statement.
pub open spec fn exit_outcome(st: StreamState) -> (StreamState, Option<NodeExit>) {
    if !(peek_token(st, 0) matches Some(Token::Exit { .. })) {
        (st, None)
    } else if !(peek_token(st, 1) matches Some(Token::OpenBracket { .. })) {
        (
            with_error(st, ParserErrorType::ErrExitOpenBracketMissing, peek_token(st, 0)->0@.span()),
            None,
        )
    } else {
        let (st2, e) = read_expression(advanced(st, 2));
        if !(peek_token(st2, 0) matches Some(Token::ClosedBracket { .. })) {
            (
                with_error(
                    st2,
                    ParserErrorType::ErrExitClosedBracketMissing,
                    peek_token(st2, -1)->0@.span(),
                ),
                None,
            )
        } else {
            (
                advanced(st2, 1),
                match e {
                    Some(o) => Some(NodeExit { expr: expr_of_operand(o) }),
                    None => None,
                },
            )
        }
    }
}

/// An exit statement exits with exactly the expression written between its
/// brackets: the tree that the expression factory reads after `exit(`, up
/// to the closing bracket. Its operands, after those of any expressions
/// left unused, are the operands written between the brackets, in order.
pub proof fn lemma_exit_keeps_expression(st: StreamState)
    requires
        well_formed(st),
    ensures
        exit_outcome(st).1 matches Some(ex) ==> ({
            let (st2, rest, e) = expression_outcome(advanced(st, 2), Seq::empty());
            &&& peek_token(st, 0) matches Some(Token::Exit { .. })
            &&& peek_token(st, 1) matches Some(Token::OpenBracket { .. })
            &&& peek_token(st2, 0) matches Some(Token::ClosedBracket { .. })
            &&& e matches Some(x) && ex.expr == expr_of_operand(x)
            &&& stack_leaves(rest) + expr_leaves(ex.expr) == operands(
                current_line(st).subrange(st.index as int + 2, st2.index as int),
            )
        }),
{
    if exit_outcome(st).1 is Some {
        let inner = advanced(st, 2);
        assert(inner.index == st.index + 2);
        lemma_expression_keeps_operand_order(inner);
        let (st2, rest, e) = expression_outcome(inner, Seq::empty());
        let x = e->0;
        assert(expr_leaves(expr_of_operand(x)) == operand_leaves(x));
    }
}

/// `name = expr` at the position, whitespace aside.
pub open spec fn assignment_outcome(st: StreamState) -> (StreamState, Option<NodeVariableAssignment>) {
    let toks = first_non_whitespace(current_line(st).skip(st.index as int), 2);
    if toks.len() == 2 && toks[0] is ID && toks[1] is Equals {
        let (st2, e) = read_expression(skipped(st, 2));
        (
            st2,
            match e {
                Some(o) => Some(NodeVariableAssignment { variable: toks[0], value: expr_of_operand(o) }),
                None => None,
            },
        )
    } else {
        (st, None)
    }
}

/// An assignment `name = expr` assigns to the identifier it starts with
/// exactly the expression written after `=`: the tree that the expression
/// factory reads there, whose operands, after those of any expressions left
/// unused, are the operands written after `=`, in order.
pub proof fn lemma_assignment_keeps_expression(st: StreamState)
    requires
        well_formed(st),
    ensures
        assignment_outcome(st).1 matches Some(a) ==> ({
            let toks = first_non_whitespace(current_line(st).skip(st.index as int), 2);
            let (st2, rest, e) = expression_outcome(skipped(st, 2), Seq::empty());
            &&& toks.len() == 2
            &&& toks[0] is ID
            &&& toks[1] is Equals
            &&& a.variable == toks[0]
            &&& e matches Some(x) && a.value == expr_of_operand(x)
            &&& stack_leaves(rest) + expr_leaves(a.value) == operands(
                current_line(st).subrange(skipped(st, 2).index as int, st2.index as int),
            )
        }),
{
    if assignment_outcome(st).1 is Some {
        let toks = first_non_whitespace(current_line(st).skip(st.index as int), 2);
        assert(current_line(st).skip(st.index as int).len() > 0);
        assert(st.lines.len() > 0);
        lemma_skipped(st, 2);
        lemma_expression_keeps_operand_order(skipped(st, 2));
        let (st2, rest, e) = expression_outcome(skipped(st, 2), Seq::empty());
        let x = e->0;
        assert(expr_leaves(expr_of_operand(x)) == operand_leaves(x));
        assert(current_line(skipped(st, 2)) == current_line(st));
    }
}

/// A statement at the position: an exit, else an assignment, else a block,
/// each tried where the one before left the stream.
pub open spec fn stmt_outcome(st: StreamState) -> (StreamState, Option<StmtView>)
    decreases rank(st), 2int,
{
    let (s1, e) = exit_outcome(st);
    if e is Some {
        (s1, Some(StmtView::Exit(e->0)))
    } else {
        let (s2, a) = assignment_outcome(s1);
        if a is Some {
            (s2, Some(StmtView::ID(a->0)))
        } else if rank(s2) <= rank(st) {
            let (s3, b) = scope_outcome(s2);
            (
                s3,
                match b {
                    Some(stmts) => Some(StmtView::Scope(stmts)),
                    None => None,
                },
            )
        } else {
            (s2, None)
        }
    }
}

/// A block at the position: `{`, then its statements line by line, then
/// `}`; a block that is never closed is reported at its `{`.
pub open spec fn scope_outcome(st: StreamState) -> (StreamState, Option<Seq<StmtView>>)
    decreases rank(st), 1int,
{
    if !(peek_token(st, 0) matches Some(Token::OpenCurlyBracket { .. })) {
        (st, None)
    } else {
        let s1 = after_statement(advanced(st, 1), true);
        if rank(s1) < rank(st) {
            scope_loop(s1, Seq::empty(), peek_token(st, 0)->0@.span())
        } else {
            (s1, None)
        }
    }
}

/// The rest of a block opened at `open`, with the statements read so far.
pub open spec fn scope_loop(st: StreamState, stmts: Seq<StmtView>, open: Span) -> (
    StreamState,
    Option<Seq<StmtView>>,
)
    decreases rank(st), 3int,
{
    match peek_token(st, 0) {
        None => (with_error(st, ParserErrorType::ErrScopeClosesCurlyBracketMissing, open), None),
        Some(t) => {
            if t is ClosedCurlyBracket {
                (advanced(st, 1), Some(stmts))
            } else {
                let (s1, r) = stmt_outcome(st);
                let stmts2 = match r {
                    Some(s) => stmts.push(s),
                    None => stmts,
                };
                let s2 = if peek_token(s1, 0) matches Some(Token::ClosedCurlyBracket { .. }) {
                    s1
                } else {
                    after_statement(s1, true)
                };
                if rank(s2) < rank(st) {
                    scope_loop(s2, stmts2, open)
                } else {
                    (s2, None)
                }
            }
        },
    }
}

/// An `Error` token lies ahead on the current line.
pub open spec fn error_ahead(st: StreamState) -> bool {
    exists|j: int| st.index <= j < current_line(st).len() && #[trigger] current_line(st)[j] is Error
}

/// The stream and the statements after `create`: a line that holds an
/// `Error` token is left alone; otherwise a statement read is appended.
pub open spec fn create_outcome(st: StreamState, stmts: Seq<StmtView>) -> (StreamState, Seq<StmtView>) {
    if error_ahead(st) {
        (st, stmts)
    } else {
        let (s1, r) = stmt_outcome(st);
        (
            s1,
            match r {
                Some(s) => stmts.push(s),
                None => stmts,
            },
        )
    }
}

pub open spec fn opt_stmt_view(r: Option<NodeStmt>) -> Option<StmtView> {
    match r {
        Some(s) => Some(s@),
        None => None,
    }
}

/// Moving forward never raises the rank, and a move to a position with
/// another token ahead lowers it.
proof fn lemma_moved(a: StreamState, b: StreamState)
    requires
        forward(a, b),
        peek_token(a, 0) != peek_token(b, 0),
    ensures
        rank(b) < rank(a),
{
    lemma_forward_rank(a, b);
}

impl StatementFactory {
    pub fn new() -> (r: Self) {
        StatementFactory {}
    }

    /// Reads the statement at the position of `stream` and appends it to
    /// `stmts`, unless the current line holds an `Error` token.
    pub fn create(&self, stream: &mut TokenStream, stmts: &mut Vec<NodeStmt>)
        requires
            well_formed(old(stream)@),
        ensures
            (final(stream)@, stmts_view(final(stmts)@)) == create_outcome(
                old(stream)@,
                stmts_view(old(stmts)@),
            ),
            forward(old(stream)@, final(stream)@),
    {
        if !stream.is_err_token_present() {
            let r = self.parse_stmt(stream);
            if let Some(stmt) = r {
                proof {
                    lemma_stmts_view_push(stmts@, stmt);
                }
                stmts.push(stmt);
            }
        }
    }

    fn parse_stmt(&self, stream: &mut TokenStream) -> (r: Option<NodeStmt>)
        requires
            well_formed(old(stream)@),
        ensures
            (final(stream)@, opt_stmt_view(r)) == stmt_outcome(old(stream)@),
            forward(old(stream)@, final(stream)@),
        decreases rank(old(stream)@), 2int,
    {
        let ghost st0 = stream@;
        if let Some(exit_node) = self.parse_exit(stream) {
            return Some(NodeStmt::Exit(exit_node));
        }
        let ghost s1 = stream@;
        if let Some(variable_assignment) = self.parse_variable_assignment(stream) {
            proof {
                lemma_forward_trans(st0, s1, stream@);
            }
            return Some(NodeStmt::ID(variable_assignment));
        }
        let ghost s2 = stream@;
        proof {
            lemma_forward_trans(st0, s1, s2);
            lemma_forward_rank(st0, s2);
        }
        let r = match self.parse_scope(stream) {
            Some(scope_node) => Some(NodeStmt::Scope(scope_node)),
            None => None,
        };
        proof {
            lemma_forward_trans(st0, s2, stream@);
        }
        r
    }

    fn parse_exit(&self, stream: &mut TokenStream) -> (r: Option<NodeExit>)
        requires
            well_formed(old(stream)@),
        ensures
            (final(stream)@, r) == exit_outcome(old(stream)@),
            forward(old(stream)@, final(stream)@),
    {
        let ghost st0 = stream@;
        let first = stream.peek(0);
        if !matches!(first, Some(Token::Exit { .. })) {
            return None;
        }
        let second = stream.peek(1);
        if !matches!(second, Some(Token::OpenBracket { .. })) {
            let token = first.unwrap();
            stream.log_error(ParserErrorType::ErrExitOpenBracketMissing, &token);
            return None;
        }
        stream.advance(2);
        let ghost s1 = stream@;
        assert(s1.index == st0.index + 2);
        let expr = self.parse_arithmetic_expr(stream);
        let ghost s2 = stream@;
        proof {
            lemma_forward_trans(st0, s1, s2);
        }
        if !matches!(stream.peek(0), Some(Token::ClosedBracket { .. })) {
            let back = stream.peek_back(1).unwrap();
            stream.log_error(ParserErrorType::ErrExitClosedBracketMissing, &back);
            return None;
        }
        stream.advance(1);
        proof {
            lemma_forward_trans(st0, s2, stream@);
        }
        match expr {
            Some(NodeOperand::Operation(operation)) => Some(
                NodeExit { expr: NodeArithmeticExpr::Operation(*operation) },
            ),
            Some(NodeOperand::Base(base)) => Some(NodeExit { expr: NodeArithmeticExpr::Base(base) }),
            None => None,
        }
    }

    fn parse_variable_assignment(&self, stream: &mut TokenStream) -> (r: Option<
        NodeVariableAssignment,
    >)
        requires
            well_formed(old(stream)@),
        ensures
            (final(stream)@, r) == assignment_outcome(old(stream)@),
            forward(old(stream)@, final(stream)@),
    {
        let ghost st0 = stream@;
        if let Some(tokens) = stream.peek_range(2, true) {
            if matches!(tokens[0], Token::ID { .. }) && matches!(tokens[1], Token::Equals { .. }) {
                let id = tokens[0].duplicate();
                proof {
                    lemma_skipped(st0, 2);
                }
                stream.advance_skip_tokens(2, true);
                let ghost s1 = stream@;
                let r = match self.parse_arithmetic_expr(stream) {
                    Some(NodeOperand::Operation(operation)) => Some(
                        NodeVariableAssignment {
                            variable: id,
                            value: NodeArithmeticExpr::Operation(*operation),
                        },
                    ),
                    Some(NodeOperand::Base(base)) => Some(
                        NodeVariableAssignment { variable: id, value: NodeArithmeticExpr::Base(base) },
                    ),
                    None => None,
                };
                proof {
                    lemma_forward_trans(st0, s1, stream@);
                }
                return r;
            }
        }
        None
    }

    fn parse_scope(&self, stream: &mut TokenStream) -> (r: Option<NodeScope>)
        requires
            well_formed(old(stream)@),
        ensures
            (final(stream)@, match r {
                Some(sc) => Some(stmts_view(sc.stmts@)),
                None => None,
            }) == scope_outcome(old(stream)@),
            forward(old(stream)@, final(stream)@),
        decreases rank(old(stream)@), 1int,
    {
        let ghost st0 = stream@;
        let first = stream.peek(0);
        if !matches!(first, Some(Token::OpenCurlyBracket { .. })) {
            return None;
        }
        let jump_back = first.unwrap().get_span();
        stream.advance(1);
        let ghost s1 = stream@;
        proof {
            lemma_forward_rank(st0, s1);
            lemma_after_statement(s1, true);
        }
        stream.advance_stmt(true);
        proof {
            lemma_forward_trans(st0, s1, stream@);
            lemma_forward_rank(s1, stream@);
        }
        let mut stmts: Vec<NodeStmt> = Vec::new();
        let ghost goal = scope_outcome(st0);
        loop
            invariant
                well_formed(stream@),
                forward(st0, stream@),
                st0 == old(stream)@,
                rank(stream@) < rank(st0),
                jump_back == peek_token(st0, 0)->0@.span(),
                goal == scope_outcome(old(stream)@),
                scope_loop(stream@, stmts_view(stmts@), jump_back) == goal,
            ensures
                well_formed(stream@),
                forward(st0, stream@),
                scope_loop(stream@, stmts_view(stmts@), jump_back) == goal,
                peek_token(stream@, 0) is None || peek_token(stream@, 0) matches Some(
                    Token::ClosedCurlyBracket { .. },
                ),
            decreases rank(stream@),
        {
            let next = stream.peek(0);
            match next {
                None => {
                    break;
                },
                Some(Token::ClosedCurlyBracket { .. }) => {
                    break;
                },
                Some(t) => {
                    let ghost sa = stream@;
                    let ghost before = stmts@;
                    if let Some(stmt) = self.parse_stmt(stream) {
                        proof {
                            lemma_stmts_view_push(stmts@, stmt);
                        }
                        stmts.push(stmt);
                    }
                    let ghost sb = stream@;
                    if !matches!(stream.peek(0), Some(Token::ClosedCurlyBracket { .. })) {
                        stream.advance_stmt(true);
                        proof {
                            lemma_after_statement(sb, true);
                            lemma_forward_trans(sa, sb, stream@);
                            if peek_token(sb, 0) is None {
                                lemma_moved(sa, sb);
                                lemma_forward_rank(sb, stream@);
                            } else {
                                lemma_forward_rank(sa, sb);
                            }
                        }
                    } else {
                        proof {
                            lemma_moved(sa, sb);
                        }
                    }
                    proof {
                        lemma_forward_trans(st0, sa, stream@);
                    }
                },
            }
        }
        if let Some(Token::ClosedCurlyBracket { .. }) = stream.peek(0) {
            let ghost se = stream@;
            stream.advance(1);
            proof {
                lemma_forward_trans(st0, se, stream@);
            }
            return Some(NodeScope { stmts });
        }
        stream.log_error(
            ParserErrorType::ErrScopeClosesCurlyBracketMissing,
            &Token::OpenCurlyBracket { span: jump_back },
        );
        None
    }

    fn parse_arithmetic_expr(&self, stream: &mut TokenStream) -> (r: Option<NodeOperand>)
        requires
            well_formed(old(stream)@),
        ensures
            (final(stream)@, r) == read_expression(old(stream)@),
            forward(old(stream)@, final(stream)@),
            final(stream)@.stmt_index == old(stream)@.stmt_index,
            final(stream)@.index >= old(stream)@.index,
    {
        let mut factory = ExpressionFactory::new();
        factory.create(stream)
    }
}

} // verus!
