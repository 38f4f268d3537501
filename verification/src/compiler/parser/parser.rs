use vstd::prelude::*;
use crate::compiler::parser::nodes::{stmts_view, NodeProgram, NodeStmt, StmtView};
use crate::compiler::parser::parser_logger::ParserLogger;
use crate::compiler::parser::statement_factory::{create_outcome, StatementFactory};
use crate::compiler::parser::token_stream::{
    after_statement, forward, lemma_after_statement, lemma_forward_rank, peek_token, rank,
    split_lines, well_formed, StreamState, TokenStream,
};
use crate::compiler::tokenizer::Token;

verus! {

/// Parses the tokens of a program into its statements.
pub struct Parser {
    m_token_stream: TokenStream,
}

impl View for Parser {
    type V = StreamState;

    closed spec fn view(&self) -> StreamState {
        self.m_token_stream@
    }
}

/// The stream and the statements after the statement lines from the
/// position on: each line is read as a statement, and what is left of it is
/// reported as unexpected.
pub open spec fn parse_loop(st: StreamState, stmts: Seq<StmtView>) -> (StreamState, Seq<StmtView>)
    decreases rank(st),
{
    if peek_token(st, 0) is None {
        (st, stmts)
    } else {
        let (s1, stmts1) = create_outcome(st, stmts);
        let s2 = after_statement(s1, true);
        if rank(s2) < rank(st) {
            parse_loop(s2, stmts1)
        } else {
            (s2, stmts1)
        }
    }
}

/// The stream after parsing and the program's statements; no program when
/// an error has been logged.
pub open spec fn parse_result(st: StreamState) -> (StreamState, Option<Seq<StmtView>>) {
    let (s, stmts) = parse_loop(st, Seq::empty());
    (
        s,
        if s.errors.len() > 0 {
            None
        } else {
            Some(stmts)
        },
    )
}

/// The stream a parser starts from: the statement lines of `tokens`, at the
/// start, with the logger's errors, file name and text.
pub open spec fn initial_stream(tokens: Seq<Token>, logger: ParserLogger) -> StreamState {
    StreamState {
        lines: split_lines(tokens),
        stmt_index: 0,
        index: 0,
        errors: logger.errors@,
        file_name: logger.file_name@,
        source: logger.source@,
    }
}

impl Parser {
    pub fn new(tokens: Vec<Token>, m_logger: ParserLogger) -> (r: Self)
        ensures
            r@ == initial_stream(tokens@, m_logger),
            well_formed(r@),
    {
        Parser { m_token_stream: TokenStream::new(tokens, m_logger) }
    }

    /// The program, or `None` when an error has been logged; the errors stay
    /// in the logger.
    pub fn parse(&mut self) -> (r: Option<NodeProgram>)
        requires
            well_formed(old(self)@),
        ensures
            (final(self)@, match r {
                Some(p) => Some(p@),
                None => None,
            }) == parse_result(old(self)@),
            well_formed(final(self)@),
    {
        let mut stmts: Vec<NodeStmt> = Vec::new();
        let factory = StatementFactory::new();
        let ghost goal = parse_loop(self.m_token_stream@, Seq::empty());
        loop
            invariant
                well_formed(self.m_token_stream@),
                parse_loop(self.m_token_stream@, stmts_view(stmts@)) == goal,
                goal == parse_loop(old(self)@, Seq::empty()),
            ensures
                well_formed(self.m_token_stream@),
                goal == (self.m_token_stream@, stmts_view(stmts@)),
            decreases rank(self.m_token_stream@),
        {
            if self.m_token_stream.peek(0).is_none() {
                break;
            }
            let ghost sa = self.m_token_stream@;
            factory.create(&mut self.m_token_stream, &mut stmts);
            let ghost sb = self.m_token_stream@;
            self.m_token_stream.advance_stmt(true);
            proof {
                lemma_after_statement(sb, true);
                lemma_forward_rank(sa, sb);
                lemma_forward_rank(sb, self.m_token_stream@);
            }
        }
        if self.flush_errors() {
            None
        } else {
            Some(NodeProgram { stmts })
        }
    }

    /// Whether an error has been logged.
    fn flush_errors(&self) -> (r: bool)
        ensures
            r == (self@.errors.len() > 0),
    {
        self.m_token_stream.m_logger.failed_parsing()
    }

    /// The logger, with the errors found so far.
    pub fn get_logger(&self) -> (r: &ParserLogger)
        ensures
            r.errors@ == self@.errors,
            r.file_name@ == self@.file_name,
            r.source@ == self@.source,
    {
        &self.m_token_stream.m_logger
    }
}

} // verus!
