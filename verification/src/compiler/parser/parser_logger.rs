use vstd::prelude::*;
use crate::compiler::logger::Logger;
use crate::compiler::span::Span;
use crate::compiler::tokenizer::Token;

verus! {

/// The errors found while parsing one source file, with the file's name and
/// text for reporting them.
pub struct ParserLogger {
    pub file_name: String,
    pub source: String,
    pub errors: Vec<(ParserErrorType, Span)>,
}

#[derive(Clone, Copy, Debug, PartialEq, Eq, Hash, Structural)]
pub enum ParserErrorType {
    ErrInvalidStatement,
    ErrExitOpenBracketMissing,
    ErrExitClosedBracketMissing,
    ErrUnexpectedToken,
    ErrExpressionOpenBracketMissing,
    ErrExpressionClosedBracketMissing,
    ErrScopeClosesCurlyBracketMissing,
    ErrMissingOperand,
    ErrTypeMismatch,
}

impl ParserErrorType {
    pub open spec fn text(self) -> Seq<char> {
        match self {
            ParserErrorType::ErrInvalidStatement => "Invalid statement"@,
            ParserErrorType::ErrExitOpenBracketMissing => "Exit '(' is missing."@,
            ParserErrorType::ErrExitClosedBracketMissing => "Exit ')' is missing."@,
            ParserErrorType::ErrUnexpectedToken => "Unexpected character sequence found here."@,
            ParserErrorType::ErrExpressionOpenBracketMissing => "Mismatched Parenthesis: ( is missing"@,
            ParserErrorType::ErrExpressionClosedBracketMissing => "Mismatched Parenthesis: ) is missing"@,
            ParserErrorType::ErrScopeClosesCurlyBracketMissing => "Scope is initialized but never closes"@,
            ParserErrorType::ErrMissingOperand => "Missing operand for operator."@,
            ParserErrorType::ErrTypeMismatch => "Type mismatch in expression."@,
        }
    }

    /// The message that reports an error of this type.
    pub fn message(&self) -> (r: &'static str)
        ensures
            r@ == self.text(),
    {
        match self {
            ParserErrorType::ErrInvalidStatement => "Invalid statement",
            ParserErrorType::ErrExitOpenBracketMissing => "Exit '(' is missing.",
            ParserErrorType::ErrExitClosedBracketMissing => "Exit ')' is missing.",
            ParserErrorType::ErrUnexpectedToken => "Unexpected character sequence found here.",
            ParserErrorType::ErrExpressionOpenBracketMissing => "Mismatched Parenthesis: ( is missing",
            ParserErrorType::ErrExpressionClosedBracketMissing => "Mismatched Parenthesis: ) is missing",
            ParserErrorType::ErrScopeClosesCurlyBracketMissing => "Scope is initialized but never closes",
            ParserErrorType::ErrMissingOperand => "Missing operand for operator.",
            ParserErrorType::ErrTypeMismatch => "Type mismatch in expression.",
        }
    }
}

impl ParserLogger {
    /// A logger for the file `file_name` with text `code`, with no errors yet.
    pub fn for_source(file_name: String, code: String) -> (r: ParserLogger)
        ensures
            r.file_name == file_name,
            r.source == code,
            r.errors@ == Seq::<(ParserErrorType, Span)>::empty(),
    {
        ParserLogger { file_name, source: code, errors: Vec::new() }
    }

    /// Whether an error has been logged.
    pub fn failed_parsing(&self) -> (r: bool)
        ensures
            r == (self.errors@.len() > 0),
    {
        self.errors.len() > 0
    }

    /// Records an error of type `error` at the position of `token`.
    pub fn log_error(&mut self, error: ParserErrorType, token: &Token)
        ensures
            final(self).errors@ == old(self).errors@.push((error, token@.span())),
            final(self).file_name == old(self).file_name,
            final(self).source == old(self).source,
    {
        self.errors.push((error, token.get_span()));
    }

    /// The logged errors, in the order they were found.
    pub fn get_errors(&self) -> (r: Vec<(ParserErrorType, Span)>)
        ensures
            r@ == self.errors@,
    {
        let mut r: Vec<(ParserErrorType, Span)> = Vec::new();
        let mut i: usize = 0;
        while i < self.errors.len()
            invariant
                i <= self.errors.len(),
                r@ == self.errors@.subrange(0, i as int),
            decreases self.errors.len() - i,
        {
            let (e, s) = self.errors[i];
            r.push((e, s));
            i = i + 1;
            assert(r@ =~= self.errors@.subrange(0, i as int));
        }
        assert(self.errors@.subrange(0, self.errors.len() as int) =~= self.errors@);
        r
    }
}

impl Logger for ParserLogger {
    /// A logger for the file `file_name` with text `code`, with no errors yet.
    fn new(file_name: String, code: String) -> (r: ParserLogger)
        ensures
            r.file_name == file_name,
            r.source == code,
            r.errors@ == Seq::<(ParserErrorType, Span)>::empty(),
    {
        ParserLogger::for_source(file_name, code)
    }
}

} // verus!
