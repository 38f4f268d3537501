pub mod generator;
pub mod logger;
pub mod parser;
pub mod span;
pub mod tokenizer;

use vstd::prelude::*;
use crate::compiler::generator::generator::{
    appended, gen_program, lemma_program_exits, lemma_program_starts_with_header, GenState,
    Generator,
};
use crate::compiler::generator::architecture::{exit_marker_text, program_header_text};
use crate::utility::text::contains_seq;
use crate::compiler::generator::stack_handler::StackView;
use crate::compiler::parser::parser::{parse_result, Parser};
use crate::compiler::parser::parser_logger::{ParserErrorType, ParserLogger};
use crate::compiler::parser::token_stream::{split_lines, StreamState};
use crate::compiler::span::Span;
use crate::compiler::tokenizer::parenthesis_handler::ParenthesisHandler;
use crate::compiler::tokenizer::token::tokens_view;
use crate::compiler::tokenizer::tokenizer::spec_tokenize;
use crate::compiler::tokenizer::{Token, Tokenizer};
use crate::utility::text::str_to_string;
use crate::utility::{Arch, OS};

verus! {

/// Compiles source files into assembly for one target system, and keeps the
/// parse errors of the last file.
pub struct Compiler {
    pub m_arch: Arch,
    pub m_os: OS,
    pub m_errors: Vec<(ParserErrorType, Span)>,
}

/// The bracket handler a fresh tokenizer starts with.
pub open spec fn fresh_handler() -> ParenthesisHandler {
    ParenthesisHandler { m_function_call: false, m_bracket_depth: 0 }
}

/// A parser's stream over `tokens` for the file `file` with text `input`,
/// before any error.
pub open spec fn source_stream(tokens: Seq<Token>, file: Seq<char>, input: Seq<char>) -> StreamState {
    StreamState {
        lines: split_lines(tokens),
        stmt_index: 0,
        index: 0,
        errors: Seq::empty(),
        file_name: file,
        source: input,
    }
}

/// A generator's state before it has generated anything.
pub open spec fn fresh_gen_state() -> GenState {
    GenState {
        out: Seq::empty(),
        stack: StackView { vars: Seq::empty(), size: 0, depth: 0 },
        pushes: 0,
        exps: 0,
    }
}

/// The program parsed from `tokens` can be generated, or there is none.
pub open spec fn compile_defined(
    tokens: Seq<Token>,
    file: Seq<char>,
    input: Seq<char>,
    arch: Arch,
    os: OS,
) -> bool {
    match parse_result(source_stream(tokens, file, input)).1 {
        None => true,
        Some(stmts) => gen_program(arch, os, fresh_gen_state(), stmts) is Some,
    }
}

/// The assembly of the program parsed from `tokens`; `None` when parsing
/// failed.
pub open spec fn compile_spec(
    tokens: Seq<Token>,
    file: Seq<char>,
    input: Seq<char>,
    arch: Arch,
    os: OS,
) -> Option<Seq<char>> {
    match parse_result(source_stream(tokens, file, input)).1 {
        None => None,
        Some(stmts) => Some(gen_program(arch, os, fresh_gen_state(), stmts)->0.out),
    }
}

/// Every token sequence that the tokenizer can produce from `input` gives a
/// program that can be generated.
pub open spec fn input_compiles(file: Seq<char>, input: Seq<char>, arch: Arch, os: OS) -> bool {
    forall|t: Seq<Token>|
        tokens_view(t) == spec_tokenize(fresh_handler(), input) ==> #[trigger] compile_defined(
            t,
            file,
            input,
            arch,
            os,
        )
}

/// A compiled program starts with its target's program header and holds
/// the exit marker: whatever the source, the generated program ends the
/// process.
pub proof fn lemma_compiled_program_exits(
    tokens: Seq<Token>,
    file: Seq<char>,
    input: Seq<char>,
    arch: Arch,
    os: OS,
)
    requires
        compile_defined(tokens, file, input, arch, os),
        compile_spec(tokens, file, input, arch, os) is Some,
    ensures
        appended(program_header_text(arch), compile_spec(tokens, file, input, arch, os)->0),
        contains_seq(compile_spec(tokens, file, input, arch, os)->0, exit_marker_text(arch)),
{
    let stmts = parse_result(source_stream(tokens, file, input)).1->0;
    lemma_program_exits(arch, os, fresh_gen_state(), stmts);
    lemma_program_starts_with_header(arch, os, fresh_gen_state(), stmts);
}

impl Compiler {
    pub fn new(arch: Arch, os: OS) -> (r: Self)
        ensures
            r.m_arch == arch,
            r.m_os == os,
            r.m_errors@ == Seq::<(ParserErrorType, Span)>::empty(),
    {
        Compiler { m_arch: arch, m_os: os, m_errors: Vec::new() }
    }

    /// Tokenizes, parses and generates `input`, the text of `file`. `None`
    /// when parsing failed; the errors are kept in `m_errors`.
    pub fn compile(&mut self, file: &str, input: &str) -> (r: Option<String>)
        requires
            4 * input@.len() + 4 <= usize::MAX,
            input_compiles(file@, input@, old(self).m_arch, old(self).m_os),
        ensures
            exists|t: Seq<Token>|
                {
                    &&& tokens_view(t) == spec_tokenize(fresh_handler(), input@)
                    &&& match r {
                        Some(s) => compile_spec(t, file@, input@, old(self).m_arch, old(self).m_os)
                            == Some(s@),
                        None => compile_spec(t, file@, input@, old(self).m_arch, old(self).m_os)
                            is None,
                    }
                    &&& final(self).m_errors@ == parse_result(source_stream(t, file@, input@)).0.errors
                },
            r is None <==> final(self).m_errors@.len() > 0,
            r is Some ==> appended(program_header_text(old(self).m_arch), r->0@),
            r is Some ==> contains_seq(r->0@, exit_marker_text(old(self).m_arch)),
            final(self).m_arch == old(self).m_arch,
            final(self).m_os == old(self).m_os,
    {
        let tokens: Vec<Token> = {
            let mut tokenizer = Tokenizer::new();
            tokenizer.tokenize(input);
            tokenizer.get_tokens()
        };
        let ghost t = tokens@;
        let logger = ParserLogger::for_source(str_to_string(file), str_to_string(input));
        let mut parser = Parser::new(tokens, logger);
        let prog = parser.parse();
        self.m_errors = parser.get_logger().get_errors();
        proof {
            assert(compile_defined(t, file@, input@, self.m_arch, self.m_os));
            if prog is Some {
                lemma_compiled_program_exits(t, file@, input@, self.m_arch, self.m_os);
            }
        }
        match prog {
            Some(prog) => {
                let mut generator = Generator::new(prog, self.m_arch, self.m_os);
                generator.generate();
                Some(generator.get_out_assembly())
            },
            None => None,
        }
    }

    /// Whether `input` parses into a program that can be generated, or does
    /// not parse; `compile` may be called on such an input.
    pub fn can_compile(&self, file: &str, input: &str) -> (r: bool)
        requires
            4 * input@.len() + 4 <= usize::MAX,
        ensures
            exists|t: Seq<Token>|
                tokens_view(t) == spec_tokenize(fresh_handler(), input@) && r == compile_defined(
                    t,
                    file@,
                    input@,
                    self.m_arch,
                    self.m_os,
                ),
    {
        let tokens: Vec<Token> = {
            let mut tokenizer = Tokenizer::new();
            tokenizer.tokenize(input);
            tokenizer.get_tokens()
        };
        let logger = ParserLogger::for_source(str_to_string(file), str_to_string(input));
        let mut parser = Parser::new(tokens, logger);
        match parser.parse() {
            Some(prog) => {
                let generator = Generator::new(prog, self.m_arch, self.m_os);
                generator.can_generate()
            },
            None => true,
        }
    }
}

} // verus!
