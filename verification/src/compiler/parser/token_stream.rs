use vstd::prelude::*;
use super::parser_logger::{ParserErrorType, ParserLogger};
use crate::compiler::span::Span;
use crate::compiler::tokenizer::{Token, TokenView};

verus! {

/// The tokens of a program grouped into statement lines, with a position.
///
/// A line ends at a line break (which is dropped, as are empty lines), after
/// an opening brace, and around a closing brace, which forms a line of its
/// own. Whitespace at either end of a line is dropped.
pub struct TokenStream {
    pub m_tokens: Vec<Vec<Token>>,
    pub m_logger: ParserLogger,
    pub m_index: usize,
    pub m_stmt_index: usize,
}

/// The lines of a token stream, its position (line, then token within the
/// line), and the errors logged so far with the logged file's name and text.
pub struct StreamState {
    pub lines: Seq<Seq<Token>>,
    pub stmt_index: nat,
    pub index: nat,
    pub errors: Seq<(ParserErrorType, Span)>,
    pub file_name: Seq<char>,
    pub source: Seq<char>,
}

pub open spec fn lines_view(lines: Seq<Vec<Token>>) -> Seq<Seq<Token>> {
    lines.map_values(|l: Vec<Token>| l@)
}

impl View for TokenStream {
    type V = StreamState;

    open spec fn view(&self) -> StreamState {
        StreamState {
            lines: lines_view(self.m_tokens@),
            stmt_index: self.m_stmt_index as nat,
            index: self.m_index as nat,
            errors: self.m_logger.errors@,
            file_name: self.m_logger.file_name@,
            source: self.m_logger.source@,
        }
    }
}

pub open spec fn is_whitespace(t: Token) -> bool {
    t is WhiteSpace
}

/// `line` without its leading whitespace tokens.
pub open spec fn trim_front(line: Seq<Token>) -> Seq<Token>
    decreases line.len(),
{
    if line.len() > 0 && is_whitespace(line[0]) {
        trim_front(line.drop_first())
    } else {
        line
    }
}

/// `line` without its trailing whitespace tokens.
pub open spec fn trim_back(line: Seq<Token>) -> Seq<Token>
    decreases line.len(),
{
    if line.len() > 0 && is_whitespace(line.last()) {
        trim_back(line.drop_last())
    } else {
        line
    }
}

pub open spec fn trimmed(line: Seq<Token>) -> Seq<Token> {
    trim_back(trim_front(line))
}

/// The lines completed so far and the line being collected, after one more
/// token.
pub open spec fn split_step(acc: (Seq<Seq<Token>>, Seq<Token>), t: Token) -> (
    Seq<Seq<Token>>,
    Seq<Token>,
) {
    let (lines, line) = acc;
    if t is NewLine {
        if line.len() > 0 {
            (lines.push(trimmed(line)), Seq::empty())
        } else {
            (lines, Seq::empty())
        }
    } else if t is OpenCurlyBracket {
        (lines.push(trimmed(line.push(t))), Seq::empty())
    } else if t is ClosedCurlyBracket {
        if line.len() > 0 {
            (lines.push(trimmed(line)).push(seq![t]), Seq::empty())
        } else {
            (lines.push(seq![t]), Seq::empty())
        }
    } else {
        (lines, line.push(t))
    }
}

pub open spec fn splitting(tokens: Seq<Token>, k: nat) -> (Seq<Seq<Token>>, Seq<Token>)
    decreases k,
{
    if k == 0 {
        (Seq::empty(), Seq::empty())
    } else {
        split_step(splitting(tokens, (k - 1) as nat), tokens[k - 1])
    }
}

/// The statement lines of a sequence of tokens.
pub open spec fn split_lines(tokens: Seq<Token>) -> Seq<Seq<Token>> {
    let (lines, line) = splitting(tokens, tokens.len());
    if line.len() > 0 {
        lines.push(trimmed(line))
    } else {
        lines
    }
}

/// The position is on a line, and within it; with no lines it is at the
/// start.
pub open spec fn well_formed(st: StreamState) -> bool {
    if st.lines.len() == 0 {
        st.stmt_index == 0 && st.index == 0
    } else {
        st.stmt_index < st.lines.len() && st.index <= st.lines[st.stmt_index as int].len()
    }
}

/// The token `step` places after the position on the current line, if any.
pub open spec fn peek_token(st: StreamState, step: int) -> Option<Token> {
    if st.stmt_index < st.lines.len() && 0 <= st.index + step < st.lines[st.stmt_index as int].len() {
        Some(st.lines[st.stmt_index as int][st.index + step])
    } else {
        None
    }
}

/// The total length of the lines from `from` on.
pub open spec fn tokens_from(lines: Seq<Seq<Token>>, from: int) -> nat
    decreases lines.len() - from,
{
    if from >= lines.len() || from < 0 {
        0
    } else {
        lines[from].len() + tokens_from(lines, from + 1)
    }
}

/// How far the stream is from its end: the tokens not yet passed, plus one
/// for every line not yet left.
pub open spec fn rank(st: StreamState) -> nat {
    (tokens_from(st.lines, st.stmt_index as int) - st.index + st.lines.len() - st.stmt_index) as nat
}

/// The stream is at the end: on the last line (or past it) with nothing left
/// on the last line.
pub open spec fn at_end(st: StreamState) -> bool {
    st.stmt_index + 1 >= st.lines.len() && (st.lines.len() == 0 || st.index
        >= st.lines.last().len())
}

/// The first `count` non-whitespace tokens of `rest`, or fewer when `rest`
/// has fewer.
pub open spec fn first_non_whitespace(rest: Seq<Token>, count: nat) -> Seq<Token>
    decreases rest.len(),
{
    if count == 0 || rest.len() == 0 {
        Seq::empty()
    } else if is_whitespace(rest[0]) {
        first_non_whitespace(rest.drop_first(), count)
    } else {
        seq![rest[0]] + first_non_whitespace(rest.drop_first(), (count - 1) as nat)
    }
}

/// The position of the first token from `i` on that is not whitespace.
pub open spec fn skip_whitespace(line: Seq<Token>, i: int) -> int
    decreases line.len() - i,
{
    if 0 <= i < line.len() && is_whitespace(line[i]) {
        skip_whitespace(line, i + 1)
    } else {
        i
    }
}

/// The position after `step` more non-whitespace tokens from `i`.
pub open spec fn pass_tokens(line: Seq<Token>, i: int, step: nat) -> int
    decreases line.len() - i,
{
    if step == 0 || i >= line.len() || i < 0 {
        i
    } else if is_whitespace(line[i]) {
        pass_tokens(line, i + 1, step)
    } else {
        pass_tokens(line, i + 1, (step - 1) as nat)
    }
}

/// The position of the next line that has something left, or the end.
pub open spec fn next_statement(st: StreamState) -> StreamState
    decreases st.lines.len() - st.stmt_index,
{
    if peek_token(st, 0) is None && !at_end(st) && st.stmt_index < st.lines.len() {
        next_statement(StreamState { index: 0, stmt_index: st.stmt_index + 1, ..st })
    } else {
        st
    }
}

/// The errors for each token from position `i` on.
pub open spec fn unexpected_errors(line: Seq<Token>, i: int) -> Seq<(ParserErrorType, Span)>
    decreases line.len() - i,
{
    if 0 <= i < line.len() {
        seq![(ParserErrorType::ErrUnexpectedToken, line[i]@.span())] + unexpected_errors(
            line,
            i + 1,
        )
    } else {
        Seq::empty()
    }
}

/// The stream after the rest of the current statement line has been passed
/// (each of its tokens reported when `report` holds), at the next line that
/// has something left.
pub open spec fn after_statement(st: StreamState, report: bool) -> StreamState {
    if report && peek_token(st, 0) is Some {
        let line = st.lines[st.stmt_index as int];
        next_statement(
            StreamState {
                index: line.len(),
                errors: st.errors + unexpected_errors(line, st.index as int),
                ..st
            },
        )
    } else {
        next_statement(st)
    }
}

pub open spec fn current_line(st: StreamState) -> Seq<Token> {
    if st.stmt_index < st.lines.len() {
        st.lines[st.stmt_index as int]
    } else {
        Seq::empty()
    }
}

/// `b` lies at or after `a` on the same lines, and both are well formed.
pub open spec fn forward(a: StreamState, b: StreamState) -> bool {
    &&& a.lines == b.lines
    &&& well_formed(a)
    &&& well_formed(b)
    &&& (a.stmt_index < b.stmt_index || (a.stmt_index == b.stmt_index && a.index <= b.index))
}

/// The stream with one more error, logged at `span`.
pub open spec fn with_error(st: StreamState, error: ParserErrorType, span: Span) -> StreamState {
    StreamState { errors: st.errors.push((error, span)), ..st }
}

/// The stream moved to position `index` of the current line.
pub open spec fn at_index(st: StreamState, index: int) -> StreamState {
    StreamState { index: index as nat, ..st }
}

/// The position after `advance(step)`.
pub open spec fn advanced(st: StreamState, step: nat) -> StreamState {
    at_index(
        st,
        if st.index + step < current_line(st).len() {
            (st.index + step) as int
        } else {
            current_line(st).len() as int
        },
    )
}

/// The position after `advance_skip_tokens(step, true)`.
pub open spec fn skipped(st: StreamState, step: nat) -> StreamState {
    let line = current_line(st);
    at_index(st, skip_whitespace(line, pass_tokens(line, skip_whitespace(line, st.index as int), step)))
}

pub proof fn lemma_tokens_from_split(lines: Seq<Seq<Token>>, a: int, b: int)
    requires
        0 <= a < b <= lines.len(),
    ensures
        tokens_from(lines, a) >= lines[a].len() + tokens_from(lines, b),
    decreases b - a,
{
    if a + 1 < b {
        lemma_tokens_from_split(lines, a + 1, b);
    }
}

pub proof fn lemma_forward_rank(a: StreamState, b: StreamState)
    requires
        forward(a, b),
    ensures
        rank(b) <= rank(a),
        (a.stmt_index != b.stmt_index || a.index != b.index) ==> rank(b) < rank(a),
{
    if a.lines.len() > 0 {
        lemma_tokens_from_bound(a.lines, a.stmt_index as int);
        lemma_tokens_from_bound(b.lines, b.stmt_index as int);
        if a.stmt_index < b.stmt_index {
            lemma_tokens_from_split(a.lines, a.stmt_index as int, b.stmt_index as int);
        }
    }
}

pub proof fn lemma_forward_trans(a: StreamState, b: StreamState, c: StreamState)
    requires
        forward(a, b),
        forward(b, c),
    ensures
        forward(a, c),
{
}

pub proof fn lemma_after_statement(st: StreamState, report: bool)
    requires
        well_formed(st),
    ensures
        forward(st, after_statement(st, report)),
        after_statement(st, report).file_name == st.file_name,
        after_statement(st, report).source == st.source,
        report && peek_token(st, 0) is Some ==> rank(after_statement(st, report)) < rank(st),
{
    if report && peek_token(st, 0) is Some {
        let line = st.lines[st.stmt_index as int];
        let mid = StreamState {
            index: line.len(),
            errors: st.errors + unexpected_errors(line, st.index as int),
            ..st
        };
        lemma_next_statement(mid);
        lemma_forward_rank(st, mid);
        lemma_forward_rank(mid, next_statement(mid));
    } else {
        lemma_next_statement(st);
    }
}

pub proof fn lemma_skipped(st: StreamState, step: nat)
    requires
        well_formed(st),
        st.lines.len() > 0,
    ensures
        forward(st, skipped(st, step)),
        step > 0 && peek_token(st, 0) is Some && !is_whitespace(peek_token(st, 0)->0) ==> skipped(
            st,
            step,
        ).index > st.index,
{
    let line = current_line(st);
    lemma_skip_whitespace_bounds(line, st.index as int);
    let i1 = skip_whitespace(line, st.index as int);
    lemma_pass_tokens_bounds(line, i1, step);
    lemma_skip_whitespace_bounds(line, pass_tokens(line, i1, step));
}

pub proof fn lemma_skip_whitespace_bounds(line: Seq<Token>, i: int)
    requires
        0 <= i <= line.len(),
    ensures
        i <= skip_whitespace(line, i) <= line.len(),
        skip_whitespace(line, i) < line.len() ==> !is_whitespace(
            line[skip_whitespace(line, i)],
        ),
    decreases line.len() - i,
{
    if 0 <= i < line.len() && is_whitespace(line[i]) {
        lemma_skip_whitespace_bounds(line, i + 1);
    }
}

pub proof fn lemma_pass_tokens_bounds(line: Seq<Token>, i: int, step: nat)
    requires
        0 <= i <= line.len(),
    ensures
        i <= pass_tokens(line, i, step) <= line.len(),
        step > 0 && i < line.len() && !is_whitespace(line[i]) ==> pass_tokens(line, i, step)
            > i,
    decreases line.len() - i,
{
    if step == 0 || i >= line.len() {
    } else if is_whitespace(line[i]) {
        lemma_pass_tokens_bounds(line, i + 1, step);
    } else {
        lemma_pass_tokens_bounds(line, i + 1, (step - 1) as nat);
    }
}

pub proof fn lemma_tokens_from_unfold(lines: Seq<Seq<Token>>, from: int)
    requires
        0 <= from < lines.len(),
    ensures
        tokens_from(lines, from) == lines[from].len() + tokens_from(lines, from + 1),
{
}

pub proof fn lemma_tokens_from_bound(lines: Seq<Seq<Token>>, from: int)
    requires
        0 <= from < lines.len(),
    ensures
        tokens_from(lines, from) >= lines[from].len(),
{
}

pub proof fn lemma_next_statement(st: StreamState)
    requires
        well_formed(st),
    ensures
        well_formed(next_statement(st)),
        rank(next_statement(st)) <= rank(st),
        next_statement(st).lines == st.lines,
        next_statement(st).errors == st.errors,
        next_statement(st).file_name == st.file_name,
        next_statement(st).source == st.source,
        next_statement(st).stmt_index >= st.stmt_index,
        next_statement(st).stmt_index > st.stmt_index || next_statement(st) == st,
    decreases st.lines.len() - st.stmt_index,
{
    if peek_token(st, 0) is None && !at_end(st) && st.stmt_index < st.lines.len() {
        let nx = StreamState { index: 0, stmt_index: st.stmt_index + 1, ..st };
        lemma_tokens_from_unfold(st.lines, st.stmt_index as int);
        assert(nx.stmt_index < st.lines.len());
        lemma_next_statement(nx);
    }
}

pub proof fn lemma_unexpected_errors_len(line: Seq<Token>, i: int)
    requires
        0 <= i <= line.len(),
    ensures
        unexpected_errors(line, i).len() == line.len() - i,
    decreases line.len() - i,
{
    if i < line.len() {
        lemma_unexpected_errors_len(line, i + 1);
    }
}

/// A statement line holds no line break and neither starts nor ends with
/// whitespace.
pub open spec fn clean_line(line: Seq<Token>) -> bool {
    &&& forall|j: int| 0 <= j < line.len() ==> !(#[trigger] line[j] is NewLine)
    &&& line.len() > 0 ==> !is_whitespace(line[0]) && !is_whitespace(line.last())
}

proof fn lemma_trim_front(line: Seq<Token>)
    ensures
        trim_front(line).len() <= line.len(),
        trim_front(line) == line.subrange(
            line.len() - trim_front(line).len(),
            line.len() as int,
        ),
        trim_front(line).len() > 0 ==> !is_whitespace(trim_front(line)[0]),
    decreases line.len(),
{
    if line.len() > 0 && is_whitespace(line[0]) {
        lemma_trim_front(line.drop_first());
        let t = trim_front(line.drop_first());
        assert(line.drop_first().subrange(line.drop_first().len() - t.len(), line.drop_first().len() as int)
            =~= line.subrange(line.len() - t.len(), line.len() as int));
    } else {
        assert(line.subrange(0, line.len() as int) =~= line);
    }
}

proof fn lemma_trim_back(line: Seq<Token>)
    ensures
        trim_back(line).len() <= line.len(),
        trim_back(line) == line.take(trim_back(line).len() as int),
        trim_back(line).len() > 0 ==> !is_whitespace(trim_back(line).last()),
    decreases line.len(),
{
    if line.len() > 0 && is_whitespace(line.last()) {
        lemma_trim_back(line.drop_last());
        let t = trim_back(line.drop_last());
        assert(line.drop_last().take(t.len() as int) =~= line.take(t.len() as int));
    } else {
        assert(line.take(line.len() as int) =~= line);
    }
}

proof fn lemma_trimmed_clean(line: Seq<Token>)
    requires
        forall|j: int| 0 <= j < line.len() ==> !(#[trigger] line[j] is NewLine),
    ensures
        clean_line(trimmed(line)),
{
    lemma_trim_front(line);
    let f = trim_front(line);
    lemma_trim_back(f);
    let b = trim_back(f);
    assert forall|j: int| 0 <= j < b.len() implies !(#[trigger] b[j] is NewLine) by {
        assert(b[j] == f[j]);
        assert(f[j] == line[line.len() - f.len() + j]);
    }
    if b.len() > 0 {
        assert(b[0] == f[0]);
    }
}

proof fn lemma_splitting_clean(tokens: Seq<Token>, k: nat)
    requires
        k <= tokens.len(),
    ensures
        forall|i: int|
            0 <= i < splitting(tokens, k).0.len() ==> clean_line(#[trigger] splitting(tokens, k).0[i]),
        forall|j: int|
            0 <= j < splitting(tokens, k).1.len() ==> !(#[trigger] splitting(tokens, k).1[j] is NewLine),
    decreases k,
{
    if k > 0 {
        lemma_splitting_clean(tokens, (k - 1) as nat);
        let (lines, line) = splitting(tokens, (k - 1) as nat);
        let t = tokens[k - 1];
        let (lines2, line2) = split_step((lines, line), t);
        if t is NewLine {
            if line.len() > 0 {
                lemma_trimmed_clean(line);
            }
        } else if t is OpenCurlyBracket {
            assert forall|j: int| 0 <= j < line.push(t).len() implies !(
            #[trigger] line.push(t)[j] is NewLine) by {
                if j < line.len() {
                    assert(line.push(t)[j] == line[j]);
                }
            }
            lemma_trimmed_clean(line.push(t));
        } else if t is ClosedCurlyBracket {
            if line.len() > 0 {
                lemma_trimmed_clean(line);
            }
            assert(clean_line(seq![t]));
        } else {
            assert forall|j: int| 0 <= j < line2.len() implies !(#[trigger] line2[j] is NewLine) by {
                if j < line.len() {
                    assert(line2[j] == line[j]);
                }
            }
        }
        assert forall|i: int| 0 <= i < lines2.len() implies clean_line(#[trigger] lines2[i]) by {
            if i < lines.len() {
                assert(lines2[i] == lines[i]);
            }
        }
    }
}

/// The statement lines of a token stream hold no line break, and none
/// starts or ends with whitespace.
pub proof fn lemma_lines_clean(tokens: Seq<Token>)
    ensures
        forall|i: int| 0 <= i < split_lines(tokens).len() ==> clean_line(#[trigger] split_lines(tokens)[i]),
{
    lemma_splitting_clean(tokens, tokens.len());
    let (lines, line) = splitting(tokens, tokens.len());
    if line.len() > 0 {
        lemma_trimmed_clean(line);
        assert forall|i: int| 0 <= i < split_lines(tokens).len() implies clean_line(
            #[trigger] split_lines(tokens)[i],
        ) by {
            if i < lines.len() {
                assert(split_lines(tokens)[i] == lines[i]);
            }
        }
    }
}

impl TokenStream {
    /// Groups `tokens` into statement lines, positioned at the start.
    pub fn new(tokens: Vec<Token>, m_logger: ParserLogger) -> (r: TokenStream)
        ensures
            r@.lines == split_lines(tokens@),
            r@.stmt_index == 0,
            r@.index == 0,
            r.m_logger == m_logger,
            well_formed(r@),
    {
        let mut m_tokens: Vec<Vec<Token>> = Vec::new();
        let mut line: Vec<Token> = Vec::new();
        let mut k: usize = 0;
        while k < tokens.len()
            invariant
                k <= tokens.len(),
                (lines_view(m_tokens@), line@) == splitting(tokens@, k as nat),
            decreases tokens.len() - k,
        {
            let token = tokens[k].duplicate();
            let ghost before = lines_view(m_tokens@);
            if matches!(token, Token::NewLine { .. }) {
                if line.len() > 0 {
                    m_tokens.push(trim_whitespace(&line));
                }
                line = Vec::new();
            } else if matches!(token, Token::OpenCurlyBracket { .. }) {
                line.push(token);
                m_tokens.push(trim_whitespace(&line));
                line = Vec::new();
            } else if matches!(token, Token::ClosedCurlyBracket { .. }) {
                if line.len() > 0 {
                    m_tokens.push(trim_whitespace(&line));
                }
                let mut single: Vec<Token> = Vec::new();
                single.push(token);
                m_tokens.push(single);
                line = Vec::new();
            } else {
                line.push(token);
            }
            k = k + 1;
            proof {
                assert(lines_view(m_tokens@) =~= splitting(tokens@, k as nat).0);
                assert(line@ =~= splitting(tokens@, k as nat).1);
            }
        }
        if line.len() > 0 {
            m_tokens.push(trim_whitespace(&line));
        }
        proof {
            assert(lines_view(m_tokens@) =~= split_lines(tokens@));
        }
        TokenStream { m_tokens, m_logger, m_index: 0, m_stmt_index: 0 }
    }

    /// The token `step` places after the position on the current line.
    pub fn peek(&self, step: usize) -> (r: Option<Token>)
        requires
            self.m_index + step <= usize::MAX,
        ensures
            r == peek_token(self@, step as int),
            r is Some ==> self.m_index + step < usize::MAX,
    {
        if self.m_stmt_index < self.m_tokens.len() {
            let line = &self.m_tokens[self.m_stmt_index];
            if self.m_index + step < line.len() {
                return Some(line[self.m_index + step].duplicate());
            }
        }
        None
    }

    /// The token `step` places before the position on the current line.
    pub fn peek_back(&self, step: usize) -> (r: Option<Token>)
        requires
            self.m_stmt_index < self.m_tokens.len() ==> step <= self.m_index,
        ensures
            r == peek_token(self@, -(step as int)),
    {
        if self.m_stmt_index < self.m_tokens.len() {
            let line = &self.m_tokens[self.m_stmt_index];
            if self.m_index - step < line.len() {
                return Some(line[self.m_index - step].duplicate());
            }
        }
        None
    }

    /// The next `count` tokens of the current line, whitespace left out
    /// when `avoid_space`; `None` when the line has fewer. Without
    /// `avoid_space` the tokens are taken from the start of the line.
    pub fn peek_range(&self, count: usize, avoid_space: bool) -> (r: Option<Vec<Token>>)
        requires
            well_formed(self@),
        ensures
            avoid_space ==> match r {
                Some(v) => v@ == first_non_whitespace(
                    current_line(self@).skip(self.m_index as int),
                    count as nat,
                ) && v@.len() == count,
                None => first_non_whitespace(
                    current_line(self@).skip(self.m_index as int),
                    count as nat,
                ).len() != count,
            },
            !avoid_space ==> match r {
                Some(v) => self.m_stmt_index < self.m_tokens.len() && count <= current_line(
                    self@,
                ).len() && v@ == current_line(self@).take(count as int),
                None => !(self.m_stmt_index < self.m_tokens.len() && count <= current_line(
                    self@,
                ).len()),
            },
    {
        if avoid_space {
            let mut result: Vec<Token> = Vec::new();
            if self.m_stmt_index >= self.m_tokens.len() {
                if count == 0 {
                    return Some(result);
                }
                return None;
            }
            let line = &self.m_tokens[self.m_stmt_index];
            let ghost rest = current_line(self@).skip(self.m_index as int);
            let mut pos: usize = self.m_index;
            while pos < line.len() && result.len() < count
                invariant
                    self.m_stmt_index < self.m_tokens.len(),
                    *line == self.m_tokens@[self.m_stmt_index as int],
                    rest == line@.skip(self.m_index as int),
                    self.m_index <= pos <= line.len(),
                    result@.len() <= count,
                    result@ + first_non_whitespace(
                        line@.skip(pos as int),
                        (count - result@.len()) as nat,
                    ) == first_non_whitespace(rest, count as nat),
                decreases line.len() - pos,
            {
                let token = line[pos].duplicate();
                let ghost r0 = result@;
                let ghost tail = line@.skip(pos as int);
                assert(tail.drop_first() =~= line@.skip(pos + 1));
                if !matches!(token, Token::WhiteSpace { .. }) {
                    result.push(token);
                    assert(result@ =~= r0 + seq![tail[0]]);
                    assert(result@ + first_non_whitespace(
                        line@.skip(pos + 1),
                        (count - result@.len()) as nat,
                    ) =~= r0 + first_non_whitespace(tail, (count - r0.len()) as nat));
                }
                pos = pos + 1;
            }
            proof {
                let left = (count - result@.len()) as nat;
                if pos >= line.len() {
                    assert(line@.skip(pos as int).len() == 0);
                }
                assert(first_non_whitespace(line@.skip(pos as int), left) == Seq::<Token>::empty());
                assert(result@ =~= first_non_whitespace(rest, count as nat));
            }
            if result.len() == count {
                Some(result)
            } else {
                None
            }
        } else {
            if self.m_stmt_index >= self.m_tokens.len() {
                return None;
            }
            let line = &self.m_tokens[self.m_stmt_index];
            if count > line.len() {
                return None;
            }
            let mut result: Vec<Token> = Vec::new();
            let mut pos: usize = 0;
            while pos < count
                invariant
                    count <= line.len(),
                    pos <= count,
                    result@ == line@.take(pos as int),
                decreases count - pos,
            {
                result.push(line[pos].duplicate());
                pos = pos + 1;
                assert(result@ =~= line@.take(pos as int));
            }
            Some(result)
        }
    }

    /// Whether the position is at the end of the stream.
    pub fn is_end(&self) -> (r: bool)
        ensures
            r == at_end(self@),
    {
        self.m_tokens.len() == 0 || (self.m_stmt_index >= self.m_tokens.len() - 1 && self.m_index
            >= self.m_tokens[self.m_tokens.len() - 1].len())
    }

    /// Whether an `Error` token lies ahead on the current line.
    pub fn is_err_token_present(&self) -> (r: bool)
        requires
            well_formed(self@),
        ensures
            r == exists|j: int|
                self.m_index <= j < current_line(self@).len() && #[trigger] current_line(
                    self@,
                )[j] is Error,
    {
        if self.m_stmt_index >= self.m_tokens.len() {
            return false;
        }
        let line = &self.m_tokens[self.m_stmt_index];
        let mut pos: usize = self.m_index;
        while pos < line.len()
            invariant
                self.m_stmt_index < self.m_tokens.len(),
                *line == self.m_tokens@[self.m_stmt_index as int],
                self.m_index <= pos <= line.len(),
                forall|j: int| self.m_index <= j < pos ==> !(#[trigger] line@[j] is Error),
            decreases line.len() - pos,
        {
            if matches!(line[pos], Token::Error { .. }) {
                return true;
            }
            pos = pos + 1;
        }
        false
    }

    /// Moves `step` tokens ahead on the current line, not past its end.
    pub fn advance(&mut self, step: usize)
        requires
            well_formed(old(self)@),
            old(self)@.lines.len() > 0,
        ensures
            final(self)@ == (StreamState {
                index: if old(self).m_index + step < current_line(old(self)@).len() {
                    (old(self).m_index + step) as nat
                } else {
                    current_line(old(self)@).len()
                },
                ..old(self)@
            }),
            final(self)@ == advanced(old(self)@, step as nat),
            well_formed(final(self)@),
    {
        let line_len = self.m_tokens[self.m_stmt_index].len();
        if step < line_len - self.m_index {
            self.m_index = self.m_index + step;
        } else {
            self.m_index = line_len;
        }
    }

    /// Moves past the whitespace, then past `step` more tokens that are not
    /// whitespace, then, when `skip_tail`, past the whitespace after them.
    pub fn advance_skip_tokens(&mut self, step: usize, skip_tail: bool)
        requires
            well_formed(old(self)@),
            old(self)@.lines.len() > 0,
        ensures
            final(self)@ == (StreamState {
                index: ({
                    let line = current_line(old(self)@);
                    let i1 = skip_whitespace(line, old(self).m_index as int);
                    let i2 = pass_tokens(line, i1, step as nat);
                    if skip_tail {
                        skip_whitespace(line, i2)
                    } else {
                        i2
                    }
                }) as nat,
                ..old(self)@
            }),
            skip_tail ==> final(self)@ == skipped(old(self)@, step as nat),
            well_formed(final(self)@),
    {
        self.advance_skip_head();
        let line_len = self.m_tokens[self.m_stmt_index].len();
        let mut passed: usize = 0;
        let ghost line = current_line(old(self)@);
        let ghost start = self.m_index as int;
        while passed != step && self.m_index < line_len
            invariant
                well_formed(self@),
                self@.lines.len() > 0,
                line == current_line(self@),
                line_len == line.len(),
                passed <= step,
                self@ == (StreamState { index: self.m_index as nat, ..old(self)@ }),
                pass_tokens(line, self.m_index as int, (step - passed) as nat) == pass_tokens(
                    line,
                    start,
                    step as nat,
                ),
            decreases line_len - self.m_index,
        {
            if !matches!(self.m_tokens[self.m_stmt_index][self.m_index], Token::WhiteSpace { .. }) {
                passed = passed + 1;
            }
            self.m_index = self.m_index + 1;
        }
        proof {
            lemma_skip_whitespace_bounds(line, old(self).m_index as int);
            assert(self.m_index as int == pass_tokens(line, start, step as nat));
            lemma_skip_whitespace_bounds(line, self.m_index as int);
        }
        if skip_tail {
            self.advance_skip_head();
        }
    }

    /// Moves past the whitespace at the position.
    fn advance_skip_head(&mut self)
        requires
            well_formed(old(self)@),
            old(self)@.lines.len() > 0,
        ensures
            final(self)@ == (StreamState {
                index: skip_whitespace(current_line(old(self)@), old(self).m_index as int) as nat,
                ..old(self)@
            }),
            well_formed(final(self)@),
    {
        let line_len = self.m_tokens[self.m_stmt_index].len();
        let ghost line = current_line(old(self)@);
        while self.m_index < line_len && matches!(
            self.m_tokens[self.m_stmt_index][self.m_index],
            Token::WhiteSpace { .. }
        )
            invariant
                well_formed(self@),
                self@.lines.len() > 0,
                line == current_line(self@),
                line_len == line.len(),
                self@ == (StreamState { index: self.m_index as nat, ..old(self)@ }),
                skip_whitespace(line, self.m_index as int) == skip_whitespace(
                    line,
                    old(self).m_index as int,
                ),
            decreases line_len - self.m_index,
        {
            self.m_index = self.m_index + 1;
        }
    }

    /// Passes the rest of the current statement line, reporting each of its
    /// tokens as unexpected when `report`, and moves to the next line that
    /// has something left.
    pub fn advance_stmt(&mut self, report: bool)
        requires
            well_formed(old(self)@),
        ensures
            final(self)@ == after_statement(old(self)@, report),
            well_formed(final(self)@),
    {
        let ghost st0 = self@;
        if report && self.m_stmt_index < self.m_tokens.len() {
            let line_len = self.m_tokens[self.m_stmt_index].len();
            let ghost line = current_line(st0);
            while self.m_index < line_len
                invariant
                    well_formed(self@),
                    self.m_stmt_index < self.m_tokens.len(),
                    line == current_line(self@),
                    line_len == line.len(),
                    st0.index <= self.m_index,
                    self@ == (StreamState {
                        index: self.m_index as nat,
                        errors: st0.errors + unexpected_errors(line, st0.index as int).take(
                            self.m_index - st0.index,
                        ),
                        ..st0
                    }),
                decreases line_len - self.m_index,
            {
                let token = self.m_tokens[self.m_stmt_index][self.m_index].duplicate();
                proof {
                    lemma_unexpected_errors_len(line, st0.index as int);
                    lemma_unexpected_errors_take(line, st0.index as int, self.m_index as int);
                }
                self.m_logger.log_error(ParserErrorType::ErrUnexpectedToken, &token);
                self.m_index = self.m_index + 1;
                assert(self@.errors =~= st0.errors + unexpected_errors(line, st0.index as int).take(
                    self.m_index - st0.index,
                ));
            }
            proof {
                lemma_unexpected_errors_len(line, st0.index as int);
                assert(unexpected_errors(line, st0.index as int).take(self.m_index - st0.index)
                    =~= unexpected_errors(line, st0.index as int));
            }
        }
        let ghost mid = self@;
        proof {
            assert(after_statement(st0, report) == next_statement(mid));
        }
        while self.peek_is_none() && !self.is_end()
            invariant
                well_formed(self@),
                next_statement(self@) == next_statement(mid),
            decreases self.m_tokens.len() - self.m_stmt_index,
        {
            self.m_index = 0;
            self.m_stmt_index = self.m_stmt_index + 1;
        }
    }

    /// Logs an error of type `error` at the position of `token`.
    pub fn log_error(&mut self, error: ParserErrorType, token: &Token)
        ensures
            final(self)@ == with_error(old(self)@, error, token@.span()),
    {
        self.m_logger.log_error(error, token);
    }

    fn peek_is_none(&self) -> (r: bool)
        ensures
            r == (peek_token(self@, 0) is None),
    {
        !(self.m_stmt_index < self.m_tokens.len() && self.m_index
            < self.m_tokens[self.m_stmt_index].len())
    }
}

pub proof fn lemma_unexpected_errors_take(line: Seq<Token>, from: int, at: int)
    requires
        0 <= from <= at < line.len(),
    ensures
        unexpected_errors(line, from).take(at - from + 1) == unexpected_errors(line, from).take(
            at - from,
        ).push((ParserErrorType::ErrUnexpectedToken, line[at]@.span())),
    decreases at - from,
{
    lemma_unexpected_errors_len(line, from);
    if from < at {
        lemma_unexpected_errors_take(line, from + 1, at);
        assert(unexpected_errors(line, from).take(at - from + 1) =~= seq![
            (ParserErrorType::ErrUnexpectedToken, line[from]@.span()),
        ] + unexpected_errors(line, from + 1).take(at - from));
        assert(unexpected_errors(line, from).take(at - from) =~= seq![
            (ParserErrorType::ErrUnexpectedToken, line[from]@.span()),
        ] + unexpected_errors(line, from + 1).take(at - from - 1));
    } else {
        assert(unexpected_errors(line, from).take(1) =~= seq![
            (ParserErrorType::ErrUnexpectedToken, line[from]@.span()),
        ]);
    }
}

/// `line` without whitespace at either end.
fn trim_whitespace(line: &Vec<Token>) -> (r: Vec<Token>)
    ensures
        r@ == trimmed(line@),
{
    let mut start: usize = 0;
    assert(line@.skip(0) =~= line@);
    while start < line.len() && matches!(line[start], Token::WhiteSpace { .. })
        invariant
            start <= line.len(),
            trim_front(line@) == trim_front(line@.skip(start as int)),
        decreases line.len() - start,
    {
        assert(line@.skip(start as int).drop_first() =~= line@.skip(start + 1));
        start = start + 1;
    }
    let ghost front = line@.skip(start as int);
    assert(trim_front(line@) == front);
    let mut end: usize = line.len();
    while end > start && matches!(line[end - 1], Token::WhiteSpace { .. })
        invariant
            start <= end <= line.len(),
            front == line@.skip(start as int),
            trim_back(front) == trim_back(line@.subrange(start as int, end as int)),
        decreases end,
    {
        assert(line@.subrange(start as int, end as int).drop_last() =~= line@.subrange(
            start as int,
            end - 1,
        ));
        end = end - 1;
    }
    let mut r: Vec<Token> = Vec::new();
    let mut k: usize = start;
    while k < end
        invariant
            start <= k <= end <= line.len(),
            r@ == line@.subrange(start as int, k as int),
        decreases end - k,
    {
        r.push(line[k].duplicate());
        k = k + 1;
        assert(r@ =~= line@.subrange(start as int, k as int));
    }
    assert(line@.subrange(start as int, line.len() as int) =~= front);
    r
}

} // verus!
