use vstd::prelude::*;
use super::operator::Operator;
use super::parenthesis_handler::ParenthesisHandler;
use super::token::{Token, TokenView, tokens_view};
use crate::compiler::span::Span;
use crate::utility::text::{
    chars_equal_str, chars_to_string, is_letter, is_letter_or_digit, is_digit, remove_char,
    str_to_chars, ascii_letter, ascii_alphanumeric, ascii_digit, utf8_length,
    utf8_length_of, without_char, lemma_utf8_length_bounds,
};

verus! {

/// Splits the text of a BRS program into tokens.
///
/// Columns (`m_row`) and lines (`m_line`) count from zero. Runs of spaces
/// become one `WhiteSpace` token; a character sequence that is no token
/// becomes an `Error` token.
pub struct Tokenizer {
    pub m_tokens: Vec<Token>,
    pub m_line: usize,
    pub m_row: usize,
    pub m_parenthesis_handler: ParenthesisHandler,
}

/// The state of a tokenizer: the tokens found so far, the current position,
/// and the state of its bracket handler.
pub struct TokenizerState {
    pub tokens: Seq<TokenView>,
    pub line: usize,
    pub row: usize,
    pub handler: ParenthesisHandler,
}

impl View for Tokenizer {
    type V = TokenizerState;

    open spec fn view(&self) -> TokenizerState {
        TokenizerState {
            tokens: tokens_view(self.m_tokens@),
            line: self.m_line,
            row: self.m_row,
            handler: self.m_parenthesis_handler,
        }
    }
}

/// The view of an optional token.
pub open spec fn option_view(o: Option<Token>) -> Option<TokenView> {
    match o {
        Some(t) => Some(t@),
        None => None,
    }
}

/// The state after a token has been added: the column moves past it, and
/// a new line starts after a `NewLine` token.
pub open spec fn emitted(s: TokenizerState, t: TokenView) -> TokenizerState {
    if t is NewLine {
        TokenizerState { tokens: s.tokens.push(t), line: (s.line + 1) as usize, row: 0, ..s }
    } else {
        TokenizerState { tokens: s.tokens.push(t), row: (s.row + 1) as usize, ..s }
    }
}

/// The span of a token of `length` columns that starts at the current column.
pub open spec fn span_at(s: TokenizerState, length: nat) -> Span {
    Span { m_line: s.line, m_start: s.row, m_end: (s.row + length - 1) as usize }
}

/// The state after the span of a token of `length` columns has been taken:
/// the column moves to the token's last column.
pub open spec fn spanned(s: TokenizerState, length: nat) -> TokenizerState {
    TokenizerState { row: (s.row + length - 1) as usize, ..s }
}

/// The token that one character stands for on its own, if any, with the
/// state after it; `peek` is the character that follows.
pub open spec fn single_char_token(s: TokenizerState, ch: char, peek: Option<char>) -> (
    TokenizerState,
    Option<TokenView>,
) {
    let span = Span { m_line: s.line, m_start: s.row, m_end: s.row };
    if ch == '\r' {
        (s, None)
    } else if ch == '(' || ch == ')' {
        (
            TokenizerState { handler: s.handler.after_bracket(ch == '('), ..s },
            Some(s.handler.bracket_token(span, ch == '(')),
        )
    } else if ch == '{' {
        (s, Some(TokenView::OpenCurlyBracket { span }))
    } else if ch == '}' {
        (s, Some(TokenView::ClosedCurlyBracket { span }))
    } else if ch == '=' {
        (s, Some(TokenView::Equals { span }))
    } else if ch == '+' {
        (s, Some(TokenView::Operator(Operator::Plus { span })))
    } else if ch == '-' {
        (s, Some(TokenView::Operator(Operator::Minus { span })))
    } else if ch == '%' {
        (s, Some(TokenView::Operator(Operator::Modulus { span })))
    } else if ch == '*' {
        if peek == Some('*') {
            (s, None)
        } else {
            (s, Some(TokenView::Operator(Operator::Multiplication { span })))
        }
    } else if ch == ' ' {
        if peek != Some(' ') {
            (s, Some(TokenView::WhiteSpace { span }))
        } else {
            (s, None)
        }
    } else if ch == '\n' {
        (
            TokenizerState {
                handler: ParenthesisHandler { m_function_call: false, m_bracket_depth: 0 },
                ..s
            },
            Some(TokenView::NewLine { span }),
        )
    } else {
        (s, None)
    }
}

/// The character after the buffer, a space at the end of the input.
pub open spec fn next_or_space(peek: Option<char>) -> char {
    match peek {
        Some(c) => c,
        None => ' ',
    }
}

pub open spec fn all_numeric(s: Seq<char>) -> bool {
    forall|i: int| 0 <= i < s.len() ==> ascii_digit(#[trigger] s[i])
}

pub open spec fn all_alphanumeric(s: Seq<char>) -> bool {
    forall|i: int| 0 <= i < s.len() ==> ascii_alphanumeric(#[trigger] s[i])
}

/// A number: numeric characters not followed by a letter or digit.
pub open spec fn is_number_text(buf: Seq<char>, peek: Option<char>) -> bool {
    all_numeric(buf) && !ascii_alphanumeric(next_or_space(peek))
}

/// An identifier: a letter, then letters or digits, not followed by a letter
/// or digit.
pub open spec fn is_identifier_text(buf: Seq<char>, peek: Option<char>) -> bool {
    buf.len() > 0 && ascii_letter(buf[0]) && all_alphanumeric(buf)
        && !ascii_alphanumeric(next_or_space(peek))
}

/// A malformed word: a digit, then letters or digits, not followed by a
/// letter or digit.
pub open spec fn is_malformed_text(buf: Seq<char>, peek: Option<char>) -> bool {
    buf.len() > 0 && ascii_digit(buf[0]) && all_alphanumeric(buf)
        && !ascii_alphanumeric(next_or_space(peek))
}

/// The number, identifier or malformed word that the buffer holds, if any.
pub open spec fn primary_token(s: TokenizerState, buf: Seq<char>, peek: Option<char>) -> (
    TokenizerState,
    Option<TokenView>,
) {
    let len = utf8_length(buf);
    if is_number_text(buf, peek) {
        (spanned(s, len), Some(TokenView::Number { value: buf, span: span_at(s, len) }))
    } else if is_identifier_text(buf, peek) {
        (spanned(s, len), Some(TokenView::ID { name: buf, span: span_at(s, len) }))
    } else if is_malformed_text(buf, peek) {
        (spanned(s, len), Some(TokenView::Error { span: span_at(s, len) }))
    } else {
        (s, None)
    }
}

/// The token that the buffered characters form, if any. Keywords and
/// two-character operators are recognised with spaces ignored; a keyword
/// only where the word ends, so that an identifier such as `exits` stays
/// whole. Spans count the bytes of the buffer.
pub open spec fn buffer_token(s: TokenizerState, buf: Seq<char>, peek: Option<char>) -> (
    TokenizerState,
    Option<TokenView>,
) {
    let key = without_char(buf, ' ');
    let len = utf8_length(buf);
    let word_ends = !ascii_alphanumeric(next_or_space(peek));
    let call = TokenizerState {
        handler: ParenthesisHandler { m_function_call: true, m_bracket_depth: 0 },
        ..s
    };
    if key == "exit"@ && word_ends {
        (spanned(call, len), Some(TokenView::Exit { span: span_at(s, len) }))
    } else if key == "print"@ && word_ends {
        (spanned(call, len), Some(TokenView::Print { span: span_at(s, len) }))
    } else if key == "**"@ {
        (spanned(s, len), Some(TokenView::Operator(Operator::Exponent { span: span_at(s, len) })))
    } else if key == "//"@ {
        (spanned(s, len), Some(TokenView::Operator(Operator::Division { span: span_at(s, len) })))
    } else if key == "&&"@ {
        (spanned(s, len), Some(TokenView::Operator(Operator::And { span: span_at(s, len) })))
    } else if key == "||"@ {
        (spanned(s, len), Some(TokenView::Operator(Operator::Or { span: span_at(s, len) })))
    } else if key == "!!"@ {
        (spanned(s, len), Some(TokenView::Operator(Operator::Not { span: span_at(s, len) })))
    } else if key == "^|"@ {
        (spanned(s, len), Some(TokenView::Operator(Operator::Xor { span: span_at(s, len) })))
    } else if key == "true"@ && word_ends {
        (spanned(s, len), Some(TokenView::Boolean { value: true, span: span_at(s, len) }))
    } else if key == "false"@ && word_ends {
        (spanned(s, len), Some(TokenView::Boolean { value: false, span: span_at(s, len) }))
    } else if key.len() == 0 {
        if peek == Some(' ') {
            (s, None)
        } else {
            (spanned(s, len), Some(TokenView::WhiteSpace { span: span_at(s, len) }))
        }
    } else {
        primary_token(s, buf, peek)
    }
}

/// The state and buffer after one more character `ch`, followed by `peek`.
///
/// The character joins the buffer; if the buffer then forms a token, the
/// token is emitted. A line break that ends an unrecognised buffer emits an
/// `Error` token for the buffer, then the line break. Otherwise the character
/// may stand for a token on its own, which discards the buffer.
pub open spec fn step(s: TokenizerState, buf: Seq<char>, ch: char, peek: Option<char>) -> (
    TokenizerState,
    Seq<char>,
) {
    let b = buf.push(ch);
    let (s1, t1) = buffer_token(s, b, peek);
    if t1 is Some {
        (emitted(s1, t1->0), Seq::empty())
    } else if b.len() > 1 && ch == '\n' {
        let error_span = span_at(s1, (b.len() - 1) as nat);
        let s2 = spanned(s1, (b.len() - 1) as nat);
        let s3 = TokenizerState { row: (s2.row + 1) as usize, ..s2 };
        let newline_span = span_at(s3, 1);
        (
            emitted(
                emitted(s3, TokenView::Error { span: error_span }),
                TokenView::NewLine { span: newline_span },
            ),
            Seq::empty(),
        )
    } else {
        let (s2, t2) = single_char_token(s1, ch, peek);
        if t2 is Some {
            (emitted(s2, t2->0), Seq::empty())
        } else {
            (s2, b)
        }
    }
}

/// The character after position `i`, if any.
pub open spec fn peek_at(input: Seq<char>, i: int) -> Option<char> {
    if i + 1 < input.len() {
        Some(input[i + 1])
    } else {
        None
    }
}

/// The state and buffer after the first `k` characters of `input`, starting
/// with no tokens at line and column zero and the given bracket handler.
pub open spec fn scanned(handler: ParenthesisHandler, input: Seq<char>, k: nat) -> (
    TokenizerState,
    Seq<char>,
)
    decreases k,
{
    if k == 0 {
        (TokenizerState { tokens: Seq::empty(), line: 0, row: 0, handler }, Seq::empty())
    } else {
        let (s, b) = scanned(handler, input, (k - 1) as nat);
        step(s, b, input[k - 1], peek_at(input, k - 1))
    }
}

/// The final state: characters left in the buffer become an `Error` token.
pub open spec fn finished(s: TokenizerState, buf: Seq<char>) -> TokenizerState {
    if buf.len() > 0 {
        emitted(spanned(s, buf.len()), TokenView::Error { span: span_at(s, buf.len()) })
    } else {
        s
    }
}

/// The state of a tokenizer whose bracket handler was `handler` after it has
/// split `input` into tokens. Carriage returns are dropped first.
pub open spec fn tokenized(handler: ParenthesisHandler, input: Seq<char>) -> TokenizerState {
    let text = without_char(input, '\r');
    let (s, b) = scanned(handler, text, text.len());
    finished(s, b)
}

/// The tokens of `input`, for a tokenizer whose bracket handler was `handler`.
pub open spec fn spec_tokenize(handler: ParenthesisHandler, input: Seq<char>) -> Seq<TokenView> {
    tokenized(handler, input).tokens
}

pub proof fn lemma_without_char_len(s: Seq<char>, c: char)
    ensures
        without_char(s, c).len() <= s.len(),
    decreases s.len(),
{
    if s.len() > 0 {
        lemma_without_char_len(s.drop_last(), c);
    }
}

/// The lexical rules of the language: an identifier is a letter followed
/// by letters and digits, a number is one or more digits.
pub open spec fn well_lexed(t: TokenView) -> bool {
    match t {
        TokenView::ID { name, .. } => name.len() > 0 && ascii_letter(name[0])
            && all_alphanumeric(name),
        TokenView::Number { value, .. } => value.len() > 0 && all_numeric(value),
        _ => true,
    }
}

pub open spec fn all_well_lexed(tokens: Seq<TokenView>) -> bool {
    forall|i: int| 0 <= i < tokens.len() ==> well_lexed(#[trigger] tokens[i])
}

proof fn lemma_emitted_well_lexed(s: TokenizerState, t: TokenView)
    requires
        all_well_lexed(s.tokens),
        well_lexed(t),
    ensures
        all_well_lexed(emitted(s, t).tokens),
{
    assert forall|i: int| 0 <= i < emitted(s, t).tokens.len() implies well_lexed(
        #[trigger] emitted(s, t).tokens[i],
    ) by {
        if i < s.tokens.len() {
            assert(emitted(s, t).tokens[i] == s.tokens[i]);
        }
    }
}

proof fn lemma_step_well_lexed(s: TokenizerState, buf: Seq<char>, ch: char, peek: Option<char>)
    requires
        all_well_lexed(s.tokens),
    ensures
        all_well_lexed(step(s, buf, ch, peek).0.tokens),
{
    let b = buf.push(ch);
    let (s1, t1) = buffer_token(s, b, peek);
    assert(s1.tokens == s.tokens);
    if t1 is Some {
        lemma_emitted_well_lexed(s1, t1->0);
    } else if b.len() > 1 && ch == '\n' {
        let error_span = span_at(s1, (b.len() - 1) as nat);
        let s2 = spanned(s1, (b.len() - 1) as nat);
        let s3 = TokenizerState { row: (s2.row + 1) as usize, ..s2 };
        lemma_emitted_well_lexed(s3, TokenView::Error { span: error_span });
        lemma_emitted_well_lexed(
            emitted(s3, TokenView::Error { span: error_span }),
            TokenView::NewLine { span: span_at(s3, 1) },
        );
    } else {
        let (s2, t2) = single_char_token(s1, ch, peek);
        if t2 is Some {
            lemma_emitted_well_lexed(s2, t2->0);
        }
    }
}

proof fn lemma_scanned_well_lexed(handler: ParenthesisHandler, input: Seq<char>, k: nat)
    ensures
        all_well_lexed(scanned(handler, input, k).0.tokens),
    decreases k,
{
    if k > 0 {
        lemma_scanned_well_lexed(handler, input, (k - 1) as nat);
        let (s, b) = scanned(handler, input, (k - 1) as nat);
        lemma_step_well_lexed(s, b, input[k - 1], peek_at(input, k - 1));
    }
}

/// Every token the tokenizer produces obeys the lexical rules: each
/// identifier is a letter followed by letters and digits, each number is a
/// run of digits.
pub proof fn lemma_tokens_well_lexed(handler: ParenthesisHandler, input: Seq<char>)
    ensures
        all_well_lexed(spec_tokenize(handler, input)),
{
    let text = without_char(input, '\r');
    lemma_scanned_well_lexed(handler, text, text.len());
    let (s, b) = scanned(handler, text, text.len());
    if b.len() > 0 {
        lemma_emitted_well_lexed(spanned(s, b.len()), TokenView::Error { span: span_at(s, b.len()) });
    }
}

/// A word of identifier form: an ASCII letter, then ASCII letters and
/// digits.
pub open spec fn identifier_word(w: Seq<char>) -> bool {
    w.len() > 0 && ascii_letter(w[0]) && all_alphanumeric(w)
}

/// The words that the tokenizer takes as keywords.
pub open spec fn is_keyword(w: Seq<char>) -> bool {
    w == "exit"@ || w == "print"@ || w == "true"@ || w == "false"@
}

proof fn lemma_without_absent_char(s: Seq<char>, c: char)
    requires
        forall|i: int| 0 <= i < s.len() ==> s[i] != c,
    ensures
        without_char(s, c) == s,
    decreases s.len(),
{
    if s.len() > 0 {
        lemma_without_absent_char(s.drop_last(), c);
        assert(s.drop_last().push(s.last()) =~= s);
    }
}

proof fn lemma_ascii_utf8_length(s: Seq<char>)
    requires
        all_alphanumeric(s),
    ensures
        utf8_length(s) == s.len(),
    decreases s.len(),
{
    if s.len() > 0 {
        assert(all_alphanumeric(s.drop_last()));
        lemma_ascii_utf8_length(s.drop_last());
        let c = s.last();
        assert(ascii_alphanumeric(c));
        assert((c as u32) < 0x80);
    }
}

/// A non-empty part of an identifier word holds no blank, is no operator
/// text and is no number.
proof fn lemma_word_buffer(b: Seq<char>)
    requires
        identifier_word(b),
    ensures
        without_char(b, ' ') == b,
        b != "**"@ && b != "//"@ && b != "&&"@ && b != "||"@ && b != "!!"@ && b != "^|"@,
        !all_numeric(b),
{
    assert forall|i: int| 0 <= i < b.len() implies b[i] != ' ' by {
        assert(ascii_alphanumeric(b[i]));
    }
    lemma_without_absent_char(b, ' ');
    reveal_strlit("**");
    reveal_strlit("//");
    reveal_strlit("&&");
    reveal_strlit("||");
    reveal_strlit("!!");
    reveal_strlit("^|");
    assert(!ascii_digit(b[0]));
}

proof fn lemma_scan_word(handler: ParenthesisHandler, w: Seq<char>, k: nat)
    requires
        identifier_word(w),
        k < w.len(),
    ensures
        scanned(handler, w, k) == (
            TokenizerState { tokens: Seq::empty(), line: 0, row: 0, handler },
            w.take(k as int),
        ),
    decreases k,
{
    if k == 0 {
        assert(w.take(0) =~= Seq::<char>::empty());
    } else {
        lemma_scan_word(handler, w, (k - 1) as nat);
        let s0 = TokenizerState { tokens: Seq::empty(), line: 0, row: 0, handler };
        let b = w.take(k - 1).push(w[k - 1]);
        assert(b =~= w.take(k as int));
        assert(identifier_word(b));
        lemma_word_buffer(b);
        assert(peek_at(w, k - 1) == Some(w[k as int]));
        assert(ascii_alphanumeric(w[k as int]));
        assert(ascii_alphanumeric(w[k - 1]));
        assert(buffer_token(s0, b, Some(w[k as int])).1 is None);
    }
}

/// A word of identifier form that is no keyword is one identifier token
/// spanning the word on line zero.
pub proof fn lemma_identifier_word_tokens(handler: ParenthesisHandler, w: Seq<char>)
    requires
        identifier_word(w),
        !is_keyword(w),
        w.len() <= usize::MAX,
    ensures
        spec_tokenize(handler, w) == seq![
            TokenView::ID {
                name: w,
                span: Span { m_line: 0, m_start: 0, m_end: (w.len() - 1) as usize },
            },
        ],
{
    let n = w.len();
    assert forall|i: int| 0 <= i < n implies w[i] != '\r' by {
        assert(ascii_alphanumeric(w[i]));
    }
    lemma_without_absent_char(w, '\r');
    lemma_scan_word(handler, w, (n - 1) as nat);
    lemma_word_buffer(w);
    lemma_ascii_utf8_length(w);
    let s0 = TokenizerState { tokens: Seq::empty(), line: 0, row: 0, handler };
    assert(w.take(n - 1).push(w[n - 1]) =~= w);
    assert(peek_at(w, n - 1) == None::<char>);
    assert(is_identifier_text(w, None));
    let (s1, t1) = buffer_token(s0, w, None);
    assert(t1 == Some(
        TokenView::ID { name: w, span: Span { m_line: 0, m_start: 0, m_end: (n - 1) as usize } },
    ));
    assert(emitted(s1, t1->0).tokens =~= seq![t1->0]);
}

/// The number of `NewLine` tokens in `tokens`.
pub open spec fn count_newlines(tokens: Seq<TokenView>) -> nat
    decreases tokens.len(),
{
    if tokens.len() == 0 {
        0
    } else {
        count_newlines(tokens.drop_last()) + if tokens.last() is NewLine {
            1nat
        } else {
            0nat
        }
    }
}

/// The number of times `c` occurs in `s`.
pub open spec fn count_char(s: Seq<char>, c: char) -> nat
    decreases s.len(),
{
    if s.len() == 0 {
        0
    } else {
        count_char(s.drop_last(), c) + if s.last() == c {
            1nat
        } else {
            0nat
        }
    }
}

/// Each token's span runs forward on one line, and that line is the number
/// of line breaks before the token.
pub open spec fn spans_on_lines(tokens: Seq<TokenView>) -> bool {
    forall|i: int|
        0 <= i < tokens.len() ==> {
            &&& (#[trigger] tokens[i]).span().m_start <= tokens[i].span().m_end
            &&& tokens[i].span().m_line == count_newlines(tokens.take(i))
        }
}

/// The current line counts the line breaks among the tokens so far, and
/// their spans lie on the lines so counted.
pub open spec fn lines_tracked(s: TokenizerState) -> bool {
    s.line == count_newlines(s.tokens) && spans_on_lines(s.tokens)
}

proof fn lemma_emit_lines(s: TokenizerState, t: TokenView)
    requires
        lines_tracked(s),
        t.span().m_line == s.line,
        t.span().m_start <= t.span().m_end,
        s.line < usize::MAX,
    ensures
        lines_tracked(emitted(s, t)),
        count_newlines(emitted(s, t).tokens) == count_newlines(s.tokens) + if t is NewLine {
            1nat
        } else {
            0nat
        },
{
    let e = emitted(s, t);
    assert(e.tokens.drop_last() =~= s.tokens);
    assert forall|i: int| 0 <= i < e.tokens.len() implies {
        &&& (#[trigger] e.tokens[i]).span().m_start <= e.tokens[i].span().m_end
        &&& e.tokens[i].span().m_line == count_newlines(e.tokens.take(i))
    } by {
        if i < s.tokens.len() {
            assert(e.tokens.take(i) =~= s.tokens.take(i));
            assert(e.tokens[i] == s.tokens[i]);
        } else {
            assert(e.tokens.take(i) =~= s.tokens);
        }
    }
}

proof fn lemma_without_char_count(s: Seq<char>, c: char, d: char)
    requires
        c != d,
    ensures
        count_char(without_char(s, c), d) == count_char(s, d),
    decreases s.len(),
{
    if s.len() > 0 {
        lemma_without_char_count(s.drop_last(), c, d);
        if s.last() != c {
            let w = without_char(s.drop_last(), c);
            assert(w.push(s.last()).drop_last() =~= w);
        }
    }
}

proof fn lemma_buffer_token_shape(s: TokenizerState, b: Seq<char>, peek: Option<char>)
    requires
        b.len() > 0,
    ensures
        ({
            let (s1, t1) = buffer_token(s, b, peek);
            &&& t1 is Some ==> {
                &&& s1.tokens == s.tokens
                &&& s1.line == s.line
                &&& s1.row == spanned(s, utf8_length(b)).row
                &&& (t1->0).span() == span_at(s, utf8_length(b))
                &&& !((t1->0) is NewLine)
            }
            &&& t1 is None ==> s1 == s
            &&& b.last() == '\n' ==> t1 is None
        }),
{
    if b.last() == '\n' {
        let key = without_char(b, ' ');
        assert(key == without_char(b.drop_last(), ' ').push('\n'));
        assert(key.last() == '\n');
        reveal_strlit("exit");
        reveal_strlit("print");
        reveal_strlit("**");
        reveal_strlit("//");
        reveal_strlit("&&");
        reveal_strlit("||");
        reveal_strlit("!!");
        reveal_strlit("^|");
        reveal_strlit("true");
        reveal_strlit("false");
        assert(!all_numeric(b) && !all_alphanumeric(b)) by {
            assert(!ascii_alphanumeric(b[b.len() - 1]));
        }
    }
}

proof fn lemma_single_char_shape(s: TokenizerState, ch: char, peek: Option<char>)
    ensures
        ({
            let (s2, t2) = single_char_token(s, ch, peek);
            &&& s2.tokens == s.tokens
            &&& s2.line == s.line
            &&& s2.row == s.row
            &&& t2 is Some ==> (t2->0).span() == (Span {
                m_line: s.line,
                m_start: s.row,
                m_end: s.row,
            }) && ((t2->0) is NewLine <==> ch == '\n')
            &&& ch == '\n' ==> t2 is Some
        }),
{
}

proof fn lemma_step_lines(s: TokenizerState, buf: Seq<char>, ch: char, peek: Option<char>, k: nat)
    requires
        lines_tracked(s),
        s.line <= k,
        s.row + 4 * buf.len() <= 4 * k,
        4 * k + 8 <= usize::MAX,
    ensures
        ({
            let (s2, b2) = step(s, buf, ch, peek);
            &&& lines_tracked(s2)
            &&& s2.line <= k + 1
            &&& s2.row + 4 * b2.len() <= 4 * (k + 1)
            &&& count_newlines(s2.tokens) == count_newlines(s.tokens) + if ch == '\n' {
                1nat
            } else {
                0nat
            }
        }),
{
    let b = buf.push(ch);
    lemma_utf8_length_bounds(b);
    lemma_buffer_token_shape(s, b, peek);
    assert(b.last() == ch);
    let (s1, t1) = buffer_token(s, b, peek);
    if t1 is Some {
        lemma_emit_lines(s1, t1->0);
    } else if b.len() > 1 && ch == '\n' {
        let error_span = span_at(s1, (b.len() - 1) as nat);
        let s2 = spanned(s1, (b.len() - 1) as nat);
        let s3 = TokenizerState { row: (s2.row + 1) as usize, ..s2 };
        let newline_span = span_at(s3, 1);
        lemma_emit_lines(s3, TokenView::Error { span: error_span });
        let s4 = emitted(s3, TokenView::Error { span: error_span });
        lemma_emit_lines(s4, TokenView::NewLine { span: newline_span });
    } else {
        lemma_single_char_shape(s1, ch, peek);
        let (s2, t2) = single_char_token(s1, ch, peek);
        if t2 is Some {
            lemma_emit_lines(s2, t2->0);
        }
    }
}

proof fn lemma_scanned_lines(handler: ParenthesisHandler, text: Seq<char>, k: nat)
    requires
        k <= text.len(),
        4 * text.len() + 4 <= usize::MAX,
    ensures
        ({
            let (s, b) = scanned(handler, text, k);
            &&& lines_tracked(s)
            &&& s.line <= k
            &&& s.row + 4 * b.len() <= 4 * k
            &&& count_newlines(s.tokens) == count_char(text.take(k as int), '\n')
        }),
    decreases k,
{
    if k == 0 {
        assert(text.take(0) =~= Seq::<char>::empty());
    } else {
        lemma_scanned_lines(handler, text, (k - 1) as nat);
        let (s, b) = scanned(handler, text, (k - 1) as nat);
        lemma_step_lines(s, b, text[k - 1], peek_at(text, k - 1), (k - 1) as nat);
        assert(text.take(k as int).drop_last() =~= text.take(k - 1));
    }
}

/// Tokenizing finds one `NewLine` token for each line break of the input,
/// and every token's span runs forward on the line that the `NewLine`
/// tokens before it reach.
pub proof fn lemma_tokens_on_lines(handler: ParenthesisHandler, input: Seq<char>)
    requires
        4 * input.len() + 4 <= usize::MAX,
    ensures
        count_newlines(spec_tokenize(handler, input)) == count_char(input, '\n'),
        spans_on_lines(spec_tokenize(handler, input)),
{
    let text = without_char(input, '\r');
    lemma_without_char_len(input, '\r');
    lemma_without_char_count(input, '\r', '\n');
    lemma_scanned_lines(handler, text, text.len());
    assert(text.take(text.len() as int) =~= text);
    let (s, b) = scanned(handler, text, text.len());
    if b.len() > 0 {
        lemma_emit_lines(spanned(s, b.len()), TokenView::Error { span: span_at(s, b.len()) });
    }
}

impl Tokenizer {
    pub fn new() -> (r: Self)
        ensures
            r@.tokens == Seq::<TokenView>::empty(),
            r.m_line == 0,
            r.m_row == 0,
            r.m_parenthesis_handler == (ParenthesisHandler {
                m_function_call: false,
                m_bracket_depth: 0,
            }),
    {
        Tokenizer {
            m_tokens: Vec::new(),
            m_line: 0,
            m_row: 0,
            m_parenthesis_handler: ParenthesisHandler::new(),
        }
    }

    /// A copy of the tokens found by the last call of `tokenize`.
    pub fn get_tokens(&self) -> (r: Vec<Token>)
        ensures
            r@ == self.m_tokens@,
    {
        super::token::duplicate_tokens(&self.m_tokens)
    }

    fn emit_token(&mut self, token: Token)
        requires
            old(self).m_row < usize::MAX,
            old(self).m_line < usize::MAX,
        ensures
            final(self)@ == emitted(old(self)@, token@),
    {
        self.m_row += 1;
        if matches!(token, Token::NewLine { .. }) {
            self.handle_newline();
        }
        self.m_tokens.push(token);
        assert(tokens_view(self.m_tokens@) =~= old(self)@.tokens.push(token@));
    }

    /// Forgets the tokens and moves back to line and column zero.
    pub fn clear(&mut self)
        ensures
            final(self)@ == (TokenizerState {
                tokens: Seq::empty(),
                line: 0,
                row: 0,
                handler: old(self).m_parenthesis_handler,
            }),
    {
        self.m_tokens = Vec::new();
        self.m_line = 0;
        self.m_row = 0;
        assert(tokens_view(self.m_tokens@) =~= Seq::<TokenView>::empty());
    }

    /// Splits `input` into tokens, replacing those of an earlier call.
    pub fn tokenize(&mut self, input: &str)
        requires
            4 * input@.len() + 4 <= usize::MAX,
            old(self).m_parenthesis_handler.m_bracket_depth + input@.len() < usize::MAX,
        ensures
            final(self)@ == tokenized(old(self).m_parenthesis_handler, input@),
    {
        let ghost handler = self.m_parenthesis_handler;
        self.clear();
        let text = remove_char(&str_to_chars(input), '\r');
        proof {
            lemma_without_char_len(input@, '\r');
        }
        let n = text.len();
        let mut buf: Vec<char> = Vec::new();
        let mut i: usize = 0;
        while i < n
            invariant
                n == text@.len(),
                4 * n + 4 <= usize::MAX,
                i <= n,
                (self@, buf@) == scanned(handler, text@, i as nat),
                self.m_row + 4 * buf@.len() <= 4 * i,
                self.m_line <= i,
                self.m_parenthesis_handler.m_bracket_depth <= handler.m_bracket_depth + i,
                handler.m_bracket_depth + n < usize::MAX,
            decreases n - i,
        {
            let ch = text[i];
            let peek = if i + 1 < n {
                Some(text[i + 1])
            } else {
                None
            };
            proof {
                assert(peek == peek_at(text@, i as int));
            }
            self.scan_char(&mut buf, ch, peek);
            i = i + 1;
        }
        if buf.len() > 0 {
            let error_span = self.get_span(buf.len());
            self.emit_token(Token::Error { span: error_span });
        }
    }

    /// Takes in one character `ch`, followed by `peek`, with `buf` holding
    /// the characters not yet part of a token.
    fn scan_char(&mut self, buf: &mut Vec<char>, ch: char, peek: Option<char>)
        requires
            old(self).m_row + 4 * old(buf)@.len() + 4 <= usize::MAX,
            old(self).m_line < usize::MAX,
            old(self).m_parenthesis_handler.m_bracket_depth < usize::MAX,
        ensures
            (final(self)@, final(buf)@) == step(old(self)@, old(buf)@, ch, peek),
            final(self).m_row + 4 * final(buf)@.len() <= old(self).m_row + 4 * old(buf)@.len() + 4,
            final(self).m_line <= old(self).m_line + 1,
            final(self).m_parenthesis_handler.m_bracket_depth
                <= old(self).m_parenthesis_handler.m_bracket_depth + 1,
    {
        buf.push(ch);
        let found = self.check_buf(buf, peek);
        if let Some(token) = found {
            self.emit_token(token);
            *buf = Vec::new();
            assert(buf@ =~= Seq::<char>::empty());
        } else if buf.len() > 1 && ch == '\n' {
            let error_span = self.get_span(buf.len() - 1);
            self.m_row += 1;
            let new_line_span = self.get_span(1);
            self.emit_token(Token::Error { span: error_span });
            self.emit_token(Token::NewLine { span: new_line_span });
            *buf = Vec::new();
            assert(buf@ =~= Seq::<char>::empty());
        } else {
            let single = self.match_ch(ch, peek);
            if let Some(token) = single {
                self.emit_token(token);
                *buf = Vec::new();
                assert(buf@ =~= Seq::<char>::empty());
            }
        }
    }

    /// The token that the single character `ch`, followed by `peek`, stands
    /// for, if any.
    pub fn match_ch(&mut self, ch: char, peek: Option<char>) -> (r: Option<Token>)
        requires
            ch == '(' && old(self).m_parenthesis_handler.m_function_call
                ==> old(self).m_parenthesis_handler.m_bracket_depth < usize::MAX,
        ensures
            (final(self)@, option_view(r)) == single_char_token(old(self)@, ch, peek),
            final(self).m_tokens == old(self).m_tokens,
    {
        if ch == '\r' {
            return None;
        }
        let span = Span::new(self.m_line, self.m_row, self.m_row);
        if ch == '(' || ch == ')' {
            Some(self.m_parenthesis_handler.emit_bracket_token(span, ch == '('))
        } else if ch == '{' {
            Some(Token::OpenCurlyBracket { span })
        } else if ch == '}' {
            Some(Token::ClosedCurlyBracket { span })
        } else if ch == '=' {
            Some(Token::Equals { span })
        } else if ch == '+' {
            Some(Token::Operator(Operator::Plus { span }))
        } else if ch == '-' {
            Some(Token::Operator(Operator::Minus { span }))
        } else if ch == '%' {
            Some(Token::Operator(Operator::Modulus { span }))
        } else if ch == '*' {
            if peek == Some('*') {
                None
            } else {
                Some(Token::Operator(Operator::Multiplication { span }))
            }
        } else if ch == ' ' {
            if peek != Some(' ') {
                Some(Token::WhiteSpace { span })
            } else {
                None
            }
        } else if ch == '\n' {
            self.m_parenthesis_handler.deactivate_function_detector();
            Some(Token::NewLine { span })
        } else {
            None
        }
    }

    /// The token that the buffered characters form, if any; `peek` is the
    /// character that follows them.
    fn check_buf(&mut self, buf: &Vec<char>, peek: Option<char>) -> (r: Option<Token>)
        requires
            buf.len() >= 1,
            4 * buf.len() <= usize::MAX,
            old(self).m_row + 4 * buf.len() <= usize::MAX,
        ensures
            (final(self)@, option_view(r)) == buffer_token(old(self)@, buf@, peek),
            final(self).m_line == old(self).m_line,
            r is None ==> *final(self) == *old(self),
            final(self).m_row + 1 <= old(self).m_row + 4 * buf.len(),
            final(self).m_parenthesis_handler.m_bracket_depth == 0 || *final(self) == *old(self)
                || final(self).m_parenthesis_handler == old(self).m_parenthesis_handler,
    {
        let key = remove_char(buf, ' ');
        let len = utf8_length_of(buf);
        let word_ends = match peek {
            Some(c) => !is_letter_or_digit(c),
            None => true,
        };
        proof {
            lemma_utf8_length_bounds(buf@);
        }
        if chars_equal_str(&key, "exit") && word_ends {
            self.m_parenthesis_handler.activate_function_detector();
            Some(Token::Exit { span: self.get_span(len) })
        } else if chars_equal_str(&key, "print") && word_ends {
            self.m_parenthesis_handler.activate_function_detector();
            Some(Token::Print { span: self.get_span(len) })
        } else if chars_equal_str(&key, "**") {
            Some(Token::Operator(Operator::Exponent { span: self.get_span(len) }))
        } else if chars_equal_str(&key, "//") {
            Some(Token::Operator(Operator::Division { span: self.get_span(len) }))
        } else if chars_equal_str(&key, "&&") {
            Some(Token::Operator(Operator::And { span: self.get_span(len) }))
        } else if chars_equal_str(&key, "||") {
            Some(Token::Operator(Operator::Or { span: self.get_span(len) }))
        } else if chars_equal_str(&key, "!!") {
            Some(Token::Operator(Operator::Not { span: self.get_span(len) }))
        } else if chars_equal_str(&key, "^|") {
            Some(Token::Operator(Operator::Xor { span: self.get_span(len) }))
        } else if chars_equal_str(&key, "true") && word_ends {
            Some(Token::Boolean { value: true, span: self.get_span(len) })
        } else if chars_equal_str(&key, "false") && word_ends {
            Some(Token::Boolean { value: false, span: self.get_span(len) })
        } else if key.len() == 0 {
            if peek == Some(' ') {
                None
            } else {
                Some(Token::WhiteSpace { span: self.get_span(len) })
            }
        } else {
            self.tokenize_primary_expr(buf, peek)
        }
    }

    fn tokenize_primary_expr(&mut self, buf: &Vec<char>, peek: Option<char>) -> (r: Option<Token>)
        requires
            buf.len() >= 1,
            4 * buf.len() <= usize::MAX,
            old(self).m_row + 4 * buf.len() <= usize::MAX,
        ensures
            (final(self)@, option_view(r)) == primary_token(old(self)@, buf@, peek),
            final(self).m_line == old(self).m_line,
            r is None ==> *final(self) == *old(self),
            final(self).m_row + 1 <= old(self).m_row + 4 * buf.len(),
            final(self).m_parenthesis_handler == old(self).m_parenthesis_handler,
    {
        let number = self.get_num(buf, peek);
        if number.is_some() {
            return number;
        }
        let id = self.get_id(buf, peek);
        if id.is_some() {
            return id;
        }
        self.get_error(buf, peek)
    }

    /// A `Number` token when the buffer holds a number.
    pub fn get_num(&mut self, buf: &Vec<char>, peek: Option<char>) -> (r: Option<Token>)
        requires
            4 * buf.len() <= usize::MAX,
            old(self).m_row + 4 * buf.len() <= usize::MAX,
        ensures
            is_number_text(buf@, peek) ==> buf.len() > 0 ==> option_view(r) == Some(
                TokenView::Number {
                    value: buf@,
                    span: span_at(old(self)@, utf8_length(buf@)),
                },
            ) && final(self)@ == spanned(old(self)@, utf8_length(buf@)),
            !is_number_text(buf@, peek) ==> r is None && *final(self) == *old(self),
            final(self).m_line == old(self).m_line,
            buf.len() > 0 ==> final(self).m_row + 1 <= old(self).m_row + 4 * buf.len(),
            final(self).m_parenthesis_handler == old(self).m_parenthesis_handler,
    {
        let next = match peek {
            Some(c) => c,
            None => ' ',
        };
        if all_numeric_chars(buf) && !is_letter_or_digit(next) {
            if buf.len() == 0 {
                return None;
            }
            let len = utf8_length_of(buf);
            proof {
                lemma_utf8_length_bounds(buf@);
            }
            return Some(Token::Number { value: chars_to_string(buf), span: self.get_span(len) });
        }
        None
    }

    /// An `ID` token when the buffer holds an identifier.
    pub fn get_id(&mut self, buf: &Vec<char>, peek: Option<char>) -> (r: Option<Token>)
        requires
            4 * buf.len() <= usize::MAX,
            old(self).m_row + 4 * buf.len() <= usize::MAX,
        ensures
            is_identifier_text(buf@, peek) ==> option_view(r) == Some(
                TokenView::ID { name: buf@, span: span_at(old(self)@, utf8_length(buf@)) },
            ) && final(self)@ == spanned(old(self)@, utf8_length(buf@)),
            !is_identifier_text(buf@, peek) ==> r is None && *final(self) == *old(self),
            final(self).m_line == old(self).m_line,
            buf.len() > 0 ==> final(self).m_row + 1 <= old(self).m_row + 4 * buf.len(),
            final(self).m_parenthesis_handler == old(self).m_parenthesis_handler,
    {
        let next = match peek {
            Some(c) => c,
            None => ' ',
        };
        if buf.len() == 0 {
            return None;
        }
        if is_letter(buf[0]) && all_alphanumeric_chars(buf) && !is_letter_or_digit(next) {
            let len = utf8_length_of(buf);
            proof {
                lemma_utf8_length_bounds(buf@);
            }
            return Some(Token::ID { name: chars_to_string(buf), span: self.get_span(len) });
        }
        None
    }

    /// An `Error` token when the buffer holds a word that starts with a digit.
    pub fn get_error(&mut self, buf: &Vec<char>, peek: Option<char>) -> (r: Option<Token>)
        requires
            4 * buf.len() <= usize::MAX,
            old(self).m_row + 4 * buf.len() <= usize::MAX,
        ensures
            is_malformed_text(buf@, peek) ==> option_view(r) == Some(
                TokenView::Error { span: span_at(old(self)@, utf8_length(buf@)) },
            ) && final(self)@ == spanned(old(self)@, utf8_length(buf@)),
            !is_malformed_text(buf@, peek) ==> r is None && *final(self) == *old(self),
            final(self).m_line == old(self).m_line,
            buf.len() > 0 ==> final(self).m_row + 1 <= old(self).m_row + 4 * buf.len(),
            final(self).m_parenthesis_handler == old(self).m_parenthesis_handler,
    {
        let next = match peek {
            Some(c) => c,
            None => ' ',
        };
        if buf.len() == 0 {
            return None;
        }
        if is_digit(buf[0]) && all_alphanumeric_chars(buf) && !is_letter_or_digit(next) {
            let len = utf8_length_of(buf);
            proof {
                lemma_utf8_length_bounds(buf@);
            }
            return Some(Token::Error { span: self.get_span(len) });
        }
        None
    }

    fn handle_newline(&mut self)
        requires
            old(self).m_line < usize::MAX,
        ensures
            final(self).m_line == old(self).m_line + 1,
            final(self).m_row == 0,
            final(self).m_tokens == old(self).m_tokens,
            final(self).m_parenthesis_handler == old(self).m_parenthesis_handler,
    {
        self.m_line += 1;
        self.m_row = 0;
    }

    /// The span of a token of `length` columns at the current position; the
    /// column moves to the token's last column.
    pub fn get_span(&mut self, length: usize) -> (r: Span)
        requires
            length >= 1,
            old(self).m_row + length - 1 <= usize::MAX,
        ensures
            r == span_at(old(self)@, length as nat),
            final(self)@ == spanned(old(self)@, length as nat),
    {
        let res = Span::new(self.m_line, self.m_row, self.m_row + (length - 1));
        self.m_row += length - 1;
        res
    }
}

fn all_numeric_chars(buf: &Vec<char>) -> (r: bool)
    ensures
        r == all_numeric(buf@),
{
    let mut i: usize = 0;
    while i < buf.len()
        invariant
            i <= buf.len(),
            forall|j: int| 0 <= j < i ==> ascii_digit(#[trigger] buf@[j]),
        decreases buf.len() - i,
    {
        if !is_digit(buf[i]) {
            return false;
        }
        i = i + 1;
    }
    true
}

fn all_alphanumeric_chars(buf: &Vec<char>) -> (r: bool)
    ensures
        r == all_alphanumeric(buf@),
{
    let mut i: usize = 0;
    while i < buf.len()
        invariant
            i <= buf.len(),
            forall|j: int| 0 <= j < i ==> ascii_alphanumeric(#[trigger] buf@[j]),
        decreases buf.len() - i,
    {
        if !is_letter_or_digit(buf[i]) {
            return false;
        }
        i = i + 1;
    }
    true
}

} // verus!
