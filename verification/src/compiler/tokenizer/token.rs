use vstd::prelude::*;
use super::operator::Operator;
use crate::compiler::span::Span;
use crate::utility::text::str_to_string;

verus! {

/// A lexical unit of a BRS program, with its position in the source.
#[derive(Clone, Debug, PartialEq)]
pub enum Token {
    ID { name: String, span: Span },
    Number { value: String, span: Span },
    Boolean { value: bool, span: Span },
    Exit { span: Span },
    Print { span: Span },
    OpenBracket { span: Span },
    ClosedBracket { span: Span },
    OpenCurlyBracket { span: Span },
    ClosedCurlyBracket { span: Span },
    Equals { span: Span },
    Operator(Operator),
    WhiteSpace { span: Span },
    NewLine { span: Span },
    Error { span: Span },
}

/// A token with its text as a sequence of characters.
pub enum TokenView {
    ID { name: Seq<char>, span: Span },
    Number { value: Seq<char>, span: Span },
    Boolean { value: bool, span: Span },
    Exit { span: Span },
    Print { span: Span },
    OpenBracket { span: Span },
    ClosedBracket { span: Span },
    OpenCurlyBracket { span: Span },
    ClosedCurlyBracket { span: Span },
    Equals { span: Span },
    Operator(Operator),
    WhiteSpace { span: Span },
    NewLine { span: Span },
    Error { span: Span },
}

impl View for Token {
    type V = TokenView;

    open spec fn view(&self) -> TokenView {
        match self {
            Token::ID { name, span } => TokenView::ID { name: name@, span: *span },
            Token::Number { value, span } => TokenView::Number { value: value@, span: *span },
            Token::Boolean { value, span } => TokenView::Boolean { value: *value, span: *span },
            Token::Exit { span } => TokenView::Exit { span: *span },
            Token::Print { span } => TokenView::Print { span: *span },
            Token::OpenBracket { span } => TokenView::OpenBracket { span: *span },
            Token::ClosedBracket { span } => TokenView::ClosedBracket { span: *span },
            Token::OpenCurlyBracket { span } => TokenView::OpenCurlyBracket { span: *span },
            Token::ClosedCurlyBracket { span } => TokenView::ClosedCurlyBracket { span: *span },
            Token::Equals { span } => TokenView::Equals { span: *span },
            Token::Operator(op) => TokenView::Operator(*op),
            Token::WhiteSpace { span } => TokenView::WhiteSpace { span: *span },
            Token::NewLine { span } => TokenView::NewLine { span: *span },
            Token::Error { span } => TokenView::Error { span: *span },
        }
    }
}

/// The views of a sequence of tokens.
pub open spec fn tokens_view(tokens: Seq<Token>) -> Seq<TokenView> {
    tokens.map_values(|t: Token| t@)
}

impl TokenView {
    pub open spec fn span(self) -> Span {
        match self {
            TokenView::ID { span, .. }
            | TokenView::Number { span, .. }
            | TokenView::Boolean { span, .. }
            | TokenView::Exit { span }
            | TokenView::Print { span }
            | TokenView::OpenBracket { span }
            | TokenView::ClosedBracket { span }
            | TokenView::OpenCurlyBracket { span }
            | TokenView::ClosedCurlyBracket { span }
            | TokenView::Equals { span }
            | TokenView::WhiteSpace { span }
            | TokenView::NewLine { span }
            | TokenView::Error { span } => span,
            TokenView::Operator(op) => op.span_of(),
        }
    }

    /// The token as its `Display` formatting prints it.
    pub open spec fn display(self) -> Seq<char> {
        match self {
            TokenView::ID { name, span } => "ID("@ + name + ", "@ + span.debug_text() + ")"@,
            TokenView::Number { value, span } => "Number("@ + value + ", "@ + span.debug_text()
                + ")"@,
            TokenView::Boolean { value, span } => "Boolean("@ + (if value {
                "true"@
            } else {
                "false"@
            }) + ", "@ + span.debug_text() + ")"@,
            TokenView::Exit { .. } => "exit()"@,
            TokenView::OpenBracket { .. } => "("@,
            TokenView::ClosedBracket { .. } => ")"@,
            TokenView::OpenCurlyBracket { .. } => "{"@,
            TokenView::ClosedCurlyBracket { .. } => "}"@,
            TokenView::Equals { .. } => "="@,
            TokenView::Operator(op) => op.symbol(),
            TokenView::WhiteSpace { .. } => " "@,
            TokenView::NewLine { .. } => "\n"@,
            _ => "err"@,
        }
    }
}

impl Token {
    pub fn get_span(&self) -> (r: Span)
        ensures
            r == self@.span(),
    {
        match self {
            Token::ID { span, .. }
            | Token::Number { span, .. }
            | Token::Boolean { span, .. }
            | Token::Exit { span }
            | Token::Print { span }
            | Token::OpenBracket { span }
            | Token::ClosedBracket { span }
            | Token::OpenCurlyBracket { span }
            | Token::ClosedCurlyBracket { span }
            | Token::Equals { span }
            | Token::WhiteSpace { span }
            | Token::NewLine { span }
            | Token::Error { span } => *span,
            Token::Operator(op) => op.get_span(),
        }
    }

    /// A copy of the token.
    pub fn duplicate(&self) -> (r: Token)
        ensures
            r == *self,
    {
        match self {
            Token::ID { name, span } => Token::ID { name: name.clone(), span: *span },
            Token::Number { value, span } => Token::Number { value: value.clone(), span: *span },
            Token::Boolean { value, span } => Token::Boolean { value: *value, span: *span },
            Token::Exit { span } => Token::Exit { span: *span },
            Token::Print { span } => Token::Print { span: *span },
            Token::OpenBracket { span } => Token::OpenBracket { span: *span },
            Token::ClosedBracket { span } => Token::ClosedBracket { span: *span },
            Token::OpenCurlyBracket { span } => Token::OpenCurlyBracket { span: *span },
            Token::ClosedCurlyBracket { span } => Token::ClosedCurlyBracket { span: *span },
            Token::Equals { span } => Token::Equals { span: *span },
            Token::Operator(op) => Token::Operator(*op),
            Token::WhiteSpace { span } => Token::WhiteSpace { span: *span },
            Token::NewLine { span } => Token::NewLine { span: *span },
            Token::Error { span } => Token::Error { span: *span },
        }
    }

    /// The text of `format!("{}", token)`.
    pub fn to_string(&self) -> (r: String)
        ensures
            r@ == self@.display(),
    {
        match self {
            Token::ID { name, span } => {
                let mut s = str_to_string("ID(");
                s.append(name.as_str());
                s.append(", ");
                s.append(span.debug_string().as_str());
                s.append(")");
                s
            },
            Token::Number { value, span } => {
                let mut s = str_to_string("Number(");
                s.append(value.as_str());
                s.append(", ");
                s.append(span.debug_string().as_str());
                s.append(")");
                s
            },
            Token::Boolean { value, span } => {
                let mut s = str_to_string("Boolean(");
                s.append(if *value { "true" } else { "false" });
                s.append(", ");
                s.append(span.debug_string().as_str());
                s.append(")");
                s
            },
            Token::Exit { .. } => str_to_string("exit()"),
            Token::OpenBracket { .. } => str_to_string("("),
            Token::ClosedBracket { .. } => str_to_string(")"),
            Token::OpenCurlyBracket { .. } => str_to_string("{"),
            Token::ClosedCurlyBracket { .. } => str_to_string("}"),
            Token::Equals { .. } => str_to_string("="),
            Token::Operator(op) => op.to_string(),
            Token::WhiteSpace { .. } => str_to_string(" "),
            Token::NewLine { .. } => str_to_string("\n"),
            _ => str_to_string("err"),
        }
    }
}

/// A copy of a vector of tokens.
pub fn duplicate_tokens(tokens: &Vec<Token>) -> (r: Vec<Token>)
    ensures
        r@ == tokens@,
{
    let mut r: Vec<Token> = Vec::new();
    let mut i: usize = 0;
    while i < tokens.len()
        invariant
            i <= tokens.len(),
            r@ == tokens@.subrange(0, i as int),
        decreases tokens.len() - i,
    {
        r.push(tokens[i].duplicate());
        i = i + 1;
        assert(r@ =~= tokens@.subrange(0, i as int));
    }
    assert(tokens@.subrange(0, tokens.len() as int) =~= tokens@);
    r
}

} // verus!
