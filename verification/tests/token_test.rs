use brs::compiler::span::Span;
use brs::compiler::tokenizer::{Operator, Token};

fn all_tokens(span: Span) -> Vec<Token> {
    vec![
        Token::ID { name: "x".to_string(), span },
        Token::Number { value: "42".to_string(), span },
        Token::Boolean { value: true, span },
        Token::Exit { span },
        Token::OpenBracket { span },
        Token::ClosedBracket { span },
        Token::OpenCurlyBracket { span },
        Token::ClosedCurlyBracket { span },
        Token::Equals { span },
        Token::Operator(Operator::Plus { span }),
        Token::WhiteSpace { span },
        Token::NewLine { span },
        Token::Error { span },
    ]
}

fn expected_format() -> Vec<&'static str> {
    vec![
        "ID(x, Span { m_line: 0, m_start: 0, m_end: 0 })",
        "Number(42, Span { m_line: 0, m_start: 0, m_end: 0 })",
        "Boolean(true, Span { m_line: 0, m_start: 0, m_end: 0 })",
        "exit()",
        "(",
        ")",
        "{",
        "}",
        "=",
        "+",
        " ",
        "\n",
        "err",
    ]
}

#[test]
fn token_test_get_span() {
    let dummy_span = Span::new(0, 0, 0);
    for token in all_tokens(dummy_span) {
        assert_eq!(token.get_span(), dummy_span)
    }
}

#[test]
fn token_test_formatting() {
    let dummy_span = Span::new(0, 0, 0);
    for (token, exp_format) in all_tokens(dummy_span).into_iter().zip(expected_format()) {
        assert_eq!(token.to_string(), exp_format);
    }
}

#[test]
fn span_debug_text_uses_decimal_numbers() {
    let span = Span::new(12, 0, 305);
    assert_eq!(span.debug_string(), format!("{:?}", span));
    let token = Token::Number { value: "7".to_string(), span };
    assert_eq!(token.to_string(), "Number(7, Span { m_line: 12, m_start: 0, m_end: 305 })");
}

#[test]
fn duplicate_gives_an_equal_token() {
    let span = Span::new(1, 2, 3);
    for token in all_tokens(span) {
        assert_eq!(token.duplicate(), token);
    }
}
