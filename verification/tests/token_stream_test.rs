use brs::compiler::logger::Logger;
use brs::compiler::parser::token_stream::TokenStream;
use brs::compiler::parser::{ParserErrorType, ParserLogger};
use brs::compiler::span::Span;
use brs::compiler::tokenizer::{Token, Tokenizer};

fn stream_of(text: &str) -> TokenStream {
    let mut tokenizer = Tokenizer::new();
    tokenizer.tokenize(text);
    TokenStream::new(tokenizer.get_tokens(), ParserLogger::new("f".to_string(), text.to_string()))
}

#[test]
fn lines_are_trimmed_and_free_of_line_breaks() {
    let stream = stream_of("  x = 1  \n\n{ y = 2 }\n exit(x) ");
    assert_eq!(stream.m_tokens.len(), 5);
    for line in &stream.m_tokens {
        assert!(line.iter().all(|t| !matches!(t, Token::NewLine { .. })));
        if let Some(first) = line.first() {
            assert!(!matches!(first, Token::WhiteSpace { .. }));
        }
        if let Some(last) = line.last() {
            assert!(!matches!(last, Token::WhiteSpace { .. }));
        }
    }
    assert_eq!(stream.m_tokens[1], vec![Token::OpenCurlyBracket { span: Span::new(2, 0, 0) }]);
    assert_eq!(stream.m_tokens[3], vec![Token::ClosedCurlyBracket { span: Span::new(2, 8, 8) }]);
}

#[test]
fn peek_range_skips_whitespace() {
    let stream = stream_of("x   =  5");
    let r = stream.peek_range(2, true).unwrap();
    assert_eq!(r.len(), 2);
    assert!(matches!(r[0], Token::ID { .. }));
    assert!(matches!(r[1], Token::Equals { .. }));
    assert!(stream.peek_range(4, true).is_none());
    assert_eq!(stream.peek_range(2, false).unwrap()[1], Token::WhiteSpace { span: Span::new(0, 1, 3) });
}

#[test]
fn advance_stmt_reports_what_is_left() {
    let mut stream = stream_of("a b\nc");
    stream.advance(1);
    stream.advance_stmt(true);
    assert_eq!(stream.m_stmt_index, 1);
    assert_eq!(stream.m_index, 0);
    assert_eq!(stream.m_logger.errors.len(), 2);
    assert!(stream.m_logger.errors.iter().all(|e| e.0 == ParserErrorType::ErrUnexpectedToken));
    stream.advance_stmt(false);
    assert_eq!(stream.m_stmt_index, 1);
    assert!(stream.is_end() == false);
}

#[test]
fn advance_skip_tokens_passes_whitespace() {
    let mut stream = stream_of("x   =  5");
    stream.advance_skip_tokens(2, true);
    assert_eq!(stream.peek(0), Some(Token::Number { value: "5".to_string(), span: Span::new(0, 7, 7) }));
    assert!(stream.is_err_token_present() == false);
}

#[test]
fn peek_back_past_the_end_gives_nothing() {
    let stream = stream_of("");
    assert_eq!(stream.m_stmt_index, stream.m_tokens.len());
    assert!(stream.peek_back(5).is_none());
}
