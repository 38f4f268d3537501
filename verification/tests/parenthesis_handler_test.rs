use brs::compiler::span::Span;
use brs::compiler::tokenizer::{Operator, ParenthesisHandler, Token};

#[test]
fn parenthesis_handler_test_init() {
    let handler = ParenthesisHandler::new();
    assert!(!handler.m_function_call);
    assert_eq!(handler.m_bracket_depth, 0);
}

#[test]
fn test_activation() {
    let mut handler = ParenthesisHandler::new();
    handler.activate_function_detector();
    assert!(handler.m_function_call);
    assert_eq!(handler.m_bracket_depth, 0);
}

#[test]
fn test_deactivation() {
    let mut handler = ParenthesisHandler::new();
    handler.activate_function_detector();
    handler.deactivate_function_detector();
    assert!(!handler.m_function_call);
    assert_eq!(handler.m_bracket_depth, 0);
}

#[test]
fn test_open_bracket_emittance() {
    let mut handler = ParenthesisHandler::new();
    let span = Span::new(0, 0, 0);
    let expected_res = Token::Operator(Operator::OpenBracket { span });
    assert_eq!(expected_res, handler.emit_bracket_token(span, true));
}

#[test]
fn test_closed_bracket_emittance() {
    let mut handler = ParenthesisHandler::new();
    let span = Span::new(0, 0, 0);
    let expected_res = Token::Operator(Operator::ClosedBracket { span });
    assert_eq!(expected_res, handler.emit_bracket_token(span, false));
}

#[test]
fn test_function_call_open_bracket() {
    let mut handler = ParenthesisHandler::new();
    let span = Span::new(0, 0, 0);
    let expected_res = Token::OpenBracket { span };
    handler.activate_function_detector();
    assert_eq!(expected_res, handler.emit_bracket_token(span, true));
    assert_eq!(handler.m_bracket_depth, 1);
}

#[test]
fn test_function_call_closed_bracket_depth_0() {
    let mut handler = ParenthesisHandler::new();
    let span = Span::new(0, 0, 0);
    let expected_res = Token::ClosedBracket { span };
    handler.activate_function_detector();
    assert_eq!(expected_res, handler.emit_bracket_token(span, false));
    assert_eq!(handler.m_bracket_depth, 0);
}

#[test]
fn test_function_call_closed_bracket_depth_1() {
    let mut handler = ParenthesisHandler::new();
    let span = Span::new(0, 0, 0);
    let expected_res = Token::ClosedBracket { span };
    handler.activate_function_detector();
    handler.emit_bracket_token(span, true);
    let res = handler.emit_bracket_token(span, false);
    assert_eq!(res, expected_res);
    assert!(!handler.m_function_call);
}

#[test]
fn test_function_call_nested_open_brackets() {
    let mut handler = ParenthesisHandler::new();
    let span = Span::new(1, 1, 1);
    let expected_res = Token::Operator(Operator::OpenBracket { span });
    handler.activate_function_detector();
    handler.emit_bracket_token(span, true);
    let res = handler.emit_bracket_token(span, true);
    assert_eq!(res, expected_res);
    assert_eq!(handler.m_bracket_depth, 2);
}

#[test]
fn test_function_call_nested_brackets() {
    let mut handler = ParenthesisHandler::new();
    let span = Span::new(1, 1, 1);
    let expected_res = Token::Operator(Operator::ClosedBracket { span });
    handler.activate_function_detector();
    handler.emit_bracket_token(span, true);
    handler.emit_bracket_token(span, true);
    let res = handler.emit_bracket_token(span, false);
    assert_eq!(res, expected_res);
    assert_eq!(handler.m_bracket_depth, 1);
    assert!(handler.m_function_call);
}

#[test]
fn balanced_call_brackets_close_the_call() {
    let mut handler = ParenthesisHandler::new();
    let span = Span::new(0, 0, 0);
    handler.activate_function_detector();
    assert_eq!(handler.emit_bracket_token(span, true), Token::OpenBracket { span });
    assert_eq!(handler.emit_bracket_token(span, true), Token::Operator(Operator::OpenBracket { span }));
    assert_eq!(handler.emit_bracket_token(span, false), Token::Operator(Operator::ClosedBracket { span }));
    assert_eq!(handler.emit_bracket_token(span, false), Token::ClosedBracket { span });
    assert!(!handler.m_function_call);
    assert_eq!(handler.m_bracket_depth, 0);
    assert_eq!(handler.emit_bracket_token(span, true), Token::Operator(Operator::OpenBracket { span }));
}

#[test]
fn inactive_handler_gives_operator_brackets_and_stays_inactive() {
    let mut handler = ParenthesisHandler::new();
    let span = Span::new(0, 3, 3);
    assert_eq!(
        handler.emit_bracket_token(span, true),
        Token::Operator(Operator::OpenBracket { span })
    );
    assert!(!handler.m_function_call);
    assert_eq!(handler.m_bracket_depth, 0);
    assert_eq!(
        handler.emit_bracket_token(span, false),
        Token::Operator(Operator::ClosedBracket { span })
    );
    assert!(!handler.m_function_call);
    assert_eq!(handler.m_bracket_depth, 0);
}

#[test]
fn closing_bracket_of_a_deep_call_only_lowers_the_depth() {
    let span = Span::new(1, 2, 2);
    let mut handler = ParenthesisHandler { m_function_call: true, m_bracket_depth: 3 };
    assert_eq!(
        handler.emit_bracket_token(span, false),
        Token::Operator(Operator::ClosedBracket { span })
    );
    assert!(handler.m_function_call);
    assert_eq!(handler.m_bracket_depth, 2);
    assert_eq!(
        handler.emit_bracket_token(span, false),
        Token::Operator(Operator::ClosedBracket { span })
    );
    assert_eq!(handler.m_bracket_depth, 1);
    assert_eq!(handler.emit_bracket_token(span, false), Token::ClosedBracket { span });
    assert!(!handler.m_function_call);
    assert_eq!(handler.m_bracket_depth, 0);
}

#[test]
fn closing_bracket_needs_no_room_to_count() {
    let span = Span::new(0, 0, 0);
    let mut handler = ParenthesisHandler { m_function_call: true, m_bracket_depth: usize::MAX };
    assert_eq!(
        handler.emit_bracket_token(span, false),
        Token::Operator(Operator::ClosedBracket { span })
    );
    assert_eq!(handler.m_bracket_depth, usize::MAX - 1);
}
