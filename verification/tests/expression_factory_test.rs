use brs::compiler::logger::Logger;
use brs::compiler::parser::expression_factory::ReversePolishNotation;
use brs::compiler::parser::token_stream::TokenStream;
use brs::compiler::parser::{
    ExpressionFactory, NodeArithmeticOperation, NodeBaseExpr, NodeOperand, ParserErrorType,
    ParserLogger, ResultType,
};
use brs::compiler::span::Span;
use brs::compiler::tokenizer::{Operator, Token};

fn setup_logger() -> ParserLogger {
    ParserLogger::new("".to_string(), "".to_string())
}

fn create(tokens: Vec<Token>) -> (Option<NodeOperand>, TokenStream) {
    let mut token_stream = TokenStream::new(tokens, setup_logger());
    let mut factory = ExpressionFactory::new();
    let result = factory.create(&mut token_stream);
    (result, token_stream)
}

#[test]
fn test_base_number_expression() {
    let dummy_span = Span::new(0, 0, 0);
    let (result, _) = create(vec![Token::Number { value: 42.to_string(), span: dummy_span }]);
    assert!(matches!(result, Some(NodeOperand::Base(NodeBaseExpr::Num(_)))));
}

#[test]
fn test_base_boolean_expression() {
    let dummy_span = Span::new(0, 0, 0);
    let (result, _) = create(vec![Token::Boolean { value: true, span: dummy_span }]);
    assert!(matches!(result, Some(NodeOperand::Base(NodeBaseExpr::Bool(_)))));
}

#[test]
fn expression_factory_test_empty_input() {
    let (result, _) = create(Vec::new());
    assert!(result.is_none());
}

#[test]
fn test_operation() {
    let dummy_span = Span::new(0, 0, 0);
    let (result, _) = create(vec![
        Token::Number { value: 1.to_string(), span: dummy_span },
        Token::Operator(Operator::Plus { span: dummy_span }),
        Token::Number { value: 2.to_string(), span: dummy_span },
    ]);
    assert!(matches!(result, Some(NodeOperand::Operation(_))));
}

#[test]
fn test_bool_operation() {
    let dummy_span = Span::new(0, 0, 0);
    let (result, _) = create(vec![
        Token::Boolean { value: true, span: dummy_span },
        Token::Operator(Operator::And { span: dummy_span }),
        Token::Boolean { value: false, span: dummy_span },
        Token::Operator(Operator::Or { span: dummy_span }),
        Token::Boolean { value: true, span: dummy_span },
    ]);
    assert!(matches!(result, Some(NodeOperand::Operation(_))));
}

#[test]
fn test_right_associative_operation() {
    let dummy_span = Span::new(0, 0, 0);
    let (result, _) = create(vec![
        Token::Number { value: 1.to_string(), span: dummy_span },
        Token::Operator(Operator::Exponent { span: dummy_span }),
        Token::Number { value: 2.to_string(), span: dummy_span },
        Token::Operator(Operator::Exponent { span: dummy_span }),
        Token::Number { value: 1.to_string(), span: dummy_span },
    ]);
    assert!(matches!(result, Some(NodeOperand::Operation(_))));
}

#[test]
fn test_missing_operand() {
    let dummy_span = Span::new(0, 0, 0);
    let (result, stream) = create(vec![Token::Operator(Operator::Plus { span: dummy_span })]);
    assert!(result.is_none());
    assert_eq!(stream.m_logger.errors, vec![(ParserErrorType::ErrMissingOperand, dummy_span)]);
}

#[test]
fn expression_factory_test_unexpected_token() {
    let dummy_span = Span::new(0, 0, 0);
    let (result, _) = create(vec![
        Token::ID { name: "x".to_string(), span: dummy_span },
        Token::Number { value: 42.to_string(), span: dummy_span },
        Token::Boolean { value: true, span: dummy_span },
        Token::Error { span: dummy_span },
    ]);
    assert!(result.is_none());
}

#[test]
fn test_wrong_bool_operation() {
    let dummy_span = Span::new(0, 0, 0);
    let (result, stream) = create(vec![
        Token::ID { name: "x".to_string(), span: dummy_span },
        Token::Operator(Operator::And { span: dummy_span }),
        Token::Boolean { value: true, span: dummy_span },
    ]);
    assert!(result.is_none());
    assert_eq!(stream.m_logger.errors, vec![(ParserErrorType::ErrTypeMismatch, dummy_span)]);
}

#[test]
fn exponent_tree_groups_from_the_right() {
    let s = Span::new(0, 0, 0);
    let n = |v: &str| NodeBaseExpr::Num(Token::Number { value: v.to_string(), span: s });
    let (result, _) = create(vec![
        Token::Number { value: "1".to_string(), span: s },
        Token::Operator(Operator::Exponent { span: s }),
        Token::Number { value: "2".to_string(), span: s },
        Token::Operator(Operator::Exponent { span: s }),
        Token::Number { value: "3".to_string(), span: s },
    ]);
    let inner = NodeArithmeticOperation {
        lhs: NodeOperand::Base(n("2")),
        rhs: NodeOperand::Base(n("3")),
        op: Operator::Exponent { span: s },
        result_type: ResultType::Numeric,
    };
    let expected = NodeArithmeticOperation {
        lhs: NodeOperand::Base(n("1")),
        rhs: NodeOperand::Operation(Box::new(inner)),
        op: Operator::Exponent { span: s },
        result_type: ResultType::Numeric,
    };
    assert_eq!(result, Some(NodeOperand::Operation(Box::new(expected))));
}

#[test]
fn logical_operation_has_boolean_result() {
    let s = Span::new(0, 0, 0);
    let (result, _) = create(vec![
        Token::Boolean { value: true, span: s },
        Token::Operator(Operator::Xor { span: s }),
        Token::Boolean { value: false, span: s },
    ]);
    match result {
        Some(NodeOperand::Operation(op)) => assert_eq!(op.result_type, ResultType::Boolean),
        _ => panic!("expected an operation"),
    }
}

fn polish(expr: Vec<Token>) -> (Option<Vec<Token>>, TokenStream) {
    let mut token_stream = TokenStream::new(expr, setup_logger());
    let mut rpn = ReversePolishNotation::new();
    let r = rpn.create(&mut token_stream);
    (r, token_stream)
}

#[test]
fn test_translation() {
    let dummy_span = Span::new(0, 0, 0);
    let expr = vec![
        Token::Number { value: "1".to_string(), span: dummy_span },
        Token::Operator(Operator::Plus { span: dummy_span }),
        Token::ID { name: "x".to_string(), span: dummy_span },
        Token::Operator(Operator::Plus { span: dummy_span }),
        Token::Number { value: "1".to_string(), span: dummy_span },
    ];
    let exp_notation = vec![
        Token::Number { value: "1".to_string(), span: dummy_span },
        Token::ID { name: "x".to_string(), span: dummy_span },
        Token::Operator(Operator::Plus { span: dummy_span }),
        Token::Number { value: "1".to_string(), span: dummy_span },
        Token::Operator(Operator::Plus { span: dummy_span }),
    ];
    let (p, _) = polish(expr);
    assert!(p.is_some());
    assert_eq!(p.unwrap(), exp_notation);
}

#[test]
fn test_bracketed_expr() {
    let dummy_span = Span::new(0, 0, 0);
    let expr = vec![
        Token::Operator(Operator::OpenBracket { span: dummy_span }),
        Token::Number { value: "1".to_string(), span: dummy_span },
        Token::Operator(Operator::Plus { span: dummy_span }),
        Token::ID { name: "x".to_string(), span: dummy_span },
        Token::Operator(Operator::ClosedBracket { span: dummy_span }),
        Token::Operator(Operator::Multiplication { span: dummy_span }),
        Token::Number { value: "1".to_string(), span: dummy_span },
    ];
    let exp_notation = vec![
        Token::Number { value: "1".to_string(), span: dummy_span },
        Token::ID { name: "x".to_string(), span: dummy_span },
        Token::Operator(Operator::Plus { span: dummy_span }),
        Token::Number { value: "1".to_string(), span: dummy_span },
        Token::Operator(Operator::Multiplication { span: dummy_span }),
    ];
    let (p, _) = polish(expr);
    assert!(p.is_some());
    assert_eq!(p.unwrap(), exp_notation);
}

#[test]
fn reverse_polish_notation_test_precedence() {
    let dummy_span = Span::new(0, 0, 0);
    let expr = vec![
        Token::Number { value: "1".to_string(), span: dummy_span },
        Token::Operator(Operator::Plus { span: dummy_span }),
        Token::ID { name: "x".to_string(), span: dummy_span },
        Token::Operator(Operator::Multiplication { span: dummy_span }),
        Token::Number { value: "1".to_string(), span: dummy_span },
    ];
    let exp_notation = vec![
        Token::Number { value: "1".to_string(), span: dummy_span },
        Token::ID { name: "x".to_string(), span: dummy_span },
        Token::Number { value: "1".to_string(), span: dummy_span },
        Token::Operator(Operator::Multiplication { span: dummy_span }),
        Token::Operator(Operator::Plus { span: dummy_span }),
    ];
    let (p, _) = polish(expr);
    assert!(p.is_some());
    assert_eq!(p.unwrap(), exp_notation);
}

#[test]
fn reverse_polish_notation_test_associativity() {
    let dummy_span = Span::new(0, 0, 0);
    let expr = vec![
        Token::Number { value: "1".to_string(), span: dummy_span },
        Token::Operator(Operator::Exponent { span: dummy_span }),
        Token::Number { value: "2".to_string(), span: dummy_span },
        Token::Operator(Operator::Exponent { span: dummy_span }),
        Token::Number { value: "3".to_string(), span: dummy_span },
    ];
    let exp_notation = vec![
        Token::Number { value: "1".to_string(), span: dummy_span },
        Token::Number { value: "2".to_string(), span: dummy_span },
        Token::Number { value: "3".to_string(), span: dummy_span },
        Token::Operator(Operator::Exponent { span: dummy_span }),
        Token::Operator(Operator::Exponent { span: dummy_span }),
    ];
    let (p, _) = polish(expr);
    assert!(p.is_some());
    assert_eq!(p.unwrap(), exp_notation);
}

#[test]
fn test_wrong_expr() {
    let dummy_span = Span::new(0, 0, 0);
    let expr = vec![
        Token::Operator(Operator::OpenBracket { span: dummy_span }),
        Token::Number { value: "1".to_string(), span: dummy_span },
        Token::Operator(Operator::Plus { span: dummy_span }),
        Token::Number { value: "2".to_string(), span: dummy_span },
    ];
    let (p, stream) = polish(expr);
    assert!(p.is_none());
    assert_eq!(
        stream.m_logger.errors,
        vec![(ParserErrorType::ErrExpressionClosedBracketMissing, dummy_span)]
    );
}

#[test]
fn reverse_polish_notation_test_unexpected_token() {
    let dummy_span = Span::new(0, 0, 0);
    let (p, _) = polish(vec![Token::Error { span: dummy_span }]);
    assert!(p.is_none());
}

#[test]
fn test_mismatched_brackets() {
    let dummy_span = Span::new(0, 0, 0);
    let (p, stream) = polish(vec![Token::Operator(Operator::ClosedBracket { span: dummy_span })]);
    assert!(p.is_none());
    assert_eq!(
        stream.m_logger.errors,
        vec![(ParserErrorType::ErrExpressionOpenBracketMissing, dummy_span)]
    );
}

#[test]
fn postfix_stops_at_a_call_bracket() {
    let s = Span::new(0, 0, 0);
    let (p, stream) = polish(vec![
        Token::Number { value: "4".to_string(), span: s },
        Token::ClosedBracket { span: s },
    ]);
    assert_eq!(p, Some(vec![Token::Number { value: "4".to_string(), span: s }]));
    assert_eq!(stream.m_index, 1);
}
