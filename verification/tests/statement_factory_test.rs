use brs::compiler::logger::Logger;
use brs::compiler::parser::token_stream::TokenStream;
use brs::compiler::parser::{
    NodeArithmeticExpr, NodeArithmeticOperation, NodeBaseExpr, NodeExit, NodeOperand, NodeScope,
    NodeStmt, NodeVariableAssignment, Parser, ParserErrorType, ParserLogger, ResultType,
    StatementFactory,
};
use brs::compiler::span::Span;
use brs::compiler::tokenizer::{Operator, Token, Tokenizer};

fn setup_logger() -> ParserLogger {
    ParserLogger::new("".to_string(), "".to_string())
}

fn run(tokens: Vec<Token>) -> (Vec<NodeStmt>, TokenStream) {
    let mut token_stream = TokenStream::new(tokens, setup_logger());
    let factory = StatementFactory::new();
    let mut res: Vec<NodeStmt> = Vec::new();
    factory.create(&mut token_stream, &mut res);
    (res, token_stream)
}

#[test]
fn test_base_exit() {
    let dummy_span = Span::new(0, 0, 0);
    let (res, _) = run(vec![
        Token::Exit { span: dummy_span },
        Token::OpenBracket { span: dummy_span },
        Token::Number { value: 1.to_string(), span: dummy_span },
        Token::ClosedBracket { span: dummy_span },
    ]);
    assert_eq!(res.len(), 1);
}

#[test]
fn test_operation_exit() {
    let dummy_span = Span::new(0, 0, 0);
    let (res, _) = run(vec![
        Token::Exit { span: dummy_span },
        Token::OpenBracket { span: dummy_span },
        Token::Number { value: 1.to_string(), span: dummy_span },
        Token::Operator(Operator::Plus { span: dummy_span }),
        Token::Number { value: 1.to_string(), span: dummy_span },
        Token::ClosedBracket { span: dummy_span },
    ]);
    assert_eq!(res.len(), 1);
}

#[test]
fn test_missing_exit_code() {
    let dummy_span = Span::new(0, 0, 0);
    let (res, _) = run(vec![
        Token::Exit { span: dummy_span },
        Token::OpenBracket { span: dummy_span },
        Token::ClosedBracket { span: dummy_span },
    ]);
    assert!(res.is_empty());
}

#[test]
fn test_exit_missing_open_bracket() {
    let dummy_span = Span::new(0, 0, 0);
    let (res, stream) = run(vec![
        Token::Exit { span: dummy_span },
        Token::Number { value: 1.to_string(), span: dummy_span },
        Token::ClosedBracket { span: dummy_span },
    ]);
    assert!(res.is_empty());
    assert_eq!(stream.m_logger.errors[0].0, ParserErrorType::ErrExitOpenBracketMissing);
}

#[test]
fn test_exit_missing_closed_bracket() {
    let dummy_span = Span::new(0, 0, 0);
    let (res, stream) = run(vec![
        Token::Exit { span: dummy_span },
        Token::OpenBracket { span: dummy_span },
        Token::Number { value: 1.to_string(), span: dummy_span },
    ]);
    assert!(res.is_empty());
    assert_eq!(stream.m_logger.errors[0].0, ParserErrorType::ErrExitClosedBracketMissing);
}

#[test]
fn test_variable_assignment() {
    let dummy_span = Span::new(0, 0, 0);
    let (res, _) = run(vec![
        Token::ID { name: "x".to_string(), span: dummy_span },
        Token::Equals { span: dummy_span },
        Token::Number { value: 1.to_string(), span: dummy_span },
    ]);
    let exp_stmt = vec![NodeStmt::ID(NodeVariableAssignment {
        variable: Token::ID { name: "x".to_string(), span: dummy_span },
        value: NodeArithmeticExpr::Base(NodeBaseExpr::Num(Token::Number {
            value: 1.to_string(),
            span: dummy_span,
        })),
    })];
    assert_eq!(res, exp_stmt);
}

#[test]
fn test_variable_operation_assignment() {
    let dummy_span = Span::new(0, 0, 0);
    let (res, _) = run(vec![
        Token::ID { name: "x".to_string(), span: dummy_span },
        Token::Equals { span: dummy_span },
        Token::Number { value: 1.to_string(), span: dummy_span },
        Token::Operator(Operator::Plus { span: dummy_span }),
        Token::Number { value: 1.to_string(), span: dummy_span },
    ]);
    let exp_stmt = vec![NodeStmt::ID(NodeVariableAssignment {
        variable: Token::ID { name: "x".to_string(), span: dummy_span },
        value: NodeArithmeticExpr::Operation(NodeArithmeticOperation {
            lhs: NodeOperand::Base(NodeBaseExpr::Num(Token::Number { value: 1.to_string(), span: dummy_span })),
            rhs: NodeOperand::Base(NodeBaseExpr::Num(Token::Number { value: 1.to_string(), span: dummy_span })),
            op: Operator::Plus { span: dummy_span },
            result_type: ResultType::Numeric,
        }),
    })];
    assert_eq!(res, exp_stmt);
}

#[test]
fn test_bad_variable() {
    let dummy_span = Span::new(0, 0, 0);
    let (res, _) = run(vec![
        Token::ID { name: "x".to_string(), span: dummy_span },
        Token::Equals { span: dummy_span },
    ]);
    assert!(res.is_empty());
}

#[test]
fn statement_factory_test_scope() {
    let dummy_span = Span::new(0, 0, 0);
    let (res, _) = run(vec![
        Token::OpenCurlyBracket { span: dummy_span },
        Token::ID { name: "x".to_string(), span: dummy_span },
        Token::Equals { span: dummy_span },
        Token::Number { value: 1.to_string(), span: dummy_span },
        Token::ClosedCurlyBracket { span: dummy_span },
    ]);
    let exp_stmt = vec![NodeStmt::Scope(NodeScope {
        stmts: vec![NodeStmt::ID(NodeVariableAssignment {
            variable: Token::ID { name: "x".to_string(), span: dummy_span },
            value: NodeArithmeticExpr::Base(NodeBaseExpr::Num(Token::Number {
                value: 1.to_string(),
                span: dummy_span,
            })),
        })],
    })];
    assert_eq!(res, exp_stmt);
}

#[test]
fn test_bad_scope() {
    let dummy_span = Span::new(0, 0, 0);
    let (res, stream) = run(vec![
        Token::OpenCurlyBracket { span: dummy_span },
        Token::ID { name: "x".to_string(), span: dummy_span },
        Token::Equals { span: dummy_span },
        Token::Number { value: 1.to_string(), span: dummy_span },
    ]);
    assert!(res.is_empty());
    assert_eq!(
        stream.m_logger.errors,
        vec![(ParserErrorType::ErrScopeClosesCurlyBracketMissing, dummy_span)]
    );
}

#[test]
fn line_with_error_token_is_left_alone() {
    let s = Span::new(0, 0, 0);
    let (res, stream) = run(vec![
        Token::ID { name: "x".to_string(), span: s },
        Token::Equals { span: s },
        Token::Error { span: s },
    ]);
    assert!(res.is_empty());
    assert_eq!(stream.m_index, 0);
    assert!(stream.m_logger.errors.is_empty());
}

fn create_parser(tokens: Vec<Token>) -> Parser {
    Parser::new(tokens, setup_logger())
}

#[test]
fn test_parsing() {
    let dummy_span = Span::new(0, 0, 0);
    let tokens = vec![
        Token::ID { name: "x".to_string(), span: dummy_span },
        Token::Equals { span: dummy_span },
        Token::Number { value: 1.to_string(), span: dummy_span },
        Token::NewLine { span: dummy_span },
        Token::Exit { span: dummy_span },
        Token::OpenBracket { span: dummy_span },
        Token::Number { value: 1.to_string(), span: dummy_span },
        Token::ClosedBracket { span: dummy_span },
    ];
    let mut parser = create_parser(tokens);
    let prog = parser.parse();
    assert!(prog.is_some());
    let node_prog_stmt = prog.unwrap().get_stmts();
    assert!(!node_prog_stmt.is_empty());
    let exp_stmts = vec![
        NodeStmt::ID(NodeVariableAssignment {
            variable: Token::ID { name: "x".to_string(), span: dummy_span },
            value: NodeArithmeticExpr::Base(NodeBaseExpr::Num(Token::Number {
                value: 1.to_string(),
                span: dummy_span,
            })),
        }),
        NodeStmt::Exit(NodeExit {
            expr: NodeArithmeticExpr::Base(NodeBaseExpr::Num(Token::Number {
                value: 1.to_string(),
                span: dummy_span,
            })),
        }),
    ];
    assert_eq!(node_prog_stmt, exp_stmts);
}

#[test]
fn test_wrong_parsing() {
    let dummy_span = Span::new(0, 0, 0);
    let tokens = vec![Token::Error { span: dummy_span }];
    let mut parser = create_parser(tokens);
    assert!(parser.parse().is_none());
    assert_eq!(
        parser.get_logger().errors,
        vec![(ParserErrorType::ErrUnexpectedToken, dummy_span)]
    );
}

fn parse_text(text: &str) -> (Option<Vec<NodeStmt>>, Vec<(ParserErrorType, Span)>) {
    let mut tokenizer = Tokenizer::new();
    tokenizer.tokenize(text);
    let mut parser = Parser::new(tokenizer.get_tokens(), ParserLogger::new("f".to_string(), text.to_string()));
    let prog = parser.parse().map(|p| p.get_stmts());
    (prog, parser.get_logger().errors.clone())
}

#[test]
fn parses_programs_from_text() {
    let (prog, errors) = parse_text("x = 1\n{x = 0\nexit(x)}\nexit(x)");
    assert!(errors.is_empty());
    let stmts = prog.unwrap();
    assert_eq!(stmts.len(), 3);
    match &stmts[1] {
        NodeStmt::Scope(s) => assert_eq!(s.stmts.len(), 2),
        _ => panic!("expected a block"),
    }
    let (prog, _) = parse_text("{x = 1\n{x = 0\nexit(x)}}");
    let stmts = prog.unwrap();
    assert_eq!(stmts.len(), 1);
    assert_eq!(stmts[0].to_string(), "{x = 1{x = 0exit(x)}}");
}

#[test]
fn rejects_malformed_programs() {
    for bad in ["exit(0", "exit0)", "exit (0)", "exita(0)", "exit(0\n)", "x=(", "x=)", "{x=0", "x=0}", "x = a &&", "x = 1 && true"] {
        let (prog, errors) = parse_text(bad);
        assert!(prog.is_none(), "input {:?} should fail", bad);
        assert!(!errors.is_empty());
    }
}

#[test]
fn parses_logical_expressions() {
    let (prog, _) = parse_text("x = true && false");
    assert_eq!(prog.unwrap()[0].to_string(), "x = true && false");
    let (prog, _) = parse_text("x=((3+5)*2 + (12//4))%7+(18//(6-3))*(2**3-4) + 10");
    assert_eq!(prog.unwrap().len(), 1);
}

#[test]
fn print_lines_are_reported_as_unexpected() {
    let (prog, errors) = parse_text("print(1)");
    assert!(prog.is_none());
    assert_eq!(errors.len(), 4);
    assert!(errors.iter().all(|e| e.0 == ParserErrorType::ErrUnexpectedToken));
}

#[test]
fn empty_input_gives_empty_program() {
    let (prog, errors) = parse_text("");
    assert!(errors.is_empty());
    assert!(prog.unwrap().is_empty());
}
