use brs::compiler::span::Span;
use brs::compiler::tokenizer::{Operator, Token, Tokenizer};

#[test]
fn tokenizer_test_empty_input() {
            let mut tokenizer = Tokenizer::new();
            tokenizer.tokenize("");
            assert!(tokenizer.get_tokens().is_empty());
}

#[test]
fn tokenizer_test_exit_input() {
            let mut tokenizer = Tokenizer::new();
            tokenizer.tokenize("exit(0)");

            let expected_token = vec!(
                Token::Exit { span: Span::new(0, 0, 3) },
                Token::OpenBracket { span: Span::new(0, 4, 4) },
                Token::Number { value: "0".to_string(), span: Span::new(0, 5, 5) },
                Token::ClosedBracket { span: Span::new(0, 6, 6) }
            );
            assert_eq!(tokenizer.get_tokens(), expected_token);
}

#[test]
fn test_print() {
            let mut tokenizer = Tokenizer::new();
            tokenizer.tokenize("print(0)");
            
            let expected_token = vec!(
                Token::Print { span: Span::new(0, 0, 4) },
                Token::OpenBracket { span: Span::new(0, 5, 5) },
                Token::Number { value: "0".to_string(), span: Span::new(0, 6, 6) },
                Token::ClosedBracket { span: Span::new(0, 7, 7) }
            );
            assert_eq!(tokenizer.get_tokens(), expected_token);
}

#[test]
fn tokenizer_test_multiple_whitespaces_input() {
            let mut tokenizer = Tokenizer::new();
            tokenizer.tokenize("x       =     0  ");

            let expected_token = vec!(
                Token::ID { name: "x".to_string(), span: Span::new(0, 0, 0) },
                Token::WhiteSpace { span: Span::new(0, 1, 7) },
                Token::Equals {span: Span::new(0, 8, 8)},
                Token::WhiteSpace { span: Span::new(0, 9, 13) },
                Token::Number { value: "0".to_string(), span: Span::new(0, 14, 14) },
                Token::WhiteSpace { span: Span::new(0, 15, 16) }
            );
            assert_eq!(tokenizer.get_tokens(), expected_token);
}

#[test]
fn tokenizer_test_variable_with_numbers() {
            let mut tokenizer = Tokenizer::new();
            tokenizer.tokenize("x1=0");
            let expected_token = vec!(
                Token::ID { name: "x1".to_string(), span: Span::new(0, 0, 1) },
                Token::Equals {span : Span::new(0, 2, 2)},
                Token::Number { value: "0".to_string(), span: Span::new(0, 3, 3) },
            );
            assert_eq!(tokenizer.get_tokens(), expected_token);
}

#[test]
fn tokenizer_test_multiline_input() {
            let mut tokenizer = Tokenizer::new();
            tokenizer.tokenize("x = 0\nexit(x)\n{}\nprint(1)");

            let expected_token = vec!(
                Token::ID{ name: "x".to_string(), span: Span::new(0, 0, 0) },
                Token::WhiteSpace { span: Span::new(0, 1, 1)},
                Token::Equals {span : Span::new(0, 2, 2)},
                Token::WhiteSpace { span: Span::new(0, 3, 3)},
                Token::Number { value: "0".to_string(), span: Span::new(0, 4, 4) },
                Token::NewLine { span: Span::new(0, 5, 5)},
                Token::Exit { span: Span::new(1, 0, 3) },
                Token::OpenBracket { span: Span::new(1, 4, 4)},
                Token::ID { name: "x".to_string(), span: Span::new(1, 5, 5) },
                Token::ClosedBracket { span: Span::new(1, 6, 6) },
                Token::NewLine { span: Span::new(1, 7, 7)},
                Token::OpenCurlyBracket { span: Span::new(2, 0, 0)},
                Token::ClosedCurlyBracket { span: Span::new(2, 1, 1)},
                Token::NewLine { span: Span::new(2, 2, 2)},
                Token::Print { span: Span::new(3, 0, 4) },
                Token::OpenBracket { span: Span::new(3, 5, 5) },
                Token::Number { value: "1".to_string(), span: Span::new(3, 6, 6) },
                Token::ClosedBracket { span: Span::new(3, 7, 7) }
            );
            assert_eq!(tokenizer.get_tokens(), expected_token);
}

#[test]
fn tokenizer_test_wrong_input() {
            let mut tokenizer = Tokenizer::new();
            tokenizer.tokenize("1x = 0");
            let expected_token = vec!(
                Token::Error {span: Span::new(0, 0, 1) },
                Token::WhiteSpace { span: Span::new(0, 2, 2)},
                Token::Equals {span : Span::new(0, 3, 3)},
                Token::WhiteSpace { span: Span::new(0, 4, 4)},
                Token::Number { value: "0".to_string(), span: Span::new(0, 5, 5) }
            );
            assert_eq!(tokenizer.get_tokens(), expected_token);
}

#[test]
fn test_undefined_char() {
            let mut tokenizer = Tokenizer::new();
            tokenizer.tokenize("~∞");
            let expected_token = vec!(
                Token::Error {span: Span::new(0, 0, 1) }
            );
            assert_eq!(tokenizer.get_tokens(), expected_token);
            
            let mut tokenizer = Tokenizer::new();
            tokenizer.tokenize("~∞\n");
            let expected_token = vec!(
                Token::Error {span: Span::new(0, 0, 1) },
                Token::NewLine {span: Span::new(0, 2, 2)}
            );
            assert_eq!(tokenizer.get_tokens(), expected_token);
}

#[test]
fn tokenizer_test_operators() {
            let mut tokenizer = Tokenizer::new();
            tokenizer.tokenize("(+-*//**%)");

            let expected_token = vec!(
                Token::Operator(Operator::OpenBracket {span: Span::new(0, 0, 0)}),
                Token::Operator(Operator::Plus {span: Span::new(0, 1, 1)}),
                Token::Operator(Operator::Minus {span: Span::new(0, 2, 2)}),
                Token::Operator(Operator::Multiplication {span: Span::new(0, 3, 3)}),
                Token::Operator(Operator::Division {span: Span::new(0, 4, 5)}),
                Token::Operator(Operator::Exponent {span: Span::new(0, 6, 7)}),
                Token::Operator(Operator::Modulus {span: Span::new(0, 8, 8)}),
                Token::Operator(Operator::ClosedBracket {span: Span::new(0, 9, 9)})
            );
            assert_eq!(tokenizer.get_tokens(), expected_token);

            tokenizer.tokenize("*** * ** ** *");
            let expected_token = vec!(
                Token::Operator(Operator::Exponent {span: Span::new(0, 0, 1)}),
                Token::Operator(Operator::Multiplication {span: Span::new(0, 2, 2)}),
                Token::WhiteSpace { span: Span::new(0, 3, 3) },
                Token::Operator(Operator::Multiplication {span: Span::new(0, 4, 4)}),
                Token::WhiteSpace { span: Span::new(0, 5, 5) },
                Token::Operator(Operator::Exponent {span: Span::new(0, 6, 7)}),
                Token::WhiteSpace { span: Span::new(0, 8, 8) },
                Token::Operator(Operator::Exponent {span: Span::new(0, 9, 10)}),
                Token::WhiteSpace { span: Span::new(0, 11, 11) },
                Token::Operator(Operator::Multiplication {span: Span::new(0, 12, 12)}),
            );
            assert_eq!(tokenizer.get_tokens(), expected_token);
}

#[test]
fn tokenizer_test_logical_operators() {
            let mut tokenizer = Tokenizer::new();
            tokenizer.tokenize("&&||!!^|");

            let expected_tokens = vec![
                Token::Operator(Operator::And { span: Span::new(0, 0, 1) }),
                Token::Operator(Operator::Or  { span: Span::new(0, 2, 3) }),
                Token::Operator(Operator::Not { span: Span::new(0, 4, 5) }),
                Token::Operator(Operator::Xor { span: Span::new(0, 6, 7) }),
            ];
            assert_eq!(tokenizer.get_tokens(), expected_tokens);
}

#[test]
fn tokenizer_test_logical_operators_with_spacing() {
            let mut tokenizer = Tokenizer::new();
            tokenizer.tokenize("x && y || !! z ^| w");

            let expected_tokens = vec![
                Token::ID { name: "x".to_string(), span: Span::new(0, 0, 0) },
                Token::WhiteSpace { span: Span::new(0, 1, 1) },
                Token::Operator(Operator::And { span: Span::new(0, 2, 3) }),
                Token::WhiteSpace { span: Span::new(0, 4, 4) },
                Token::ID { name: "y".to_string(), span: Span::new(0, 5, 5) },
                Token::WhiteSpace { span: Span::new(0, 6, 6) },
                Token::Operator(Operator::Or { span: Span::new(0, 7, 8) }),
                Token::WhiteSpace { span: Span::new(0, 9, 9) },
                Token::Operator(Operator::Not { span: Span::new(0, 10, 11) }),
                Token::WhiteSpace { span: Span::new(0, 12, 12) },
                Token::ID { name: "z".to_string(), span: Span::new(0, 13, 13) },
                Token::WhiteSpace { span: Span::new(0, 14, 14) },
                Token::Operator(Operator::Xor { span: Span::new(0, 15, 16) }),
                Token::WhiteSpace { span: Span::new(0, 17, 17) },
                Token::ID { name: "w".to_string(), span: Span::new(0, 18, 18) },
            ];
            assert_eq!(tokenizer.get_tokens(), expected_tokens);
}

#[test]
fn tokenizer_test_boolean_tokens() {
            let mut tokenizer = Tokenizer::new();
            tokenizer.tokenize("true false");

            let expected_tokens = vec![
                Token::Boolean { value: true, span: Span::new(0, 0, 3) },
                Token::WhiteSpace { span: Span::new(0, 4, 4) },
                Token::Boolean { value: false, span: Span::new(0, 5, 9) },
            ];
            assert_eq!(tokenizer.get_tokens(), expected_tokens);
}

#[test]
fn tokenizer_test_logical_operators_multiline() {
            let mut tokenizer = Tokenizer::new();
            tokenizer.tokenize("x && y\n|| !! z\n^| w");

            let expected_tokens = vec![
                Token::ID { name: "x".to_string(), span: Span::new(0, 0, 0) },
                Token::WhiteSpace { span: Span::new(0, 1, 1) },
                Token::Operator(Operator::And { span: Span::new(0, 2, 3) }),
                Token::WhiteSpace { span: Span::new(0, 4, 4) },
                Token::ID { name: "y".to_string(), span: Span::new(0, 5, 5) },
                Token::NewLine { span: Span::new(0, 6, 6) },
                Token::Operator(Operator::Or { span: Span::new(1, 0, 1) }),
                Token::WhiteSpace { span: Span::new(1, 2, 2) },
                Token::Operator(Operator::Not { span: Span::new(1, 3, 4) }),
                Token::WhiteSpace { span: Span::new(1, 5, 5) },
                Token::ID { name: "z".to_string(), span: Span::new(1, 6, 6) },
                Token::NewLine { span: Span::new(1, 7, 7) },
                Token::Operator(Operator::Xor { span: Span::new(2, 0, 1) }),
                Token::WhiteSpace { span: Span::new(2, 2, 2) },
                Token::ID { name: "w".to_string(), span: Span::new(2, 3, 3) },
            ];

            assert_eq!(tokenizer.get_tokens(), expected_tokens);
}
#[test]
fn tokenizer_test_get_span() {
    let mut temp_tokenizer = Tokenizer::new();
    let exp_span = Span::new(0, 0, 0);
    let res_span = temp_tokenizer.get_span(1);
    assert_eq!(exp_span, res_span);
    assert_eq!(temp_tokenizer.m_row, 0);

    let exp_span = Span::new(0, 0, 1);
    let res_span = temp_tokenizer.get_span(2);
    assert_eq!(exp_span, res_span);
    assert_eq!(temp_tokenizer.m_row, 1)
}

#[test]
fn test_clear() {
    let mut temp_tokenizer = Tokenizer::new();
    let temp_span = Span::new(0, 0, 0);
    temp_tokenizer.m_tokens = vec![Token::NewLine { span: temp_span }];
    temp_tokenizer.m_line = 42;
    temp_tokenizer.m_row = 42;

    temp_tokenizer.clear();
    assert!(temp_tokenizer.m_tokens.is_empty());
    assert_eq!(temp_tokenizer.m_line, 0);
    assert_eq!(temp_tokenizer.m_row, 0);
}

#[test]
fn test_match_ch() {
    let mut temp_tokenizer = Tokenizer::new();
    assert_eq!(temp_tokenizer.match_ch(' ', None), Some(Token::WhiteSpace { span: Span::new(0, 0, 0) }));
}

#[test]
fn test_get_id() {
    let mut temp_tokenizer = Tokenizer::new();
    assert!(temp_tokenizer.get_id(&Vec::new(), None).is_none());
}

#[test]
fn test_get_error() {
    let mut temp_tokenizer = Tokenizer::new();
    assert!(temp_tokenizer.get_error(&Vec::new(), None).is_none());
}

#[test]
fn carriage_returns_are_dropped() {
    let mut tokenizer = Tokenizer::new();
    tokenizer.tokenize("x=1\r\ny=2");
    let mut plain = Tokenizer::new();
    plain.tokenize("x=1\ny=2");
    assert_eq!(tokenizer.get_tokens(), plain.get_tokens());
}

#[test]
fn tokenizing_again_replaces_earlier_tokens() {
    let mut tokenizer = Tokenizer::new();
    tokenizer.tokenize("exit(0)\nexit(1)");
    tokenizer.tokenize("y");
    assert_eq!(tokenizer.get_tokens(), vec![Token::ID { name: "y".to_string(), span: Span::new(0, 0, 0) }]);
}

#[test]
fn exit_brackets_inside_a_call_are_operators() {
    let mut tokenizer = Tokenizer::new();
    tokenizer.tokenize("exit((1))");
    assert_eq!(
        tokenizer.get_tokens(),
        vec![
            Token::Exit { span: Span::new(0, 0, 3) },
            Token::OpenBracket { span: Span::new(0, 4, 4) },
            Token::Operator(Operator::OpenBracket { span: Span::new(0, 5, 5) }),
            Token::Number { value: "1".to_string(), span: Span::new(0, 6, 6) },
            Token::Operator(Operator::ClosedBracket { span: Span::new(0, 7, 7) }),
            Token::ClosedBracket { span: Span::new(0, 8, 8) },
        ]
    );
}

#[test]
fn identifier_starting_with_keyword_stays_whole() {
    let mut tokenizer = Tokenizer::new();
    tokenizer.tokenize("exita");
    assert_eq!(
        tokenizer.get_tokens(),
        vec![Token::ID { name: "exita".to_string(), span: Span::new(0, 0, 4) }]
    );
    for word in ["exit0", "printer", "trueish", "falsey2"] {
        let mut tokenizer = Tokenizer::new();
        tokenizer.tokenize(word);
        assert_eq!(
            tokenizer.get_tokens(),
            vec![Token::ID { name: word.to_string(), span: Span::new(0, 0, word.len() - 1) }]
        );
    }
    let mut tokenizer = Tokenizer::new();
    tokenizer.tokenize("x = true");
    assert_eq!(
        tokenizer.get_tokens()[4],
        Token::Boolean { value: true, span: Span::new(0, 4, 7) }
    );
}

#[test]
fn letters_and_digits_are_ascii() {
    let mut tokenizer = Tokenizer::new();
    tokenizer.tokenize("\u{e9}");
    assert_eq!(tokenizer.get_tokens(), vec![Token::Error { span: Span::new(0, 0, 0) }]);
    let mut tokenizer = Tokenizer::new();
    tokenizer.tokenize("x\u{e9}");
    assert!(!tokenizer.get_tokens().iter().any(|t| matches!(t, Token::ID { name, .. } if name.contains('\u{e9}'))));
    let mut tokenizer = Tokenizer::new();
    tokenizer.tokenize("\u{663}");
    assert_eq!(tokenizer.get_tokens(), vec![Token::Error { span: Span::new(0, 0, 0) }]);
}

#[test]
fn one_newline_token_per_line_break() {
    let mut tokenizer = Tokenizer::new();
    let input = "x = 1\n\ny=x+2\r\nexit(y)\n";
    tokenizer.tokenize(input);
    let tokens = tokenizer.get_tokens();
    let newlines = tokens.iter().filter(|t| matches!(t, Token::NewLine { .. })).count();
    assert_eq!(newlines, input.matches('\n').count());
    let mut line = 0;
    for t in &tokens {
        let span = t.get_span();
        assert!(span.m_start <= span.m_end);
        assert_eq!(span.m_line, line);
        if matches!(t, Token::NewLine { .. }) {
            line += 1;
        }
    }
}

#[test]
fn any_identifier_word_is_one_token() {
    for word in ["a", "Z9", "exitx", "prints", "true1", "falseX", "abc123def"] {
        let mut tokenizer = Tokenizer::new();
        tokenizer.tokenize(word);
        assert_eq!(
            tokenizer.get_tokens(),
            vec![Token::ID { name: word.to_string(), span: Span::new(0, 0, word.len() - 1) }]
        );
    }
}
