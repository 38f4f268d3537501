use brs::compiler::span::Span;
use brs::compiler::tokenizer::Operator;

fn all_operators(span: Span) -> Vec<Operator> {
    vec![
        Operator::Plus { span },
        Operator::Minus { span },
        Operator::Multiplication { span },
        Operator::Division { span },
        Operator::Exponent { span },
        Operator::Modulus { span },
        Operator::And { span },
        Operator::Or { span },
        Operator::Xor { span },
        Operator::Not { span },
        Operator::OpenBracket { span },
        Operator::ClosedBracket { span },
    ]
}

fn expected_precedence() -> Vec<usize> {
    vec![0, 0, 1, 1, 2, 1, 0, 0, 0, 3, 2, 2]
}

fn expected_format() -> Vec<&'static str> {
    vec!["+", "-", "*", "/", "^", "%", "&&", "||", "^|", "!!", "(", ")"]
}

#[test]
fn operator_test_precedence() {
    let dummy_span = Span::new(0, 0, 0);
    for (op, exp_precedence) in all_operators(dummy_span).into_iter().zip(expected_precedence()) {
        assert_eq!(op.precedence(), exp_precedence);
    }
}

#[test]
fn operator_test_associativity() {
    let dummy_span = Span::new(0, 0, 0);
    for op in all_operators(dummy_span) {
        let exp_associativity =
            if matches!(op, Operator::Exponent { .. } | Operator::Not { .. }) { "Right" } else { "Left" };
        assert_eq!(op.associativity(), exp_associativity);
    }
}

#[test]
fn operator_test_get_span() {
    let dummy_span = Span::new(0, 0, 0);
    for op in all_operators(dummy_span) {
        assert_eq!(op.get_span(), dummy_span);
    }
}

#[test]
fn operator_test_formatting() {
    let dummy_span = Span::new(0, 0, 0);
    for (op, exp_format) in all_operators(dummy_span).into_iter().zip(expected_format()) {
        assert_eq!(op.to_string(), exp_format);
    }
}

#[test]
fn operator_span_is_kept() {
    let span = Span::new(3, 4, 5);
    for op in all_operators(span) {
        assert_eq!(op.get_span(), Span::new(3, 4, 5));
    }
}
