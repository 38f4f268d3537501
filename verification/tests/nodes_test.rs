use brs::compiler::parser::{
    NodeArithmeticExpr, NodeArithmeticOperation, NodeBaseExpr, NodeExit, NodeOperand, NodePrint,
    NodeProgram, NodeScope, NodeStmt, NodeVariableAssignment, ResultType,
};
use brs::compiler::span::Span;
use brs::compiler::tokenizer::{Operator, Token};

#[test]
fn test_formatting_result_type() {
    assert_eq!(ResultType::Numeric.as_str(), "num");
    assert_eq!(ResultType::Boolean.as_str(), "bool")
}

#[test]
fn test_formatting_node_arithmetic_expr_base() {
    let dummy_span = Span::new(0, 0, 0);
    let num_token = Token::Number { value: "5".to_string(), span: dummy_span };
    let base_expr = NodeBaseExpr::Num(num_token.clone());
    assert_eq!(base_expr.to_string(), "5");

    let id_token = Token::ID { name: "x".to_string(), span: dummy_span };
    let base_expr = NodeBaseExpr::ID(id_token);
    assert_eq!(base_expr.to_string(), "x");

    let bool_token = Token::Boolean { value: true, span: dummy_span };
    let base_expr = NodeBaseExpr::Bool(bool_token);
    assert_eq!(base_expr.to_string(), "true");
}

#[test]
fn test_formatting_node_arithmetic_expr_operation() {
    let dummy_span = Span::new(0, 0, 0);
    let base_expr_1 = NodeBaseExpr::Num(Token::Number { value: "5".to_string(), span: dummy_span });
    let base_expr_2 = NodeBaseExpr::Num(Token::Number { value: "3".to_string(), span: dummy_span });
    let operation = NodeArithmeticOperation {
        lhs: NodeOperand::Base(base_expr_1.clone()),
        rhs: NodeOperand::Base(base_expr_2.clone()),
        op: Operator::Plus { span: dummy_span },
        result_type: ResultType::Numeric,
    };
    assert_eq!(operation.to_string(), "5 + 3");
}

#[test]
fn test_formatting_node_exit() {
    let dummy_span = Span::new(0, 0, 0);
    let base_expr = NodeBaseExpr::Num(Token::Number { value: "10".to_string(), span: dummy_span });
    let exit_node = NodeExit { expr: NodeArithmeticExpr::Base(base_expr) };
    assert_eq!(NodeStmt::Exit(exit_node).to_string(), "exit(10)");
}

#[test]
fn test_formatting_node_variable_assignment() {
    let dummy_span = Span::new(0, 0, 0);
    let var_token = Token::ID { name: "x".to_string(), span: dummy_span };
    let base_expr = NodeBaseExpr::Num(Token::Number { value: "1".to_string(), span: dummy_span });
    let var_assign = NodeVariableAssignment {
        variable: var_token,
        value: NodeArithmeticExpr::Base(base_expr.clone()),
    };
    assert_eq!(var_assign.to_string(), "x = 1");

    let wrong_var_token = Token::NewLine { span: dummy_span };
    let invalid_var_assign = NodeVariableAssignment {
        variable: wrong_var_token,
        value: NodeArithmeticExpr::Base(base_expr),
    };
    assert_eq!(invalid_var_assign.to_string(), "Invalid variable token");
}

#[test]
fn test_formatting_node_stmt_scope() {
    let dummy_span = Span::new(0, 0, 0);
    let base_expr = NodeBaseExpr::Num(Token::Number { value: "1".to_string(), span: dummy_span });
    let var_token = Token::ID { name: "x".to_string(), span: dummy_span };
    let var_assign = NodeVariableAssignment { variable: var_token, value: NodeArithmeticExpr::Base(base_expr) };
    let scope_stmt = NodeStmt::Scope(NodeScope { stmts: vec![NodeStmt::ID(var_assign)] });
    assert_eq!(scope_stmt.to_string(), "{x = 1}");
}

#[test]
fn test_bad_node_base_expr() {
    let dummy_span = Span::new(0, 0, 0);
    let bad_base_expr = NodeBaseExpr::Num(Token::Error { span: dummy_span });
    assert_eq!(bad_base_expr.to_string(), "Invalid base expression")
}

#[test]
fn test_formatting_node_arithmetic_expr_operation_with_nested_expr() {
    let dummy_span = Span::new(0, 0, 0);
    let base_expr_1 = NodeBaseExpr::Num(Token::Number { value: "5".to_string(), span: dummy_span });
    let base_expr_2 = NodeBaseExpr::Num(Token::Number { value: "3".to_string(), span: dummy_span });
    let operation_1 = NodeArithmeticOperation {
        lhs: NodeOperand::Base(base_expr_1.clone()),
        rhs: NodeOperand::Base(base_expr_2.clone()),
        op: Operator::Plus { span: dummy_span },
        result_type: ResultType::Numeric,
    };
    let operation_2 = NodeArithmeticOperation {
        lhs: NodeOperand::Operation(Box::new(operation_1.duplicate())),
        rhs: NodeOperand::Operation(Box::new(operation_1.duplicate())),
        op: Operator::Multiplication { span: dummy_span },
        result_type: ResultType::Numeric,
    };
    assert_eq!(NodeArithmeticExpr::Operation(operation_2).to_string(), "(5 + 3) * (5 + 3)");
}

#[test]
fn test_formatting_node_program() {
    let dummy_span = Span::new(0, 0, 0);
    let base_expr = NodeBaseExpr::Num(Token::Number { value: "5".to_string(), span: dummy_span });
    let var_token = Token::ID { name: "x".to_string(), span: dummy_span };
    let var_assign = NodeVariableAssignment { variable: var_token, value: NodeArithmeticExpr::Base(base_expr) };
    let stmt = NodeStmt::ID(var_assign);
    let program = NodeProgram { stmts: vec![stmt.duplicate(), stmt] };
    assert_eq!(program.to_string(), "x = 5\nx = 5");
}

#[test]
fn print_statement_formatting() {
    let dummy_span = Span::new(0, 0, 0);
    let base_expr = NodeBaseExpr::Bool(Token::Boolean { value: false, span: dummy_span });
    let stmt = NodeStmt::Print(NodePrint { expr: NodeArithmeticExpr::Base(base_expr) });
    assert_eq!(stmt.to_string(), "print(false)");
}

#[test]
fn get_stmts_copies_the_statements() {
    let dummy_span = Span::new(0, 0, 0);
    let base_expr = NodeBaseExpr::Num(Token::Number { value: "7".to_string(), span: dummy_span });
    let stmt = NodeStmt::Exit(NodeExit { expr: NodeArithmeticExpr::Base(base_expr) });
    let program = NodeProgram { stmts: vec![stmt.duplicate()] };
    assert_eq!(program.get_stmts(), vec![stmt]);
}

#[test]
fn empty_program_formats_as_empty_text() {
    assert_eq!(NodeProgram { stmts: vec![] }.to_string(), "");
}
