use brs::compiler::generator::Generator;
use brs::compiler::parser::{
    NodeArithmeticExpr, NodeArithmeticOperation, NodeBaseExpr, NodeExit, NodeOperand, NodeProgram,
    NodeScope, NodeStmt, NodeVariableAssignment, ResultType,
};
use brs::compiler::span::Span;
use brs::compiler::tokenizer::{Operator, Token};
use brs::compiler::Compiler;
use brs::utility::{Arch, OS};

const ARCH: Arch = Arch::X86_64;
const TARGET_OS: OS = OS::Linux;

fn new_gen(stmts: Vec<NodeStmt>) -> Generator {
    Generator::new(NodeProgram { stmts }, ARCH, TARGET_OS)
}

fn assert_str_in_out_assembly(gen: &Generator, strs: Vec<&str>) {
    let out = gen.get_out_assembly();
    for s in strs {
        assert!(out.contains(s), "The output doesn't contain \"{}\". The output was: \n{}", s, out)
    }
}

fn get_correct_reg() -> &'static str {
    match ARCH {
        Arch::X86_64 => "rax",
        Arch::AArch64 => "x0",
    }
}

fn get_all_operators() -> Vec<(Operator, String)> {
    let dummy_span = Span::new(0, 0, 0);
    let ops = vec![
        Operator::Plus { span: dummy_span },
        Operator::Minus { span: dummy_span },
        Operator::Multiplication { span: dummy_span },
        Operator::Division { span: dummy_span },
        Operator::Modulus { span: dummy_span },
        Operator::Exponent { span: dummy_span },
        Operator::And { span: dummy_span },
        Operator::Or { span: dummy_span },
        Operator::Xor { span: dummy_span },
        Operator::Not { span: dummy_span },
    ];
    let mut gen = new_gen(vec![]);
    let exp_labels = gen.generate_exponential_labels();
    let exp_instr = ARCH.get_exponentiation_instr(TARGET_OS);
    let exp_instr = exp_instr.replace("{exp_label}", &exp_labels.0);
    let exp_instr = exp_instr.replace("{done_label}", &exp_labels.1);
    let instrs = vec![
        ARCH.get_addition_instr().to_string(),
        ARCH.get_subtraction_instr().to_string(),
        ARCH.get_multiplication_instr().to_string(),
        ARCH.get_division_instr().to_string(),
        ARCH.get_modulo_instr().to_string(),
        exp_instr,
        ARCH.get_and_instr().to_string(),
        ARCH.get_or_instr().to_string(),
        ARCH.get_xor_instr().to_string(),
        ARCH.get_not_instr().to_string(),
    ];
    ops.into_iter().zip(instrs).collect()
}

fn create_operations() -> (Vec<NodeStmt>, Vec<String>) {
    let dummy_span = Span::new(0, 0, 0);
    let expr1 = NodeBaseExpr::Num(Token::Number { value: "1".to_string(), span: dummy_span });
    let expr2 = NodeBaseExpr::Num(Token::Number { value: "2".to_string(), span: dummy_span });
    let expr3 = NodeBaseExpr::Bool(Token::Boolean { value: true, span: dummy_span });
    let expr4 = NodeBaseExpr::Bool(Token::Boolean { value: false, span: dummy_span });
    let mut res_stmts = Vec::new();
    let mut res_exp_out = Vec::new();
    for (op, instr) in get_all_operators() {
        let mut lhs = NodeOperand::Base(expr1.clone());
        let mut rhs = NodeOperand::Base(expr2.clone());
        let mut result_type = ResultType::Numeric;
        let mut comment = format!("1 {} 2", op.to_string());
        match op {
            Operator::And { .. } | Operator::Or { .. } | Operator::Not { .. } | Operator::Xor { .. } => {
                lhs = NodeOperand::Base(expr3.clone());
                rhs = NodeOperand::Base(expr4.clone());
                result_type = ResultType::Boolean;
                comment = format!("true {} false", op.to_string());
            }
            _ => {}
        }
        let operation = NodeArithmeticExpr::Operation(NodeArithmeticOperation { lhs, rhs, op, result_type });
        let var = Token::ID { name: "x".to_string(), span: dummy_span };
        res_stmts.push(NodeStmt::ID(NodeVariableAssignment { variable: var, value: operation }));
        res_exp_out.push(comment);
        res_exp_out.push(instr);
    }
    (res_stmts, res_exp_out)
}

#[test]
fn test_generate_comment() {
    let gen = Generator::new(NodeProgram { stmts: vec![] }, Arch::AArch64, OS::Linux);
    assert_eq!(gen.generate_comment("Test Comment"), "\t// Test Comment\n");
    for (arch, os) in [(Arch::X86_64, OS::Linux), (Arch::X86_64, OS::MacOS), (Arch::AArch64, OS::MacOS)] {
        let gen = Generator::new(NodeProgram { stmts: vec![] }, arch, os);
        assert_eq!(gen.generate_comment("Test Comment"), "\t; Test Comment\n");
    }
}

#[test]
fn test_push_pop() {
    let mut gen = new_gen(Vec::new());
    gen.push(get_correct_reg());
    assert_eq!(gen.m_stack_size, 1);
    gen.pop(get_correct_reg());
    assert_eq!(gen.m_stack_size, 0);
}

#[test]
fn test_generate_exit() {
    let dummy_span = Span::new(0, 0, 0);
    let expr = NodeArithmeticExpr::Base(NodeBaseExpr::Num(Token::Number { value: "42".to_string(), span: dummy_span }));
    let exit_stmt = NodeStmt::Exit(NodeExit { expr });
    let mut gen = new_gen(vec![exit_stmt]);
    gen.generate();
    let should_contain = vec!["Exit call", "Exit Code = 42", ARCH.get_exit_instr(TARGET_OS)];
    assert_str_in_out_assembly(&gen, should_contain);
}

#[test]
fn test_no_exit() {
    let mut gen = new_gen(Vec::new());
    gen.generate();
    let should_contain = vec!["Boiler plate for empty script", ARCH.get_exit_instr(TARGET_OS)];
    assert_str_in_out_assembly(&gen, should_contain);
}

#[test]
fn test_generate_id() {
    let dummy_span = Span::new(0, 0, 0);
    let expr = NodeArithmeticExpr::Base(NodeBaseExpr::Num(Token::Number { value: "42".to_string(), span: dummy_span }));
    let var = Token::ID { name: "x".to_string(), span: dummy_span };
    let id_assignment_stmt = NodeStmt::ID(NodeVariableAssignment { variable: var, value: expr });
    let mut gen = new_gen(vec![id_assignment_stmt]);
    gen.generate();
    let push_reg = get_correct_reg();
    let mov_instr = ARCH.get_mov_number_instr(TARGET_OS, "42");
    let push_instr = match ARCH {
        Arch::X86_64 => format!("\tpush {}\n", push_reg),
        Arch::AArch64 => format!("\tsub sp, sp, #8\n\tstr {}, [sp]\n", push_reg),
    };
    let should_contain = vec!["VarAssignment", mov_instr.as_str(), push_instr.as_str()];
    assert_str_in_out_assembly(&gen, should_contain);
}

#[test]
fn test_generate_scope() {
    let dummy_span = Span::new(0, 0, 0);
    let expr = NodeArithmeticExpr::Base(NodeBaseExpr::Num(Token::Number { value: "42".to_string(), span: dummy_span }));
    let var = Token::ID { name: "x".to_string(), span: dummy_span };
    let id_assignment_stmt = NodeStmt::ID(NodeVariableAssignment { variable: var, value: expr.duplicate() });
    let exit_stmt = NodeStmt::Exit(NodeExit { expr });
    let scope_stmt = NodeStmt::Scope(NodeScope { stmts: vec![id_assignment_stmt, exit_stmt] });
    let mut gen = new_gen(vec![scope_stmt]);
    gen.generate();
    let should_contain = vec!["VarAssignment", "Exit call", "Exit Code = 42", ARCH.get_exit_instr(TARGET_OS)];
    assert_str_in_out_assembly(&gen, should_contain);
}

#[test]
fn test_generate_operation_id() {
    let (stmts, should_contain_strs) = create_operations();
    let should_contain = should_contain_strs.iter().map(|string| string.as_str()).collect();
    let mut gen = new_gen(stmts);
    gen.generate();
    assert_str_in_out_assembly(&gen, should_contain);
}

#[test]
fn test_generate_nested_operation_id() {
    let dummy_span = Span::new(0, 0, 0);
    let expr = Token::Number { value: "42".to_string(), span: dummy_span };
    let var = Token::ID { name: "x".to_string(), span: dummy_span };
    let id_assignment_stmt = NodeStmt::ID(NodeVariableAssignment {
        variable: var.clone(),
        value: NodeArithmeticExpr::Base(NodeBaseExpr::Num(expr.clone())),
    });
    let nested_expr = NodeArithmeticExpr::Operation(NodeArithmeticOperation {
        lhs: NodeOperand::Operation(Box::new(NodeArithmeticOperation {
            lhs: NodeOperand::Base(NodeBaseExpr::Num(expr.clone())),
            rhs: NodeOperand::Base(NodeBaseExpr::ID(var.clone())),
            op: Operator::Plus { span: dummy_span },
            result_type: ResultType::Numeric,
        })),
        rhs: NodeOperand::Base(NodeBaseExpr::Num(expr.clone())),
        op: Operator::Plus { span: dummy_span },
        result_type: ResultType::Numeric,
    });
    let id_second_stmt = NodeStmt::ID(NodeVariableAssignment { variable: var, value: nested_expr });
    let mut gen = new_gen(vec![id_assignment_stmt, id_second_stmt]);
    gen.generate();
    let should_contain = vec!["VarAssignment", "x = (42 + x) + 42"];
    assert_str_in_out_assembly(&gen, should_contain);
}

#[test]
fn test_exp_labels() {
    let mut gen = new_gen(Vec::new());
    assert_eq!(gen.generate_exponential_labels(), ("exponential0".to_string(), "exp_done0".to_string()));
    assert_eq!(gen.m_num_exponentials, 1);
    assert_eq!(gen.generate_exponential_labels(), ("exponential1".to_string(), "exp_done1".to_string()));
    assert_eq!(gen.m_num_exponentials, 2)
}

#[test]
fn test_push() {
    let mut gen = new_gen(Vec::new());
    let reg = get_correct_reg();
    gen.push(reg);
    assert_eq!(gen.m_stack_size, 1);
    gen.push(reg);
    assert_eq!(gen.m_stack_size, 2);
    assert_str_in_out_assembly(&gen, vec![format!("\tpush {reg}\n").as_str()]);
    let mut gen = Generator::new(NodeProgram { stmts: vec![] }, Arch::AArch64, OS::Linux);
    gen.push("x0");
    assert_str_in_out_assembly(&gen, vec!["\tsub sp, sp, #8\n\tstr x0, [sp]\n"]);
}

#[test]
fn popping_writes_the_pop_instruction() {
    let mut gen = new_gen(Vec::new());
    let reg = get_correct_reg();
    gen.push(reg);
    gen.pop(reg);
    assert_eq!(gen.m_stack_size, 0);
    assert_str_in_out_assembly(&gen, vec![format!("\tpop {reg}\n").as_str()]);
    let mut gen = Generator::new(NodeProgram { stmts: vec![] }, Arch::AArch64, OS::MacOS);
    gen.push("x0");
    gen.pop("x0");
    assert_str_in_out_assembly(&gen, vec!["\tldr x0, [sp]\n\tadd sp, sp, #8\n"]);
}

#[test]
fn test_extract_expr() {
    let dummy_span = Span::new(0, 0, 0);
    let num = NodeBaseExpr::Num(Token::Number { value: 1.to_string(), span: dummy_span });
    let bool_base = NodeBaseExpr::Bool(Token::Boolean { value: true, span: dummy_span });
    let var = NodeBaseExpr::ID(Token::ID { name: "x".to_string(), span: dummy_span });
    let operation = NodeArithmeticOperation {
        lhs: NodeOperand::Base(num),
        rhs: NodeOperand::Base(var),
        op: Operator::Plus { span: dummy_span },
        result_type: ResultType::Numeric,
    };
    let extracted_operation = Generator::extract_expr(&NodeOperand::Operation(Box::new(operation.duplicate())));
    assert_eq!(extracted_operation, Some(NodeArithmeticExpr::Operation(operation)));
    let extracted_base = Generator::extract_expr(&NodeOperand::Base(bool_base.clone()));
    assert_eq!(extracted_base, Some(NodeArithmeticExpr::Base(bool_base)));
}

#[test]
fn test_infer_type() {
    let gen = new_gen(Vec::new());
    let dummy_span = Span::new(0, 0, 0);
    let num = NodeBaseExpr::Num(Token::Number { value: 1.to_string(), span: dummy_span });
    let bool_base = NodeBaseExpr::Bool(Token::Boolean { value: true, span: dummy_span });
    let var = NodeBaseExpr::ID(Token::ID { name: "x".to_string(), span: dummy_span });
    assert_eq!(gen.infer_type(&NodeArithmeticExpr::Base(num.clone())), "num");
    assert_eq!(gen.infer_type(&NodeArithmeticExpr::Base(bool_base.clone())), "bool");
    assert_eq!(gen.infer_type(&NodeArithmeticExpr::Base(var.clone())), "unknown");
    let operation = NodeArithmeticExpr::Operation(NodeArithmeticOperation {
        lhs: NodeOperand::Base(num),
        rhs: NodeOperand::Base(var),
        op: Operator::Plus { span: dummy_span },
        result_type: ResultType::Numeric,
    });
    assert_eq!(gen.infer_type(&operation), "num");
}

#[test]
fn test_type_check_logical_operands() {
    let gen = new_gen(Vec::new());
    let dummy_span = Span::new(0, 0, 0);
    let num_base = NodeBaseExpr::Num(Token::Number { value: 1.to_string(), span: dummy_span });
    let bool_base = NodeBaseExpr::Bool(Token::Boolean { value: true, span: dummy_span });
    let var_base = NodeBaseExpr::ID(Token::ID { name: "x".to_string(), span: dummy_span });
    let num = NodeArithmeticExpr::Base(num_base.clone());
    let boolean = NodeArithmeticExpr::Base(bool_base.clone());
    let var = NodeArithmeticExpr::Base(var_base.clone());
    let num_operation = NodeArithmeticExpr::Operation(NodeArithmeticOperation {
        lhs: NodeOperand::Base(num_base),
        rhs: NodeOperand::Base(var_base),
        op: Operator::Plus { span: dummy_span },
        result_type: ResultType::Numeric,
    });
    let bool_operation = NodeArithmeticExpr::Operation(NodeArithmeticOperation {
        lhs: NodeOperand::Base(bool_base.clone()),
        rhs: NodeOperand::Base(bool_base),
        op: Operator::And { span: dummy_span },
        result_type: ResultType::Boolean,
    });
    assert!(gen.type_check_logical_operands(&boolean, &boolean).is_ok());
    assert!(gen.type_check_logical_operands(&bool_operation, &boolean).is_ok());
    for (l, r) in [(&num, &num), (&var, &var), (&var, &num), (&num_operation, &boolean), (&bool_operation, &num)] {
        assert!(gen.type_check_logical_operands(l, r).is_err());
    }
}

#[test]
fn generated_exit_program_exact_text() {
    let s = Span::new(0, 0, 0);
    let exit_stmt = NodeStmt::Exit(NodeExit {
        expr: NodeArithmeticExpr::Base(NodeBaseExpr::Num(Token::Number { value: "3".to_string(), span: s })),
    });
    let mut gen = Generator::new(NodeProgram { stmts: vec![exit_stmt] }, Arch::X86_64, OS::Linux);
    gen.generate();
    assert_eq!(
        gen.get_out_assembly(),
        "global _start\n_start:\n\t; Exit call\n\t; Exit Code = 3\n\tmov rax, 3\n\tpush rax\n\tpop rdi\n\n\tmov rax, 60\n\tmov rdi, 0\n\tsyscall\n\t; Exit end call\n"
    );
}

#[test]
fn empty_program_gets_a_final_exit() {
    let mut gen = Generator::new(NodeProgram { stmts: vec![] }, Arch::AArch64, OS::Linux);
    gen.generate();
    assert_eq!(
        gen.get_out_assembly(),
        ".global _start\n_start:\n\t// Boiler plate for empty script\n\tmov x8, #93\n\tmov x0, #0\n\tsvc #0\n"
    );
}

#[test]
fn exponent_evaluates_exponent_first_and_numbers_its_labels() {
    let s = Span::new(0, 0, 0);
    let n = |v: &str| NodeOperand::Base(NodeBaseExpr::Num(Token::Number { value: v.to_string(), span: s }));
    let op = NodeArithmeticOperation { lhs: n("2"), rhs: n("5"), op: Operator::Exponent { span: s }, result_type: ResultType::Numeric };
    let stmt = NodeStmt::ID(NodeVariableAssignment {
        variable: Token::ID { name: "y".to_string(), span: s },
        value: NodeArithmeticExpr::Operation(op),
    });
    let mut gen = Generator::new(NodeProgram { stmts: vec![stmt] }, Arch::X86_64, OS::Linux);
    gen.generate();
    let out = gen.get_out_assembly();
    let five = out.find("mov rax, 5").unwrap();
    let two = out.find("mov rax, 2").unwrap();
    assert!(five < two);
    assert!(out.contains("\tpop rdx\n\tpop rcx\n\tmov rax, 1\nexponential0:\n\tcmp rcx, 0\n\tje exp_done0\n"));
    assert_eq!(gen.m_num_exponentials, 1);
}

#[test]
fn reading_an_undeclared_variable_cannot_be_generated() {
    let s = Span::new(0, 0, 0);
    let stmt = NodeStmt::Exit(NodeExit {
        expr: NodeArithmeticExpr::Base(NodeBaseExpr::ID(Token::ID { name: "z".to_string(), span: s })),
    });
    let gen = Generator::new(NodeProgram { stmts: vec![stmt] }, Arch::X86_64, OS::Linux);
    assert!(!gen.can_generate());
    let ok = Generator::new(NodeProgram { stmts: vec![] }, Arch::X86_64, OS::Linux);
    assert!(ok.can_generate());
}

#[test]
fn variable_read_after_block_uses_outer_offset() {
    let s = Span::new(0, 0, 0);
    let num = |v: &str| NodeArithmeticExpr::Base(NodeBaseExpr::Num(Token::Number { value: v.to_string(), span: s }));
    let id = |v: &str| Token::ID { name: v.to_string(), span: s };
    let stmts = vec![
        NodeStmt::ID(NodeVariableAssignment { variable: id("x"), value: num("1") }),
        NodeStmt::Scope(NodeScope { stmts: vec![NodeStmt::ID(NodeVariableAssignment { variable: id("x"), value: num("2") })] }),
        NodeStmt::Exit(NodeExit { expr: NodeArithmeticExpr::Base(NodeBaseExpr::ID(id("x"))) }),
    ];
    let mut gen = Generator::new(NodeProgram { stmts }, Arch::X86_64, OS::Linux);
    assert!(gen.can_generate());
    gen.generate();
    assert!(gen.get_out_assembly().contains("Recuperate x's value from stack\n\tmov rax, [rsp + 8]"));
}

#[test]
fn windows_comments_are_empty() {
    let gen = Generator::new(NodeProgram { stmts: vec![] }, Arch::X86_64, OS::Windows);
    assert_eq!(gen.generate_comment("anything"), "");
}

#[test]
fn compiler_compiles_source_text() {
    let mut compiler = Compiler::new(Arch::X86_64, OS::Linux);
    let src = "x = 2\ny = x + 3\nexit(y)";
    assert!(compiler.can_compile("main.brs", src));
    let assembly = compiler.compile("main.brs", src).unwrap();
    assert!(assembly.starts_with("global _start\n_start:\n"));
    assert!(assembly.contains("\t; y = x + 3\n"));
    assert!(assembly.contains("syscall"));
    assert!(compiler.m_errors.is_empty());
}

#[test]
fn compiler_reports_parse_errors() {
    let mut compiler = Compiler::new(Arch::AArch64, OS::MacOS);
    assert!(compiler.compile("bad.brs", "exit(1").is_none());
    assert_eq!(compiler.m_errors.len(), 1);
}

#[test]
fn compiler_refuses_undeclared_variables_up_front() {
    let compiler = Compiler::new(Arch::X86_64, OS::Linux);
    assert!(!compiler.can_compile("f.brs", "exit(q)"));
    assert!(compiler.can_compile("f.brs", "exit(q"));
}

#[test]
fn successful_compilation_of_sample_program() {
    let source_code = "\n    x = ((3+5)*2 + (12//4))%7+(18//(6-3))*(2**3-4) + 10\n    y = true\n    z = true && false\n    {\n        x = 0\n        exit(x)\n    }\n    exit(x)\n    ";
    for arch in [Arch::X86_64, Arch::AArch64] {
        for os in [OS::Linux, OS::MacOS] {
            let mut compiler = Compiler::new(arch, os);
            assert!(compiler.can_compile("t.brs", source_code));
            let assembly = compiler.compile("t.brs", source_code);
            assert!(assembly.is_some(), "errors: {:?}", compiler.m_errors);
            assert!(assembly.unwrap().contains(arch.get_exit_marker()));
        }
    }
}

#[test]
fn compile_rejects_exactly_the_malformed_inputs() {
    let bad = ["exit(0", "exit0)", "exit (0)", "exita(0)", "1x=0", "x=(", "x=1.0", "{x=0", "x=0}", "x = a &&", "x = !!", "x = 1 && true"];
    for src in bad {
        let mut compiler = Compiler::new(Arch::X86_64, OS::Linux);
        assert!(compiler.compile("f.brs", src).is_none(), "input {:?}", src);
        assert!(!compiler.m_errors.is_empty());
    }
    let good = ["", "exit(0)", "x = true && false", "x = 1\n{x = 0\nexit(x)}\nexit(x)"];
    for arch in [Arch::X86_64, Arch::AArch64] {
        for src in good {
            let mut compiler = Compiler::new(arch, OS::Linux);
            let assembly = compiler.compile("f.brs", src).expect("should compile");
            assert!(assembly.starts_with(arch.get_program_header()));
            assert!(assembly.contains(arch.get_exit_marker()));
            assert!(compiler.m_errors.is_empty());
        }
    }
}
