use vstd::prelude::*;
use crate::compiler::generator::architecture::{
    exit_instr_text, exit_marker_text, exit_reg_text, load_variable_text, mov_boolean_text,
    mov_number_text, program_header_text,
};
use crate::compiler::generator::arithmetic_instructions::{
    arithmetic_table, lemma_lookup_at, lookup, operation_view, ArithmeticInstructions, OperationView,
};
use crate::compiler::generator::stack_handler::{
    after_add, after_decrease, after_increase, declared, offset_of, stack_wf, variable_view,
    StackHandler, StackView, Variable,
};
use crate::compiler::generator::subroutines::subroutines::join;
use crate::compiler::parser::nodes::{
    assignment_text, expr_text, lemma_stmts_view_index, lemma_stmts_view_len, stmt_view,
    stmts_view, NodeArithmeticExpr, NodeArithmeticOperation, NodeBaseExpr, NodeExit, NodeOperand,
    NodeProgram, NodeScope, NodeStmt, NodeVariableAssignment, ResultType, StmtView,
};
use crate::compiler::parser::expression_factory::expression_factory::{
    base_well_formed, is_boolean_expr, operand_well_typed, operation_well_typed, well_typed,
};
use crate::compiler::parser::statement_factory::expr_of_operand;
use crate::compiler::span::Span;
use crate::compiler::tokenizer::{Operator, Token};
use crate::utility::text::{contains, contains_seq, decimal, push_decimal, replace, replace_all, str_to_string};
use crate::utility::{Arch, OS};

verus! {

/// Turns a parsed program into assembly text for a target system.
pub struct Generator {
    pub m_prog: NodeProgram,
    pub m_output: String,
    pub m_stack: StackHandler,
    pub m_stack_size: usize,
    pub m_num_exponentials: usize,
    pub m_arch: Arch,
    pub m_os: OS,
}

/// What generation has produced so far: the text, the variables on the
/// stack, the number of values pushed and not yet popped, and the number of
/// exponentiation loops emitted.
pub struct GenState {
    pub out: Seq<char>,
    pub stack: StackView,
    pub pushes: nat,
    pub exps: nat,
}

/// The register that holds the value of an expression.
pub open spec fn acc_reg(arch: Arch) -> Seq<char> {
    match arch {
        Arch::X86_64 => "rax"@,
        Arch::AArch64 => "x0"@,
    }
}

/// A comment line: `//` on AArch64 Linux, `;` on the other Linux and macOS
/// targets, nothing on Windows.
pub open spec fn gen_comment_text(arch: Arch, os: OS, comment: Seq<char>) -> Seq<char> {
    if os == OS::Windows {
        Seq::empty()
    } else if arch == Arch::AArch64 && os == OS::Linux {
        "\t// "@ + comment + "\n"@
    } else {
        "\t; "@ + comment + "\n"@
    }
}

pub open spec fn stack_push_text(arch: Arch, reg: Seq<char>) -> Seq<char> {
    match arch {
        Arch::X86_64 => "\tpush "@ + reg + "\n"@,
        Arch::AArch64 => "\tsub sp, sp, #8\n\tstr "@ + reg + ", [sp]\n"@,
    }
}

pub open spec fn stack_pop_text(arch: Arch, reg: Seq<char>) -> Seq<char> {
    match arch {
        Arch::X86_64 => "\tpop "@ + reg + "\n"@,
        Arch::AArch64 => "\tldr "@ + reg + ", [sp]\n\tadd sp, sp, #8\n"@,
    }
}

pub open spec fn emit(g: GenState, text: Seq<char>) -> GenState {
    GenState { out: g.out + text, ..g }
}

/// Pushes `reg`; `None` when the count of pushed values would overflow.
pub open spec fn gen_push(arch: Arch, g: GenState, reg: Seq<char>) -> Option<GenState> {
    if g.pushes + 1 > usize::MAX {
        None
    } else {
        Some(GenState { out: g.out + stack_push_text(arch, reg), pushes: g.pushes + 1, ..g })
    }
}

/// Pops into `reg`; `None` when nothing is pushed.
pub open spec fn gen_pop(arch: Arch, g: GenState, reg: Seq<char>) -> Option<GenState> {
    if g.pushes == 0 {
        None
    } else {
        Some(GenState { out: g.out + stack_pop_text(arch, reg), pushes: (g.pushes - 1) as nat, ..g })
    }
}

/// `"bool"`, `"num"`, or `"unknown"` for a variable.
pub open spec fn infer_type_text(e: NodeArithmeticExpr) -> Seq<char> {
    match e {
        NodeArithmeticExpr::Base(NodeBaseExpr::Bool(_)) => "bool"@,
        NodeArithmeticExpr::Base(NodeBaseExpr::Num(_)) => "num"@,
        NodeArithmeticExpr::Base(NodeBaseExpr::ID(_)) => "unknown"@,
        NodeArithmeticExpr::Operation(o) => o.result_type.text(),
    }
}

/// Loads a base expression and pushes it; `None` for a variable that is not
/// on the stack. A token of the wrong kind gives no code.
pub open spec fn gen_base(arch: Arch, os: OS, g: GenState, b: NodeBaseExpr) -> Option<GenState> {
    match b {
        NodeBaseExpr::Num(Token::Number { value, .. }) => gen_push(
            arch,
            emit(g, "\t"@ + mov_number_text(arch, os, value@) + "\n"@),
            acc_reg(arch),
        ),
        NodeBaseExpr::ID(Token::ID { name, .. }) => if declared(g.stack.vars, name@) {
            gen_push(
                arch,
                emit(
                    g,
                    gen_comment_text(
                        arch,
                        os,
                        "Recuperate "@ + name@ + "'s value from stack\n\t"@ + load_variable_text(
                            arch,
                            offset_of(g.stack, name@) as nat,
                        ),
                    ),
                ),
                acc_reg(arch),
            )
        } else {
            None
        },
        NodeBaseExpr::Bool(Token::Boolean { value, .. }) => gen_push(
            arch,
            emit(g, "\t"@ + mov_boolean_text(arch, value) + "\n"@),
            acc_reg(arch),
        ),
        _ => Some(g),
    }
}

/// The name under which the instructions of an operator are stored.
pub open spec fn op_name(op: Operator) -> Seq<char> {
    match op {
        Operator::Plus { .. } => "Addition"@,
        Operator::Minus { .. } => "Subtraction"@,
        Operator::Multiplication { .. } => "Multiplication"@,
        Operator::Division { .. } => "Division"@,
        Operator::Exponent { .. } => "Exponentiation"@,
        Operator::Modulus { .. } => "Modulo"@,
        Operator::And { .. } => "And"@,
        Operator::Or { .. } => "Or"@,
        Operator::Xor { .. } => "Xor"@,
        Operator::Not { .. } => "Not"@,
        _ => Seq::empty(),
    }
}

/// The registers and instructions of an operator.
pub open spec fn op_data(arch: Arch, os: OS, op: Operator) -> OperationView {
    let t = arithmetic_table(arch, os);
    match op {
        Operator::Plus { .. } => t[0].1,
        Operator::Minus { .. } => t[1].1,
        Operator::Multiplication { .. } => t[2].1,
        Operator::Division { .. } => t[3].1,
        Operator::Exponent { .. } => t[4].1,
        Operator::Modulus { .. } => t[5].1,
        Operator::And { .. } => t[6].1,
        Operator::Or { .. } => t[7].1,
        Operator::Xor { .. } => t[8].1,
        _ => t[9].1,
    }
}

/// The labels of the `n`-th exponentiation loop.
pub open spec fn exp_labels(n: nat) -> (Seq<char>, Seq<char>) {
    ("exponential"@ + decimal(n), "exp_done"@ + decimal(n))
}

/// The instruction lines, indented, each placeholder label replaced.
pub open spec fn instruction_text(lines: Seq<Seq<char>>, labels: Option<(Seq<char>, Seq<char>)>) -> Seq<
    char,
> {
    let r = replace_all("\t"@ + join(lines, "\n\t"@) + "\n"@, "\t{"@, "{"@);
    match labels {
        Some((e, d)) => replace_all(replace_all(r, "{exp_label}"@, e), "{done_label}"@, d),
        None => r,
    }
}

pub open spec fn gen_expr(arch: Arch, os: OS, g: GenState, e: NodeArithmeticExpr) -> Option<
    GenState,
>
    decreases e, 3int,
{
    match e {
        NodeArithmeticExpr::Base(b) => gen_base(arch, os, g, b),
        NodeArithmeticExpr::Operation(o) => gen_op(arch, os, g, o),
    }
}

pub open spec fn gen_operand(arch: Arch, os: OS, g: GenState, x: NodeOperand) -> Option<GenState>
    decreases x, 3int,
{
    match x {
        NodeOperand::Operation(b) => gen_op(arch, os, g, *b),
        NodeOperand::Base(b) => gen_base(arch, os, g, b),
    }
}

/// The code of an operation, which leaves its value pushed. A logical
/// operation whose operands are not both boolean gives no code; a bracket
/// is no operator (`None`).
pub open spec fn gen_op(arch: Arch, os: OS, g: GenState, o: NodeArithmeticOperation) -> Option<
    GenState,
>
    decreases o, 2int,
{
    match o.op {
        Operator::Not { .. } => gen_unary(arch, os, g, o),
        Operator::And { .. } | Operator::Or { .. } | Operator::Xor { .. } => {
            if infer_type_text(expr_of_operand(o.lhs)) == "bool"@ && infer_type_text(
                expr_of_operand(o.rhs),
            ) == "bool"@ {
                gen_binary(arch, os, g, o)
            } else {
                Some(g)
            }
        },
        Operator::OpenBracket { .. } | Operator::ClosedBracket { .. } => None,
        _ => gen_binary(arch, os, g, o),
    }
}

/// `!!`: the value of the left operand, negated.
pub open spec fn gen_unary(arch: Arch, os: OS, g: GenState, o: NodeArithmeticOperation) -> Option<
    GenState,
>
    decreases o, 1int,
{
    match gen_operand(arch, os, g, o.lhs) {
        None => None,
        Some(g1) => match gen_pop(arch, g1, acc_reg(arch)) {
            None => None,
            Some(g2) => gen_push(
                arch,
                emit(g2, "\t"@ + join(op_data(arch, os, o.op).2, "\n\t"@) + "\n"@),
                acc_reg(arch),
            ),
        },
    }
}

/// A binary operation: both operands pushed (for `^` the exponent first),
/// popped into the operation's registers, the instructions, and the result
/// pushed.
pub open spec fn gen_binary(arch: Arch, os: OS, g: GenState, o: NodeArithmeticOperation) -> Option<
    GenState,
>
    decreases o, 1int,
{
    let swapped = o.op is Exponent;
    let first = if swapped {
        o.rhs
    } else {
        o.lhs
    };
    let second = if swapped {
        o.lhs
    } else {
        o.rhs
    };
    match gen_operand(arch, os, g, first) {
        None => None,
        Some(g1) => match gen_operand(arch, os, g1, second) {
            None => None,
            Some(g2) => {
                if swapped && g2.exps + 1 > usize::MAX {
                    None
                } else {
                    let labels = if swapped {
                        Some(exp_labels(g2.exps))
                    } else {
                        None
                    };
                    let g3 = if swapped {
                        GenState { exps: g2.exps + 1, ..g2 }
                    } else {
                        g2
                    };
                    let d = op_data(arch, os, o.op);
                    match gen_pop(arch, g3, (d.0).1) {
                        None => None,
                        Some(g4) => match gen_pop(arch, g4, (d.0).0) {
                            None => None,
                            Some(g5) => gen_push(
                                arch,
                                emit(g5, instruction_text(d.2, labels)),
                                d.1,
                            ),
                        },
                    }
                }
            },
        },
    }
}

/// `exit(expr)`: the value into the exit register, then the exit call.
pub open spec fn gen_exit(arch: Arch, os: OS, g: GenState, e: NodeExit) -> Option<GenState> {
    let g1 = emit(
        emit(g, gen_comment_text(arch, os, "Exit call"@)),
        gen_comment_text(arch, os, "Exit Code = "@ + expr_text(e.expr)),
    );
    match gen_expr(arch, os, g1, e.expr) {
        None => None,
        Some(g2) => match gen_pop(arch, g2, exit_reg_text(arch)) {
            None => None,
            Some(g3) => Some(
                emit(
                    g3,
                    "\n\t"@ + exit_instr_text(arch, os) + "\n"@ + gen_comment_text(
                        arch,
                        os,
                        "Exit end call"@,
                    ),
                ),
            ),
        },
    }
}

/// `name = value`: the value stays pushed and the variable is declared
/// there.
pub open spec fn gen_id(arch: Arch, os: OS, g: GenState, v: NodeVariableAssignment) -> Option<
    GenState,
> {
    let g1 = emit(g, gen_comment_text(arch, os, "VarAssignment"@));
    match v.variable {
        Token::ID { name, .. } => {
            let g2 = emit(g1, gen_comment_text(arch, os, assignment_text(v)));
            match gen_expr(arch, os, g2, v.value) {
                None => None,
                Some(g3) => if g3.stack.size + 8 > usize::MAX {
                    None
                } else {
                    Some(
                        GenState {
                            stack: after_add(g3.stack, name@, infer_type_text(v.value)),
                            ..g3
                        },
                    )
                },
            }
        },
        _ => Some(g1),
    }
}

/// The code of a statement; `None` where generation cannot go on (a
/// variable read before it is declared, a value popped that was never
/// pushed, a counter past the machine's range).
pub open spec fn gen_stmt(arch: Arch, os: OS, g: GenState, s: StmtView) -> Option<GenState>
    decreases s,
{
    match s {
        StmtView::Exit(e) => gen_exit(arch, os, g, e),
        StmtView::ID(v) => gen_id(arch, os, g, v),
        StmtView::Scope(ss) => {
            if g.stack.depth + 1 > usize::MAX {
                None
            } else {
                match gen_stmts(arch, os, GenState { stack: after_increase(g.stack), ..g }, ss) {
                    None => None,
                    Some(g2) => if g2.stack.depth == 0 {
                        None
                    } else {
                        Some(GenState { stack: after_decrease(g2.stack), ..g2 })
                    },
                }
            }
        },
        StmtView::Print(_) => Some(g),
    }
}

pub open spec fn gen_stmts(arch: Arch, os: OS, g: GenState, ss: Seq<StmtView>) -> Option<GenState>
    decreases ss,
{
    if ss.len() == 0 {
        Some(g)
    } else {
        match gen_stmt(arch, os, g, ss[0]) {
            None => None,
            Some(g1) => gen_stmts(arch, os, g1, ss.subrange(1, ss.len() as int)),
        }
    }
}

/// The program: the header, the statements, and, when no exit was
/// generated, a final exit.
pub open spec fn gen_program(arch: Arch, os: OS, g: GenState, stmts: Seq<StmtView>) -> Option<
    GenState,
> {
    match gen_stmts(arch, os, GenState { out: program_header_text(arch), ..g }, stmts) {
        None => None,
        Some(g1) => if contains_seq(g1.out, exit_marker_text(arch)) {
            Some(g1)
        } else {
            Some(
                emit(
                    g1,
                    gen_comment_text(arch, os, "Boiler plate for empty script"@) + "\t"@
                        + exit_instr_text(arch, os) + "\n"@,
                ),
            )
        },
    }
}

proof fn lemma_table_lookups(arch: Arch, os: OS, op: Operator)
    requires
        !(op is OpenBracket),
        !(op is ClosedBracket),
    ensures
        lookup(arithmetic_table(arch, os), op_name(op)) == Some(op_data(arch, os, op)),
{
    reveal_strlit("Addition");
    reveal_strlit("Subtraction");
    reveal_strlit("Multiplication");
    reveal_strlit("Division");
    reveal_strlit("Exponentiation");
    reveal_strlit("Modulo");
    reveal_strlit("And");
    reveal_strlit("Or");
    reveal_strlit("Xor");
    reveal_strlit("Not");
    let t = arithmetic_table(arch, os);
    let i: int = match op {
        Operator::Plus { .. } => 0,
        Operator::Minus { .. } => 1,
        Operator::Multiplication { .. } => 2,
        Operator::Division { .. } => 3,
        Operator::Exponent { .. } => 4,
        Operator::Modulus { .. } => 5,
        Operator::And { .. } => 6,
        Operator::Or { .. } => 7,
        Operator::Xor { .. } => 8,
        _ => 9,
    };
    assert("Addition"@[0] != "Division"@[0]);
    assert("Multiplication"@[0] != "Exponentiation"@[0]);
    assert("And"@[0] != "Xor"@[0]);
    assert("And"@[0] != "Not"@[0]);
    assert("Xor"@[0] != "Not"@[0]);
    assert(t[i].0 == op_name(op));
    assert forall|j: int| i < j < t.len() implies t[j].0 != t[i].0 by {
        if t[j].0 == t[i].0 {
            assert(t[j].0.len() == t[i].0.len());
            assert(t[j].0[0] == t[i].0[0]);
        }
    }
    lemma_lookup_at(t, i);
}

/// `pat` occurring in `b` occurs in `a + b + c`.
proof fn lemma_contains_within(a: Seq<char>, b: Seq<char>, c: Seq<char>, pat: Seq<char>)
    requires
        contains_seq(b, pat),
    ensures
        contains_seq(a + b + c, pat),
{
    let i = choose|i: int| 0 <= i <= b.len() - pat.len() && #[trigger] b.subrange(i, i + pat.len()) == pat;
    let s = a + b + c;
    assert(s.subrange(a.len() + i, a.len() + i + pat.len()) =~= b.subrange(i, i + pat.len()));
}

/// The exit call of every target holds the exit marker.
proof fn lemma_exit_instr_has_marker(arch: Arch, os: OS)
    ensures
        contains_seq(exit_instr_text(arch, os), exit_marker_text(arch)),
{
    let t = exit_instr_text(arch, os);
    let m = exit_marker_text(arch);
    reveal_strlit("mov rax, 60\n\tmov rdi, 0\n\tsyscall");
    reveal_strlit("mov rax, 0x2000001\n\tmov rdi, 0\n\tsyscall");
    reveal_strlit("mov x8, #93\n\tmov x0, #0\n\tsvc #0");
    reveal_strlit("ldr x16, =0x2000001\n\tmov x0, 0\n\tsvc #0x80");
    reveal_strlit("syscall");
    reveal_strlit("svc #0");
    let i: int = if os == OS::Linux {
        25
    } else {
        32
    };
    assert(t.subrange(i, i + m.len()) =~= m);
}

/// Every generated program ends the process: its text holds the exit
/// marker, from an `exit` statement or from the exit added at the end.
pub proof fn lemma_program_exits(arch: Arch, os: OS, g: GenState, stmts: Seq<StmtView>)
    requires
        gen_program(arch, os, g, stmts) is Some,
    ensures
        contains_seq(gen_program(arch, os, g, stmts)->0.out, exit_marker_text(arch)),
{
    let g1 = gen_stmts(arch, os, GenState { out: program_header_text(arch), ..g }, stmts)->0;
    if !contains_seq(g1.out, exit_marker_text(arch)) {
        lemma_exit_instr_has_marker(arch, os);
        lemma_contains_within(
            g1.out + gen_comment_text(arch, os, "Boiler plate for empty script"@) + "\t"@,
            exit_instr_text(arch, os),
            "\n"@,
            exit_marker_text(arch),
        );
        assert(gen_program(arch, os, g, stmts)->0.out =~= g1.out + gen_comment_text(
            arch,
            os,
            "Boiler plate for empty script"@,
        ) + "\t"@ + exit_instr_text(arch, os) + "\n"@);
    }
}

/// `after` is `before` with more text after it.
pub open spec fn appended(before: Seq<char>, after: Seq<char>) -> bool {
    before.len() <= after.len() && after.take(before.len() as int) == before
}

proof fn lemma_appended_trans(a: Seq<char>, b: Seq<char>, c: Seq<char>)
    requires
        appended(a, b),
        appended(b, c),
    ensures
        appended(a, c),
{
    assert(c.take(a.len() as int) =~= c.take(b.len() as int).take(a.len() as int));
}

proof fn lemma_emit_appends(g: GenState, text: Seq<char>)
    ensures
        appended(g.out, emit(g, text).out),
{
    assert((g.out + text).take(g.out.len() as int) =~= g.out);
}

proof fn lemma_push_pop_append(arch: Arch, g: GenState, reg: Seq<char>)
    ensures
        gen_push(arch, g, reg) is Some ==> appended(g.out, gen_push(arch, g, reg)->0.out),
        gen_pop(arch, g, reg) is Some ==> appended(g.out, gen_pop(arch, g, reg)->0.out),
{
    lemma_emit_appends(g, stack_push_text(arch, reg));
    lemma_emit_appends(g, stack_pop_text(arch, reg));
}

proof fn lemma_emit_push_appends(arch: Arch, g: GenState, text: Seq<char>, reg: Seq<char>)
    ensures
        gen_push(arch, emit(g, text), reg) is Some ==> appended(
            g.out,
            gen_push(arch, emit(g, text), reg)->0.out,
        ),
{
    lemma_emit_appends(g, text);
    lemma_push_pop_append(arch, emit(g, text), reg);
    if gen_push(arch, emit(g, text), reg) is Some {
        lemma_appended_trans(g.out, emit(g, text).out, gen_push(arch, emit(g, text), reg)->0.out);
    }
}

proof fn lemma_base_appends(arch: Arch, os: OS, g: GenState, b: NodeBaseExpr)
    ensures
        gen_base(arch, os, g, b) is Some ==> appended(g.out, gen_base(arch, os, g, b)->0.out),
{
    assert(g.out.take(g.out.len() as int) =~= g.out);
    match b {
        NodeBaseExpr::Num(Token::Number { value, .. }) => {
            lemma_emit_push_appends(
                arch,
                g,
                "\t"@ + mov_number_text(arch, os, value@) + "\n"@,
                acc_reg(arch),
            );
        },
        NodeBaseExpr::ID(Token::ID { name, .. }) => {
            lemma_emit_push_appends(
                arch,
                g,
                gen_comment_text(
                    arch,
                    os,
                    "Recuperate "@ + name@ + "'s value from stack\n\t"@ + load_variable_text(
                        arch,
                        offset_of(g.stack, name@) as nat,
                    ),
                ),
                acc_reg(arch),
            );
        },
        NodeBaseExpr::Bool(Token::Boolean { value, .. }) => {
            lemma_emit_push_appends(arch, g, "\t"@ + mov_boolean_text(arch, value) + "\n"@, acc_reg(arch));
        },
        _ => {},
    }
}

proof fn lemma_expr_appends(arch: Arch, os: OS, g: GenState, e: NodeArithmeticExpr)
    ensures
        gen_expr(arch, os, g, e) is Some ==> appended(g.out, gen_expr(arch, os, g, e)->0.out),
    decreases e, 3int,
{
    match e {
        NodeArithmeticExpr::Base(b) => lemma_base_appends(arch, os, g, b),
        NodeArithmeticExpr::Operation(o) => lemma_op_appends(arch, os, g, o),
    }
}

proof fn lemma_operand_appends(arch: Arch, os: OS, g: GenState, x: NodeOperand)
    ensures
        gen_operand(arch, os, g, x) is Some ==> appended(g.out, gen_operand(arch, os, g, x)->0.out),
    decreases x, 3int,
{
    match x {
        NodeOperand::Operation(b) => lemma_op_appends(arch, os, g, *b),
        NodeOperand::Base(b) => lemma_base_appends(arch, os, g, b),
    }
}

proof fn lemma_op_appends(arch: Arch, os: OS, g: GenState, o: NodeArithmeticOperation)
    ensures
        gen_op(arch, os, g, o) is Some ==> appended(g.out, gen_op(arch, os, g, o)->0.out),
    decreases o, 2int,
{
    assert(g.out.take(g.out.len() as int) =~= g.out);
    match o.op {
        Operator::Not { .. } => lemma_unary_appends(arch, os, g, o),
        Operator::OpenBracket { .. } | Operator::ClosedBracket { .. } => {},
        _ => lemma_binary_appends(arch, os, g, o),
    }
}

proof fn lemma_unary_appends(arch: Arch, os: OS, g: GenState, o: NodeArithmeticOperation)
    ensures
        gen_unary(arch, os, g, o) is Some ==> appended(g.out, gen_unary(arch, os, g, o)->0.out),
    decreases o, 1int,
{
    lemma_operand_appends(arch, os, g, o.lhs);
    if let Some(g1) = gen_operand(arch, os, g, o.lhs) {
        lemma_push_pop_append(arch, g1, acc_reg(arch));
        if let Some(g2) = gen_pop(arch, g1, acc_reg(arch)) {
            let text = "\t"@ + join(op_data(arch, os, o.op).2, "\n\t"@) + "\n"@;
            lemma_emit_push_appends(arch, g2, text, acc_reg(arch));
            lemma_appended_trans(g.out, g1.out, g2.out);
            if gen_push(arch, emit(g2, text), acc_reg(arch)) is Some {
                lemma_appended_trans(g.out, g2.out, gen_push(arch, emit(g2, text), acc_reg(arch))->0.out);
            }
        }
    }
}

proof fn lemma_binary_appends(arch: Arch, os: OS, g: GenState, o: NodeArithmeticOperation)
    ensures
        gen_binary(arch, os, g, o) is Some ==> appended(g.out, gen_binary(arch, os, g, o)->0.out),
    decreases o, 1int,
{
    let swapped = o.op is Exponent;
    let first = if swapped {
        o.rhs
    } else {
        o.lhs
    };
    let second = if swapped {
        o.lhs
    } else {
        o.rhs
    };
    lemma_operand_appends(arch, os, g, first);
    if let Some(g1) = gen_operand(arch, os, g, first) {
        lemma_operand_appends(arch, os, g1, second);
        if let Some(g2) = gen_operand(arch, os, g1, second) {
            lemma_appended_trans(g.out, g1.out, g2.out);
            if !(swapped && g2.exps + 1 > usize::MAX) {
                let labels = if swapped {
                    Some(exp_labels(g2.exps))
                } else {
                    None
                };
                let g3 = if swapped {
                    GenState { exps: g2.exps + 1, ..g2 }
                } else {
                    g2
                };
                let d = op_data(arch, os, o.op);
                lemma_push_pop_append(arch, g3, (d.0).1);
                if let Some(g4) = gen_pop(arch, g3, (d.0).1) {
                    lemma_push_pop_append(arch, g4, (d.0).0);
                    if let Some(g5) = gen_pop(arch, g4, (d.0).0) {
                        lemma_emit_push_appends(arch, g5, instruction_text(d.2, labels), d.1);
                        lemma_appended_trans(g.out, g3.out, g4.out);
                        lemma_appended_trans(g.out, g4.out, g5.out);
                        if gen_push(arch, emit(g5, instruction_text(d.2, labels)), d.1) is Some {
                            lemma_appended_trans(
                                g.out,
                                g5.out,
                                gen_push(arch, emit(g5, instruction_text(d.2, labels)), d.1)->0.out,
                            );
                        }
                    }
                }
            }
        }
    }
}

proof fn lemma_stmt_appends(arch: Arch, os: OS, g: GenState, s: StmtView)
    ensures
        gen_stmt(arch, os, g, s) is Some ==> appended(g.out, gen_stmt(arch, os, g, s)->0.out),
    decreases s,
{
    assert(g.out.take(g.out.len() as int) =~= g.out);
    match s {
        StmtView::Exit(e) => {
            let c1 = gen_comment_text(arch, os, "Exit call"@);
            let c2 = gen_comment_text(arch, os, "Exit Code = "@ + expr_text(e.expr));
            let g1 = emit(emit(g, c1), c2);
            lemma_emit_appends(g, c1);
            lemma_emit_appends(emit(g, c1), c2);
            lemma_appended_trans(g.out, emit(g, c1).out, g1.out);
            lemma_expr_appends(arch, os, g1, e.expr);
            if let Some(g2) = gen_expr(arch, os, g1, e.expr) {
                lemma_appended_trans(g.out, g1.out, g2.out);
                lemma_push_pop_append(arch, g2, exit_reg_text(arch));
                if let Some(g3) = gen_pop(arch, g2, exit_reg_text(arch)) {
                    lemma_appended_trans(g.out, g2.out, g3.out);
                    let t = "\n\t"@ + exit_instr_text(arch, os) + "\n"@ + gen_comment_text(
                        arch,
                        os,
                        "Exit end call"@,
                    );
                    lemma_emit_appends(g3, t);
                    lemma_appended_trans(g.out, g3.out, emit(g3, t).out);
                }
            }
        },
        StmtView::ID(v) => {
            let g1 = emit(g, gen_comment_text(arch, os, "VarAssignment"@));
            lemma_emit_appends(g, gen_comment_text(arch, os, "VarAssignment"@));
            if let Token::ID { .. } = v.variable {
                let g2 = emit(g1, gen_comment_text(arch, os, assignment_text(v)));
                lemma_emit_appends(g1, gen_comment_text(arch, os, assignment_text(v)));
                lemma_appended_trans(g.out, g1.out, g2.out);
                lemma_expr_appends(arch, os, g2, v.value);
                if let Some(g3) = gen_expr(arch, os, g2, v.value) {
                    lemma_appended_trans(g.out, g2.out, g3.out);
                }
            }
        },
        StmtView::Scope(ss) => {
            if g.stack.depth + 1 <= usize::MAX {
                lemma_stmts_appends(arch, os, GenState { stack: after_increase(g.stack), ..g }, ss);
            }
        },
        StmtView::Print(_) => {},
    }
}

proof fn lemma_stmts_appends(arch: Arch, os: OS, g: GenState, ss: Seq<StmtView>)
    ensures
        gen_stmts(arch, os, g, ss) is Some ==> appended(g.out, gen_stmts(arch, os, g, ss)->0.out),
    decreases ss,
{
    assert(g.out.take(g.out.len() as int) =~= g.out);
    if ss.len() > 0 {
        lemma_stmt_appends(arch, os, g, ss[0]);
        if let Some(g1) = gen_stmt(arch, os, g, ss[0]) {
            lemma_stmts_appends(arch, os, g1, ss.subrange(1, ss.len() as int));
            if let Some(g2) = gen_stmts(arch, os, g1, ss.subrange(1, ss.len() as int)) {
                lemma_appended_trans(g.out, g1.out, g2.out);
            }
        }
    }
}

/// Every generated program starts with the program header of its target,
/// and the statements' code follows it in order: generation only appends.
pub proof fn lemma_program_starts_with_header(
    arch: Arch,
    os: OS,
    g: GenState,
    stmts: Seq<StmtView>,
)
    requires
        gen_program(arch, os, g, stmts) is Some,
    ensures
        appended(program_header_text(arch), gen_program(arch, os, g, stmts)->0.out),
{
    let g0 = GenState { out: program_header_text(arch), ..g };
    lemma_stmts_appends(arch, os, g0, stmts);
    let g1 = gen_stmts(arch, os, g0, stmts)->0;
    if !contains_seq(g1.out, exit_marker_text(arch)) {
        let t = gen_comment_text(arch, os, "Boiler plate for empty script"@) + "\t"@ + exit_instr_text(
            arch,
            os,
        ) + "\n"@;
        lemma_emit_appends(g1, t);
        lemma_appended_trans(g0.out, g1.out, emit(g1, t).out);
    }
}

proof fn lemma_boolean_type_text(e: NodeArithmeticExpr)
    ensures
        is_boolean_expr(e) ==> infer_type_text(e) == "bool"@,
{
}

proof fn lemma_base_pushes_one(arch: Arch, os: OS, g: GenState, b: NodeBaseExpr)
    requires
        base_well_formed(b),
    ensures
        gen_base(arch, os, g, b) matches Some(r) ==> r.pushes == g.pushes + 1,
{
}

proof fn lemma_operand_pushes_one(arch: Arch, os: OS, g: GenState, x: NodeOperand)
    requires
        operand_well_typed(x),
    ensures
        gen_operand(arch, os, g, x) matches Some(r) ==> r.pushes == g.pushes + 1,
    decreases x, 3int,
{
    match x {
        NodeOperand::Operation(b) => lemma_op_pushes_one(arch, os, g, *b),
        NodeOperand::Base(b) => lemma_base_pushes_one(arch, os, g, b),
    }
}

proof fn lemma_op_pushes_one(arch: Arch, os: OS, g: GenState, o: NodeArithmeticOperation)
    requires
        operation_well_typed(o),
    ensures
        gen_op(arch, os, g, o) matches Some(r) ==> r.pushes == g.pushes + 1,
    decreases o, 2int,
{
    match o.op {
        Operator::Not { .. } => lemma_unary_pushes_one(arch, os, g, o),
        Operator::And { .. } | Operator::Or { .. } | Operator::Xor { .. } => {
            lemma_boolean_type_text(expr_of_operand(o.lhs));
            lemma_boolean_type_text(expr_of_operand(o.rhs));
            lemma_binary_pushes_one(arch, os, g, o);
        },
        Operator::OpenBracket { .. } | Operator::ClosedBracket { .. } => {},
        _ => lemma_binary_pushes_one(arch, os, g, o),
    }
}

proof fn lemma_unary_pushes_one(arch: Arch, os: OS, g: GenState, o: NodeArithmeticOperation)
    requires
        operation_well_typed(o),
    ensures
        gen_unary(arch, os, g, o) matches Some(r) ==> r.pushes == g.pushes + 1,
    decreases o, 1int,
{
    lemma_operand_pushes_one(arch, os, g, o.lhs);
}

proof fn lemma_binary_pushes_one(arch: Arch, os: OS, g: GenState, o: NodeArithmeticOperation)
    requires
        operation_well_typed(o),
    ensures
        gen_binary(arch, os, g, o) matches Some(r) ==> r.pushes == g.pushes + 1,
    decreases o, 1int,
{
    let swapped = o.op is Exponent;
    let first = if swapped {
        o.rhs
    } else {
        o.lhs
    };
    let second = if swapped {
        o.lhs
    } else {
        o.rhs
    };
    lemma_operand_pushes_one(arch, os, g, first);
    if let Some(g1) = gen_operand(arch, os, g, first) {
        lemma_operand_pushes_one(arch, os, g1, second);
    }
}

/// Every well-typed expression, as the parser builds them, compiles to code
/// that leaves exactly one more value on the stack: the value the exit call
/// or the variable then takes.
pub proof fn lemma_expression_leaves_one_value(
    arch: Arch,
    os: OS,
    g: GenState,
    e: NodeArithmeticExpr,
)
    requires
        well_typed(e),
    ensures
        gen_expr(arch, os, g, e) matches Some(r) ==> r.pushes == g.pushes + 1,
{
    match e {
        NodeArithmeticExpr::Base(b) => lemma_base_pushes_one(arch, os, g, b),
        NodeArithmeticExpr::Operation(o) => lemma_op_pushes_one(arch, os, g, o),
    }
}

impl Generator {
    /// The generation state of this generator.
    pub open spec fn state(&self) -> GenState {
        GenState {
            out: self.m_output@,
            stack: self.m_stack@,
            pushes: self.m_stack_size as nat,
            exps: self.m_num_exponentials as nat,
        }
    }

    /// The target and program stay as they are.
    pub open spec fn same_target(&self, other: &Generator) -> bool {
        self.m_arch == other.m_arch && self.m_os == other.m_os && self.m_prog@ == other.m_prog@
    }

    pub fn new(prog: NodeProgram, arch: Arch, os: OS) -> (r: Self)
        ensures
            r.m_prog@ == prog@,
            r.m_arch == arch,
            r.m_os == os,
            r.state() == (GenState {
                out: Seq::empty(),
                stack: StackView { vars: Seq::empty(), size: 0, depth: 0 },
                pushes: 0,
                exps: 0,
            }),
            stack_wf(r.m_stack@),
    {
        let s = StackHandler::new();
        assert(s@ == StackView { vars: Seq::empty(), size: 0, depth: 0 });
        Generator {
            m_prog: prog,
            m_output: String::new(),
            m_stack: s,
            m_stack_size: 0,
            m_num_exponentials: 0,
            m_arch: arch,
            m_os: os,
        }
    }

    /// A comment line for the target system.
    pub fn generate_comment(&self, comment: &str) -> (r: String)
        ensures
            r@ == gen_comment_text(self.m_arch, self.m_os, comment@),
    {
        if self.m_os == OS::Windows {
            String::new()
        } else {
            let mut s = if self.m_arch == Arch::AArch64 && self.m_os == OS::Linux {
                str_to_string("\t// ")
            } else {
                str_to_string("\t; ")
            };
            s.append(comment);
            s.append("\n");
            s
        }
    }

    /// The assembly generated so far.
    pub fn get_out_assembly(&self) -> (r: String)
        ensures
            r@ == self.m_output@,
    {
        self.m_output.clone()
    }

    /// Generates the program into the output, which it replaces. The
    /// program must be one that generation can complete (see
    /// `can_generate`).
    pub fn generate(&mut self)
        requires
            stack_wf(old(self).m_stack@),
            gen_program(old(self).m_arch, old(self).m_os, old(self).state(), old(self).m_prog@) is Some,
        ensures
            final(self).state() == gen_program(
                old(self).m_arch,
                old(self).m_os,
                old(self).state(),
                old(self).m_prog@,
            )->0,
            final(self).same_target(old(self)),
            stack_wf(final(self).m_stack@),
    {
        let _ = self.try_generate();
    }

    /// Whether generation of the program can complete: every variable is
    /// declared before it is read, and no counter leaves the machine's
    /// range.
    pub fn can_generate(&self) -> (r: bool)
        requires
            stack_wf(self.m_stack@),
        ensures
            r == gen_program(self.m_arch, self.m_os, self.state(), self.m_prog@) is Some,
    {
        let mut copy = Generator {
            m_prog: NodeProgram { stmts: self.m_prog.get_stmts() },
            m_output: String::new(),
            m_stack: copy_stack(&self.m_stack),
            m_stack_size: self.m_stack_size,
            m_num_exponentials: self.m_num_exponentials,
            m_arch: self.m_arch,
            m_os: self.m_os,
        };
        copy.try_generate()
    }

    fn try_generate(&mut self) -> (r: bool)
        requires
            stack_wf(old(self).m_stack@),
        ensures
            ({
                let res = gen_program(
                    old(self).m_arch,
                    old(self).m_os,
                    old(self).state(),
                    old(self).m_prog@,
                );
                &&& r == res is Some
                &&& r ==> final(self).state() == res->0
            }),
            final(self).same_target(old(self)),
            stack_wf(final(self).m_stack@),
    {
        self.m_output = str_to_string(self.m_arch.get_program_header());
        let stmts = self.m_prog.get_stmts();
        let ghost sv = stmts_view(stmts@);
        let ghost g0 = self.state();
        let ghost goal = gen_stmts(self.m_arch, self.m_os, g0, sv);
        proof {
            lemma_stmts_view_len(stmts@);
            assert(sv.subrange(0, sv.len() as int) =~= sv);
        }
        let mut i: usize = 0;
        while i < stmts.len()
            invariant
                i <= stmts.len(),
                sv == stmts_view(stmts@),
                sv.len() == stmts@.len(),
                goal == gen_stmts(self.m_arch, self.m_os, g0, sv),
                gen_stmts(self.m_arch, self.m_os, self.state(), sv.subrange(i as int, sv.len() as int))
                    == goal,
                self.same_target(old(self)),
                stack_wf(self.m_stack@),
                g0 == (GenState { out: program_header_text(old(self).m_arch), ..old(self).state() }),
                sv == old(self).m_prog@,
            decreases stmts.len() - i,
        {
            let ghost rest = sv.subrange(i as int, sv.len() as int);
            proof {
                lemma_stmts_view_index(stmts@, i as int);
                assert(rest[0] == stmt_view(stmts@[i as int]));
                assert(rest.subrange(1, rest.len() as int) =~= sv.subrange(i + 1, sv.len() as int));
            }
            if !self.generate_stmt(&stmts[i]) {
                return false;
            }
            i = i + 1;
        }
        proof {
            assert(sv.subrange(i as int, sv.len() as int).len() == 0);
        }
        let marker = self.m_arch.get_exit_marker();
        if !contains(self.m_output.as_str(), marker) {
            let comment = self.generate_comment("Boiler plate for empty script");
            let exit_instr = self.m_arch.get_exit_instr(self.m_os);
            let ghost o = self.m_output@;
            self.m_output.append(comment.as_str());
            self.m_output.append("\t");
            self.m_output.append(exit_instr);
            self.m_output.append("\n");
            assert(self.m_output@ =~= o + (comment@ + "\t"@ + exit_instr@ + "\n"@));
        }
        true
    }

    fn generate_stmt(&mut self, stmt: &NodeStmt) -> (r: bool)
        requires
            stack_wf(old(self).m_stack@),
        ensures
            ({
                let res = gen_stmt(old(self).m_arch, old(self).m_os, old(self).state(), stmt@);
                &&& r == res is Some
                &&& r ==> final(self).state() == res->0
            }),
            final(self).same_target(old(self)),
            stack_wf(final(self).m_stack@),
        decreases stmt,
    {
        match stmt {
            NodeStmt::Exit(exit) => self.generate_exit(exit),
            NodeStmt::ID(var) => self.generate_id(var),
            NodeStmt::Scope(scope) => self.generate_scope(scope),
            NodeStmt::Print(_) => true,
        }
    }

    fn generate_exit(&mut self, exit: &NodeExit) -> (r: bool)
        requires
            stack_wf(old(self).m_stack@),
        ensures
            ({
                let res = gen_exit(old(self).m_arch, old(self).m_os, old(self).state(), *exit);
                &&& r == res is Some
                &&& r ==> final(self).state() == res->0
            }),
            final(self).same_target(old(self)),
            stack_wf(final(self).m_stack@),
    {
        let c1 = self.generate_comment("Exit call");
        self.m_output.append(c1.as_str());
        let mut code = str_to_string("Exit Code = ");
        code.append(exit.expr.to_string().as_str());
        let c2 = self.generate_comment(code.as_str());
        self.m_output.append(c2.as_str());
        assert(self.m_output@ =~= old(self).m_output@ + c1@ + c2@);
        if !self.generate_arithmetic_expr(&exit.expr) {
            return false;
        }
        if self.m_stack_size == 0 {
            return false;
        }
        let exit_reg = self.m_arch.get_exit_reg();
        self.pop(exit_reg);
        let ghost o = self.m_output@;
        let exit_instr = self.m_arch.get_exit_instr(self.m_os);
        self.m_output.append("\n\t");
        self.m_output.append(exit_instr);
        self.m_output.append("\n");
        let c3 = self.generate_comment("Exit end call");
        self.m_output.append(c3.as_str());
        assert(self.m_output@ =~= o + ("\n\t"@ + exit_instr@ + "\n"@ + c3@));
        true
    }

    fn generate_id(&mut self, var: &NodeVariableAssignment) -> (r: bool)
        requires
            stack_wf(old(self).m_stack@),
        ensures
            ({
                let res = gen_id(old(self).m_arch, old(self).m_os, old(self).state(), *var);
                &&& r == res is Some
                &&& r ==> final(self).state() == res->0
            }),
            final(self).same_target(old(self)),
            stack_wf(final(self).m_stack@),
    {
        let c1 = self.generate_comment("VarAssignment");
        self.m_output.append(c1.as_str());
        if let Token::ID { name, .. } = &var.variable {
            let c2 = self.generate_comment(var.to_string().as_str());
            self.m_output.append(c2.as_str());
            if !self.generate_arithmetic_expr(&var.value) {
                return false;
            }
            if self.m_stack.m_stack_size > usize::MAX - 8 {
                return false;
            }
            let var_type = str_to_string(self.infer_type(&var.value));
            self.m_stack.add_variable(name.clone(), var_type);
        }
        true
    }

    fn generate_scope(&mut self, scope: &NodeScope) -> (r: bool)
        requires
            stack_wf(old(self).m_stack@),
        ensures
            ({
                let res = gen_stmt(
                    old(self).m_arch,
                    old(self).m_os,
                    old(self).state(),
                    StmtView::Scope(stmts_view(scope.stmts@)),
                );
                &&& r == res is Some
                &&& r ==> final(self).state() == res->0
            }),
            final(self).same_target(old(self)),
            stack_wf(final(self).m_stack@),
        decreases scope,
    {
        if self.m_stack.m_scope_depth == usize::MAX {
            return false;
        }
        self.m_stack.increase_scope_depth();
        let ghost sv = stmts_view(scope.stmts@);
        let ghost g0 = self.state();
        let ghost goal = gen_stmts(self.m_arch, self.m_os, g0, sv);
        proof {
            lemma_stmts_view_len(scope.stmts@);
            assert(sv.subrange(0, sv.len() as int) =~= sv);
        }
        let mut i: usize = 0;
        while i < scope.stmts.len()
            invariant
                i <= scope.stmts.len(),
                sv == stmts_view(scope.stmts@),
                sv.len() == scope.stmts@.len(),
                goal == gen_stmts(self.m_arch, self.m_os, g0, sv),
                gen_stmts(self.m_arch, self.m_os, self.state(), sv.subrange(i as int, sv.len() as int))
                    == goal,
                self.same_target(old(self)),
                stack_wf(self.m_stack@),
                g0 == (GenState { stack: after_increase(old(self).state().stack), ..old(self).state() }),
            decreases scope.stmts.len() - i,
        {
            let ghost rest = sv.subrange(i as int, sv.len() as int);
            proof {
                lemma_stmts_view_index(scope.stmts@, i as int);
                assert(rest[0] == stmt_view(scope.stmts@[i as int]));
                assert(rest.subrange(1, rest.len() as int) =~= sv.subrange(i + 1, sv.len() as int));
            }
            if !self.generate_stmt(&scope.stmts[i]) {
                return false;
            }
            i = i + 1;
        }
        proof {
            assert(sv.subrange(i as int, sv.len() as int).len() == 0);
        }
        if self.m_stack.m_scope_depth == 0 {
            return false;
        }
        self.m_stack.decrease_scope_depth();
        true
    }

    fn generate_arithmetic_expr(&mut self, expr: &NodeArithmeticExpr) -> (r: bool)
        requires
            stack_wf(old(self).m_stack@),
        ensures
            ({
                let res = gen_expr(old(self).m_arch, old(self).m_os, old(self).state(), *expr);
                &&& r == res is Some
                &&& r ==> final(self).state() == res->0
            }),
            final(self).same_target(old(self)),
            stack_wf(final(self).m_stack@),
        decreases expr, 3int,
    {
        match expr {
            NodeArithmeticExpr::Base(base) => self.generate_base_expr(base),
            NodeArithmeticExpr::Operation(operation) => self.generate_arithmetic_op(operation),
        }
    }

    fn generate_base_expr(&mut self, p_expr: &NodeBaseExpr) -> (r: bool)
        requires
            stack_wf(old(self).m_stack@),
        ensures
            ({
                let res = gen_base(old(self).m_arch, old(self).m_os, old(self).state(), *p_expr);
                &&& r == res is Some
                &&& r ==> final(self).state() == res->0
            }),
            final(self).same_target(old(self)),
            stack_wf(final(self).m_stack@),
    {
        let acc = if self.m_arch == Arch::X86_64 {
            "rax"
        } else {
            "x0"
        };
        match p_expr {
            NodeBaseExpr::Num(token) => {
                if let Token::Number { value, .. } = token {
                    let mut line = str_to_string("\t");
                    line.append(self.m_arch.get_mov_number_instr(self.m_os, value.as_str()).as_str());
                    line.append("\n");
                    self.m_output.append(line.as_str());
                    if self.m_stack_size == usize::MAX {
                        return false;
                    }
                    self.push(acc);
                }
                true
            },
            NodeBaseExpr::ID(token) => {
                if let Token::ID { name, .. } = token {
                    if !is_declared(&self.m_stack, name) {
                        return false;
                    }
                    let offset = self.m_stack.get_offset(name.clone());
                    let mut text = str_to_string("Recuperate ");
                    text.append(name.as_str());
                    text.append("'s value from stack\n\t");
                    text.append(self.m_arch.get_load_variable_instr(offset).as_str());
                    let comment = self.generate_comment(text.as_str());
                    self.m_output.append(comment.as_str());
                    if self.m_stack_size == usize::MAX {
                        return false;
                    }
                    self.push(acc);
                }
                true
            },
            NodeBaseExpr::Bool(token) => {
                if let Token::Boolean { value, .. } = token {
                    let mut line = str_to_string("\t");
                    line.append(self.m_arch.get_mov_boolean_instr(*value).as_str());
                    line.append("\n");
                    self.m_output.append(line.as_str());
                    if self.m_stack_size == usize::MAX {
                        return false;
                    }
                    self.push(acc);
                }
                true
            },
        }
    }

    fn generate_arithmetic_op(&mut self, expr: &NodeArithmeticOperation) -> (r: bool)
        requires
            stack_wf(old(self).m_stack@),
        ensures
            ({
                let res = gen_op(old(self).m_arch, old(self).m_os, old(self).state(), *expr);
                &&& r == res is Some
                &&& r ==> final(self).state() == res->0
            }),
            final(self).same_target(old(self)),
            stack_wf(final(self).m_stack@),
        decreases expr, 2int,
    {
        let map = ArithmeticInstructions::new(self.m_arch, self.m_os);
        let name = match expr.op {
            Operator::Plus { .. } => "Addition",
            Operator::Minus { .. } => "Subtraction",
            Operator::Multiplication { .. } => "Multiplication",
            Operator::Division { .. } => "Division",
            Operator::Exponent { .. } => "Exponentiation",
            Operator::Modulus { .. } => "Modulo",
            Operator::And { .. } => "And",
            Operator::Or { .. } => "Or",
            Operator::Xor { .. } => "Xor",
            Operator::Not { .. } => "Not",
            _ => {
                return false;
            },
        };
        if let Operator::And { .. } | Operator::Or { .. } | Operator::Xor { .. } = expr.op {
            let lhs_expr = Self::extract_expr(&expr.lhs);
            let rhs_expr = Self::extract_expr(&expr.rhs);
            if let (Some(lhs_expr), Some(rhs_expr)) = (lhs_expr, rhs_expr) {
                if self.type_check_logical_operands(&lhs_expr, &rhs_expr).is_err() {
                    return true;
                }
            } else {
                return true;
            }
        }
        let key = str_to_string(name);
        proof {
            lemma_table_lookups(self.m_arch, self.m_os, expr.op);
            reveal_strlit("Addition");
            reveal_strlit("Subtraction");
            reveal_strlit("Multiplication");
            reveal_strlit("Division");
            reveal_strlit("Exponentiation");
            reveal_strlit("Modulo");
            reveal_strlit("And");
            reveal_strlit("Or");
            reveal_strlit("Xor");
            reveal_strlit("Not");
            assert("Multiplication"@[0] != "Exponentiation"@[0]);
        }
        let instr_data = map.get(&key).unwrap();
        if let Operator::Not { .. } = expr.op {
            self.process_unary_operation(expr, instr_data)
        } else {
            self.process_binary_operation(expr, name, instr_data)
        }
    }

    fn process_unary_operation(
        &mut self,
        expr: &NodeArithmeticOperation,
        instruction_data: &((String, String), String, Vec<String>),
    ) -> (r: bool)
        requires
            stack_wf(old(self).m_stack@),
            expr.op is Not,
            operation_view(*instruction_data) == op_data(old(self).m_arch, old(self).m_os, expr.op),
        ensures
            ({
                let res = gen_unary(old(self).m_arch, old(self).m_os, old(self).state(), *expr);
                &&& r == res is Some
                &&& r ==> final(self).state() == res->0
            }),
            final(self).same_target(old(self)),
            stack_wf(final(self).m_stack@),
        decreases expr, 1int,
    {
        if !self.process_operand(&expr.lhs) {
            return false;
        }
        let acc_reg = if self.m_arch == Arch::AArch64 {
            "x0"
        } else {
            "rax"
        };
        if self.m_stack_size == 0 {
            return false;
        }
        self.pop(acc_reg);
        let instr_code = join_lines(&instruction_data.2, "\n\t");
        let ghost o = self.m_output@;
        self.m_output.append("\t");
        self.m_output.append(instr_code.as_str());
        self.m_output.append("\n");
        assert(self.m_output@ =~= o + ("\t"@ + instr_code@ + "\n"@));
        if self.m_stack_size == usize::MAX {
            return false;
        }
        self.push(acc_reg);
        true
    }

    fn process_binary_operation(
        &mut self,
        expr: &NodeArithmeticOperation,
        instruction: &str,
        instruction_data: &((String, String), String, Vec<String>),
    ) -> (r: bool)
        requires
            stack_wf(old(self).m_stack@),
            !(expr.op is Not),
            (expr.op is Exponent) == (instruction@ == "Exponentiation"@),
            operation_view(*instruction_data) == op_data(old(self).m_arch, old(self).m_os, expr.op),
        ensures
            ({
                let res = gen_binary(old(self).m_arch, old(self).m_os, old(self).state(), *expr);
                &&& r == res is Some
                &&& r ==> final(self).state() == res->0
            }),
            final(self).same_target(old(self)),
            stack_wf(final(self).m_stack@),
        decreases expr, 1int,
    {
        let swapped = str_eq(instruction, "Exponentiation");
        let (first, second) = if swapped {
            (&expr.rhs, &expr.lhs)
        } else {
            (&expr.lhs, &expr.rhs)
        };
        if !self.process_operand(first) {
            return false;
        }
        if !self.process_operand(second) {
            return false;
        }
        let (exp_label, done_label): (Option<String>, Option<String>) = if swapped {
            if self.m_num_exponentials == usize::MAX {
                return false;
            }
            let (exp, done) = self.generate_exponential_labels();
            (Some(exp), Some(done))
        } else {
            (None, None)
        };
        let instr = Self::process_instruction(exp_label, done_label, &instruction_data.2);
        let ((reg1, reg2), res_reg, _) = instruction_data;
        self.push_pop((reg1, reg2), res_reg.as_str(), instr.as_str())
    }

    /// The instruction lines, indented and ended by a line break, with the
    /// placeholder labels replaced when labels are given.
    fn process_instruction(
        exp_label: Option<String>,
        done_label: Option<String>,
        lines: &Vec<String>,
    ) -> (r: String)
        ensures
            r@ == instruction_text(
                lines@.map_values(|s: String| s@),
                match (exp_label, done_label) {
                    (Some(e), Some(d)) => Some((e@, d@)),
                    _ => None,
                },
            ),
    {
        proof {
            reveal_strlit("\t{");
            reveal_strlit("{exp_label}");
            reveal_strlit("{done_label}");
        }
        let joined = join_lines(lines, "\n\t");
        let mut res = str_to_string("\t");
        res.append(joined.as_str());
        res.append("\n");
        let mut res = replace(res.as_str(), "\t{", "{");
        if let Some(exp) = exp_label {
            if let Some(done) = done_label {
                let replaced = replace(res.as_str(), "{exp_label}", exp.as_str());
                res = replace(replaced.as_str(), "{done_label}", done.as_str());
            }
        }
        res
    }

    fn process_operand(&mut self, operand: &NodeOperand) -> (r: bool)
        requires
            stack_wf(old(self).m_stack@),
        ensures
            ({
                let res = gen_operand(old(self).m_arch, old(self).m_os, old(self).state(), *operand);
                &&& r == res is Some
                &&& r ==> final(self).state() == res->0
            }),
            final(self).same_target(old(self)),
            stack_wf(final(self).m_stack@),
        decreases operand, 3int,
    {
        match operand {
            NodeOperand::Operation(b) => self.generate_arithmetic_op(b),
            NodeOperand::Base(base) => self.generate_base_expr(base),
        }
    }

    /// Pops the right operand into the second register and the left into
    /// the first, emits the instruction, and pushes the result register.
    fn push_pop(&mut self, pop_regs: (&String, &String), res_reg: &str, instruction: &str) -> (r:
        bool)
        ensures
            ({
                let g = old(self).state();
                let res = match gen_pop(old(self).m_arch, g, pop_regs.1@) {
                    None => None,
                    Some(g1) => match gen_pop(old(self).m_arch, g1, pop_regs.0@) {
                        None => None,
                        Some(g2) => gen_push(
                            old(self).m_arch,
                            emit(g2, instruction@),
                            res_reg@,
                        ),
                    },
                };
                &&& r == res is Some
                &&& r ==> final(self).state() == res->0
            }),
            final(self).same_target(old(self)),
            final(self).m_stack@ == old(self).m_stack@,
    {
        if self.m_stack_size < 2 {
            return false;
        }
        self.pop(pop_regs.1.as_str());
        self.pop(pop_regs.0.as_str());
        self.m_output.append(instruction);
        if self.m_stack_size == usize::MAX {
            return false;
        }
        self.push(res_reg);
        true
    }

    /// Pushes `reg` onto the machine stack.
    pub fn push(&mut self, reg: &str)
        requires
            old(self).m_stack_size < usize::MAX,
        ensures
            final(self).state() == gen_push(old(self).m_arch, old(self).state(), reg@)->0,
            final(self).same_target(old(self)),
            final(self).m_stack@ == old(self).m_stack@,
    {
        if self.m_arch == Arch::X86_64 {
            self.m_output.append("\tpush ");
            self.m_output.append(reg);
            self.m_output.append("\n");
        } else {
            self.m_output.append("\tsub sp, sp, #8\n\tstr ");
            self.m_output.append(reg);
            self.m_output.append(", [sp]\n");
        }
        assert(self.m_output@ =~= old(self).m_output@ + stack_push_text(self.m_arch, reg@));
        self.m_stack_size = self.m_stack_size + 1;
    }

    /// Pops the top of the machine stack into `reg`; something must have
    /// been pushed.
    pub fn pop(&mut self, reg: &str)
        requires
            old(self).m_stack_size > 0,
        ensures
            final(self).state() == gen_pop(old(self).m_arch, old(self).state(), reg@)->0,
            final(self).same_target(old(self)),
            final(self).m_stack@ == old(self).m_stack@,
    {
        if self.m_arch == Arch::X86_64 {
            self.m_output.append("\tpop ");
            self.m_output.append(reg);
            self.m_output.append("\n");
        } else {
            self.m_output.append("\tldr ");
            self.m_output.append(reg);
            self.m_output.append(", [sp]\n\tadd sp, sp, #8\n");
        }
        assert(self.m_output@ =~= old(self).m_output@ + stack_pop_text(self.m_arch, reg@));
        self.m_stack_size = self.m_stack_size - 1;
    }

    /// The labels of the next exponentiation loop.
    pub fn generate_exponential_labels(&mut self) -> (r: (String, String))
        requires
            old(self).m_num_exponentials < usize::MAX,
        ensures
            (r.0@, r.1@) == exp_labels(old(self).m_num_exponentials as nat),
            final(self).m_num_exponentials == old(self).m_num_exponentials + 1,
            final(self).m_output == old(self).m_output,
            final(self).m_stack == old(self).m_stack,
            final(self).m_stack_size == old(self).m_stack_size,
            final(self).same_target(old(self)),
    {
        let mut exp = str_to_string("exponential");
        push_decimal(&mut exp, self.m_num_exponentials);
        let mut done = str_to_string("exp_done");
        push_decimal(&mut done, self.m_num_exponentials);
        self.m_num_exponentials = self.m_num_exponentials + 1;
        (exp, done)
    }

    /// The expression an operand stands for.
    pub fn extract_expr(e: &NodeOperand) -> (r: Option<NodeArithmeticExpr>)
        ensures
            r == Some(expr_of_operand(*e)),
    {
        match e {
            NodeOperand::Base(base) => Some(NodeArithmeticExpr::Base(base.duplicate())),
            NodeOperand::Operation(op) => Some(NodeArithmeticExpr::Operation(op.duplicate())),
        }
    }

    /// `Ok` when both operands are boolean.
    pub fn type_check_logical_operands(&self, lhs: &NodeArithmeticExpr, rhs: &NodeArithmeticExpr) -> (r:
        Result<(), String>)
        ensures
            r is Ok == (infer_type_text(*lhs) == "bool"@ && infer_type_text(*rhs) == "bool"@),
    {
        let l = self.infer_type(lhs);
        let r = self.infer_type(rhs);
        if str_eq(l, "bool") && str_eq(r, "bool") {
            Ok(())
        } else {
            Err(str_to_string("Logical operators can only be applied to booleans"))
        }
    }

    /// `"bool"`, `"num"`, `"unknown"` for a variable, or the result type of
    /// an operation.
    pub fn infer_type(&self, expr: &NodeArithmeticExpr) -> (r: &'static str)
        ensures
            r@ == infer_type_text(*expr),
    {
        match expr {
            NodeArithmeticExpr::Base(NodeBaseExpr::Bool(_)) => "bool",
            NodeArithmeticExpr::Base(NodeBaseExpr::Num(_)) => "num",
            NodeArithmeticExpr::Base(NodeBaseExpr::ID(_)) => "unknown",
            NodeArithmeticExpr::Operation(o) => match o.result_type {
                ResultType::Numeric => "num",
                ResultType::Boolean => "bool",
            },
        }
    }
}

/// The lines with `sep` between each two.
fn join_lines(lines: &Vec<String>, sep: &str) -> (r: String)
    ensures
        r@ == join(lines@.map_values(|s: String| s@), sep@),
{
    let ghost parts = lines@.map_values(|s: String| s@);
    let mut out = String::new();
    let mut i: usize = 0;
    while i < lines.len()
        invariant
            i <= lines.len(),
            parts == lines@.map_values(|s: String| s@),
            out@ == join(parts.take(i as int), sep@),
        decreases lines.len() - i,
    {
        if i > 0 {
            out.append(sep);
        }
        out.append(lines[i].as_str());
        i = i + 1;
        proof {
            assert(parts.take(i as int).drop_last() =~= parts.take(i - 1));
        }
    }
    proof {
        assert(parts.take(i as int) =~= parts);
    }
    out
}

/// Whether the two texts are equal.
fn str_eq(a: &str, b: &str) -> (r: bool)
    ensures
        r == (a@ == b@),
{
    let n = a.unicode_len();
    if n != b.unicode_len() {
        return false;
    }
    let mut i: usize = 0;
    while i < n
        invariant
            n == a@.len(),
            n == b@.len(),
            i <= n,
            forall|j: int| 0 <= j < i ==> a@[j] == b@[j],
        decreases n - i,
    {
        if a.get_char(i) != b.get_char(i) {
            return false;
        }
        i = i + 1;
    }
    assert(a@ =~= b@);
    true
}

/// Whether a variable called `name` is on the stack.
fn is_declared(stack: &StackHandler, name: &String) -> (r: bool)
    ensures
        r == declared(stack@.vars, name@),
{
    let mut i: usize = 0;
    while i < stack.m_variables.len()
        invariant
            i <= stack.m_variables.len(),
            forall|j: int| 0 <= j < i ==> stack@.vars[j].0 != name@,
        decreases stack.m_variables.len() - i,
    {
        if stack.m_variables[i].m_name == *name {
            assert(stack@.vars[i as int].0 == name@);
            return true;
        }
        i = i + 1;
    }
    false
}

/// A copy of the stack's table.
fn copy_stack(stack: &StackHandler) -> (r: StackHandler)
    ensures
        r@ == stack@,
{
    let mut vars: Vec<Variable> = Vec::new();
    let mut i: usize = 0;
    while i < stack.m_variables.len()
        invariant
            i <= stack.m_variables.len(),
            vars@.map_values(|v: Variable| variable_view(v)) == stack@.vars.take(i as int),
        decreases stack.m_variables.len() - i,
    {
        let v = &stack.m_variables[i];
        let ghost before = vars@;
        let nv = Variable::new(v.m_name.clone(), v.m_type.clone(), v.m_scope_depth, v.m_stack_loc);
        assert(variable_view(nv) == stack@.vars[i as int]);
        vars.push(nv);
        assert(vars@ =~= before.push(nv));
        assert(stack@.vars.take(i + 1) =~= stack@.vars.take(i as int).push(stack@.vars[i as int]));
        i = i + 1;
        assert(vars@.map_values(|v: Variable| variable_view(v)) =~= stack@.vars.take(i as int));
    }
    assert(stack@.vars.take(i as int) =~= stack@.vars);
    StackHandler {
        m_variables: vars,
        m_stack_size: stack.m_stack_size,
        m_scope_depth: stack.m_scope_depth,
    }
}

/// A binary operator other than `^` evaluates its left operand first: the
/// code is that of the left operand, then that of the right operand (each
/// leaves its value pushed), then the right value is popped into the
/// operation's second register and the left value into its first, the
/// operation's instructions follow, and the result register is pushed. So
/// `a - b` puts `a` in the first register and `b` in the second.
/// Exponentiation is the one exception: the exponent is evaluated first and
/// the base second, so the base lands in the second register and the
/// exponent in the first, around a loop with fresh numbered labels.
pub proof fn lemma_binary_operands_in_order(arch: Arch, os: OS, g: GenState, o: NodeArithmeticOperation)
    requires
        !(o.op is Not),
        !(o.op is OpenBracket),
        !(o.op is ClosedBracket),
        is_logical_binary_op(o.op) ==> infer_type_text(expr_of_operand(o.lhs)) == "bool"@
            && infer_type_text(expr_of_operand(o.rhs)) == "bool"@,
        gen_op(arch, os, g, o) is Some,
    ensures
        !(o.op is Exponent) ==> ({
            let d = op_data(arch, os, o.op);
            &&& gen_operand(arch, os, g, o.lhs) is Some
            &&& gen_operand(arch, os, gen_operand(arch, os, g, o.lhs)->0, o.rhs) is Some
            &&& gen_op(arch, os, g, o)->0.out == gen_operand(
                arch,
                os,
                gen_operand(arch, os, g, o.lhs)->0,
                o.rhs,
            )->0.out + stack_pop_text(arch, (d.0).1) + stack_pop_text(arch, (d.0).0)
                + instruction_text(d.2, None) + stack_push_text(arch, d.1)
        }),
        o.op is Exponent ==> ({
            let d = op_data(arch, os, o.op);
            let g2 = gen_operand(arch, os, gen_operand(arch, os, g, o.rhs)->0, o.lhs)->0;
            &&& gen_operand(arch, os, g, o.rhs) is Some
            &&& gen_operand(arch, os, gen_operand(arch, os, g, o.rhs)->0, o.lhs) is Some
            &&& gen_op(arch, os, g, o)->0.out == g2.out + stack_pop_text(arch, (d.0).1)
                + stack_pop_text(arch, (d.0).0) + instruction_text(d.2, Some(exp_labels(g2.exps)))
                + stack_push_text(arch, d.1)
            &&& gen_op(arch, os, g, o)->0.exps == g2.exps + 1
        }),
{
}

/// `&&`, `||` and `^|`.
pub open spec fn is_logical_binary_op(op: Operator) -> bool {
    op is And || op is Or || op is Xor
}

/// A boolean literal loads 1 for `true` and 0 for `false` into the
/// accumulator, then pushes it.
pub proof fn lemma_boolean_loads_its_value(arch: Arch, os: OS, g: GenState, value: bool, span: Span)
    requires
        g.pushes + 1 <= usize::MAX,
    ensures
        gen_base(arch, os, g, NodeBaseExpr::Bool(Token::Boolean { value, span })) == Some(
            GenState {
                out: g.out + "\tmov "@ + acc_reg(arch) + ", "@ + (if value {
                    "1"@
                } else {
                    "0"@
                }) + "\n"@ + stack_push_text(arch, acc_reg(arch)),
                pushes: g.pushes + 1,
                ..g
            },
        ),
{
    reveal_strlit("mov rax, 1");
    reveal_strlit("mov rax, 0");
    reveal_strlit("mov x0, 1");
    reveal_strlit("mov x0, 0");
    reveal_strlit("mov ");
    reveal_strlit(", ");
    reveal_strlit("rax");
    reveal_strlit("x0");
    reveal_strlit("1");
    reveal_strlit("0");
    let digit = if value {
        "1"@
    } else {
        "0"@
    };
    assert(mov_boolean_text(arch, value) =~= "mov "@ + acc_reg(arch) + ", "@ + digit);
    assert((g.out + ("\t"@ + mov_boolean_text(arch, value) + "\n"@)) + stack_push_text(arch, acc_reg(arch))
        =~= g.out + "\tmov "@ + acc_reg(arch) + ", "@ + digit + "\n"@ + stack_push_text(
        arch,
        acc_reg(arch),
    )) by {
        reveal_strlit("\t");
        reveal_strlit("\tmov ");
    }
}

} // verus!
