use vstd::prelude::*;
use crate::compiler::tokenizer::{Operator, Token};
use crate::utility::text::str_to_string;

verus! {

/// A parsed program: its statements in order.
#[derive(Debug, PartialEq)]
pub struct NodeProgram {
    pub stmts: Vec<NodeStmt>,
}

#[derive(Debug, PartialEq)]
pub enum NodeStmt {
    Exit(NodeExit),
    Print(NodePrint),
    ID(NodeVariableAssignment),
    Scope(NodeScope),
}

/// `exit(expr)`.
#[derive(Debug, PartialEq)]
pub struct NodeExit {
    pub expr: NodeArithmeticExpr,
}

/// `print(expr)`.
#[derive(Debug, PartialEq)]
pub struct NodePrint {
    pub expr: NodeArithmeticExpr,
}

/// `variable = value`.
#[derive(Debug, PartialEq)]
pub struct NodeVariableAssignment {
    pub variable: Token,
    pub value: NodeArithmeticExpr,
}

/// `{ stmts }`: a block with its own variables.
#[derive(Debug, PartialEq)]
pub struct NodeScope {
    pub stmts: Vec<NodeStmt>,
}

#[derive(Debug, PartialEq)]
pub enum NodeArithmeticExpr {
    Base(NodeBaseExpr),
    Operation(NodeArithmeticOperation),
}

/// An operand of an operation: a nested operation or a base expression.
#[derive(Debug, PartialEq)]
pub enum NodeOperand {
    Operation(Box<NodeArithmeticOperation>),
    Base(NodeBaseExpr),
}

/// `lhs op rhs`, with the type of its value.
#[derive(Debug, PartialEq)]
pub struct NodeArithmeticOperation {
    pub lhs: NodeOperand,
    pub rhs: NodeOperand,
    pub op: Operator,
    pub result_type: ResultType,
}

#[derive(Clone, Copy, Debug, PartialEq, Eq, Structural)]
pub enum ResultType {
    Numeric,
    Boolean,
}

impl ResultType {
    pub open spec fn text(self) -> Seq<char> {
        match self {
            ResultType::Numeric => "num"@,
            ResultType::Boolean => "bool"@,
        }
    }

    /// `"num"` or `"bool"`.
    pub fn as_str(&self) -> (r: &str)
        ensures
            r@ == self.text(),
    {
        match self {
            ResultType::Numeric => "num",
            ResultType::Boolean => "bool",
        }
    }
}

/// A number, a variable or a boolean literal.
#[derive(Clone, Debug, PartialEq)]
pub enum NodeBaseExpr {
    Num(Token),
    ID(Token),
    Bool(Token),
}

/// A statement with the statements of a block as a sequence.
pub enum StmtView {
    Exit(NodeExit),
    Print(NodePrint),
    ID(NodeVariableAssignment),
    Scope(Seq<StmtView>),
}

pub open spec fn stmt_view(s: NodeStmt) -> StmtView
    decreases s,
{
    match s {
        NodeStmt::Exit(e) => StmtView::Exit(e),
        NodeStmt::Print(p) => StmtView::Print(p),
        NodeStmt::ID(v) => StmtView::ID(v),
        NodeStmt::Scope(sc) => StmtView::Scope(stmts_view(sc.stmts@)),
    }
}

pub open spec fn stmts_view(s: Seq<NodeStmt>) -> Seq<StmtView>
    decreases s,
{
    if s.len() == 0 {
        Seq::empty()
    } else {
        stmts_view(s.drop_last()).push(stmt_view(s.last()))
    }
}

impl View for NodeStmt {
    type V = StmtView;

    open spec fn view(&self) -> StmtView {
        stmt_view(*self)
    }
}

impl View for NodeProgram {
    type V = Seq<StmtView>;

    open spec fn view(&self) -> Seq<StmtView> {
        stmts_view(self.stmts@)
    }
}

pub proof fn lemma_stmts_view_push(s: Seq<NodeStmt>, x: NodeStmt)
    ensures
        stmts_view(s.push(x)) == stmts_view(s).push(stmt_view(x)),
{
    assert(s.push(x).drop_last() =~= s);
}

pub proof fn lemma_stmts_view_len(s: Seq<NodeStmt>)
    ensures
        stmts_view(s).len() == s.len(),
    decreases s.len(),
{
    if s.len() > 0 {
        lemma_stmts_view_len(s.drop_last());
    }
}

pub proof fn lemma_stmts_view_index(s: Seq<NodeStmt>, i: int)
    requires
        0 <= i < s.len(),
    ensures
        stmts_view(s)[i] == stmt_view(s[i]),
    decreases s.len(),
{
    lemma_stmts_view_len(s.drop_last());
    if i < s.len() - 1 {
        lemma_stmts_view_index(s.drop_last(), i);
    }
}

/// The text of a base expression.
pub open spec fn base_text(b: NodeBaseExpr) -> Seq<char> {
    match b {
        NodeBaseExpr::Num(Token::Number { value, .. }) => value@,
        NodeBaseExpr::ID(Token::ID { name, .. }) => name@,
        NodeBaseExpr::Bool(Token::Boolean { value, .. }) => if value {
            "true"@
        } else {
            "false"@
        },
        _ => "Invalid base expression"@,
    }
}

/// The text of an operation: `lhs op rhs`, nested operations in brackets.
pub open spec fn operation_text(o: NodeArithmeticOperation) -> Seq<char>
    decreases o,
{
    operand_text(o.lhs) + " "@ + o.op.symbol() + " "@ + operand_text(o.rhs)
}

pub open spec fn operand_text(o: NodeOperand) -> Seq<char>
    decreases o,
{
    match o {
        NodeOperand::Operation(b) => "("@ + operation_text(*b) + ")"@,
        NodeOperand::Base(b) => base_text(b),
    }
}

pub open spec fn expr_text(e: NodeArithmeticExpr) -> Seq<char> {
    match e {
        NodeArithmeticExpr::Base(b) => base_text(b),
        NodeArithmeticExpr::Operation(o) => operation_text(o),
    }
}

pub open spec fn assignment_text(v: NodeVariableAssignment) -> Seq<char> {
    match v.variable {
        Token::ID { name, .. } => name@ + " = "@ + expr_text(v.value),
        _ => "Invalid variable token"@,
    }
}

/// The text of a statement; a block prints its statements between braces.
pub open spec fn stmt_text(s: StmtView) -> Seq<char>
    decreases s,
{
    match s {
        StmtView::Exit(e) => "exit("@ + expr_text(e.expr) + ")"@,
        StmtView::Print(p) => "print("@ + expr_text(p.expr) + ")"@,
        StmtView::ID(v) => assignment_text(v),
        StmtView::Scope(stmts) => "{"@ + stmts_text(stmts) + "}"@,
    }
}

pub open spec fn stmts_text(s: Seq<StmtView>) -> Seq<char>
    decreases s,
{
    if s.len() == 0 {
        Seq::empty()
    } else {
        stmts_text(s.drop_last()) + stmt_text(s.last())
    }
}

/// The statements' texts, one per line.
pub open spec fn program_text(s: Seq<StmtView>) -> Seq<char>
    decreases s.len(),
{
    if s.len() == 0 {
        Seq::empty()
    } else if s.len() == 1 {
        stmt_text(s[0])
    } else {
        program_text(s.drop_last()) + "\n"@ + stmt_text(s.last())
    }
}

impl NodeBaseExpr {
    /// The text of `format!("{}", base)`.
    pub fn to_string(&self) -> (r: String)
        ensures
            r@ == base_text(*self),
    {
        match self {
            NodeBaseExpr::Num(Token::Number { value, .. }) => value.clone(),
            NodeBaseExpr::ID(Token::ID { name, .. }) => name.clone(),
            NodeBaseExpr::Bool(Token::Boolean { value, .. }) => if *value {
                str_to_string("true")
            } else {
                str_to_string("false")
            },
            _ => str_to_string("Invalid base expression"),
        }
    }

    /// A copy of the base expression.
    pub fn duplicate(&self) -> (r: NodeBaseExpr)
        ensures
            r == *self,
    {
        match self {
            NodeBaseExpr::Num(t) => NodeBaseExpr::Num(t.duplicate()),
            NodeBaseExpr::ID(t) => NodeBaseExpr::ID(t.duplicate()),
            NodeBaseExpr::Bool(t) => NodeBaseExpr::Bool(t.duplicate()),
        }
    }
}

impl NodeArithmeticOperation {
    /// The text of `format!("{}", operation)`.
    pub fn to_string(&self) -> (r: String)
        ensures
            r@ == operation_text(*self),
        decreases self,
    {
        let mut s = self.lhs.to_string();
        s.append(" ");
        s.append(self.op.to_string().as_str());
        s.append(" ");
        s.append(self.rhs.to_string().as_str());
        s
    }

    /// A copy of the operation.
    pub fn duplicate(&self) -> (r: NodeArithmeticOperation)
        ensures
            r == *self,
        decreases self,
    {
        NodeArithmeticOperation {
            lhs: self.lhs.duplicate(),
            rhs: self.rhs.duplicate(),
            op: self.op,
            result_type: self.result_type,
        }
    }
}

impl NodeOperand {
    /// The text of an operand: nested operations are put in brackets.
    pub fn to_string(&self) -> (r: String)
        ensures
            r@ == operand_text(*self),
        decreases self,
    {
        match self {
            NodeOperand::Operation(b) => {
                let mut s = str_to_string("(");
                s.append(b.to_string().as_str());
                s.append(")");
                s
            },
            NodeOperand::Base(b) => b.to_string(),
        }
    }

    pub fn duplicate(&self) -> (r: NodeOperand)
        ensures
            r == *self,
        decreases self,
    {
        match self {
            NodeOperand::Operation(b) => NodeOperand::Operation(Box::new(b.duplicate())),
            NodeOperand::Base(b) => NodeOperand::Base(b.duplicate()),
        }
    }
}

impl NodeArithmeticExpr {
    /// The text of `format!("{}", expr)`.
    pub fn to_string(&self) -> (r: String)
        ensures
            r@ == expr_text(*self),
    {
        match self {
            NodeArithmeticExpr::Base(b) => b.to_string(),
            NodeArithmeticExpr::Operation(o) => o.to_string(),
        }
    }

    pub fn duplicate(&self) -> (r: NodeArithmeticExpr)
        ensures
            r == *self,
    {
        match self {
            NodeArithmeticExpr::Base(b) => NodeArithmeticExpr::Base(b.duplicate()),
            NodeArithmeticExpr::Operation(o) => NodeArithmeticExpr::Operation(o.duplicate()),
        }
    }
}

impl NodeVariableAssignment {
    /// The text of `format!("{}", assignment)`.
    pub fn to_string(&self) -> (r: String)
        ensures
            r@ == assignment_text(*self),
    {
        match &self.variable {
            Token::ID { name, .. } => {
                let mut s = name.clone();
                s.append(" = ");
                s.append(self.value.to_string().as_str());
                s
            },
            _ => str_to_string("Invalid variable token"),
        }
    }
}

impl NodeExit {
    /// The text of `format!("{}", exit)`: `exit(expr)`.
    pub fn to_string(&self) -> (r: String)
        ensures
            r@ == "exit("@ + expr_text(self.expr) + ")"@,
    {
        let mut s = str_to_string("exit(");
        s.append(self.expr.to_string().as_str());
        s.append(")");
        s
    }
}

impl NodePrint {
    /// The text of `format!("{}", print)`: `print(expr)`.
    pub fn to_string(&self) -> (r: String)
        ensures
            r@ == "print("@ + expr_text(self.expr) + ")"@,
    {
        let mut s = str_to_string("print(");
        s.append(self.expr.to_string().as_str());
        s.append(")");
        s
    }
}

impl NodeStmt {
    /// The text of `format!("{}", stmt)`.
    pub fn to_string(&self) -> (r: String)
        ensures
            r@ == stmt_text(self@),
        decreases self,
    {
        match self {
            NodeStmt::Exit(e) => e.to_string(),
            NodeStmt::Print(p) => p.to_string(),
            NodeStmt::ID(v) => v.to_string(),
            NodeStmt::Scope(scope) => {
                let mut s = str_to_string("{");
                let mut i: usize = 0;
                while i < scope.stmts.len()
                    invariant
                        *self == NodeStmt::Scope(*scope),
                        i <= scope.stmts.len(),
                        s@ == "{"@ + stmts_text(stmts_view(scope.stmts@.subrange(0, i as int))),
                    decreases scope.stmts.len() - i,
                {
                    proof {
                        assert(scope.stmts@.subrange(0, i + 1) =~= scope.stmts@.subrange(
                            0,
                            i as int,
                        ).push(scope.stmts@[i as int]));
                        lemma_stmts_view_push(
                            scope.stmts@.subrange(0, i as int),
                            scope.stmts@[i as int],
                        );
                    }
                    let ghost prefix = stmts_view(scope.stmts@.subrange(0, i as int));
                    proof {
                        assert(decreases_to!(*self => (*self)->Scope_0));
                        assert(decreases_to!(*scope => scope.stmts));
                        assert(decreases_to!(scope.stmts => scope.stmts@));
                        assert(decreases_to!(scope.stmts@ => scope.stmts@[i as int]));
                        assert(prefix.push(stmt_view(scope.stmts@[i as int])).drop_last() =~= prefix);
                    }
                    let t = scope.stmts[i].to_string();
                    s.append(t.as_str());
                    i = i + 1;
                    assert(s@ =~= "{"@ + stmts_text(stmts_view(scope.stmts@.subrange(0, i as int))));
                }
                assert(scope.stmts@.subrange(0, scope.stmts.len() as int) =~= scope.stmts@);
                s.append("}");
                s
            },
        }
    }
}

impl NodeProgram {
    /// A copy of the program's statements.
    pub fn get_stmts(&self) -> (r: Vec<NodeStmt>)
        ensures
            stmts_view(r@) == self@,
    {
        duplicate_stmts(&self.stmts)
    }

    /// The text of `format!("{}", program)`: one statement per line.
    pub fn to_string(&self) -> (r: String)
        ensures
            r@ == program_text(self@),
    {
        let mut s = String::new();
        let mut i: usize = 0;
        proof {
            lemma_stmts_view_len(self.stmts@);
        }
        while i < self.stmts.len()
            invariant
                i <= self.stmts.len(),
                stmts_view(self.stmts@).len() == self.stmts.len(),
                s@ == program_text(stmts_view(self.stmts@).subrange(0, i as int)),
            decreases self.stmts.len() - i,
        {
            let ghost v = stmts_view(self.stmts@);
            proof {
                lemma_stmts_view_index(self.stmts@, i as int);
                assert(v.subrange(0, i + 1).drop_last() =~= v.subrange(0, i as int));
            }
            let t = self.stmts[i].to_string();
            if i > 0 {
                s.append("\n");
            }
            s.append(t.as_str());
            i = i + 1;
            proof {
                if i == 1 {
                    assert(s@ =~= program_text(v.subrange(0, i as int)));
                } else {
                    assert(s@ =~= program_text(v.subrange(0, i as int)));
                }
            }
        }
        assert(stmts_view(self.stmts@).subrange(0, self.stmts.len() as int) =~= stmts_view(
            self.stmts@,
        ));
        s
    }
}

impl NodeStmt {
    /// A copy of the statement.
    pub fn duplicate(&self) -> (r: NodeStmt)
        ensures
            r@ == self@,
        decreases self,
    {
        match self {
            NodeStmt::Exit(e) => NodeStmt::Exit(NodeExit { expr: e.expr.duplicate() }),
            NodeStmt::Print(p) => NodeStmt::Print(NodePrint { expr: p.expr.duplicate() }),
            NodeStmt::ID(v) => NodeStmt::ID(
                NodeVariableAssignment { variable: v.variable.duplicate(), value: v.value.duplicate() },
            ),
            NodeStmt::Scope(sc) => {
                let mut r: Vec<NodeStmt> = Vec::new();
                let mut i: usize = 0;
                while i < sc.stmts.len()
                    invariant
                        *self == NodeStmt::Scope(*sc),
                        i <= sc.stmts.len(),
                        stmts_view(r@) == stmts_view(sc.stmts@.subrange(0, i as int)),
                    decreases sc.stmts.len() - i,
                {
                    proof {
                        assert(decreases_to!(*self => (*self)->Scope_0));
                        assert(decreases_to!(*sc => sc.stmts));
                        assert(decreases_to!(sc.stmts => sc.stmts@));
                        assert(decreases_to!(sc.stmts@ => sc.stmts@[i as int]));
                    }
                    let d = sc.stmts[i].duplicate();
                    proof {
                        lemma_stmts_view_push(r@, d);
                        lemma_stmts_view_push(sc.stmts@.subrange(0, i as int), sc.stmts@[i as int]);
                        assert(sc.stmts@.subrange(0, i + 1) =~= sc.stmts@.subrange(0, i as int).push(
                            sc.stmts@[i as int],
                        ));
                    }
                    r.push(d);
                    i = i + 1;
                }
                assert(sc.stmts@.subrange(0, sc.stmts.len() as int) =~= sc.stmts@);
                NodeStmt::Scope(NodeScope { stmts: r })
            },
        }
    }
}

/// A copy of a vector of statements.
pub fn duplicate_stmts(v: &Vec<NodeStmt>) -> (r: Vec<NodeStmt>)
    ensures
        stmts_view(r@) == stmts_view(v@),
{
    let mut r: Vec<NodeStmt> = Vec::new();
    let mut i: usize = 0;
    while i < v.len()
        invariant
            i <= v.len(),
            stmts_view(r@) == stmts_view(v@.subrange(0, i as int)),
        decreases v.len() - i,
    {
        let d = v[i].duplicate();
        proof {
            lemma_stmts_view_push(r@, d);
            lemma_stmts_view_push(v@.subrange(0, i as int), v@[i as int]);
            assert(v@.subrange(0, i + 1) =~= v@.subrange(0, i as int).push(v@[i as int]));
        }
        r.push(d);
        i = i + 1;
    }
    assert(v@.subrange(0, v.len() as int) =~= v@);
    r
}

} // verus!
