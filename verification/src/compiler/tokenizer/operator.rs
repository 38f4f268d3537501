use vstd::prelude::*;
use crate::compiler::span::Span;
use crate::utility::text::str_to_string;

verus! {

/// An operator of an arithmetic or logical expression, with its position.
#[derive(Clone, Copy, Debug, PartialEq, Eq, Structural)]
pub enum Operator {
    Plus { span: Span },
    Minus { span: Span },
    Multiplication { span: Span },
    Division { span: Span },
    Exponent { span: Span },
    Modulus { span: Span },
    And { span: Span },
    Or { span: Span },
    Xor { span: Span },
    Not { span: Span },
    OpenBracket { span: Span },
    ClosedBracket { span: Span },
}

impl Operator {
    /// Binding strength: additive and logical binary operators bind weakest,
    /// then multiplicative ones, then exponentiation and brackets, then `!!`.
    pub open spec fn spec_precedence(self) -> usize {
        match self {
            Operator::Plus { .. } | Operator::Minus { .. } | Operator::And { .. }
            | Operator::Or { .. } | Operator::Xor { .. } => 0,
            Operator::Multiplication { .. } | Operator::Division { .. }
            | Operator::Modulus { .. } => 1,
            Operator::OpenBracket { .. } | Operator::ClosedBracket { .. }
            | Operator::Exponent { .. } => 2,
            Operator::Not { .. } => 3,
        }
    }

    /// Exponentiation and negation group from the right, all others from the
    /// left.
    pub open spec fn is_right_associative(self) -> bool {
        self is Exponent || self is Not
    }

    pub open spec fn span_of(self) -> Span {
        match self {
            Operator::Plus { span }
            | Operator::Minus { span }
            | Operator::Multiplication { span }
            | Operator::Division { span }
            | Operator::Exponent { span }
            | Operator::Modulus { span }
            | Operator::And { span }
            | Operator::Or { span }
            | Operator::Xor { span }
            | Operator::Not { span }
            | Operator::OpenBracket { span }
            | Operator::ClosedBracket { span } => span,
        }
    }

    /// The symbol that stands for the operator in printed expressions.
    pub open spec fn symbol(self) -> Seq<char> {
        match self {
            Operator::Plus { .. } => "+"@,
            Operator::Minus { .. } => "-"@,
            Operator::Multiplication { .. } => "*"@,
            Operator::Division { .. } => "/"@,
            Operator::Exponent { .. } => "^"@,
            Operator::Modulus { .. } => "%"@,
            Operator::And { .. } => "&&"@,
            Operator::Or { .. } => "||"@,
            Operator::Xor { .. } => "^|"@,
            Operator::Not { .. } => "!!"@,
            Operator::OpenBracket { .. } => "("@,
            Operator::ClosedBracket { .. } => ")"@,
        }
    }

    pub fn precedence(self) -> (r: usize)
        ensures
            r == self.spec_precedence(),
    {
        match self {
            Operator::Plus { .. } | Operator::Minus { .. } | Operator::And { .. }
            | Operator::Or { .. } | Operator::Xor { .. } => 0,
            Operator::Multiplication { .. } | Operator::Division { .. }
            | Operator::Modulus { .. } => 1,
            Operator::OpenBracket { .. } | Operator::ClosedBracket { .. }
            | Operator::Exponent { .. } => 2,
            Operator::Not { .. } => 3,
        }
    }

    /// `"Right"` for right-associative operators, `"Left"` for the others.
    pub fn associativity(self) -> (r: String)
        ensures
            r@ == (if self.is_right_associative() { "Right"@ } else { "Left"@ }),
    {
        match self {
            Operator::Exponent { .. } | Operator::Not { .. } => str_to_string("Right"),
            _ => str_to_string("Left"),
        }
    }

    pub fn get_span(&self) -> (r: Span)
        ensures
            r == self.span_of(),
    {
        match self {
            Operator::Plus { span }
            | Operator::Minus { span }
            | Operator::Multiplication { span }
            | Operator::Division { span }
            | Operator::Exponent { span }
            | Operator::Modulus { span }
            | Operator::And { span }
            | Operator::Or { span }
            | Operator::Xor { span }
            | Operator::Not { span }
            | Operator::OpenBracket { span }
            | Operator::ClosedBracket { span } => *span,
        }
    }

    /// The operator's symbol as a string.
    pub fn to_string(&self) -> (r: String)
        ensures
            r@ == self.symbol(),
    {
        let symbol = match self {
            Operator::Plus { .. } => "+",
            Operator::Minus { .. } => "-",
            Operator::Multiplication { .. } => "*",
            Operator::Division { .. } => "/",
            Operator::Exponent { .. } => "^",
            Operator::Modulus { .. } => "%",
            Operator::And { .. } => "&&",
            Operator::Or { .. } => "||",
            Operator::Xor { .. } => "^|",
            Operator::Not { .. } => "!!",
            Operator::OpenBracket { .. } => "(",
            Operator::ClosedBracket { .. } => ")",
        };
        str_to_string(symbol)
    }
}

} // verus!
