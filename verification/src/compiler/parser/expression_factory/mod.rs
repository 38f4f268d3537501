pub mod expression_factory;
pub mod reverse_polish_notation;

pub use expression_factory::ExpressionFactory;
pub use reverse_polish_notation::ReversePolishNotation;
