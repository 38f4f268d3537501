pub mod expression_factory;
pub mod nodes;
pub mod parser;
pub mod parser_logger;
pub mod statement_factory;
pub mod token_stream;

pub use expression_factory::ExpressionFactory;
pub use nodes::{
    NodeArithmeticExpr, NodeArithmeticOperation, NodeBaseExpr, NodeExit, NodeOperand, NodePrint,
    NodeProgram, NodeScope, NodeStmt, NodeVariableAssignment, ResultType, StmtView,
};
pub use parser::Parser;
pub use parser_logger::{ParserErrorType, ParserLogger};
pub use statement_factory::StatementFactory;
