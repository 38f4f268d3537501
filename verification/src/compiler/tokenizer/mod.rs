pub mod operator;
pub mod parenthesis_handler;
pub mod token;
pub mod tokenizer;

pub use operator::Operator;

pub use token::{Token, TokenView};

pub use parenthesis_handler::ParenthesisHandler;
pub use tokenizer::{Tokenizer, TokenizerState};
