pub mod ast;
pub mod expression_grammar;
pub mod grammar;
pub mod layout;
pub mod lexer;
pub mod token;
