pub mod bytecode;
pub mod error;
pub mod evaluator;
pub mod interpreter;
pub mod machine;
pub mod parse_as;
pub mod value;
