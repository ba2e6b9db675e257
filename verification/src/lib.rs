pub mod error;
pub mod interpreter;
pub mod parser;
pub mod source_location;
pub mod text;
