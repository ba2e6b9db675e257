pub mod binary_expression;
pub mod code_formatter;
pub mod enum_type_decl;
pub mod expression;
pub mod jang_file;
pub mod structured_type_decl;
pub mod type_decl;
pub mod type_expr;
