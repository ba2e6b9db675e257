use lib::parser::ast::binary_expression::{BinaryExpression, BinaryOp, Expression};
use lib::parser::ast::code_formatter::{format_pieces, CodeFormatter};
use lib::parser::ast::enum_type_decl::{EnumTypeDeclBuilder, EnumVariant, EnumVariantType};
use lib::parser::ast::structured_type_decl::{StructuredTypeDeclBuilder, StructuredTypeField};
use lib::parser::ast::type_decl::{TypeDecl, TypeDeclVariant};
use lib::parser::ast::type_expr::TypeExpression;
use lib::parser::grammar::parse_type_decls_from_text;
use lib::parser::token::ident::Ident;
use lib::parser::token::literal::{Literal, NumericLiteral};

fn remove_leading_whitespace(code: &str) -> String {
    let code = code.strip_prefix('\n').unwrap_or(code);
    let leading = code.chars().take_while(|ch| *ch == ' ').count();
    let prefix = " ".repeat(leading);
    code.lines()
        .map(|line| line.strip_prefix(&prefix).unwrap_or_default())
        .collect::<Vec<_>>()
        .join("\n")
}

fn check_print_roundtrip(formatted_code: &str) {
    let formatted_code = remove_leading_whitespace(formatted_code);
    let decls = parse_type_decls_from_text(&formatted_code).unwrap();
    let mut printed = String::new();
    for d in &decls {
        printed.push_str(&d.format_code().unwrap());
    }
    assert_eq!(printed, formatted_code);
}

#[test]
fn roundtrip_structured_type() {
    let code = r#"
      type X = {
        field1: i32
        field2: String
      }
    "#;
    check_print_roundtrip(code)
}

#[test]
fn roundtrip_enum_type() {
    let code = r#"
      type E = 
      | V1 
      | V2 {
        field1: i32
        field2: String
      }
      | V3 String
    "#;
    check_print_roundtrip(code)
}

fn ident(name: &str) -> Ident {
    Ident::new(name.to_string())
}

fn field(name: &str, ty: &str) -> StructuredTypeField {
    StructuredTypeField::new(ident(name), TypeExpression::new(ident(ty)))
}

#[test]
fn structured_type_displays_one_field_per_line() {
    let s = StructuredTypeDeclBuilder::new()
        .add_field(field("a", "i32"))
        .add_field(field("b", "String"))
        .build();
    assert_eq!(s.to_display_string(), "{\na: i32\nb: String\n}");
    let d = TypeDecl::new(ident("X"), TypeDeclVariant::from(s));
    assert_eq!(d.to_display_string(), "type X = {\na: i32\nb: String\n}\n");
    assert_eq!(d.format_code().unwrap(), "type X = {\n  a: i32\n  b: String\n}\n");
}

#[test]
fn enum_type_displays_one_variant_per_line() {
    let e = EnumTypeDeclBuilder::new()
        .add_variant(EnumVariant::new(ident("A"), EnumVariantType::Empty))
        .add_variant(EnumVariant::new(ident("B"), EnumVariantType::from(ident("i32"))))
        .build();
    assert_eq!(e.to_display_string(), "\n| A \n| B i32\n");
    let d = TypeDecl::new(ident("E"), TypeDeclVariant::from(e));
    assert_eq!(d.to_display_string(), "type E = \n| A \n| B i32\n\n");
    assert_eq!(d.format_code().unwrap(), "type E = \n| A \n| B i32\n");
}

#[test]
fn nested_structured_variant_is_indented() {
    let s = StructuredTypeDeclBuilder::new().add_field(field("f", "i64")).build();
    let e = EnumTypeDeclBuilder::new()
        .add_variant(EnumVariant::new(ident("V"), EnumVariantType::from(s)))
        .build();
    let d = TypeDecl::new(ident("E"), TypeDeclVariant::from(e));
    assert_eq!(d.format_code().unwrap(), "type E = \n| V {\n  f: i64\n}\n");
}

#[test]
fn formatter_indents_by_braces() {
    let mut f = CodeFormatter::new();
    for piece in ["fn f() {", "\n", "let x = 1", "\n", "{", "\n", "ret x", "\n", "}", "\n", "}", "\n"] {
        assert!(f.write_str(piece));
    }
    assert_eq!(f.finish(), "fn f() {\n  let x = 1\n  {\n    ret x\n  }\n}\n");
}

#[test]
fn lines_within_one_write_are_joined() {
    let mut f = CodeFormatter::new();
    assert!(f.write_str("a\nb"));
    assert_eq!(f.finish(), "ab");
}

#[test]
fn formatter_rejects_unbalanced_close() {
    let mut f = CodeFormatter::new();
    assert!(!f.write_str("}"));
}

#[test]
fn format_pieces_rejects_open_brace_at_end() {
    assert!(format_pieces(&vec!["a {".to_string()]).is_none());
    assert_eq!(format_pieces(&vec!["a {".to_string(), "\n".to_string(), "}".to_string()]), Some("a {\n}".to_string()));
}

#[test]
fn formatter_keeps_what_was_written() {
    let mut f = CodeFormatter::new();
    assert!(f.write_str("abc"));
    assert!(f.write_str("def\n"));
    assert!(f.write_str("ghi"));
    assert_eq!(f.finish(), "abcdef\nghi");
}

#[test]
fn expressions_display_with_parentheses() {
    let one = Expression::Literal(Literal::Numeric(NumericLiteral::from_str("1".to_string())));
    let x = Expression::Ident(ident("x"));
    let inner = BinaryExpression::new(x, one, BinaryOp::Mul);
    assert_eq!(inner.to_display_string(), "x * 1");
    let y = Expression::Ident(ident("y"));
    let outer = BinaryExpression::new(y, Expression::BinaryExpression(inner), BinaryOp::Add);
    assert_eq!(outer.to_display_string(), "y + (x * 1)");
    let e = Expression::BinaryExpression(outer.clone());
    assert_eq!(e.to_display_string(), "(y + (x * 1))");
    assert!(matches!(outer.op(), BinaryOp::Add));
    assert_eq!(outer.lhs().to_display_string(), "y");
    assert_eq!(outer.rhs().to_display_string(), "(x * 1)");
}

#[test]
fn binary_operator_texts() {
    let all = [
        (BinaryOp::Add, "+"),
        (BinaryOp::Sub, "-"),
        (BinaryOp::Mul, "*"),
        (BinaryOp::Div, "/"),
        (BinaryOp::Mod, "%"),
        (BinaryOp::Equal, "=="),
        (BinaryOp::GreaterThan, ">"),
        (BinaryOp::GreaterThanEqual, ">="),
        (BinaryOp::LessThan, "<"),
        (BinaryOp::LessThanEqual, "<="),
        (BinaryOp::NotEqual, "!="),
    ];
    for (op, text) in all {
        assert_eq!(op.to_text(), text);
    }
}

#[test]
fn formatted_declarations_read_back_together() {
    let text = "type A = { x: i32 y: B } type B = | P | Q { z: A } | R i64";
    let decls = parse_type_decls_from_text(text).unwrap();
    let mut formatted = String::new();
    for d in &decls {
        formatted.push_str(&d.format_code().unwrap());
    }
    assert_eq!(
        formatted,
        "type A = {\n  x: i32\n  y: B\n}\ntype B = \n| P \n| Q {\n  z: A\n}\n| R i64\n"
    );
    let again = parse_type_decls_from_text(&formatted).unwrap();
    let shown = |ds: &Vec<TypeDecl>| ds.iter().map(|d| d.to_display_string()).collect::<Vec<_>>();
    assert_eq!(shown(&again), shown(&decls));
}
