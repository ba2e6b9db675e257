use lib::error::JangError;
use lib::parser::ast::enum_type_decl::{EnumVariant, EnumVariantType};
use lib::parser::ast::structured_type_decl::StructuredTypeField;
use lib::parser::ast::type_decl::{TypeDecl, TypeDeclVariant};
use lib::parser::grammar::{parse_type_decls, parse_type_decls_from_text};
use lib::parser::lexer::tokenize;

fn parse(text: &str) -> Vec<TypeDecl> {
    match parse_type_decls_from_text(text) {
        Ok(ds) => ds,
        Err(e) => panic!("parse failed: {}", e.to_display_string()),
    }
}

fn field(f: &StructuredTypeField) -> (String, String) {
    (f.name().to_text(), f.ty().name().to_text())
}

fn fields(decl: &TypeDecl) -> Vec<(String, String)> {
    match decl.decl() {
        TypeDeclVariant::Structured(s) => s.fields().iter().map(field).collect(),
        TypeDeclVariant::Enum(_) => panic!("expected a structured type"),
    }
}

fn variants(decl: &TypeDecl) -> &[EnumVariant] {
    match decl.decl() {
        TypeDeclVariant::Enum(e) => e.variants(),
        TypeDeclVariant::Structured(_) => panic!("expected an enum type"),
    }
}

fn pair(a: &str, b: &str) -> (String, String) {
    (a.to_string(), b.to_string())
}

#[test]
fn empty_type_decl() {
    let ds = parse("\n        type X = {}\n        ");
    assert_eq!(ds.len(), 1);
    assert_eq!(ds[0].name().as_str(), "X");
    assert!(fields(&ds[0]).is_empty());
}

#[test]
fn type_decl_one_field() {
    let ds = parse("\n        type X = {\n          field1: i32\n        }\n        ");
    assert_eq!(ds.len(), 1);
    assert_eq!(ds[0].name().as_str(), "X");
    assert_eq!(fields(&ds[0]), vec![pair("field1", "i32")]);
}

#[test]
fn type_decl_many_fields() {
    let ds = parse(
        "\n        type X = {\n          a: i32\n          b: String\n          c: MyCustomType\n        }\n        ",
    );
    assert_eq!(
        fields(&ds[0]),
        vec![pair("a", "i32"), pair("b", "String"), pair("c", "MyCustomType")]
    );
}

#[test]
fn enum_decl_single_variant() {
    let ds = parse("\n        type E =\n          | V1\n        ");
    assert_eq!(ds[0].name().as_str(), "E");
    let vs = variants(&ds[0]);
    assert_eq!(vs.len(), 1);
    assert_eq!(vs[0].name().as_str(), "V1");
    assert!(matches!(vs[0].ty(), EnumVariantType::Empty));
}

#[test]
fn enum_decl_single_variant_with_data() {
    let ds = parse("\n        type E =\n          | V1 i32\n        ");
    let vs = variants(&ds[0]);
    assert_eq!(vs.len(), 1);
    assert_eq!(vs[0].name().as_str(), "V1");
    match vs[0].ty() {
        EnumVariantType::TypeRef(t) => assert_eq!(t.as_str(), "i32"),
        _ => panic!("expected a type reference"),
    }
}

#[test]
fn enum_decl_structured_variant() {
    let ds = parse("\n        type E =\n          | V1 { field1: i32 }\n        ");
    let vs = variants(&ds[0]);
    assert_eq!(vs.len(), 1);
    match vs[0].ty() {
        EnumVariantType::Structured(s) => {
            assert_eq!(s.fields().iter().map(field).collect::<Vec<_>>(), vec![pair("field1", "i32")])
        },
        _ => panic!("expected a structured payload"),
    }
}

#[test]
fn enum_decl_many_variants() {
    let ds = parse(
        "\n        type E =\n          | V1\n          | V2 {\n              f1: i64\n              f2: String\n            }\n          | V3 String\n        ",
    );
    let vs = variants(&ds[0]);
    assert_eq!(vs.len(), 3);
    assert_eq!(vs[0].name().as_str(), "V1");
    assert!(matches!(vs[0].ty(), EnumVariantType::Empty));
    assert_eq!(vs[1].name().as_str(), "V2");
    match vs[1].ty() {
        EnumVariantType::Structured(s) => assert_eq!(
            s.fields().iter().map(field).collect::<Vec<_>>(),
            vec![pair("f1", "i64"), pair("f2", "String")]
        ),
        _ => panic!("expected a structured payload"),
    }
    assert_eq!(vs[2].name().as_str(), "V3");
    match vs[2].ty() {
        EnumVariantType::TypeRef(t) => assert_eq!(t.as_str(), "String"),
        _ => panic!("expected a type reference"),
    }
}

#[test]
fn several_declarations_in_order() {
    let ds = parse("type A = { x: i32 } type B = | P | Q A");
    assert_eq!(ds.len(), 2);
    assert_eq!(ds[0].name().as_str(), "A");
    assert_eq!(ds[1].name().as_str(), "B");
    assert_eq!(variants(&ds[1]).len(), 2);
}

#[test]
fn empty_text_has_no_declarations() {
    assert!(parse("   \n ").is_empty());
}

fn grammar_error(text: &str) -> String {
    match parse_type_decls_from_text(text) {
        Err(JangError::Grammar(m)) => m,
        Err(e) => panic!("expected a grammar error, got {}", e.to_display_string()),
        Ok(_) => panic!("expected a grammar error"),
    }
}

#[test]
fn missing_equals_is_an_error() {
    assert_eq!(grammar_error("type X { }"), "Failed to parse at token 2");
}

#[test]
fn enum_without_variants_is_an_error() {
    assert_eq!(grammar_error("type X ="), "Failed to parse at token 3");
}

#[test]
fn field_without_type_is_an_error() {
    assert_eq!(grammar_error("type X = { a: }"), "Failed to parse at token 6");
}

#[test]
fn unclosed_structured_type_is_an_error() {
    assert_eq!(grammar_error("type X = { a: i32"), "Failed to parse at token 7");
}

#[test]
fn function_declarations_are_not_type_declarations() {
    assert_eq!(grammar_error("fn main() {}"), "Failed to parse at token 0");
}

#[test]
fn grammar_error_display() {
    match parse_type_decls_from_text("type") {
        Err(e) => assert_eq!(e.to_display_string(), "Grammar error: Failed to parse at token 1"),
        Ok(_) => panic!("expected an error"),
    }
}

#[test]
fn lexer_errors_come_first() {
    assert!(matches!(parse_type_decls_from_text("type # = {}"), Err(JangError::Parse(_))));
}

#[test]
fn parse_of_spelled_tokens_gives_the_declarations_back() {
    let ds = parse("type E = | V1 | V2 { a: i32 } | V3 String type S = { x: X y: Y }");
    let mut text = String::new();
    for d in &ds {
        text.push_str(&d.to_display_string());
    }
    let tokens = tokenize(&text).unwrap();
    let again = parse_type_decls(&tokens).unwrap();
    let render = |ds: &Vec<TypeDecl>| ds.iter().map(|d| d.to_display_string()).collect::<Vec<_>>();
    assert_eq!(render(&again), render(&ds));
}

use lib::parser::ast::binary_expression::Expression;
use lib::parser::expression_grammar::parse_expression_from_text;

fn shown(text: &str) -> String {
    match parse_expression_from_text(text) {
        Ok(e) => e.to_display_string(),
        Err(e) => panic!("parse failed: {}", e.to_display_string()),
    }
}

#[test]
fn expression_left_grouping() {
    assert_eq!(shown("a - b - c"), "((a - b) - c)");
    assert_eq!(shown("a / b * c % d"), "(((a / b) * c) % d)");
}

#[test]
fn expression_precedence() {
    assert_eq!(shown("a + b * c"), "(a + (b * c))");
    assert_eq!(shown("a * b + c"), "((a * b) + c)");
    assert_eq!(shown("(8 + 9 % 5) / 2 * (7 - 3) + 6 - 5"), "(((((8 + (9 % 5)) / 2) * (7 - 3)) + 6) - 5)");
}

#[test]
fn expression_atoms() {
    assert_eq!(shown("x"), "x");
    assert_eq!(shown("1.5"), "1.5");
    assert_eq!(shown("((x))"), "x");
    assert!(matches!(parse_expression_from_text("x").unwrap(), Expression::Ident(_)));
}

#[test]
fn expression_display_reads_back() {
    let first = shown("a + b * (c - 1) / d");
    assert_eq!(shown(&first), first);
}

#[test]
fn expression_errors() {
    let err = |text: &str| match parse_expression_from_text(text) {
        Err(JangError::Grammar(m)) => m,
        Err(e) => panic!("expected a grammar error, got {}", e.to_display_string()),
        Ok(_) => panic!("expected an error"),
    };
    assert_eq!(err(""), "Failed to parse at token 0");
    assert_eq!(err("a +"), "Failed to parse at token 2");
    assert_eq!(err("(a"), "Failed to parse at token 2");
    assert_eq!(err("a b"), "Failed to parse at token 1");
    assert_eq!(err("f(x)"), "Failed to parse at token 1");
}
