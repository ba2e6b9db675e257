use lib::interpreter::bytecode::instruction::{JitInstructionBlock, JitTerminalInstruction};
use lib::interpreter::bytecode::instruction_block_list::{BlockId, BlockListBuilder};
use lib::interpreter::bytecode::lexical_scope::JitCompilerLexicalScope;
use lib::interpreter::bytecode::local_table::{LocalId, LocalTable};
use lib::interpreter::interpreter::ExecutionScope;
use lib::interpreter::value::Value;
use lib::parser::ast::jang_file::JangFileBuilder;
use lib::parser::token::ident::Ident;

fn ident(name: &str) -> Ident {
    Ident::new(name.to_string())
}

fn as_i32(v: Option<&Value>) -> Option<i32> {
    match v {
        Some(Value::Int32(n)) => Some(*n),
        Some(_) => panic!("expected an i32"),
        None => None,
    }
}

#[test]
fn lookup_after_bind() {
    let mut scope = ExecutionScope::new();
    let x = ident("x");
    assert_eq!(as_i32(scope.lookup_binding(&x)), None);
    scope.bind(&x, Value::Int32(1));
    assert_eq!(as_i32(scope.lookup_binding(&x)), Some(1));
    scope.bind(&x, Value::Int32(2));
    assert_eq!(as_i32(scope.lookup_binding(&x)), Some(2));
    assert_eq!(as_i32(scope.lookup_binding(&ident("y"))), None);
}

#[test]
fn inner_scope_hides_and_pop_restores() {
    let x = ident("x");
    let y = ident("y");
    let mut scope = ExecutionScope::new();
    scope.bind(&x, Value::Int32(1));
    scope.bind(&y, Value::Int32(5));
    let mut scope = scope.push_scope();
    assert_eq!(as_i32(scope.lookup_binding(&x)), Some(1));
    scope.bind(&x, Value::Int32(2));
    assert_eq!(as_i32(scope.lookup_binding(&x)), Some(2));
    assert_eq!(as_i32(scope.lookup_binding(&y)), Some(5));
    let scope = scope.pop_scope();
    assert_eq!(as_i32(scope.lookup_binding(&x)), Some(1));
    let scope = scope.pop_scope();
    assert_eq!(as_i32(scope.lookup_binding(&x)), Some(1));
}

#[test]
fn local_table_reads_what_was_written() {
    let mut t: LocalTable<i32> = LocalTable::new();
    assert!(t.read(LocalId::new(0)).is_err());
    t.write(LocalId::new(3), 7);
    assert_eq!(*t.read(LocalId::new(3)).unwrap(), 7);
    assert!(t.read(LocalId::new(1)).is_err());
    t.write(LocalId::new(3), 8);
    t.write(LocalId::new(0), 1);
    assert_eq!(*t.read(LocalId::new(3)).unwrap(), 8);
    assert_eq!(*t.read(LocalId::new(0)).unwrap(), 1);
    match t.read(LocalId::new(9)) {
        Err(e) => assert!(e.to_display_string().contains("bad local read")),
        Ok(_) => panic!("nothing was written there"),
    }
}

#[test]
fn local_ids_count_up() {
    assert_eq!(LocalId::new(4).next().get(), 5);
}

#[test]
fn block_list_builder_fills_allocated_blocks() {
    let mut b: BlockListBuilder<JitInstructionBlock> = BlockListBuilder::new();
    let first = b.allocate_uninitialized();
    let second = b.allocate_uninitialized();
    assert_eq!(first.get(), 0);
    assert_eq!(second.get(), 1);
    b.set(second, JitInstructionBlock::new(vec![], JitTerminalInstruction::Return)).unwrap();
    b.set(first, JitInstructionBlock::new(vec![], JitTerminalInstruction::Jump(second))).unwrap();
    let list = b.build().unwrap();
    assert_eq!(list.len(), 2);
    assert!(list.block(BlockId::new(1)).is_some());
    assert!(list.block(BlockId::new(2)).is_none());
}

#[test]
fn block_list_builder_rejects_unset_blocks() {
    let mut b: BlockListBuilder<JitInstructionBlock> = BlockListBuilder::new();
    let _ = b.allocate_uninitialized();
    match b.build() {
        Err(e) => assert!(!e.to_display_string().is_empty()),
        Ok(_) => panic!("a block was never set"),
    }
}

#[test]
fn lexical_scope_binds_and_exits() {
    let x = ident("x");
    let y = ident("y");
    let mut scope = JitCompilerLexicalScope::new();
    let x_id = scope.bind(&x);
    assert_eq!(scope.get_binding(&x).map(|id| id.get()), Some(x_id.get()));
    let mut scope = scope.enter_block();
    let x_inner = scope.bind(&x);
    let y_id = scope.bind(&y);
    assert_ne!(x_inner.get(), x_id.get());
    assert_eq!(scope.get_binding(&x).map(|id| id.get()), Some(x_inner.get()));
    assert_eq!(scope.get_binding(&y).map(|id| id.get()), Some(y_id.get()));
    let scope = scope.exit_block().unwrap();
    assert_eq!(scope.get_binding(&x).map(|id| id.get()), Some(x_id.get()));
    assert!(scope.get_binding(&y).is_none());
}

#[test]
fn jang_file_keeps_declaration_order() {
    let file = JangFileBuilder::new().add_function_decl("f").add_function_decl("g").build();
    assert_eq!(file.function_decls(), &["f", "g"]);
}

use lib::interpreter::evaluator::{EvalStatus, ExpressionEvaluator};
use lib::parser::expression_grammar::parse_expression_from_text;

fn evaluate(scope: &ExecutionScope, text: &str) -> Result<i32, String> {
    let expr = parse_expression_from_text(text).map_err(|e| e.to_display_string())?;
    let mut ev = ExpressionEvaluator::new(scope, &expr);
    loop {
        assert!(!ev.next_step_overflows());
        match ev.step().map_err(|e| e.to_display_string())? {
            EvalStatus::Running => {},
            EvalStatus::Finished(Value::Int32(v)) => return Ok(v),
            EvalStatus::Finished(_) => return Err("not an i32".to_string()),
            EvalStatus::NeedsFloat(_) => return Err("float work".to_string()),
        }
    }
}

#[test]
fn evaluator_integer_arithmetic() {
    let scope = ExecutionScope::new();
    assert_eq!(evaluate(&scope, "(8 + 9 % 5) / 2 * (7 - 3) + 6 - 5"), Ok(25));
    assert_eq!(evaluate(&scope, "10 - 3 - 2"), Ok(5));
}

#[test]
fn evaluator_looks_up_innermost_binding() {
    let mut scope = ExecutionScope::new();
    scope.bind(&ident("x"), Value::Int32(1));
    let mut scope = scope.push_scope();
    scope.bind(&ident("x"), Value::Int32(2));
    scope.bind(&ident("y"), Value::Int32(3));
    assert_eq!(evaluate(&scope, "x + y * 10"), Ok(32));
}

#[test]
fn evaluator_errors() {
    let scope = ExecutionScope::new();
    assert_eq!(
        evaluate(&scope, "1 + z"),
        Err("Interpret error: Interpreter error: binding for \"z\" not found".to_string())
    );
    assert!(evaluate(&scope, "1 / 0").unwrap_err().contains("division by zero"));
}

#[test]
fn evaluator_hands_out_float_work() {
    let scope = ExecutionScope::new();
    let expr = parse_expression_from_text("1.5").unwrap();
    let mut ev = ExpressionEvaluator::new(&scope, &expr);
    assert!(matches!(ev.step(), Ok(EvalStatus::NeedsFloat(_))));
    ev.resume_with(Value::Float32(1.5f32.to_bits()));
    assert!(matches!(ev.step(), Ok(EvalStatus::Finished(Value::Float32(_)))));
}
