use lib::interpreter::bytecode::instruction::{
    JitCallInstruction, JitCompiledFunction, JitInstruction, JitInstructionBlock,
    JitTerminalInstruction,
};
use lib::interpreter::bytecode::instruction_block_list::{BlockId, BlockList};
use lib::interpreter::bytecode::local_table::LocalId;
use lib::interpreter::bytecode::machine::{ErrorView, JitFunctionContext, Machine, MachineStatus};
use lib::interpreter::error::{InterpreterError, InterpreterResult};
use lib::interpreter::value::Value;
use lib::parser::ast::binary_expression::BinaryOp;
use lib::parser::token::ident::Ident;
use lib::parser::token::literal::{Literal, NumericLiteral};
use vstd::seq::Seq;

struct EmptyContext;

impl<'a> JitFunctionContext<'a> for EmptyContext {
    fn spec_resolve(&self, _name: Seq<char>) -> Result<Value<'a>, ErrorView> {
        unreachable!("a specification, never called")
    }

    fn resolve_ident(&'a self, name: &Ident) -> InterpreterResult<Value<'a>> {
        Err(InterpreterError::generic_err(format!(
            "not found in empty context: {}",
            name.as_str()
        )))
    }
}

struct ConstContext<'a> {
    vals: Vec<(Ident, Value<'a>)>,
}

impl<'a> JitFunctionContext<'a> for ConstContext<'a> {
    fn spec_resolve(&self, _name: Seq<char>) -> Result<Value<'a>, ErrorView> {
        unreachable!("a specification, never called")
    }

    fn resolve_ident(&'a self, name: &Ident) -> InterpreterResult<Value<'a>> {
        for (n, v) in &self.vals {
            if n.same_name(name) {
                return Ok(*v);
            }
        }
        Err(InterpreterError::generic_err(format!(
            "not found in test context: {}",
            name.as_str()
        )))
    }
}

fn block<'a>(
    instructions: Vec<JitInstruction<'a>>,
    terminator: JitTerminalInstruction,
) -> JitInstructionBlock<'a> {
    JitInstructionBlock::new(instructions, terminator)
}

fn function_bytecode<'a>(blocks: Vec<JitInstructionBlock<'a>>) -> JitCompiledFunction<'a> {
    JitCompiledFunction::new(BlockId::new(0), BlockList::from_blocks(blocks))
}

/// Runs a function to its end; these programs do no floating-point work.
fn evaluate_function<'a, C: JitFunctionContext<'a>>(
    jit_fn: &'a JitCompiledFunction<'a>,
    args: Vec<Value<'a>>,
    context: &'a C,
) -> InterpreterResult<Value<'a>> {
    let mut machine = Machine::new(jit_fn, args)?;
    loop {
        assert!(!machine.next_step_overflows());
        match machine.step(context)? {
            MachineStatus::Running => {},
            MachineStatus::Finished(v) => return Ok(v),
            MachineStatus::NeedsFloat(_) => panic!("no floating-point work expected"),
        }
    }
}

fn evaluate_unary_fn<'a>(jit_fn: &'a JitCompiledFunction<'a>) -> InterpreterResult<Value<'a>> {
    evaluate_function(jit_fn, Vec::new(), &EmptyContext)
}

fn error_text<T>(r: InterpreterResult<T>) -> String {
    match r {
        Ok(_) => panic!("expected an error"),
        Err(e) => e.to_display_string(),
    }
}

fn literal(text: &str) -> Literal {
    Literal::Numeric(NumericLiteral::from_str(text.to_string()))
}

#[test]
fn ret_returns_none() {
    let code = function_bytecode(vec![block(
        vec![JitInstruction::LoadUnit],
        JitTerminalInstruction::Return,
    )]);
    assert!(matches!(evaluate_unary_fn(&code), Ok(Value::Unit)));
}

#[test]
fn ret_with_value_on_empty_stack_errors() {
    let code = function_bytecode(vec![block(vec![], JitTerminalInstruction::Return)]);
    assert!(error_text(evaluate_unary_fn(&code)).contains("bad stack: empty"));
}

#[test]
fn load_uninitialized_local_errors() {
    let code = function_bytecode(vec![block(
        vec![JitInstruction::LoadLocal(LocalId::new(0))],
        JitTerminalInstruction::Return,
    )]);
    assert!(error_text(evaluate_unary_fn(&code)).contains("bad local read"));
}

#[test]
fn store_then_load_local_round_trips() {
    let one = literal("1");
    let code = function_bytecode(vec![block(
        vec![
            JitInstruction::LoadLiteral(&one),
            JitInstruction::StoreLocal(LocalId::new(0)),
            JitInstruction::LoadLocal(LocalId::new(0)),
        ],
        JitTerminalInstruction::Return,
    )]);
    assert!(matches!(evaluate_unary_fn(&code), Ok(Value::Int32(1))));
}

#[test]
fn global_not_found() {
    let global = Ident::new("x".to_string());
    let code = function_bytecode(vec![block(
        vec![JitInstruction::LoadGlobal(&global)],
        JitTerminalInstruction::Return,
    )]);
    assert!(error_text(evaluate_unary_fn(&code)).contains("not found in empty context"));
}

#[test]
fn subtraction_uses_rhs_lhs_order() {
    let two = literal("2");
    let one = literal("1");
    let code = function_bytecode(vec![block(
        vec![
            JitInstruction::LoadLiteral(&two),
            JitInstruction::LoadLiteral(&one),
            JitInstruction::BinaryOp(BinaryOp::Sub),
        ],
        JitTerminalInstruction::Return,
    )]);
    assert!(matches!(evaluate_unary_fn(&code), Ok(Value::Int32(1))));
}

#[test]
fn function_call() {
    let sub_function = function_bytecode(vec![block(
        vec![
            JitInstruction::StoreLocal(LocalId::new(0)),
            JitInstruction::LoadLocal(LocalId::new(0)),
            JitInstruction::StoreLocal(LocalId::new(1)),
            JitInstruction::LoadLocal(LocalId::new(1)),
            JitInstruction::BinaryOp(BinaryOp::Sub),
        ],
        JitTerminalInstruction::Return,
    )]);
    let sub_function_name = Ident::new("sub".to_string());
    let context = ConstContext {
        vals: vec![(sub_function_name.clone(), Value::JitCompiledFunctionRef(&sub_function))],
    };

    let two = literal("2");
    let one = literal("1");
    let code = function_bytecode(vec![block(
        vec![
            JitInstruction::LoadLiteral(&two),
            JitInstruction::LoadLiteral(&one),
            JitInstruction::LoadGlobal(&sub_function_name),
            JitInstruction::Call(JitCallInstruction::with_arity(2)),
        ],
        JitTerminalInstruction::Return,
    )]);
    assert!(matches!(
        evaluate_function(&code, Vec::new(), &context),
        Ok(Value::Int32(1))
    ));
}

#[test]
fn call_passes_arguments_in_push_order() {
    // The callee computes a * 100 + b * 10 + c of its three arguments.
    let hundred = literal("100");
    let ten = literal("10");
    let combine = function_bytecode(vec![block(
        vec![
            JitInstruction::StoreLocal(LocalId::new(2)),
            JitInstruction::StoreLocal(LocalId::new(1)),
            JitInstruction::StoreLocal(LocalId::new(0)),
            JitInstruction::LoadLocal(LocalId::new(0)),
            JitInstruction::LoadLiteral(&hundred),
            JitInstruction::BinaryOp(BinaryOp::Mul),
            JitInstruction::LoadLocal(LocalId::new(1)),
            JitInstruction::LoadLiteral(&ten),
            JitInstruction::BinaryOp(BinaryOp::Mul),
            JitInstruction::BinaryOp(BinaryOp::Add),
            JitInstruction::LoadLocal(LocalId::new(2)),
            JitInstruction::BinaryOp(BinaryOp::Add),
        ],
        JitTerminalInstruction::Return,
    )]);
    let name = Ident::new("combine".to_string());
    let context = ConstContext { vals: vec![(name.clone(), Value::JitCompiledFunctionRef(&combine))] };
    let (one, two, three) = (literal("1"), literal("2"), literal("3"));
    let code = function_bytecode(vec![block(
        vec![
            JitInstruction::LoadLiteral(&one),
            JitInstruction::LoadLiteral(&two),
            JitInstruction::LoadLiteral(&three),
            JitInstruction::LoadGlobal(&name),
            JitInstruction::Call(JitCallInstruction::with_arity(3)),
        ],
        JitTerminalInstruction::Return,
    )]);
    assert!(matches!(
        evaluate_function(&code, Vec::new(), &context),
        Ok(Value::Int32(123))
    ));
}

#[test]
fn conditional_jump_takes_true_branch_on_nonzero() {
    let zero = literal("0");
    let seven = literal("7");
    let nine = literal("9");
    let code = function_bytecode(vec![
        block(
            vec![JitInstruction::LoadLiteral(&seven)],
            JitTerminalInstruction::ConditionalJump(
                lib::interpreter::bytecode::instruction::ConditionalJumpTargets::new(
                    BlockId::new(1),
                    BlockId::new(2),
                ),
            ),
        ),
        block(vec![JitInstruction::LoadLiteral(&nine)], JitTerminalInstruction::Return),
        block(vec![JitInstruction::LoadLiteral(&zero)], JitTerminalInstruction::Return),
    ]);
    assert!(matches!(evaluate_unary_fn(&code), Ok(Value::Int32(9))));
}

#[test]
fn jump_to_missing_block_errors() {
    let code = function_bytecode(vec![block(vec![], JitTerminalInstruction::Jump(BlockId::new(5)))]);
    assert!(error_text(evaluate_unary_fn(&code)).contains("target block must exist"));
}

#[test]
fn division_by_zero_errors() {
    let one = literal("1");
    let zero = literal("0");
    let code = function_bytecode(vec![block(
        vec![
            JitInstruction::LoadLiteral(&one),
            JitInstruction::LoadLiteral(&zero),
            JitInstruction::BinaryOp(BinaryOp::Div),
        ],
        JitTerminalInstruction::Return,
    )]);
    assert!(error_text(evaluate_unary_fn(&code)).contains("division by zero"));
}

#[test]
fn calling_a_non_function_errors() {
    let one = literal("1");
    let code = function_bytecode(vec![block(
        vec![
            JitInstruction::LoadLiteral(&one),
            JitInstruction::Call(JitCallInstruction::with_arity(0)),
        ],
        JitTerminalInstruction::Return,
    )]);
    assert!(error_text(evaluate_unary_fn(&code))
        .contains("expected value to be a JIT-compiled function: Int32(1)"));
}

#[test]
fn float_literal_asks_for_float_work() {
    let half = literal("0.5");
    let code = function_bytecode(vec![block(
        vec![JitInstruction::LoadLiteral(&half)],
        JitTerminalInstruction::Return,
    )]);
    let mut machine = Machine::new(&code, Vec::new()).unwrap();
    match machine.step(&EmptyContext) {
        Ok(MachineStatus::NeedsFloat(_)) => {},
        _ => panic!("expected a request for floating-point work"),
    }
    machine.resume_with(Value::Float32(0.5f32.to_bits()));
    match machine.step(&EmptyContext) {
        Ok(MachineStatus::Finished(Value::Float32(bits))) => assert_eq!(f32::from_bits(bits), 0.5),
        _ => panic!("expected the float value back"),
    }
}

#[test]
fn overflowing_addition_is_reported_before_the_step() {
    let max = literal("2147483647");
    let one = literal("1");
    let code = function_bytecode(vec![block(
        vec![
            JitInstruction::LoadLiteral(&max),
            JitInstruction::LoadLiteral(&one),
            JitInstruction::BinaryOp(BinaryOp::Add),
        ],
        JitTerminalInstruction::Return,
    )]);
    let mut machine = Machine::new(&code, Vec::new()).unwrap();
    assert!(!machine.next_step_overflows());
    assert!(matches!(machine.step(&EmptyContext), Ok(MachineStatus::Running)));
    assert!(!machine.next_step_overflows());
    assert!(matches!(machine.step(&EmptyContext), Ok(MachineStatus::Running)));
    assert!(machine.next_step_overflows());
}

#[test]
fn function_value_is_shown_in_its_debug_form() {
    let code = function_bytecode(vec![block(
        vec![JitInstruction::LoadUnit],
        JitTerminalInstruction::Return,
    )]);
    let v = Value::JitCompiledFunctionRef(&code);
    assert_eq!(
        error_text(v.is_truthy()),
        "Interpreter error for value: unexpected value in truthy check: \
         JitCompiledFunctionRef(JitCompiledFunction { entrypoint: BlockId(0), blocks: \
         BlockList { blocks: [JitInstructionBlock { instructions: [LoadUnit], terminator: \
         Return }] } })"
    );
}

#[test]
fn function_value_message_matches_derived_debug() {
    let x = Ident::new("x\"y".to_string());
    let one = literal("1");
    let half = literal("0.5");
    let code = function_bytecode(vec![
        block(
            vec![
                JitInstruction::LoadGlobal(&x),
                JitInstruction::LoadLiteral(&one),
                JitInstruction::LoadLiteral(&half),
                JitInstruction::LoadLocal(LocalId::new(2)),
                JitInstruction::StoreLocal(LocalId::new(13)),
                JitInstruction::BinaryOp(BinaryOp::GreaterThanEqual),
                JitInstruction::LoadUnit,
                JitInstruction::Call(JitCallInstruction::with_arity(2)),
            ],
            JitTerminalInstruction::ConditionalJump(
                lib::interpreter::bytecode::instruction::ConditionalJumpTargets::new(
                    BlockId::new(1),
                    BlockId::new(2),
                ),
            ),
        ),
        block(vec![], JitTerminalInstruction::Jump(BlockId::new(0))),
        block(vec![], JitTerminalInstruction::Return),
    ]);
    let v = Value::JitCompiledFunctionRef(&code);
    let shown = format!("{:?}", v);
    assert!(shown.contains("LoadGlobal(Ident(\"x\\\"y\"))"));
    assert!(shown.contains("LoadLiteral(Numeric(Float(\"0.5\")))"));
    assert!(shown.contains("Call(JitCallInstruction { arity: 2 })"));
    assert_eq!(
        error_text(v.is_truthy()),
        format!("Interpreter error for value: unexpected value in truthy check: {}", shown)
    );
    assert_eq!(
        error_text(v.add(&Value::Int32(1))),
        "Interpreter error for value: add: non-numeric value: <compiled-bytecode>"
    );
    match lib::interpreter::machine::main_result(v) {
        Err(e) => assert_eq!(
            e.to_display_string(),
            format!("Interpreter error for value: invalid return value from main: {}", shown)
        ),
        Ok(_) => panic!("a function is no return value of main"),
    }
}
