//! The stack machine that runs compiled functions, one instruction at a time.
use vstd::prelude::*;
use crate::interpreter::bytecode::instruction::{
    ConditionalJumpTargets, JitCallInstruction, JitCompiledFunction, JitInstruction,
    JitInstructionBlock, JitTerminalInstruction,
};
use crate::interpreter::bytecode::instruction_block_list::BlockId;
use crate::interpreter::bytecode::local_table::{
    lemma_read_after_write, spec_read, spec_write, LocalId, LocalSlot, LocalTable,
};
use crate::interpreter::error::{InterpreterError, InterpreterErrorKind, InterpreterResult};
use crate::interpreter::parse_as::{int_error_text, spec_parse_i32};
use crate::interpreter::value::{
    arith_overflows, arith_prefix, arith_result, by_zero_message, is_arith_op, literal_result,
    spec_int_arith, spec_numeric_pair, value_debug, Computed, FloatWork, FloatWorkView,
    NumericValuePair, Value,
};
use crate::parser::ast::binary_expression::{binary_op_text, BinaryOp};
use crate::parser::token::ident::Ident;
use crate::parser::token::literal::{LiteralView, NumericLiteralView};
use crate::text::text_of;

verus! {

/// The model of an interpreter error: its kind and message.
pub type ErrorView = (InterpreterErrorKind, Seq<char>);

/// Resolves the global names that compiled code loads.
pub trait JitFunctionContext<'a> {
    /// What the context resolves the name `name` to: a value, or an error.
    spec fn spec_resolve(&self, name: Seq<char>) -> Result<Value<'a>, ErrorView>;

    /// Resolves `name`: the value or the error that `spec_resolve` gives.
    fn resolve_ident(&'a self, name: &Ident) -> (r: InterpreterResult<Value<'a>>)
        ensures
            match r {
                Ok(v) => self.spec_resolve(name@) == Ok::<Value<'a>, ErrorView>(v),
                Err(e) => self.spec_resolve(name@) == Err::<Value<'a>, ErrorView>(e@),
            },
    ;
}

/// What the context resolves for the next instruction of `f` when that is
/// a `LoadGlobal`: its name resolved. No other instruction looks at it.
pub open spec fn resolved_global<'a, C: JitFunctionContext<'a>>(f: FrameModel<'a>, context: &C) -> Result<
    Value<'a>,
    ErrorView,
> {
    match instruction_at(f.block, f.index) {
        CurrentInstruction::Instr(instr) => match *instr {
            JitInstruction::LoadGlobal(name) => context.spec_resolve(name@),
            _ => Ok(Value::Unit),
        },
        CurrentInstruction::Term(_) => Ok(Value::Unit),
    }
}

/// The operand stack of one call.
struct MachineStack<'a> {
    items: Vec<Value<'a>>,
}

/// The error for popping an empty stack.
pub open spec fn bad_stack() -> ErrorView {
    (InterpreterErrorKind::Unimplemented, "bad stack: empty"@)
}

impl<'a> MachineStack<'a> {
    fn from_args(args: Vec<Value<'a>>) -> (s: MachineStack<'a>)
        ensures
            s.items@ == args@,
    {
        MachineStack { items: args }
    }

    fn pop_value(&mut self) -> (r: InterpreterResult<Value<'a>>)
        ensures
            old(self).items@.len() > 0 ==> (r matches Ok(v) && v == old(self).items@.last()
                && final(self).items@ == old(self).items@.drop_last()),
            old(self).items@.len() == 0 ==> (r matches Err(e) && e@ == bad_stack()
                && final(self).items@ == old(self).items@),
    {
        match self.items.pop() {
            Some(v) => Ok(v),
            None => Err(InterpreterError::internal_err(text_of("bad stack: empty"))),
        }
    }

    fn push_value(&mut self, value: Value<'a>)
        ensures
            final(self).items@ == old(self).items@.push(value),
    {
        self.items.push(value);
    }
}

/// The instruction that a cursor points at.
#[derive(Clone, Copy)]
pub enum CurrentInstruction<'a> {
    Instr(&'a JitInstruction<'a>),
    Term(&'a JitTerminalInstruction),
}

/// A position in a block: an instruction, or the terminator after them.
struct JitInstructionBlockCursor<'a> {
    block: &'a JitInstructionBlock<'a>,
    instr_index: usize,
}

impl<'a> JitInstructionBlockCursor<'a> {
    fn start_of(block: &'a JitInstructionBlock<'a>) -> (c: JitInstructionBlockCursor<'a>)
        ensures
            c.block == block,
            c.instr_index == 0,
    {
        JitInstructionBlockCursor { block, instr_index: 0 }
    }

    fn next_instruction(&mut self) -> (r: CurrentInstruction<'a>)
        requires
            old(self).instr_index <= old(self).block.spec_instructions().len(),
        ensures
            final(self).block == old(self).block,
            final(self).instr_index == old(self).instr_index + 1,
            r == instruction_at(old(self).block, old(self).instr_index as nat),
    {
        let idx = self.instr_index;
        let instrs = self.block.instructions();
        self.instr_index = idx + 1;
        if idx < instrs.len() {
            CurrentInstruction::Instr(&instrs[idx])
        } else {
            CurrentInstruction::Term(self.block.terminator())
        }
    }
}

/// The instruction at position `index` of `block`; past the instructions,
/// the terminator.
pub open spec fn instruction_at<'a>(block: &'a JitInstructionBlock<'a>, index: nat) -> CurrentInstruction<'a> {
    if index < block.spec_instructions().len() {
        CurrentInstruction::Instr(&block.spec_instructions()[index as int])
    } else {
        CurrentInstruction::Term(block.spec_terminator())
    }
}

/// The model of a call frame.
pub struct FrameModel<'a> {
    pub func: &'a JitCompiledFunction<'a>,
    pub block: &'a JitInstructionBlock<'a>,
    pub index: nat,
    pub locals: Seq<LocalSlot<Value<'a>>>,
    pub stack: Seq<Value<'a>>,
}

/// What a frame asks of the machine after one instruction.
pub enum FrameAction<'a> {
    /// Nothing: go on with the next instruction.
    Continue,
    /// Push a frame for a call of `target_fn` with `args`.
    Call { target_fn: &'a JitCompiledFunction<'a>, args: Vec<Value<'a>> },
    /// Pop this frame and hand its value to the caller.
    Return(Value<'a>),
    /// Do floating-point work and push its value onto this frame's stack.
    Float(FloatWork),
}

/// The model of a `FrameAction`.
pub enum ActionModel<'a> {
    Continue,
    Call(&'a JitCompiledFunction<'a>, Seq<Value<'a>>),
    Return(Value<'a>),
    Float(FloatWorkView),
}

impl<'a> View for FrameAction<'a> {
    type V = ActionModel<'a>;

    open spec fn view(&self) -> ActionModel<'a> {
        match self {
            FrameAction::Continue => ActionModel::Continue,
            FrameAction::Call { target_fn, args } => ActionModel::Call(*target_fn, args@),
            FrameAction::Return(v) => ActionModel::Return(*v),
            FrameAction::Float(w) => ActionModel::Float(w@),
        }
    }
}

/// The frame past its current instruction.
pub open spec fn advanced<'a>(f: FrameModel<'a>) -> FrameModel<'a> {
    FrameModel { index: f.index + 1, ..f }
}

/// The frame, with `stack` as its stack.
pub open spec fn with_stack<'a>(f: FrameModel<'a>, stack: Seq<Value<'a>>) -> FrameModel<'a> {
    FrameModel { stack, ..f }
}

/// The frame at the start of the block `id` of its function, if there is one.
pub open spec fn jump_to<'a>(f: FrameModel<'a>, id: BlockId, stack: Seq<Value<'a>>) -> Result<
    (ActionModel<'a>, FrameModel<'a>),
    ErrorView,
> {
    match f.func.spec_block(id) {
        Some(b) => Ok((ActionModel::Continue, FrameModel { block: b, index: 0, stack, ..f })),
        None => Err((InterpreterErrorKind::JitCompile, "target block must exist"@)),
    }
}

/// A binary operator on the two values on top of the stack of `g`: the
/// left operand under the right one.
pub open spec fn binary_step<'a>(op: BinaryOp, g: FrameModel<'a>) -> Result<
    (ActionModel<'a>, FrameModel<'a>),
    ErrorView,
> {
    let s = g.stack;
    let n = s.len();
    if n < 2 {
        Err(bad_stack())
    } else if !is_arith_op(op) {
        Err((InterpreterErrorKind::Unimplemented, binary_op_text(op)))
    } else {
        let lhs = s[n - 2];
        let rhs = s[n - 1];
        let rest = s.take(n - 2);
        match spec_numeric_pair(lhs, rhs) {
            Err(m) => Err((InterpreterErrorKind::Value, arith_prefix(op) + m)),
            Ok(NumericValuePair::Int32(x, y)) => match spec_int_arith(op, x, y) {
                Some(z) => Ok(
                    (ActionModel::Continue, with_stack(g, rest.push(Value::Int32(z as i32)))),
                ),
                None => Err((InterpreterErrorKind::Value, by_zero_message(op, lhs, rhs))),
            },
            Ok(NumericValuePair::Float32(x, y)) => Ok(
                (ActionModel::Float(FloatWorkView::Binary(op, x, y)), with_stack(g, rest)),
            ),
        }
    }
}

/// A call: the function value on top of the stack of `g`, under it the
/// `arity` arguments, the last one on top.
pub open spec fn call_step<'a>(arity: u32, g: FrameModel<'a>) -> Result<
    (ActionModel<'a>, FrameModel<'a>),
    ErrorView,
> {
    let s = g.stack;
    let n = s.len();
    if n == 0 {
        Err(bad_stack())
    } else {
        match s[n - 1] {
            Value::JitCompiledFunctionRef(t) => if n - 1 < arity {
                Err(bad_stack())
            } else {
                let start = n - 1 - arity;
                Ok((ActionModel::Call(t, s.subrange(start, n - 1)), with_stack(g, s.take(start))))
            },
            v => Err(
                (
                    InterpreterErrorKind::Value,
                    "expected value to be a JIT-compiled function: "@ + value_debug(v),
                ),
            ),
        }
    }
}

/// A conditional jump on the value on top of the stack of `f`.
pub open spec fn conditional_jump_step<'a>(
    true_target: BlockId,
    false_target: BlockId,
    f: FrameModel<'a>,
) -> Result<(ActionModel<'a>, FrameModel<'a>), ErrorView> {
    let s = f.stack;
    let n = s.len();
    if n == 0 {
        Err(bad_stack())
    } else {
        match s[n - 1] {
            Value::Int32(v) => jump_to(
                f,
                if v != 0 {
                    true_target
                } else {
                    false_target
                },
                s.take(n - 1),
            ),
            v => Err(
                (
                    InterpreterErrorKind::Value,
                    "unexpected value in truthy check: "@ + value_debug(v),
                ),
            ),
        }
    }
}

/// One instruction of a frame: the action it asks for and the frame after
/// it, or its error. `global` is what the context resolves the name of a
/// `LoadGlobal` to; no other instruction looks at it.
pub open spec fn spec_frame_step<'a>(
    f: FrameModel<'a>,
    global: Result<Value<'a>, ErrorView>,
) -> Result<(ActionModel<'a>, FrameModel<'a>), ErrorView> {
    let g = advanced(f);
    let s = f.stack;
    let n = s.len();
    match instruction_at(f.block, f.index) {
        CurrentInstruction::Instr(instr) => match *instr {
            JitInstruction::BinaryOp(op) => binary_step(op, g),
            JitInstruction::LoadLiteral(lit) => match lit@ {
                LiteralView::Numeric(NumericLiteralView::Integral(t)) => match spec_parse_i32(t) {
                    Ok(v) => Ok((ActionModel::Continue, with_stack(g, s.push(Value::Int32(v as i32))))),
                    Err(k) => Err((InterpreterErrorKind::Generic, int_error_text(k))),
                },
                LiteralView::Numeric(NumericLiteralView::Float(t)) => Ok(
                    (ActionModel::Float(FloatWorkView::Parse(t)), g),
                ),
            },
            JitInstruction::LoadGlobal(_) => match global {
                Ok(v) => Ok((ActionModel::Continue, with_stack(g, s.push(v)))),
                Err(e) => Err(e),
            },
            JitInstruction::LoadLocal(id) => match spec_read(f.locals, id.index()) {
                Ok(v) => Ok((ActionModel::Continue, with_stack(g, s.push(v)))),
                Err(m) => Err((InterpreterErrorKind::Unimplemented, m)),
            },
            JitInstruction::LoadUnit => Ok((ActionModel::Continue, with_stack(g, s.push(Value::Unit)))),
            JitInstruction::StoreLocal(id) => if n == 0 {
                Err(bad_stack())
            } else {
                Ok(
                    (
                        ActionModel::Continue,
                        FrameModel {
                            stack: s.take(n - 1),
                            locals: spec_write(f.locals, id.index(), s[n - 1]),
                            ..g
                        },
                    ),
                )
            },
            JitInstruction::Call(ci) => call_step(ci.spec_arity(), g),
        },
        CurrentInstruction::Term(term) => match *term {
            JitTerminalInstruction::Jump(id) => jump_to(g, id, s),
            JitTerminalInstruction::ConditionalJump(targets) => conditional_jump_step(
                targets.spec_true_target(),
                targets.spec_false_target(),
                g,
            ),
            JitTerminalInstruction::Return => if n == 0 {
                Err(bad_stack())
            } else {
                Ok((ActionModel::Return(s[n - 1]), with_stack(g, s.take(n - 1))))
            },
        },
    }
}

/// True when the next instruction of the frame would overflow: an `i32`
/// sum, difference or product out of range, or a store to the last slot
/// index that a `usize` can name.
pub open spec fn frame_step_overflows<'a>(f: FrameModel<'a>) -> bool {
    let s = f.stack;
    let n = s.len();
    match instruction_at(f.block, f.index) {
        CurrentInstruction::Instr(instr) => match *instr {
            JitInstruction::BinaryOp(op) => n >= 2 && arith_overflows(op, s[n - 2], s[n - 1]),
            JitInstruction::StoreLocal(id) => n >= 1 && id.index() >= usize::MAX,
            _ => false,
        },
        _ => false,
    }
}

/// The frame that a failed step leaves: past its instruction, with the
/// values that the instruction took off its stack before it failed taken
/// off. An arithmetic operator takes both operands (or all there are), a
/// call takes the function value and then its arguments one by one, a
/// conditional jump takes its condition.
pub open spec fn failed_step_frame<'a>(f: FrameModel<'a>) -> FrameModel<'a> {
    let g = advanced(f);
    let s = f.stack;
    let n = s.len();
    match instruction_at(f.block, f.index) {
        CurrentInstruction::Instr(instr) => match *instr {
            JitInstruction::BinaryOp(_) => with_stack(g, if n >= 2 {
                s.take(n - 2)
            } else {
                Seq::empty()
            }),
            JitInstruction::Call(_) => with_stack(g, if n == 0 {
                s
            } else {
                match s[n - 1] {
                    Value::JitCompiledFunctionRef(_) => Seq::empty(),
                    _ => s.take(n - 1),
                }
            }),
            _ => g,
        },
        CurrentInstruction::Term(term) => match *term {
            JitTerminalInstruction::ConditionalJump(_) => with_stack(g, if n == 0 {
                s
            } else {
                s.take(n - 1)
            }),
            _ => g,
        },
    }
}

/// `r` and `after` are the outcome of one step of `before`, given `global`.
pub open spec fn frame_step_outcome<'a>(
    before: FrameModel<'a>,
    global: Result<Value<'a>, ErrorView>,
    r: InterpreterResult<FrameAction<'a>>,
    after: FrameModel<'a>,
) -> bool {
    match spec_frame_step(before, global) {
        Ok((a, f2)) => r matches Ok(act) && act@ == a && after == f2,
        Err(e) => r matches Err(err) && err@ == e && after == failed_step_frame(before),
    }
}

/// One call of a compiled function in progress.
pub struct JitCallFrame<'a> {
    jit_fn: &'a JitCompiledFunction<'a>,
    locals: LocalTable<Value<'a>>,
    stack: MachineStack<'a>,
    block_cursor: JitInstructionBlockCursor<'a>,
}

impl<'a> View for JitCallFrame<'a> {
    type V = FrameModel<'a>;

    closed spec fn view(&self) -> FrameModel<'a> {
        FrameModel {
            func: self.jit_fn,
            block: self.block_cursor.block,
            index: self.block_cursor.instr_index as nat,
            locals: self.locals@,
            stack: self.stack.items@,
        }
    }
}

/// A frame can run its next instruction: it points at an instruction or at
/// the terminator of its block.
pub open spec fn frame_wf<'a>(f: FrameModel<'a>) -> bool {
    f.index <= f.block.spec_instructions().len()
}

/// The frame that a call of `func` with `args` starts with, or the error
/// for a function without its entry block.
pub open spec fn spec_from_call<'a>(func: &'a JitCompiledFunction<'a>, args: Seq<Value<'a>>) -> Result<
    FrameModel<'a>,
    ErrorView,
> {
    match func.spec_block(func.spec_entrypoint()) {
        Some(b) => Ok(FrameModel { func, block: b, index: 0, locals: Seq::empty(), stack: args }),
        None => Err((InterpreterErrorKind::JitCompile, "entrypoint block must exist"@)),
    }
}

impl<'a> JitCallFrame<'a> {
    pub closed spec fn wf(&self) -> bool {
        self.block_cursor.instr_index <= self.block_cursor.block.spec_instructions().len()
    }

    /// A new frame for a call of `jit_fn` with `args` on its stack.
    pub fn from_call(jit_fn: &'a JitCompiledFunction<'a>, args: Vec<Value<'a>>) -> (r:
        InterpreterResult<JitCallFrame<'a>>)
        ensures
            match spec_from_call(jit_fn, args@) {
                Ok(f) => r matches Ok(fr) && fr@ == f && fr.wf(),
                Err(e) => r matches Err(err) && err@ == e,
            },
    {
        let entrypoint = match jit_fn.block(jit_fn.entrypoint()) {
            Some(b) => b,
            None => return Err(InterpreterError::jit_err(text_of("entrypoint block must exist"))),
        };
        let r = JitCallFrame {
            jit_fn,
            locals: LocalTable::<Value<'a>>::new(),
            stack: MachineStack::from_args(args),
            block_cursor: JitInstructionBlockCursor::start_of(entrypoint),
        };
        assert(r@.locals =~= Seq::<LocalSlot<Value<'a>>>::empty());
        Ok(r)
    }

    fn next_instruction(&mut self) -> (r: CurrentInstruction<'a>)
        requires
            old(self).wf(),
        ensures
            r == instruction_at(old(self)@.block, old(self)@.index),
            final(self)@ == advanced(old(self)@),
    {
        self.block_cursor.next_instruction()
    }

    fn switch_to_block(&mut self, id: BlockId) -> (r: InterpreterResult<()>)
        ensures
            match jump_to(old(self)@, id, old(self)@.stack) {
                Ok((_, f2)) => r is Ok && final(self)@ == f2 && final(self).wf(),
                Err(e) => r matches Err(err) && err@ == e && final(self)@ == old(self)@,
            },
    {
        let block = match self.jit_fn.block(id) {
            Some(b) => b,
            None => return Err(InterpreterError::jit_err(text_of("target block must exist"))),
        };
        self.block_cursor = JitInstructionBlockCursor::start_of(block);
        Ok(())
    }

    /// Pushes a value onto the frame's stack.
    pub fn push_value(&mut self, value: Value<'a>)
        ensures
            final(self)@ == with_stack(old(self)@, old(self)@.stack.push(value)),
            final(self).wf() == old(self).wf(),
    {
        self.stack.push_value(value);
    }

    fn execute_binary_operation(&mut self, op: &BinaryOp) -> (r: InterpreterResult<FrameAction<'a>>)
        requires
            old(self).wf(),
            !(old(self)@.stack.len() >= 2 && arith_overflows(
                *op,
                old(self)@.stack[old(self)@.stack.len() - 2],
                old(self)@.stack[old(self)@.stack.len() - 1],
            )),
        ensures
            match binary_step(*op, old(self)@) {
                Ok((a, f2)) => r matches Ok(act) && act@ == a && final(self)@ == f2
                    && final(self).wf(),
                Err(e) => r matches Err(err) && err@ == e && final(self)@ == with_stack(
                    old(self)@,
                    if old(self)@.stack.len() >= 2 {
                        old(self)@.stack.take(old(self)@.stack.len() - 2)
                    } else {
                        Seq::empty()
                    },
                ),
            },
    {
        let ghost s = self.stack.items@;
        let rhs = match self.stack.pop_value() {
            Ok(v) => v,
            Err(e) => {
                assert(self@.stack =~= Seq::<Value<'a>>::empty());
                return Err(e);
            },
        };
        let lhs = match self.stack.pop_value() {
            Ok(v) => v,
            Err(e) => {
                assert(self@.stack =~= Seq::<Value<'a>>::empty());
                return Err(e);
            },
        };
        proof {
            assert(s.len() >= 2);
            assert(lhs == s[s.len() - 2]);
            assert(rhs == s[s.len() - 1]);
            assert(self.stack.items@ =~= s.take(s.len() - 2));
        }
        let computed = match op {
            BinaryOp::Add => lhs.add(&rhs)?,
            BinaryOp::Sub => lhs.subtract(&rhs)?,
            BinaryOp::Mul => lhs.multiply(&rhs)?,
            BinaryOp::Div => lhs.divide(&rhs)?,
            BinaryOp::Mod => lhs.modulo(&rhs)?,
            _ => return Err(InterpreterError::unimplemented(op.to_text())),
        };
        match computed {
            Computed::Value(value) => {
                self.stack.push_value(value);
                Ok(FrameAction::Continue)
            },
            Computed::Float(work) => Ok(FrameAction::Float(work)),
        }
    }

    fn pop_call_args(&mut self, arity: usize) -> (r: InterpreterResult<Vec<Value<'a>>>)
        ensures
            old(self)@.stack.len() < arity ==> (r matches Err(e) && e@ == bad_stack()
                && final(self)@ == with_stack(old(self)@, Seq::empty())),
            old(self)@.stack.len() >= arity ==> ({
                let start = old(self)@.stack.len() - arity;
                &&& r matches Ok(args)
                &&& args@ == old(self)@.stack.subrange(start, old(self)@.stack.len() as int)
                &&& final(self)@ == with_stack(old(self)@, old(self)@.stack.take(start))
            }),
            final(self).wf() == old(self).wf(),
    {
        let n = self.stack.items.len();
        if n < arity {
            self.stack.items.clear();
            assert(self@ == with_stack(old(self)@, Seq::empty()));
            return Err(InterpreterError::internal_err(text_of("bad stack: empty")));
        }
        let args = self.stack.items.split_off(n - arity);
        Ok(args)
    }

    fn execute_conditional_jump(&mut self, targets: &ConditionalJumpTargets) -> (r:
        InterpreterResult<()>)
        ensures
            match conditional_jump_step(
                targets.spec_true_target(),
                targets.spec_false_target(),
                old(self)@,
            ) {
                Ok((_, f2)) => r is Ok && final(self)@ == f2 && final(self).wf(),
                Err(e) => r matches Err(err) && err@ == e && final(self)@ == with_stack(
                    old(self)@,
                    if old(self)@.stack.len() == 0 {
                        old(self)@.stack
                    } else {
                        old(self)@.stack.take(old(self)@.stack.len() - 1)
                    },
                ),
            },
    {
        let ghost s = self.stack.items@;
        let condition = match self.stack.pop_value() {
            Ok(v) => v,
            Err(e) => {
                assert(self@ == old(self)@);
                return Err(e);
            },
        };
        assert(self.stack.items@ =~= s.take(s.len() - 1));
        let truthy = match condition.is_truthy() {
            Ok(b) => b,
            Err(e) => return Err(e),
        };
        let target = if truthy {
            targets.true_target()
        } else {
            targets.false_target()
        };
        self.switch_to_block(target)
    }

    fn step_inner<C: JitFunctionContext<'a>>(&mut self, context: &'a C) -> (r: (
        InterpreterResult<FrameAction<'a>>,
        Ghost<Result<Value<'a>, ErrorView>>,
    ))
        requires
            old(self).wf(),
            !frame_step_overflows(old(self)@),
        ensures
            frame_step_outcome(old(self)@, r.1@, r.0, final(self)@),
            r.1@ == resolved_global(old(self)@, context),
            r.0 matches Ok(a) && !(a is Return) ==> final(self).wf(),
    {
        let ghost before = self@;
        let ghost none: Result<Value<'a>, ErrorView> = Ok(Value::Unit);
        match self.next_instruction() {
            CurrentInstruction::Instr(instr) => match instr {
                JitInstruction::BinaryOp(op) => (self.execute_binary_operation(op), Ghost(none)),
                JitInstruction::LoadLiteral(literal) => match Value::from_literal(literal) {
                    Ok(Computed::Value(v)) => {
                        self.push_value(v);
                        (Ok(FrameAction::Continue), Ghost(none))
                    },
                    Ok(Computed::Float(work)) => (Ok(FrameAction::Float(work)), Ghost(none)),
                    Err(e) => (Err(e), Ghost(none)),
                },
                JitInstruction::LoadGlobal(ident) => match context.resolve_ident(ident) {
                    Ok(v) => {
                        self.push_value(v);
                        (Ok(FrameAction::Continue), Ghost(Ok(v)))
                    },
                    Err(e) => {
                        let ghost ev = e@;
                        (Err(e), Ghost(Err(ev)))
                    },
                },
                JitInstruction::LoadLocal(local_id) => match self.locals.read(*local_id) {
                    Ok(v) => {
                        let v = *v;
                        self.push_value(v);
                        (Ok(FrameAction::Continue), Ghost(none))
                    },
                    Err(e) => (Err(e), Ghost(none)),
                },
                JitInstruction::LoadUnit => {
                    self.push_value(Value::Unit);
                    (Ok(FrameAction::Continue), Ghost(none))
                },
                JitInstruction::StoreLocal(local_id) => match self.stack.pop_value() {
                    Ok(v) => {
                        self.locals.write(*local_id, v);
                        (Ok(FrameAction::Continue), Ghost(none))
                    },
                    Err(e) => (Err(e), Ghost(none)),
                },
                JitInstruction::Call(call_instr) => {
                    let ghost s = self.stack.items@;
                    let target_fn = match self.stack.pop_value() {
                        Ok(f) => match f.as_jit_function() {
                            Ok(t) => t,
                            Err(e) => return (Err(e), Ghost(none)),
                        },
                        Err(e) => return (Err(e), Ghost(none)),
                    };
                    match self.pop_call_args(call_instr.arity() as usize) {
                        Ok(args) => {
                            proof {
                                let n = s.len();
                                let start = n - 1 - call_instr.spec_arity();
                                assert(args@ =~= s.subrange(start, n - 1));
                                assert(self.stack.items@ =~= s.take(start));
                            }
                            (Ok(FrameAction::Call { target_fn, args }), Ghost(none))
                        },
                        Err(e) => (Err(e), Ghost(none)),
                    }
                },
            },
            CurrentInstruction::Term(term) => match term {
                JitTerminalInstruction::Jump(block_id) => match self.switch_to_block(*block_id) {
                    Ok(()) => (Ok(FrameAction::Continue), Ghost(none)),
                    Err(e) => (Err(e), Ghost(none)),
                },
                JitTerminalInstruction::ConditionalJump(targets) => match self.execute_conditional_jump(
                    targets,
                ) {
                    Ok(()) => (Ok(FrameAction::Continue), Ghost(none)),
                    Err(e) => (Err(e), Ghost(none)),
                },
                JitTerminalInstruction::Return => match self.stack.pop_value() {
                    Ok(v) => (Ok(FrameAction::Return(v)), Ghost(none)),
                    Err(e) => (Err(e), Ghost(none)),
                },
            },
        }
    }

    /// Whether running the next instruction would overflow.
    pub fn next_step_overflows(&self) -> (b: bool)
        requires
            self.wf(),
        ensures
            b == frame_step_overflows(self@),
    {
        let idx = self.block_cursor.instr_index;
        let instrs = self.block_cursor.block.instructions();
        if idx >= instrs.len() {
            return false;
        }
        let n = self.stack.items.len();
        match &instrs[idx] {
            JitInstruction::BinaryOp(op) => {
                if n < 2 {
                    return false;
                }
                let lhs = self.stack.items[n - 2];
                let rhs = self.stack.items[n - 1];
                lhs.overflows(*op, &rhs)
            },
            JitInstruction::StoreLocal(id) => n >= 1 && id.get() == usize::MAX,
            _ => false,
        }
    }

    /// Runs the next instruction of the frame. `LoadGlobal` pushes what the
    /// context resolves the name to, or returns the context's error.
    pub fn step<C: JitFunctionContext<'a>>(&mut self, context: &'a C) -> (r: InterpreterResult<
        FrameAction<'a>,
    >)
        requires
            old(self).wf(),
            !frame_step_overflows(old(self)@),
        ensures
            frame_step_outcome(old(self)@, resolved_global(old(self)@, context), r, final(self)@),
            r matches Ok(a) && !(a is Return) ==> final(self).wf(),
    {
        let (r, Ghost(global)) = self.step_inner(context);
        assert(frame_step_outcome(old(self)@, global, r, self@));
        r
    }
}

/// The model of a `MachineStatus`.
pub enum StatusModel<'a> {
    Running,
    Finished(Value<'a>),
    NeedsFloat(FloatWorkView),
}

/// What the machine reports after one step.
pub enum MachineStatus<'a> {
    /// The program goes on.
    Running,
    /// The outermost call returned this value.
    Finished(Value<'a>),
    /// The program waits for floating-point work; hand its value to
    /// `Machine::resume_with` before the next step.
    NeedsFloat(FloatWork),
}

impl<'a> View for MachineStatus<'a> {
    type V = StatusModel<'a>;

    open spec fn view(&self) -> StatusModel<'a> {
        match self {
            MachineStatus::Running => StatusModel::Running,
            MachineStatus::Finished(v) => StatusModel::Finished(*v),
            MachineStatus::NeedsFloat(w) => StatusModel::NeedsFloat(w@),
        }
    }
}

/// How the machine's frames change by what the current frame did: the
/// frames, innermost last, and the outcome of the current frame's step.
pub open spec fn spec_machine_after<'a>(
    frames: Seq<FrameModel<'a>>,
    step: Result<(ActionModel<'a>, FrameModel<'a>), ErrorView>,
) -> Result<(StatusModel<'a>, Seq<FrameModel<'a>>), ErrorView> {
    let k = frames.len() - 1;
    match step {
        Err(e) => Err(e),
        Ok((ActionModel::Continue, f2)) => Ok((StatusModel::Running, frames.update(k, f2))),
        Ok((ActionModel::Float(w), f2)) => Ok((StatusModel::NeedsFloat(w), frames.update(k, f2))),
        Ok((ActionModel::Call(t, args), f2)) => match spec_from_call(t, args) {
            Ok(callee) => Ok((StatusModel::Running, frames.update(k, f2).push(callee))),
            Err(e) => Err(e),
        },
        Ok((ActionModel::Return(v), f2)) => if k > 0 {
            let caller = frames[k - 1];
            Ok(
                (
                    StatusModel::Running,
                    frames.take(k - 1).push(with_stack(caller, caller.stack.push(v))),
                ),
            )
        } else {
            Ok((StatusModel::Finished(v), frames.update(k, f2)))
        },
    }
}

/// The frames that a failed machine step leaves: the innermost frame as its
/// failed step left it, or, where the callee of a call has no entry block,
/// as the call left it.
pub open spec fn failed_machine_frames<'a>(
    frames: Seq<FrameModel<'a>>,
    global: Result<Value<'a>, ErrorView>,
) -> Seq<FrameModel<'a>> {
    let k = frames.len() - 1;
    match spec_frame_step(frames.last(), global) {
        Err(_) => frames.update(k, failed_step_frame(frames.last())),
        Ok((_, f2)) => frames.update(k, f2),
    }
}

/// `r` and `after` are the outcome of one machine step from `before`, where
/// a `LoadGlobal` resolved to `global`.
pub open spec fn machine_step_outcome<'a>(
    before: Seq<FrameModel<'a>>,
    global: Result<Value<'a>, ErrorView>,
    r: InterpreterResult<MachineStatus<'a>>,
    after: Seq<FrameModel<'a>>,
) -> bool {
    match spec_machine_after(before, spec_frame_step(before.last(), global)) {
        Ok((st, fs)) => r matches Ok(status) && status@ == st && after == fs,
        Err(e) => r matches Err(err) && err@ == e && after == failed_machine_frames(before, global),
    }
}

/// The call frames of a running program.
pub struct Machine<'a> {
    parent_frames: Vec<JitCallFrame<'a>>,
    frame: JitCallFrame<'a>,
}

impl<'a> View for Machine<'a> {
    type V = Seq<FrameModel<'a>>;

    /// The frames, outermost first; the last one runs.
    closed spec fn view(&self) -> Seq<FrameModel<'a>> {
        Seq::new(self.parent_frames@.len(), |i: int| self.parent_frames@[i]@).push(self.frame@)
    }
}

impl<'a> Machine<'a> {
    /// Every frame can run its next instruction.
    pub closed spec fn wf(&self) -> bool {
        &&& self.frame.wf()
        &&& forall|i: int| 0 <= i < self.parent_frames@.len() ==> (#[trigger] self.parent_frames@[i]).wf()
    }

    /// A machine about to run a call of `jit_fn` with `args`.
    pub fn new(jit_fn: &'a JitCompiledFunction<'a>, args: Vec<Value<'a>>) -> (r: InterpreterResult<
        Machine<'a>,
    >)
        ensures
            match spec_from_call(jit_fn, args@) {
                Ok(f) => r matches Ok(m) && m@ == seq![f] && m.wf(),
                Err(e) => r matches Err(err) && err@ == e,
            },
    {
        let frame = JitCallFrame::from_call(jit_fn, args)?;
        let m = Machine { parent_frames: Vec::new(), frame };
        assert(m@ =~= seq![frame@]);
        Ok(m)
    }

    /// Whether the next step would overflow.
    pub fn next_step_overflows(&self) -> (b: bool)
        requires
            self.wf(),
        ensures
            b == frame_step_overflows(self@.last()),
    {
        self.frame.next_step_overflows()
    }

    fn push_frame(&mut self, target_fn: &'a JitCompiledFunction<'a>, args: Vec<Value<'a>>) -> (r:
        InterpreterResult<()>)
        requires
            old(self).wf(),
        ensures
            match spec_from_call(target_fn, args@) {
                Ok(f) => r is Ok && final(self)@ == old(self)@.push(f) && final(self).wf(),
                Err(e) => r matches Err(err) && err@ == e && final(self)@ == old(self)@,
            },
    {
        let mut frame = JitCallFrame::from_call(target_fn, args)?;
        let ghost before = self@;
        std::mem::swap(&mut self.frame, &mut frame);
        self.parent_frames.push(frame);
        assert(self@ =~= before.push(self.frame@));
        Ok(())
    }

    /// Runs one instruction of the innermost call.
    pub fn step<C: JitFunctionContext<'a>>(&mut self, context: &'a C) -> (r: InterpreterResult<
        MachineStatus<'a>,
    >)
        requires
            old(self).wf(),
            !frame_step_overflows(old(self)@.last()),
        ensures
            machine_step_outcome(
                old(self)@,
                resolved_global(old(self)@.last(), context),
                r,
                final(self)@,
            ),
            final(self)@.len() >= 1,
            r matches Ok(st) && !(st is Finished) ==> final(self).wf(),
    {
        let ghost before = self@;
        let ghost parents = self.parent_frames@;
        let (action, Ghost(global)) = self.frame.step_inner(context);
        let ghost stepped = self.frame@;
        proof {
            assert(before.last() == old(self).frame@);
            assert(before.update(before.len() - 1, stepped) =~= self@);
        }
        let r = match action {
            Err(e) => Err(e),
            Ok(FrameAction::Continue) => Ok(MachineStatus::Running),
            Ok(FrameAction::Float(work)) => Ok(MachineStatus::NeedsFloat(work)),
            Ok(FrameAction::Call { target_fn, args }) => match self.push_frame(target_fn, args) {
                Ok(()) => Ok(MachineStatus::Running),
                Err(e) => Err(e),
            },
            Ok(FrameAction::Return(value)) => {
                if let Some(parent) = self.parent_frames.pop() {
                    self.frame = parent;
                    self.frame.push_value(value);
                    proof {
                        let k = before.len() - 1;
                        assert(self@ =~= before.take(k - 1).push(
                            with_stack(before[k - 1], before[k - 1].stack.push(value)),
                        ));
                    }
                    Ok(MachineStatus::Running)
                } else {
                    Ok(MachineStatus::Finished(value))
                }
            },
        };
        assert(machine_step_outcome(before, global, r, self@));
        r
    }

    /// Hands the value of the floating-point work that the last step asked
    /// for to the innermost call: it goes on top of its stack.
    pub fn resume_with(&mut self, value: Value<'a>)
        requires
            old(self).wf(),
        ensures
            final(self).wf(),
            final(self)@ == old(self)@.update(
                old(self)@.len() - 1,
                with_stack(old(self)@.last(), old(self)@.last().stack.push(value)),
            ),
    {
        let ghost before = self@;
        self.frame.push_value(value);
        assert(self@ =~= before.update(
            before.len() - 1,
            with_stack(before.last(), before.last().stack.push(value)),
        ));
    }
}

/// Only a `LoadGlobal` looks at what the context resolves: any other
/// instruction steps the same whatever the context holds.
pub proof fn lemma_step_ignores_context<'a>(
    f: FrameModel<'a>,
    g1: Result<Value<'a>, ErrorView>,
    g2: Result<Value<'a>, ErrorView>,
)
    requires
        f.index < f.block.spec_instructions().len() ==> !(f.block.spec_instructions()[f.index as int] is LoadGlobal),
    ensures
        spec_frame_step(f, g1) == spec_frame_step(f, g2),
{
}

/// A global load pushes what the context resolves its name to, or fails
/// with the context's error unchanged.
pub proof fn lemma_load_global<'a, C: JitFunctionContext<'a>>(
    f: FrameModel<'a>,
    context: &C,
    name: &'a Ident,
)
    requires
        f.index < f.block.spec_instructions().len(),
        f.block.spec_instructions()[f.index as int] == JitInstruction::<'a>::LoadGlobal(name),
    ensures
        spec_frame_step(f, resolved_global(f, context)) == match context.spec_resolve(name@) {
            Ok(v) => Ok::<(ActionModel<'a>, FrameModel<'a>), ErrorView>(
                (ActionModel::Continue, with_stack(advanced(f), f.stack.push(v))),
            ),
            Err(e) => Err(e),
        },
{
}

/// A conditional jump on an `Int32` pops it and goes to the start of the
/// false target's block when it is 0, of the true target's block otherwise
/// (and fails when that block does not exist).
pub proof fn lemma_conditional_jump_on_int<'a>(
    f: FrameModel<'a>,
    global: Result<Value<'a>, ErrorView>,
    targets: ConditionalJumpTargets,
    rest: Seq<Value<'a>>,
    v: i32,
)
    requires
        f.index == f.block.spec_instructions().len(),
        *f.block.spec_terminator() == JitTerminalInstruction::ConditionalJump(targets),
        f.stack == rest.push(Value::Int32(v)),
    ensures
        v == 0 ==> match f.func.spec_block(targets.spec_false_target()) {
            Some(b) => spec_frame_step(f, global) == Ok::<
                (ActionModel<'a>, FrameModel<'a>),
                ErrorView,
            >((ActionModel::Continue, FrameModel { block: b, index: 0, stack: rest, ..f })),
            None => spec_frame_step(f, global) is Err,
        },
        v != 0 ==> match f.func.spec_block(targets.spec_true_target()) {
            Some(b) => spec_frame_step(f, global) == Ok::<
                (ActionModel<'a>, FrameModel<'a>),
                ErrorView,
            >((ActionModel::Continue, FrameModel { block: b, index: 0, stack: rest, ..f })),
            None => spec_frame_step(f, global) is Err,
        },
{
    assert(f.stack.take(f.stack.len() - 1) =~= rest);
    assert(f.stack[f.stack.len() - 1] == Value::<'a>::Int32(v));
}

/// Arithmetic on two floats hands out float work on the operand pushed
/// first as the left one and the one on top as the right one, and takes
/// both off the stack.
pub proof fn lemma_binary_float_operand_order<'a>(
    f: FrameModel<'a>,
    global: Result<Value<'a>, ErrorView>,
    op: BinaryOp,
    rest: Seq<Value<'a>>,
    x: u32,
    y: u32,
)
    requires
        f.index < f.block.spec_instructions().len(),
        f.block.spec_instructions()[f.index as int] == JitInstruction::<'a>::BinaryOp(op),
        op == BinaryOp::Add || op == BinaryOp::Sub || op == BinaryOp::Mul || op == BinaryOp::Div
            || op == BinaryOp::Mod,
        f.stack == rest.push(Value::Float32(x)).push(Value::Float32(y)),
    ensures
        spec_frame_step(f, global) == Ok::<(ActionModel<'a>, FrameModel<'a>), ErrorView>(
            (
                ActionModel::Float(FloatWorkView::Binary(op, x, y)),
                FrameModel { index: f.index + 1, stack: rest, ..f },
            ),
        ),
{
    let s = f.stack;
    assert(s[s.len() - 2] == Value::<'a>::Float32(x));
    assert(s[s.len() - 1] == Value::<'a>::Float32(y));
    assert(s.take(s.len() - 2) =~= rest);
}

/// Sum, difference and product of two integers in range: with `x` pushed
/// before `y`, the stack ends with `x + y`, `x - y` or `x * y` in their place.
pub proof fn lemma_binary_int_results<'a>(
    f: FrameModel<'a>,
    global: Result<Value<'a>, ErrorView>,
    op: BinaryOp,
    rest: Seq<Value<'a>>,
    x: i32,
    y: i32,
)
    requires
        f.index < f.block.spec_instructions().len(),
        f.block.spec_instructions()[f.index as int] == JitInstruction::<'a>::BinaryOp(op),
        op == BinaryOp::Add || op == BinaryOp::Sub || op == BinaryOp::Mul,
        f.stack == rest.push(Value::Int32(x)).push(Value::Int32(y)),
        i32::MIN <= (if op == BinaryOp::Add {
            x + y
        } else if op == BinaryOp::Sub {
            x - y
        } else {
            x * y
        }) <= i32::MAX,
    ensures
        spec_frame_step(f, global) == Ok::<(ActionModel<'a>, FrameModel<'a>), ErrorView>(
            (
                ActionModel::Continue,
                FrameModel {
                    index: f.index + 1,
                    stack: rest.push(
                        Value::Int32(
                            (if op == BinaryOp::Add {
                                x + y
                            } else if op == BinaryOp::Sub {
                                x - y
                            } else {
                                x * y
                            }) as i32,
                        ),
                    ),
                    ..f
                },
            ),
        ),
{
    let s = f.stack;
    assert(s[s.len() - 2] == Value::<'a>::Int32(x));
    assert(s[s.len() - 1] == Value::<'a>::Int32(y));
    assert(s.take(s.len() - 2) =~= rest);
}

/// A conditional jump on a value that is not an `Int32` fails with a value
/// error; the frame stays in its block, past the jump, with the condition
/// taken off its stack.
pub proof fn lemma_conditional_jump_on_non_int<'a>(
    f: FrameModel<'a>,
    global: Result<Value<'a>, ErrorView>,
    targets: ConditionalJumpTargets,
    rest: Seq<Value<'a>>,
    c: Value<'a>,
)
    requires
        f.index == f.block.spec_instructions().len(),
        *f.block.spec_terminator() == JitTerminalInstruction::ConditionalJump(targets),
        f.stack == rest.push(c),
        !(c is Int32),
    ensures
        spec_frame_step(f, global) matches Err(e) && e.0 == InterpreterErrorKind::Value,
        failed_step_frame(f) == with_stack(advanced(f), rest),
        failed_step_frame(f).block == f.block,
        failed_step_frame(f).index == f.index + 1,
{
    assert(f.stack.take(f.stack.len() - 1) =~= rest);
    assert(f.stack[f.stack.len() - 1] == c);
}

/// A step that succeeds takes exactly one instruction of its frame: one
/// before the terminator leaves the frame in its block at the next
/// position; a jump leaves it at the start of a block of its function (for
/// a conditional jump, one of its two targets); a return leaves it past the
/// terminator.
pub proof fn lemma_step_takes_one_instruction<'a>(
    f: FrameModel<'a>,
    global: Result<Value<'a>, ErrorView>,
)
    requires
        spec_frame_step(f, global) is Ok,
    ensures
        spec_frame_step(f, global) matches Ok((_, f2)) && f2.func == f.func && if f.index
            < f.block.spec_instructions().len() {
            f2.block == f.block && f2.index == f.index + 1
        } else {
            match *f.block.spec_terminator() {
                JitTerminalInstruction::Return => f2.block == f.block && f2.index == f.index + 1,
                JitTerminalInstruction::Jump(id) => Some(f2.block) == f.func.spec_block(id)
                    && f2.index == 0,
                JitTerminalInstruction::ConditionalJump(t) => f2.index == 0 && (Some(f2.block)
                    == f.func.spec_block(t.spec_true_target()) || Some(f2.block)
                    == f.func.spec_block(t.spec_false_target())),
            }
        },
{
}

/// A machine always has a frame: the one that runs.
pub proof fn lemma_machine_has_a_frame<'a>(m: Machine<'a>)
    ensures
        m@.len() >= 1,
{
}

/// The operand pushed first is the left one: with `x` pushed before `y`,
/// an arithmetic operator leaves `x op y` in their place.
pub proof fn lemma_binary_operand_order<'a>(
    f: FrameModel<'a>,
    global: Result<Value<'a>, ErrorView>,
    op: BinaryOp,
    rest: Seq<Value<'a>>,
    x: i32,
    y: i32,
    z: int,
)
    requires
        f.index < f.block.spec_instructions().len(),
        f.block.spec_instructions()[f.index as int] == JitInstruction::<'a>::BinaryOp(op),
        is_arith_op(op),
        f.stack == rest.push(Value::Int32(x)).push(Value::Int32(y)),
        spec_int_arith(op, x, y) == Some(z),
    ensures
        spec_frame_step(f, global) == Ok::<(ActionModel<'a>, FrameModel<'a>), ErrorView>(
            (ActionModel::Continue, with_stack(advanced(f), rest.push(Value::Int32(z as i32)))),
        ),
{
    let s = f.stack;
    assert(s[s.len() - 2] == Value::<'a>::Int32(x));
    assert(s[s.len() - 1] == Value::<'a>::Int32(y));
    assert(s.take(s.len() - 2) =~= rest);
}

/// A value stored to a local and loaded back from it comes back: after a
/// `StoreLocal` and a `LoadLocal` of the same local, the stack is as it was
/// and the local holds the value.
pub proof fn lemma_store_then_load<'a>(
    f: FrameModel<'a>,
    g1: Result<Value<'a>, ErrorView>,
    g2: Result<Value<'a>, ErrorView>,
    id: LocalId,
    rest: Seq<Value<'a>>,
    v: Value<'a>,
)
    requires
        f.index + 1 < f.block.spec_instructions().len(),
        f.block.spec_instructions()[f.index as int] == JitInstruction::<'a>::StoreLocal(id),
        f.block.spec_instructions()[f.index + 1int] == JitInstruction::<'a>::LoadLocal(id),
        f.stack == rest.push(v),
    ensures
        match spec_frame_step(f, g1) {
            Ok((ActionModel::Continue, f1)) => match spec_frame_step(f1, g2) {
                Ok((ActionModel::Continue, f2)) => {
                    &&& f2.stack == f.stack
                    &&& f2.index == f.index + 2
                    &&& f2.block == f.block
                    &&& f2.locals == spec_write(f.locals, id.index(), v)
                },
                _ => false,
            },
            _ => false,
        },
{
    let s = f.stack;
    assert(s.take(s.len() - 1) =~= rest);
    let f1 = FrameModel {
        stack: rest,
        locals: spec_write(f.locals, id.index(), v),
        ..advanced(f)
    };
    assert(spec_frame_step(f, g1) == Ok::<(ActionModel<'a>, FrameModel<'a>), ErrorView>(
        (ActionModel::Continue, f1),
    ));
    lemma_read_after_write(f.locals, id.index(), v);
    assert(rest.push(v) =~= f.stack);
}

/// A call hands the function its arguments in the order they were pushed:
/// they become the callee's stack, the last argument on top, and leave the
/// caller's stack together with the function value above them.
pub proof fn lemma_call_passes_arguments_in_order<'a>(
    frames: Seq<FrameModel<'a>>,
    global: Result<Value<'a>, ErrorView>,
    ci: JitCallInstruction,
    rest: Seq<Value<'a>>,
    args: Seq<Value<'a>>,
    target: &'a JitCompiledFunction<'a>,
)
    requires
        frames.len() > 0,
        frames.last().index < frames.last().block.spec_instructions().len(),
        frames.last().block.spec_instructions()[frames.last().index as int]
            == JitInstruction::<'a>::Call(ci),
        args.len() == ci.spec_arity(),
        frames.last().stack == rest + args + seq![Value::JitCompiledFunctionRef(target)],
        spec_from_call(target, args) is Ok,
    ensures
        spec_from_call(target, args) matches Ok(callee) && callee.stack == args
            && spec_machine_after(frames, spec_frame_step(frames.last(), global)) == Ok::<
            (StatusModel<'a>, Seq<FrameModel<'a>>),
            ErrorView,
        >(
            (
                StatusModel::Running,
                frames.update(
                    frames.len() - 1,
                    with_stack(advanced(frames.last()), rest),
                ).push(callee),
            ),
        ),
{
    let s = frames.last().stack;
    let n = s.len();
    assert(s[n - 1] == Value::<'a>::JitCompiledFunctionRef(target));
    assert(s.subrange(n - 1 - args.len(), n - 1) =~= args);
    assert(s.take(n - 1 - args.len()) =~= rest);
}

/// A return from an inner call pops its frame and pushes the returned
/// value, the top of its stack, onto the caller's stack.
pub proof fn lemma_return_resumes_caller<'a>(
    frames: Seq<FrameModel<'a>>,
    global: Result<Value<'a>, ErrorView>,
    rest: Seq<Value<'a>>,
    v: Value<'a>,
)
    requires
        frames.len() >= 2,
        frames.last().index == frames.last().block.spec_instructions().len(),
        *frames.last().block.spec_terminator() == JitTerminalInstruction::Return,
        frames.last().stack == rest.push(v),
    ensures
        spec_machine_after(frames, spec_frame_step(frames.last(), global)) == Ok::<
            (StatusModel<'a>, Seq<FrameModel<'a>>),
            ErrorView,
        >(
            (
                StatusModel::Running,
                frames.drop_last().drop_last().push(
                    with_stack(frames[frames.len() - 2], frames[frames.len() - 2].stack.push(v)),
                ),
            ),
        ),
{
    let k = frames.len() - 1;
    assert(frames.take(k - 1) =~= frames.drop_last().drop_last());
    assert(rest.push(v).last() == v);
}

/// A return from the outermost call finishes the program with the top of
/// its stack.
pub proof fn lemma_outermost_return_finishes<'a>(
    f: FrameModel<'a>,
    global: Result<Value<'a>, ErrorView>,
    rest: Seq<Value<'a>>,
    v: Value<'a>,
)
    requires
        f.index == f.block.spec_instructions().len(),
        *f.block.spec_terminator() == JitTerminalInstruction::Return,
        f.stack == rest.push(v),
    ensures
        spec_machine_after(seq![f], spec_frame_step(f, global)) matches Ok((st, _)) && st
            == StatusModel::<'a>::Finished(v),
{
    assert(rest.push(v).last() == v);
}

} // verus!
