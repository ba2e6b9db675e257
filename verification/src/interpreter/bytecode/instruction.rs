//! The bytecode that Jang functions are compiled to.
use vstd::prelude::*;
use crate::interpreter::bytecode::instruction_block_list::{block_id_debug, BlockId, BlockList};
use crate::interpreter::bytecode::local_table::{local_id_debug, LocalId};
use crate::parser::ast::binary_expression::{binary_op_debug, BinaryOp};
use crate::parser::token::ident::{ident_debug, Ident};
use crate::parser::token::literal::{literal_debug, Literal};
use crate::text::{decimal, push_decimal, push_str};

verus! {

/// An instruction that does not end a block.
#[derive(Debug)]
pub enum JitInstruction<'a> {
    /// Pops rhs off the stack, pops lhs off the stack, combines the two, and
    /// pushes the result on the stack. For (2 - 1) the stack holds 1 on top
    /// of 2.
    BinaryOp(BinaryOp),
    /// Pushes a literal value onto the stack.
    LoadLiteral(&'a Literal),
    /// Pushes a global value onto the stack.
    LoadGlobal(&'a Ident),
    /// Pushes a local onto the stack.
    LoadLocal(LocalId),
    /// Pushes the unit value onto the stack.
    LoadUnit,
    /// Pops a value off the stack and stores it as a local.
    StoreLocal(LocalId),
    /// Pops a function value off the stack, pops `arity` arguments off the
    /// stack (the last argument on top), and calls the function. For f(1, 2)
    /// the stack holds f on top of 2 on top of 1.
    Call(JitCallInstruction),
}

/// The instruction that ends a block.
#[derive(Debug)]
pub enum JitTerminalInstruction {
    /// Jumps to a block of the current function.
    Jump(BlockId),
    /// Pops a value off the stack and jumps by its truth.
    ConditionalJump(ConditionalJumpTargets),
    /// Pops a value off the stack and returns it.
    Return,
}

/// Where a conditional jump goes.
#[derive(Debug)]
pub struct ConditionalJumpTargets {
    true_target: BlockId,
    false_target: BlockId,
}

impl ConditionalJumpTargets {
    pub closed spec fn spec_true_target(&self) -> BlockId {
        self.true_target
    }

    pub closed spec fn spec_false_target(&self) -> BlockId {
        self.false_target
    }

    pub fn new(true_target: BlockId, false_target: BlockId) -> (r: ConditionalJumpTargets)
        ensures
            r.spec_true_target() == true_target,
            r.spec_false_target() == false_target,
    {
        ConditionalJumpTargets { true_target, false_target }
    }

    pub fn true_target(&self) -> (r: BlockId)
        ensures
            r == self.spec_true_target(),
    {
        self.true_target
    }

    pub fn false_target(&self) -> (r: BlockId)
        ensures
            r == self.spec_false_target(),
    {
        self.false_target
    }
}

/// A call with a given number of arguments.
#[derive(Debug)]
pub struct JitCallInstruction {
    arity: u32,
}

impl JitCallInstruction {
    pub closed spec fn spec_arity(&self) -> u32 {
        self.arity
    }

    pub fn with_arity(arity: u32) -> (r: JitCallInstruction)
        ensures
            r.spec_arity() == arity,
    {
        JitCallInstruction { arity }
    }

    pub fn arity(&self) -> (r: u32)
        ensures
            r == self.spec_arity(),
    {
        self.arity
    }
}

/// A sequence of instructions that always run in order (possibly pausing
/// for a call), followed by a terminal instruction.
#[derive(Debug)]
pub struct JitInstructionBlock<'a> {
    instructions: Vec<JitInstruction<'a>>,
    terminator: JitTerminalInstruction,
}

impl<'a> JitInstructionBlock<'a> {
    /// A block holds fewer than `usize::MAX` instructions, so that a
    /// position past its last instruction is a `usize`.
    #[verifier::type_invariant]
    spec fn fits(&self) -> bool {
        self.instructions@.len() < usize::MAX
    }

    pub closed spec fn spec_instructions(&self) -> Seq<JitInstruction<'a>> {
        self.instructions@
    }

    pub closed spec fn spec_terminator(&self) -> &JitTerminalInstruction {
        &self.terminator
    }

    pub fn new(instructions: Vec<JitInstruction<'a>>, terminator: JitTerminalInstruction) -> (r:
        JitInstructionBlock<'a>)
        requires
            instructions@.len() < usize::MAX,
        ensures
            r.spec_instructions() == instructions@,
            r.spec_terminator() == &terminator,
    {
        JitInstructionBlock { instructions, terminator }
    }

    pub fn instructions(&self) -> (r: &[JitInstruction<'a>])
        ensures
            r@ == self.spec_instructions(),
            r@.len() < usize::MAX,
    {
        proof {
            use_type_invariant(self);
        }
        self.instructions.as_slice()
    }

    pub fn terminator(&self) -> (r: &JitTerminalInstruction)
        ensures
            r == self.spec_terminator(),
    {
        &self.terminator
    }
}

/// A compiled function: blocks of instructions and the block to start at.
#[derive(Debug)]
pub struct JitCompiledFunction<'a> {
    entrypoint: BlockId,
    blocks: BlockList<JitInstructionBlock<'a>>,
}

impl<'a> JitCompiledFunction<'a> {
    pub closed spec fn spec_entrypoint(&self) -> BlockId {
        self.entrypoint
    }

    pub closed spec fn spec_blocks(&self) -> Seq<JitInstructionBlock<'a>> {
        self.blocks@
    }

    /// The block with id `id`, if the function has it.
    pub open spec fn spec_block(&self, id: BlockId) -> Option<&JitInstructionBlock<'a>> {
        if id.index() < self.spec_blocks().len() {
            Some(&self.spec_blocks()[id.index() as int])
        } else {
            None
        }
    }

    pub fn new(entrypoint: BlockId, blocks: BlockList<JitInstructionBlock<'a>>) -> (r:
        JitCompiledFunction<'a>)
        ensures
            r.spec_entrypoint() == entrypoint,
            r.spec_blocks() == blocks@,
    {
        JitCompiledFunction { entrypoint, blocks }
    }

    pub fn entrypoint(&self) -> (r: BlockId)
        ensures
            r == self.spec_entrypoint(),
    {
        self.entrypoint
    }

    pub fn block(&self, block_id: BlockId) -> (r: Option<&JitInstructionBlock<'a>>)
        ensures
            r == self.spec_block(block_id),
    {
        self.blocks.block(block_id)
    }
}

/// How `{:?}` shows an instruction.
pub open spec fn instruction_debug<'a>(i: JitInstruction<'a>) -> Seq<char> {
    match i {
        JitInstruction::BinaryOp(op) => "BinaryOp("@ + binary_op_debug(op) + ")"@,
        JitInstruction::LoadLiteral(l) => "LoadLiteral("@ + literal_debug(l@) + ")"@,
        JitInstruction::LoadGlobal(id) => "LoadGlobal("@ + ident_debug(id@) + ")"@,
        JitInstruction::LoadLocal(id) => "LoadLocal("@ + local_id_debug(id) + ")"@,
        JitInstruction::LoadUnit => "LoadUnit"@,
        JitInstruction::StoreLocal(id) => "StoreLocal("@ + local_id_debug(id) + ")"@,
        JitInstruction::Call(c) => "Call(JitCallInstruction { arity: "@ + decimal(
            c.spec_arity() as nat,
        ) + " })"@,
    }
}

/// How `{:?}` shows a terminal instruction.
pub open spec fn terminator_debug(t: JitTerminalInstruction) -> Seq<char> {
    match t {
        JitTerminalInstruction::Jump(id) => "Jump("@ + block_id_debug(id) + ")"@,
        JitTerminalInstruction::ConditionalJump(ts) => "ConditionalJump(ConditionalJumpTargets { true_target: "@
            + block_id_debug(ts.spec_true_target()) + ", false_target: "@ + block_id_debug(
            ts.spec_false_target(),
        ) + " })"@,
        JitTerminalInstruction::Return => "Return"@,
    }
}

/// The instructions as `{:?}` shows them in a list, separated by ", ".
pub open spec fn instructions_debug<'a>(s: Seq<JitInstruction<'a>>) -> Seq<char>
    decreases s.len(),
{
    if s.len() == 0 {
        Seq::empty()
    } else if s.len() == 1 {
        instruction_debug(s[0])
    } else {
        instructions_debug(s.drop_last()) + ", "@ + instruction_debug(s.last())
    }
}

/// How `{:?}` shows a block.
pub open spec fn block_debug<'a>(b: JitInstructionBlock<'a>) -> Seq<char> {
    "JitInstructionBlock { instructions: ["@ + instructions_debug(b.spec_instructions())
        + "], terminator: "@ + terminator_debug(*b.spec_terminator()) + " }"@
}

/// The blocks as `{:?}` shows them in a list, separated by ", ".
pub open spec fn blocks_debug<'a>(s: Seq<JitInstructionBlock<'a>>) -> Seq<char>
    decreases s.len(),
{
    if s.len() == 0 {
        Seq::empty()
    } else if s.len() == 1 {
        block_debug(s[0])
    } else {
        blocks_debug(s.drop_last()) + ", "@ + block_debug(s.last())
    }
}

/// How `{:?}` shows a compiled function.
pub open spec fn function_debug<'a>(f: JitCompiledFunction<'a>) -> Seq<char> {
    "JitCompiledFunction { entrypoint: "@ + block_id_debug(f.spec_entrypoint())
        + ", blocks: BlockList { blocks: ["@ + blocks_debug(f.spec_blocks()) + "] } }"@
}

impl<'a> JitInstruction<'a> {
    /// Appends how `{:?}` shows the instruction to `out`.
    pub fn push_debug(&self, out: &mut String)
        ensures
            final(out)@ == old(out)@ + instruction_debug(*self),
    {
        match self {
            JitInstruction::BinaryOp(op) => {
                push_str(out, "BinaryOp(");
                op.push_debug(out);
                push_str(out, ")");
            },
            JitInstruction::LoadLiteral(l) => {
                push_str(out, "LoadLiteral(");
                l.push_debug(out);
                push_str(out, ")");
            },
            JitInstruction::LoadGlobal(id) => {
                push_str(out, "LoadGlobal(");
                id.push_debug(out);
                push_str(out, ")");
            },
            JitInstruction::LoadLocal(id) => {
                push_str(out, "LoadLocal(");
                id.push_debug(out);
                push_str(out, ")");
            },
            JitInstruction::LoadUnit => {
                push_str(out, "LoadUnit");
            },
            JitInstruction::StoreLocal(id) => {
                push_str(out, "StoreLocal(");
                id.push_debug(out);
                push_str(out, ")");
            },
            JitInstruction::Call(c) => {
                push_str(out, "Call(JitCallInstruction { arity: ");
                push_decimal(out, c.arity() as u64);
                push_str(out, " })");
            },
        }
        assert(final(out)@ =~= old(out)@ + instruction_debug(*self));
    }
}

impl JitTerminalInstruction {
    /// Appends how `{:?}` shows the terminal instruction to `out`.
    pub fn push_debug(&self, out: &mut String)
        ensures
            final(out)@ == old(out)@ + terminator_debug(*self),
    {
        match self {
            JitTerminalInstruction::Jump(id) => {
                push_str(out, "Jump(");
                id.push_debug(out);
                push_str(out, ")");
            },
            JitTerminalInstruction::ConditionalJump(ts) => {
                push_str(out, "ConditionalJump(ConditionalJumpTargets { true_target: ");
                ts.true_target().push_debug(out);
                push_str(out, ", false_target: ");
                ts.false_target().push_debug(out);
                push_str(out, " })");
            },
            JitTerminalInstruction::Return => {
                push_str(out, "Return");
            },
        }
        assert(final(out)@ =~= old(out)@ + terminator_debug(*self));
    }
}

impl<'a> JitInstructionBlock<'a> {
    /// Appends how `{:?}` shows the block to `out`.
    pub fn push_debug(&self, out: &mut String)
        ensures
            final(out)@ == old(out)@ + block_debug(*self),
    {
        push_str(out, "JitInstructionBlock { instructions: [");
        let ghost start = out@;
        let instrs = self.instructions();
        let mut i: usize = 0;
        while i < instrs.len()
            invariant
                instrs@ == self.spec_instructions(),
                i <= instrs@.len(),
                out@ == start + instructions_debug(instrs@.take(i as int)),
            decreases instrs@.len() - i,
        {
            let ghost before = out@;
            if i > 0 {
                push_str(out, ", ");
            }
            instrs[i].push_debug(out);
            proof {
                let t = instrs@.take(i + 1);
                assert(t.drop_last() =~= instrs@.take(i as int));
                assert(t.last() == instrs@[i as int]);
                if i == 0 {
                    assert(t.len() == 1 && t[0] == instrs@[0]);
                    assert(instrs@.take(0) =~= Seq::<JitInstruction<'a>>::empty());
                }
                assert(out@ =~= start + instructions_debug(t));
            }
            i += 1;
        }
        assert(instrs@.take(instrs@.len() as int) =~= instrs@);
        push_str(out, "], terminator: ");
        self.terminator().push_debug(out);
        push_str(out, " }");
        assert(final(out)@ =~= old(out)@ + block_debug(*self));
    }
}

impl<'a> JitCompiledFunction<'a> {
    /// Appends how `{:?}` shows the function to `out`.
    pub fn push_debug(&self, out: &mut String)
        ensures
            final(out)@ == old(out)@ + function_debug(*self),
    {
        push_str(out, "JitCompiledFunction { entrypoint: ");
        self.entrypoint.push_debug(out);
        push_str(out, ", blocks: BlockList { blocks: [");
        let ghost start = out@;
        let n = self.blocks.len();
        let mut i: usize = 0;
        while i < n
            invariant
                n == self.spec_blocks().len(),
                i <= n,
                out@ == start + blocks_debug(self.spec_blocks().take(i as int)),
            decreases n - i,
        {
            if i > 0 {
                push_str(out, ", ");
            }
            match self.blocks.block(BlockId::new(i)) {
                Some(b) => b.push_debug(out),
                // The list has block `i`, since `i < n`.
                None => {},
            }
            proof {
                let s = self.spec_blocks();
                let t = s.take(i + 1);
                assert(t.drop_last() =~= s.take(i as int));
                assert(t.last() == s[i as int]);
                if i == 0 {
                    assert(t.len() == 1 && t[0] == s[0]);
                    assert(s.take(0) =~= Seq::<JitInstructionBlock<'a>>::empty());
                }
                assert(out@ =~= start + blocks_debug(t));
            }
            i += 1;
        }
        assert(self.spec_blocks().take(n as int) =~= self.spec_blocks());
        push_str(out, "] } }");
        assert(final(out)@ =~= old(out)@ + function_debug(*self));
    }
}

} // verus!
