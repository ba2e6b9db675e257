//! Lists of instruction blocks, addressed by `BlockId`.
use vstd::prelude::*;
use crate::interpreter::error::{InterpreterError, InterpreterErrorKind, InterpreterResult};
use crate::text::{decimal, push_decimal, push_str, text_of};

verus! {

/// Names a block in a `BlockList`.
#[derive(Clone, Copy, Debug, PartialEq, Eq, Hash, Structural)]
pub struct BlockId(usize);

impl BlockId {
    /// The position of the block in its list.
    pub closed spec fn index(self) -> nat {
        self.0 as nat
    }

    /// The block at position `index`.
    pub fn new(index: usize) -> (r: BlockId)
        ensures
            r.index() == index,
    {
        BlockId(index)
    }

    /// The position of the block in its list.
    pub fn get(self) -> (r: usize)
        ensures
            r == self.index(),
    {
        self.0
    }
}

/// How `{:?}` shows a block id.
pub open spec fn block_id_debug(id: BlockId) -> Seq<char> {
    "BlockId("@ + decimal(id.index()) + ")"@
}

impl BlockId {
    /// Appends how `{:?}` shows the id to `out`.
    pub fn push_debug(&self, out: &mut String)
        ensures
            final(out)@ == old(out)@ + block_id_debug(*self),
    {
        push_str(out, "BlockId(");
        push_decimal(out, self.0 as u64);
        push_str(out, ")");
        assert(final(out)@ =~= old(out)@ + block_id_debug(*self));
    }
}

/// Two block ids are equal exactly when their positions are.
pub proof fn lemma_block_id_eq(a: BlockId, b: BlockId)
    ensures
        (a == b) <==> (a.index() == b.index()),
{
}

/// A finished list of blocks.
#[derive(Debug)]
pub struct BlockList<T> {
    blocks: Vec<T>,
}

impl<T> View for BlockList<T> {
    type V = Seq<T>;

    closed spec fn view(&self) -> Seq<T> {
        self.blocks@
    }
}

impl<T> BlockList<T> {
    /// A list holding `blocks`, in order: block `i` is `blocks[i]`.
    pub fn from_blocks(blocks: Vec<T>) -> (r: BlockList<T>)
        ensures
            r@ == blocks@,
    {
        BlockList { blocks }
    }

    /// The block with the given id, if the list has it.
    pub fn block(&self, id: BlockId) -> (r: Option<&T>)
        ensures
            r == if id.index() < self@.len() {
                Some(&self@[id.index() as int])
            } else {
                None::<&T>
            },
    {
        if id.0 < self.blocks.len() {
            Some(&self.blocks[id.0])
        } else {
            None
        }
    }

    pub fn len(&self) -> (n: usize)
        ensures
            n == self@.len(),
    {
        self.blocks.len()
    }
}

/// Builds a `BlockList`: ids are handed out first and each block is set
/// later, exactly once.
pub struct BlockListBuilder<T> {
    next_id: BlockId,
    blocks: Vec<Option<T>>,
}

impl<T> View for BlockListBuilder<T> {
    type V = Seq<Option<T>>;

    closed spec fn view(&self) -> Seq<Option<T>> {
        self.blocks@
    }
}

/// True when every allocated block has been set.
pub open spec fn all_set<T>(blocks: Seq<Option<T>>) -> bool {
    forall|i: int| 0 <= i < blocks.len() ==> (#[trigger] blocks[i]) is Some
}

impl<T> BlockListBuilder<T> {
    pub closed spec fn wf(&self) -> bool {
        self.next_id.0 == self.blocks@.len()
    }

    pub fn new() -> (b: BlockListBuilder<T>)
        ensures
            b.wf(),
            b@ == Seq::<Option<T>>::empty(),
    {
        BlockListBuilder { next_id: BlockId(0), blocks: Vec::new() }
    }

    /// Hands out the id of a new, not yet set block.
    pub fn allocate_uninitialized(&mut self) -> (id: BlockId)
        requires
            old(self).wf(),
            old(self)@.len() < usize::MAX,
        ensures
            final(self).wf(),
            id.index() == old(self)@.len(),
            final(self)@ == old(self)@.push(None),
    {
        let id = self.next_id;
        self.next_id = BlockId(id.0 + 1);
        self.blocks.push(None);
        id
    }

    /// Sets an allocated block; fails if it was set already.
    pub fn set(&mut self, block_id: BlockId, block: T) -> (r: InterpreterResult<()>)
        requires
            old(self).wf(),
            block_id.index() < old(self)@.len(),
        ensures
            final(self).wf(),
            old(self)@[block_id.index() as int] is Some ==> {
                &&& r matches Err(e)
                &&& e@ == (InterpreterErrorKind::Unimplemented, "block already exists"@)
                &&& final(self)@ == old(self)@
            },
            old(self)@[block_id.index() as int] is None ==> {
                &&& r is Ok
                &&& final(self)@ == old(self)@.update(block_id.index() as int, Some(block))
            },
    {
        if self.blocks[block_id.0].is_some() {
            return Err(InterpreterError::internal_err(text_of("block already exists")));
        }
        self.blocks.set(block_id.0, Some(block));
        Ok(())
    }

    /// The finished list; fails if some allocated block was never set.
    pub fn build(self) -> (r: InterpreterResult<BlockList<T>>)
        requires
            self.wf(),
        ensures
            all_set(self@) ==> (r matches Ok(list) && list@.len() == self@.len() && forall|i: int|
                0 <= i < self@.len() ==> Some(#[trigger] list@[i]) == self@[i]),
            !all_set(self@) ==> (r matches Err(e) && e@ == (
                InterpreterErrorKind::Unimplemented,
                "block not initialized"@,
            )),
    {
        let n = self.blocks.len();
        let mut i: usize = 0;
        while i < n
            invariant
                n == self.blocks@.len(),
                i <= n,
                forall|k: int| 0 <= k < i ==> (#[trigger] self.blocks@[k]) is Some,
            decreases n - i,
        {
            if self.blocks[i].is_none() {
                return Err(InterpreterError::internal_err(text_of("block not initialized")));
            }
            i += 1;
        }
        let ghost all = self.blocks@;
        let mut source = self.blocks;
        let mut reversed: Vec<T> = Vec::new();
        while source.len() > 0
            invariant
                all_set(all),
                source@ == all.take(source@.len() as int),
                source@.len() + reversed@.len() == all.len(),
                forall|k: int|
                    0 <= k < reversed@.len() ==> Some(#[trigger] reversed@[k]) == all[all.len()
                        - 1 - k],
            decreases source@.len(),
        {
            let ghost k = reversed@.len();
            let slot = source.pop().unwrap();
            let item = match slot {
                Some(b) => b,
                None => {
                    return Err(InterpreterError::internal_err(text_of("block not initialized")));
                },
            };
            reversed.push(item);
            assert(source@ =~= all.take(source@.len() as int));
            assert(Some(reversed@[k as int]) == all[all.len() - 1 - k]);
        }
        let mut blocks: Vec<T> = Vec::new();
        while reversed.len() > 0
            invariant
                reversed@.len() + blocks@.len() == all.len(),
                forall|k: int|
                    0 <= k < reversed@.len() ==> Some(#[trigger] reversed@[k]) == all[all.len()
                        - 1 - k],
                forall|k: int| 0 <= k < blocks@.len() ==> Some(#[trigger] blocks@[k]) == all[k],
            decreases reversed@.len(),
        {
            let ghost k = blocks@.len();
            let item = reversed.pop().unwrap();
            blocks.push(item);
            assert(Some(blocks@[k as int]) == all[k as int]);
        }
        Ok(BlockList { blocks })
    }
}

} // verus!
