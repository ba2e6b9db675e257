//! Storage for the local variables of one call of a compiled function.
use vstd::prelude::*;
use crate::interpreter::error::{InterpreterError, InterpreterErrorKind, InterpreterResult};
use crate::text::{decimal, push_decimal, push_str, text_of};

verus! {

/// Names a local variable slot of a compiled function.
#[derive(Clone, Copy, Debug, PartialEq, Eq, Hash, Default, Structural)]
pub struct LocalId(usize);

impl LocalId {
    /// The slot index.
    pub closed spec fn index(self) -> nat {
        self.0 as nat
    }

    /// The local with slot `index`.
    pub fn new(index: usize) -> (r: LocalId)
        ensures
            r.index() == index,
    {
        LocalId(index)
    }

    /// The slot index.
    pub fn get(self) -> (r: usize)
        ensures
            r == self.index(),
    {
        self.0
    }

    /// The local after this one.
    pub fn next(self) -> (r: LocalId)
        requires
            self.index() < usize::MAX,
        ensures
            r.index() == self.index() + 1,
    {
        LocalId(self.0 + 1)
    }
}

/// How `{:?}` shows a local id.
pub open spec fn local_id_debug(id: LocalId) -> Seq<char> {
    "LocalId("@ + decimal(id.index()) + ")"@
}

impl LocalId {
    /// Appends how `{:?}` shows the id to `out`.
    pub fn push_debug(&self, out: &mut String)
        ensures
            final(out)@ == old(out)@ + local_id_debug(*self),
    {
        push_str(out, "LocalId(");
        push_decimal(out, self.0 as u64);
        push_str(out, ")");
        assert(final(out)@ =~= old(out)@ + local_id_debug(*self));
    }
}

/// Two locals are the same exactly when their slots are.
pub proof fn lemma_local_id_eq(a: LocalId, b: LocalId)
    ensures
        (a == b) <==> (a.index() == b.index()),
{
}

/// A local slot: not yet written, or holding a value.
#[derive(Debug)]
pub enum LocalSlot<T> {
    Uninitialized,
    Val(T),
}

/// The local slots of one call.
pub struct LocalTable<T> {
    slots: Vec<LocalSlot<T>>,
}

/// The outcome of reading slot `index` of `slots`: the value, or the
/// message of the error.
pub open spec fn spec_read<T>(slots: Seq<LocalSlot<T>>, index: nat) -> Result<T, Seq<char>> {
    if index < slots.len() {
        match slots[index as int] {
            LocalSlot::Val(v) => Ok(v),
            LocalSlot::Uninitialized => Err("uninitialized local"@),
        }
    } else {
        Err("bad local read"@)
    }
}

/// The slots after writing `value` to slot `index`: the table grows with
/// uninitialized slots up to `index` where it is too short.
pub open spec fn spec_write<T>(slots: Seq<LocalSlot<T>>, index: nat, value: T) -> Seq<LocalSlot<T>> {
    let grown = if slots.len() <= index {
        slots + Seq::new((index + 1 - slots.len()) as nat, |i: int| LocalSlot::<T>::Uninitialized)
    } else {
        slots
    };
    grown.update(index as int, LocalSlot::Val(value))
}

impl<T> View for LocalTable<T> {
    type V = Seq<LocalSlot<T>>;

    closed spec fn view(&self) -> Seq<LocalSlot<T>> {
        self.slots@
    }
}

impl<T> LocalTable<T> {
    pub fn new() -> (t: LocalTable<T>)
        ensures
            t@ == Seq::<LocalSlot<T>>::empty(),
    {
        LocalTable { slots: Vec::new() }
    }

    /// The value of a local, or an error for a slot that was never written.
    pub fn read(&self, local_id: LocalId) -> (r: InterpreterResult<&T>)
        ensures
            match spec_read(self@, local_id.index()) {
                Ok(v) => r == Ok::<&T, InterpreterError>(&v),
                Err(m) => r matches Err(e) && e@ == (InterpreterErrorKind::Unimplemented, m),
            },
    {
        let index = local_id.0;
        if index < self.slots.len() {
            match &self.slots[index] {
                LocalSlot::Val(value) => Ok(value),
                LocalSlot::Uninitialized => Err(
                    InterpreterError::internal_err(text_of("uninitialized local")),
                ),
            }
        } else {
            Err(InterpreterError::internal_err(text_of("bad local read")))
        }
    }

    /// Stores `value` in a local.
    pub fn write(&mut self, local_id: LocalId, value: T)
        requires
            local_id.index() < usize::MAX,
        ensures
            final(self)@ == spec_write(old(self)@, local_id.index(), value),
    {
        let index = local_id.0;
        let ghost start = self.slots@;
        if self.slots.len() <= index {
            while self.slots.len() <= index
                invariant
                    index < usize::MAX,
                    start.len() <= self.slots@.len() <= index + 1,
                    self.slots@ == start + Seq::new(
                        (self.slots@.len() - start.len()) as nat,
                        |i: int| LocalSlot::<T>::Uninitialized,
                    ),
                decreases index + 1 - self.slots@.len(),
            {
                let ghost before = self.slots@;
                self.slots.push(LocalSlot::Uninitialized);
                assert(self.slots@ =~= start + Seq::new(
                    (self.slots@.len() - start.len()) as nat,
                    |i: int| LocalSlot::<T>::Uninitialized,
                ));
            }
        }
        self.slots.set(index, LocalSlot::Val(value));
        assert(self.slots@ =~= spec_write(start, local_id.index(), value));
    }
}

/// Reading a local right after writing it gives back the value written.
pub proof fn lemma_read_after_write<T>(slots: Seq<LocalSlot<T>>, index: nat, value: T)
    ensures
        spec_read(spec_write(slots, index, value), index) == Ok::<T, Seq<char>>(value),
{
}

/// Writing a local leaves every other local as it was.
pub proof fn lemma_write_keeps_other_locals<T>(
    slots: Seq<LocalSlot<T>>,
    index: nat,
    value: T,
    other: nat,
)
    requires
        other != index,
        other < slots.len(),
    ensures
        spec_read(spec_write(slots, index, value), other) == spec_read(slots, other),
{
}

/// Writing a local twice keeps only the second value.
pub proof fn lemma_write_write<T>(slots: Seq<LocalSlot<T>>, index: nat, first: T, second: T)
    ensures
        spec_write(spec_write(slots, index, first), index, second) == spec_write(slots, index, second),
{
    assert(spec_write(spec_write(slots, index, first), index, second) =~= spec_write(slots, index, second));
}

} // verus!
