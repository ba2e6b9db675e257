//! The nested lexical scopes that the compiler keeps while it assigns
//! local slots to names.
use vstd::prelude::*;
use crate::interpreter::bytecode::local_table::LocalId;
use crate::interpreter::error::{InterpreterError, InterpreterErrorKind, InterpreterResult};
use crate::parser::token::ident::Ident;
use crate::text::text_of;

verus! {

/// A chain of lexical blocks, innermost first.
#[derive(Debug)]
pub struct JitCompilerLexicalScope<'a>(Box<JitCompilerLexicalBlock<'a>>);

#[derive(Debug)]
struct JitCompilerLexicalBlock<'a> {
    parent: Option<JitCompilerLexicalScope<'a>>,
    next_local_id: LocalId,
    locals: Vec<(&'a Ident, LocalId)>,
}

/// The local bound to `name` among `locals`, if any.
spec fn local_in<'a>(locals: Seq<(&'a Ident, LocalId)>, name: Seq<char>) -> Option<LocalId>
    decreases locals.len(),
{
    if locals.len() == 0 {
        None
    } else if locals.last().0@ == name {
        Some(locals.last().1)
    } else {
        local_in(locals.drop_last(), name)
    }
}

/// No name is bound twice in `locals`.
spec fn distinct_names<'a>(locals: Seq<(&'a Ident, LocalId)>) -> bool {
    forall|i: int, j: int|
        0 <= i < j < locals.len() ==> (#[trigger] locals[i]).0@ != (#[trigger] locals[j]).0@
}

impl<'a> JitCompilerLexicalScope<'a> {
    /// The local bound to `name` in the innermost block that binds it.
    pub closed spec fn spec_lookup(&self, name: Seq<char>) -> Option<LocalId>
        decreases self,
    {
        match local_in(self.0.locals@, name) {
            Some(id) => Some(id),
            None => match &self.0.parent {
                Some(p) => p.spec_lookup(name),
                None => None,
            },
        }
    }

    /// The local that the innermost block binds `name` to, if it binds it.
    pub closed spec fn spec_local_here(&self, name: Seq<char>) -> Option<LocalId> {
        local_in(self.0.locals@, name)
    }

    /// Whether the innermost block binds `name`.
    pub closed spec fn binds_here(&self, name: Seq<char>) -> bool {
        local_in(self.0.locals@, name) is Some
    }

    /// The local that the next binding gets.
    pub closed spec fn spec_next_local_id(&self) -> LocalId {
        self.0.next_local_id
    }

    /// The scope around the innermost block, if any.
    pub closed spec fn spec_parent(&self) -> Option<JitCompilerLexicalScope<'a>> {
        self.0.parent
    }

    pub closed spec fn wf(&self) -> bool
        decreases self,
    {
        &&& distinct_names(self.0.locals@)
        &&& match &self.0.parent {
            Some(p) => p.wf(),
            None => true,
        }
    }

    /// `self` is `outer` with a new, empty innermost block.
    pub open spec fn is_entered_from(&self, outer: JitCompilerLexicalScope<'a>) -> bool {
        &&& self.spec_parent() == Some(outer)
        &&& self.spec_next_local_id() == outer.spec_next_local_id()
        &&& forall|n: Seq<char>| !#[trigger] self.binds_here(n)
    }

    pub fn new() -> (s: JitCompilerLexicalScope<'a>)
        ensures
            s.wf(),
            s.spec_parent() is None,
            s.spec_next_local_id().index() == 0,
            forall|n: Seq<char>| s.spec_lookup(n) is None,
    {
        JitCompilerLexicalScope(
            Box::new(
                JitCompilerLexicalBlock {
                    parent: None,
                    next_local_id: LocalId::new(0),
                    locals: Vec::new(),
                },
            ),
        )
    }

    /// The local bound to `name`, looking from the innermost block outwards.
    pub fn get_binding(&self, name: &Ident) -> (r: Option<LocalId>)
        ensures
            r == self.spec_lookup(name@),
        decreases self,
    {
        let locals = &self.0.locals;
        let mut i = locals.len();
        assert(locals@.take(i as int) =~= locals@);
        while i > 0
            invariant
                i <= locals@.len(),
                locals@ == self.0.locals@,
                local_in(locals@, name@) == local_in(locals@.take(i as int), name@),
            decreases i,
        {
            let ghost prefix = locals@.take(i as int);
            assert(prefix.drop_last() =~= locals@.take(i - 1));
            if locals[i - 1].0.same_name(name) {
                return Some(locals[i - 1].1);
            }
            i = i - 1;
        }
        match &self.0.parent {
            Some(p) => p.get_binding(name),
            None => None,
        }
    }

    /// Binds `name` to a fresh local of the innermost block.
    pub fn bind(&mut self, name: &'a Ident) -> (r: LocalId)
        requires
            old(self).wf(),
            !old(self).binds_here(name@),
            old(self).spec_next_local_id().index() < usize::MAX,
        ensures
            final(self).wf(),
            r == old(self).spec_next_local_id(),
            final(self).spec_next_local_id().index() == r.index() + 1,
            final(self).spec_parent() == old(self).spec_parent(),
            final(self).spec_lookup(name@) == Some(r),
            forall|n: Seq<char>|
                n != name@ ==> #[trigger] final(self).spec_lookup(n) == old(self).spec_lookup(n),
            forall|n: Seq<char>|
                n != name@ ==> #[trigger] final(self).binds_here(n) == old(self).binds_here(n),
            final(self).binds_here(name@),
    {
        let local_id = self.0.next_local_id;
        let ghost old_locals = self.0.locals@;
        self.0.next_local_id = local_id.next();
        self.0.locals.push((name, local_id));
        proof {
            assert(self.0.locals@.drop_last() =~= old_locals);
            assert forall|i: int, j: int|
                0 <= i < j < self.0.locals@.len() implies (#[trigger] self.0.locals@[i]).0@
                != (#[trigger] self.0.locals@[j]).0@ by {
                if j == old_locals.len() {
                    lemma_local_in_none(old_locals, name@, i);
                }
            }
        }
        local_id
    }

    /// The scope with a new, empty innermost block around nothing new.
    pub fn enter_block(self) -> (r: JitCompilerLexicalScope<'a>)
        requires
            self.wf(),
        ensures
            r.wf(),
            r.is_entered_from(self),
    {
        let next_local_id = self.0.next_local_id;
        let r = JitCompilerLexicalScope(
            Box::new(
                JitCompilerLexicalBlock { parent: Some(self), next_local_id, locals: Vec::new() },
            ),
        );
        assert(r.0.locals@ =~= Seq::<(&'a Ident, LocalId)>::empty());
        r
    }

    /// The scope without its innermost block; an error at the top level.
    pub fn exit_block(self) -> (r: InterpreterResult<JitCompilerLexicalScope<'a>>)
        requires
            self.wf(),
        ensures
            match self.spec_parent() {
                Some(p) => r matches Ok(q) && q == p && q.wf(),
                None => r matches Err(e) && e@ == (
                    InterpreterErrorKind::JitCompile,
                    "tried to exit from top-level scope"@,
                ),
            },
    {
        match self.0.parent {
            Some(p) => Ok(p),
            None => Err(InterpreterError::jit_err(text_of("tried to exit from top-level scope"))),
        }
    }
}

/// Lookup goes from the innermost block outwards: the innermost block's
/// binding of a name if it has one, else what the scope around it binds the
/// name to, else nothing.
pub proof fn lemma_lookup_innermost_first<'a>(s: JitCompilerLexicalScope<'a>, name: Seq<char>)
    ensures
        s.binds_here(name) == s.spec_local_here(name) is Some,
        s.spec_lookup(name) == match s.spec_local_here(name) {
            Some(id) => Some(id),
            None => match s.spec_parent() {
                Some(p) => p.spec_lookup(name),
                None => None,
            },
        },
{
}

proof fn lemma_local_in_none<'a>(locals: Seq<(&'a Ident, LocalId)>, name: Seq<char>, i: int)
    requires
        local_in(locals, name) is None,
        0 <= i < locals.len(),
    ensures
        locals[i].0@ != name,
    decreases locals.len(),
{
    if i < locals.len() - 1 {
        lemma_local_in_none(locals.drop_last(), name, i);
    }
}

/// A new innermost block hides nothing: every name is bound as it was
/// outside it, and leaving the block gives back the scope it was entered from.
pub proof fn lemma_enter_keeps_bindings<'a>(
    inner: JitCompilerLexicalScope<'a>,
    outer: JitCompilerLexicalScope<'a>,
    name: Seq<char>,
)
    requires
        inner.is_entered_from(outer),
    ensures
        inner.spec_lookup(name) == outer.spec_lookup(name),
        inner.spec_parent() == Some(outer),
{
    assert(!inner.binds_here(name));
}

/// A name bound in an inner block is forgotten when the block is left: the
/// scope left behind is the one the block was entered from, and binding did
/// not change it.
pub proof fn lemma_bind_in_block_then_exit<'a>(
    entered: JitCompilerLexicalScope<'a>,
    after_bind: JitCompilerLexicalScope<'a>,
    outer: JitCompilerLexicalScope<'a>,
)
    requires
        entered.is_entered_from(outer),
        after_bind.spec_parent() == entered.spec_parent(),
    ensures
        after_bind.spec_parent() == Some(outer),
{
}

} // verus!
