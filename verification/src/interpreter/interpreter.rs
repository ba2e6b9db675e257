//! Nested scopes of named values, innermost last.
use vstd::prelude::*;
use crate::interpreter::value::Value;
use crate::parser::token::ident::Ident;

verus! {

/// The values bound by name in one scope.
struct LocalScope<'a> {
    /// The bindings in the order made; a later binding of a name hides the
    /// earlier ones.
    values: Vec<(Ident, Value<'a>)>,
}

/// What a run of bindings binds: each name to the value bound last.
pub open spec fn bindings_map<'a>(entries: Seq<(Seq<char>, Value<'a>)>) -> Map<Seq<char>, Value<'a>>
    decreases entries.len(),
{
    if entries.len() == 0 {
        Map::empty()
    } else {
        bindings_map(entries.drop_last()).insert(entries.last().0, entries.last().1)
    }
}

/// When no binding after the first `i` is of `name`, all the bindings bind
/// `name` as the first `i` do.
proof fn lemma_bindings_prefix<'a>(entries: Seq<(Seq<char>, Value<'a>)>, i: int, name: Seq<char>)
    requires
        0 <= i <= entries.len(),
        forall|j: int| i <= j < entries.len() ==> (#[trigger] entries[j]).0 != name,
    ensures
        bindings_map(entries).contains_key(name) == bindings_map(entries.take(i)).contains_key(name),
        bindings_map(entries).contains_key(name) ==> bindings_map(entries)[name] == bindings_map(
            entries.take(i),
        )[name],
    decreases entries.len() - i,
{
    if i < entries.len() {
        let e = entries.drop_last();
        assert(entries[entries.len() - 1].0 != name);
        assert forall|j: int| i <= j < e.len() implies (#[trigger] e[j]).0 != name by {
            assert(e[j] == entries[j]);
        }
        lemma_bindings_prefix(e, i, name);
        assert(e.take(i) =~= entries.take(i));
    } else {
        assert(entries.take(i) =~= entries);
    }
}

impl<'a> LocalScope<'a> {
    spec fn entries(&self) -> Seq<(Seq<char>, Value<'a>)> {
        self.values@.map_values(|e: (Ident, Value<'a>)| (e.0@, e.1))
    }

    spec fn spec_map(&self) -> Map<Seq<char>, Value<'a>> {
        bindings_map(self.entries())
    }

    fn new() -> (s: LocalScope<'a>)
        ensures
            s.spec_map() == Map::<Seq<char>, Value<'a>>::empty(),
    {
        let s = LocalScope { values: Vec::new() };
        assert(s.entries() =~= Seq::<(Seq<char>, Value<'a>)>::empty());
        s
    }

    fn lookup(&self, var: &Ident) -> (r: Option<&Value<'a>>)
        ensures
            match r {
                Some(v) => self.spec_map().contains_key(var@) && self.spec_map()[var@] == *v,
                None => !self.spec_map().contains_key(var@),
            },
    {
        let ghost entries = self.entries();
        let mut i = self.values.len();
        while i > 0
            invariant
                i <= self.values@.len(),
                entries == self.entries(),
                forall|j: int| i <= j < entries.len() ==> (#[trigger] entries[j]).0 != var@,
            decreases i,
        {
            let ghost prefix = entries.take(i as int);
            assert(prefix.drop_last() =~= entries.take(i - 1));
            assert(prefix.last() == (self.values@[i - 1].0@, self.values@[i - 1].1));
            if self.values[i - 1].0.same_name(var) {
                proof {
                    lemma_bindings_prefix(entries, i as int, var@);
                }
                return Some(&self.values[i - 1].1);
            }
            i -= 1;
        }
        proof {
            lemma_bindings_prefix(entries, 0, var@);
        }
        assert(entries.take(0) =~= Seq::<(Seq<char>, Value<'a>)>::empty());
        None
    }

    fn set_binding(&mut self, var: &Ident, value: Value<'a>)
        ensures
            final(self).spec_map() == old(self).spec_map().insert(var@, value),
    {
        self.values.push((var.clone(), value));
        assert(self.entries().drop_last() =~= old(self).entries());
    }
}

/// What the scopes bind `name` to: the binding of the innermost scope that
/// binds it, if any does.
pub open spec fn scopes_lookup<'a>(scopes: Seq<Map<Seq<char>, Value<'a>>>, name: Seq<char>) -> Option<
    Value<'a>,
>
    decreases scopes.len(),
{
    if scopes.len() == 0 {
        None
    } else if scopes.last().contains_key(name) {
        Some(scopes.last()[name])
    } else {
        scopes_lookup(scopes.drop_last(), name)
    }
}

/// The scopes of a running function: the enclosing ones and the current one.
pub struct ExecutionScope<'a> {
    parent_scopes: Vec<LocalScope<'a>>,
    current_scope: LocalScope<'a>,
}

impl<'a> View for ExecutionScope<'a> {
    type V = Seq<Map<Seq<char>, Value<'a>>>;

    /// The scopes, outermost first; the last one is current.
    closed spec fn view(&self) -> Seq<Map<Seq<char>, Value<'a>>> {
        self.parent_scopes@.map_values(|s: LocalScope<'a>| s.spec_map()).push(
            self.current_scope.spec_map(),
        )
    }
}

impl<'a> ExecutionScope<'a> {
    /// One empty scope.
    pub fn new() -> (s: ExecutionScope<'a>)
        ensures
            s@ == seq![Map::<Seq<char>, Value<'a>>::empty()],
            s@.len() >= 1,
    {
        let s = ExecutionScope { parent_scopes: Vec::new(), current_scope: LocalScope::new() };
        assert(s@ =~= seq![Map::<Seq<char>, Value<'a>>::empty()]);
        s
    }

    /// The value bound to `var` by the innermost scope that binds it.
    pub fn lookup_binding(&self, var: &Ident) -> (r: Option<&Value<'a>>)
        ensures
            match r {
                Some(v) => scopes_lookup(self@, var@) == Some(*v),
                None => scopes_lookup(self@, var@) is None,
            },
    {
        let ghost scopes = self@;
        let ghost parents = self.parent_scopes@.map_values(|s: LocalScope<'a>| s.spec_map());
        assert(scopes.drop_last() =~= parents);
        assert(scopes.last() == self.current_scope.spec_map());
        if let Some(val) = self.current_scope.lookup(var) {
            return Some(val);
        }
        assert(parents.take(parents.len() as int) =~= parents);
        let mut i = self.parent_scopes.len();
        while i > 0
            invariant
                i <= self.parent_scopes@.len(),
                parents == self.parent_scopes@.map_values(|s: LocalScope<'a>| s.spec_map()),
                scopes_lookup(parents.take(i as int), var@) == scopes_lookup(self@, var@),
            decreases i,
        {
            assert(parents.take(i as int).drop_last() =~= parents.take(i - 1));
            assert(parents.take(i as int).last() == self.parent_scopes@[i - 1].spec_map());
            if let Some(val) = self.parent_scopes[i - 1].lookup(var) {
                return Some(val);
            }
            i -= 1;
        }
        assert(parents.take(0) =~= Seq::<Map<Seq<char>, Value<'a>>>::empty());
        None
    }

    /// Binds `var` to `value` in the current scope.
    pub fn bind(&mut self, var: &Ident, value: Value<'a>)
        ensures
            final(self)@ == old(self)@.update(
                old(self)@.len() - 1,
                old(self)@.last().insert(var@, value),
            ),
            final(self)@.len() >= 1,
    {
        self.current_scope.set_binding(var, value);
        assert(self@ =~= old(self)@.update(
            old(self)@.len() - 1,
            old(self)@.last().insert(var@, value),
        ));
    }

    /// Opens a new, empty scope inside the current one.
    pub fn push_scope(self) -> (s: ExecutionScope<'a>)
        ensures
            s@ == self@.push(Map::<Seq<char>, Value<'a>>::empty()),
            s@.len() >= 1,
    {
        let mut parents = self.parent_scopes;
        let ghost old_parents = parents@;
        parents.push(self.current_scope);
        let s = ExecutionScope { parent_scopes: parents, current_scope: LocalScope::new() };
        assert(s@ =~= self@.push(Map::<Seq<char>, Value<'a>>::empty()));
        s
    }

    /// Closes the current scope, making the one around it current; the
    /// outermost scope is never closed.
    pub fn pop_scope(self) -> (s: ExecutionScope<'a>)
        ensures
            s@ == if self@.len() > 1 {
                self@.drop_last()
            } else {
                self@
            },
            s@.len() >= 1,
    {
        let ghost before = self@;
        let mut parents = self.parent_scopes;
        match parents.pop() {
            Some(scope) => {
                let s = ExecutionScope { parent_scopes: parents, current_scope: scope };
                assert(s@ =~= before.drop_last());
                s
            },
            None => {
                let s = ExecutionScope { parent_scopes: parents, current_scope: self.current_scope };
                assert(s@ =~= before);
                s
            },
        }
    }
}

/// There is always a scope: the current one.
pub proof fn lemma_scopes_nonempty<'a>(s: ExecutionScope<'a>)
    ensures
        s@.len() >= 1,
{
}

/// A name bound in the current scope is found with the value bound.
pub proof fn lemma_lookup_after_bind<'a>(
    scopes: Seq<Map<Seq<char>, Value<'a>>>,
    name: Seq<char>,
    value: Value<'a>,
)
    requires
        scopes.len() > 0,
    ensures
        scopes_lookup(scopes.update(scopes.len() - 1, scopes.last().insert(name, value)), name)
            == Some(value),
{
    let s2 = scopes.update(scopes.len() - 1, scopes.last().insert(name, value));
    assert(s2.last() == scopes.last().insert(name, value));
}

/// Binding a name leaves what every other name is bound to.
pub proof fn lemma_bind_keeps_other_names<'a>(
    scopes: Seq<Map<Seq<char>, Value<'a>>>,
    name: Seq<char>,
    value: Value<'a>,
    other: Seq<char>,
)
    requires
        scopes.len() > 0,
        other != name,
    ensures
        scopes_lookup(scopes.update(scopes.len() - 1, scopes.last().insert(name, value)), other)
            == scopes_lookup(scopes, other),
{
    let s2 = scopes.update(scopes.len() - 1, scopes.last().insert(name, value));
    assert(s2.drop_last() =~= scopes.drop_last());
    assert(s2.last() == scopes.last().insert(name, value));
}

/// Opening a scope hides nothing: every name is found as before.
pub proof fn lemma_push_keeps_bindings<'a>(scopes: Seq<Map<Seq<char>, Value<'a>>>, name: Seq<char>)
    ensures
        scopes_lookup(scopes.push(Map::empty()), name) == scopes_lookup(scopes, name),
{
    assert(scopes.push(Map::empty()).drop_last() =~= scopes);
}

/// Closing a scope undoes opening it, with whatever was bound inside.
pub proof fn lemma_pop_undoes_push<'a>(
    scopes: Seq<Map<Seq<char>, Value<'a>>>,
    inner: Map<Seq<char>, Value<'a>>,
)
    requires
        scopes.len() > 0,
    ensures
        scopes.push(inner).len() > 1 && scopes.push(inner).drop_last() == scopes,
{
    assert(scopes.push(inner).drop_last() =~= scopes);
}

} // verus!
