//! A program of compiled functions, and running its `main`.
use vstd::prelude::*;
use crate::interpreter::bytecode::instruction::JitCompiledFunction;
use crate::interpreter::bytecode::machine::{ErrorView, JitFunctionContext};
use crate::interpreter::error::{InterpreterError, InterpreterErrorKind, InterpreterResult};
use crate::interpreter::value::{value_debug, Value};
use crate::parser::token::ident::Ident;
use crate::text::{push_str, text_of};

verus! {

/// The name of the function that a program starts at.
pub open spec fn main_fn_name() -> Seq<char> {
    "main"@
}

/// The position of the function called `name` in `names`: where a name
/// occurs more than once, the last occurrence.
pub open spec fn spec_find(names: Seq<Seq<char>>, name: Seq<char>) -> Option<int>
    decreases names.len(),
{
    if names.len() == 0 {
        None
    } else if names.last() == name {
        Some(names.len() - 1)
    } else {
        spec_find(names.drop_last(), name)
    }
}

/// The compiled functions of a program, by name.
pub struct Program<'a> {
    functions: Vec<(Ident, JitCompiledFunction<'a>)>,
}

impl<'a> Program<'a> {
    pub closed spec fn names(&self) -> Seq<Seq<char>> {
        Seq::new(self.functions@.len(), |i: int| self.functions@[i].0@)
    }

    /// The function called `name`, if any.
    pub closed spec fn spec_lookup(&self, name: Seq<char>) -> Option<&JitCompiledFunction<'a>> {
        match spec_find(self.names(), name) {
            Some(i) => Some(&self.functions@[i].1),
            None => None,
        }
    }

    pub fn lookup_function(&self, var: &Ident) -> (r: Option<&JitCompiledFunction<'a>>)
        ensures
            r == self.spec_lookup(var@),
    {
        let mut i = self.functions.len();
        assert(self.names().take(i as int) =~= self.names());
        while i > 0
            invariant
                i <= self.functions@.len(),
                spec_find(self.names(), var@) == spec_find(self.names().take(i as int), var@),
            decreases i,
        {
            assert(self.names().take(i as int).drop_last() =~= self.names().take(i - 1));
            if self.functions[i - 1].0.same_name(var) {
                return Some(&self.functions[i - 1].1);
            }
            i = i - 1;
        }
        None
    }
}

/// Runs the compiled functions of a program.
pub struct Interpreter<'a> {
    program: Program<'a>,
}

impl<'a> Interpreter<'a> {
    /// The names of the program's functions, in the order given.
    pub closed spec fn function_names(&self) -> Seq<Seq<char>> {
        self.program.names()
    }

    /// The function that `name` refers to, if any.
    pub closed spec fn spec_function(&self, name: Seq<char>) -> Option<&JitCompiledFunction<'a>> {
        self.program.spec_lookup(name)
    }

    /// An interpreter for the given functions. Where two have one name, the
    /// later one is the one that the name refers to.
    pub fn new(functions: Vec<(Ident, JitCompiledFunction<'a>)>) -> (r: Interpreter<'a>)
        ensures
            r.function_names() == Seq::new(functions@.len(), |i: int| functions@[i].0@),
            forall|name: Seq<char>|
                #[trigger] r.spec_function(name) == match spec_find(
                    Seq::new(functions@.len(), |i: int| functions@[i].0@),
                    name,
                ) {
                    Some(i) => Some(&functions@[i].1),
                    None => None,
                },
    {
        Interpreter { program: Program { functions } }
    }

    /// The function `main`, or an error if the program has none.
    pub fn main_function(&self) -> (r: InterpreterResult<&JitCompiledFunction<'a>>)
        ensures
            match self.spec_function(main_fn_name()) {
                Some(f) => r matches Ok(g) && g == f,
                None => r matches Err(e) && e@ == (
                    InterpreterErrorKind::Generic,
                    "main function not found"@,
                ),
            },
    {
        let name = Ident::new(text_of("main"));
        match self.program.lookup_function(&name) {
            Some(f) => Ok(f),
            None => Err(InterpreterError::generic_err(text_of("main function not found"))),
        }
    }
}

impl<'a> JitFunctionContext<'a> for Interpreter<'a> {
    /// A name resolves to the program's function of that name; any other
    /// name is unbound.
    open spec fn spec_resolve(&self, name: Seq<char>) -> Result<Value<'a>, ErrorView> {
        match self.spec_function(name) {
            Some(f) => Ok(Value::JitCompiledFunctionRef(f)),
            None => Err((InterpreterErrorKind::Unimplemented, "unbound variable: "@ + name)),
        }
    }

    /// A name refers to the program's function of that name.
    fn resolve_ident(&'a self, name: &Ident) -> (r: InterpreterResult<Value<'a>>)
        ensures
            match self.spec_function(name@) {
                Some(f) => r matches Ok(Value::JitCompiledFunctionRef(g)) && g == f,
                None => r matches Err(e) && e@ == (
                    InterpreterErrorKind::Unimplemented,
                    "unbound variable: "@ + name@,
                ),
            },
    {
        match self.program.lookup_function(name) {
            Some(f) => Ok(Value::JitCompiledFunctionRef(f)),
            None => {
                let mut m = text_of("unbound variable: ");
                push_str(&mut m, name.as_str());
                Err(InterpreterError::internal_err(m))
            },
        }
    }
}

/// What a run of `main` reports for the value that `main` returned: an
/// `Int32` is the result; any other value is an error.
pub fn main_result(value: Value) -> (r: InterpreterResult<i32>)
    ensures
        match value {
            Value::Int32(v) => r == Ok::<i32, InterpreterError>(v),
            Value::Unit => r matches Err(e) && e@ == (
                InterpreterErrorKind::Value,
                "main must return a value"@,
            ),
            _ => r matches Err(e) && e@ == (
                InterpreterErrorKind::Value,
                "invalid return value from main: "@ + value_debug(value),
            ),
        },
{
    match value {
        Value::Int32(v) => Ok(v),
        Value::Unit => Err(InterpreterError::value_err(text_of("main must return a value"))),
        r => {
            let mut m = text_of("invalid return value from main: ");
            crate::interpreter::value::push_value_debug(&mut m, &r);
            Err(InterpreterError::value_err(m))
        },
    }
}

} // verus!
