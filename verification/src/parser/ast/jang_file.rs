//! A parsed source file: its function declarations, in the order written.
use vstd::prelude::*;

verus! {

/// The function declarations of a source file, in the order written. The
/// type of a declaration is left to the caller.
#[derive(Clone, Debug)]
pub struct JangFile<F> {
    function_decls: Vec<F>,
}

impl<F> View for JangFile<F> {
    type V = Seq<F>;

    closed spec fn view(&self) -> Seq<F> {
        self.function_decls@
    }
}

impl<F> JangFile<F> {
    /// The function declarations, in the order written.
    pub fn function_decls(&self) -> (r: &[F])
        ensures
            r@ == self@,
    {
        self.function_decls.as_slice()
    }
}

/// Collects the function declarations of a file.
#[derive(Clone, Debug)]
pub struct JangFileBuilder<F> {
    function_decls: Vec<F>,
}

impl<F> View for JangFileBuilder<F> {
    type V = Seq<F>;

    closed spec fn view(&self) -> Seq<F> {
        self.function_decls@
    }
}

impl<F> JangFileBuilder<F> {
    pub fn new() -> (b: JangFileBuilder<F>)
        ensures
            b@ == Seq::<F>::empty(),
    {
        JangFileBuilder { function_decls: Vec::new() }
    }

    /// Adds a declaration after those already added.
    pub fn add_function_decl(self, function_decl: F) -> (b: JangFileBuilder<F>)
        ensures
            b@ == self@.push(function_decl),
    {
        let mut function_decls = self.function_decls;
        function_decls.push(function_decl);
        JangFileBuilder { function_decls }
    }

    /// The file with the declarations added, in the order added.
    pub fn build(self) -> (file: JangFile<F>)
        ensures
            file@ == self@,
    {
        JangFile { function_decls: self.function_decls }
    }
}

} // verus!
