//! Type expressions.
use vstd::prelude::*;
use crate::parser::ast::code_formatter::{push_owned_piece, texts};
use crate::parser::token::ident::Ident;

verus! {

/// A type written by its name, such as `i32` or `String`.
#[derive(Clone, Debug)]
pub struct TypeExpression {
    name: Ident,
}

impl View for TypeExpression {
    type V = Seq<char>;

    closed spec fn view(&self) -> Seq<char> {
        self.name@
    }
}

impl TypeExpression {
    pub fn new(name: Ident) -> (t: TypeExpression)
        ensures
            t@ == name@,
    {
        TypeExpression { name }
    }

    /// The name of the type.
    pub fn name(&self) -> (n: &Ident)
        ensures
            n@ == self@,
    {
        &self.name
    }

    /// Appends the pieces that display the type: its name.
    pub fn push_pieces(&self, out: &mut Vec<String>)
        ensures
            texts(final(out)@) == texts(old(out)@).push(self@),
    {
        push_owned_piece(out, self.name.to_text());
    }
}

} // verus!
