//! Identifiers.
use vstd::prelude::*;
use crate::text::{push_str, str_debug, str_debug_text};

verus! {

/// A name in Jang source text.
#[derive(Debug)]
pub struct Ident(String);

impl View for Ident {
    type V = Seq<char>;

    closed spec fn view(&self) -> Seq<char> {
        self.0@
    }
}

impl Ident {
    pub fn new(name: String) -> (r: Ident)
        ensures
            r@ == name@,
    {
        Ident(name)
    }

    /// The text of the identifier.
    pub fn as_str(&self) -> (s: &str)
        ensures
            s@ == self@,
    {
        self.0.as_str()
    }

    /// A copy of the identifier's text.
    pub fn to_text(&self) -> (s: String)
        ensures
            s@ == self@,
    {
        self.0.clone()
    }

    /// Whether two identifiers spell the same name.
    pub fn same_name(&self, other: &Ident) -> (b: bool)
        ensures
            b == (self@ == other@),
    {
        self.0 == other.0
    }
}

/// How `{:?}` shows an identifier with text `name`.
pub open spec fn ident_debug(name: Seq<char>) -> Seq<char> {
    "Ident("@ + str_debug_text(name) + ")"@
}

impl Ident {
    /// Appends how `{:?}` shows the identifier to `out`.
    pub fn push_debug(&self, out: &mut String)
        ensures
            final(out)@ == old(out)@ + ident_debug(self@),
    {
        push_str(out, "Ident(");
        let quoted = str_debug(self.0.as_str());
        push_str(out, quoted.as_str());
        push_str(out, ")");
        assert(final(out)@ =~= old(out)@ + ident_debug(self@));
    }
}

impl Clone for Ident {
    fn clone(&self) -> (r: Self)
        ensures
            r@ == self@,
    {
        Ident(self.0.clone())
    }
}

} // verus!
