//! Positions in source text.
use vstd::prelude::*;

verus! {

/// A position in the source text, counted in characters.
#[derive(Clone, Copy, Debug, PartialEq, Eq, Structural)]
pub struct SourceLocation {
    pub pos: usize,
}

impl SourceLocation {
    pub fn new(pos: usize) -> (r: SourceLocation)
        ensures
            r.pos == pos,
    {
        SourceLocation { pos }
    }

    pub fn pos(&self) -> (r: usize)
        ensures
            r == self.pos,
    {
        self.pos
    }
}

} // verus!
