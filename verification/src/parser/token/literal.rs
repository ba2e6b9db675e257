//! Literal tokens.
use vstd::prelude::*;
use crate::text::{push_str, str_debug, str_debug_text};

verus! {

/// The text of a numeric literal, kept as written. A literal with a '.' in
/// it is a float literal; otherwise it is an integral literal.
#[derive(Debug)]
pub enum NumericLiteral {
    Integral(String),
    Float(String),
}

/// A literal value in source text.
#[derive(Debug)]
pub enum Literal {
    Numeric(NumericLiteral),
}

/// The model of a numeric literal: its kind and its text.
pub enum NumericLiteralView {
    Integral(Seq<char>),
    Float(Seq<char>),
}

/// The model of a literal.
pub enum LiteralView {
    Numeric(NumericLiteralView),
}

impl View for NumericLiteral {
    type V = NumericLiteralView;

    open spec fn view(&self) -> NumericLiteralView {
        match self {
            NumericLiteral::Integral(s) => NumericLiteralView::Integral(s@),
            NumericLiteral::Float(s) => NumericLiteralView::Float(s@),
        }
    }
}

impl View for Literal {
    type V = LiteralView;

    open spec fn view(&self) -> LiteralView {
        match self {
            Literal::Numeric(n) => LiteralView::Numeric(n@),
        }
    }
}

/// How `{:?}` shows a literal.
pub open spec fn literal_debug(l: LiteralView) -> Seq<char> {
    match l {
        LiteralView::Numeric(NumericLiteralView::Integral(t)) => "Numeric(Integral("@
            + str_debug_text(t) + "))"@,
        LiteralView::Numeric(NumericLiteralView::Float(t)) => "Numeric(Float("@ + str_debug_text(t)
            + "))"@,
    }
}

impl Literal {
    /// Appends how `{:?}` shows the literal to `out`.
    pub fn push_debug(&self, out: &mut String)
        ensures
            final(out)@ == old(out)@ + literal_debug(self@),
    {
        match self {
            Literal::Numeric(NumericLiteral::Integral(t)) => {
                push_str(out, "Numeric(Integral(");
                let quoted = str_debug(t.as_str());
                push_str(out, quoted.as_str());
            },
            Literal::Numeric(NumericLiteral::Float(t)) => {
                push_str(out, "Numeric(Float(");
                let quoted = str_debug(t.as_str());
                push_str(out, quoted.as_str());
            },
        }
        push_str(out, "))");
        assert(final(out)@ =~= old(out)@ + literal_debug(self@));
    }
}

/// How the text of a numeric literal is classified.
pub open spec fn spec_numeric_literal(text: Seq<char>) -> NumericLiteralView {
    if text.contains('.') {
        NumericLiteralView::Float(text)
    } else {
        NumericLiteralView::Integral(text)
    }
}

impl NumericLiteral {
    /// Classifies `text`: a float literal if it holds a '.', else integral.
    pub fn from_str(text: String) -> (r: NumericLiteral)
        ensures
            r@ == spec_numeric_literal(text@),
    {
        let chars = crate::text::str_chars(text.as_str());
        let mut i: usize = 0;
        let mut has_dot = false;
        while i < chars.len()
            invariant
                chars@ == text@,
                i <= chars@.len(),
                has_dot == exists|j: int| 0 <= j < i && chars@[j] == '.',
            decreases chars@.len() - i,
        {
            if chars[i] == '.' {
                has_dot = true;
            }
            i += 1;
        }
        proof {
            if text@.contains('.') {
                let j = choose|j: int| 0 <= j < text@.len() && text@[j] == '.';
                assert(chars@[j] == '.');
            }
        }
        if has_dot {
            NumericLiteral::Float(text)
        } else {
            NumericLiteral::Integral(text)
        }
    }

    /// The literal's text.
    pub fn text(&self) -> (s: &str)
        ensures
            s@ == match self@ {
                NumericLiteralView::Integral(t) => t,
                NumericLiteralView::Float(t) => t,
            },
    {
        match self {
            NumericLiteral::Integral(s) => s.as_str(),
            NumericLiteral::Float(s) => s.as_str(),
        }
    }
}

impl Clone for NumericLiteral {
    fn clone(&self) -> (r: Self)
        ensures
            r@ == self@,
    {
        match self {
            NumericLiteral::Integral(s) => NumericLiteral::Integral(s.clone()),
            NumericLiteral::Float(s) => NumericLiteral::Float(s.clone()),
        }
    }
}

impl Clone for Literal {
    fn clone(&self) -> (r: Self)
        ensures
            r@ == self@,
    {
        match self {
            Literal::Numeric(n) => Literal::Numeric(n.clone()),
        }
    }
}

impl From<NumericLiteral> for Literal {
    fn from(n: NumericLiteral) -> (r: Literal) {
        Literal::Numeric(n)
    }
}

impl vstd::std_specs::convert::FromSpecImpl<NumericLiteral> for Literal {
    open spec fn obeys_from_spec() -> bool {
        true
    }

    open spec fn from_spec(n: NumericLiteral) -> Literal {
        Literal::Numeric(n)
    }
}

} // verus!
