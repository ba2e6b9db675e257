pub mod ident;
pub mod keyword;
pub mod literal;
pub mod operator;

use vstd::prelude::*;
use ident::Ident;
use keyword::Keyword;
use literal::{Literal, LiteralView};
use operator::{Op, Operator};

verus! {

/// A lexical token of Jang source text.
#[derive(Debug)]
pub enum JangToken {
    Keyword(Keyword),
    Ident(Ident),
    Literal(Literal),
    Operator(Operator),
    /// Emitted between two tokens that touch and join, such as the two
    /// characters of "->" or an identifier and the '(' that follows it.
    Joint,
}

/// The model of a token.
pub enum TokenView {
    Keyword(Keyword),
    Ident(Seq<char>),
    Literal(LiteralView),
    Operator(Op),
    Joint,
}

impl View for JangToken {
    type V = TokenView;

    open spec fn view(&self) -> TokenView {
        match self {
            JangToken::Keyword(k) => TokenView::Keyword(*k),
            JangToken::Ident(i) => TokenView::Ident(i@),
            JangToken::Literal(l) => TokenView::Literal(l@),
            JangToken::Operator(o) => TokenView::Operator(o.op),
            JangToken::Joint => TokenView::Joint,
        }
    }
}

} // verus!
