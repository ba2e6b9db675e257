//! Errors of the Jang front end.
use vstd::prelude::*;
use crate::interpreter::error::InterpreterError;
use crate::source_location::SourceLocation;
use crate::text::{push_decimal, push_str};

verus! {

/// A failure to read source text, with where it happened.
#[derive(Debug)]
pub struct ParseError {
    message: String,
    source_location: SourceLocation,
}

impl View for ParseError {
    type V = (Seq<char>, usize);

    closed spec fn view(&self) -> (Seq<char>, usize) {
        (self.message@, self.source_location.pos)
    }
}

impl ParseError {
    pub fn new(message: String, source_location: SourceLocation) -> (e: ParseError)
        ensures
            e@ == (message@, source_location.pos),
    {
        ParseError { message, source_location }
    }

    /// The error as it is shown to a user: "Parse error: <message> (pos: <pos>)".
    pub fn to_display_string(&self) -> (s: String)
        ensures
            s@ == "Parse error: "@ + self@.0 + " (pos: "@ + crate::text::decimal(
                self@.1 as nat,
            ) + ")"@,
    {
        let mut out = String::new();
        push_str(&mut out, "Parse error: ");
        push_str(&mut out, self.message.as_str());
        push_str(&mut out, " (pos: ");
        push_decimal(&mut out, self.source_location.pos as u64);
        push_str(&mut out, ")");
        assert(out@ =~= "Parse error: "@ + self@.0 + " (pos: "@ + crate::text::decimal(
            self@.1 as nat,
        ) + ")"@);
        out
    }
}

impl Clone for ParseError {
    fn clone(&self) -> (r: Self)
        ensures
            r@ == self@,
    {
        ParseError { message: self.message.clone(), source_location: self.source_location }
    }
}

/// Any error of the front end.
#[derive(Debug)]
pub enum JangError {
    /// Source text that is not made of tokens.
    Parse(ParseError),
    /// Tokens that the grammar does not derive.
    Grammar(String),
    Interpret(InterpreterError),
}

pub type JangResult<T> = Result<T, JangError>;

/// The model of a `JangError`.
pub enum JangErrorView {
    Parse((Seq<char>, usize)),
    Grammar(Seq<char>),
    Interpret((crate::interpreter::error::InterpreterErrorKind, Seq<char>)),
}

impl View for JangError {
    type V = JangErrorView;

    open spec fn view(&self) -> JangErrorView {
        match self {
            JangError::Parse(e) => JangErrorView::Parse(e@),
            JangError::Grammar(m) => JangErrorView::Grammar(m@),
            JangError::Interpret(e) => JangErrorView::Interpret(e@),
        }
    }
}

impl JangError {
    pub fn parse_error(message: String, source_location: SourceLocation) -> (e: JangError)
        ensures
            e@ == JangErrorView::Parse((message@, source_location.pos)),
    {
        JangError::Parse(ParseError::new(message, source_location))
    }

    /// The error as it is shown to a user.
    pub fn to_display_string(&self) -> (s: String)
        ensures
            s@ == match self@ {
                JangErrorView::Parse(p) => "Parse error: "@ + p.0 + " (pos: "@
                    + crate::text::decimal(p.1 as nat) + ")"@,
                JangErrorView::Grammar(m) => "Grammar error: "@ + m,
                JangErrorView::Interpret(i) => "Interpret error: "@
                    + crate::interpreter::error::display_prefix(i.0) + i.1,
            },
    {
        match self {
            JangError::Parse(e) => e.to_display_string(),
            JangError::Grammar(m) => {
                let mut out = String::new();
                push_str(&mut out, "Grammar error: ");
                push_str(&mut out, m.as_str());
                out
            },
            JangError::Interpret(e) => {
                let mut out = String::new();
                push_str(&mut out, "Interpret error: ");
                let inner = e.to_display_string();
                push_str(&mut out, inner.as_str());
                assert(out@ =~= "Interpret error: "@
                    + crate::interpreter::error::display_prefix(e@.0) + e@.1);
                out
            },
        }
    }
}

impl From<InterpreterError> for JangError {
    fn from(err: InterpreterError) -> (r: JangError) {
        JangError::Interpret(err)
    }
}

impl vstd::std_specs::convert::FromSpecImpl<InterpreterError> for JangError {
    open spec fn obeys_from_spec() -> bool {
        true
    }

    open spec fn from_spec(err: InterpreterError) -> JangError {
        JangError::Interpret(err)
    }
}

} // verus!
