//! Errors raised while compiling or running Jang code.
use vstd::prelude::*;
use crate::text::push_str;

verus! {

/// Which kind of failure an `InterpreterError` reports.
#[derive(Clone, Copy, Debug, PartialEq, Eq, Structural)]
pub enum InterpreterErrorKind {
    Generic,
    Internal,
    JitCompile,
    Unimplemented,
    Value,
}

/// An error of the interpreter, with its message.
#[derive(Debug)]
pub enum InterpreterError {
    Generic(String),
    Internal(String),
    JitCompile(String),
    Unimplemented(String),
    Value(String),
}

pub type InterpreterResult<T> = Result<T, InterpreterError>;

impl View for InterpreterError {
    type V = (InterpreterErrorKind, Seq<char>);

    open spec fn view(&self) -> (InterpreterErrorKind, Seq<char>) {
        match self {
            InterpreterError::Generic(s) => (InterpreterErrorKind::Generic, s@),
            InterpreterError::Internal(s) => (InterpreterErrorKind::Internal, s@),
            InterpreterError::JitCompile(s) => (InterpreterErrorKind::JitCompile, s@),
            InterpreterError::Unimplemented(s) => (InterpreterErrorKind::Unimplemented, s@),
            InterpreterError::Value(s) => (InterpreterErrorKind::Value, s@),
        }
    }
}

/// The text that the display form puts before the message of each kind.
pub open spec fn display_prefix(kind: InterpreterErrorKind) -> Seq<char> {
    match kind {
        InterpreterErrorKind::Generic => "Interpreter error: "@,
        InterpreterErrorKind::Unimplemented => "Interpreter error: unimplemented: "@,
        InterpreterErrorKind::JitCompile => "Interpreter error in jit compiler: "@,
        InterpreterErrorKind::Value => "Interpreter error for value: "@,
        InterpreterErrorKind::Internal => "Interpreter internal error (interpreter bug): "@,
    }
}

impl InterpreterError {
    pub fn generic_err(message: String) -> (e: InterpreterError)
        ensures
            e@ == (InterpreterErrorKind::Generic, message@),
    {
        InterpreterError::Generic(message)
    }

    /// An error that points at a bug of the interpreter. It is reported
    /// with the `Unimplemented` kind.
    pub fn internal_err(message: String) -> (e: InterpreterError)
        ensures
            e@ == (InterpreterErrorKind::Unimplemented, message@),
    {
        InterpreterError::Unimplemented(message)
    }

    pub fn jit_err(message: String) -> (e: InterpreterError)
        ensures
            e@ == (InterpreterErrorKind::JitCompile, message@),
    {
        InterpreterError::JitCompile(message)
    }

    pub fn unimplemented(message: String) -> (e: InterpreterError)
        ensures
            e@ == (InterpreterErrorKind::Unimplemented, message@),
    {
        InterpreterError::Unimplemented(message)
    }

    pub fn value_err(message: String) -> (e: InterpreterError)
        ensures
            e@ == (InterpreterErrorKind::Value, message@),
    {
        InterpreterError::Value(message)
    }

    /// The same error, with `message` put before its text.
    pub fn prefix(self, message: String) -> (e: InterpreterError)
        ensures
            e@ == (self@.0, message@ + self@.1),
    {
        let mut m = message;
        match self {
            InterpreterError::Generic(s) => {
                push_str(&mut m, s.as_str());
                InterpreterError::Generic(m)
            },
            InterpreterError::Internal(s) => {
                push_str(&mut m, s.as_str());
                InterpreterError::Internal(m)
            },
            InterpreterError::JitCompile(s) => {
                push_str(&mut m, s.as_str());
                InterpreterError::JitCompile(m)
            },
            InterpreterError::Unimplemented(s) => {
                push_str(&mut m, s.as_str());
                InterpreterError::Unimplemented(m)
            },
            InterpreterError::Value(s) => {
                push_str(&mut m, s.as_str());
                InterpreterError::Value(m)
            },
        }
    }

    /// The message as it is shown to a user.
    pub fn to_display_string(&self) -> (s: String)
        ensures
            s@ == display_prefix(self@.0) + self@.1,
    {
        let mut out = String::new();
        let msg = match self {
            InterpreterError::Generic(s) => {
                push_str(&mut out, "Interpreter error: ");
                s
            },
            InterpreterError::Unimplemented(s) => {
                push_str(&mut out, "Interpreter error: unimplemented: ");
                s
            },
            InterpreterError::JitCompile(s) => {
                push_str(&mut out, "Interpreter error in jit compiler: ");
                s
            },
            InterpreterError::Value(s) => {
                push_str(&mut out, "Interpreter error for value: ");
                s
            },
            InterpreterError::Internal(s) => {
                push_str(&mut out, "Interpreter internal error (interpreter bug): ");
                s
            },
        };
        push_str(&mut out, msg.as_str());
        assert(out@ =~= display_prefix(self@.0) + self@.1);
        out
    }
}

impl Clone for InterpreterError {
    fn clone(&self) -> (r: Self)
        ensures
            r@ == self@,
    {
        match self {
            InterpreterError::Generic(s) => InterpreterError::Generic(s.clone()),
            InterpreterError::Internal(s) => InterpreterError::Internal(s.clone()),
            InterpreterError::JitCompile(s) => InterpreterError::JitCompile(s.clone()),
            InterpreterError::Unimplemented(s) => InterpreterError::Unimplemented(s.clone()),
            InterpreterError::Value(s) => InterpreterError::Value(s.clone()),
        }
    }
}

} // verus!
