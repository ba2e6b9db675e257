//! Operator symbols of the Jang language.
use vstd::prelude::*;

verus! {

/// A single-character operator symbol.
#[derive(Clone, Copy, Debug, PartialEq, Eq, Structural)]
pub enum Op {
    /// '='
    Equal,
    /// ','
    Comma,
    /// '('
    OpenParen,
    /// ')'
    CloseParen,
    /// '{'
    OpenBracket,
    /// '}'
    CloseBracket,
    /// '-'
    Dash,
    /// '<'
    LessThan,
    /// '>'
    GreaterThan,
    /// ':'
    Colon,
    /// '.'
    Dot,
    /// '+'
    Plus,
    /// '*'
    Star,
    /// '/'
    Slash,
    /// '%'
    Percent,
    /// '|'
    Bar,
    /// '!'
    Bang,
}

/// The character that spells each operator.
pub open spec fn op_char(op: Op) -> char {
    match op {
        Op::Equal => '=',
        Op::Comma => ',',
        Op::OpenParen => '(',
        Op::CloseParen => ')',
        Op::OpenBracket => '{',
        Op::CloseBracket => '}',
        Op::Dash => '-',
        Op::LessThan => '<',
        Op::GreaterThan => '>',
        Op::Colon => ':',
        Op::Dot => '.',
        Op::Plus => '+',
        Op::Star => '*',
        Op::Slash => '/',
        Op::Percent => '%',
        Op::Bar => '|',
        Op::Bang => '!',
    }
}

/// True when `ch` spells some operator.
pub open spec fn is_op_char(ch: char) -> bool {
    exists|op: Op| op_char(op) == ch
}

/// The pairs of characters that lex as one joint operator:
/// "->", ")(", "!=", "<=", ">=", "==".
pub open spec fn spec_can_join(op: Op, other: char) -> bool {
    match op {
        Op::Dash => other == '>',
        Op::CloseParen => other == '(',
        Op::Bang => other == '=',
        Op::LessThan => other == '=',
        Op::GreaterThan => other == '=',
        Op::Equal => other == '=',
        _ => false,
    }
}

impl Op {
    /// The operator spelled by `ch`, if any.
    pub fn from_char(ch: char) -> (r: Option<Op>)
        ensures
            match r {
                Some(op) => op_char(op) == ch,
                None => !is_op_char(ch),
            },
    {
        let r = match ch {
            '=' => Some(Op::Equal),
            ',' => Some(Op::Comma),
            '(' => Some(Op::OpenParen),
            ')' => Some(Op::CloseParen),
            '{' => Some(Op::OpenBracket),
            '}' => Some(Op::CloseBracket),
            '-' => Some(Op::Dash),
            '<' => Some(Op::LessThan),
            '>' => Some(Op::GreaterThan),
            ':' => Some(Op::Colon),
            '.' => Some(Op::Dot),
            '+' => Some(Op::Plus),
            '*' => Some(Op::Star),
            '/' => Some(Op::Slash),
            '%' => Some(Op::Percent),
            '|' => Some(Op::Bar),
            '!' => Some(Op::Bang),
            _ => None,
        };
        proof {
            if r is None {
                assert forall|op: Op| op_char(op) != ch by {
                    match op {
                        _ => {},
                    }
                }
            }
        }
        r
    }

    /// The character that spells this operator.
    pub fn to_char(self) -> (c: char)
        ensures
            c == op_char(self),
    {
        match self {
            Op::Equal => '=',
            Op::Comma => ',',
            Op::OpenParen => '(',
            Op::CloseParen => ')',
            Op::OpenBracket => '{',
            Op::CloseBracket => '}',
            Op::Dash => '-',
            Op::LessThan => '<',
            Op::GreaterThan => '>',
            Op::Colon => ':',
            Op::Dot => '.',
            Op::Plus => '+',
            Op::Star => '*',
            Op::Slash => '/',
            Op::Percent => '%',
            Op::Bar => '|',
            Op::Bang => '!',
        }
    }

    /// Returns true if this operator can join with `other_op`. Joint operators
    /// are treated differently from pairs of separated ones (e.g. "==" vs. "= =").
    pub fn can_join(&self, other_op: char) -> (b: bool)
        ensures
            b == spec_can_join(*self, other_op),
    {
        match self {
            Op::Dash => other_op == '>',
            Op::CloseParen => other_op == '(',
            Op::Bang => other_op == '=',
            Op::LessThan => other_op == '=',
            Op::GreaterThan => other_op == '=',
            Op::Equal => other_op == '=',
            Op::Comma | Op::OpenParen | Op::OpenBracket | Op::CloseBracket | Op::Colon | Op::Dot
            | Op::Plus | Op::Star | Op::Slash | Op::Percent | Op::Bar => false,
        }
    }

    /// The operator as source text: its single character.
    pub fn to_text(&self) -> (s: String)
        ensures
            s@ == seq![op_char(*self)],
    {
        let mut s = String::new();
        crate::text::push_char(&mut s, self.to_char());
        s
    }
}

/// Distinct operators are spelled by distinct characters.
pub proof fn lemma_op_char_injective(a: Op, b: Op)
    requires
        op_char(a) == op_char(b),
    ensures
        a == b,
{
    match a {
        _ => match b {
            _ => {},
        },
    }
}

/// Reading back the character of an operator gives the same operator.
pub proof fn lemma_from_char_of_op_char(op: Op)
    ensures
        is_op_char(op_char(op)),
        forall|other: Op| op_char(other) == op_char(op) ==> other == op,
{
    assert forall|other: Op| op_char(other) == op_char(op) implies other == op by {
        lemma_op_char_injective(other, op);
    }
}

/// An operator only ever joins with a character that is itself an operator.
pub proof fn lemma_can_join_only_operators(op: Op, other: char)
    requires
        spec_can_join(op, other),
    ensures
        is_op_char(other),
{
    match op {
        Op::Dash => assert(op_char(Op::GreaterThan) == other),
        Op::CloseParen => assert(op_char(Op::OpenParen) == other),
        Op::Bang => assert(op_char(Op::Equal) == other),
        Op::LessThan => assert(op_char(Op::Equal) == other),
        Op::GreaterThan => assert(op_char(Op::Equal) == other),
        Op::Equal => assert(op_char(Op::Equal) == other),
        _ => {},
    }
}

/// An operator token.
#[derive(Clone, Copy, Debug, PartialEq, Eq, Structural)]
pub struct Operator {
    pub op: Op,
}

impl Operator {
    pub fn new(op: Op) -> (r: Operator)
        ensures
            r.op == op,
    {
        Operator { op }
    }

    pub fn op(&self) -> (r: Op)
        ensures
            r == self.op,
    {
        self.op
    }
}

} // verus!
