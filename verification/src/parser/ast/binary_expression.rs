//! Binary operators, binary expressions and the expressions they combine.
use vstd::prelude::*;
use crate::parser::ast::code_formatter::{concat, concat_pieces, push_owned_piece, push_piece, texts};
use crate::parser::token::ident::Ident;
use crate::parser::token::literal::{Literal, LiteralView, NumericLiteralView};
use crate::text::push_str;

verus! {

/// A binary operator of the expression language.
#[derive(Clone, Copy, Debug, PartialEq, Eq, Structural)]
pub enum BinaryOp {
    Add,
    Sub,
    Mul,
    Div,
    Mod,
    Equal,
    GreaterThan,
    GreaterThanEqual,
    LessThan,
    LessThanEqual,
    NotEqual,
}

/// How each operator is written in source text.
pub open spec fn binary_op_text(op: BinaryOp) -> Seq<char> {
    match op {
        BinaryOp::Add => "+"@,
        BinaryOp::Sub => "-"@,
        BinaryOp::Mul => "*"@,
        BinaryOp::Div => "/"@,
        BinaryOp::Mod => "%"@,
        BinaryOp::Equal => "=="@,
        BinaryOp::GreaterThan => ">"@,
        BinaryOp::GreaterThanEqual => ">="@,
        BinaryOp::LessThan => "<"@,
        BinaryOp::LessThanEqual => "<="@,
        BinaryOp::NotEqual => "!="@,
    }
}

/// How `{:?}` shows each operator: the name of its variant.
pub open spec fn binary_op_debug(op: BinaryOp) -> Seq<char> {
    match op {
        BinaryOp::Add => "Add"@,
        BinaryOp::Sub => "Sub"@,
        BinaryOp::Mul => "Mul"@,
        BinaryOp::Div => "Div"@,
        BinaryOp::Mod => "Mod"@,
        BinaryOp::Equal => "Equal"@,
        BinaryOp::GreaterThan => "GreaterThan"@,
        BinaryOp::GreaterThanEqual => "GreaterThanEqual"@,
        BinaryOp::LessThan => "LessThan"@,
        BinaryOp::LessThanEqual => "LessThanEqual"@,
        BinaryOp::NotEqual => "NotEqual"@,
    }
}

impl BinaryOp {
    /// Appends how `{:?}` shows the operator to `out`.
    pub fn push_debug(&self, out: &mut String)
        ensures
            final(out)@ == old(out)@ + binary_op_debug(*self),
    {
        match self {
            BinaryOp::Add => push_str(out, "Add"),
            BinaryOp::Sub => push_str(out, "Sub"),
            BinaryOp::Mul => push_str(out, "Mul"),
            BinaryOp::Div => push_str(out, "Div"),
            BinaryOp::Mod => push_str(out, "Mod"),
            BinaryOp::Equal => push_str(out, "Equal"),
            BinaryOp::GreaterThan => push_str(out, "GreaterThan"),
            BinaryOp::GreaterThanEqual => push_str(out, "GreaterThanEqual"),
            BinaryOp::LessThan => push_str(out, "LessThan"),
            BinaryOp::LessThanEqual => push_str(out, "LessThanEqual"),
            BinaryOp::NotEqual => push_str(out, "NotEqual"),
        }
    }

    /// Appends the operator's source text to `out`.
    pub fn write_text(&self, out: &mut String)
        ensures
            final(out)@ == old(out)@ + binary_op_text(*self),
    {
        match self {
            BinaryOp::Add => push_str(out, "+"),
            BinaryOp::Sub => push_str(out, "-"),
            BinaryOp::Mul => push_str(out, "*"),
            BinaryOp::Div => push_str(out, "/"),
            BinaryOp::Mod => push_str(out, "%"),
            BinaryOp::Equal => push_str(out, "=="),
            BinaryOp::GreaterThan => push_str(out, ">"),
            BinaryOp::GreaterThanEqual => push_str(out, ">="),
            BinaryOp::LessThan => push_str(out, "<"),
            BinaryOp::LessThanEqual => push_str(out, "<="),
            BinaryOp::NotEqual => push_str(out, "!="),
        }
    }

    /// The operator's source text.
    pub fn to_text(&self) -> (s: String)
        ensures
            s@ == binary_op_text(*self),
    {
        let mut s = String::new();
        self.write_text(&mut s);
        assert(s@ =~= binary_op_text(*self));
        s
    }
}

/// The model of an expression.
pub enum ExprView {
    Literal(LiteralView),
    Ident(Seq<char>),
    Binary(Box<ExprView>, BinaryOp, Box<ExprView>),
}

/// The model of a binary expression: left operand, operator, right operand.
pub struct BinaryView {
    pub lhs: ExprView,
    pub op: BinaryOp,
    pub rhs: ExprView,
}

/// An expression: a literal, a name, or a binary operation on two
/// expressions.
#[derive(Debug)]
pub enum Expression {
    Literal(Literal),
    Ident(Ident),
    BinaryExpression(BinaryExpression),
}

/// A binary operation on two expressions.
#[derive(Debug)]
pub struct BinaryExpression {
    lhs: Box<Expression>,
    rhs: Box<Expression>,
    op: BinaryOp,
}

/// The model of an expression, built up from its parts.
pub closed spec fn expr_view(e: Expression) -> ExprView
    decreases e,
{
    match e {
        Expression::Literal(l) => ExprView::Literal(l@),
        Expression::Ident(i) => ExprView::Ident(i@),
        Expression::BinaryExpression(b) => ExprView::Binary(
            Box::new(expr_view(*b.lhs)),
            b.op,
            Box::new(expr_view(*b.rhs)),
        ),
    }
}

impl View for Expression {
    type V = ExprView;

    closed spec fn view(&self) -> ExprView {
        expr_view(*self)
    }
}

impl View for BinaryExpression {
    type V = BinaryView;

    closed spec fn view(&self) -> BinaryView {
        BinaryView { lhs: expr_view(*self.lhs), op: self.op, rhs: expr_view(*self.rhs) }
    }
}

/// The model of an expression is built from the models of its parts.
pub proof fn lemma_expression_view(e: Expression)
    ensures
        match e {
            Expression::Literal(l) => e@ == ExprView::Literal(l@),
            Expression::Ident(i) => e@ == ExprView::Ident(i@),
            Expression::BinaryExpression(b) => e@ == ExprView::Binary(
                Box::new(b@.lhs),
                b@.op,
                Box::new(b@.rhs),
            ),
        },
{
}

/// The text of a literal, as written.
pub open spec fn literal_text(l: LiteralView) -> Seq<char> {
    match l {
        LiteralView::Numeric(NumericLiteralView::Integral(t)) => t,
        LiteralView::Numeric(NumericLiteralView::Float(t)) => t,
    }
}

/// The pieces that display an expression; a binary operation is wrapped
/// in parentheses.
pub open spec fn expr_pieces(e: ExprView) -> Seq<Seq<char>>
    decreases e,
{
    match e {
        ExprView::Literal(l) => seq![literal_text(l)],
        ExprView::Ident(name) => seq![name],
        ExprView::Binary(lhs, op, rhs) => seq!["("@] + expr_pieces(*lhs) + seq![
            " "@,
            binary_op_text(op),
            " "@,
        ] + expr_pieces(*rhs) + seq![")"@],
    }
}

/// The pieces that display a binary expression: the operands with the
/// operator between them, separated by spaces.
pub open spec fn binary_pieces(b: BinaryView) -> Seq<Seq<char>> {
    expr_pieces(b.lhs) + seq![" "@, binary_op_text(b.op), " "@] + expr_pieces(b.rhs)
}

impl Expression {
    /// The expression that is the literal `l`.
    pub fn from_literal(l: Literal) -> (e: Expression)
        ensures
            e@ == ExprView::Literal(l@),
    {
        Expression::Literal(l)
    }

    /// The expression that is the name `name`.
    pub fn from_ident(name: Ident) -> (e: Expression)
        ensures
            e@ == ExprView::Ident(name@),
    {
        Expression::Ident(name)
    }

    /// The binary operation `op` on `lhs` and `rhs`.
    pub fn binary(lhs: Expression, op: BinaryOp, rhs: Expression) -> (e: Expression)
        ensures
            e@ == ExprView::Binary(Box::new(lhs@), op, Box::new(rhs@)),
    {
        Expression::BinaryExpression(BinaryExpression::new(lhs, rhs, op))
    }

    /// Appends the pieces that display the expression.
    pub fn push_pieces(&self, out: &mut Vec<String>)
        ensures
            texts(final(out)@) == texts(old(out)@) + expr_pieces(self@),
        decreases self,
    {
        match self {
            Expression::Literal(Literal::Numeric(n)) => {
                push_piece(out, n.text());
            },
            Expression::Ident(name) => {
                push_owned_piece(out, name.to_text());
            },
            Expression::BinaryExpression(b) => {
                push_piece(out, "(");
                b.lhs.push_pieces(out);
                push_piece(out, " ");
                push_owned_piece(out, b.op.to_text());
                push_piece(out, " ");
                b.rhs.push_pieces(out);
                push_piece(out, ")");
            },
        }
        assert(texts(out@) =~= texts(old(out)@) + expr_pieces(self@));
    }

    /// The expression as it is displayed.
    pub fn to_display_string(&self) -> (s: String)
        ensures
            s@ == concat(expr_pieces(self@)),
    {
        let mut v: Vec<String> = Vec::new();
        self.push_pieces(&mut v);
        assert(texts(v@) =~= expr_pieces(self@));
        concat_pieces(&v)
    }
}

/// A copy of `e`.
fn clone_expression(e: &Expression) -> (r: Expression)
    ensures
        r@ == e@,
    decreases e,
{
    match e {
        Expression::Literal(l) => Expression::Literal(l.clone()),
        Expression::Ident(i) => Expression::Ident(i.clone()),
        Expression::BinaryExpression(b) => Expression::BinaryExpression(
            BinaryExpression {
                lhs: Box::new(clone_expression(&b.lhs)),
                rhs: Box::new(clone_expression(&b.rhs)),
                op: b.op,
            },
        ),
    }
}

impl Clone for Expression {
    fn clone(&self) -> (r: Self)
        ensures
            r@ == self@,
    {
        clone_expression(self)
    }
}

impl Clone for BinaryExpression {
    fn clone(&self) -> (r: Self)
        ensures
            r@ == self@,
    {
        BinaryExpression {
            lhs: Box::new(clone_expression(&self.lhs)),
            rhs: Box::new(clone_expression(&self.rhs)),
            op: self.op,
        }
    }
}

impl BinaryExpression {
    pub fn new(lhs: Expression, rhs: Expression, op: BinaryOp) -> (b: BinaryExpression)
        ensures
            b@ == (BinaryView { lhs: lhs@, op, rhs: rhs@ }),
    {
        BinaryExpression { lhs: Box::new(lhs), rhs: Box::new(rhs), op }
    }

    /// The left operand.
    pub fn lhs(&self) -> (e: &Expression)
        ensures
            e@ == self@.lhs,
    {
        &self.lhs
    }

    /// The right operand.
    pub fn rhs(&self) -> (e: &Expression)
        ensures
            e@ == self@.rhs,
    {
        &self.rhs
    }

    /// The operator.
    pub fn op(&self) -> (op: BinaryOp)
        ensures
            op == self@.op,
    {
        self.op
    }

    /// Appends the pieces that display the binary expression.
    pub fn push_pieces(&self, out: &mut Vec<String>)
        ensures
            texts(final(out)@) == texts(old(out)@) + binary_pieces(self@),
    {
        self.lhs.push_pieces(out);
        push_piece(out, " ");
        push_owned_piece(out, self.op.to_text());
        push_piece(out, " ");
        self.rhs.push_pieces(out);
        assert(texts(out@) =~= texts(old(out)@) + binary_pieces(self@));
    }

    /// The binary expression as it is displayed.
    pub fn to_display_string(&self) -> (s: String)
        ensures
            s@ == concat(binary_pieces(self@)),
    {
        let mut v: Vec<String> = Vec::new();
        self.push_pieces(&mut v);
        assert(texts(v@) =~= binary_pieces(self@));
        concat_pieces(&v)
    }
}

} // verus!
