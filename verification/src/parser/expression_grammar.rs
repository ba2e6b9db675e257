//! The grammar of arithmetic expressions: reads an expression from tokens.
//!
//! ```text
//! expr    := mul (('+' | '-') mul)*
//! mul     := unary (('*' | '/' | '%') unary)*
//! unary   := LITERAL | '(' expr ')' | IDENT
//! ```
//! Both levels of operators group to the left; '*', '/' and '%' bind
//! tighter than '+' and '-'.
use vstd::prelude::*;
use crate::error::{JangError, JangErrorView, JangResult};
use crate::interpreter::value::is_arith_op;
use crate::parser::ast::binary_expression::{
    binary_op_text, expr_pieces, literal_text, BinaryOp, ExprView, Expression,
};
use crate::parser::ast::code_formatter::concat;
use crate::parser::grammar::{grammar_error_message, ident_at, op_at, tokens_at};
use crate::parser::lexer::{
    is_ident_text, is_lexer_op_char, is_numeric_text, lemma_lex_ident, lemma_lex_numeric,
    lemma_lex_operator, lemma_lex_skips_ws, lemma_prepend_assoc, prepend, skip_ws, spec_lex,
    spec_tokens, token_views, tokenize,
};
use crate::parser::token::literal::{spec_numeric_literal, LiteralView};
use crate::parser::token::operator::{op_char, spec_can_join};
use crate::text::lemma_subrange_split;
use crate::parser::token::operator::Op;
use crate::parser::token::{JangToken, TokenView};
use crate::text::{push_decimal, push_str};

verus! {

/// The additive operator that the token at `i` spells, if any.
pub open spec fn add_op_at(ts: Seq<TokenView>, i: int) -> Option<BinaryOp> {
    if op_at(ts, i, Op::Plus) {
        Some(BinaryOp::Add)
    } else if op_at(ts, i, Op::Dash) {
        Some(BinaryOp::Sub)
    } else {
        None
    }
}

/// The multiplicative operator that the token at `i` spells, if any.
pub open spec fn mul_op_at(ts: Seq<TokenView>, i: int) -> Option<BinaryOp> {
    if op_at(ts, i, Op::Star) {
        Some(BinaryOp::Mul)
    } else if op_at(ts, i, Op::Slash) {
        Some(BinaryOp::Div)
    } else if op_at(ts, i, Op::Percent) {
        Some(BinaryOp::Mod)
    } else {
        None
    }
}

/// An expression at `i`: the expression and the position after it, or the
/// position of the first token that does not fit.
pub open spec fn parse_expr(ts: Seq<TokenView>, i: int) -> Result<(ExprView, int), int>
    decreases ts.len() - i, 4int,
{
    match parse_mul(ts, i) {
        Ok((e, j)) => if i < j <= ts.len() {
            parse_add_rest(ts, j, e)
        } else {
            Err(i)
        },
        Err(k) => Err(k),
    }
}

/// After the left operand `lhs`, the additive operations from `i` on.
pub open spec fn parse_add_rest(ts: Seq<TokenView>, i: int, lhs: ExprView) -> Result<
    (ExprView, int),
    int,
>
    decreases ts.len() - i, 3int,
{
    match add_op_at(ts, i) {
        None => Ok((lhs, i)),
        Some(op) => match parse_mul(ts, i + 1) {
            Ok((rhs, j)) => if i < j <= ts.len() {
                parse_add_rest(ts, j, ExprView::Binary(Box::new(lhs), op, Box::new(rhs)))
            } else {
                Err(i)
            },
            Err(k) => Err(k),
        },
    }
}

/// A run of multiplicative operations at `i`.
pub open spec fn parse_mul(ts: Seq<TokenView>, i: int) -> Result<(ExprView, int), int>
    decreases ts.len() - i, 2int,
{
    match parse_unary(ts, i) {
        Ok((e, j)) => if i < j <= ts.len() {
            parse_mul_rest(ts, j, e)
        } else {
            Err(i)
        },
        Err(k) => Err(k),
    }
}

/// After the left operand `lhs`, the multiplicative operations from `i` on.
pub open spec fn parse_mul_rest(ts: Seq<TokenView>, i: int, lhs: ExprView) -> Result<
    (ExprView, int),
    int,
>
    decreases ts.len() - i, 2int,
{
    match mul_op_at(ts, i) {
        None => Ok((lhs, i)),
        Some(op) => match parse_unary(ts, i + 1) {
            Ok((rhs, j)) => if i < j <= ts.len() {
                parse_mul_rest(ts, j, ExprView::Binary(Box::new(lhs), op, Box::new(rhs)))
            } else {
                Err(i)
            },
            Err(k) => Err(k),
        },
    }
}

/// An operand at `i`: a literal, an expression in parentheses, or a name.
pub open spec fn parse_unary(ts: Seq<TokenView>, i: int) -> Result<(ExprView, int), int>
    decreases ts.len() - i, 1int,
{
    if 0 <= i < ts.len() && ts[i] is Literal {
        Ok((ExprView::Literal(ts[i]->Literal_0), i + 1))
    } else if op_at(ts, i, Op::OpenParen) {
        match parse_expr(ts, i + 1) {
            Ok((e, j)) => if op_at(ts, j, Op::CloseParen) {
                Ok((e, j + 1))
            } else {
                Err(j)
            },
            Err(k) => Err(k),
        }
    } else {
        match ident_at(ts, i) {
            Some(name) => Ok((ExprView::Ident(name), i + 1)),
            None => Err(i),
        }
    }
}

/// The expression that all of `ts` spells, or the position of the first
/// token that does not fit.
pub open spec fn spec_parse_expression(ts: Seq<TokenView>) -> Result<ExprView, int> {
    match parse_expr(ts, 0) {
        Ok((e, j)) => if j == ts.len() {
            Ok(e)
        } else {
            Err(j)
        },
        Err(k) => Err(k),
    }
}

fn add_op_token_at(tokens: &Vec<JangToken>, i: usize) -> (r: Option<BinaryOp>)
    ensures
        r == add_op_at(token_views(tokens@), i as int),
        r is Some ==> i < tokens@.len() <= usize::MAX,
{
    if i < tokens.len() {
        match &tokens[i] {
            JangToken::Operator(o) => match o.op {
                Op::Plus => Some(BinaryOp::Add),
                Op::Dash => Some(BinaryOp::Sub),
                _ => None,
            },
            _ => None,
        }
    } else {
        None
    }
}

fn mul_op_token_at(tokens: &Vec<JangToken>, i: usize) -> (r: Option<BinaryOp>)
    ensures
        r == mul_op_at(token_views(tokens@), i as int),
        r is Some ==> i < tokens@.len() <= usize::MAX,
{
    if i < tokens.len() {
        match &tokens[i] {
            JangToken::Operator(o) => match o.op {
                Op::Star => Some(BinaryOp::Mul),
                Op::Slash => Some(BinaryOp::Div),
                Op::Percent => Some(BinaryOp::Mod),
                _ => None,
            },
            _ => None,
        }
    } else {
        None
    }
}

/// The outcome of reading `spec` agrees with `r`.
pub open spec fn agrees(spec: Result<(ExprView, int), int>, r: Result<(Expression, usize), usize>) -> bool {
    match spec {
        Ok((e, j)) => r matches Ok((x, jj)) && x@ == e && jj == j,
        Err(k) => r matches Err(kk) && kk == k,
    }
}

fn parse_expr_at(tokens: &Vec<JangToken>, i: usize) -> (r: Result<(Expression, usize), usize>)
    requires
        i <= tokens@.len(),
    ensures
        agrees(parse_expr(token_views(tokens@), i as int), r),
    decreases tokens@.len() - i, 4int,
{
    match parse_mul_at(tokens, i) {
        Ok((e, j)) => if i < j && j <= tokens.len() {
            parse_add_rest_at(tokens, j, e)
        } else {
            Err(i)
        },
        Err(k) => Err(k),
    }
}

fn parse_add_rest_at(tokens: &Vec<JangToken>, i: usize, lhs: Expression) -> (r: Result<
    (Expression, usize),
    usize,
>)
    requires
        i <= tokens@.len(),
    ensures
        agrees(parse_add_rest(token_views(tokens@), i as int, lhs@), r),
    decreases tokens@.len() - i, 3int,
{
    match add_op_token_at(tokens, i) {
        None => Ok((lhs, i)),
        Some(op) => match parse_mul_at(tokens, i + 1) {
            Ok((rhs, j)) => if i < j && j <= tokens.len() {
                parse_add_rest_at(tokens, j, Expression::binary(lhs, op, rhs))
            } else {
                Err(i)
            },
            Err(k) => Err(k),
        },
    }
}

fn parse_mul_at(tokens: &Vec<JangToken>, i: usize) -> (r: Result<(Expression, usize), usize>)
    requires
        i <= tokens@.len(),
    ensures
        agrees(parse_mul(token_views(tokens@), i as int), r),
    decreases tokens@.len() - i, 2int,
{
    match parse_unary_at(tokens, i) {
        Ok((e, j)) => if i < j && j <= tokens.len() {
            parse_mul_rest_at(tokens, j, e)
        } else {
            Err(i)
        },
        Err(k) => Err(k),
    }
}

fn parse_mul_rest_at(tokens: &Vec<JangToken>, i: usize, lhs: Expression) -> (r: Result<
    (Expression, usize),
    usize,
>)
    requires
        i <= tokens@.len(),
    ensures
        agrees(parse_mul_rest(token_views(tokens@), i as int, lhs@), r),
    decreases tokens@.len() - i, 2int,
{
    match mul_op_token_at(tokens, i) {
        None => Ok((lhs, i)),
        Some(op) => match parse_unary_at(tokens, i + 1) {
            Ok((rhs, j)) => if i < j && j <= tokens.len() {
                parse_mul_rest_at(tokens, j, Expression::binary(lhs, op, rhs))
            } else {
                Err(i)
            },
            Err(k) => Err(k),
        },
    }
}

fn parse_unary_at(tokens: &Vec<JangToken>, i: usize) -> (r: Result<(Expression, usize), usize>)
    requires
        i <= tokens@.len(),
    ensures
        agrees(parse_unary(token_views(tokens@), i as int), r),
    decreases tokens@.len() - i, 1int,
{
    let ghost ts = token_views(tokens@);
    if i < tokens.len() {
        if let JangToken::Literal(l) = &tokens[i] {
            return Ok((Expression::from_literal(l.clone()), i + 1));
        }
        if let JangToken::Operator(o) = &tokens[i] {
            if o.op == Op::OpenParen {
                return match parse_expr_at(tokens, i + 1) {
                    Ok((e, j)) => {
                        if j < tokens.len() && match &tokens[j] {
                            JangToken::Operator(c) => c.op == Op::CloseParen,
                            _ => false,
                        } {
                            Ok((e, j + 1))
                        } else {
                            Err(j)
                        }
                    },
                    Err(k) => Err(k),
                };
            }
        }
        if let JangToken::Ident(name) = &tokens[i] {
            return Ok((Expression::from_ident(name.clone()), i + 1));
        }
    }
    Err(i)
}

/// Reads one expression from all of `tokens`.
pub fn parse_expression(tokens: &Vec<JangToken>) -> (r: JangResult<Expression>)
    ensures
        match spec_parse_expression(token_views(tokens@)) {
            Ok(e) => r matches Ok(x) && x@ == e,
            Err(k) => r matches Err(err) && err@ == JangErrorView::Grammar(grammar_error_message(k)),
        },
{
    let k = match parse_expr_at(tokens, 0) {
        Ok((e, j)) => if j == tokens.len() {
            return Ok(e);
        } else {
            j
        },
        Err(k) => k,
    };
    let mut message = String::new();
    push_str(&mut message, "Failed to parse at token ");
    push_decimal(&mut message, k as u64);
    assert(message@ =~= grammar_error_message(k as int));
    Err(JangError::Grammar(message))
}

/// Reads one expression from source text: its tokens, then the expression
/// they spell.
pub fn parse_expression_from_text(text: &str) -> (r: JangResult<Expression>)
    ensures
        match spec_tokens(text@) {
            Ok(ts) => match spec_parse_expression(ts) {
                Ok(e) => r matches Ok(x) && x@ == e,
                Err(k) => r matches Err(err) && err@ == JangErrorView::Grammar(
                    grammar_error_message(k),
                ),
            },
            Err(e) => r matches Err(err) && err@ == e,
        },
{
    let tokens = tokenize(text)?;
    parse_expression(&tokens)
}

/// The operator token that spells an arithmetic operator.
pub open spec fn arith_op_token(op: BinaryOp) -> TokenView {
    match op {
        BinaryOp::Add => TokenView::Operator(Op::Plus),
        BinaryOp::Sub => TokenView::Operator(Op::Dash),
        BinaryOp::Mul => TokenView::Operator(Op::Star),
        BinaryOp::Div => TokenView::Operator(Op::Slash),
        _ => TokenView::Operator(Op::Percent),
    }
}

/// The operators that bind tighter: '*', '/' and '%'.
pub open spec fn is_mul_op(op: BinaryOp) -> bool {
    op == BinaryOp::Mul || op == BinaryOp::Div || op == BinaryOp::Mod
}

/// Every operator in the expression is an arithmetic one.
pub open spec fn arith_only(e: ExprView) -> bool
    decreases e,
{
    match e {
        ExprView::Binary(lhs, op, rhs) => is_arith_op(op) && arith_only(*lhs) && arith_only(*rhs),
        _ => true,
    }
}

/// The tokens of an expression as it is displayed: each binary operation
/// between parentheses.
pub open spec fn expr_tokens(e: ExprView) -> Seq<TokenView>
    decreases e,
{
    match e {
        ExprView::Literal(l) => seq![TokenView::Literal(l)],
        ExprView::Ident(name) => seq![TokenView::Ident(name)],
        ExprView::Binary(lhs, op, rhs) => seq![TokenView::Operator(Op::OpenParen)] + expr_tokens(*lhs)
            + seq![arith_op_token(op)] + expr_tokens(*rhs) + seq![TokenView::Operator(Op::CloseParen)],
    }
}

proof fn lemma_expr_tokens_nonempty(e: ExprView)
    ensures
        expr_tokens(e).len() >= 1,
    decreases e,
{
    if let ExprView::Binary(lhs, _, rhs) = e {
        lemma_expr_tokens_nonempty(*lhs);
    }
}

proof fn lemma_op_token_kinds(op: BinaryOp, ts: Seq<TokenView>, p: int)
    requires
        is_arith_op(op),
        0 <= p < ts.len(),
        ts[p] == arith_op_token(op),
    ensures
        is_mul_op(op) ==> mul_op_at(ts, p) == Some(op) && add_op_at(ts, p) is None,
        !is_mul_op(op) ==> add_op_at(ts, p) == Some(op) && mul_op_at(ts, p) is None,
{
}

proof fn lemma_parse_unary_complete(ts: Seq<TokenView>, i: int, e: ExprView)
    requires
        tokens_at(ts, i, expr_tokens(e)),
        arith_only(e),
    ensures
        parse_unary(ts, i) == Ok::<(ExprView, int), int>((e, i + expr_tokens(e).len())),
    decreases e,
{
    lemma_expr_tokens_nonempty(e);
    assert(ts.subrange(i, i + expr_tokens(e).len())[0] == ts[i]);
    match e {
        ExprView::Literal(l) => {},
        ExprView::Ident(name) => {},
        ExprView::Binary(lhs, op, rhs) => {
            let lt = expr_tokens(*lhs);
            let rt = expr_tokens(*rhs);
            let open = seq![TokenView::Operator(Op::OpenParen)];
            let close = seq![TokenView::Operator(Op::CloseParen)];
            let opt = seq![arith_op_token(op)];
            let p1 = i + 1 + lt.len();
            let p2 = p1 + 1;
            let p3 = p2 + rt.len();
            lemma_expr_tokens_nonempty(*lhs);
            lemma_expr_tokens_nonempty(*rhs);
            assert(expr_tokens(e) =~= open + (lt + (opt + (rt + close))));
            crate::parser::grammar::lemma_tokens_at_split(ts, i, open, lt + (opt + (rt + close)));
            crate::parser::grammar::lemma_tokens_at_split(ts, i + 1, lt, opt + (rt + close));
            crate::parser::grammar::lemma_tokens_at_split(ts, p1, opt, rt + close);
            crate::parser::grammar::lemma_tokens_at_split(ts, p2, rt, close);
            assert(ts[i + 0] == open[0]);
            assert(ts[p1 + 0] == opt[0]);
            assert(ts[p3 + 0] == close[0]);
            lemma_parse_unary_complete(ts, i + 1, *lhs);
            lemma_parse_unary_complete(ts, p2, *rhs);
            lemma_op_token_kinds(op, ts, p1);
            let bin = ExprView::Binary(lhs, op, rhs);
            assert(mul_op_at(ts, p3) is None && add_op_at(ts, p3) is None);
            if is_mul_op(op) {
                assert(parse_mul_rest(ts, p3, bin) == Ok::<(ExprView, int), int>((bin, p3)));
                assert(parse_mul_rest(ts, p1, *lhs) == Ok::<(ExprView, int), int>((bin, p3)));
                assert(parse_mul(ts, i + 1) == Ok::<(ExprView, int), int>((bin, p3)));
                assert(parse_add_rest(ts, p3, bin) == Ok::<(ExprView, int), int>((bin, p3)));
            } else {
                assert(parse_mul_rest(ts, p1, *lhs) == Ok::<(ExprView, int), int>((*lhs, p1)));
                assert(parse_mul(ts, i + 1) == Ok::<(ExprView, int), int>((*lhs, p1)));
                assert(parse_mul_rest(ts, p3, *rhs) == Ok::<(ExprView, int), int>((*rhs, p3)));
                assert(parse_mul(ts, p2) == Ok::<(ExprView, int), int>((*rhs, p3)));
                assert(parse_add_rest(ts, p3, bin) == Ok::<(ExprView, int), int>((bin, p3)));
                assert(parse_add_rest(ts, p1, *lhs) == Ok::<(ExprView, int), int>((bin, p3)));
            }
            assert(parse_expr(ts, i + 1) == Ok::<(ExprView, int), int>((bin, p3)));
        },
    }
}

/// Reading the tokens that an arithmetic expression is displayed as gives
/// back that expression.
pub proof fn lemma_parse_inverts_display(e: ExprView)
    requires
        arith_only(e),
    ensures
        spec_parse_expression(expr_tokens(e)) == Ok::<ExprView, int>(e),
{
    let ts = expr_tokens(e);
    let n = ts.len() as int;
    assert(ts.subrange(0, n) =~= ts);
    lemma_expr_tokens_nonempty(e);
    lemma_parse_unary_complete(ts, 0, e);
    assert(mul_op_at(ts, n) is None && add_op_at(ts, n) is None);
    assert(parse_mul_rest(ts, n, e) == Ok::<(ExprView, int), int>((e, n)));
    assert(parse_mul(ts, 0) == Ok::<(ExprView, int), int>((e, n)));
    assert(parse_add_rest(ts, n, e) == Ok::<(ExprView, int), int>((e, n)));
}

/// The expression that `a o1 b o2 c` groups to, for three operands and two
/// arithmetic operators: the second operation first when it binds tighter
/// than the first, else the first one first.
pub open spec fn grouped(a: ExprView, o1: BinaryOp, b: ExprView, o2: BinaryOp, c: ExprView) -> ExprView {
    if is_mul_op(o2) && !is_mul_op(o1) {
        ExprView::Binary(Box::new(a), o1, Box::new(ExprView::Binary(Box::new(b), o2, Box::new(c))))
    } else {
        ExprView::Binary(Box::new(ExprView::Binary(Box::new(a), o1, Box::new(b))), o2, Box::new(c))
    }
}

/// Operators group by precedence, then to the left: of two names joined
/// by two operators, '*', '/' and '%' group before '+' and '-', and
/// operators of one level group from the left.
pub proof fn lemma_precedence_and_left_grouping(
    a: Seq<char>,
    o1: BinaryOp,
    b: Seq<char>,
    o2: BinaryOp,
    c: Seq<char>,
)
    requires
        is_arith_op(o1),
        is_arith_op(o2),
    ensures
        spec_parse_expression(
            seq![
                TokenView::Ident(a),
                arith_op_token(o1),
                TokenView::Ident(b),
                arith_op_token(o2),
                TokenView::Ident(c),
            ],
        ) == Ok::<ExprView, int>(
            grouped(ExprView::Ident(a), o1, ExprView::Ident(b), o2, ExprView::Ident(c)),
        ),
{
    let ts = seq![
        TokenView::Ident(a),
        arith_op_token(o1),
        TokenView::Ident(b),
        arith_op_token(o2),
        TokenView::Ident(c),
    ];
    let ea = ExprView::Ident(a);
    let eb = ExprView::Ident(b);
    let ec = ExprView::Ident(c);
    lemma_op_token_kinds(o1, ts, 1);
    lemma_op_token_kinds(o2, ts, 3);
    assert(parse_unary(ts, 0) == Ok::<(ExprView, int), int>((ea, 1)));
    assert(parse_unary(ts, 2) == Ok::<(ExprView, int), int>((eb, 3)));
    assert(parse_unary(ts, 4) == Ok::<(ExprView, int), int>((ec, 5)));
    assert(mul_op_at(ts, 5) is None && add_op_at(ts, 5) is None);
    let ab = ExprView::Binary(Box::new(ea), o1, Box::new(eb));
    let bc = ExprView::Binary(Box::new(eb), o2, Box::new(ec));
    let r = grouped(ea, o1, eb, o2, ec);
    if is_mul_op(o1) {
        let ab_c = ExprView::Binary(Box::new(ab), o2, Box::new(ec));
        if is_mul_op(o2) {
            assert(parse_mul_rest(ts, 5, ab_c) == Ok::<(ExprView, int), int>((ab_c, 5)));
            assert(parse_mul_rest(ts, 3, ab) == Ok::<(ExprView, int), int>((ab_c, 5)));
            assert(parse_mul_rest(ts, 1, ea) == Ok::<(ExprView, int), int>((ab_c, 5)));
            assert(parse_mul(ts, 0) == Ok::<(ExprView, int), int>((ab_c, 5)));
            assert(parse_add_rest(ts, 5, ab_c) == Ok::<(ExprView, int), int>((ab_c, 5)));
        } else {
            assert(parse_mul_rest(ts, 3, ab) == Ok::<(ExprView, int), int>((ab, 3)));
            assert(parse_mul_rest(ts, 1, ea) == Ok::<(ExprView, int), int>((ab, 3)));
            assert(parse_mul(ts, 0) == Ok::<(ExprView, int), int>((ab, 3)));
            assert(parse_mul_rest(ts, 5, ec) == Ok::<(ExprView, int), int>((ec, 5)));
            assert(parse_mul(ts, 4) == Ok::<(ExprView, int), int>((ec, 5)));
            assert(parse_add_rest(ts, 5, ab_c) == Ok::<(ExprView, int), int>((ab_c, 5)));
            assert(parse_add_rest(ts, 3, ab) == Ok::<(ExprView, int), int>((ab_c, 5)));
        }
        assert(r == ab_c);
    } else {
        assert(parse_mul_rest(ts, 1, ea) == Ok::<(ExprView, int), int>((ea, 1)));
        assert(parse_mul(ts, 0) == Ok::<(ExprView, int), int>((ea, 1)));
        if is_mul_op(o2) {
            let a_bc = ExprView::Binary(Box::new(ea), o1, Box::new(bc));
            assert(parse_mul_rest(ts, 5, bc) == Ok::<(ExprView, int), int>((bc, 5)));
            assert(parse_mul_rest(ts, 3, eb) == Ok::<(ExprView, int), int>((bc, 5)));
            assert(parse_mul(ts, 2) == Ok::<(ExprView, int), int>((bc, 5)));
            assert(parse_add_rest(ts, 5, a_bc) == Ok::<(ExprView, int), int>((a_bc, 5)));
            assert(parse_add_rest(ts, 1, ea) == Ok::<(ExprView, int), int>((a_bc, 5)));
            assert(r == a_bc);
        } else {
            let ab_c = ExprView::Binary(Box::new(ab), o2, Box::new(ec));
            assert(parse_mul_rest(ts, 3, eb) == Ok::<(ExprView, int), int>((eb, 3)));
            assert(parse_mul(ts, 2) == Ok::<(ExprView, int), int>((eb, 3)));
            assert(parse_mul_rest(ts, 5, ec) == Ok::<(ExprView, int), int>((ec, 5)));
            assert(parse_mul(ts, 4) == Ok::<(ExprView, int), int>((ec, 5)));
            assert(parse_add_rest(ts, 5, ab_c) == Ok::<(ExprView, int), int>((ab_c, 5)));
            assert(parse_add_rest(ts, 3, ab) == Ok::<(ExprView, int), int>((ab_c, 5)));
            assert(parse_add_rest(ts, 1, ea) == Ok::<(ExprView, int), int>((ab_c, 5)));
            assert(r == ab_c);
        }
    }
}

/// The character that spells an arithmetic operator.
pub open spec fn arith_op_char(op: BinaryOp) -> char {
    match op {
        BinaryOp::Add => '+',
        BinaryOp::Sub => '-',
        BinaryOp::Mul => '*',
        BinaryOp::Div => '/',
        _ => '%',
    }
}

/// The text an arithmetic expression is displayed as: each binary
/// operation between parentheses, its operator between single spaces.
pub open spec fn display_text(e: ExprView) -> Seq<char>
    decreases e,
{
    match e {
        ExprView::Literal(l) => literal_text(l),
        ExprView::Ident(name) => name,
        ExprView::Binary(lhs, op, rhs) => seq!['('] + display_text(*lhs) + seq![
            ' ',
            arith_op_char(op),
            ' ',
        ] + display_text(*rhs) + seq![')'],
    }
}

proof fn lemma_concat_append(a: Seq<Seq<char>>, b: Seq<Seq<char>>)
    ensures
        concat(a + b) == concat(a) + concat(b),
    decreases b.len(),
{
    if b.len() == 0 {
        assert(a + b =~= a);
        assert(concat(a) + concat(b) =~= concat(a));
    } else {
        assert((a + b).drop_last() =~= a + b.drop_last());
        assert((a + b).last() == b.last());
        lemma_concat_append(a, b.drop_last());
        assert(concat(a) + concat(b.drop_last()) + b.last() =~= concat(a) + concat(b));
    }
}

proof fn lemma_concat_single(p: Seq<char>)
    ensures
        concat(seq![p]) == p,
{
    assert(seq![p].drop_last() =~= Seq::<Seq<char>>::empty());
    assert(concat(Seq::<Seq<char>>::empty()) == Seq::<char>::empty());
    assert(seq![p].last() == p);
    assert(Seq::<char>::empty() + p =~= p);
}

/// The pieces that display an arithmetic expression join to its display
/// text.
pub proof fn lemma_display_text(e: ExprView)
    requires
        arith_only(e),
    ensures
        concat(expr_pieces(e)) == display_text(e),
    decreases e,
{
    match e {
        ExprView::Literal(l) => lemma_concat_single(literal_text(l)),
        ExprView::Ident(name) => lemma_concat_single(name),
        ExprView::Binary(lhs, op, rhs) => {
            reveal_strlit("(");
            reveal_strlit(")");
            reveal_strlit(" ");
            reveal_strlit("+");
            reveal_strlit("-");
            reveal_strlit("*");
            reveal_strlit("/");
            reveal_strlit("%");
            lemma_display_text(*lhs);
            lemma_display_text(*rhs);
            let a = seq!["("@];
            let b = expr_pieces(*lhs);
            let c = seq![" "@, binary_op_text(op), " "@];
            let d = expr_pieces(*rhs);
            let f = seq![")"@];
            assert(expr_pieces(e) == a + b + c + d + f);
            lemma_concat_append(a + b + c + d, f);
            lemma_concat_append(a + b + c, d);
            lemma_concat_append(a + b, c);
            lemma_concat_append(a, b);
            lemma_concat_single("("@);
            lemma_concat_single(")"@);
            assert(c == seq![" "@, binary_op_text(op)] + seq![" "@]);
            lemma_concat_append(seq![" "@, binary_op_text(op)], seq![" "@]);
            assert(seq![" "@, binary_op_text(op)] == seq![" "@] + seq![binary_op_text(op)]);
            lemma_concat_append(seq![" "@], seq![binary_op_text(op)]);
            lemma_concat_single(" "@);
            lemma_concat_single(binary_op_text(op));
            assert(binary_op_text(op) == seq![arith_op_char(op)]);
            assert(concat(c) =~= seq![' ', arith_op_char(op), ' ']);
            assert(concat(expr_pieces(e)) =~= display_text(e));
        },
    }
}

/// A literal that the lexer reads back as one literal token: its text is a
/// numeric text, and the literal is of the kind that its text is read as.
pub open spec fn is_literal_text(l: LiteralView) -> bool {
    &&& is_numeric_text(literal_text(l))
    &&& l == LiteralView::Numeric(spec_numeric_literal(literal_text(l)))
}

/// Position `k` of `s` ends a token: the end of the text, a space or a
/// closing parenthesis.
pub open spec fn ends_token(s: Seq<char>, k: int) -> bool {
    k == s.len() || (0 <= k < s.len() && (s[k] == ' ' || s[k] == ')'))
}

/// Every literal and name in the expression reads back as one token.
pub open spec fn atoms_readable(e: ExprView) -> bool
    decreases e,
{
    match e {
        ExprView::Literal(l) => is_literal_text(l),
        ExprView::Ident(name) => is_ident_text(name),
        ExprView::Binary(lhs, _, rhs) => atoms_readable(*lhs) && atoms_readable(*rhs),
    }
}

proof fn lemma_arith_op_token_char(op: BinaryOp)
    requires
        is_arith_op(op),
    ensures
        arith_op_token(op) matches TokenView::Operator(o) && op_char(o) == arith_op_char(op)
            && is_lexer_op_char(arith_op_char(op)) && arith_op_char(op) != '.'
            && !spec_can_join(o, ' '),
{
}

proof fn lemma_lex_display(s: Seq<char>, i: int, e: ExprView)
    requires
        arith_only(e),
        atoms_readable(e),
        0 <= i,
        i + display_text(e).len() <= s.len(),
        s.subrange(i, i + display_text(e).len()) == display_text(e),
        ends_token(s, i + display_text(e).len()),
    ensures
        spec_lex(s, i, false) == prepend(expr_tokens(e), spec_lex(s, i + display_text(e).len(), false)),
    decreases e,
{
    match e {
        ExprView::Literal(l) => lemma_lex_numeric(s, i, literal_text(l)),
        ExprView::Ident(name) => lemma_lex_ident(s, i, name),
        ExprView::Binary(lhs, op, rhs) => {
            let lt = display_text(*lhs);
            let rt = display_text(*rhs);
            let mid = seq![' ', arith_op_char(op), ' '];
            let p = i + 1 + lt.len();
            let q = p + 3 + rt.len();
            assert(display_text(e) =~= seq!['('] + (lt + (mid + (rt + seq![')']))));
            lemma_subrange_split(s, i, seq!['('], lt + (mid + (rt + seq![')'])));
            lemma_subrange_split(s, i + 1, lt, mid + (rt + seq![')']));
            lemma_subrange_split(s, p, mid, rt + seq![')']);
            lemma_subrange_split(s, p + 3, rt, seq![')']);
            assert(s[i] == '(') by {
                assert(s[i + 0] == seq!['('][0]);
            }
            assert(s[p] == ' ' && s[p + 1] == arith_op_char(op) && s[p + 2] == ' ') by {
                assert(s[p + 0] == mid[0]);
                assert(s[p + 1] == mid[1]);
                assert(s[p + 2] == mid[2]);
            }
            assert(s[q] == ')') by {
                assert(s.subrange(q, q + 1)[0] == seq![')'][0]);
            }
            // '('
            lemma_lex_operator(s, i, Op::OpenParen);
            // the left operand, ended by a space
            lemma_lex_display(s, i + 1, *lhs);
            // ' ' op ' '
            lemma_lex_skips_ws(s, p, p + 1);
            lemma_arith_op_token_char(op);
            let o = arith_op_token(op)->Operator_0;
            lemma_lex_operator(s, p + 1, o);
            lemma_lex_skips_ws(s, p + 2, p + 3);
            // the right operand, ended by ')'
            lemma_lex_display(s, p + 3, *rhs);
            // ')'
            lemma_lex_operator(s, q, Op::CloseParen);
            let open_t = seq![TokenView::Operator(Op::OpenParen)];
            let op_t = seq![arith_op_token(op)];
            let close_t = seq![TokenView::Operator(Op::CloseParen)];
            let after = spec_lex(s, q + 1, false);
            lemma_prepend_assoc(expr_tokens(*rhs), close_t, after);
            lemma_prepend_assoc(op_t, expr_tokens(*rhs) + close_t, after);
            lemma_prepend_assoc(expr_tokens(*lhs), op_t + (expr_tokens(*rhs) + close_t), after);
            lemma_prepend_assoc(
                open_t,
                expr_tokens(*lhs) + (op_t + (expr_tokens(*rhs) + close_t)),
                after,
            );
            assert(open_t + (expr_tokens(*lhs) + (op_t + (expr_tokens(*rhs) + close_t)))
                =~= expr_tokens(e));
        },
    }
}

/// Reading back the text an expression is displayed as gives the
/// expression: for an expression of arithmetic operators whose names and
/// literals each read back as one token, the text lexes to its tokens and
/// those parse to the expression.
pub proof fn lemma_display_reads_back(e: ExprView)
    requires
        arith_only(e),
        atoms_readable(e),
    ensures
        spec_tokens(concat(expr_pieces(e))) == Ok::<Seq<TokenView>, JangErrorView>(expr_tokens(e)),
        spec_parse_expression(expr_tokens(e)) == Ok::<ExprView, int>(e),
{
    lemma_display_text(e);
    let s = display_text(e);
    assert(s.subrange(0, s.len() as int) =~= s);
    lemma_lex_display(s, 0, e);
    assert(skip_ws(s, s.len() as int) == s.len());
    assert(spec_lex(s, s.len() as int, false) == Ok::<Seq<TokenView>, JangErrorView>(Seq::empty()));
    assert(expr_tokens(e) + Seq::<TokenView>::empty() =~= expr_tokens(e));
    lemma_parse_inverts_display(e);
}

} // verus!
