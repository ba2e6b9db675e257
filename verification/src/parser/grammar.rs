//! The grammar of type declarations: reads declarations from tokens.
//!
//! ```text
//! type_decl  := 'type' IDENT '=' (structured | variant+)
//! structured := '{' (IDENT ':' IDENT)* '}'
//! variant    := '|' IDENT (structured | IDENT)?
//! ```
use vstd::prelude::*;
use crate::error::{JangError, JangErrorView, JangResult};
use crate::parser::ast::enum_type_decl::{
    variant_views, EnumTypeDeclBuilder, EnumVariant, EnumVariantType, VariantTypeView,
    VariantView,
};
use crate::parser::ast::structured_type_decl::{
    field_views, FieldView, StructuredTypeDecl, StructuredTypeDeclBuilder, StructuredTypeField,
};
use crate::parser::ast::type_decl::{DeclView, TypeDecl, TypeDeclVariant, TypeDeclView};
use crate::parser::ast::type_expr::TypeExpression;
use crate::parser::lexer::{spec_tokens, token_views, tokenize};
use crate::parser::token::ident::Ident;
use crate::parser::token::keyword::Keyword;
use crate::parser::token::operator::Op;
use crate::parser::token::{JangToken, TokenView};
use crate::text::{push_decimal, push_str};

verus! {

/// The token at `i` is the operator `op`.
pub open spec fn op_at(ts: Seq<TokenView>, i: int, op: Op) -> bool {
    0 <= i < ts.len() && ts[i] == TokenView::Operator(op)
}

/// The name held by the identifier token at `i`, if the token there is one.
pub open spec fn ident_at(ts: Seq<TokenView>, i: int) -> Option<Seq<char>> {
    if 0 <= i < ts.len() {
        match ts[i] {
            TokenView::Ident(name) => Some(name),
            _ => None,
        }
    } else {
        None
    }
}

/// A field `name ':' type` at `i`: the field and the position after it, or
/// the position of the first token that does not fit.
pub open spec fn parse_field(ts: Seq<TokenView>, i: int) -> Result<(FieldView, int), int> {
    match ident_at(ts, i) {
        None => Err(i),
        Some(name) => if !op_at(ts, i + 1, Op::Colon) {
            Err(i + 1)
        } else {
            match ident_at(ts, i + 2) {
                None => Err(i + 2),
                Some(ty) => Ok((FieldView { name, ty }, i + 3)),
            }
        },
    }
}

/// The fields from `i` on, after the fields `acc` already read, up to and
/// with the closing brace.
pub open spec fn parse_fields(ts: Seq<TokenView>, i: int, acc: Seq<FieldView>) -> Result<
    (Seq<FieldView>, int),
    int,
>
    decreases ts.len() - i,
{
    if op_at(ts, i, Op::CloseBracket) {
        Ok((acc, i + 1))
    } else {
        match parse_field(ts, i) {
            Err(k) => Err(k),
            Ok((f, j)) => parse_fields(ts, j, acc.push(f)),
        }
    }
}

/// A structured type at `i`: its fields between braces.
pub open spec fn parse_structured(ts: Seq<TokenView>, i: int) -> Result<(Seq<FieldView>, int), int> {
    if op_at(ts, i, Op::OpenBracket) {
        parse_fields(ts, i + 1, Seq::empty())
    } else {
        Err(i)
    }
}

/// The payload of a variant at `i`: a structured type, a type name, or
/// nothing.
pub open spec fn parse_variant_type(ts: Seq<TokenView>, i: int) -> Result<
    (VariantTypeView, int),
    int,
> {
    if op_at(ts, i, Op::OpenBracket) {
        match parse_structured(ts, i) {
            Ok((fields, j)) => Ok((VariantTypeView::Structured(fields), j)),
            Err(k) => Err(k),
        }
    } else {
        match ident_at(ts, i) {
            Some(name) => Ok((VariantTypeView::TypeRef(name), i + 1)),
            None => Ok((VariantTypeView::Empty, i)),
        }
    }
}

/// A variant `'|' name payload` at `i`.
pub open spec fn parse_variant(ts: Seq<TokenView>, i: int) -> Result<(VariantView, int), int> {
    if !op_at(ts, i, Op::Bar) {
        Err(i)
    } else {
        match ident_at(ts, i + 1) {
            None => Err(i + 1),
            Some(name) => match parse_variant_type(ts, i + 2) {
                Ok((ty, j)) => Ok((VariantView { name, ty }, j)),
                Err(k) => Err(k),
            },
        }
    }
}

proof fn lemma_parse_fields_bounds(ts: Seq<TokenView>, i: int, acc: Seq<FieldView>)
    requires
        0 <= i,
    ensures
        parse_fields(ts, i, acc) matches Ok((_, j)) ==> i < j <= ts.len(),
    decreases ts.len() - i,
{
    if !op_at(ts, i, Op::CloseBracket) {
        if let Ok((f, j)) = parse_field(ts, i) {
            lemma_parse_fields_bounds(ts, j, acc.push(f));
        }
    }
}

proof fn lemma_parse_variant_bounds(ts: Seq<TokenView>, i: int)
    requires
        0 <= i,
    ensures
        parse_variant(ts, i) matches Ok((_, j)) ==> i < j <= ts.len(),
{
    if op_at(ts, i + 2, Op::OpenBracket) {
        lemma_parse_fields_bounds(ts, i + 3, Seq::empty());
    }
}

/// The variants from `i` on, after the variants `acc` already read, up to
/// the first token that does not start a variant.
pub open spec fn parse_variants(ts: Seq<TokenView>, i: int, acc: Seq<VariantView>) -> Result<
    (Seq<VariantView>, int),
    int,
>
    decreases ts.len() - i,
    when 0 <= i
    via parse_variants_decreases
{
    if op_at(ts, i, Op::Bar) {
        match parse_variant(ts, i) {
            Ok((v, j)) => parse_variants(ts, j, acc.push(v)),
            Err(k) => Err(k),
        }
    } else {
        Ok((acc, i))
    }
}

#[via_fn]
proof fn parse_variants_decreases(ts: Seq<TokenView>, i: int, acc: Seq<VariantView>) {
    lemma_parse_variant_bounds(ts, i);
}

/// A type declaration at `i`: `'type' name '='` and then a structured type
/// or one variant or more.
pub open spec fn parse_type_decl(ts: Seq<TokenView>, i: int) -> Result<(TypeDeclView, int), int> {
    if !(0 <= i < ts.len() && ts[i] == TokenView::Keyword(Keyword::Type)) {
        Err(i)
    } else {
        match ident_at(ts, i + 1) {
            None => Err(i + 1),
            Some(name) => {
                if !op_at(ts, i + 2, Op::Equal) {
                    Err(i + 2)
                } else if op_at(ts, i + 3, Op::OpenBracket) {
                    match parse_structured(ts, i + 3) {
                        Ok((fields, j)) => Ok(
                            (TypeDeclView { name, decl: DeclView::Structured(fields) }, j),
                        ),
                        Err(k) => Err(k),
                    }
                } else if op_at(ts, i + 3, Op::Bar) {
                    match parse_variants(ts, i + 3, Seq::empty()) {
                        Ok((variants, j)) => Ok(
                            (TypeDeclView { name, decl: DeclView::Enum(variants) }, j),
                        ),
                        Err(k) => Err(k),
                    }
                } else {
                    Err(i + 3)
                }
            },
        }
    }
}

proof fn lemma_parse_type_decl_bounds(ts: Seq<TokenView>, i: int)
    requires
        0 <= i,
    ensures
        parse_type_decl(ts, i) matches Ok((_, j)) ==> i < j <= ts.len(),
{
    lemma_parse_fields_bounds(ts, i + 4, Seq::empty());
    if i + 3 <= ts.len() {
        lemma_parse_variants_bounds(ts, i + 3, Seq::empty());
    }
}

proof fn lemma_parse_variants_bounds(ts: Seq<TokenView>, i: int, acc: Seq<VariantView>)
    requires
        0 <= i <= ts.len(),
    ensures
        parse_variants(ts, i, acc) matches Ok((_, j)) ==> i <= j <= ts.len(),
    decreases ts.len() - i,
{
    lemma_parse_variant_bounds(ts, i);
    if op_at(ts, i, Op::Bar) {
        if let Ok((v, j)) = parse_variant(ts, i) {
            lemma_parse_variants_bounds(ts, j, acc.push(v));
        }
    }
}

/// The declarations from `i` to the end of the tokens, after the
/// declarations `acc` already read; or the position of the first token that
/// does not fit.
pub open spec fn parse_decls_from(ts: Seq<TokenView>, i: int, acc: Seq<TypeDeclView>) -> Result<
    Seq<TypeDeclView>,
    int,
>
    decreases ts.len() - i,
    when 0 <= i
    via parse_decls_from_decreases
{
    if i >= ts.len() {
        Ok(acc)
    } else {
        match parse_type_decl(ts, i) {
            Ok((d, j)) => parse_decls_from(ts, j, acc.push(d)),
            Err(k) => Err(k),
        }
    }
}

#[via_fn]
proof fn parse_decls_from_decreases(ts: Seq<TokenView>, i: int, acc: Seq<TypeDeclView>) {
    lemma_parse_type_decl_bounds(ts, i);
}

/// The message for tokens that the grammar does not derive: where the
/// first token that does not fit stands.
pub open spec fn grammar_error_message(k: int) -> Seq<char> {
    "Failed to parse at token "@ + crate::text::decimal(k as nat)
}

/// The models of a run of type declarations.
pub open spec fn type_decl_views(v: Seq<TypeDecl>) -> Seq<TypeDeclView> {
    v.map_values(|d: TypeDecl| d@)
}

/// The declarations that the tokens `ts` spell, or the error for the first
/// token that does not fit.
pub open spec fn spec_parse_type_decls(ts: Seq<TokenView>) -> Result<Seq<TypeDeclView>, JangErrorView> {
    match parse_decls_from(ts, 0, Seq::empty()) {
        Ok(ds) => Ok(ds),
        Err(k) => Err(JangErrorView::Grammar(grammar_error_message(k))),
    }
}

fn is_op_at(tokens: &Vec<JangToken>, i: usize, op: Op) -> (b: bool)
    ensures
        b == op_at(token_views(tokens@), i as int, op),
        b ==> i < tokens@.len() <= usize::MAX,
{
    if i < tokens.len() {
        match &tokens[i] {
            JangToken::Operator(o) => o.op == op,
            _ => false,
        }
    } else {
        false
    }
}

fn ident_token_at(tokens: &Vec<JangToken>, i: usize) -> (r: Option<Ident>)
    ensures
        match r {
            Some(id) => ident_at(token_views(tokens@), i as int) == Some(id@),
            None => ident_at(token_views(tokens@), i as int) is None,
        },
        r is Some ==> i < tokens@.len() <= usize::MAX,
{
    if i < tokens.len() {
        match &tokens[i] {
            JangToken::Ident(id) => Some(id.clone()),
            _ => None,
        }
    } else {
        None
    }
}

fn parse_field_at(tokens: &Vec<JangToken>, i: usize) -> (r: Result<(StructuredTypeField, usize), usize>)
    ensures
        match parse_field(token_views(tokens@), i as int) {
            Ok((f, j)) => r matches Ok((field, jj)) && field@ == f && jj == j,
            Err(k) => r matches Err(kk) && kk == k,
        },
{
    let name = match ident_token_at(tokens, i) {
        Some(name) => name,
        None => return Err(i),
    };
    if !is_op_at(tokens, i + 1, Op::Colon) {
        return Err(i + 1);
    }
    let ty = match ident_token_at(tokens, i + 2) {
        Some(ty) => ty,
        None => return Err(i + 2),
    };
    Ok((StructuredTypeField::new(name, TypeExpression::new(ty)), i + 3))
}

fn parse_structured_at(tokens: &Vec<JangToken>, i: usize) -> (r: Result<(StructuredTypeDecl, usize), usize>)
    ensures
        match parse_structured(token_views(tokens@), i as int) {
            Ok((fields, j)) => r matches Ok((d, jj)) && d@ == fields && jj == j,
            Err(k) => r matches Err(kk) && kk == k,
        },
{
    let ghost ts = token_views(tokens@);
    if !is_op_at(tokens, i, Op::OpenBracket) {
        return Err(i);
    }
    let mut builder = StructuredTypeDeclBuilder::new();
    let mut pos = i + 1;
    while pos <= tokens.len()
        invariant
            ts == token_views(tokens@),
            i < pos,
            op_at(ts, i as int, Op::OpenBracket),
            parse_fields(ts, pos as int, builder@) == parse_fields(ts, i + 1, Seq::empty()),
        decreases tokens@.len() + 1 - pos,
    {
        if is_op_at(tokens, pos, Op::CloseBracket) {
            return Ok((builder.build(), pos + 1));
        }
        match parse_field_at(tokens, pos) {
            Err(k) => return Err(k),
            Ok((field, j)) => {
                builder = builder.add_field(field);
                pos = j;
            },
        }
    }
    proof {
        assert(!op_at(ts, pos as int, Op::CloseBracket));
        assert(ident_at(ts, pos as int) is None);
    }
    Err(pos)
}

fn parse_variant_type_at(tokens: &Vec<JangToken>, i: usize) -> (r: Result<(EnumVariantType, usize), usize>)
    ensures
        match parse_variant_type(token_views(tokens@), i as int) {
            Ok((t, j)) => r matches Ok((vt, jj)) && vt@ == t && jj == j,
            Err(k) => r matches Err(kk) && kk == k,
        },
{
    if is_op_at(tokens, i, Op::OpenBracket) {
        match parse_structured_at(tokens, i) {
            Ok((d, j)) => Ok((EnumVariantType::Structured(d), j)),
            Err(k) => Err(k),
        }
    } else {
        match ident_token_at(tokens, i) {
            Some(name) => Ok((EnumVariantType::TypeRef(name), i + 1)),
            None => Ok((EnumVariantType::Empty, i)),
        }
    }
}

fn parse_variant_at(tokens: &Vec<JangToken>, i: usize) -> (r: Result<(EnumVariant, usize), usize>)
    ensures
        match parse_variant(token_views(tokens@), i as int) {
            Ok((v, j)) => r matches Ok((variant, jj)) && variant@ == v && jj == j,
            Err(k) => r matches Err(kk) && kk == k,
        },
{
    if !is_op_at(tokens, i, Op::Bar) {
        return Err(i);
    }
    let name = match ident_token_at(tokens, i + 1) {
        Some(name) => name,
        None => return Err(i + 1),
    };
    match parse_variant_type_at(tokens, i + 2) {
        Ok((ty, j)) => Ok((EnumVariant::new(name, ty), j)),
        Err(k) => Err(k),
    }
}

fn parse_type_decl_at(tokens: &Vec<JangToken>, i: usize) -> (r: Result<(TypeDecl, usize), usize>)
    ensures
        match parse_type_decl(token_views(tokens@), i as int) {
            Ok((d, j)) => r matches Ok((decl, jj)) && decl@ == d && jj == j,
            Err(k) => r matches Err(kk) && kk == k,
        },
{
    let ghost ts = token_views(tokens@);
    let is_type = i < tokens.len() && match &tokens[i] {
        JangToken::Keyword(k) => *k == Keyword::Type,
        _ => false,
    };
    if !is_type {
        return Err(i);
    }
    let name = match ident_token_at(tokens, i + 1) {
        Some(name) => name,
        None => return Err(i + 1),
    };
    if !is_op_at(tokens, i + 2, Op::Equal) {
        return Err(i + 2);
    }
    if is_op_at(tokens, i + 3, Op::OpenBracket) {
        match parse_structured_at(tokens, i + 3) {
            Ok((d, j)) => Ok((TypeDecl::new(name, TypeDeclVariant::Structured(d)), j)),
            Err(k) => Err(k),
        }
    } else if is_op_at(tokens, i + 3, Op::Bar) {
        let mut builder = EnumTypeDeclBuilder::new();
        let mut pos = i + 3;
        while is_op_at(tokens, pos, Op::Bar)
            invariant
                ts == token_views(tokens@),
                i + 3 <= pos <= tokens@.len(),
                i < ts.len() && ts[i as int] == TokenView::Keyword(Keyword::Type),
                ident_at(ts, i + 1) == Some(name@),
                op_at(ts, i + 2, Op::Equal),
                !op_at(ts, i + 3, Op::OpenBracket),
                op_at(ts, i + 3, Op::Bar),
                parse_variants(ts, pos as int, builder@) == parse_variants(
                    ts,
                    i + 3,
                    Seq::empty(),
                ),
            decreases tokens@.len() - pos,
        {
            proof {
                lemma_parse_variant_bounds(ts, pos as int);
            }
            match parse_variant_at(tokens, pos) {
                Err(k) => return Err(k),
                Ok((variant, j)) => {
                    builder = builder.add_variant(variant);
                    pos = j;
                },
            }
        }
        Ok((TypeDecl::new(name, TypeDeclVariant::Enum(builder.build())), pos))
    } else {
        Err(i + 3)
    }
}

/// Reads type declarations from `tokens`, up to the end of the tokens.
pub fn parse_type_decls(tokens: &Vec<JangToken>) -> (r: JangResult<Vec<TypeDecl>>)
    ensures
        match spec_parse_type_decls(token_views(tokens@)) {
            Ok(ds) => r matches Ok(v) && type_decl_views(v@) == ds,
            Err(e) => r matches Err(err) && err@ == e,
        },
{
    let ghost ts = token_views(tokens@);
    let mut decls: Vec<TypeDecl> = Vec::new();
    let mut pos: usize = 0;
    assert(type_decl_views(decls@) =~= Seq::<TypeDeclView>::empty());
    while pos < tokens.len()
        invariant
            ts == token_views(tokens@),
            pos <= tokens@.len(),
            parse_decls_from(ts, pos as int, type_decl_views(decls@)) == parse_decls_from(
                ts,
                0,
                Seq::empty(),
            ),
        decreases tokens@.len() - pos,
    {
        proof {
            lemma_parse_type_decl_bounds(ts, pos as int);
        }
        match parse_type_decl_at(tokens, pos) {
            Err(k) => {
                let mut message = String::new();
                push_str(&mut message, "Failed to parse at token ");
                push_decimal(&mut message, k as u64);
                assert(message@ =~= grammar_error_message(k as int));
                return Err(JangError::Grammar(message));
            },
            Ok((decl, j)) => {
                let ghost before = decls@;
                decls.push(decl);
                assert(type_decl_views(decls@) =~= type_decl_views(before).push(decl@));
                pos = j;
            },
        }
    }
    Ok(decls)
}

/// Reads type declarations from source text: its tokens, then the
/// declarations that they spell.
pub fn parse_type_decls_from_text(text: &str) -> (r: JangResult<Vec<TypeDecl>>)
    ensures
        match spec_tokens(text@) {
            Ok(ts) => match spec_parse_type_decls(ts) {
                Ok(ds) => r matches Ok(v) && type_decl_views(v@) == ds,
                Err(e) => r matches Err(err) && err@ == e,
            },
            Err(e) => r matches Err(err) && err@ == e,
        },
{
    let tokens = tokenize(text)?;
    parse_type_decls(&tokens)
}

/// The tokens a field is written as: `name ':' type`.
pub open spec fn field_tokens(f: FieldView) -> Seq<TokenView> {
    seq![TokenView::Ident(f.name), TokenView::Operator(Op::Colon), TokenView::Ident(f.ty)]
}

/// The tokens of the fields, one after the other.
pub open spec fn fields_tokens(fs: Seq<FieldView>) -> Seq<TokenView>
    decreases fs.len(),
{
    if fs.len() == 0 {
        Seq::empty()
    } else {
        field_tokens(fs[0]) + fields_tokens(fs.skip(1))
    }
}

/// The tokens of a structured type: its fields between braces.
pub open spec fn structured_tokens(fs: Seq<FieldView>) -> Seq<TokenView> {
    seq![TokenView::Operator(Op::OpenBracket)] + fields_tokens(fs) + seq![
        TokenView::Operator(Op::CloseBracket),
    ]
}

/// The tokens of a variant's payload.
pub open spec fn variant_type_tokens(t: VariantTypeView) -> Seq<TokenView> {
    match t {
        VariantTypeView::TypeRef(name) => seq![TokenView::Ident(name)],
        VariantTypeView::Structured(fs) => structured_tokens(fs),
        VariantTypeView::Empty => Seq::empty(),
    }
}

/// The tokens of a variant: `'|' name payload`.
pub open spec fn variant_tokens(v: VariantView) -> Seq<TokenView> {
    seq![TokenView::Operator(Op::Bar), TokenView::Ident(v.name)] + variant_type_tokens(v.ty)
}

/// The tokens of the variants, one after the other.
pub open spec fn variants_tokens(vs: Seq<VariantView>) -> Seq<TokenView>
    decreases vs.len(),
{
    if vs.len() == 0 {
        Seq::empty()
    } else {
        variant_tokens(vs[0]) + variants_tokens(vs.skip(1))
    }
}

/// The tokens of a type declaration.
pub open spec fn decl_tokens(d: TypeDeclView) -> Seq<TokenView> {
    seq![TokenView::Keyword(Keyword::Type), TokenView::Ident(d.name), TokenView::Operator(Op::Equal)]
        + match d.decl {
        DeclView::Structured(fs) => structured_tokens(fs),
        DeclView::Enum(vs) => variants_tokens(vs),
    }
}

/// The tokens of the declarations, one after the other.
pub open spec fn decls_tokens(ds: Seq<TypeDeclView>) -> Seq<TokenView>
    decreases ds.len(),
{
    if ds.len() == 0 {
        Seq::empty()
    } else {
        decl_tokens(ds[0]) + decls_tokens(ds.skip(1))
    }
}

/// A declaration the grammar can spell: an enum type has a variant or more.
pub open spec fn decl_spellable(d: TypeDeclView) -> bool {
    match d.decl {
        DeclView::Enum(vs) => vs.len() > 0,
        DeclView::Structured(_) => true,
    }
}

/// The tokens from position `i` of `ts` on start with `t`.
pub open spec fn tokens_at(ts: Seq<TokenView>, i: int, t: Seq<TokenView>) -> bool {
    0 <= i && i + t.len() <= ts.len() && ts.subrange(i, i + t.len()) == t
}

/// The token at `p`, if any, cannot start a variant's payload.
pub open spec fn ends_payload(ts: Seq<TokenView>, p: int) -> bool {
    !op_at(ts, p, Op::OpenBracket) && ident_at(ts, p) is None
}

/// The token at `p`, if any, neither continues a variant nor starts one.
pub open spec fn ends_variants(ts: Seq<TokenView>, p: int) -> bool {
    !op_at(ts, p, Op::Bar) && ends_payload(ts, p)
}

/// Tokens that start with `a + b` start with `a`, and `b` follows it.
pub proof fn lemma_tokens_at_split(ts: Seq<TokenView>, i: int, a: Seq<TokenView>, b: Seq<TokenView>)
    requires
        tokens_at(ts, i, a + b),
    ensures
        tokens_at(ts, i, a),
        tokens_at(ts, i + a.len(), b),
        forall|k: int| 0 <= k < a.len() ==> ts[i + k] == a[k],
{
    assert forall|k: int| 0 <= k < a.len() implies ts[i + k] == a[k] by {
        assert(ts.subrange(i, i + (a + b).len())[k] == (a + b)[k]);
    }
    assert(ts.subrange(i, i + a.len()) =~= a);
    assert forall|k: int| 0 <= k < b.len() implies ts.subrange(
        i + a.len(),
        i + a.len() + b.len(),
    )[k] == b[k] by {
        assert(ts.subrange(i, i + (a + b).len())[a.len() + k] == (a + b)[a.len() + k]);
    }
    assert(ts.subrange(i + a.len(), i + a.len() + b.len()) =~= b);
}

proof fn lemma_fields_tokens_len(fs: Seq<FieldView>)
    ensures
        fields_tokens(fs).len() == 3 * fs.len(),
    decreases fs.len(),
{
    if fs.len() > 0 {
        lemma_fields_tokens_len(fs.skip(1));
    }
}

proof fn lemma_parse_fields_complete(
    ts: Seq<TokenView>,
    i: int,
    acc: Seq<FieldView>,
    fs: Seq<FieldView>,
)
    requires
        tokens_at(ts, i, fields_tokens(fs) + seq![TokenView::Operator(Op::CloseBracket)]),
    ensures
        parse_fields(ts, i, acc) == Ok::<(Seq<FieldView>, int), int>(
            (acc + fs, i + fields_tokens(fs).len() + 1),
        ),
    decreases fs.len(),
{
    let close = seq![TokenView::Operator(Op::CloseBracket)];
    lemma_tokens_at_split(ts, i, fields_tokens(fs), close);
    if fs.len() == 0 {
        assert(ts[i + 0] == close[0]);
        assert(acc + fs =~= acc);
    } else {
        let rest = fields_tokens(fs.skip(1));
        assert(fields_tokens(fs) + close =~= field_tokens(fs[0]) + (rest + close));
        lemma_tokens_at_split(ts, i, field_tokens(fs[0]), rest + close);
        assert(ts[i + 0] == field_tokens(fs[0])[0]);
        assert(ts[i + 1] == field_tokens(fs[0])[1]);
        assert(ts[i + 2] == field_tokens(fs[0])[2]);
        assert(parse_field(ts, i) == Ok::<(FieldView, int), int>((fs[0], i + 3)));
        lemma_parse_fields_complete(ts, i + 3, acc.push(fs[0]), fs.skip(1));
        assert(acc.push(fs[0]) + fs.skip(1) =~= acc + fs);
    }
}

proof fn lemma_parse_structured_complete(ts: Seq<TokenView>, i: int, fs: Seq<FieldView>)
    requires
        tokens_at(ts, i, structured_tokens(fs)),
    ensures
        parse_structured(ts, i) == Ok::<(Seq<FieldView>, int), int>(
            (fs, i + structured_tokens(fs).len()),
        ),
{
    let open = seq![TokenView::Operator(Op::OpenBracket)];
    let close = seq![TokenView::Operator(Op::CloseBracket)];
    assert(structured_tokens(fs) =~= open + (fields_tokens(fs) + close));
    lemma_tokens_at_split(ts, i, open, fields_tokens(fs) + close);
    assert(ts[i + 0] == open[0]);
    lemma_parse_fields_complete(ts, i + 1, Seq::empty(), fs);
    assert(Seq::<FieldView>::empty() + fs =~= fs);
}

proof fn lemma_parse_variant_complete(ts: Seq<TokenView>, i: int, v: VariantView)
    requires
        tokens_at(ts, i, variant_tokens(v)),
        v.ty is Empty ==> ends_payload(ts, i + 2),
    ensures
        parse_variant(ts, i) == Ok::<(VariantView, int), int>((v, i + variant_tokens(v).len())),
{
    let head = seq![TokenView::Operator(Op::Bar), TokenView::Ident(v.name)];
    lemma_tokens_at_split(ts, i, head, variant_type_tokens(v.ty));
    assert(ts[i + 0] == head[0]);
    assert(ts[i + 1] == head[1]);
    match v.ty {
        VariantTypeView::TypeRef(name) => {
            assert(ts[i + 2] == seq![TokenView::Ident(name)][0]) by {
                lemma_tokens_at_split(ts, i + 2, seq![TokenView::Ident(name)], Seq::empty());
                assert(seq![TokenView::Ident(name)] + Seq::<TokenView>::empty() =~= seq![
                    TokenView::Ident(name),
                ]);
            }
        },
        VariantTypeView::Structured(fs) => {
            lemma_parse_structured_complete(ts, i + 2, fs);
            assert(structured_tokens(fs)[0] == TokenView::Operator(Op::OpenBracket));
            assert(ts.subrange(i + 2, i + 2 + structured_tokens(fs).len())[0] == ts[i + 2]);
        },
        VariantTypeView::Empty => {},
    }
}

proof fn lemma_parse_variants_complete(
    ts: Seq<TokenView>,
    i: int,
    acc: Seq<VariantView>,
    vs: Seq<VariantView>,
)
    requires
        tokens_at(ts, i, variants_tokens(vs)),
        ends_variants(ts, i + variants_tokens(vs).len()),
    ensures
        parse_variants(ts, i, acc) == Ok::<(Seq<VariantView>, int), int>(
            (acc + vs, i + variants_tokens(vs).len()),
        ),
    decreases vs.len(),
{
    if vs.len() == 0 {
        assert(acc + vs =~= acc);
    } else {
        let first = variant_tokens(vs[0]);
        let rest = variants_tokens(vs.skip(1));
        lemma_tokens_at_split(ts, i, first, rest);
        let p = i + first.len();
        if vs.skip(1).len() > 0 {
            assert(rest == variant_tokens(vs.skip(1)[0]) + variants_tokens(vs.skip(1).skip(1)));
            lemma_tokens_at_split(ts, p, variant_tokens(vs.skip(1)[0]), variants_tokens(vs.skip(1).skip(1)));
            assert(ts[p + 0] == variant_tokens(vs.skip(1)[0])[0]);
        } else {
            assert(rest.len() == 0);
        }
        assert(vs[0].ty is Empty ==> p == i + 2);
        lemma_parse_variant_complete(ts, i, vs[0]);
        assert(ts[i + 0] == first[0]);
        lemma_parse_variants_complete(ts, p, acc.push(vs[0]), vs.skip(1));
        assert(acc.push(vs[0]) + vs.skip(1) =~= acc + vs);
    }
}

proof fn lemma_parse_type_decl_complete(ts: Seq<TokenView>, i: int, d: TypeDeclView)
    requires
        tokens_at(ts, i, decl_tokens(d)),
        decl_spellable(d),
        ends_variants(ts, i + decl_tokens(d).len()),
    ensures
        parse_type_decl(ts, i) == Ok::<(TypeDeclView, int), int>((d, i + decl_tokens(d).len())),
{
    let head = seq![
        TokenView::Keyword(Keyword::Type),
        TokenView::Ident(d.name),
        TokenView::Operator(Op::Equal),
    ];
    match d.decl {
        DeclView::Structured(fs) => {
            lemma_tokens_at_split(ts, i, head, structured_tokens(fs));
            lemma_parse_structured_complete(ts, i + 3, fs);
            assert(ts.subrange(i + 3, i + 3 + structured_tokens(fs).len())[0] == ts[i + 3]);
        },
        DeclView::Enum(vs) => {
            lemma_tokens_at_split(ts, i, head, variants_tokens(vs));
            lemma_tokens_at_split(ts, i + 3, variant_tokens(vs[0]), variants_tokens(vs.skip(1)));
            assert(ts[i + 3 + 0] == variant_tokens(vs[0])[0]);
            lemma_parse_variants_complete(ts, i + 3, Seq::empty(), vs);
            assert(Seq::<VariantView>::empty() + vs =~= vs);
        },
    }
    assert(ts[i + 0] == head[0]);
    assert(ts[i + 1] == head[1]);
    assert(ts[i + 2] == head[2]);
}

proof fn lemma_parse_decls_complete(
    ts: Seq<TokenView>,
    i: int,
    acc: Seq<TypeDeclView>,
    ds: Seq<TypeDeclView>,
)
    requires
        tokens_at(ts, i, decls_tokens(ds)),
        i + decls_tokens(ds).len() == ts.len(),
        forall|k: int| 0 <= k < ds.len() ==> decl_spellable(#[trigger] ds[k]),
    ensures
        parse_decls_from(ts, i, acc) == Ok::<Seq<TypeDeclView>, int>(acc + ds),
    decreases ds.len(),
{
    if ds.len() == 0 {
        assert(acc + ds =~= acc);
    } else {
        let first = decl_tokens(ds[0]);
        let rest = decls_tokens(ds.skip(1));
        lemma_tokens_at_split(ts, i, first, rest);
        let p = i + first.len();
        if ds.skip(1).len() > 0 {
            lemma_tokens_at_split(ts, p, decl_tokens(ds.skip(1)[0]), decls_tokens(ds.skip(1).skip(1)));
            assert(ts[p + 0] == decl_tokens(ds.skip(1)[0])[0]);
        }
        assert(decl_spellable(ds[0]));
        lemma_parse_type_decl_complete(ts, i, ds[0]);
        assert(ts[i + 0] == first[0]);
        assert forall|k: int| 0 <= k < ds.skip(1).len() implies decl_spellable(
            #[trigger] ds.skip(1)[k],
        ) by {
            assert(ds.skip(1)[k] == ds[k + 1]);
        }
        lemma_parse_decls_complete(ts, p, acc.push(ds[0]), ds.skip(1));
        assert(acc.push(ds[0]) + ds.skip(1) =~= acc + ds);
    }
}

/// Reading the tokens that declarations are written as gives back those
/// declarations, for every run of declarations that the grammar can spell.
pub proof fn lemma_parse_inverts_spelling(ds: Seq<TypeDeclView>)
    requires
        forall|k: int| 0 <= k < ds.len() ==> decl_spellable(#[trigger] ds[k]),
    ensures
        spec_parse_type_decls(decls_tokens(ds)) == Ok::<Seq<TypeDeclView>, JangErrorView>(ds),
{
    let ts = decls_tokens(ds);
    assert(ts.subrange(0, ts.len() as int) =~= ts);
    lemma_parse_decls_complete(ts, 0, Seq::empty(), ds);
    assert(Seq::<TypeDeclView>::empty() + ds =~= ds);
}

proof fn lemma_tokens_at_join(ts: Seq<TokenView>, i: int, a: Seq<TokenView>, b: Seq<TokenView>)
    requires
        tokens_at(ts, i, a),
        tokens_at(ts, i + a.len(), b),
    ensures
        tokens_at(ts, i, a + b),
{
    assert forall|k: int| 0 <= k < (a + b).len() implies ts.subrange(i, i + (a + b).len())[k] == (a
        + b)[k] by {
        if k < a.len() {
            assert(ts.subrange(i, i + a.len())[k] == a[k]);
        } else {
            assert(ts.subrange(i + a.len(), i + a.len() + b.len())[k - a.len()] == b[k - a.len()]);
        }
    }
    assert(ts.subrange(i, i + (a + b).len()) =~= a + b);
}

proof fn lemma_tokens_at_single(ts: Seq<TokenView>, i: int, t: TokenView)
    requires
        0 <= i < ts.len(),
        ts[i] == t,
    ensures
        tokens_at(ts, i, seq![t]),
{
    assert(ts.subrange(i, i + 1) =~= seq![t]);
}

proof fn lemma_parse_fields_sound(ts: Seq<TokenView>, i: int, acc: Seq<FieldView>)
    requires
        0 <= i,
    ensures
        parse_fields(ts, i, acc) matches Ok((all, j)) ==> {
            &&& acc.len() <= all.len()
            &&& all.take(acc.len() as int) == acc
            &&& tokens_at(
                ts,
                i,
                fields_tokens(all.skip(acc.len() as int)) + seq![
                    TokenView::Operator(Op::CloseBracket),
                ],
            )
            &&& j == i + fields_tokens(all.skip(acc.len() as int)).len() + 1
        },
    decreases ts.len() - i,
{
    let close = seq![TokenView::Operator(Op::CloseBracket)];
    if op_at(ts, i, Op::CloseBracket) {
        assert(acc.take(acc.len() as int) =~= acc);
        assert(acc.skip(acc.len() as int) =~= Seq::<FieldView>::empty());
        assert(fields_tokens(Seq::<FieldView>::empty()) + close =~= close);
        lemma_tokens_at_single(ts, i, TokenView::Operator(Op::CloseBracket));
    } else if let Ok((f, j)) = parse_field(ts, i) {
        lemma_parse_fields_sound(ts, j, acc.push(f));
        if let Ok((all, j2)) = parse_fields(ts, j, acc.push(f)) {
            let rest = all.skip(acc.len() + 1int);
            let fs = all.skip(acc.len() as int);
            assert(fs.skip(1) =~= rest);
            assert(fs[0] == f) by {
                assert(all.take(acc.len() + 1int)[acc.len() as int] == acc.push(f)[acc.len() as int]);
            }
            assert(all.take(acc.len() as int) =~= acc) by {
                assert forall|k: int| 0 <= k < acc.len() implies all.take(acc.len() as int)[k]
                    == acc[k] by {
                    assert(all.take(acc.len() + 1int)[k] == acc.push(f)[k]);
                }
            }
            lemma_tokens_at_single(ts, i, TokenView::Ident(f.name));
            lemma_tokens_at_single(ts, i + 1, TokenView::Operator(Op::Colon));
            lemma_tokens_at_single(ts, i + 2, TokenView::Ident(f.ty));
            lemma_tokens_at_join(ts, i, seq![TokenView::Ident(f.name)], seq![TokenView::Operator(Op::Colon)]);
            assert(seq![TokenView::Ident(f.name)] + seq![TokenView::Operator(Op::Colon)] =~= seq![
                TokenView::Ident(f.name),
                TokenView::Operator(Op::Colon),
            ]);
            lemma_tokens_at_join(
                ts,
                i,
                seq![TokenView::Ident(f.name), TokenView::Operator(Op::Colon)],
                seq![TokenView::Ident(f.ty)],
            );
            assert(seq![TokenView::Ident(f.name), TokenView::Operator(Op::Colon)] + seq![
                TokenView::Ident(f.ty),
            ] =~= field_tokens(f));
            lemma_tokens_at_join(ts, i, field_tokens(f), fields_tokens(rest) + close);
            assert(field_tokens(f) + (fields_tokens(rest) + close) =~= fields_tokens(fs) + close);
        }
    }
}

proof fn lemma_parse_structured_sound(ts: Seq<TokenView>, i: int)
    requires
        0 <= i,
    ensures
        parse_structured(ts, i) matches Ok((fs, j)) ==> tokens_at(ts, i, structured_tokens(fs)) && j
            == i + structured_tokens(fs).len(),
{
    if op_at(ts, i, Op::OpenBracket) {
        lemma_parse_fields_sound(ts, i + 1, Seq::empty());
        if let Ok((fs, j)) = parse_fields(ts, i + 1, Seq::empty()) {
            assert(fs.skip(0) =~= fs);
            lemma_tokens_at_single(ts, i, TokenView::Operator(Op::OpenBracket));
            let close = seq![TokenView::Operator(Op::CloseBracket)];
            lemma_tokens_at_join(ts, i, seq![TokenView::Operator(Op::OpenBracket)], fields_tokens(fs) + close);
            assert(seq![TokenView::Operator(Op::OpenBracket)] + (fields_tokens(fs) + close)
                =~= structured_tokens(fs));
        }
    }
}

proof fn lemma_parse_variant_sound(ts: Seq<TokenView>, i: int)
    requires
        0 <= i,
    ensures
        parse_variant(ts, i) matches Ok((v, j)) ==> tokens_at(ts, i, variant_tokens(v)) && j == i
            + variant_tokens(v).len(),
{
    if let Ok((v, j)) = parse_variant(ts, i) {
        let head = seq![TokenView::Operator(Op::Bar), TokenView::Ident(v.name)];
        lemma_tokens_at_single(ts, i, TokenView::Operator(Op::Bar));
        lemma_tokens_at_single(ts, i + 1, TokenView::Ident(v.name));
        lemma_tokens_at_join(ts, i, seq![TokenView::Operator(Op::Bar)], seq![TokenView::Ident(v.name)]);
        assert(seq![TokenView::Operator(Op::Bar)] + seq![TokenView::Ident(v.name)] =~= head);
        match v.ty {
            VariantTypeView::Structured(fs) => {
                lemma_parse_structured_sound(ts, i + 2);
            },
            VariantTypeView::TypeRef(name) => {
                lemma_tokens_at_single(ts, i + 2, TokenView::Ident(name));
            },
            VariantTypeView::Empty => {
                assert(ts.subrange(i + 2, i + 2) =~= Seq::<TokenView>::empty());
            },
        }
        lemma_tokens_at_join(ts, i, head, variant_type_tokens(v.ty));
    }
}

proof fn lemma_parse_variants_sound(ts: Seq<TokenView>, i: int, acc: Seq<VariantView>)
    requires
        0 <= i <= ts.len(),
    ensures
        parse_variants(ts, i, acc) matches Ok((all, j)) ==> {
            &&& acc.len() <= all.len()
            &&& all.take(acc.len() as int) == acc
            &&& tokens_at(ts, i, variants_tokens(all.skip(acc.len() as int)))
            &&& j == i + variants_tokens(all.skip(acc.len() as int)).len()
        },
    decreases ts.len() - i,
{
    if !op_at(ts, i, Op::Bar) {
        assert(acc.take(acc.len() as int) =~= acc);
        assert(acc.skip(acc.len() as int) =~= Seq::<VariantView>::empty());
        assert(ts.subrange(i, i) =~= Seq::<TokenView>::empty());
    } else if let Ok((v, j)) = parse_variant(ts, i) {
        lemma_parse_variant_bounds(ts, i);
        lemma_parse_variant_sound(ts, i);
        lemma_parse_variants_sound(ts, j, acc.push(v));
        if let Ok((all, j2)) = parse_variants(ts, j, acc.push(v)) {
            let rest = all.skip(acc.len() + 1int);
            let vs = all.skip(acc.len() as int);
            assert(vs.skip(1) =~= rest);
            assert(vs[0] == v) by {
                assert(all.take(acc.len() + 1int)[acc.len() as int] == acc.push(v)[acc.len() as int]);
            }
            assert(all.take(acc.len() as int) =~= acc) by {
                assert forall|k: int| 0 <= k < acc.len() implies all.take(acc.len() as int)[k]
                    == acc[k] by {
                    assert(all.take(acc.len() + 1int)[k] == acc.push(v)[k]);
                }
            }
            lemma_tokens_at_join(ts, i, variant_tokens(v), variants_tokens(rest));
        }
    }
}

proof fn lemma_parse_type_decl_sound(ts: Seq<TokenView>, i: int)
    requires
        0 <= i,
    ensures
        parse_type_decl(ts, i) matches Ok((d, j)) ==> tokens_at(ts, i, decl_tokens(d)) && j == i
            + decl_tokens(d).len() && decl_spellable(d),
{
    if let Ok((d, j)) = parse_type_decl(ts, i) {
        let head = seq![
            TokenView::Keyword(Keyword::Type),
            TokenView::Ident(d.name),
            TokenView::Operator(Op::Equal),
        ];
        lemma_tokens_at_single(ts, i, TokenView::Keyword(Keyword::Type));
        lemma_tokens_at_single(ts, i + 1, TokenView::Ident(d.name));
        lemma_tokens_at_single(ts, i + 2, TokenView::Operator(Op::Equal));
        lemma_tokens_at_join(ts, i, seq![TokenView::Keyword(Keyword::Type)], seq![TokenView::Ident(d.name)]);
        assert(seq![TokenView::Keyword(Keyword::Type)] + seq![TokenView::Ident(d.name)] =~= seq![
            TokenView::Keyword(Keyword::Type),
            TokenView::Ident(d.name),
        ]);
        lemma_tokens_at_join(
            ts,
            i,
            seq![TokenView::Keyword(Keyword::Type), TokenView::Ident(d.name)],
            seq![TokenView::Operator(Op::Equal)],
        );
        assert(seq![TokenView::Keyword(Keyword::Type), TokenView::Ident(d.name)] + seq![
            TokenView::Operator(Op::Equal),
        ] =~= head);
        match d.decl {
            DeclView::Structured(fs) => {
                lemma_parse_structured_sound(ts, i + 3);
                lemma_tokens_at_join(ts, i, head, structured_tokens(fs));
            },
            DeclView::Enum(vs) => {
                lemma_parse_variants_sound(ts, i + 3, Seq::empty());
                assert(vs.skip(0) =~= vs);
                lemma_parse_variant_bounds(ts, i + 3);
                if let Ok((v, j1)) = parse_variant(ts, i + 3) {
                    lemma_parse_variants_bounds(ts, j1, seq![v]);
                    assert(Seq::<VariantView>::empty().push(v) =~= seq![v]);
                    lemma_parse_variants_len(ts, j1, seq![v]);
                }
                lemma_tokens_at_join(ts, i, head, variants_tokens(vs));
            },
        }
    }
}

proof fn lemma_parse_variants_len(ts: Seq<TokenView>, i: int, acc: Seq<VariantView>)
    requires
        0 <= i <= ts.len(),
    ensures
        parse_variants(ts, i, acc) matches Ok((all, _)) ==> acc.len() <= all.len(),
    decreases ts.len() - i,
{
    if op_at(ts, i, Op::Bar) {
        lemma_parse_variant_bounds(ts, i);
        if let Ok((v, j)) = parse_variant(ts, i) {
            lemma_parse_variants_len(ts, j, acc.push(v));
        }
    }
}

proof fn lemma_parse_decls_sound(ts: Seq<TokenView>, i: int, acc: Seq<TypeDeclView>)
    requires
        0 <= i <= ts.len(),
    ensures
        parse_decls_from(ts, i, acc) matches Ok(all) ==> {
            &&& acc.len() <= all.len()
            &&& all.take(acc.len() as int) == acc
            &&& tokens_at(ts, i, decls_tokens(all.skip(acc.len() as int)))
            &&& i + decls_tokens(all.skip(acc.len() as int)).len() == ts.len()
            &&& forall|k: int| acc.len() <= k < all.len() ==> decl_spellable(#[trigger] all[k])
        },
    decreases ts.len() - i,
{
    if i >= ts.len() {
        assert(acc.take(acc.len() as int) =~= acc);
        assert(acc.skip(acc.len() as int) =~= Seq::<TypeDeclView>::empty());
        assert(ts.subrange(i, i) =~= Seq::<TokenView>::empty());
    } else if let Ok((d, j)) = parse_type_decl(ts, i) {
        lemma_parse_type_decl_bounds(ts, i);
        lemma_parse_type_decl_sound(ts, i);
        lemma_parse_decls_sound(ts, j, acc.push(d));
        if let Ok(all) = parse_decls_from(ts, j, acc.push(d)) {
            let rest = all.skip(acc.len() + 1int);
            let ds = all.skip(acc.len() as int);
            assert(ds.skip(1) =~= rest);
            assert(all[acc.len() as int] == d) by {
                assert(all.take(acc.len() + 1int)[acc.len() as int] == acc.push(d)[acc.len() as int]);
            }
            assert(ds[0] == d);
            assert(all.take(acc.len() as int) =~= acc) by {
                assert forall|k: int| 0 <= k < acc.len() implies all.take(acc.len() as int)[k]
                    == acc[k] by {
                    assert(all.take(acc.len() + 1int)[k] == acc.push(d)[k]);
                }
            }
            lemma_tokens_at_join(ts, i, decl_tokens(d), decls_tokens(rest));
        }
    }
}

/// The parser reads exactly the spellings of declarations: when it reads
/// declarations from tokens, the tokens are those declarations written
/// out, and each of them is one the grammar can spell.
pub proof fn lemma_parse_reads_spelling(ts: Seq<TokenView>)
    ensures
        spec_parse_type_decls(ts) matches Ok(ds) ==> ts == decls_tokens(ds) && forall|k: int|
            0 <= k < ds.len() ==> decl_spellable(#[trigger] ds[k]),
{
    lemma_parse_decls_sound(ts, 0, Seq::empty());
    if let Ok(ds) = parse_decls_from(ts, 0, Seq::empty()) {
        assert(ds.skip(0) =~= ds);
        assert(ts.subrange(0, ts.len() as int) =~= ts);
    }
}

} // verus!
