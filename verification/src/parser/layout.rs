//! How the code formatter lays out type declarations, and reading that
//! text back.
use vstd::prelude::*;
use crate::parser::ast::code_formatter::{
    due_indent, finished_text, indent_text, initial_state, lemma_close_piece, lemma_newline_piece,
    lemma_open_piece, lemma_plain_text_written_as_is, lemma_write_pieces_append, spec_format,
    spec_write_str, write_pieces, FormatterState,
};
use crate::parser::ast::enum_type_decl::{
    enum_pieces, variant_pieces, variant_type_pieces, variants_pieces, VariantTypeView,
    VariantView,
};
use crate::parser::ast::structured_type_decl::{
    field_pieces, fields_pieces, structured_pieces, FieldView,
};
use crate::parser::ast::type_decl::{decl_pieces, type_decl_pieces, DeclView, TypeDeclView};
use crate::error::JangErrorView;
use crate::parser::grammar::{
    decl_spellable, decl_tokens, decls_tokens, field_tokens, fields_tokens,
    lemma_parse_inverts_spelling, spec_parse_type_decls, structured_tokens, variant_tokens,
    variant_type_tokens, variants_tokens,
};
use crate::parser::lexer::{
    ends_word, is_ascii_ws, is_ident_text, lemma_lex_ident, lemma_lex_keyword, lemma_lex_operator,
    lemma_lex_skips_ws, lemma_prepend_assoc, prepend, skip_ws, spec_is_ident_char, spec_lex,
    spec_tokens,
};
use crate::parser::token::keyword::{keyword_text, Keyword};
use crate::parser::token::operator::Op;
use crate::parser::token::TokenView;
use crate::text::lemma_subrange_split;

verus! {

/// A field on a line of its own at `level`: `name: type`.
pub open spec fn field_line(f: FieldView, level: nat) -> Seq<char> {
    indent_text(level) + f.name + seq![':', ' '] + f.ty
}

/// The fields, each on a line of its own at `level`.
pub open spec fn fields_layout(fs: Seq<FieldView>, level: nat) -> Seq<char>
    decreases fs.len(),
{
    if fs.len() == 0 {
        Seq::empty()
    } else {
        fields_layout(fs.drop_last(), level) + field_line(fs.last(), level)
    }
}

/// A structured type laid out at `level`: the opening brace where the text
/// is, the fields one level in, the closing brace on a line of its own.
pub open spec fn structured_layout(fs: Seq<FieldView>, level: nat) -> Seq<char> {
    seq!['{'] + fields_layout(fs, level + 1) + indent_text(level) + seq!['}']
}

/// A variant's payload as laid out after its name.
pub open spec fn payload_layout(t: VariantTypeView) -> Seq<char> {
    match t {
        VariantTypeView::TypeRef(name) => name,
        VariantTypeView::Structured(fs) => structured_layout(fs, 0),
        VariantTypeView::Empty => Seq::empty(),
    }
}

/// A variant on a line of its own: `| name payload`.
pub open spec fn variant_line(v: VariantView) -> Seq<char> {
    indent_text(0) + seq!['|', ' '] + v.name + seq![' '] + payload_layout(v.ty)
}

/// The variants, each on a line of its own.
pub open spec fn variants_layout(vs: Seq<VariantView>) -> Seq<char>
    decreases vs.len(),
{
    if vs.len() == 0 {
        Seq::empty()
    } else {
        variants_layout(vs.drop_last()) + variant_line(vs.last())
    }
}

/// A type declaration as the formatter lays it out.
pub open spec fn decl_layout(d: TypeDeclView) -> Seq<char> {
    seq!['t', 'y', 'p', 'e', ' '] + d.name + seq![' ', '=', ' '] + match d.decl {
        DeclView::Structured(fs) => structured_layout(fs, 0),
        DeclView::Enum(vs) => variants_layout(vs),
    } + seq!['\n']
}

/// Every name in the fields reads back as one identifier.
pub open spec fn fields_readable(fs: Seq<FieldView>) -> bool {
    forall|k: int| 0 <= k < fs.len() ==> is_ident_text(#[trigger] fs[k].name) && is_ident_text(fs[k].ty)
}

/// Every name in the payload reads back as one identifier.
pub open spec fn payload_readable(t: VariantTypeView) -> bool {
    match t {
        VariantTypeView::TypeRef(name) => is_ident_text(name),
        VariantTypeView::Structured(fs) => fields_readable(fs),
        VariantTypeView::Empty => true,
    }
}

/// Every name in the variants reads back as one identifier.
pub open spec fn variants_readable(vs: Seq<VariantView>) -> bool {
    forall|k: int| 0 <= k < vs.len() ==> is_ident_text(#[trigger] vs[k].name) && payload_readable(vs[k].ty)
}

/// Every name in the declaration reads back as one identifier.
pub open spec fn decl_readable(d: TypeDeclView) -> bool {
    &&& is_ident_text(d.name)
    &&& match d.decl {
        DeclView::Structured(fs) => fields_readable(fs),
        DeclView::Enum(vs) => variants_readable(vs),
    }
}

proof fn lemma_ident_text_plain(n: Seq<char>)
    requires
        is_ident_text(n),
    ensures
        n.len() > 0,
        !n.contains('\n'),
        n.last() != '{',
        n.last() != '}',
{
    if n.contains('\n') {
        let k = choose|k: int| 0 <= k < n.len() && n[k] == '\n';
        assert(spec_is_ident_char(n[k]));
    }
    assert(spec_is_ident_char(n[n.len() - 1]));
}

proof fn lemma_plain(st: FormatterState, s: Seq<char>)
    requires
        s.len() > 0,
        !s.contains('\n'),
        s.last() != '{',
        s.last() != '}',
        st.level * 2 + 1 <= usize::MAX,
    ensures
        spec_write_str(st, s) == Some(
            FormatterState {
                out: st.out + due_indent(st, st.level) + s,
                level: st.level,
                newline_queued: false,
            },
        ),
{
    lemma_plain_text_written_as_is(st, s);
}

proof fn lemma_write_pieces_cons(st: FormatterState, p: Seq<char>, rest: Seq<Seq<char>>)
    ensures
        write_pieces(st, seq![p] + rest) == match spec_write_str(st, p) {
            Some(st2) => write_pieces(st2, rest),
            None => None,
        },
{
    assert((seq![p] + rest)[0] == p);
    assert((seq![p] + rest).skip(1) =~= rest);
}

proof fn lemma_write_pieces_one(st: FormatterState, p: Seq<char>)
    ensures
        write_pieces(st, seq![p]) == spec_write_str(st, p),
{
    lemma_write_pieces_cons(st, p, Seq::empty());
    assert(seq![p] + Seq::<Seq<char>>::empty() =~= seq![p]);
    if let Some(st2) = spec_write_str(st, p) {
        assert(write_pieces(st2, Seq::<Seq<char>>::empty()) == Some(st2));
    }
}

proof fn lemma_colon_space()
    ensures
        ": "@ == seq![':', ' '],
        " "@ == seq![' '],
        "| "@ == seq!['|', ' '],
        " = "@ == seq![' ', '=', ' '],
        "type "@ == seq!['t', 'y', 'p', 'e', ' '],
{
    reveal_strlit(": ");
    reveal_strlit(" ");
    reveal_strlit("| ");
    reveal_strlit(" = ");
    reveal_strlit("type ");
}

proof fn lemma_format_field(st: FormatterState, f: FieldView)
    requires
        st.newline_queued,
        st.level * 2 + 1 <= usize::MAX,
        is_ident_text(f.name),
        is_ident_text(f.ty),
    ensures
        write_pieces(st, field_pieces(f) + seq!["\n"@]) == Some(
            FormatterState {
                out: st.out + field_line(f, st.level),
                level: st.level,
                newline_queued: true,
            },
        ),
{
    lemma_colon_space();
    lemma_ident_text_plain(f.name);
    lemma_ident_text_plain(f.ty);
    let st1 = FormatterState {
        out: st.out + indent_text(st.level) + f.name,
        level: st.level,
        newline_queued: false,
    };
    let st2 = FormatterState { out: st1.out + seq![':', ' '], ..st1 };
    let st3 = FormatterState { out: st2.out + f.ty, ..st2 };
    lemma_plain(st, f.name);
    assert(seq![':', ' '].contains('\n') ==> false) by {
        if seq![':', ' '].contains('\n') {
            let k = choose|k: int| 0 <= k < 2 && seq![':', ' '][k] == '\n';
        }
    }
    lemma_plain(st1, seq![':', ' ']);
    assert(st1.out + due_indent(st1, st1.level) + seq![':', ' '] =~= st2.out);
    lemma_plain(st2, f.ty);
    assert(st2.out + due_indent(st2, st2.level) + f.ty =~= st3.out);
    lemma_newline_piece(st3);
    assert(field_pieces(f) + seq!["\n"@] =~= seq![f.name] + (seq![": "@] + (seq![f.ty] + seq![
        "\n"@,
    ])));
    lemma_write_pieces_cons(st, f.name, seq![": "@] + (seq![f.ty] + seq!["\n"@]));
    lemma_write_pieces_cons(st1, ": "@, seq![f.ty] + seq!["\n"@]);
    lemma_write_pieces_cons(st2, f.ty, seq!["\n"@]);
    lemma_write_pieces_one(st3, "\n"@);
    assert(st3.out =~= st.out + field_line(f, st.level));
}

proof fn lemma_format_fields(st: FormatterState, fs: Seq<FieldView>)
    requires
        st.newline_queued,
        st.level * 2 + 1 <= usize::MAX,
        fields_readable(fs),
    ensures
        write_pieces(st, fields_pieces(fs)) == Some(
            FormatterState {
                out: st.out + fields_layout(fs, st.level),
                level: st.level,
                newline_queued: true,
            },
        ),
    decreases fs.len(),
{
    if fs.len() == 0 {
        assert(st.out + fields_layout(fs, st.level) =~= st.out);
    } else {
        let dl = fs.drop_last();
        assert(fields_readable(dl)) by {
            assert forall|k: int| 0 <= k < dl.len() implies is_ident_text(#[trigger] dl[k].name)
                && is_ident_text(dl[k].ty) by {
                assert(dl[k] == fs[k]);
            }
        }
        lemma_format_fields(st, dl);
        let st1 = FormatterState {
            out: st.out + fields_layout(dl, st.level),
            level: st.level,
            newline_queued: true,
        };
        assert(is_ident_text(fs[fs.len() - 1].name) && is_ident_text(fs[fs.len() - 1].ty));
        lemma_format_field(st1, fs.last());
        assert(fields_pieces(fs) == fields_pieces(dl) + (field_pieces(fs.last()) + seq!["\n"@])) by {
            assert(fields_pieces(dl) + field_pieces(fs.last()) + seq!["\n"@] =~= fields_pieces(dl) + (
            field_pieces(fs.last()) + seq!["\n"@]));
        }
        lemma_write_pieces_append(st, fields_pieces(dl), field_pieces(fs.last()) + seq!["\n"@]);
        assert(st1.out + field_line(fs.last(), st.level) =~= st.out + fields_layout(fs, st.level));
    }
}

proof fn lemma_format_structured(st: FormatterState, fs: Seq<FieldView>)
    requires
        (st.level + 2) * 2 + 1 <= usize::MAX,
        fields_readable(fs),
    ensures
        write_pieces(st, structured_pieces(fs)) == Some(
            FormatterState {
                out: st.out + due_indent(st, st.level) + structured_layout(fs, st.level),
                level: st.level,
                newline_queued: false,
            },
        ),
{
    lemma_open_piece(st);
    let st1 = FormatterState {
        out: st.out + due_indent(st, st.level) + seq!['{'],
        level: st.level + 1,
        newline_queued: true,
    };
    lemma_format_fields(st1, fs);
    let st2 = FormatterState {
        out: st1.out + fields_layout(fs, st.level + 1),
        level: st.level + 1,
        newline_queued: true,
    };
    lemma_close_piece(st2);
    let st3 = FormatterState {
        out: st2.out + due_indent(st2, st.level) + seq!['}'],
        level: st.level,
        newline_queued: false,
    };
    assert(structured_pieces(fs) == seq!["{\n"@] + (fields_pieces(fs) + seq!["}"@]));
    lemma_write_pieces_cons(st, "{\n"@, fields_pieces(fs) + seq!["}"@]);
    lemma_write_pieces_append(st1, fields_pieces(fs), seq!["}"@]);
    lemma_write_pieces_one(st2, "}"@);
    assert(st3.out =~= st.out + due_indent(st, st.level) + structured_layout(fs, st.level));
}

proof fn lemma_format_variant(st: FormatterState, v: VariantView)
    requires
        st.newline_queued,
        st.level == 0,
        is_ident_text(v.name),
        payload_readable(v.ty),
    ensures
        write_pieces(st, seq!["| "@] + variant_pieces(v) + seq!["\n"@]) == Some(
            FormatterState { out: st.out + variant_line(v), level: 0, newline_queued: true },
        ),
{
    lemma_colon_space();
    lemma_ident_text_plain(v.name);
    let bar = seq!['|', ' '];
    assert(!bar.contains('\n')) by {
        if bar.contains('\n') {
            let k = choose|k: int| 0 <= k < 2 && bar[k] == '\n';
        }
    }
    assert(!seq![' '].contains('\n')) by {
        if seq![' '].contains('\n') {
            let k = choose|k: int| 0 <= k < 1 && seq![' '][k] == '\n';
        }
    }
    lemma_plain(st, bar);
    let st1 = FormatterState { out: st.out + indent_text(0) + bar, level: 0, newline_queued: false };
    lemma_plain(st1, v.name);
    let st2 = FormatterState { out: st1.out + v.name, ..st1 };
    assert(st1.out + due_indent(st1, 0) + v.name =~= st2.out);
    lemma_plain(st2, seq![' ']);
    let st3 = FormatterState { out: st2.out + seq![' '], ..st2 };
    assert(st2.out + due_indent(st2, 0) + seq![' '] =~= st3.out);
    let st4 = FormatterState { out: st3.out + payload_layout(v.ty), ..st3 };
    match v.ty {
        VariantTypeView::TypeRef(name) => {
            lemma_ident_text_plain(name);
            lemma_plain(st3, name);
            assert(st3.out + due_indent(st3, 0) + name =~= st4.out);
            lemma_write_pieces_one(st3, name);
        },
        VariantTypeView::Structured(fs) => {
            lemma_format_structured(st3, fs);
            assert(st3.out + due_indent(st3, 0) + structured_layout(fs, 0) =~= st4.out);
        },
        VariantTypeView::Empty => {
            assert(st3.out + payload_layout(v.ty) =~= st3.out);
            assert(st4 == st3);
        },
    }
    assert(write_pieces(st3, variant_type_pieces(v.ty)) == Some(st4));
    lemma_newline_piece(st4);
    let st5 = FormatterState { newline_queued: true, ..st4 };
    lemma_write_pieces_one(st4, "\n"@);
    assert(seq!["| "@] + variant_pieces(v) + seq!["\n"@] =~= seq!["| "@] + (seq![v.name] + (seq![
        " "@,
    ] + (variant_type_pieces(v.ty) + seq!["\n"@]))));
    lemma_write_pieces_cons(st, "| "@, seq![v.name] + (seq![" "@] + (variant_type_pieces(v.ty) + seq![
        "\n"@,
    ])));
    lemma_write_pieces_cons(st1, v.name, seq![" "@] + (variant_type_pieces(v.ty) + seq!["\n"@]));
    lemma_write_pieces_cons(st2, " "@, variant_type_pieces(v.ty) + seq!["\n"@]);
    lemma_write_pieces_append(st3, variant_type_pieces(v.ty), seq!["\n"@]);
    assert(st5.out =~= st.out + variant_line(v));
}

proof fn lemma_format_variants(st: FormatterState, vs: Seq<VariantView>)
    requires
        st.newline_queued,
        st.level == 0,
        variants_readable(vs),
    ensures
        write_pieces(st, variants_pieces(vs)) == Some(
            FormatterState { out: st.out + variants_layout(vs), level: 0, newline_queued: true },
        ),
    decreases vs.len(),
{
    if vs.len() == 0 {
        assert(st.out + variants_layout(vs) =~= st.out);
    } else {
        let dl = vs.drop_last();
        assert(variants_readable(dl)) by {
            assert forall|k: int| 0 <= k < dl.len() implies is_ident_text(#[trigger] dl[k].name)
                && payload_readable(dl[k].ty) by {
                assert(dl[k] == vs[k]);
            }
        }
        lemma_format_variants(st, dl);
        let st1 = FormatterState { out: st.out + variants_layout(dl), level: 0, newline_queued: true };
        assert(is_ident_text(vs[vs.len() - 1].name) && payload_readable(vs[vs.len() - 1].ty));
        lemma_format_variant(st1, vs.last());
        assert(variants_pieces(vs) =~= variants_pieces(dl) + (seq!["| "@] + variant_pieces(vs.last())
            + seq!["\n"@]));
        lemma_write_pieces_append(st, variants_pieces(dl), seq!["| "@] + variant_pieces(vs.last()) + seq![
            "\n"@,
        ]);
        assert(st1.out + variant_line(vs.last()) =~= st.out + variants_layout(vs));
    }
}

/// The formatter lays a declaration out as `decl_layout` says: the fields
/// of a structured type one level in, each variant of an enum type on a
/// line of its own.
pub proof fn lemma_format_type_decl(d: TypeDeclView)
    requires
        decl_readable(d),
    ensures
        spec_format(type_decl_pieces(d)) == Some(decl_layout(d)),
{
    lemma_colon_space();
    lemma_ident_text_plain(d.name);
    let st0 = initial_state();
    let ty = seq!['t', 'y', 'p', 'e', ' '];
    let eq = seq![' ', '=', ' '];
    assert(!ty.contains('\n')) by {
        if ty.contains('\n') {
            let k = choose|k: int| 0 <= k < 5 && ty[k] == '\n';
        }
    }
    assert(!eq.contains('\n')) by {
        if eq.contains('\n') {
            let k = choose|k: int| 0 <= k < 3 && eq[k] == '\n';
        }
    }
    lemma_plain(st0, ty);
    let st1 = FormatterState { out: ty, level: 0, newline_queued: false };
    assert(st0.out + due_indent(st0, 0) + ty =~= ty);
    lemma_plain(st1, d.name);
    let st2 = FormatterState { out: ty + d.name, ..st1 };
    assert(st1.out + due_indent(st1, 0) + d.name =~= st2.out);
    lemma_plain(st2, eq);
    let st3 = FormatterState { out: ty + d.name + eq, ..st1 };
    assert(st2.out + due_indent(st2, 0) + eq =~= st3.out);
    let body = match d.decl {
        DeclView::Structured(fs) => structured_layout(fs, 0),
        DeclView::Enum(vs) => variants_layout(vs),
    };
    let st4 = FormatterState { out: st3.out + body, level: 0, newline_queued: match d.decl {
        DeclView::Structured(_) => false,
        DeclView::Enum(_) => true,
    } };
    match d.decl {
        DeclView::Structured(fs) => {
            lemma_format_structured(st3, fs);
            assert(st3.out + due_indent(st3, 0) + structured_layout(fs, 0) =~= st4.out);
        },
        DeclView::Enum(vs) => {
            lemma_newline_piece(st3);
            let sq = FormatterState { newline_queued: true, ..st3 };
            lemma_format_variants(sq, vs);
            lemma_write_pieces_cons(st3, "\n"@, variants_pieces(vs));
            assert(enum_pieces(vs) == seq!["\n"@] + variants_pieces(vs));
        },
    }
    assert(write_pieces(st3, decl_pieces(d.decl)) == Some(st4));
    lemma_newline_piece(st4);
    let st5 = FormatterState { newline_queued: true, ..st4 };
    lemma_write_pieces_one(st4, "\n"@);
    assert(type_decl_pieces(d) =~= seq!["type "@] + (seq![d.name] + (seq![" = "@] + (decl_pieces(
        d.decl,
    ) + seq!["\n"@]))));
    lemma_write_pieces_cons(st0, "type "@, seq![d.name] + (seq![" = "@] + (decl_pieces(d.decl)
        + seq!["\n"@])));
    lemma_write_pieces_cons(st1, d.name, seq![" = "@] + (decl_pieces(d.decl) + seq!["\n"@]));
    lemma_write_pieces_cons(st2, " = "@, decl_pieces(d.decl) + seq!["\n"@]);
    lemma_write_pieces_append(st3, decl_pieces(d.decl), seq!["\n"@]);
    assert(write_pieces(st0, type_decl_pieces(d)) == Some(st5));
    assert(finished_text(st5) =~= decl_layout(d));
}

proof fn lemma_fields_tokens_push(fs: Seq<FieldView>)
    requires
        fs.len() > 0,
    ensures
        fields_tokens(fs) == fields_tokens(fs.drop_last()) + field_tokens(fs.last()),
    decreases fs.len(),
{
    if fs.len() == 1 {
        assert(fs.drop_last() =~= Seq::<FieldView>::empty());
        assert(fs.skip(1) =~= Seq::<FieldView>::empty());
        assert(fields_tokens(Seq::<FieldView>::empty()) == Seq::<TokenView>::empty());
        assert(field_tokens(fs[0]) + Seq::<TokenView>::empty() =~= field_tokens(fs[0]));
        assert(Seq::<TokenView>::empty() + field_tokens(fs[0]) =~= field_tokens(fs[0]));
    } else {
        lemma_fields_tokens_push(fs.skip(1));
        assert(fs.skip(1).drop_last() =~= fs.drop_last().skip(1));
        assert(fs.skip(1).last() == fs.last());
        assert(fs.drop_last()[0] == fs[0]);
        assert(field_tokens(fs[0]) + (fields_tokens(fs.drop_last().skip(1)) + field_tokens(fs.last()))
            =~= (field_tokens(fs[0]) + fields_tokens(fs.drop_last().skip(1))) + field_tokens(
            fs.last(),
        ));
    }
}

proof fn lemma_variants_tokens_push(vs: Seq<VariantView>)
    requires
        vs.len() > 0,
    ensures
        variants_tokens(vs) == variants_tokens(vs.drop_last()) + variant_tokens(vs.last()),
    decreases vs.len(),
{
    if vs.len() == 1 {
        assert(vs.drop_last() =~= Seq::<VariantView>::empty());
        assert(vs.skip(1) =~= Seq::<VariantView>::empty());
        assert(variants_tokens(Seq::<VariantView>::empty()) == Seq::<TokenView>::empty());
        assert(variant_tokens(vs[0]) + Seq::<TokenView>::empty() =~= variant_tokens(vs[0]));
        assert(Seq::<TokenView>::empty() + variant_tokens(vs[0]) =~= variant_tokens(vs[0]));
    } else {
        lemma_variants_tokens_push(vs.skip(1));
        assert(vs.skip(1).drop_last() =~= vs.drop_last().skip(1));
        assert(vs.skip(1).last() == vs.last());
        assert(vs.drop_last()[0] == vs[0]);
        assert(variant_tokens(vs[0]) + (variants_tokens(vs.drop_last().skip(1)) + variant_tokens(
            vs.last(),
        )) =~= (variant_tokens(vs[0]) + variants_tokens(vs.drop_last().skip(1))) + variant_tokens(
            vs.last(),
        ));
    }
}

proof fn lemma_indent_ws(s: Seq<char>, i: int, level: nat)
    requires
        0 <= i,
        i + indent_text(level).len() <= s.len(),
        s.subrange(i, i + indent_text(level).len()) == indent_text(level),
    ensures
        spec_lex(s, i, false) == spec_lex(s, i + indent_text(level).len(), false),
{
    let t = indent_text(level);
    assert forall|j: int| i <= j < i + t.len() implies is_ascii_ws(#[trigger] s[j]) by {
        assert(s.subrange(i, i + t.len())[j - i] == t[j - i]);
    }
    lemma_lex_skips_ws(s, i, i + t.len());
}

proof fn lemma_lex_field_line(s: Seq<char>, i: int, f: FieldView, level: nat)
    requires
        0 <= i,
        i + field_line(f, level).len() <= s.len(),
        s.subrange(i, i + field_line(f, level).len()) == field_line(f, level),
        is_ident_text(f.name),
        is_ident_text(f.ty),
        ends_word(s, i + field_line(f, level).len()),
    ensures
        spec_lex(s, i, false) == prepend(field_tokens(f), spec_lex(s, i + field_line(f, level).len(), false)),
{
    let ind = indent_text(level);
    let colon = seq![':', ' '];
    let a = i + ind.len();
    let b = a + f.name.len();
    let end = b + 2 + f.ty.len();
    assert(field_line(f, level) =~= ind + (f.name + (colon + f.ty)));
    lemma_subrange_split(s, i, ind, f.name + (colon + f.ty));
    lemma_subrange_split(s, a, f.name, colon + f.ty);
    lemma_subrange_split(s, b, colon, f.ty);
    assert(s[b] == ':' && s[b + 1] == ' ') by {
        assert(s[b + 0] == colon[0]);
        assert(s[b + 1] == colon[1]);
    }
    lemma_indent_ws(s, i, level);
    lemma_lex_ident(s, a, f.name);
    lemma_lex_operator(s, b, Op::Colon);
    lemma_lex_skips_ws(s, b + 1, b + 2);
    lemma_lex_ident(s, b + 2, f.ty);
    let after = spec_lex(s, end, false);
    lemma_prepend_assoc(seq![TokenView::Operator(Op::Colon)], seq![TokenView::Ident(f.ty)], after);
    lemma_prepend_assoc(
        seq![TokenView::Ident(f.name)],
        seq![TokenView::Operator(Op::Colon)] + seq![TokenView::Ident(f.ty)],
        after,
    );
    assert(seq![TokenView::Ident(f.name)] + (seq![TokenView::Operator(Op::Colon)] + seq![
        TokenView::Ident(f.ty),
    ]) =~= field_tokens(f));
}

proof fn lemma_lex_fields(s: Seq<char>, i: int, fs: Seq<FieldView>, level: nat)
    requires
        0 <= i,
        i + fields_layout(fs, level).len() <= s.len(),
        s.subrange(i, i + fields_layout(fs, level).len()) == fields_layout(fs, level),
        fields_readable(fs),
        ends_word(s, i + fields_layout(fs, level).len()),
    ensures
        spec_lex(s, i, false) == prepend(
            fields_tokens(fs),
            spec_lex(s, i + fields_layout(fs, level).len(), false),
        ),
    decreases fs.len(),
{
    if fs.len() == 0 {
        assert(fields_tokens(fs) == Seq::<TokenView>::empty());
        if let Ok(ts) = spec_lex(s, i, false) {
            assert(Seq::<TokenView>::empty() + ts =~= ts);
        }
    } else {
        let dl = fs.drop_last();
        let head = fields_layout(dl, level);
        let line = field_line(fs.last(), level);
        assert(fields_layout(fs, level) == head + line);
        lemma_subrange_split(s, i, head, line);
        assert(fields_readable(dl)) by {
            assert forall|k: int| 0 <= k < dl.len() implies is_ident_text(#[trigger] dl[k].name)
                && is_ident_text(dl[k].ty) by {
                assert(dl[k] == fs[k]);
            }
        }
        let m = i + head.len();
        assert(s[m] == '\n') by {
            assert(s.subrange(m, m + line.len())[0] == line[0]);
            assert(line[0] == indent_text(level)[0]);
        }
        lemma_fields_tokens_push(fs);
        lemma_lex_fields(s, i, dl, level);
        assert(is_ident_text(fs[fs.len() - 1].name) && is_ident_text(fs[fs.len() - 1].ty));
        lemma_lex_field_line(s, m, fs.last(), level);
        lemma_prepend_assoc(fields_tokens(dl), field_tokens(fs.last()), spec_lex(s, m + line.len(), false));
    }
}

proof fn lemma_lex_structured(s: Seq<char>, i: int, fs: Seq<FieldView>, level: nat)
    requires
        0 <= i,
        i + structured_layout(fs, level).len() <= s.len(),
        s.subrange(i, i + structured_layout(fs, level).len()) == structured_layout(fs, level),
        fields_readable(fs),
    ensures
        spec_lex(s, i, false) == prepend(
            structured_tokens(fs),
            spec_lex(s, i + structured_layout(fs, level).len(), false),
        ),
{
    let fl = fields_layout(fs, level + 1);
    let ind = indent_text(level);
    let a = i + 1;
    let b = a + fl.len();
    let c = b + ind.len();
    assert(structured_layout(fs, level) =~= seq!['{'] + (fl + (ind + seq!['}'])));
    lemma_subrange_split(s, i, seq!['{'], fl + (ind + seq!['}']));
    lemma_subrange_split(s, a, fl, ind + seq!['}']);
    lemma_subrange_split(s, b, ind, seq!['}']);
    assert(s[i] == '{') by {
        assert(s[i + 0] == seq!['{'][0]);
    }
    assert(s[b] == '\n') by {
        assert(s[b + 0] == ind[0]);
    }
    assert(s[c] == '}') by {
        assert(s.subrange(c, c + 1)[0] == seq!['}'][0]);
    }
    lemma_lex_operator(s, i, Op::OpenBracket);
    lemma_lex_fields(s, a, fs, level + 1);
    lemma_indent_ws(s, b, level);
    lemma_lex_operator(s, c, Op::CloseBracket);
    let open_t = seq![TokenView::Operator(Op::OpenBracket)];
    let close_t = seq![TokenView::Operator(Op::CloseBracket)];
    let after = spec_lex(s, c + 1, false);
    lemma_prepend_assoc(fields_tokens(fs), close_t, after);
    lemma_prepend_assoc(open_t, fields_tokens(fs) + close_t, after);
    assert(open_t + (fields_tokens(fs) + close_t) =~= structured_tokens(fs));
}

proof fn lemma_lex_variant_line(s: Seq<char>, i: int, v: VariantView)
    requires
        0 <= i,
        i + variant_line(v).len() <= s.len(),
        s.subrange(i, i + variant_line(v).len()) == variant_line(v),
        is_ident_text(v.name),
        payload_readable(v.ty),
        ends_word(s, i + variant_line(v).len()),
    ensures
        spec_lex(s, i, false) == prepend(variant_tokens(v), spec_lex(s, i + variant_line(v).len(), false)),
{
    let ind = indent_text(0);
    let bar = seq!['|', ' '];
    let pl = payload_layout(v.ty);
    let a = i + ind.len();
    let b = a + 2;
    let c = b + v.name.len();
    let d = c + 1;
    let end = d + pl.len();
    assert(variant_line(v) =~= ind + (bar + (v.name + (seq![' '] + pl))));
    lemma_subrange_split(s, i, ind, bar + (v.name + (seq![' '] + pl)));
    lemma_subrange_split(s, a, bar, v.name + (seq![' '] + pl));
    lemma_subrange_split(s, b, v.name, seq![' '] + pl);
    lemma_subrange_split(s, c, seq![' '], pl);
    assert(s[a] == '|' && s[a + 1] == ' ') by {
        assert(s[a + 0] == bar[0]);
        assert(s[a + 1] == bar[1]);
    }
    assert(s[c] == ' ') by {
        assert(s[c + 0] == seq![' '][0]);
    }
    lemma_indent_ws(s, i, 0);
    lemma_lex_operator(s, a, Op::Bar);
    lemma_lex_skips_ws(s, a + 1, b);
    lemma_lex_ident(s, b, v.name);
    lemma_lex_skips_ws(s, c, d);
    let after = spec_lex(s, end, false);
    match v.ty {
        VariantTypeView::TypeRef(name) => {
            lemma_lex_ident(s, d, name);
        },
        VariantTypeView::Structured(fs) => {
            lemma_lex_structured(s, d, fs, 0);
        },
        VariantTypeView::Empty => {
            assert(end == d);
            if let Ok(ts) = after {
                assert(Seq::<TokenView>::empty() + ts =~= ts);
            }
        },
    }
    assert(spec_lex(s, d, false) == prepend(variant_type_tokens(v.ty), after));
    let bar_t = seq![TokenView::Operator(Op::Bar)];
    let name_t = seq![TokenView::Ident(v.name)];
    lemma_prepend_assoc(name_t, variant_type_tokens(v.ty), after);
    lemma_prepend_assoc(bar_t, name_t + variant_type_tokens(v.ty), after);
    assert(bar_t + (name_t + variant_type_tokens(v.ty)) =~= variant_tokens(v));
}

proof fn lemma_lex_variants(s: Seq<char>, i: int, vs: Seq<VariantView>)
    requires
        0 <= i,
        i + variants_layout(vs).len() <= s.len(),
        s.subrange(i, i + variants_layout(vs).len()) == variants_layout(vs),
        variants_readable(vs),
        ends_word(s, i + variants_layout(vs).len()),
    ensures
        spec_lex(s, i, false) == prepend(variants_tokens(vs), spec_lex(s, i + variants_layout(vs).len(), false)),
    decreases vs.len(),
{
    if vs.len() == 0 {
        assert(variants_tokens(vs) == Seq::<TokenView>::empty());
        if let Ok(ts) = spec_lex(s, i, false) {
            assert(Seq::<TokenView>::empty() + ts =~= ts);
        }
    } else {
        let dl = vs.drop_last();
        let head = variants_layout(dl);
        let line = variant_line(vs.last());
        assert(variants_layout(vs) == head + line);
        lemma_subrange_split(s, i, head, line);
        assert(variants_readable(dl)) by {
            assert forall|k: int| 0 <= k < dl.len() implies is_ident_text(#[trigger] dl[k].name)
                && payload_readable(dl[k].ty) by {
                assert(dl[k] == vs[k]);
            }
        }
        let m = i + head.len();
        assert(s[m] == '\n') by {
            assert(s.subrange(m, m + line.len())[0] == line[0]);
            assert(line[0] == indent_text(0)[0]);
        }
        lemma_variants_tokens_push(vs);
        lemma_lex_variants(s, i, dl);
        assert(is_ident_text(vs[vs.len() - 1].name) && payload_readable(vs[vs.len() - 1].ty));
        lemma_lex_variant_line(s, m, vs.last());
        lemma_prepend_assoc(variants_tokens(dl), variant_tokens(vs.last()), spec_lex(s, m + line.len(), false));
    }
}

/// The text that starts a declaration, `type name = `.
pub open spec fn decl_head(name: Seq<char>) -> Seq<char> {
    seq!['t', 'y', 'p', 'e', ' '] + name + seq![' ', '=', ' ']
}

proof fn lemma_lex_decl_head(s: Seq<char>, i: int, n: Seq<char>)
    requires
        0 <= i,
        i + decl_head(n).len() <= s.len(),
        s.subrange(i, i + decl_head(n).len()) == decl_head(n),
        is_ident_text(n),
    ensures
        spec_lex(s, i, false) == prepend(
            seq![
                TokenView::Keyword(Keyword::Type),
                TokenView::Ident(n),
                TokenView::Operator(Op::Equal),
            ],
            spec_lex(s, i + decl_head(n).len(), false),
        ),
{
    let kw = seq!['t', 'y', 'p', 'e'];
    let eq = seq![' ', '=', ' '];
    let a = i + 5;
    let b = a + n.len();
    let c = b + 3;
    assert(decl_head(n) =~= kw + (seq![' '] + (n + eq)));
    lemma_subrange_split(s, i, kw, seq![' '] + (n + eq));
    lemma_subrange_split(s, i + 4, seq![' '], n + eq);
    lemma_subrange_split(s, a, n, eq);
    assert(s[i + 4] == ' ') by {
        assert(s.subrange(i + 4, i + 5)[0] == seq![' '][0]);
    }
    assert(s[b] == ' ' && s[b + 1] == '=' && s[b + 2] == ' ') by {
        assert(s.subrange(b, b + 3)[0] == eq[0]);
        assert(s.subrange(b, b + 3)[1] == eq[1]);
        assert(s.subrange(b, b + 3)[2] == eq[2]);
    }
    assert(keyword_text(Keyword::Type) == kw);
    lemma_lex_keyword(s, i, Keyword::Type);
    lemma_lex_skips_ws(s, i + 4, a);
    lemma_lex_ident(s, a, n);
    lemma_lex_skips_ws(s, b, b + 1);
    lemma_lex_operator(s, b + 1, Op::Equal);
    lemma_lex_skips_ws(s, b + 2, c);
    let after = spec_lex(s, c, false);
    let kw_t = seq![TokenView::Keyword(Keyword::Type)];
    let name_t = seq![TokenView::Ident(n)];
    let eq_t = seq![TokenView::Operator(Op::Equal)];
    lemma_prepend_assoc(name_t, eq_t, after);
    lemma_prepend_assoc(kw_t, name_t + eq_t, after);
    assert(kw_t + (name_t + eq_t) =~= seq![
        TokenView::Keyword(Keyword::Type),
        TokenView::Ident(n),
        TokenView::Operator(Op::Equal),
    ]);
}

proof fn lemma_lex_decl_layout_at(s: Seq<char>, i: int, d: TypeDeclView)
    requires
        decl_readable(d),
        0 <= i,
        i + decl_layout(d).len() <= s.len(),
        s.subrange(i, i + decl_layout(d).len()) == decl_layout(d),
    ensures
        spec_lex(s, i, false) == prepend(decl_tokens(d), spec_lex(s, i + decl_layout(d).len(), false)),
{
    let head = decl_head(d.name);
    let body = match d.decl {
        DeclView::Structured(fs) => structured_layout(fs, 0),
        DeclView::Enum(vs) => variants_layout(vs),
    };
    let c = i + head.len();
    let e = c + body.len();
    assert(decl_layout(d) =~= head + (body + seq!['\n']));
    lemma_subrange_split(s, i, head, body + seq!['\n']);
    lemma_subrange_split(s, c, body, seq!['\n']);
    assert(s[e] == '\n') by {
        assert(s.subrange(e, e + 1)[0] == seq!['\n'][0]);
    }
    lemma_lex_decl_head(s, i, d.name);
    match d.decl {
        DeclView::Structured(fs) => lemma_lex_structured(s, c, fs, 0),
        DeclView::Enum(vs) => lemma_lex_variants(s, c, vs),
    }
    let body_t = match d.decl {
        DeclView::Structured(fs) => structured_tokens(fs),
        DeclView::Enum(vs) => variants_tokens(vs),
    };
    lemma_lex_skips_ws(s, e, e + 1);
    let head_t = seq![
        TokenView::Keyword(Keyword::Type),
        TokenView::Ident(d.name),
        TokenView::Operator(Op::Equal),
    ];
    lemma_prepend_assoc(head_t, body_t, spec_lex(s, e + 1, false));
    assert(head_t + body_t =~= decl_tokens(d));
}

/// The text the formatter lays a declaration out as lexes to the tokens
/// that the declaration is spelled with.
pub proof fn lemma_lex_decl_layout(d: TypeDeclView)
    requires
        decl_readable(d),
    ensures
        spec_tokens(decl_layout(d)) == Ok::<Seq<TokenView>, JangErrorView>(decl_tokens(d)),
{
    let s = decl_layout(d);
    assert(s.subrange(0, s.len() as int) =~= s);
    lemma_lex_decl_layout_at(s, 0, d);
    assert(skip_ws(s, s.len() as int) == s.len());
    assert(spec_lex(s, s.len() as int, false) == Ok::<Seq<TokenView>, JangErrorView>(Seq::empty()));
    assert(decl_tokens(d) + Seq::<TokenView>::empty() =~= decl_tokens(d));
}

/// Declarations laid out one after the other.
pub open spec fn decls_layout(ds: Seq<TypeDeclView>) -> Seq<char>
    decreases ds.len(),
{
    if ds.len() == 0 {
        Seq::empty()
    } else {
        decl_layout(ds[0]) + decls_layout(ds.skip(1))
    }
}

proof fn lemma_lex_decls_layout_at(s: Seq<char>, i: int, ds: Seq<TypeDeclView>)
    requires
        forall|k: int| 0 <= k < ds.len() ==> decl_readable(#[trigger] ds[k]),
        0 <= i,
        i + decls_layout(ds).len() == s.len(),
        s.subrange(i, s.len() as int) == decls_layout(ds),
    ensures
        spec_lex(s, i, false) == Ok::<Seq<TokenView>, JangErrorView>(decls_tokens(ds)),
    decreases ds.len(),
{
    if ds.len() == 0 {
        assert(skip_ws(s, i) == i);
    } else {
        let first = decl_layout(ds[0]);
        let rest = decls_layout(ds.skip(1));
        lemma_subrange_split(s, i, first, rest);
        assert(decl_readable(ds[0]));
        lemma_lex_decl_layout_at(s, i, ds[0]);
        assert forall|k: int| 0 <= k < ds.skip(1).len() implies decl_readable(#[trigger] ds.skip(1)[k]) by {
            assert(ds.skip(1)[k] == ds[k + 1]);
        }
        lemma_lex_decls_layout_at(s, i + first.len(), ds.skip(1));
    }
}

/// Reading back declarations laid out one after the other gives those
/// declarations, when each one's names read back as identifiers and the
/// grammar can spell it.
pub proof fn lemma_formatted_decls_read_back(ds: Seq<TypeDeclView>)
    requires
        forall|k: int| 0 <= k < ds.len() ==> decl_readable(#[trigger] ds[k]) && decl_spellable(ds[k]),
    ensures
        spec_tokens(decls_layout(ds)) == Ok::<Seq<TokenView>, JangErrorView>(decls_tokens(ds)),
        spec_parse_type_decls(decls_tokens(ds)) == Ok::<Seq<TypeDeclView>, JangErrorView>(ds),
{
    let s = decls_layout(ds);
    assert(s.subrange(0, s.len() as int) =~= s);
    lemma_lex_decls_layout_at(s, 0, ds);
    lemma_parse_inverts_spelling(ds);
}

/// Reading back what the formatter lays a declaration out as gives the
/// declaration: for a declaration whose names each read back as one
/// identifier and that the grammar can spell, the laid-out text lexes to
/// the declaration's tokens, and those are read as that one declaration.
pub proof fn lemma_formatted_decl_reads_back(d: TypeDeclView)
    requires
        decl_readable(d),
        decl_spellable(d),
    ensures
        spec_format(type_decl_pieces(d)) == Some(decl_layout(d)),
        spec_tokens(decl_layout(d)) == Ok::<Seq<TokenView>, JangErrorView>(decl_tokens(d)),
        spec_parse_type_decls(decl_tokens(d)) == Ok::<Seq<TypeDeclView>, JangErrorView>(seq![d]),
{
    lemma_format_type_decl(d);
    lemma_lex_decl_layout(d);
    lemma_parse_inverts_spelling(seq![d]);
    assert(seq![d].skip(1) =~= Seq::<TypeDeclView>::empty());
    assert(decls_tokens(Seq::<TypeDeclView>::empty()) == Seq::<TokenView>::empty());
    assert(decls_tokens(seq![d]) =~= decl_tokens(d));
}

} // verus!
