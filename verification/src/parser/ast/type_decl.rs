//! Type declarations: `type Name = ...`.
use vstd::prelude::*;
use crate::parser::ast::code_formatter::{
    concat, concat_pieces, format_pieces, push_owned_piece, push_piece, spec_format, texts,
    write_pieces, CodeFormatter,
};
use crate::parser::ast::enum_type_decl::{enum_pieces, EnumTypeDecl, VariantView};
use crate::parser::ast::structured_type_decl::{structured_pieces, FieldView, StructuredTypeDecl};
use crate::parser::token::ident::Ident;

verus! {

/// The model of the right-hand side of a type declaration.
pub enum DeclView {
    Structured(Seq<FieldView>),
    Enum(Seq<VariantView>),
}

/// The model of a type declaration: its name and what it declares.
pub struct TypeDeclView {
    pub name: Seq<char>,
    pub decl: DeclView,
}

/// What a type declaration declares: a structured type or an enum type.
#[derive(Clone, Debug)]
pub enum TypeDeclVariant {
    Structured(StructuredTypeDecl),
    Enum(EnumTypeDecl),
}

impl View for TypeDeclVariant {
    type V = DeclView;

    open spec fn view(&self) -> DeclView {
        match self {
            TypeDeclVariant::Structured(s) => DeclView::Structured(s@),
            TypeDeclVariant::Enum(e) => DeclView::Enum(e@),
        }
    }
}

/// The pieces that display the right-hand side of a type declaration.
pub open spec fn decl_pieces(d: DeclView) -> Seq<Seq<char>> {
    match d {
        DeclView::Structured(fields) => structured_pieces(fields),
        DeclView::Enum(variants) => enum_pieces(variants),
    }
}

/// The pieces that display a type declaration, ended by a line break.
pub open spec fn type_decl_pieces(t: TypeDeclView) -> Seq<Seq<char>> {
    seq!["type "@, t.name, " = "@] + decl_pieces(t.decl) + seq!["\n"@]
}

impl TypeDeclVariant {
    /// Appends the pieces that display the declared type.
    pub fn push_pieces(&self, out: &mut Vec<String>)
        ensures
            texts(final(out)@) == texts(old(out)@) + decl_pieces(self@),
    {
        match self {
            TypeDeclVariant::Structured(s) => s.push_pieces(out),
            TypeDeclVariant::Enum(e) => e.push_pieces(out),
        }
    }

    /// The declared type as it is displayed.
    pub fn to_display_string(&self) -> (s: String)
        ensures
            s@ == concat(decl_pieces(self@)),
    {
        let mut v: Vec<String> = Vec::new();
        self.push_pieces(&mut v);
        assert(texts(v@) =~= decl_pieces(self@));
        concat_pieces(&v)
    }
}

impl From<StructuredTypeDecl> for TypeDeclVariant {
    fn from(s: StructuredTypeDecl) -> (d: TypeDeclVariant) {
        TypeDeclVariant::Structured(s)
    }
}

impl vstd::std_specs::convert::FromSpecImpl<StructuredTypeDecl> for TypeDeclVariant {
    open spec fn obeys_from_spec() -> bool {
        true
    }

    open spec fn from_spec(s: StructuredTypeDecl) -> TypeDeclVariant {
        TypeDeclVariant::Structured(s)
    }
}

impl From<EnumTypeDecl> for TypeDeclVariant {
    fn from(e: EnumTypeDecl) -> (d: TypeDeclVariant) {
        TypeDeclVariant::Enum(e)
    }
}

impl vstd::std_specs::convert::FromSpecImpl<EnumTypeDecl> for TypeDeclVariant {
    open spec fn obeys_from_spec() -> bool {
        true
    }

    open spec fn from_spec(e: EnumTypeDecl) -> TypeDeclVariant {
        TypeDeclVariant::Enum(e)
    }
}

/// A type declaration.
#[derive(Clone, Debug)]
pub struct TypeDecl {
    name: Ident,
    decl: TypeDeclVariant,
}

impl View for TypeDecl {
    type V = TypeDeclView;

    closed spec fn view(&self) -> TypeDeclView {
        TypeDeclView { name: self.name@, decl: self.decl@ }
    }
}

impl TypeDecl {
    pub fn new(name: Ident, decl: TypeDeclVariant) -> (t: TypeDecl)
        ensures
            t@ == (TypeDeclView { name: name@, decl: decl@ }),
    {
        TypeDecl { name, decl }
    }

    /// The declared name.
    pub fn name(&self) -> (n: &Ident)
        ensures
            n@ == self@.name,
    {
        &self.name
    }

    /// The declared type.
    pub fn decl(&self) -> (d: &TypeDeclVariant)
        ensures
            d@ == self@.decl,
    {
        &self.decl
    }

    /// Appends the pieces that display the declaration.
    pub fn push_pieces(&self, out: &mut Vec<String>)
        ensures
            texts(final(out)@) == texts(old(out)@) + type_decl_pieces(self@),
    {
        push_piece(out, "type ");
        push_owned_piece(out, self.name.to_text());
        push_piece(out, " = ");
        self.decl.push_pieces(out);
        push_piece(out, "\n");
        assert(texts(out@) =~= texts(old(out)@) + type_decl_pieces(self@));
    }

    /// The declaration as it is displayed.
    pub fn to_display_string(&self) -> (s: String)
        ensures
            s@ == concat(type_decl_pieces(self@)),
    {
        let mut v: Vec<String> = Vec::new();
        self.push_pieces(&mut v);
        assert(texts(v@) =~= type_decl_pieces(self@));
        concat_pieces(&v)
    }

    /// Writes the declaration to a code formatter; false when its braces
    /// close a level that is not open.
    pub fn write_code(&self, f: &mut CodeFormatter) -> (ok: bool)
        requires
            old(f).wf(),
        ensures
            final(f).wf(),
            ok == write_pieces(old(f)@, type_decl_pieces(self@)) is Some,
            ok ==> Some(final(f)@) == write_pieces(old(f)@, type_decl_pieces(self@)),
    {
        let mut v: Vec<String> = Vec::new();
        self.push_pieces(&mut v);
        assert(texts(v@) =~= type_decl_pieces(self@));
        f.write_all(&v)
    }

    /// The declaration laid out by a fresh code formatter.
    pub fn format_code(&self) -> (r: Option<String>)
        ensures
            r matches Some(s) ==> spec_format(type_decl_pieces(self@)) == Some(s@),
            r is None ==> spec_format(type_decl_pieces(self@)) is None,
    {
        let mut v: Vec<String> = Vec::new();
        self.push_pieces(&mut v);
        assert(texts(v@) =~= type_decl_pieces(self@));
        format_pieces(&v)
    }
}

} // verus!
