//! Enum types: a list of variants, each a name with an optional payload type.
use vstd::prelude::*;
use crate::parser::ast::code_formatter::{concat, concat_pieces, push_owned_piece, push_piece, texts};
use crate::parser::ast::structured_type_decl::{structured_pieces, FieldView, StructuredTypeDecl};
use crate::parser::token::ident::Ident;

verus! {

/// The model of a variant's payload.
pub enum VariantTypeView {
    TypeRef(Seq<char>),
    Structured(Seq<FieldView>),
    Empty,
}

/// The model of a variant: its name and its payload.
pub struct VariantView {
    pub name: Seq<char>,
    pub ty: VariantTypeView,
}

/// The payload of an enum variant: a named type, a structured type, or none.
#[derive(Clone, Debug)]
pub enum EnumVariantType {
    TypeRef(Ident),
    Structured(StructuredTypeDecl),
    Empty,
}

impl View for EnumVariantType {
    type V = VariantTypeView;

    open spec fn view(&self) -> VariantTypeView {
        match self {
            EnumVariantType::TypeRef(name) => VariantTypeView::TypeRef(name@),
            EnumVariantType::Structured(s) => VariantTypeView::Structured(s@),
            EnumVariantType::Empty => VariantTypeView::Empty,
        }
    }
}

/// The pieces that display a payload; an empty payload displays nothing.
pub open spec fn variant_type_pieces(t: VariantTypeView) -> Seq<Seq<char>> {
    match t {
        VariantTypeView::TypeRef(name) => seq![name],
        VariantTypeView::Structured(fields) => structured_pieces(fields),
        VariantTypeView::Empty => Seq::empty(),
    }
}

/// The pieces that display a variant: its name, a space and its payload.
pub open spec fn variant_pieces(v: VariantView) -> Seq<Seq<char>> {
    seq![v.name, " "@] + variant_type_pieces(v.ty)
}

/// The pieces of the variants, each on a line of its own after "| ".
pub open spec fn variants_pieces(vs: Seq<VariantView>) -> Seq<Seq<char>>
    decreases vs.len(),
{
    if vs.len() == 0 {
        Seq::empty()
    } else {
        variants_pieces(vs.drop_last()) + seq!["| "@] + variant_pieces(vs.last()) + seq!["\n"@]
    }
}

/// The pieces that display an enum type: a line break, then one line per
/// variant.
pub open spec fn enum_pieces(vs: Seq<VariantView>) -> Seq<Seq<char>> {
    seq!["\n"@] + variants_pieces(vs)
}

impl EnumVariantType {
    /// Appends the pieces that display the payload.
    pub fn push_pieces(&self, out: &mut Vec<String>)
        ensures
            texts(final(out)@) == texts(old(out)@) + variant_type_pieces(self@),
    {
        match self {
            EnumVariantType::TypeRef(name) => {
                push_owned_piece(out, name.to_text());
            },
            EnumVariantType::Structured(s) => {
                s.push_pieces(out);
            },
            EnumVariantType::Empty => {},
        }
        assert(texts(out@) =~= texts(old(out)@) + variant_type_pieces(self@));
    }

    /// The payload as it is displayed.
    pub fn to_display_string(&self) -> (s: String)
        ensures
            s@ == concat(variant_type_pieces(self@)),
    {
        let mut v: Vec<String> = Vec::new();
        self.push_pieces(&mut v);
        assert(texts(v@) =~= variant_type_pieces(self@));
        concat_pieces(&v)
    }
}

impl From<Ident> for EnumVariantType {
    fn from(name: Ident) -> (t: EnumVariantType) {
        EnumVariantType::TypeRef(name)
    }
}

impl vstd::std_specs::convert::FromSpecImpl<Ident> for EnumVariantType {
    open spec fn obeys_from_spec() -> bool {
        true
    }

    open spec fn from_spec(name: Ident) -> EnumVariantType {
        EnumVariantType::TypeRef(name)
    }
}

impl From<StructuredTypeDecl> for EnumVariantType {
    fn from(s: StructuredTypeDecl) -> (t: EnumVariantType) {
        EnumVariantType::Structured(s)
    }
}

impl vstd::std_specs::convert::FromSpecImpl<StructuredTypeDecl> for EnumVariantType {
    open spec fn obeys_from_spec() -> bool {
        true
    }

    open spec fn from_spec(s: StructuredTypeDecl) -> EnumVariantType {
        EnumVariantType::Structured(s)
    }
}

/// A variant of an enum type.
#[derive(Clone, Debug)]
pub struct EnumVariant {
    name: Ident,
    ty: EnumVariantType,
}

impl View for EnumVariant {
    type V = VariantView;

    closed spec fn view(&self) -> VariantView {
        VariantView { name: self.name@, ty: self.ty@ }
    }
}

impl EnumVariant {
    pub fn new(name: Ident, ty: EnumVariantType) -> (v: EnumVariant)
        ensures
            v@ == (VariantView { name: name@, ty: ty@ }),
    {
        EnumVariant { name, ty }
    }

    /// The name of the variant.
    pub fn name(&self) -> (n: &Ident)
        ensures
            n@ == self@.name,
    {
        &self.name
    }

    /// The payload of the variant.
    pub fn ty(&self) -> (t: &EnumVariantType)
        ensures
            t@ == self@.ty,
    {
        &self.ty
    }

    /// Appends the pieces that display the variant.
    pub fn push_pieces(&self, out: &mut Vec<String>)
        ensures
            texts(final(out)@) == texts(old(out)@) + variant_pieces(self@),
    {
        push_owned_piece(out, self.name.to_text());
        push_piece(out, " ");
        self.ty.push_pieces(out);
        assert(texts(out@) =~= texts(old(out)@) + variant_pieces(self@));
    }

    /// The variant as it is displayed.
    pub fn to_display_string(&self) -> (s: String)
        ensures
            s@ == concat(variant_pieces(self@)),
    {
        let mut v: Vec<String> = Vec::new();
        self.push_pieces(&mut v);
        assert(texts(v@) =~= variant_pieces(self@));
        concat_pieces(&v)
    }
}

/// The models of a run of variants.
pub open spec fn variant_views(vs: Seq<EnumVariant>) -> Seq<VariantView> {
    vs.map_values(|v: EnumVariant| v@)
}

/// An enum type: its variants, in the order written.
#[derive(Clone, Debug)]
pub struct EnumTypeDecl {
    variants: Vec<EnumVariant>,
}

impl View for EnumTypeDecl {
    type V = Seq<VariantView>;

    closed spec fn view(&self) -> Seq<VariantView> {
        variant_views(self.variants@)
    }
}

impl EnumTypeDecl {
    /// The variants, in the order written.
    pub fn variants(&self) -> (r: &[EnumVariant])
        ensures
            variant_views(r@) == self@,
    {
        self.variants.as_slice()
    }

    /// Appends the pieces that display the type.
    pub fn push_pieces(&self, out: &mut Vec<String>)
        ensures
            texts(final(out)@) == texts(old(out)@) + enum_pieces(self@),
    {
        push_piece(out, "\n");
        let ghost start = texts(out@);
        let mut i: usize = 0;
        assert(self@.take(0) =~= Seq::<VariantView>::empty());
        while i < self.variants.len()
            invariant
                i <= self.variants@.len(),
                self@ == variant_views(self.variants@),
                texts(out@) == start + variants_pieces(self@.take(i as int)),
            decreases self.variants@.len() - i,
        {
            push_piece(out, "| ");
            self.variants[i].push_pieces(out);
            push_piece(out, "\n");
            proof {
                assert(self@.take(i + 1).drop_last() =~= self@.take(i as int));
                assert(self@.take(i + 1).last() == self.variants@[i as int]@);
                assert(texts(out@) =~= start + variants_pieces(self@.take(i + 1)));
            }
            i += 1;
        }
        assert(self@.take(self.variants@.len() as int) =~= self@);
        assert(texts(out@) =~= texts(old(out)@) + enum_pieces(self@));
    }

    /// The type as it is displayed.
    pub fn to_display_string(&self) -> (s: String)
        ensures
            s@ == concat(enum_pieces(self@)),
    {
        let mut v: Vec<String> = Vec::new();
        self.push_pieces(&mut v);
        assert(texts(v@) =~= enum_pieces(self@));
        concat_pieces(&v)
    }
}

/// Collects the variants of an enum type.
pub struct EnumTypeDeclBuilder {
    variants: Vec<EnumVariant>,
}

impl View for EnumTypeDeclBuilder {
    type V = Seq<VariantView>;

    closed spec fn view(&self) -> Seq<VariantView> {
        variant_views(self.variants@)
    }
}

impl EnumTypeDeclBuilder {
    pub fn new() -> (b: EnumTypeDeclBuilder)
        ensures
            b@ == Seq::<VariantView>::empty(),
    {
        let b = EnumTypeDeclBuilder { variants: Vec::new() };
        assert(b@ =~= Seq::<VariantView>::empty());
        b
    }

    /// Adds a variant after those already added.
    pub fn add_variant(self, variant: EnumVariant) -> (b: EnumTypeDeclBuilder)
        ensures
            b@ == self@.push(variant@),
    {
        let ghost vv = variant@;
        let mut variants = self.variants;
        let ghost old_variants = variants@;
        variants.push(variant);
        let b = EnumTypeDeclBuilder { variants };
        assert(b@ =~= variant_views(old_variants).push(vv));
        b
    }

    /// The enum type with the variants added, in the order added.
    pub fn build(self) -> (d: EnumTypeDecl)
        ensures
            d@ == self@,
    {
        EnumTypeDecl { variants: self.variants }
    }
}

} // verus!
