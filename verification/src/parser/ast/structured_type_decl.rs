//! Structured types: a brace-delimited list of named, typed fields.
use vstd::prelude::*;
use crate::parser::ast::code_formatter::{concat, concat_pieces, push_owned_piece, push_piece, texts};
use crate::parser::ast::type_expr::TypeExpression;
use crate::parser::token::ident::Ident;

verus! {

/// The model of a field: its name and the name of its type.
pub struct FieldView {
    pub name: Seq<char>,
    pub ty: Seq<char>,
}

/// One field of a structured type, `name: type`.
#[derive(Clone, Debug)]
pub struct StructuredTypeField {
    name: Ident,
    ty: TypeExpression,
}

impl View for StructuredTypeField {
    type V = FieldView;

    closed spec fn view(&self) -> FieldView {
        FieldView { name: self.name@, ty: self.ty@ }
    }
}

/// The pieces that display a field.
pub open spec fn field_pieces(f: FieldView) -> Seq<Seq<char>> {
    seq![f.name, ": "@, f.ty]
}

/// The models of a run of fields.
pub open spec fn field_views(fields: Seq<StructuredTypeField>) -> Seq<FieldView> {
    fields.map_values(|f: StructuredTypeField| f@)
}

/// The pieces of the fields, each followed by a line break.
pub open spec fn fields_pieces(fields: Seq<FieldView>) -> Seq<Seq<char>>
    decreases fields.len(),
{
    if fields.len() == 0 {
        Seq::empty()
    } else {
        fields_pieces(fields.drop_last()) + field_pieces(fields.last()) + seq!["\n"@]
    }
}

/// The pieces that display a structured type: the fields between braces,
/// one per line.
pub open spec fn structured_pieces(fields: Seq<FieldView>) -> Seq<Seq<char>> {
    seq!["{\n"@] + fields_pieces(fields) + seq!["}"@]
}

impl StructuredTypeField {
    pub fn new(name: Ident, ty: TypeExpression) -> (f: StructuredTypeField)
        ensures
            f@ == (FieldView { name: name@, ty: ty@ }),
    {
        StructuredTypeField { name, ty }
    }

    /// The name of the field.
    pub fn name(&self) -> (n: &Ident)
        ensures
            n@ == self@.name,
    {
        &self.name
    }

    /// The type of the field.
    pub fn ty(&self) -> (t: &TypeExpression)
        ensures
            t@ == self@.ty,
    {
        &self.ty
    }

    /// Appends the pieces that display the field.
    pub fn push_pieces(&self, out: &mut Vec<String>)
        ensures
            texts(final(out)@) == texts(old(out)@) + field_pieces(self@),
    {
        push_owned_piece(out, self.name.to_text());
        push_piece(out, ": ");
        self.ty.push_pieces(out);
        assert(texts(out@) =~= texts(old(out)@) + field_pieces(self@));
    }

    /// The field as it is displayed.
    pub fn to_display_string(&self) -> (s: String)
        ensures
            s@ == concat(field_pieces(self@)),
    {
        let mut v: Vec<String> = Vec::new();
        self.push_pieces(&mut v);
        assert(texts(v@) =~= field_pieces(self@));
        concat_pieces(&v)
    }
}

/// A structured type: its fields, in the order written.
#[derive(Clone, Debug)]
pub struct StructuredTypeDecl {
    fields: Vec<StructuredTypeField>,
}

impl View for StructuredTypeDecl {
    type V = Seq<FieldView>;

    closed spec fn view(&self) -> Seq<FieldView> {
        field_views(self.fields@)
    }
}

/// Appends the pieces of `fields`, each followed by a line break.
fn push_fields_pieces(fields: &Vec<StructuredTypeField>, out: &mut Vec<String>)
    ensures
        texts(final(out)@) == texts(old(out)@) + fields_pieces(field_views(fields@)),
{
    let mut i: usize = 0;
    assert(field_views(fields@).take(0) =~= Seq::<FieldView>::empty());
    while i < fields.len()
        invariant
            i <= fields@.len(),
            texts(out@) == texts(old(out)@) + fields_pieces(field_views(fields@).take(i as int)),
        decreases fields@.len() - i,
    {
        let ghost before = texts(out@);
        fields[i].push_pieces(out);
        push_piece(out, "\n");
        proof {
            let all = field_views(fields@);
            assert(all.take(i + 1).drop_last() =~= all.take(i as int));
            assert(all.take(i + 1).last() == fields@[i as int]@);
            assert(texts(out@) =~= texts(old(out)@) + fields_pieces(all.take(i + 1)));
        }
        i += 1;
    }
    assert(field_views(fields@).take(fields@.len() as int) =~= field_views(fields@));
}

impl StructuredTypeDecl {
    /// The fields, in the order written.
    pub fn fields(&self) -> (r: &[StructuredTypeField])
        ensures
            field_views(r@) == self@,
    {
        self.fields.as_slice()
    }

    /// Appends the pieces that display the type.
    pub fn push_pieces(&self, out: &mut Vec<String>)
        ensures
            texts(final(out)@) == texts(old(out)@) + structured_pieces(self@),
    {
        push_piece(out, "{\n");
        push_fields_pieces(&self.fields, out);
        push_piece(out, "}");
        assert(texts(out@) =~= texts(old(out)@) + structured_pieces(self@));
    }

    /// The type as it is displayed.
    pub fn to_display_string(&self) -> (s: String)
        ensures
            s@ == concat(structured_pieces(self@)),
    {
        let mut v: Vec<String> = Vec::new();
        self.push_pieces(&mut v);
        assert(texts(v@) =~= structured_pieces(self@));
        concat_pieces(&v)
    }
}

/// Collects the fields of a structured type.
pub struct StructuredTypeDeclBuilder {
    fields: Vec<StructuredTypeField>,
}

impl View for StructuredTypeDeclBuilder {
    type V = Seq<FieldView>;

    closed spec fn view(&self) -> Seq<FieldView> {
        field_views(self.fields@)
    }
}

impl StructuredTypeDeclBuilder {
    pub fn new() -> (b: StructuredTypeDeclBuilder)
        ensures
            b@ == Seq::<FieldView>::empty(),
    {
        let b = StructuredTypeDeclBuilder { fields: Vec::new() };
        assert(b@ =~= Seq::<FieldView>::empty());
        b
    }

    /// Adds a field after those already added.
    pub fn add_field(self, field: StructuredTypeField) -> (b: StructuredTypeDeclBuilder)
        ensures
            b@ == self@.push(field@),
    {
        let ghost fv = field@;
        let mut fields = self.fields;
        let ghost old_fields = fields@;
        fields.push(field);
        let b = StructuredTypeDeclBuilder { fields };
        assert(b@ =~= field_views(old_fields).push(fv));
        b
    }

    /// The structured type with the fields added, in the order added.
    pub fn build(self) -> (d: StructuredTypeDecl)
        ensures
            d@ == self@,
    {
        StructuredTypeDecl { fields: self.fields }
    }
}

} // verus!
