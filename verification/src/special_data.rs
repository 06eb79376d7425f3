//! The grammar model: a definition, its body, its variants and its fields.

use vstd::prelude::*;
use crate::attributes::{
    CompositeAttribute, CompositeAttributeView, FieldAttribute, FieldAttributeView,
};
use crate::discriminant::Discriminant;
use crate::fish::FishHook;

use crate::token::{Token, TokenView};
use crate::ty::{SpecialType, SpecialTypeView, type_view};

verus! {

/// A `struct` or `enum` definition whose field types may themselves be
/// definitions.
#[derive(Debug)]
pub struct Special {
    pub attrs: Vec<CompositeAttribute>,
    /// The visibility, as written; empty where none is written.
    pub vis: Vec<Token>,
    pub ident: String,
    /// The generic parameters, from `<` to `>`; empty where none are written.
    pub generics: Vec<Token>,
    /// The `where` clause, from `where` on; empty where none is written.
    pub where_clause: Vec<Token>,
    pub body: Body,
}

/// The body of a definition.
#[derive(Debug)]
pub enum Body {
    Struct(BodyStruct),
    Enum(BodyEnum),
}

/// The body of a `struct`.
#[derive(Debug)]
pub struct BodyStruct {
    pub fields: SpecialFields,
    /// Whether a semicolon closes the definition.
    pub semi_token: bool,
}

/// The body of an `enum`.
#[derive(Debug)]
pub struct BodyEnum {
    pub variants: Vec<SpecialVariant>,
}

/// An enum variant.
#[derive(Debug)]
pub struct SpecialVariant {
    pub attrs: Vec<FieldAttribute>,
    pub ident: String,
    pub fields: SpecialFields,
    pub discriminant: Option<Discriminant>,
}

/// The fields of a struct or of an enum variant.
#[derive(Debug)]
pub enum SpecialFields {
    /// `{ a: A, b: B }`
    Named(FieldsNamed),
    /// `(A, B)`
    Unnamed(FieldsUnnamed),
    /// No fields.
    Unit,
}

/// Named fields, in the order in which they are written.
#[derive(Debug)]
pub struct FieldsNamed {
    pub named: Vec<SpecialField>,
}

/// Unnamed fields, in the order in which they are written.
#[derive(Debug)]
pub struct FieldsUnnamed {
    pub unnamed: Vec<SpecialField>,
}

/// A field of a struct or of an enum variant.
#[derive(Debug)]
pub struct SpecialField {
    pub attrs: Vec<FieldAttribute>,
    /// The visibility, as written; empty where none is written.
    pub vis: Vec<Token>,
    /// The name of a named field.
    pub ident: Option<String>,
    pub ty: SpecialType,
    /// The generic hook; it follows a nested definition only.
    pub fish: Option<FishHook>,
}

/// The mathematical value of a [`Special`].
pub struct SpecialView {
    pub attrs: Seq<CompositeAttributeView>,
    pub vis: Seq<TokenView>,
    pub ident: Seq<char>,
    pub generics: Seq<TokenView>,
    pub where_clause: Seq<TokenView>,
    pub body: BodyView,
}

/// The mathematical value of a [`Body`].
pub enum BodyView {
    Struct { fields: FieldsView, semi_token: bool },
    Enum { variants: Seq<VariantView> },
}

/// The mathematical value of a [`SpecialVariant`].
pub struct VariantView {
    pub attrs: Seq<FieldAttributeView>,
    pub ident: Seq<char>,
    pub fields: FieldsView,
    pub discriminant: Option<Seq<TokenView>>,
}

/// The mathematical value of a [`SpecialFields`].
pub enum FieldsView {
    Named(Seq<FieldView>),
    Unnamed(Seq<FieldView>),
    Unit,
}

/// The mathematical value of a [`SpecialField`].
pub struct FieldView {
    pub attrs: Seq<FieldAttributeView>,
    pub vis: Seq<TokenView>,
    pub ident: Option<Seq<char>>,
    pub ty: SpecialTypeView,
    pub fish: Option<Seq<TokenView>>,
}

/// The value of a definition.
pub open spec fn special_view(s: Special) -> SpecialView
    decreases s,
{
    SpecialView {
        attrs: s.attrs.deep_view(),
        vis: s.vis.deep_view(),
        ident: s.ident@,
        generics: s.generics.deep_view(),
        where_clause: s.where_clause.deep_view(),
        body: body_view(s.body),
    }
}

/// The value of a body.
pub open spec fn body_view(b: Body) -> BodyView
    decreases b,
{
    match b {
        Body::Struct(b) => BodyView::Struct {
            fields: fields_view(b.fields),
            semi_token: b.semi_token,
        },
        Body::Enum(b) => BodyView::Enum { variants: variant_list_view(b.variants@) },
    }
}

/// The values of the variants of a list.
pub open spec fn variant_list_view(vs: Seq<SpecialVariant>) -> Seq<VariantView>
    decreases vs,
{
    Seq::new(
        vs.len(),
        |i: int|
            if 0 <= i < vs.len() {
                variant_view(vs[i])
            } else {
                arbitrary()
            },
    )
}

/// The value of a variant.
pub open spec fn variant_view(v: SpecialVariant) -> VariantView
    decreases v,
{
    VariantView {
        attrs: v.attrs.deep_view(),
        ident: v.ident@,
        fields: fields_view(v.fields),
        discriminant: v.discriminant.deep_view(),
    }
}

/// The value of a group of fields.
pub open spec fn fields_view(f: SpecialFields) -> FieldsView
    decreases f,
{
    match f {
        SpecialFields::Named(n) => FieldsView::Named(field_list_view(n.named@)),
        SpecialFields::Unnamed(u) => FieldsView::Unnamed(field_list_view(u.unnamed@)),
        SpecialFields::Unit => FieldsView::Unit,
    }
}

/// The values of the fields of a list.
pub open spec fn field_list_view(fs: Seq<SpecialField>) -> Seq<FieldView>
    decreases fs,
{
    Seq::new(
        fs.len(),
        |i: int|
            if 0 <= i < fs.len() {
                field_view(fs[i])
            } else {
                arbitrary()
            },
    )
}

/// The value of a field.
pub open spec fn field_view(f: SpecialField) -> FieldView
    decreases f,
{
    FieldView {
        attrs: f.attrs.deep_view(),
        vis: f.vis.deep_view(),
        ident: f.ident.deep_view(),
        ty: type_view(f.ty),
        fish: f.fish.deep_view(),
    }
}

impl DeepView for Special {
    type V = SpecialView;

    open spec fn deep_view(&self) -> SpecialView {
        special_view(*self)
    }
}

impl DeepView for Body {
    type V = BodyView;

    open spec fn deep_view(&self) -> BodyView {
        body_view(*self)
    }
}

impl DeepView for FieldsNamed {
    type V = Seq<FieldView>;

    open spec fn deep_view(&self) -> Seq<FieldView> {
        field_list_view(self.named@)
    }
}

impl DeepView for FieldsUnnamed {
    type V = Seq<FieldView>;

    open spec fn deep_view(&self) -> Seq<FieldView> {
        field_list_view(self.unnamed@)
    }
}

impl DeepView for SpecialVariant {
    type V = VariantView;

    open spec fn deep_view(&self) -> VariantView {
        variant_view(*self)
    }
}

impl DeepView for SpecialFields {
    type V = FieldsView;

    open spec fn deep_view(&self) -> FieldsView {
        fields_view(*self)
    }
}

impl DeepView for SpecialField {
    type V = FieldView;

    open spec fn deep_view(&self) -> FieldView {
        field_view(*self)
    }
}

/// The value of a list of fields holds the values of its fields.
pub proof fn lemma_field_list_view(fs: Vec<SpecialField>)
    ensures
        field_list_view(fs@) == fs.deep_view(),
{
    assert(field_list_view(fs@) =~= fs.deep_view());
}

/// The value of a list of variants holds the values of its variants.
pub proof fn lemma_variant_list_view(vs: Vec<SpecialVariant>)
    ensures
        variant_list_view(vs@) == vs.deep_view(),
{
    assert(variant_list_view(vs@) =~= vs.deep_view());
}

} // verus!
