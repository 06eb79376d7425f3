//! From the grammar model back to tokens.

use vstd::prelude::*;
use crate::attributes::{CompositeAttributeView, FieldAttributeView};

use crate::special_data::{BodyView, FieldView, FieldsView, SpecialView, VariantView};
use crate::token::{Delimiter, TokenView};
use crate::ty::augmented::{ArgumentView, PathView, QSelfView, SegmentView, Type, TypePathView};
use crate::ty::SpecialTypeView;

verus! {

/// The punctuation character `c`, with space after it.
pub open spec fn punct(c: char) -> TokenView {
    TokenView::Punct(c, false)
}

/// The two tokens of `::`.
pub open spec fn path_separator() -> Seq<TokenView> {
    seq![TokenView::Punct(':', true), TokenView::Punct(':', false)]
}

/// The tokens of an attribute with the given payload: `#[meta]`.
pub open spec fn attribute_tokens(meta: Seq<TokenView>) -> Seq<TokenView> {
    seq![punct('#'), TokenView::Group(Delimiter::Bracket, meta)]
}

/// The tokens of the first `n` attributes of a definition, each without its
/// modifier.
pub open spec fn composite_tokens(attrs: Seq<CompositeAttributeView>, n: nat) -> Seq<TokenView>
    decreases n,
{
    if n == 0 || n > attrs.len() {
        Seq::empty()
    } else {
        composite_tokens(attrs, (n - 1) as nat) + attribute_tokens(attrs[n - 1].meta)
    }
}

/// The payload of an attribute of a field or variant.
pub open spec fn field_attribute_meta(a: FieldAttributeView) -> Seq<TokenView> {
    match a {
        FieldAttributeView::Nested(c) => c.meta,
        FieldAttributeView::Field(meta) => meta,
    }
}

/// The tokens of the first `n` attributes of a field or variant, each as
/// `#[meta]`.
pub open spec fn field_attribute_tokens(attrs: Seq<FieldAttributeView>, n: nat) -> Seq<TokenView>
    decreases n,
{
    if n == 0 || n > attrs.len() {
        Seq::empty()
    } else {
        field_attribute_tokens(attrs, (n - 1) as nat) + attribute_tokens(
            field_attribute_meta(attrs[n - 1]),
        )
    }
}

/// The tokens of a generic hook after a type: `||` and the arguments, or
/// nothing.
pub open spec fn hook_tokens(fish: Option<Seq<TokenView>>) -> Seq<TokenView> {
    match fish {
        Some(generics) => seq![TokenView::Punct('|', true), punct('|')] + generics,
        None => Seq::empty(),
    }
}

/// The tokens of a discriminant: `=` and the expression, or nothing.
pub open spec fn discriminant_tokens(d: Option<Seq<TokenView>>) -> Seq<TokenView> {
    match d {
        Some(expr) => seq![punct('=')] + expr,
        None => Seq::empty(),
    }
}

/// The tokens of a definition.
pub open spec fn special_tokens(d: SpecialView) -> Seq<TokenView>
    decreases d, 1nat,
{
    let head = composite_tokens(d.attrs, d.attrs.len()) + d.vis;
    match d.body {
        BodyView::Struct { fields, semi_token } => head + seq![
            TokenView::Ident("struct"@),
            TokenView::Ident(d.ident),
        ] + d.generics + struct_body_tokens(d.where_clause, fields),
        BodyView::Enum { variants } => head + seq![
            TokenView::Ident("enum"@),
            TokenView::Ident(d.ident),
        ] + d.generics + d.where_clause + seq![
            TokenView::Group(Delimiter::Brace, variant_list_tokens(variants, variants.len())),
        ],
    }
}

/// The tokens that follow the generic parameters of a `struct`: the
/// `where` clause before named fields; unnamed fields, the `where` clause
/// and a semicolon; or the `where` clause and a semicolon.
pub open spec fn struct_body_tokens(where_clause: Seq<TokenView>, fields: FieldsView) -> Seq<
    TokenView,
>
    decreases fields, 1nat,
{
    match fields {
        FieldsView::Named(list) => where_clause + fields_tokens(fields),
        FieldsView::Unnamed(list) => fields_tokens(fields) + where_clause + seq![punct(';')],
        FieldsView::Unit => where_clause + seq![punct(';')],
    }
}

/// The tokens of the first `n` variants, separated by `,`.
pub open spec fn variant_list_tokens(variants: Seq<VariantView>, n: nat) -> Seq<TokenView>
    decreases variants, n,
{
    if n == 0 || n > variants.len() {
        Seq::empty()
    } else {
        variant_list_tokens(variants, (n - 1) as nat) + (if n > 1 {
            seq![punct(',')]
        } else {
            Seq::empty()
        }) + variant_tokens(variants[n - 1])
    }
}

/// The tokens of a variant.
pub open spec fn variant_tokens(v: VariantView) -> Seq<TokenView>
    decreases v, 0nat,
{
    field_attribute_tokens(v.attrs, v.attrs.len()) + seq![TokenView::Ident(v.ident)]
        + fields_tokens(v.fields) + discriminant_tokens(v.discriminant)
}

/// The tokens of a group of fields: the fields in braces or in parentheses,
/// or nothing.
pub open spec fn fields_tokens(fields: FieldsView) -> Seq<TokenView>
    decreases fields, 0nat,
{
    match fields {
        FieldsView::Named(list) => seq![
            TokenView::Group(Delimiter::Brace, field_list_tokens(list, list.len())),
        ],
        FieldsView::Unnamed(list) => seq![
            TokenView::Group(Delimiter::Parenthesis, field_list_tokens(list, list.len())),
        ],
        FieldsView::Unit => Seq::empty(),
    }
}

/// The tokens of the first `n` fields, separated by `,`.
pub open spec fn field_list_tokens(list: Seq<FieldView>, n: nat) -> Seq<TokenView>
    decreases list, n,
{
    if n == 0 || n > list.len() {
        Seq::empty()
    } else {
        field_list_tokens(list, (n - 1) as nat) + (if n > 1 {
            seq![punct(',')]
        } else {
            Seq::empty()
        }) + field_tokens(list[n - 1])
    }
}

/// The tokens of the name of a named field and of the `:` after it.
pub open spec fn name_tokens(ident: Option<Seq<char>>) -> Seq<TokenView> {
    match ident {
        Some(name) => seq![TokenView::Ident(name), punct(':')],
        None => Seq::empty(),
    }
}

/// The tokens of a field: attributes, visibility, the name and `:` where it
/// has a name, the type, and the generic hook.
pub open spec fn field_tokens(f: FieldView) -> Seq<TokenView>
    decreases f, 0nat,
{
    field_attribute_tokens(f.attrs, f.attrs.len()) + f.vis + name_tokens(f.ident) + type_tokens(
        f.ty,
    ) + hook_tokens(f.fish)
}

/// The tokens of a type. An ordinary type is its own tokens.
pub open spec fn type_tokens(ty: SpecialTypeView) -> Seq<TokenView>
    decreases ty, 0nat,
{
    match ty {
        SpecialTypeView::Type(tokens) => tokens,
        SpecialTypeView::Def(special) => special_tokens(*special),
        SpecialTypeView::Augmented(path) => path_type_tokens(path),
    }
}

/// How many segments of a path stand inside its qualified self type.
pub open spec fn qualified_segments(q: QSelfView, path: PathView) -> nat {
    if q.position <= path.segments.len() {
        q.position as nat
    } else {
        path.segments.len()
    }
}

/// The `::` before a path that starts with it.
pub open spec fn leading_tokens(path: PathView) -> Seq<TokenView> {
    if path.leading_colon {
        path_separator()
    } else {
        Seq::empty()
    }
}

/// The tokens of a path type: `<T as Trait>::Name` with a qualified self
/// type, else the path.
pub open spec fn path_type_tokens(p: TypePathView) -> Seq<TokenView>
    decreases p, 2nat,
{
    match p.qself {
        None => path_tokens(p.path),
        Some(q) => if qualified_segments(q, p.path) > 0 {
            qualified_as_tokens(q, p.path)
        } else {
            seq![punct('<')] + q.ty + seq![punct('>')] + path_tokens(p.path)
        },
    }
}

/// The tokens of a path: an optional `::`, then the segments separated by
/// `::`.
pub open spec fn path_tokens(path: PathView) -> Seq<TokenView>
    decreases path, 0nat,
{
    leading_tokens(path) + segment_list_tokens(path.segments, 0, path.segments.len())
}

/// The tokens of a path whose first segments stand inside its qualified
/// self type: `<T as Trait>`, then `::` and the segments that are left.
pub open spec fn qualified_as_tokens(q: QSelfView, path: PathView) -> Seq<TokenView>
    decreases path, 1nat,
{
    let inside = qualified_segments(q, path);
    seq![punct('<')] + q.ty + seq![TokenView::Ident("as"@)] + leading_tokens(path)
        + segment_list_tokens(path.segments, 0, inside) + seq![punct('>')] + (if inside
        < path.segments.len() {
        path_separator()
    } else {
        Seq::empty()
    }) + segment_list_tokens(path.segments, inside, path.segments.len())
}

/// The tokens of the segments from index `from` up to, not including,
/// index `to`, separated by `::`.
pub open spec fn segment_list_tokens(segments: Seq<SegmentView>, from: nat, to: nat) -> Seq<
    TokenView,
>
    decreases segments, to,
{
    if to <= from || to > segments.len() {
        Seq::empty()
    } else {
        segment_list_tokens(segments, from, (to - 1) as nat) + (if to - 1 > from {
            path_separator()
        } else {
            Seq::empty()
        }) + segment_tokens(segments[to - 1])
    }
}

/// The tokens of a path segment: the name, and the generic arguments
/// between `<` and `>`.
pub open spec fn segment_tokens(s: SegmentView) -> Seq<TokenView>
    decreases s, 0nat,
{
    seq![TokenView::Ident(s.ident)] + match s.arguments {
        None => Seq::empty(),
        Some(a) => (if a.colon2_token {
            path_separator()
        } else {
            Seq::empty()
        }) + seq![punct('<')] + argument_list_tokens(a.args, a.args.len()) + seq![punct('>')],
    }
}

/// The tokens of the first `n` generic arguments, separated by `,`.
pub open spec fn argument_list_tokens(args: Seq<ArgumentView>, n: nat) -> Seq<TokenView>
    decreases args, n,
{
    if n == 0 || n > args.len() {
        Seq::empty()
    } else {
        argument_list_tokens(args, (n - 1) as nat) + (if n > 1 {
            seq![punct(',')]
        } else {
            Seq::empty()
        }) + argument_tokens(args[n - 1])
    }
}

/// The tokens of a generic argument.
pub open spec fn argument_tokens(a: ArgumentView) -> Seq<TokenView>
    decreases a, 0nat,
{
    match a {
        ArgumentView::Lifetime(t) => t,
        ArgumentView::Type(ty, fish) => type_tokens(ty) + hook_tokens(fish),
        ArgumentView::Const(t) => t,
        ArgumentView::AssocType(t) => t,
        ArgumentView::AssocConst(t) => t,
        ArgumentView::Constraint(t) => t,
    }
}

/// The tokens of the first `n` definitions of a list, one after the other.
pub open spec fn definition_list_tokens(list: Seq<SpecialView>, n: nat) -> Seq<TokenView>
    decreases n,
{
    if n == 0 || n > list.len() {
        Seq::empty()
    } else {
        definition_list_tokens(list, (n - 1) as nat) + special_tokens(list[n - 1])
    }
}

} // verus!
