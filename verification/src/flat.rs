//! Flattening leaves no definition nested in another.

use vstd::prelude::*;
use crate::attributes::{CompositeAttributeView, FieldAttributeView};
use crate::special_data::{BodyView, FieldView, FieldsView, SpecialView, VariantView};
use crate::token::TokenView;
use crate::ty::augmented::{ArgumentView, SegmentView};
use crate::ty::SpecialTypeView;
use crate::unpack::{
    plain_attributes, plain_field_attributes, unpack_angle_bracketed, unpack_argument,
    unpack_arguments, unpack_field, unpack_field_list, unpack_fields, unpack_path,
    unpack_path_arguments, unpack_path_type, unpack_segment, unpack_segments, unpack_special,
    unpack_type, unpack_variants,
};
use crate::unpack_context::{field_scoped, nested_scoped, resolve};

verus! {

/// Whether no attribute of the list has a modifier.
pub open spec fn attributes_are_plain(attrs: Seq<CompositeAttributeView>) -> bool {
    forall|i: int| 0 <= i < attrs.len() ==> (#[trigger] attrs[i]).modifier is None
}

/// Whether every attribute of the list applies to the field or variant
/// itself.
pub open spec fn field_attributes_are_plain(attrs: Seq<FieldAttributeView>) -> bool {
    forall|i: int| 0 <= i < attrs.len() ==> #[trigger] attrs[i] is Field
}

/// Whether no definition stands in the type and no generic hook in it.
pub open spec fn type_is_flat(ty: SpecialTypeView) -> bool
    decreases ty, 0nat,
{
    match ty {
        SpecialTypeView::Type(_) => true,
        SpecialTypeView::Def(_) => false,
        SpecialTypeView::Augmented(path) => segments_are_flat(path.path.segments),
    }
}

/// Whether no definition stands among the generic arguments of the
/// segments.
pub open spec fn segments_are_flat(segments: Seq<SegmentView>) -> bool
    decreases segments, 1nat,
{
    forall|i: int|
        0 <= i < segments.len() ==> match (#[trigger] segments[i]).arguments {
            None => true,
            Some(a) => arguments_are_flat(a.args),
        }
}

/// Whether no generic argument is or holds a definition, and none has a
/// generic hook.
pub open spec fn arguments_are_flat(args: Seq<ArgumentView>) -> bool
    decreases args, 1nat,
{
    forall|i: int| 0 <= i < args.len() ==> argument_is_flat(#[trigger] args[i])
}

/// Whether the generic argument neither is nor holds a definition, and has
/// no generic hook.
pub open spec fn argument_is_flat(a: ArgumentView) -> bool
    decreases a, 0nat,
{
    match a {
        ArgumentView::Type(ty, fish) => type_is_flat(ty) && fish is None,
        _ => true,
    }
}

/// Whether the field's type holds no definition, the field has no generic
/// hook, and all its attributes apply to itself.
pub open spec fn field_is_flat(f: FieldView) -> bool {
    type_is_flat(f.ty) && f.fish is None && field_attributes_are_plain(f.attrs)
}

/// Whether every field of the list is flat.
pub open spec fn field_list_is_flat(list: Seq<FieldView>) -> bool {
    forall|i: int| 0 <= i < list.len() ==> field_is_flat(#[trigger] list[i])
}

/// Whether every field of the group is flat.
pub open spec fn fields_are_flat(fields: FieldsView) -> bool {
    match fields {
        FieldsView::Named(list) => field_list_is_flat(list),
        FieldsView::Unnamed(list) => field_list_is_flat(list),
        FieldsView::Unit => true,
    }
}

/// Whether the fields of the variant are flat and all its attributes apply
/// to itself.
pub open spec fn variant_is_flat(v: VariantView) -> bool {
    fields_are_flat(v.fields) && field_attributes_are_plain(v.attrs)
}

/// Whether every variant of the list is flat.
pub open spec fn variants_are_flat(variants: Seq<VariantView>) -> bool {
    forall|i: int| 0 <= i < variants.len() ==> variant_is_flat(#[trigger] variants[i])
}

/// Whether the definition is flat: no definition is nested in it, it has no
/// generic hook and no attribute for nested definitions, and none of its
/// attributes has a modifier.
pub open spec fn special_is_flat(d: SpecialView) -> bool {
    attributes_are_plain(d.attrs) && match d.body {
        BodyView::Struct { fields, semi_token } => fields_are_flat(fields),
        BodyView::Enum { variants } => variants_are_flat(variants),
    }
}

/// Whether every definition of the list is flat.
pub open spec fn all_flat(list: Seq<SpecialView>) -> bool {
    forall|i: int| 0 <= i < list.len() ==> special_is_flat(#[trigger] list[i])
}

/// Two lists of flat definitions make one.
proof fn lemma_all_flat_add(a: Seq<SpecialView>, b: Seq<SpecialView>)
    requires
        all_flat(a),
        all_flat(b),
    ensures
        all_flat(a + b),
{
    assert forall|i: int| 0 <= i < (a + b).len() implies special_is_flat(#[trigger] (a + b)[i]) by {
        if i < a.len() {
            assert((a + b)[i] == a[i]);
        } else {
            assert((a + b)[i] == b[i - a.len()]);
        }
    }
}

/// Every definition that flattening gives is flat.
pub proof fn law_result_is_flat(
    d: SpecialView,
    inherited: Seq<Seq<TokenView>>,
    next: Seq<CompositeAttributeView>,
)
    requires
        unpack_special(d, inherited, next) is Ok,
    ensures
        all_flat(unpack_special(d, inherited, next)->Ok_0),
    decreases d, 0nat,
{
    let resolved = resolve(inherited, d.attrs + next)->Ok_0;
    let list = unpack_special(d, inherited, next)->Ok_0;
    assert(attributes_are_plain(plain_attributes(resolved.emitted)));
    match d.body {
        BodyView::Struct { fields, semi_token } => {
            lemma_fields_flat(fields, resolved.inherited, Seq::empty());
            let definitions = unpack_fields(fields, resolved.inherited, Seq::empty())->Ok_0.1;
            assert(list == seq![list[0]] + definitions);
            assert(all_flat(seq![list[0]]));
            lemma_all_flat_add(seq![list[0]], definitions);
        },
        BodyView::Enum { variants } => {
            lemma_variants_flat(variants, variants.len(), resolved.inherited);
            let definitions = unpack_variants(variants, variants.len(), resolved.inherited)->Ok_0.1;
            assert(list == seq![list[0]] + definitions);
            assert(all_flat(seq![list[0]]));
            lemma_all_flat_add(seq![list[0]], definitions);
        },
    }
}

proof fn lemma_variants_flat(variants: Seq<VariantView>, n: nat, inherited: Seq<Seq<TokenView>>)
    requires
        unpack_variants(variants, n, inherited) is Ok,
    ensures
        variants_are_flat(unpack_variants(variants, n, inherited)->Ok_0.0),
        all_flat(unpack_variants(variants, n, inherited)->Ok_0.1),
    decreases variants, n,
{
    if n == 0 || n > variants.len() {
    } else {
        lemma_variants_flat(variants, (n - 1) as nat, inherited);
        let v = variants[n - 1];
        lemma_fields_flat(v.fields, inherited, nested_scoped(v.attrs));
        let (done, before) = unpack_variants(variants, (n - 1) as nat, inherited)->Ok_0;
        let (fields, more) = unpack_fields(v.fields, inherited, nested_scoped(v.attrs))->Ok_0;
        lemma_all_flat_add(before, more);
        let rewritten = unpack_variants(variants, n, inherited)->Ok_0.0;
        assert(field_attributes_are_plain(plain_field_attributes(field_scoped(v.attrs))));
        assert forall|i: int| 0 <= i < rewritten.len() implies variant_is_flat(
            #[trigger] rewritten[i],
        ) by {
            if i < done.len() {
                assert(rewritten[i] == done[i]);
            }
        }
    }
}

proof fn lemma_fields_flat(
    fields: FieldsView,
    inherited: Seq<Seq<TokenView>>,
    from_variant: Seq<CompositeAttributeView>,
)
    requires
        unpack_fields(fields, inherited, from_variant) is Ok,
    ensures
        fields_are_flat(unpack_fields(fields, inherited, from_variant)->Ok_0.0),
        all_flat(unpack_fields(fields, inherited, from_variant)->Ok_0.1),
    decreases fields, 0nat,
{
    match fields {
        FieldsView::Named(list) => {
            lemma_field_list_flat(list, list.len(), inherited, from_variant);
        },
        FieldsView::Unnamed(list) => {
            lemma_field_list_flat(list, list.len(), inherited, from_variant);
        },
        FieldsView::Unit => {},
    }
}

proof fn lemma_field_list_flat(
    list: Seq<FieldView>,
    n: nat,
    inherited: Seq<Seq<TokenView>>,
    from_variant: Seq<CompositeAttributeView>,
)
    requires
        unpack_field_list(list, n, inherited, from_variant) is Ok,
    ensures
        field_list_is_flat(unpack_field_list(list, n, inherited, from_variant)->Ok_0.0),
        all_flat(unpack_field_list(list, n, inherited, from_variant)->Ok_0.1),
    decreases list, n,
{
    if n == 0 || n > list.len() {
    } else {
        lemma_field_list_flat(list, (n - 1) as nat, inherited, from_variant);
        let f = list[n - 1];
        let next = nested_scoped(f.attrs) + from_variant;
        assert(unpack_field(f, inherited, from_variant) is Ok);
        assert(unpack_type(f.ty, f.fish, inherited, next) is Ok);
        lemma_type_flat(f.ty, f.fish, inherited, next);
        let (done, before) = unpack_field_list(list, (n - 1) as nat, inherited, from_variant)->Ok_0;
        let (field, more) = unpack_field(f, inherited, from_variant)->Ok_0;
        lemma_all_flat_add(before, more);
        assert(field_attributes_are_plain(plain_field_attributes(field_scoped(f.attrs))));
        assert(field_is_flat(field));
        let rewritten = unpack_field_list(list, n, inherited, from_variant)->Ok_0.0;
        assert forall|i: int| 0 <= i < rewritten.len() implies field_is_flat(
            #[trigger] rewritten[i],
        ) by {
            if i < done.len() {
                assert(rewritten[i] == done[i]);
            }
        }
    }
}

proof fn lemma_type_flat(
    ty: SpecialTypeView,
    fish: Option<Seq<TokenView>>,
    inherited: Seq<Seq<TokenView>>,
    next: Seq<CompositeAttributeView>,
)
    requires
        unpack_type(ty, fish, inherited, next) is Ok,
    ensures
        type_is_flat(unpack_type(ty, fish, inherited, next)->Ok_0.0),
        all_flat(unpack_type(ty, fish, inherited, next)->Ok_0.1),
    decreases ty, 0nat,
{
    match ty {
        SpecialTypeView::Type(_) => {},
        SpecialTypeView::Def(special) => {
            law_result_is_flat(*special, inherited, next);
        },
        SpecialTypeView::Augmented(path) => {
            assert(unpack_path_type(path, inherited, next) is Ok);
            assert(unpack_path(path.path, inherited, next) is Ok);
            lemma_segments_flat(path.path.segments, path.path.segments.len(), inherited, next);
        },
    }
}

proof fn lemma_segments_flat(
    segments: Seq<SegmentView>,
    n: nat,
    inherited: Seq<Seq<TokenView>>,
    next: Seq<CompositeAttributeView>,
)
    requires
        unpack_segments(segments, n, inherited, next) is Ok,
    ensures
        segments_are_flat(unpack_segments(segments, n, inherited, next)->Ok_0.0),
        all_flat(unpack_segments(segments, n, inherited, next)->Ok_0.1),
    decreases segments, n,
{
    if n == 0 || n > segments.len() {
    } else {
        lemma_segments_flat(segments, (n - 1) as nat, inherited, next);
        let s = segments[n - 1];
        assert(unpack_segment(s, inherited, next) is Ok);
        assert(unpack_path_arguments(s.arguments, inherited, next) is Ok);
        let (done, before) = unpack_segments(segments, (n - 1) as nat, inherited, next)->Ok_0;
        let (segment, more) = unpack_segment(s, inherited, next)->Ok_0;
        match s.arguments {
            None => {},
            Some(a) => {
                assert(unpack_angle_bracketed(a, inherited, next) is Ok);
                lemma_arguments_flat(a.args, a.args.len(), inherited, next);
            },
        }
        lemma_all_flat_add(before, more);
        let rewritten = unpack_segments(segments, n, inherited, next)->Ok_0.0;
        assert forall|i: int| 0 <= i < rewritten.len() implies match (
        #[trigger] rewritten[i]).arguments {
            None => true,
            Some(a) => arguments_are_flat(a.args),
        } by {
            if i < done.len() {
                assert(rewritten[i] == done[i]);
            }
        }
    }
}

proof fn lemma_arguments_flat(
    args: Seq<ArgumentView>,
    n: nat,
    inherited: Seq<Seq<TokenView>>,
    next: Seq<CompositeAttributeView>,
)
    requires
        unpack_arguments(args, n, inherited, next) is Ok,
    ensures
        arguments_are_flat(unpack_arguments(args, n, inherited, next)->Ok_0.0),
        all_flat(unpack_arguments(args, n, inherited, next)->Ok_0.1),
    decreases args, n,
{
    if n == 0 || n > args.len() {
    } else {
        lemma_arguments_flat(args, (n - 1) as nat, inherited, next);
        assert(unpack_argument(args[n - 1], inherited, next) is Ok);
        let (done, before) = unpack_arguments(args, (n - 1) as nat, inherited, next)->Ok_0;
        let (argument, more) = unpack_argument(args[n - 1], inherited, next)->Ok_0;
        match args[n - 1] {
            ArgumentView::Type(ty, fish) => {
                lemma_type_flat(ty, fish, inherited, next);
            },
            _ => {},
        }
        lemma_all_flat_add(before, more);
        assert(argument_is_flat(argument));
        let rewritten = unpack_arguments(args, n, inherited, next)->Ok_0.0;
        assert forall|i: int| 0 <= i < rewritten.len() implies argument_is_flat(
            #[trigger] rewritten[i],
        ) by {
            if i < done.len() {
                assert(rewritten[i] == done[i]);
            }
        }
    }
}

} // verus!
