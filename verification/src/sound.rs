//! What holds of everything that the grammar reads: it lies within the
//! tokens, and a generic hook in it follows a definition and has arguments.

use vstd::prelude::*;
use crate::error::ParseErrorView;
use crate::attributes::{CompositeAttributeView, FieldAttributeView};
use crate::grammar::{
    angle_at, angle_body_at, argument_at, arguments_from, as_path_at, composite_at, composites_from,
    data_enum_at, data_struct_at, definition_of, field_at, field_attribute_at,
    field_attributes_from, field_name_at, fields_from, group_at, hook_after, maybe_path_at,
    named_fields_at, path_at, punct_at, qpath_at, qualified, qualified_rest_at, remaining,
    segment_at, segments_from, special_at, special_type_at, tuple_struct_at, unnamed_fields_at,
    variant_at, variant_fields_at, variants_from, where_at,
};
use crate::source::{Syntax, host_count, may_be_empty};
use crate::special_data::{BodyView, FieldView, FieldsView, SpecialView, VariantView};
use crate::token::{Delimiter, TokenView};
use crate::ty::augmented::{ArgumentView, SegmentView};
use crate::ty::SpecialTypeView;

verus! {

/// Whether a generic hook, where there is one, follows a definition and has
/// arguments between its brackets.
pub open spec fn hook_is_sound(ty: SpecialTypeView, fish: Option<Seq<TokenView>>) -> bool {
    fish matches Some(generics) ==> ty is Def && generics.len() > 2
}

/// Whether every generic hook in the type is sound.
pub open spec fn type_is_sound(ty: SpecialTypeView) -> bool
    decreases ty, 0nat,
{
    match ty {
        SpecialTypeView::Type(_) => true,
        SpecialTypeView::Def(d) => special_is_sound(*d),
        SpecialTypeView::Augmented(path) => segments_are_sound(path.path.segments),
    }
}

/// Whether every generic hook among the generic arguments of the segments
/// is sound.
pub open spec fn segments_are_sound(segments: Seq<SegmentView>) -> bool
    decreases segments, 1nat,
{
    forall|i: int|
        0 <= i < segments.len() ==> match (#[trigger] segments[i]).arguments {
            None => true,
            Some(a) => arguments_are_sound(a.args),
        }
}

/// Whether every generic hook among the generic arguments is sound.
pub open spec fn arguments_are_sound(args: Seq<ArgumentView>) -> bool
    decreases args, 1nat,
{
    forall|i: int| 0 <= i < args.len() ==> argument_is_sound(#[trigger] args[i])
}

/// Whether every generic hook in the generic argument is sound.
pub open spec fn argument_is_sound(a: ArgumentView) -> bool
    decreases a, 0nat,
{
    match a {
        ArgumentView::Type(ty, fish) => type_is_sound(ty) && hook_is_sound(ty, fish),
        _ => true,
    }
}

/// Whether every generic hook in the field is sound.
pub open spec fn field_is_sound(f: FieldView) -> bool
    decreases f, 0nat,
{
    type_is_sound(f.ty) && hook_is_sound(f.ty, f.fish)
}

/// Whether every generic hook in the fields of the list is sound.
pub open spec fn field_list_is_sound(list: Seq<FieldView>) -> bool
    decreases list, 1nat,
{
    forall|i: int| 0 <= i < list.len() ==> field_is_sound(#[trigger] list[i])
}

/// Whether every generic hook in the group of fields is sound.
pub open spec fn fields_are_sound(fields: FieldsView) -> bool
    decreases fields, 2nat,
{
    match fields {
        FieldsView::Named(list) => field_list_is_sound(list),
        FieldsView::Unnamed(list) => field_list_is_sound(list),
        FieldsView::Unit => true,
    }
}

/// Whether every generic hook in the variants is sound.
pub open spec fn variants_are_sound(variants: Seq<VariantView>) -> bool
    decreases variants, 1nat,
{
    forall|i: int| 0 <= i < variants.len() ==> fields_are_sound((#[trigger] variants[i]).fields)
}

/// Whether every generic hook in the definition is sound.
pub open spec fn special_is_sound(d: SpecialView) -> bool
    decreases d, 0nat,
{
    match d.body {
        BodyView::Struct { fields, semi_token } => fields_are_sound(fields),
        BodyView::Enum { variants } => variants_are_sound(variants),
    }
}

/// Whether what was read at index `pos` lies within the tokens.
pub open spec fn within<T>(
    r: Result<(T, nat), ParseErrorView>,
    ts: Seq<TokenView>,
    pos: int,
) -> bool {
    r matches Ok((_, n)) ==> pos + n <= ts.len()
}

/// A construct of the host language lies within the tokens, and takes at
/// least one token unless it can be empty.
pub proof fn lemma_host_within(syntax: Syntax, ts: Seq<TokenView>, pos: int)
    ensures
        host_count(syntax, ts, pos) matches Some(n) ==> 0 <= pos && pos + n <= ts.len() && (n > 0
            || may_be_empty(syntax)),
{
    reveal(host_count);
}

/// A run of attributes of a definition lies within the tokens.
pub proof fn lemma_composites_within(
    ts: Seq<TokenView>,
    pos: int,
    acc: Seq<CompositeAttributeView>,
)
    requires
        0 <= pos <= ts.len(),
    ensures
        within(composites_from(ts, pos, acc), ts, pos),
    decreases remaining(ts, pos),
{
    if let Ok((a, n)) = composite_at(ts, pos) {
        lemma_composites_within(ts, pos + n, acc.push(a));
    }
}

/// A run of attributes of a field or variant lies within the tokens.
pub proof fn lemma_field_attributes_within(
    ts: Seq<TokenView>,
    pos: int,
    acc: Seq<FieldAttributeView>,
)
    requires
        0 <= pos <= ts.len(),
    ensures
        within(field_attributes_from(ts, pos, acc), ts, pos),
    decreases remaining(ts, pos),
{
    if let Ok((a, n)) = field_attribute_at(ts, pos) {
        lemma_field_attributes_within(ts, pos + n, acc.push(a));
    }
}

/// The generic hook after a type lies within the tokens; it follows a
/// definition only and has arguments.
pub proof fn lemma_hook_sound(ts: Seq<TokenView>, pos: int, ty: SpecialTypeView)
    requires
        0 <= pos <= ts.len(),
    ensures
        within(hook_after(ts, pos, ty is Def), ts, pos),
        hook_after(ts, pos, ty is Def) matches Ok((fish, _)) ==> hook_is_sound(ty, fish),
{
    lemma_host_within(Syntax::AngleArguments, ts, pos + 2);
}

/// A definition that the grammar reads lies within the tokens and takes at
/// least two of them, and every generic hook in it follows a definition and
/// has arguments.
pub proof fn law_definition_is_sound(ts: Seq<TokenView>, pos: int)
    requires
        0 <= pos <= ts.len(),
    ensures
        special_at(ts, pos) matches Ok((d, n)) ==> special_is_sound(d) && n >= 2 && pos + n
            <= ts.len(),
    decreases ts, remaining(ts, pos), 8nat,
{
    reveal(special_at);
    reveal(data_struct_at);
    reveal(data_enum_at);
    lemma_composites_within(ts, pos, Seq::empty());
    if let Ok((attrs, n1)) = composites_from(ts, pos, Seq::empty()) {
        lemma_host_within(Syntax::Visibility, ts, pos + n1);
        if let Some(n2) = host_count(Syntax::Visibility, ts, pos + n1) {
            let p = pos + n1 + n2;
            lemma_host_within(Syntax::Generics, ts, p + 2);
            if let Some(n3) = host_count(Syntax::Generics, ts, p + 2) {
                lemma_data_struct_sound(ts, p + 2 + n3);
                lemma_data_enum_sound(ts, p + 2 + n3);
            }
        }
    }
}

/// The definition that all the tokens spell out is sound.
pub proof fn law_whole_definition_is_sound(ts: Seq<TokenView>)
    ensures
        definition_of(ts) matches Ok(d) ==> special_is_sound(d),
{
    law_definition_is_sound(ts, 0);
}

proof fn lemma_where_within(ts: Seq<TokenView>, pos: int)
    requires
        0 <= pos <= ts.len(),
    ensures
        within(where_at(ts, pos), ts, pos),
{
    lemma_host_within(Syntax::WhereClause, ts, pos);
}

proof fn lemma_data_struct_sound(ts: Seq<TokenView>, pos: int)
    requires
        0 <= pos <= ts.len(),
    ensures
        data_struct_at(ts, pos) matches Ok(((clause, body), n)) ==> body is Struct
            && fields_are_sound(body->Struct_fields) && pos + n <= ts.len(),
    decreases ts, remaining(ts, pos), 7nat,
{
    reveal(data_struct_at);
    reveal(tuple_struct_at);
    reveal(named_fields_at);
    lemma_where_within(ts, pos);
    if let Ok((clause, n1)) = where_at(ts, pos) {
        lemma_tuple_struct_sound(ts, pos + n1);
        lemma_named_fields_sound(ts, pos + n1);
    }
}

proof fn lemma_tuple_struct_sound(ts: Seq<TokenView>, pos: int)
    requires
        0 <= pos <= ts.len(),
    ensures
        tuple_struct_at(ts, pos) matches Ok(((clause, body), n)) ==> body is Struct
            && fields_are_sound(body->Struct_fields) && pos + n <= ts.len(),
    decreases ts, remaining(ts, pos), 6nat,
{
    reveal(tuple_struct_at);
    reveal(unnamed_fields_at);
    lemma_unnamed_fields_sound(ts, pos);
    if pos + 1 <= ts.len() {
        lemma_where_within(ts, pos + 1);
    }
}

proof fn lemma_data_enum_sound(ts: Seq<TokenView>, pos: int)
    requires
        0 <= pos <= ts.len(),
    ensures
        data_enum_at(ts, pos) matches Ok(((clause, body), n)) ==> body is Enum
            && variants_are_sound(body->Enum_variants) && pos + n <= ts.len(),
    decreases ts, remaining(ts, pos), 6nat,
{
    reveal(data_enum_at);
    reveal(variants_from);
    lemma_where_within(ts, pos);
    if let Ok((clause, n1)) = where_at(ts, pos) {
        let p = pos + n1;
        if group_at(ts, p, Delimiter::Brace) {
            lemma_variants_sound(ts[p]->Group_1, 0, Seq::empty());
        }
    }
}

proof fn lemma_named_fields_sound(ts: Seq<TokenView>, pos: int)
    requires
        0 <= pos <= ts.len(),
    ensures
        named_fields_at(ts, pos) matches Ok((list, n)) ==> field_list_is_sound(list) && pos + n
            <= ts.len(),
    decreases ts, remaining(ts, pos), 5nat,
{
    reveal(named_fields_at);
    reveal(fields_from);
    if group_at(ts, pos, Delimiter::Brace) {
        lemma_fields_sound(ts[pos]->Group_1, 0, true, Seq::empty());
    }
}

proof fn lemma_unnamed_fields_sound(ts: Seq<TokenView>, pos: int)
    requires
        0 <= pos <= ts.len(),
    ensures
        unnamed_fields_at(ts, pos) matches Ok((list, n)) ==> field_list_is_sound(list) && pos + n
            <= ts.len(),
    decreases ts, remaining(ts, pos), 5nat,
{
    reveal(unnamed_fields_at);
    reveal(fields_from);
    if group_at(ts, pos, Delimiter::Parenthesis) {
        lemma_fields_sound(ts[pos]->Group_1, 0, false, Seq::empty());
    }
}

proof fn lemma_variants_sound(ts: Seq<TokenView>, pos: int, acc: Seq<VariantView>)
    requires
        0 <= pos <= ts.len(),
        variants_are_sound(acc),
    ensures
        variants_from(ts, pos, acc) matches Ok(list) ==> variants_are_sound(list),
    decreases ts, remaining(ts, pos), 12nat,
{
    reveal(variants_from);
    reveal(variant_at);
    if pos < ts.len() {
        lemma_variant_sound(ts, pos);
        if let Ok((variant, n)) = variant_at(ts, pos) {
            let next = acc.push(variant);
            assert forall|i: int| 0 <= i < next.len() implies fields_are_sound(
                (#[trigger] next[i]).fields,
            ) by {
                if i < acc.len() {
                    assert(next[i] == acc[i]);
                }
            }
            if pos + n < ts.len() {
                lemma_variants_sound(ts, pos + n + 1, next);
            }
        }
    }
}

proof fn lemma_variant_sound(ts: Seq<TokenView>, pos: int)
    requires
        0 <= pos <= ts.len(),
    ensures
        variant_at(ts, pos) matches Ok((v, n)) ==> fields_are_sound(v.fields) && n >= 1 && pos
            + n <= ts.len(),
    decreases ts, remaining(ts, pos), 11nat,
{
    reveal(variant_at);
    reveal(variant_fields_at);
    lemma_field_attributes_within(ts, pos, Seq::empty());
    if let Ok((attrs, n1)) = field_attributes_from(ts, pos, Seq::empty()) {
        lemma_host_within(Syntax::Visibility, ts, pos + n1);
        if let Some(n2) = host_count(Syntax::Visibility, ts, pos + n1) {
            let p = pos + n1 + n2;
            if p + 1 <= ts.len() {
                lemma_variant_fields_sound(ts, p + 1);
                if let Ok((fields, n3)) = variant_fields_at(ts, p + 1) {
                    lemma_host_within(Syntax::Expr, ts, p + 1 + n3 + 1);
                }
            }
        }
    }
}

proof fn lemma_variant_fields_sound(ts: Seq<TokenView>, pos: int)
    requires
        0 <= pos <= ts.len(),
    ensures
        variant_fields_at(ts, pos) matches Ok((fields, n)) ==> fields_are_sound(fields) && pos
            + n <= ts.len(),
    decreases ts, remaining(ts, pos), 10nat,
{
    reveal(variant_fields_at);
    reveal(named_fields_at);
    reveal(unnamed_fields_at);
    lemma_named_fields_sound(ts, pos);
    lemma_unnamed_fields_sound(ts, pos);
}

proof fn lemma_fields_sound(ts: Seq<TokenView>, pos: int, named: bool, acc: Seq<FieldView>)
    requires
        0 <= pos <= ts.len(),
        field_list_is_sound(acc),
    ensures
        fields_from(ts, pos, named, acc) matches Ok(list) ==> field_list_is_sound(list),
    decreases ts, remaining(ts, pos), 12nat,
{
    reveal(fields_from);
    reveal(field_at);
    if pos < ts.len() {
        lemma_field_sound(ts, pos, named);
        if let Ok((field, n)) = field_at(ts, pos, named) {
            let next = acc.push(field);
            assert forall|i: int| 0 <= i < next.len() implies field_is_sound(
                #[trigger] next[i],
            ) by {
                if i < acc.len() {
                    assert(next[i] == acc[i]);
                }
            }
            if pos + n < ts.len() {
                lemma_fields_sound(ts, pos + n + 1, named, next);
            }
        }
    }
}

proof fn lemma_field_sound(ts: Seq<TokenView>, pos: int, named: bool)
    requires
        0 <= pos <= ts.len(),
    ensures
        field_at(ts, pos, named) matches Ok((f, n)) ==> field_is_sound(f) && n >= 1 && pos + n
            <= ts.len(),
    decreases ts, remaining(ts, pos), 11nat,
{
    reveal(field_at);
    reveal(special_type_at);
    lemma_field_attributes_within(ts, pos, Seq::empty());
    if let Ok((attrs, n1)) = field_attributes_from(ts, pos, Seq::empty()) {
        lemma_host_within(Syntax::Visibility, ts, pos + n1);
        if let Some(n2) = host_count(Syntax::Visibility, ts, pos + n1) {
            if let Ok((ident, n3)) = field_name_at(ts, pos + n1 + n2, named) {
                let p = pos + n1 + n2 + n3;
                lemma_type_sound(ts, p);
                if let Ok((ty, n4)) = special_type_at(ts, p) {
                    lemma_hook_sound(ts, p + n4, ty);
                }
            }
        }
    }
}

proof fn lemma_type_sound(ts: Seq<TokenView>, pos: int)
    requires
        0 <= pos <= ts.len(),
    ensures
        special_type_at(ts, pos) matches Ok((ty, n)) ==> type_is_sound(ty) && n >= 1 && pos + n
            <= ts.len(),
    decreases ts, remaining(ts, pos), 10nat,
{
    reveal(special_type_at);
    reveal(maybe_path_at);
    reveal(special_at);
    lemma_host_within(Syntax::Type, ts, pos);
    lemma_maybe_path_sound(ts, pos);
    law_definition_is_sound(ts, pos);
}

proof fn lemma_maybe_path_sound(ts: Seq<TokenView>, pos: int)
    requires
        0 <= pos <= ts.len(),
    ensures
        maybe_path_at(ts, pos) matches Ok(Some((path, n))) ==> segments_are_sound(
            path.path.segments,
        ) && n >= 1 && pos + n <= ts.len(),
    decreases ts, remaining(ts, pos), 9nat,
{
    reveal(maybe_path_at);
    reveal(qpath_at);
    lemma_qpath_sound(ts, pos);
}

/// Two lists of sound segments make one.
proof fn lemma_segments_add(a: Seq<SegmentView>, b: Seq<SegmentView>)
    requires
        segments_are_sound(a),
        segments_are_sound(b),
    ensures
        segments_are_sound(a + b),
{
    assert forall|i: int| 0 <= i < (a + b).len() implies match (#[trigger] (a + b)[i]).arguments {
        None => true,
        Some(x) => arguments_are_sound(x.args),
    } by {
        if i < a.len() {
            assert((a + b)[i] == a[i]);
        } else {
            assert((a + b)[i] == b[i - a.len()]);
        }
    }
}

proof fn lemma_qpath_sound(ts: Seq<TokenView>, pos: int)
    requires
        0 <= pos <= ts.len(),
    ensures
        qpath_at(ts, pos) matches Ok((path, n)) ==> segments_are_sound(path.path.segments) && n
            >= 1 && pos + n <= ts.len(),
    decreases ts, remaining(ts, pos), 8nat,
{
    reveal(qpath_at);
    reveal(as_path_at);
    reveal(qualified_rest_at);
    reveal(path_at);
    reveal(qualified);
    lemma_path_sound(ts, pos);
    lemma_host_within(Syntax::Type, ts, pos + 1);
    if punct_at(ts, pos, '<') {
        if let Some(n1) = host_count(Syntax::Type, ts, pos + 1) {
            lemma_as_path_sound(ts, pos + 1 + n1);
            if let Ok((as_path, n2)) = as_path_at(ts, pos + 1 + n1) {
                lemma_qualified_rest_sound(ts, pos + 1 + n1 + n2);
                if let Ok((rest, n3)) = qualified_rest_at(ts, pos + 1 + n1 + n2) {
                    if let Some(p) = as_path {
                        lemma_segments_add(p.segments, rest);
                    }
                }
            }
        }
    }
}

proof fn lemma_qualified_rest_sound(ts: Seq<TokenView>, pos: int)
    requires
        0 <= pos <= ts.len(),
    ensures
        qualified_rest_at(ts, pos) matches Ok((rest, n)) ==> segments_are_sound(rest) && pos + n
            <= ts.len(),
    decreases ts, remaining(ts, pos), 7nat,
{
    reveal(qualified_rest_at);
    reveal(segments_from);
    if pos + 3 <= ts.len() {
        lemma_segments_sound(ts, pos + 3, Seq::empty());
    }
}

proof fn lemma_as_path_sound(ts: Seq<TokenView>, pos: int)
    requires
        0 <= pos <= ts.len(),
    ensures
        as_path_at(ts, pos) matches Ok((as_path, n)) ==> (as_path matches Some(p)
            ==> segments_are_sound(p.segments)) && pos + n <= ts.len(),
    decreases ts, remaining(ts, pos), 6nat,
{
    reveal(as_path_at);
    reveal(path_at);
    if pos + 1 <= ts.len() {
        lemma_path_sound(ts, pos + 1);
    }
}

proof fn lemma_path_sound(ts: Seq<TokenView>, pos: int)
    requires
        0 <= pos <= ts.len(),
    ensures
        path_at(ts, pos) matches Ok((path, n)) ==> segments_are_sound(path.segments) && n >= 1
            && pos + n <= ts.len(),
    decreases ts, remaining(ts, pos), 5nat,
{
    reveal(path_at);
    reveal(segments_from);
    lemma_segments_sound(ts, pos, Seq::empty());
    if pos + 2 <= ts.len() {
        lemma_segments_sound(ts, pos + 2, Seq::empty());
    }
}

proof fn lemma_segments_sound(ts: Seq<TokenView>, pos: int, acc: Seq<SegmentView>)
    requires
        0 <= pos <= ts.len(),
        segments_are_sound(acc),
    ensures
        segments_from(ts, pos, acc) matches Ok((list, n)) ==> segments_are_sound(list) && n >= 1
            && pos + n <= ts.len(),
    decreases ts, remaining(ts, pos), 4nat,
{
    reveal(segments_from);
    reveal(segment_at);
    lemma_segment_sound(ts, pos);
    if let Ok((segment, n)) = segment_at(ts, pos) {
        let next = acc.push(segment);
        assert forall|i: int| 0 <= i < next.len() implies match (#[trigger] next[i]).arguments {
            None => true,
            Some(x) => arguments_are_sound(x.args),
        } by {
            if i < acc.len() {
                assert(next[i] == acc[i]);
            }
        }
        if pos + n + 2 <= ts.len() {
            lemma_segments_sound(ts, pos + n + 2, next);
        }
    }
}

proof fn lemma_segment_sound(ts: Seq<TokenView>, pos: int)
    requires
        0 <= pos <= ts.len(),
    ensures
        segment_at(ts, pos) matches Ok((s, n)) ==> (s.arguments matches Some(a)
            ==> arguments_are_sound(a.args)) && n >= 1 && pos + n <= ts.len(),
    decreases ts, remaining(ts, pos), 3nat,
{
    reveal(segment_at);
    reveal(angle_at);
    if pos + 1 <= ts.len() {
        lemma_angle_sound(ts, pos + 1);
    }
}

proof fn lemma_angle_sound(ts: Seq<TokenView>, pos: int)
    requires
        0 <= pos <= ts.len(),
    ensures
        angle_at(ts, pos) matches Ok((a, n)) ==> arguments_are_sound(a.args) && pos + n
            <= ts.len(),
    decreases ts, remaining(ts, pos), 2nat,
{
    reveal(angle_at);
    reveal(angle_body_at);
    lemma_angle_body_sound(ts, pos, false);
    if pos + 2 <= ts.len() {
        lemma_angle_body_sound(ts, pos + 2, true);
    }
}

proof fn lemma_angle_body_sound(ts: Seq<TokenView>, pos: int, colon2_token: bool)
    requires
        0 <= pos <= ts.len(),
    ensures
        angle_body_at(ts, pos, colon2_token) matches Ok((a, n)) ==> arguments_are_sound(a.args)
            && pos + n <= ts.len(),
    decreases ts, remaining(ts, pos), 1nat,
{
    reveal(angle_body_at);
    reveal(arguments_from);
    if pos + 1 <= ts.len() {
        lemma_arguments_sound(ts, pos + 1, Seq::empty());
    }
}

proof fn lemma_arguments_sound(ts: Seq<TokenView>, pos: int, acc: Seq<ArgumentView>)
    requires
        0 <= pos <= ts.len(),
        arguments_are_sound(acc),
    ensures
        arguments_from(ts, pos, acc) matches Ok((list, n)) ==> arguments_are_sound(list) && pos
            + n < ts.len(),
    decreases ts, remaining(ts, pos), 12nat,
{
    reveal(arguments_from);
    reveal(argument_at);
    if !punct_at(ts, pos, '>') {
        lemma_argument_sound(ts, pos);
        if let Ok((argument, n)) = argument_at(ts, pos) {
            let next = acc.push(argument);
            assert forall|i: int| 0 <= i < next.len() implies argument_is_sound(
                #[trigger] next[i],
            ) by {
                if i < acc.len() {
                    assert(next[i] == acc[i]);
                }
            }
            if pos + n + 1 <= ts.len() {
                lemma_arguments_sound(ts, pos + n + 1, next);
            }
        }
    }
}

proof fn lemma_argument_sound(ts: Seq<TokenView>, pos: int)
    requires
        0 <= pos <= ts.len(),
    ensures
        argument_at(ts, pos) matches Ok((a, n)) ==> argument_is_sound(a) && n >= 1 && pos + n
            <= ts.len(),
    decreases ts, remaining(ts, pos), 11nat,
{
    reveal(argument_at);
    reveal(special_type_at);
    lemma_host_within(Syntax::GenericArgument, ts, pos);
    lemma_type_sound(ts, pos);
    if let Ok((ty, n)) = special_type_at(ts, pos) {
        lemma_hook_sound(ts, pos + n, ty);
    }
}

} // verus!
