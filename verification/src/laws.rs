//! What holds of flattening and of the resolution of attributes, for every
//! input.

use vstd::prelude::*;
use crate::attributes::{AttributeModifier, CompositeAttributeView};
use crate::emit::{field_attribute_tokens, field_tokens, name_tokens, type_tokens};
use crate::special_data::{BodyView, FieldView, FieldsView, SpecialView, VariantView};
use crate::token::TokenView;
use crate::ty::augmented::{ArgumentView, SegmentView};
use crate::ty::SpecialTypeView;
use crate::unpack::{
    UnpackErrorView, reference, unpack_argument, unpack_arguments, unpack_field, unpack_field_list,
    unpack_fields, unpack_segment, unpack_segments, unpack_special, unpack_type, unpack_variants,
};
use crate::unpack_context::{
    Resolved, Scope, ScopeError, ScopeErrorKind, apply, apply_first, differs_from, entry,
    nested_scoped, resolve, without,
};

verus! {

/// An attribute written with the given modifier.
pub open spec fn marked(a: Seq<TokenView>, modifier: AttributeModifier) -> CompositeAttributeView {
    CompositeAttributeView { meta: a, modifier: Some(modifier) }
}

/// The list without `a` does not hold `a`, and holds every other member of
/// the list.
pub proof fn lemma_without(list: Seq<Seq<TokenView>>, a: Seq<TokenView>)
    ensures
        !without(list, a).contains(a),
        forall|b: Seq<TokenView>| b != a && list.contains(b) ==> without(list, a).contains(b),
        forall|b: Seq<TokenView>| without(list, a).contains(b) ==> list.contains(b),
        !list.contains(a) ==> without(list, a) == list,
{
    let p = differs_from(a);
    let out = list.filter(p);
    if out.contains(a) {
        let i = choose|i: int| 0 <= i < out.len() && out[i] == a;
        list.lemma_filter_pred(p, i);
    }
    assert forall|b: Seq<TokenView>| b != a && list.contains(b) implies out.contains(b) by {
        let i = choose|i: int| 0 <= i < list.len() && list[i] == b;
        list.lemma_filter_contains(p, i);
    }
    assert forall|b: Seq<TokenView>| out.contains(b) implies list.contains(b) by {
        list.lemma_filter_contains_rev(p, b);
    }
    if !list.contains(a) {
        lemma_filter_keeps_all(list, a);
    }
}

/// Where the list does not hold `a`, taking `a` out leaves it as it is.
proof fn lemma_filter_keeps_all(list: Seq<Seq<TokenView>>, a: Seq<TokenView>)
    requires
        !list.contains(a),
    ensures
        list.filter(differs_from(a)) == list,
    decreases list.len(),
{
    reveal(Seq::filter);
    if list.len() > 0 {
        assert(list.last() == list[list.len() - 1]);
        assert forall|i: int| 0 <= i < list.drop_last().len() implies list.drop_last()[i]
            != a by {
            assert(list.drop_last()[i] == list[i]);
        }
        lemma_filter_keeps_all(list.drop_last(), a);
        assert(list.drop_last().push(list.last()) =~= list);
    }
}

/// A definition without attributes of its own carries what it inherits and
/// hands the same down.
pub proof fn law_inherited_applies(stack: Seq<Seq<TokenView>>)
    ensures
        resolve(stack, Seq::empty()) == Ok::<Resolved, ScopeError>(
            Resolved { emitted: stack, inherited: stack },
        ),
{
    assert(stack + Seq::<Seq<TokenView>>::empty() =~= stack);
}

/// An attribute with `*` that is not yet in force applies to the definition
/// on which it is written and is handed down from there.
pub proof fn law_star_applies_from_here_down(stack: Seq<Seq<TokenView>>, a: Seq<TokenView>)
    requires
        !stack.contains(a),
    ensures
        resolve(stack, seq![marked(a, AttributeModifier::Star)]) == Ok::<Resolved, ScopeError>(
            Resolved { emitted: stack.push(a), inherited: stack.push(a) },
        ),
{
    let locals = seq![marked(a, AttributeModifier::Star)];
    reveal_with_fuel(apply_first, 2);
    assert(apply_first(entry(stack), locals, 0) == Ok::<Scope, ScopeError>(entry(stack)));
    assert(stack + Seq::<Seq<TokenView>>::empty().push(a) =~= stack.push(a));
}

/// An attribute with `/` that is in force does not apply to the definition
/// on which it is written and is no longer handed down; everything else
/// that was in force stays.
pub proof fn law_slash_removes_from_here_down(stack: Seq<Seq<TokenView>>, a: Seq<TokenView>)
    requires
        stack.contains(a),
    ensures
        resolve(stack, seq![marked(a, AttributeModifier::Slash)]) == Ok::<Resolved, ScopeError>(
            Resolved { emitted: without(stack, a), inherited: without(stack, a) },
        ),
        !without(stack, a).contains(a),
        forall|b: Seq<TokenView>| b != a && stack.contains(b) ==> without(stack, a).contains(b),
{
    let locals = seq![marked(a, AttributeModifier::Slash)];
    reveal_with_fuel(apply_first, 2);
    assert(apply_first(entry(stack), locals, 0) == Ok::<Scope, ScopeError>(entry(stack)));
    assert(without(stack, a) + Seq::<Seq<TokenView>>::empty() =~= without(stack, a));
    lemma_without(stack, a);
}

/// An attribute with `-` that is in force does not apply to the definition
/// on which it is written, and is handed down as before.
pub proof fn law_minus_skips_one_level(stack: Seq<Seq<TokenView>>, a: Seq<TokenView>)
    requires
        stack.contains(a),
    ensures
        resolve(stack, seq![marked(a, AttributeModifier::Minus)]) == Ok::<Resolved, ScopeError>(
            Resolved { emitted: without(stack, a), inherited: stack },
        ),
        !without(stack, a).contains(a),
        forall|b: Seq<TokenView>| b != a && stack.contains(b) ==> without(stack, a).contains(b),
{
    let locals = seq![marked(a, AttributeModifier::Minus)];
    reveal_with_fuel(apply_first, 2);
    assert(apply_first(entry(stack), locals, 0) == Ok::<Scope, ScopeError>(entry(stack)));
    assert(without(stack, a) + Seq::<Seq<TokenView>>::empty() =~= without(stack, a));
    lemma_without(stack, a);
}

/// `*` on a definition and `/` on a descendant: the definition carries the
/// attribute, the descendant does not, and neither do the definitions below
/// the descendant.
pub proof fn law_star_then_slash(stack: Seq<Seq<TokenView>>, a: Seq<TokenView>)
    requires
        !stack.contains(a),
    ensures
        ({
            let above = resolve(stack, seq![marked(a, AttributeModifier::Star)]);
            &&& above is Ok
            &&& above->Ok_0.emitted.contains(a)
            &&& {
                let here = resolve(
                    above->Ok_0.inherited,
                    seq![marked(a, AttributeModifier::Slash)],
                );
                &&& here is Ok
                &&& !here->Ok_0.emitted.contains(a)
                &&& here->Ok_0.emitted == stack
                &&& {
                    let below = resolve(here->Ok_0.inherited, Seq::empty());
                    &&& below is Ok
                    &&& !below->Ok_0.emitted.contains(a)
                    &&& below->Ok_0.emitted == stack
                }
            }
        }),
{
    law_star_applies_from_here_down(stack, a);
    let pushed = stack.push(a);
    assert(pushed[stack.len() as int] == a);
    law_slash_removes_from_here_down(pushed, a);
    lemma_without_pushed(stack, a);
    law_inherited_applies(stack);
}

/// Taking `a` out of a list to which `a` was added last, and which did not
/// hold it before, gives the list back.
proof fn lemma_without_pushed(list: Seq<Seq<TokenView>>, a: Seq<TokenView>)
    requires
        !list.contains(a),
    ensures
        without(list.push(a), a) == list,
{
    let pushed = list.push(a);
    assert(pushed.drop_last() =~= list);
    assert(pushed.last() == a);
    assert(pushed.filter(differs_from(a)) == list.filter(differs_from(a))) by {
        reveal(Seq::filter);
    }
    lemma_filter_keeps_all(list, a);
}

/// `-` on a definition: the definition does not carry the attribute, and a
/// definition nested in it carries what was in force, the attribute among
/// it, as if nothing had been written.
pub proof fn law_minus_then_child(stack: Seq<Seq<TokenView>>, a: Seq<TokenView>)
    requires
        stack.contains(a),
    ensures
        ({
            let here = resolve(stack, seq![marked(a, AttributeModifier::Minus)]);
            &&& here is Ok
            &&& !here->Ok_0.emitted.contains(a)
            &&& {
                let below = resolve(here->Ok_0.inherited, Seq::empty());
                &&& below is Ok
                &&& below->Ok_0.emitted == stack
                &&& below->Ok_0.emitted.contains(a)
            }
        }),
{
    law_minus_skips_one_level(stack, a);
    law_inherited_applies(stack);
}

/// `/` or `-` on an attribute that is not in force fails, and so does the
/// flattening of the definition on which it is written.
pub proof fn law_removal_needs_presence(
    d: SpecialView,
    stack: Seq<Seq<TokenView>>,
    a: Seq<TokenView>,
    modifier: AttributeModifier,
)
    requires
        !stack.contains(a),
        modifier != AttributeModifier::Star,
        d.attrs == seq![marked(a, modifier)],
    ensures
        resolve(stack, d.attrs) == Err::<Resolved, ScopeError>(
            ScopeError { kind: ScopeErrorKind::NotActive, index: 0 },
        ),
        unpack_special(d, stack, Seq::empty()) == Err::<Seq<SpecialView>, UnpackErrorView>(
            UnpackErrorView {
                definition: d.ident,
                error: ScopeError { kind: ScopeErrorKind::NotActive, index: 0 },
            },
        ),
{
    reveal_with_fuel(apply_first, 2);
    assert(apply_first(entry(stack), d.attrs, 0) == Ok::<Scope, ScopeError>(entry(stack)));
    assert(d.attrs + Seq::<CompositeAttributeView>::empty() =~= d.attrs);
}

/// A field whose type is a definition: in the rewritten field stands the
/// definition's name, followed by the generic hook's arguments, and the
/// first of the definitions taken out has that name.
pub proof fn law_reference_names_definition(
    f: FieldView,
    inherited: Seq<Seq<TokenView>>,
    from_variant: Seq<CompositeAttributeView>,
)
    requires
        f.ty is Def,
        unpack_field(f, inherited, from_variant) is Ok,
    ensures
        ({
            let (rewritten, definitions) = unpack_field(f, inherited, from_variant)->Ok_0;
            let nested = *f.ty->Def_0;
            &&& rewritten.ty == SpecialTypeView::Type(reference(nested.ident, f.fish))
            &&& rewritten.ty->Type_0[0] == TokenView::Ident(nested.ident)
            &&& definitions.len() >= 1
            &&& definitions[0].ident == nested.ident
        }),
{
}

/// A generic argument that is a definition: in the rewritten argument
/// stands the definition's name, followed by the generic hook's arguments,
/// and the first of the definitions taken out has that name.
pub proof fn law_argument_names_definition(
    a: ArgumentView,
    inherited: Seq<Seq<TokenView>>,
    next: Seq<CompositeAttributeView>,
)
    requires
        a matches ArgumentView::Type(ty, _) && ty is Def,
        unpack_argument(a, inherited, next) is Ok,
    ensures
        ({
            let (rewritten, definitions) = unpack_argument(a, inherited, next)->Ok_0;
            let nested = *a->Type_0->Def_0;
            &&& rewritten == ArgumentView::Type(
                SpecialTypeView::Type(reference(nested.ident, a->Type_1)),
                None,
            )
            &&& reference(nested.ident, a->Type_1)[0] == TokenView::Ident(nested.ident)
            &&& definitions.len() >= 1
            &&& definitions[0].ident == nested.ident
        }),
{
}

/// A field with an ordinary type keeps the tokens of its type, and no
/// definition comes out of it.
pub proof fn law_plain_type_is_kept(
    f: FieldView,
    inherited: Seq<Seq<TokenView>>,
    from_variant: Seq<CompositeAttributeView>,
)
    requires
        f.ty is Type,
    ensures
        unpack_field(f, inherited, from_variant) is Ok,
        unpack_field(f, inherited, from_variant)->Ok_0.0.ty == f.ty,
        unpack_field(f, inherited, from_variant)->Ok_0.0.vis == f.vis,
        unpack_field(f, inherited, from_variant)->Ok_0.0.ident == f.ident,
        unpack_field(f, inherited, from_variant)->Ok_0.1 == Seq::<SpecialView>::empty(),
{
}

/// A field with an ordinary type is written out with the tokens of its type
/// as they are: after its attributes, its visibility and its name stand
/// those tokens, and nothing after them.
pub proof fn law_plain_type_is_written_as_it_is(
    f: FieldView,
    inherited: Seq<Seq<TokenView>>,
    from_variant: Seq<CompositeAttributeView>,
)
    requires
        f.ty is Type,
    ensures
        ({
            let rewritten = unpack_field(f, inherited, from_variant)->Ok_0.0;
            field_tokens(rewritten) == field_attribute_tokens(
                rewritten.attrs,
                rewritten.attrs.len(),
            ) + f.vis + name_tokens(f.ident) + f.ty->Type_0
        }),
{
    let rewritten = unpack_field(f, inherited, from_variant)->Ok_0.0;
    assert(type_tokens(rewritten.ty) == f.ty->Type_0);
    assert(field_tokens(rewritten) =~= field_attribute_tokens(
        rewritten.attrs,
        rewritten.attrs.len(),
    ) + f.vis + name_tokens(f.ident) + f.ty->Type_0);
}

/// A field whose type is a definition is written out with the definition's
/// name where the definition stood, followed by the generic hook's
/// arguments.
pub proof fn law_reference_is_written_by_name(
    f: FieldView,
    inherited: Seq<Seq<TokenView>>,
    from_variant: Seq<CompositeAttributeView>,
)
    requires
        f.ty is Def,
        unpack_field(f, inherited, from_variant) is Ok,
    ensures
        ({
            let rewritten = unpack_field(f, inherited, from_variant)->Ok_0.0;
            field_tokens(rewritten) == field_attribute_tokens(
                rewritten.attrs,
                rewritten.attrs.len(),
            ) + f.vis + name_tokens(f.ident) + reference(f.ty->Def_0.ident, f.fish)
        }),
{
    let rewritten = unpack_field(f, inherited, from_variant)->Ok_0.0;
    assert(type_tokens(rewritten.ty) == reference(f.ty->Def_0.ident, f.fish));
    assert(field_tokens(rewritten) =~= field_attribute_tokens(
        rewritten.attrs,
        rewritten.attrs.len(),
    ) + f.vis + name_tokens(f.ident) + reference(f.ty->Def_0.ident, f.fish));
}

/// The names of the definitions of a list, in order.
pub open spec fn names(list: Seq<SpecialView>) -> Seq<Seq<char>> {
    Seq::new(list.len(), |i: int| list[i].ident)
}

/// The names of the definitions nested in `d`, at any depth: each where its
/// definition is met when the fields are read from first to last and a
/// nested definition is read through before the field after it.
pub open spec fn nested_in_special(d: SpecialView) -> Seq<Seq<char>>
    decreases d, 0nat,
{
    match d.body {
        BodyView::Struct { fields, semi_token } => nested_in_fields(fields),
        BodyView::Enum { variants } => nested_in_variants(variants, variants.len()),
    }
}

/// The names of the definitions nested in the first `n` variants.
pub open spec fn nested_in_variants(variants: Seq<VariantView>, n: nat) -> Seq<Seq<char>>
    decreases variants, n,
{
    if n == 0 || n > variants.len() {
        Seq::empty()
    } else {
        nested_in_variants(variants, (n - 1) as nat) + nested_in_fields(variants[n - 1].fields)
    }
}

/// The names of the definitions nested in a group of fields.
pub open spec fn nested_in_fields(fields: FieldsView) -> Seq<Seq<char>>
    decreases fields, 0nat,
{
    match fields {
        FieldsView::Named(list) => nested_in_field_list(list, list.len()),
        FieldsView::Unnamed(list) => nested_in_field_list(list, list.len()),
        FieldsView::Unit => Seq::empty(),
    }
}

/// The names of the definitions nested in the first `n` fields.
pub open spec fn nested_in_field_list(list: Seq<FieldView>, n: nat) -> Seq<Seq<char>>
    decreases list, n,
{
    if n == 0 || n > list.len() {
        Seq::empty()
    } else {
        nested_in_field_list(list, (n - 1) as nat) + nested_in_type(list[n - 1].ty)
    }
}

/// The names of the definitions in a type: of the type itself where it is a
/// definition, then of those nested in it.
pub open spec fn nested_in_type(ty: SpecialTypeView) -> Seq<Seq<char>>
    decreases ty, 0nat,
{
    match ty {
        SpecialTypeView::Type(_) => Seq::empty(),
        SpecialTypeView::Def(special) => seq![special.ident] + nested_in_special(*special),
        SpecialTypeView::Augmented(path) => nested_in_segments(
            path.path.segments,
            path.path.segments.len(),
        ),
    }
}

/// The names of the definitions among the generic arguments of the first
/// `n` segments.
pub open spec fn nested_in_segments(segments: Seq<SegmentView>, n: nat) -> Seq<Seq<char>>
    decreases segments, n,
{
    if n == 0 || n > segments.len() {
        Seq::empty()
    } else {
        nested_in_segments(segments, (n - 1) as nat) + match segments[n - 1].arguments {
            None => Seq::empty(),
            Some(a) => nested_in_arguments(a.args, a.args.len()),
        }
    }
}

/// The names of the definitions among the first `n` generic arguments.
pub open spec fn nested_in_arguments(args: Seq<ArgumentView>, n: nat) -> Seq<Seq<char>>
    decreases args, n,
{
    if n == 0 || n > args.len() {
        Seq::empty()
    } else {
        nested_in_arguments(args, (n - 1) as nat) + match args[n - 1] {
            ArgumentView::Type(ty, _) => nested_in_type(ty),
            _ => Seq::empty(),
        }
    }
}

/// How many definitions are nested in `d`, at any depth, those among
/// generic arguments included.
pub open spec fn nested_count(d: SpecialView) -> nat {
    nested_in_special(d).len()
}

/// The names of two lists, one after the other.
proof fn lemma_names_add(a: Seq<SpecialView>, b: Seq<SpecialView>)
    ensures
        names(a + b) == names(a) + names(b),
{
    assert(names(a + b) =~= names(a) + names(b));
}

/// Flattening puts the definition first and after it the definitions
/// nested in it, depth first and in the order of the fields.
pub proof fn law_order(
    d: SpecialView,
    inherited: Seq<Seq<TokenView>>,
    next: Seq<CompositeAttributeView>,
)
    requires
        unpack_special(d, inherited, next) is Ok,
    ensures
        names(unpack_special(d, inherited, next)->Ok_0) == seq![d.ident] + nested_in_special(d),
        unpack_special(d, inherited, next)->Ok_0[0].ident == d.ident,
    decreases d, 0nat,
{
    let resolved = resolve(inherited, d.attrs + next)->Ok_0;
    match d.body {
        BodyView::Struct { fields, semi_token } => {
            lemma_order_fields(fields, resolved.inherited, Seq::empty());
            let (rewritten, definitions) = unpack_fields(
                fields,
                resolved.inherited,
                Seq::empty(),
            )->Ok_0;
            let list = unpack_special(d, inherited, next)->Ok_0;
            assert(list == seq![list[0]] + definitions);
            lemma_names_add(seq![list[0]], definitions);
            assert(names(seq![list[0]]) =~= seq![d.ident]);
        },
        BodyView::Enum { variants } => {
            lemma_order_variants(variants, variants.len(), resolved.inherited);
            let (rewritten, definitions) = unpack_variants(
                variants,
                variants.len(),
                resolved.inherited,
            )->Ok_0;
            let list = unpack_special(d, inherited, next)->Ok_0;
            assert(list == seq![list[0]] + definitions);
            lemma_names_add(seq![list[0]], definitions);
            assert(names(seq![list[0]]) =~= seq![d.ident]);
        },
    }
}

/// Flattening gives one definition for the definition itself and one for
/// each definition nested in it.
pub proof fn law_cardinality(
    d: SpecialView,
    inherited: Seq<Seq<TokenView>>,
    next: Seq<CompositeAttributeView>,
)
    requires
        unpack_special(d, inherited, next) is Ok,
    ensures
        unpack_special(d, inherited, next)->Ok_0.len() == 1 + nested_count(d),
{
    law_order(d, inherited, next);
    let list = unpack_special(d, inherited, next)->Ok_0;
    assert(names(list).len() == list.len());
}

proof fn lemma_order_variants(variants: Seq<VariantView>, n: nat, inherited: Seq<Seq<TokenView>>)
    requires
        unpack_variants(variants, n, inherited) is Ok,
    ensures
        names(unpack_variants(variants, n, inherited)->Ok_0.1) == nested_in_variants(variants, n),
    decreases variants, n,
{
    if n == 0 || n > variants.len() {
        assert(names(Seq::<SpecialView>::empty()) =~= Seq::empty());
    } else {
        lemma_order_variants(variants, (n - 1) as nat, inherited);
        let v = variants[n - 1];
        lemma_order_fields(v.fields, inherited, nested_scoped(v.attrs));
        let before = unpack_variants(variants, (n - 1) as nat, inherited)->Ok_0.1;
        let more = unpack_fields(
            v.fields,
            inherited,
            nested_scoped(v.attrs),
        )->Ok_0.1;
        lemma_names_add(before, more);
    }
}

proof fn lemma_order_fields(
    fields: FieldsView,
    inherited: Seq<Seq<TokenView>>,
    from_variant: Seq<CompositeAttributeView>,
)
    requires
        unpack_fields(fields, inherited, from_variant) is Ok,
    ensures
        names(unpack_fields(fields, inherited, from_variant)->Ok_0.1) == nested_in_fields(fields),
    decreases fields, 0nat,
{
    match fields {
        FieldsView::Named(list) => {
            lemma_order_field_list(list, list.len(), inherited, from_variant);
        },
        FieldsView::Unnamed(list) => {
            lemma_order_field_list(list, list.len(), inherited, from_variant);
        },
        FieldsView::Unit => {
            assert(names(Seq::<SpecialView>::empty()) =~= Seq::empty());
        },
    }
}

proof fn lemma_order_field_list(
    list: Seq<FieldView>,
    n: nat,
    inherited: Seq<Seq<TokenView>>,
    from_variant: Seq<CompositeAttributeView>,
)
    requires
        unpack_field_list(list, n, inherited, from_variant) is Ok,
    ensures
        names(unpack_field_list(list, n, inherited, from_variant)->Ok_0.1) == nested_in_field_list(
            list,
            n,
        ),
    decreases list, n,
{
    if n == 0 || n > list.len() {
        assert(names(Seq::<SpecialView>::empty()) =~= Seq::empty());
    } else {
        lemma_order_field_list(list, (n - 1) as nat, inherited, from_variant);
        let f = list[n - 1];
        let next = nested_scoped(f.attrs) + from_variant;
        assert(unpack_field(f, inherited, from_variant) is Ok);
        assert(unpack_type(f.ty, f.fish, inherited, next) is Ok);
        lemma_order_type(f.ty, f.fish, inherited, next);
        let before = unpack_field_list(list, (n - 1) as nat, inherited, from_variant)->Ok_0.1;
        let more = unpack_type(f.ty, f.fish, inherited, next)->Ok_0.1;
        lemma_names_add(before, more);
    }
}

proof fn lemma_order_type(
    ty: SpecialTypeView,
    fish: Option<Seq<TokenView>>,
    inherited: Seq<Seq<TokenView>>,
    next: Seq<CompositeAttributeView>,
)
    requires
        unpack_type(ty, fish, inherited, next) is Ok,
    ensures
        names(unpack_type(ty, fish, inherited, next)->Ok_0.1) == nested_in_type(ty),
    decreases ty, 0nat,
{
    match ty {
        SpecialTypeView::Type(_) => {
            assert(names(Seq::<SpecialView>::empty()) =~= Seq::empty());
        },
        SpecialTypeView::Def(special) => {
            law_order(*special, inherited, next);
        },
        SpecialTypeView::Augmented(path) => {
            lemma_order_segments(path.path.segments, path.path.segments.len(), inherited, next);
        },
    }
}

proof fn lemma_order_segments(
    segments: Seq<SegmentView>,
    n: nat,
    inherited: Seq<Seq<TokenView>>,
    next: Seq<CompositeAttributeView>,
)
    requires
        unpack_segments(segments, n, inherited, next) is Ok,
    ensures
        names(unpack_segments(segments, n, inherited, next)->Ok_0.1) == nested_in_segments(
            segments,
            n,
        ),
    decreases segments, n,
{
    if n == 0 || n > segments.len() {
        assert(names(Seq::<SpecialView>::empty()) =~= Seq::empty());
    } else {
        lemma_order_segments(segments, (n - 1) as nat, inherited, next);
        let s = segments[n - 1];
        let before = unpack_segments(segments, (n - 1) as nat, inherited, next)->Ok_0.1;
        let more = unpack_segment(s, inherited, next)->Ok_0.1;
        match s.arguments {
            None => {
                assert(names(Seq::<SpecialView>::empty()) =~= Seq::empty());
            },
            Some(a) => {
                lemma_order_arguments(a.args, a.args.len(), inherited, next);
            },
        }
        lemma_names_add(before, more);
    }
}

proof fn lemma_order_arguments(
    args: Seq<ArgumentView>,
    n: nat,
    inherited: Seq<Seq<TokenView>>,
    next: Seq<CompositeAttributeView>,
)
    requires
        unpack_arguments(args, n, inherited, next) is Ok,
    ensures
        names(unpack_arguments(args, n, inherited, next)->Ok_0.1) == nested_in_arguments(args, n),
    decreases args, n,
{
    if n == 0 || n > args.len() {
        assert(names(Seq::<SpecialView>::empty()) =~= Seq::empty());
    } else {
        lemma_order_arguments(args, (n - 1) as nat, inherited, next);
        let before = unpack_arguments(args, (n - 1) as nat, inherited, next)->Ok_0.1;
        let more = unpack_argument(args[n - 1], inherited, next)->Ok_0.1;
        match args[n - 1] {
            ArgumentView::Type(ty, fish) => {
                lemma_order_type(ty, fish, inherited, next);
            },
            _ => {
                assert(names(Seq::<SpecialView>::empty()) =~= Seq::empty());
            },
        }
        lemma_names_add(before, more);
    }
}

/// The fields of a group, in order; none for a group without fields.
pub open spec fn field_list(fields: FieldsView) -> Seq<FieldView> {
    match fields {
        FieldsView::Named(list) => list,
        FieldsView::Unnamed(list) => list,
        FieldsView::Unit => Seq::empty(),
    }
}

/// The fields of a list are rewritten one by one, each as if it stood
/// alone: what one field inherits and becomes does not depend on the fields
/// beside it. The name of a definition that is the type of one of them is
/// among the names of the definitions nested in them.
pub proof fn law_fields_one_by_one(
    list: Seq<FieldView>,
    n: nat,
    inherited: Seq<Seq<TokenView>>,
    from_variant: Seq<CompositeAttributeView>,
)
    requires
        n <= list.len(),
        unpack_field_list(list, n, inherited, from_variant) is Ok,
    ensures
        unpack_field_list(list, n, inherited, from_variant)->Ok_0.0.len() == n,
        forall|i: int|
            0 <= i < n ==> unpack_field(#[trigger] list[i], inherited, from_variant) is Ok
                && unpack_field_list(list, n, inherited, from_variant)->Ok_0.0[i] == unpack_field(
                list[i],
                inherited,
                from_variant,
            )->Ok_0.0,
        forall|i: int|
            0 <= i < n && (#[trigger] list[i]).ty is Def ==> nested_in_field_list(
                list,
                n,
            ).contains(list[i].ty->Def_0.ident),
    decreases n,
{
    if n > 0 {
        law_fields_one_by_one(list, (n - 1) as nat, inherited, from_variant);
        let before = nested_in_field_list(list, (n - 1) as nat);
        let last = nested_in_type(list[n - 1].ty);
        assert forall|i: int| 0 <= i < n && (#[trigger] list[i]).ty is Def implies (before
            + last).contains(list[i].ty->Def_0.ident) by {
            if i < n - 1 {
                let k = choose|k: int| 0 <= k < before.len() && before[k] == list[i].ty->Def_0.ident;
                assert((before + last)[k] == before[k]);
            } else {
                assert(last[0] == list[i].ty->Def_0.ident);
                assert((before + last)[before.len() as int] == last[0]);
            }
        }
    }
}

/// Of the flat list for a `struct`: the first definition has as many fields
/// as the `struct` that was flattened, each field with an ordinary type
/// keeps that type, and each field whose type was a definition now has the
/// definition's name as its type, followed by the arguments of the generic
/// hook, and a definition of that name is in the list.
pub proof fn law_fields_of_the_flat_struct(
    d: SpecialView,
    inherited: Seq<Seq<TokenView>>,
    next: Seq<CompositeAttributeView>,
)
    requires
        d.body is Struct,
        unpack_special(d, inherited, next) is Ok,
    ensures
        ({
            let list = unpack_special(d, inherited, next)->Ok_0;
            let fields = field_list(d.body->Struct_fields);
            let rewritten = field_list(list[0].body->Struct_fields);
            &&& list[0].body is Struct
            &&& list[0].ident == d.ident
            &&& rewritten.len() == fields.len()
            &&& forall|i: int|
                0 <= i < fields.len() && (#[trigger] fields[i]).ty is Type ==> rewritten[i].ty
                    == fields[i].ty
            &&& forall|i: int|
                0 <= i < fields.len() && (#[trigger] fields[i]).ty is Def ==> rewritten[i].ty
                    == SpecialTypeView::Type(
                    reference(fields[i].ty->Def_0.ident, fields[i].fish),
                ) && names(list).contains(fields[i].ty->Def_0.ident)
        }),
{
    let list = unpack_special(d, inherited, next)->Ok_0;
    let resolved = resolve(inherited, d.attrs + next)->Ok_0;
    let fields = field_list(d.body->Struct_fields);
    law_order(d, inherited, next);
    match d.body->Struct_fields {
        FieldsView::Unit => {},
        _ => {
            law_fields_one_by_one(fields, fields.len(), resolved.inherited, Seq::empty());
            let inner = nested_in_field_list(fields, fields.len());
            assert forall|i: int|
                0 <= i < fields.len() && (#[trigger] fields[i]).ty is Def implies names(
                list,
            ).contains(fields[i].ty->Def_0.ident) by {
                let k = choose|k: int| 0 <= k < inner.len() && inner[k] == fields[i].ty->Def_0.ident;
                assert((seq![d.ident] + inner)[k + 1] == inner[k]);
            }
        },
    }
}

} // verus!
