//! Flattening: a definition and the definitions nested in it become one
//! ordered list of definitions that no longer nest.

use vstd::prelude::*;
use crate::attributes::{
    Attribute, CompositeAttribute, CompositeAttributeView, FieldAttribute, FieldAttributeView,
};
use crate::discriminant::Discriminant;
use crate::fish::FishHook;
use crate::special_data::{
    Body, BodyEnum, BodyStruct, BodyView, FieldView, FieldsNamed, FieldsUnnamed, FieldsView,
    Special, SpecialField, SpecialFields, SpecialVariant, SpecialView, VariantView,
    lemma_field_list_view, lemma_variant_list_view,
};
use crate::token::{Token, TokenView, clone_tokens, extend_tokens};
use crate::ty::augmented::{ArgumentView, ArgumentsView, PathView, SegmentView, TypePathView};
use crate::ty::{SpecialType, SpecialTypeView};
use crate::unpack_context::{ScopeError, UnpackContext, field_scoped, nested_scoped, resolve};

verus! {

/// A failure to flatten: the attributes of one definition do not resolve.
#[derive(Debug)]
pub struct UnpackError {
    /// The name of the definition.
    pub definition: String,
    pub error: ScopeError,
}

/// The mathematical value of an [`UnpackError`].
pub struct UnpackErrorView {
    pub definition: Seq<char>,
    pub error: ScopeError,
}

impl DeepView for UnpackError {
    type V = UnpackErrorView;

    open spec fn deep_view(&self) -> UnpackErrorView {
        UnpackErrorView { definition: self.definition@, error: self.error }
    }
}

/// The attributes of a flat definition: each payload, without modifier.
pub open spec fn plain_attributes(emitted: Seq<Seq<TokenView>>) -> Seq<CompositeAttributeView> {
    Seq::new(emitted.len(), |i: int| CompositeAttributeView { meta: emitted[i], modifier: None })
}

/// The attributes of a flat field or variant: each payload, applied to the
/// field or variant itself.
pub open spec fn plain_field_attributes(own: Seq<Seq<TokenView>>) -> Seq<FieldAttributeView> {
    Seq::new(own.len(), |i: int| FieldAttributeView::Field(own[i]))
}

/// The type that stands for a nested definition: its name, followed by the
/// generic hook's arguments where there is a hook.
pub open spec fn reference(name: Seq<char>, fish: Option<Seq<TokenView>>) -> Seq<TokenView> {
    seq![TokenView::Ident(name)] + match fish {
        Some(generics) => generics,
        None => Seq::empty(),
    }
}

/// The flat list for the definition `d`, which inherits `inherited` and on
/// which the enclosing field or variant has put `next`: `d` rewritten, then
/// the flat lists of the definitions nested in it, in the order of the
/// fields.
pub open spec fn unpack_special(
    d: SpecialView,
    inherited: Seq<Seq<TokenView>>,
    next: Seq<CompositeAttributeView>,
) -> Result<Seq<SpecialView>, UnpackErrorView>
    decreases d, 0nat,
{
    match resolve(inherited, d.attrs + next) {
        Err(error) => Err(UnpackErrorView { definition: d.ident, error }),
        Ok(resolved) => match d.body {
            BodyView::Struct { fields, semi_token } => match unpack_fields(
                fields,
                resolved.inherited,
                Seq::empty(),
            ) {
                Err(e) => Err(e),
                Ok((fields, definitions)) => Ok(
                    seq![
                        SpecialView {
                            attrs: plain_attributes(resolved.emitted),
                            vis: d.vis,
                            ident: d.ident,
                            generics: d.generics,
                            where_clause: d.where_clause,
                            body: BodyView::Struct { fields, semi_token },
                        },
                    ] + definitions,
                ),
            },
            BodyView::Enum { variants } => match unpack_variants(
                variants,
                variants.len(),
                resolved.inherited,
            ) {
                Err(e) => Err(e),
                Ok((variants, definitions)) => Ok(
                    seq![
                        SpecialView {
                            attrs: plain_attributes(resolved.emitted),
                            vis: d.vis,
                            ident: d.ident,
                            generics: d.generics,
                            where_clause: d.where_clause,
                            body: BodyView::Enum { variants },
                        },
                    ] + definitions,
                ),
            },
        },
    }
}

/// The first `n` variants rewritten, and the flat lists of the definitions
/// nested in them.
pub open spec fn unpack_variants(
    variants: Seq<VariantView>,
    n: nat,
    inherited: Seq<Seq<TokenView>>,
) -> Result<(Seq<VariantView>, Seq<SpecialView>), UnpackErrorView>
    decreases variants, n,
{
    if n == 0 || n > variants.len() {
        Ok((Seq::empty(), Seq::empty()))
    } else {
        match unpack_variants(variants, (n - 1) as nat, inherited) {
            Err(e) => Err(e),
            Ok((done, definitions)) => {
                let v = variants[n - 1];
                match unpack_fields(v.fields, inherited, nested_scoped(v.attrs)) {
                    Err(e) => Err(e),
                    Ok((fields, more)) => Ok(
                        (
                            done.push(
                                VariantView {
                                    attrs: plain_field_attributes(field_scoped(v.attrs)),
                                    ident: v.ident,
                                    fields,
                                    discriminant: v.discriminant,
                                },
                            ),
                            definitions + more,
                        ),
                    ),
                }
            },
        }
    }
}

/// A group of fields rewritten, and the flat lists of the definitions
/// nested in it.
pub open spec fn unpack_fields(
    fields: FieldsView,
    inherited: Seq<Seq<TokenView>>,
    from_variant: Seq<CompositeAttributeView>,
) -> Result<(FieldsView, Seq<SpecialView>), UnpackErrorView>
    decreases fields, 0nat,
{
    match fields {
        FieldsView::Named(list) => match unpack_field_list(
            list,
            list.len(),
            inherited,
            from_variant,
        ) {
            Err(e) => Err(e),
            Ok((list, definitions)) => Ok((FieldsView::Named(list), definitions)),
        },
        FieldsView::Unnamed(list) => match unpack_field_list(
            list,
            list.len(),
            inherited,
            from_variant,
        ) {
            Err(e) => Err(e),
            Ok((list, definitions)) => Ok((FieldsView::Unnamed(list), definitions)),
        },
        FieldsView::Unit => Ok((FieldsView::Unit, Seq::empty())),
    }
}

/// The first `n` fields rewritten, and the flat lists of the definitions
/// nested in them.
pub open spec fn unpack_field_list(
    list: Seq<FieldView>,
    n: nat,
    inherited: Seq<Seq<TokenView>>,
    from_variant: Seq<CompositeAttributeView>,
) -> Result<(Seq<FieldView>, Seq<SpecialView>), UnpackErrorView>
    decreases list, n,
{
    if n == 0 || n > list.len() {
        Ok((Seq::empty(), Seq::empty()))
    } else {
        match unpack_field_list(list, (n - 1) as nat, inherited, from_variant) {
            Err(e) => Err(e),
            Ok((done, definitions)) => match unpack_field(list[n - 1], inherited, from_variant) {
                Err(e) => Err(e),
                Ok((field, more)) => Ok((done.push(field), definitions + more)),
            },
        }
    }
}

/// A field rewritten, and the flat lists of the definitions nested in its
/// type.
pub open spec fn unpack_field(
    f: FieldView,
    inherited: Seq<Seq<TokenView>>,
    from_variant: Seq<CompositeAttributeView>,
) -> Result<(FieldView, Seq<SpecialView>), UnpackErrorView>
    decreases f, 0nat,
{
    match unpack_type(f.ty, f.fish, inherited, nested_scoped(f.attrs) + from_variant) {
        Err(e) => Err(e),
        Ok((ty, definitions)) => Ok(
            (
                FieldView {
                    attrs: plain_field_attributes(field_scoped(f.attrs)),
                    vis: f.vis,
                    ident: f.ident,
                    ty,
                    fish: None,
                },
                definitions,
            ),
        ),
    }
}

/// What stands for a type once the definitions in it are taken out, and
/// their flat lists. An ordinary type stays as it is.
pub open spec fn unpack_type(
    ty: SpecialTypeView,
    fish: Option<Seq<TokenView>>,
    inherited: Seq<Seq<TokenView>>,
    next: Seq<CompositeAttributeView>,
) -> Result<(SpecialTypeView, Seq<SpecialView>), UnpackErrorView>
    decreases ty, 0nat,
{
    match ty {
        SpecialTypeView::Type(tokens) => Ok((SpecialTypeView::Type(tokens), Seq::empty())),
        SpecialTypeView::Def(special) => match unpack_special(*special, inherited, next) {
            Err(e) => Err(e),
            Ok(definitions) => Ok(
                (SpecialTypeView::Type(reference(special.ident, fish)), definitions),
            ),
        },
        SpecialTypeView::Augmented(path) => match unpack_path_type(path, inherited, next) {
            Err(e) => Err(e),
            Ok((path, definitions)) => Ok((SpecialTypeView::Augmented(path), definitions)),
        },
    }
}

/// A path type with the definitions among its generic arguments taken out,
/// and their flat lists.
pub open spec fn unpack_path_type(
    path: TypePathView,
    inherited: Seq<Seq<TokenView>>,
    next: Seq<CompositeAttributeView>,
) -> Result<(TypePathView, Seq<SpecialView>), UnpackErrorView>
    decreases path, 0nat,
{
    match unpack_path(path.path, inherited, next) {
        Err(e) => Err(e),
        Ok((p, definitions)) => Ok((TypePathView { qself: path.qself, path: p }, definitions)),
    }
}

/// A path with the definitions among its generic arguments taken out, and
/// their flat lists.
pub open spec fn unpack_path(
    path: PathView,
    inherited: Seq<Seq<TokenView>>,
    next: Seq<CompositeAttributeView>,
) -> Result<(PathView, Seq<SpecialView>), UnpackErrorView>
    decreases path, 0nat,
{
    match unpack_segments(path.segments, path.segments.len(), inherited, next) {
        Err(e) => Err(e),
        Ok((segments, definitions)) => Ok(
            (PathView { leading_colon: path.leading_colon, segments }, definitions),
        ),
    }
}

/// The first `n` segments of a path rewritten, and the flat lists of the
/// definitions among their generic arguments.
pub open spec fn unpack_segments(
    segments: Seq<SegmentView>,
    n: nat,
    inherited: Seq<Seq<TokenView>>,
    next: Seq<CompositeAttributeView>,
) -> Result<(Seq<SegmentView>, Seq<SpecialView>), UnpackErrorView>
    decreases segments, n,
{
    if n == 0 || n > segments.len() {
        Ok((Seq::empty(), Seq::empty()))
    } else {
        match unpack_segments(segments, (n - 1) as nat, inherited, next) {
            Err(e) => Err(e),
            Ok((done, definitions)) => match unpack_segment(segments[n - 1], inherited, next) {
                Err(e) => Err(e),
                Ok((segment, more)) => Ok((done.push(segment), definitions + more)),
            },
        }
    }
}

/// A path segment rewritten, and the flat lists of the definitions among
/// its generic arguments.
pub open spec fn unpack_segment(
    s: SegmentView,
    inherited: Seq<Seq<TokenView>>,
    next: Seq<CompositeAttributeView>,
) -> Result<(SegmentView, Seq<SpecialView>), UnpackErrorView>
    decreases s, 0nat,
{
    match unpack_path_arguments(s.arguments, inherited, next) {
        Err(e) => Err(e),
        Ok((arguments, definitions)) => Ok((SegmentView { ident: s.ident, arguments }, definitions)),
    }
}

/// The generic arguments of a segment rewritten, and the flat lists of the
/// definitions among them.
pub open spec fn unpack_path_arguments(
    arguments: Option<ArgumentsView>,
    inherited: Seq<Seq<TokenView>>,
    next: Seq<CompositeAttributeView>,
) -> Result<(Option<ArgumentsView>, Seq<SpecialView>), UnpackErrorView>
    decreases arguments, 1nat,
{
    match arguments {
        None => Ok((None, Seq::empty())),
        Some(a) => match unpack_angle_bracketed(a, inherited, next) {
            Err(e) => Err(e),
            Ok((a, definitions)) => Ok((Some(a), definitions)),
        },
    }
}

/// An angle-bracketed list of generic arguments rewritten, and the flat
/// lists of the definitions among them.
pub open spec fn unpack_angle_bracketed(
    a: ArgumentsView,
    inherited: Seq<Seq<TokenView>>,
    next: Seq<CompositeAttributeView>,
) -> Result<(ArgumentsView, Seq<SpecialView>), UnpackErrorView>
    decreases a, 0nat,
{
    match unpack_arguments(a.args, a.args.len(), inherited, next) {
        Err(e) => Err(e),
        Ok((args, definitions)) => Ok(
            (ArgumentsView { colon2_token: a.colon2_token, args }, definitions),
        ),
    }
}

/// The first `n` generic arguments rewritten, and the flat lists of the
/// definitions among them.
pub open spec fn unpack_arguments(
    args: Seq<ArgumentView>,
    n: nat,
    inherited: Seq<Seq<TokenView>>,
    next: Seq<CompositeAttributeView>,
) -> Result<(Seq<ArgumentView>, Seq<SpecialView>), UnpackErrorView>
    decreases args, n,
{
    if n == 0 || n > args.len() {
        Ok((Seq::empty(), Seq::empty()))
    } else {
        match unpack_arguments(args, (n - 1) as nat, inherited, next) {
            Err(e) => Err(e),
            Ok((done, definitions)) => match unpack_argument(args[n - 1], inherited, next) {
                Err(e) => Err(e),
                Ok((argument, more)) => Ok((done.push(argument), definitions + more)),
            },
        }
    }
}

/// A generic argument rewritten, and the flat lists of the definitions in
/// it. Only a type can hold definitions.
pub open spec fn unpack_argument(
    a: ArgumentView,
    inherited: Seq<Seq<TokenView>>,
    next: Seq<CompositeAttributeView>,
) -> Result<(ArgumentView, Seq<SpecialView>), UnpackErrorView>
    decreases a, 0nat,
{
    match a {
        ArgumentView::Type(ty, fish) => match unpack_type(ty, fish, inherited, next) {
            Err(e) => Err(e),
            Ok((ty, definitions)) => Ok((ArgumentView::Type(ty, None), definitions)),
        },
        other => Ok((other, Seq::empty())),
    }
}

/// Whether a result of flattening has the given value.
pub open spec fn agrees<T: DeepView>(
    r: Result<T, UnpackError>,
    value: Result<T::V, UnpackErrorView>,
) -> bool {
    match r {
        Ok(x) => value == Ok::<T::V, UnpackErrorView>(x.deep_view()),
        Err(e) => value == Err::<T::V, UnpackErrorView>(e.deep_view()),
    }
}

/// A failure among the first `n` variants is the failure of any longer run.
pub proof fn lemma_variant_failure_stays(
    variants: Seq<VariantView>,
    n: nat,
    m: nat,
    inherited: Seq<Seq<TokenView>>,
)
    requires
        n <= m <= variants.len(),
        unpack_variants(variants, n, inherited) is Err,
    ensures
        unpack_variants(variants, m, inherited) == unpack_variants(variants, n, inherited),
    decreases m,
{
    if n < m {
        lemma_variant_failure_stays(variants, n, (m - 1) as nat, inherited);
    }
}

/// A failure among the first `n` fields is the failure of any longer run.
pub proof fn lemma_field_failure_stays(
    list: Seq<FieldView>,
    n: nat,
    m: nat,
    inherited: Seq<Seq<TokenView>>,
    from_variant: Seq<CompositeAttributeView>,
)
    requires
        n <= m <= list.len(),
        unpack_field_list(list, n, inherited, from_variant) is Err,
    ensures
        unpack_field_list(list, m, inherited, from_variant) == unpack_field_list(
            list,
            n,
            inherited,
            from_variant,
        ),
    decreases m,
{
    if n < m {
        lemma_field_failure_stays(list, n, (m - 1) as nat, inherited, from_variant);
    }
}

/// A failure among the first `n` segments is the failure of any longer run.
pub proof fn lemma_segment_failure_stays(
    segments: Seq<SegmentView>,
    n: nat,
    m: nat,
    inherited: Seq<Seq<TokenView>>,
    next: Seq<CompositeAttributeView>,
)
    requires
        n <= m <= segments.len(),
        unpack_segments(segments, n, inherited, next) is Err,
    ensures
        unpack_segments(segments, m, inherited, next) == unpack_segments(
            segments,
            n,
            inherited,
            next,
        ),
    decreases m,
{
    if n < m {
        lemma_segment_failure_stays(segments, n, (m - 1) as nat, inherited, next);
    }
}

/// A failure among the first `n` arguments is the failure of any longer run.
pub proof fn lemma_argument_failure_stays(
    args: Seq<ArgumentView>,
    n: nat,
    m: nat,
    inherited: Seq<Seq<TokenView>>,
    next: Seq<CompositeAttributeView>,
)
    requires
        n <= m <= args.len(),
        unpack_arguments(args, n, inherited, next) is Err,
    ensures
        unpack_arguments(args, m, inherited, next) == unpack_arguments(args, n, inherited, next),
    decreases m,
{
    if n < m {
        lemma_argument_failure_stays(args, n, (m - 1) as nat, inherited, next);
    }
}

/// The attributes of `a` followed by those of `b`.
fn concat_composites(a: &Vec<CompositeAttribute>, b: &Vec<CompositeAttribute>) -> (r: Vec<
    CompositeAttribute,
>)
    ensures
        r.deep_view() == a.deep_view() + b.deep_view(),
{
    let mut out: Vec<CompositeAttribute> = Vec::new();
    let mut i: usize = 0;
    while i < a.len()
        invariant
            i <= a.len(),
            out.len() == i,
            forall|k: int| 0 <= k < i ==> out[k].deep_view() == a[k].deep_view(),
        decreases a.len() - i,
    {
        out.push(a[i].duplicate());
        i += 1;
    }
    let mut j: usize = 0;
    while j < b.len()
        invariant
            j <= b.len(),
            out.len() == a.len() + j,
            forall|k: int| 0 <= k < a.len() ==> out[k].deep_view() == a[k].deep_view(),
            forall|k: int| 0 <= k < j ==> out[a.len() + k].deep_view() == b[k].deep_view(),
        decreases b.len() - j,
    {
        out.push(b[j].duplicate());
        j += 1;
    }
    assert(out.deep_view() =~= a.deep_view() + b.deep_view());
    out
}

/// The attributes as those of a flat definition.
fn plain(emitted: &Vec<Attribute>) -> (r: Vec<CompositeAttribute>)
    ensures
        r.deep_view() == plain_attributes(emitted.deep_view()),
{
    let mut out: Vec<CompositeAttribute> = Vec::new();
    let mut i: usize = 0;
    while i < emitted.len()
        invariant
            i <= emitted.len(),
            out.len() == i,
            forall|k: int|
                0 <= k < i ==> out[k].deep_view() == (CompositeAttributeView {
                    meta: emitted[k].deep_view(),
                    modifier: None,
                }),
        decreases emitted.len() - i,
    {
        out.push(CompositeAttribute { meta: clone_tokens(&emitted[i].meta), modifier: None });
        i += 1;
    }
    assert(out.deep_view() =~= plain_attributes(emitted.deep_view()));
    out
}

/// The attributes as those of a flat field or variant.
fn plain_fields(own: &Vec<Attribute>) -> (r: Vec<FieldAttribute>)
    ensures
        r.deep_view() == plain_field_attributes(own.deep_view()),
{
    let mut out: Vec<FieldAttribute> = Vec::new();
    let mut i: usize = 0;
    while i < own.len()
        invariant
            i <= own.len(),
            out.len() == i,
            forall|k: int|
                0 <= k < i ==> out[k].deep_view() == FieldAttributeView::Field(
                    own[k].deep_view(),
                ),
        decreases own.len() - i,
    {
        out.push(FieldAttribute::Field(own[i].duplicate()));
        i += 1;
    }
    assert(out.deep_view() =~= plain_field_attributes(own.deep_view()));
    out
}

/// The type that stands for a nested definition of the given name.
pub fn type_from_ident_and_fish(ident: &String, fish: &Option<FishHook>) -> (r: Vec<Token>)
    ensures
        r.deep_view() == reference(ident@, fish.deep_view()),
{
    let mut out: Vec<Token> = Vec::new();
    out.push(Token::Ident(ident.clone()));
    assert(out.deep_view() =~= seq![TokenView::Ident(ident@)]);
    match fish {
        Some(hook) => {
            extend_tokens(&mut out, &hook.generics);
        },
        None => {
            assert(out.deep_view() + Seq::<TokenView>::empty() =~= out.deep_view());
        },
    }
    out
}

impl Special {
    /// Flattens the definition: the result holds the definition itself,
    /// rewritten so that a reference stands where a definition was nested,
    /// and after it the flat lists of the nested definitions, in the order
    /// of the fields. `unpack_context` holds the attributes that the
    /// definition inherits, `next` those that the enclosing field or variant
    /// has put on it.
    pub fn unpack(&self, unpack_context: UnpackContext, next: Vec<CompositeAttribute>) -> (r:
        Result<Vec<Special>, UnpackError>)
        ensures
            agrees(
                r,
                unpack_special(self.deep_view(), unpack_context.deep_view(), next.deep_view()),
            ),
        decreases self,
    {
        let mut context = unpack_context;
        let attrs = concat_composites(&self.attrs, &next);
        let emitted = match context.modify_composite(attrs) {
            Ok(emitted) => emitted,
            Err(error) => {
                return Err(UnpackError { definition: self.ident.clone(), error });
            },
        };
        let attrs = plain(&emitted);
        let mut out: Vec<Special> = Vec::new();
        match &self.body {
            Body::Struct(body) => {
                let none: Vec<CompositeAttribute> = Vec::new();
                assert(none.deep_view() =~= Seq::empty());
                let (fields, mut definitions) = match body.fields.unpack(&context, &none) {
                    Ok(pair) => pair,
                    Err(e) => {
                        return Err(e);
                    },
                };
                let first = Special {
                    attrs,
                    vis: clone_tokens(&self.vis),
                    ident: self.ident.clone(),
                    generics: clone_tokens(&self.generics),
                    where_clause: clone_tokens(&self.where_clause),
                    body: Body::Struct(BodyStruct { fields, semi_token: body.semi_token }),
                };
                let ghost first_view = first.deep_view();
                let ghost rest_view = definitions.deep_view();
                out.push(first);
                out.append(&mut definitions);
                assert(out.deep_view() =~= seq![first_view] + rest_view);
                Ok(out)
            },
            Body::Enum(body) => {
                proof {
                    lemma_variant_list_view(body.variants);
                }
                let (variants, mut definitions) = match unpack_variant_list(
                    &body.variants,
                    &context,
                ) {
                    Ok(pair) => pair,
                    Err(e) => {
                        return Err(e);
                    },
                };
                proof {
                    lemma_variant_list_view(variants);
                }
                let first = Special {
                    attrs,
                    vis: clone_tokens(&self.vis),
                    ident: self.ident.clone(),
                    generics: clone_tokens(&self.generics),
                    where_clause: clone_tokens(&self.where_clause),
                    body: Body::Enum(BodyEnum { variants }),
                };
                let ghost first_view = first.deep_view();
                let ghost rest_view = definitions.deep_view();
                out.push(first);
                out.append(&mut definitions);
                assert(out.deep_view() =~= seq![first_view] + rest_view);
                Ok(out)
            },
        }
    }
}

/// Flattens the variants of an enum, each with its own copy of the context.
fn unpack_variant_list(variants: &Vec<SpecialVariant>, context: &UnpackContext) -> (r: Result<
    (Vec<SpecialVariant>, Vec<Special>),
    UnpackError,
>)
    ensures
        agrees(
            r,
            unpack_variants(variants.deep_view(), variants.len() as nat, context.deep_view()),
        ),
    decreases variants,
{
    let mut done: Vec<SpecialVariant> = Vec::new();
    let mut definitions: Vec<Special> = Vec::new();
    let ghost all = variants.deep_view();
    let ghost inherited = context.deep_view();
    assert(done.deep_view() =~= Seq::empty());
    assert(definitions.deep_view() =~= Seq::empty());
    let mut i: usize = 0;
    while i < variants.len()
        invariant
            i <= variants.len(),
            all == variants.deep_view(),
            inherited == context.deep_view(),
            unpack_variants(all, i as nat, inherited) == Ok::<
                (Seq<VariantView>, Seq<SpecialView>),
                UnpackErrorView,
            >((done.deep_view(), definitions.deep_view())),
        decreases variants.len() - i,
    {
        let variant = &variants[i];
        assert(all[i as int] == variant.deep_view());
        let (attrs, next) = UnpackContext::filter_field_nested(&variant.attrs);
        let (fields, mut more) = match variant.fields.unpack(context, &next) {
            Ok(pair) => pair,
            Err(e) => {
                proof {
                    lemma_variant_failure_stays(all, (i + 1) as nat, all.len(), inherited);
                }
                return Err(e);
            },
        };
        let discriminant = match &variant.discriminant {
            Some(d) => Some(Discriminant { expr: clone_tokens(&d.expr) }),
            None => None,
        };
        let rewritten = SpecialVariant {
            attrs: plain_fields(&attrs),
            ident: variant.ident.clone(),
            fields,
            discriminant,
        };
        let ghost done_before = done.deep_view();
        let ghost definitions_before = definitions.deep_view();
        let ghost more_view = more.deep_view();
        let ghost rewritten_view = rewritten.deep_view();
        done.push(rewritten);
        definitions.append(&mut more);
        assert(done.deep_view() =~= done_before.push(rewritten_view));
        assert(definitions.deep_view() =~= definitions_before + more_view);
        i += 1;
    }
    Ok((done, definitions))
}

impl SpecialFields {
    /// Flattens a group of fields: the fields rewritten, and the flat lists
    /// of the definitions nested in them. `from_variant` holds what the
    /// enclosing variant has put on the definitions nested in its fields.
    pub fn unpack(&self, unpack_context: &UnpackContext, next: &Vec<CompositeAttribute>) -> (r:
        Result<(SpecialFields, Vec<Special>), UnpackError>)
        ensures
            agrees(
                r,
                unpack_fields(self.deep_view(), unpack_context.deep_view(), next.deep_view()),
            ),
        decreases self, 1nat,
    {
        match self {
            SpecialFields::Named(named) => match named.unpack(unpack_context, next) {
                Ok((fields, definitions)) => {
                    proof {
                        lemma_field_list_view(named.named);
                        lemma_field_list_view(fields.named);
                    }
                    Ok((SpecialFields::Named(fields), definitions))
                },
                Err(e) => {
                    proof {
                        lemma_field_list_view(named.named);
                    }
                    Err(e)
                },
            },
            SpecialFields::Unnamed(unnamed) => match unnamed.unpack(unpack_context, next) {
                Ok((fields, definitions)) => {
                    proof {
                        lemma_field_list_view(unnamed.unnamed);
                        lemma_field_list_view(fields.unnamed);
                    }
                    Ok((SpecialFields::Unnamed(fields), definitions))
                },
                Err(e) => {
                    proof {
                        lemma_field_list_view(unnamed.unnamed);
                    }
                    Err(e)
                },
            },
            SpecialFields::Unit => {
                let definitions: Vec<Special> = Vec::new();
                assert(definitions.deep_view() =~= Seq::empty());
                Ok((SpecialFields::Unit, definitions))
            },
        }
    }
}

impl FieldsNamed {
    /// Flattens named fields.
    pub fn unpack(&self, unpack_context: &UnpackContext, from_variant: &Vec<CompositeAttribute>)
        -> (r: Result<(FieldsNamed, Vec<Special>), UnpackError>)
        ensures
            match r {
                Ok((fields, definitions)) => unpack_field_list(
                    self.named.deep_view(),
                    self.named.len() as nat,
                    unpack_context.deep_view(),
                    from_variant.deep_view(),
                ) == Ok::<(Seq<FieldView>, Seq<SpecialView>), UnpackErrorView>(
                    (fields.named.deep_view(), definitions.deep_view()),
                ),
                Err(e) => unpack_field_list(
                    self.named.deep_view(),
                    self.named.len() as nat,
                    unpack_context.deep_view(),
                    from_variant.deep_view(),
                ) == Err::<(Seq<FieldView>, Seq<SpecialView>), UnpackErrorView>(e.deep_view()),
            },
        decreases self, 0nat,
    {
        match unpack_field_vec(&self.named, unpack_context, from_variant) {
            Ok((named, definitions)) => Ok((FieldsNamed { named }, definitions)),
            Err(e) => Err(e),
        }
    }
}

impl FieldsUnnamed {
    /// Flattens unnamed fields.
    pub fn unpack(&self, unpack_context: &UnpackContext, from_variant: &Vec<CompositeAttribute>)
        -> (r: Result<(FieldsUnnamed, Vec<Special>), UnpackError>)
        ensures
            match r {
                Ok((fields, definitions)) => unpack_field_list(
                    self.unnamed.deep_view(),
                    self.unnamed.len() as nat,
                    unpack_context.deep_view(),
                    from_variant.deep_view(),
                ) == Ok::<(Seq<FieldView>, Seq<SpecialView>), UnpackErrorView>(
                    (fields.unnamed.deep_view(), definitions.deep_view()),
                ),
                Err(e) => unpack_field_list(
                    self.unnamed.deep_view(),
                    self.unnamed.len() as nat,
                    unpack_context.deep_view(),
                    from_variant.deep_view(),
                ) == Err::<(Seq<FieldView>, Seq<SpecialView>), UnpackErrorView>(e.deep_view()),
            },
        decreases self, 0nat,
    {
        match unpack_field_vec(&self.unnamed, unpack_context, from_variant) {
            Ok((unnamed, definitions)) => Ok((FieldsUnnamed { unnamed }, definitions)),
            Err(e) => Err(e),
        }
    }
}

/// Flattens the fields of a list in order, each with the same inherited
/// attributes.
fn unpack_field_vec(
    list: &Vec<SpecialField>,
    context: &UnpackContext,
    from_variant: &Vec<CompositeAttribute>,
) -> (r: Result<(Vec<SpecialField>, Vec<Special>), UnpackError>)
    ensures
        agrees(
            r,
            unpack_field_list(
                list.deep_view(),
                list.len() as nat,
                context.deep_view(),
                from_variant.deep_view(),
            ),
        ),
    decreases list,
{
    let mut done: Vec<SpecialField> = Vec::new();
    let mut definitions: Vec<Special> = Vec::new();
    let ghost all = list.deep_view();
    let ghost inherited = context.deep_view();
    let ghost extra = from_variant.deep_view();
    assert(done.deep_view() =~= Seq::empty());
    assert(definitions.deep_view() =~= Seq::empty());
    let mut i: usize = 0;
    while i < list.len()
        invariant
            i <= list.len(),
            all == list.deep_view(),
            inherited == context.deep_view(),
            extra == from_variant.deep_view(),
            unpack_field_list(all, i as nat, inherited, extra) == Ok::<
                (Seq<FieldView>, Seq<SpecialView>),
                UnpackErrorView,
            >((done.deep_view(), definitions.deep_view())),
        decreases list.len() - i,
    {
        assert(all[i as int] == list[i as int].deep_view());
        let (field, mut more) = match list[i].unpack(context, from_variant) {
            Ok(pair) => pair,
            Err(e) => {
                proof {
                    lemma_field_failure_stays(all, (i + 1) as nat, all.len(), inherited, extra);
                }
                return Err(e);
            },
        };
        let ghost done_before = done.deep_view();
        let ghost definitions_before = definitions.deep_view();
        let ghost more_view = more.deep_view();
        let ghost field_view = field.deep_view();
        done.push(field);
        definitions.append(&mut more);
        assert(done.deep_view() =~= done_before.push(field_view));
        assert(definitions.deep_view() =~= definitions_before + more_view);
        i += 1;
    }
    Ok((done, definitions))
}

impl SpecialField {
    /// Flattens one field: the field with its type rewritten, and the flat
    /// lists of the definitions nested in its type.
    pub fn unpack(&self, unpack_context: &UnpackContext, from_variant: &Vec<CompositeAttribute>)
        -> (r: Result<(SpecialField, Vec<Special>), UnpackError>)
        ensures
            agrees(
                r,
                unpack_field(
                    self.deep_view(),
                    unpack_context.deep_view(),
                    from_variant.deep_view(),
                ),
            ),
        decreases self,
    {
        let (attrs, nested) = UnpackContext::filter_field_nested(&self.attrs);
        let next = concat_composites(&nested, from_variant);
        let (ty, definitions) = match self.ty.unpack(&self.fish, unpack_context, &next) {
            Ok(pair) => pair,
            Err(e) => {
                return Err(e);
            },
        };
        let ident = match &self.ident {
            Some(name) => Some(name.clone()),
            None => None,
        };
        Ok(
            (
                SpecialField {
                    attrs: plain_fields(&attrs),
                    vis: clone_tokens(&self.vis),
                    ident,
                    ty,
                    fish: None,
                },
                definitions,
            ),
        )
    }
}

impl SpecialType {
    /// Takes the definitions out of a type: what stands for the type
    /// afterwards, and the flat lists of the definitions. `fish` is the
    /// generic hook that follows the type.
    pub fn unpack(
        &self,
        fish: &Option<FishHook>,
        unpack_context: &UnpackContext,
        next: &Vec<CompositeAttribute>,
    ) -> (r: Result<(SpecialType, Vec<Special>), UnpackError>)
        ensures
            agrees(
                r,
                unpack_type(
                    self.deep_view(),
                    fish.deep_view(),
                    unpack_context.deep_view(),
                    next.deep_view(),
                ),
            ),
        decreases self,
    {
        match self {
            SpecialType::Type(tokens) => {
                let definitions: Vec<Special> = Vec::new();
                assert(definitions.deep_view() =~= Seq::empty());
                Ok((SpecialType::Type(clone_tokens(tokens)), definitions))
            },
            SpecialType::Def(special) => {
                let ty = type_from_ident_and_fish(&special.ident, fish);
                let attrs = concat_composites(next, &Vec::new());
                assert(attrs.deep_view() =~= next.deep_view());
                match special.unpack(unpack_context.duplicate(), attrs) {
                    Ok(definitions) => Ok((SpecialType::Type(ty), definitions)),
                    Err(e) => Err(e),
                }
            },
            SpecialType::Augmented(augmented) => match augmented.unpack(unpack_context, next) {
                Ok((ty, definitions)) => Ok((SpecialType::Augmented(ty), definitions)),
                Err(e) => Err(e),
            },
        }
    }
}

} // verus!
