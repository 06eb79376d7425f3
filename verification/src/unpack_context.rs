//! The attributes in force while the tree of definitions is walked.

use vstd::prelude::*;
use crate::attributes::{
    Attribute, AttributeModifier, CompositeAttribute, CompositeAttributeView, FieldAttribute,
    FieldAttributeView,
};
use crate::token::{TokenView, clone_tokens};

verus! {

/// Why the attributes of a definition cannot be resolved.
#[derive(Clone, Copy, PartialEq, Eq, Debug, Structural)]
pub enum ScopeErrorKind {
    /// An attribute without modifier, or with `*`, is already in force.
    AlreadyActive,
    /// An attribute with `/` or `-` is not in force.
    NotActive,
}

/// A failure to resolve the attributes of a definition.
#[derive(Clone, Copy, PartialEq, Eq, Debug, Structural)]
pub struct ScopeError {
    pub kind: ScopeErrorKind,
    /// The place of the offending attribute among those of the definition.
    pub index: usize,
}

/// The state of the resolution of one definition's attributes.
pub struct Scope {
    /// The attributes in force: those inherited and those added here with
    /// `*`, less those removed here.
    pub frozen: Seq<Seq<TokenView>>,
    /// The inherited attributes that still apply to this definition.
    pub kept: Seq<Seq<TokenView>>,
    /// The definition's own attributes that apply to it.
    pub own: Seq<Seq<TokenView>>,
    /// The attributes that nested definitions inherit.
    pub stack: Seq<Seq<TokenView>>,
}

/// What resolving the attributes of one definition gives.
pub struct Resolved {
    /// The attributes that the definition carries.
    pub emitted: Seq<Seq<TokenView>>,
    /// The attributes that the definitions nested in it inherit.
    pub inherited: Seq<Seq<TokenView>>,
}

/// The test for a payload other than `a`.
pub open spec fn differs_from(a: Seq<TokenView>) -> spec_fn(Seq<TokenView>) -> bool {
    |x: Seq<TokenView>| x != a
}

/// The list without every occurrence of `a`.
pub open spec fn without(list: Seq<Seq<TokenView>>, a: Seq<TokenView>) -> Seq<Seq<TokenView>> {
    list.filter(differs_from(a))
}

/// The state in which the resolution of a definition starts.
pub open spec fn entry(stack: Seq<Seq<TokenView>>) -> Scope {
    Scope { frozen: stack, kept: stack, own: Seq::empty(), stack }
}

/// The effect of one attribute of the definition on the state.
pub open spec fn apply(s: Scope, attr: CompositeAttributeView) -> Result<Scope, ScopeErrorKind> {
    let a = attr.meta;
    match attr.modifier {
        None => if s.frozen.contains(a) {
            Err(ScopeErrorKind::AlreadyActive)
        } else {
            Ok(Scope { frozen: s.frozen, kept: s.kept, own: s.own.push(a), stack: s.stack })
        },
        Some(AttributeModifier::Star) => if s.frozen.contains(a) {
            Err(ScopeErrorKind::AlreadyActive)
        } else {
            Ok(
                Scope {
                    frozen: s.frozen.push(a),
                    kept: s.kept,
                    own: s.own.push(a),
                    stack: s.stack.push(a),
                },
            )
        },
        Some(AttributeModifier::Slash) => if !s.frozen.contains(a) {
            Err(ScopeErrorKind::NotActive)
        } else {
            Ok(
                Scope {
                    frozen: without(s.frozen, a),
                    kept: without(s.kept, a),
                    own: s.own,
                    stack: without(s.stack, a),
                },
            )
        },
        Some(AttributeModifier::Minus) => if !s.frozen.contains(a) {
            Err(ScopeErrorKind::NotActive)
        } else {
            Ok(
                Scope {
                    frozen: without(s.frozen, a),
                    kept: without(s.kept, a),
                    own: s.own,
                    stack: s.stack,
                },
            )
        },
    }
}

/// The state after the first `n` attributes of the definition, in the order
/// in which they are written, or the first failure among them.
pub open spec fn apply_first(s: Scope, locals: Seq<CompositeAttributeView>, n: nat) -> Result<
    Scope,
    ScopeError,
>
    decreases n,
{
    if n == 0 {
        Ok(s)
    } else {
        match apply_first(s, locals, (n - 1) as nat) {
            Err(e) => Err(e),
            Ok(t) => match apply(t, locals[n - 1]) {
                Ok(u) => Ok(u),
                Err(kind) => Err(ScopeError { kind, index: (n - 1) as usize }),
            },
        }
    }
}

/// The attributes that a definition carries and those that it hands down,
/// given the attributes that it inherits and those written on it.
pub open spec fn resolve(stack: Seq<Seq<TokenView>>, locals: Seq<CompositeAttributeView>) -> Result<
    Resolved,
    ScopeError,
> {
    match apply_first(entry(stack), locals, locals.len()) {
        Ok(s) => Ok(Resolved { emitted: s.kept + s.own, inherited: s.stack }),
        Err(e) => Err(e),
    }
}

/// The attributes of a field or variant that apply to the field or variant
/// itself, in order.
pub open spec fn field_scoped(attrs: Seq<FieldAttributeView>) -> Seq<Seq<TokenView>> {
    attrs.filter_map(
        |a: FieldAttributeView|
            match a {
                FieldAttributeView::Field(meta) => Some(meta),
                FieldAttributeView::Nested(_) => None,
            },
    )
}

/// The attributes of a field or variant that are meant for the definitions
/// nested in it, in order.
pub open spec fn nested_scoped(attrs: Seq<FieldAttributeView>) -> Seq<CompositeAttributeView> {
    attrs.filter_map(
        |a: FieldAttributeView|
            match a {
                FieldAttributeView::Field(_) => None,
                FieldAttributeView::Nested(c) => Some(c),
            },
    )
}

/// The attributes inherited from the enclosing definitions.
#[derive(Debug)]
pub struct UnpackContext {
    pub inherited: Vec<Attribute>,
}

impl DeepView for UnpackContext {
    type V = Seq<Seq<TokenView>>;

    open spec fn deep_view(&self) -> Seq<Seq<TokenView>> {
        self.inherited.deep_view()
    }
}

/// Whether the list holds an attribute with the payload of `a`.
fn holds(list: &Vec<Attribute>, a: &Attribute) -> (r: bool)
    ensures
        r == list.deep_view().contains(a.deep_view()),
{
    let mut i: usize = 0;
    while i < list.len()
        invariant
            i <= list.len(),
            forall|k: int| 0 <= k < i ==> list.deep_view()[k] != a.deep_view(),
        decreases list.len() - i,
    {
        if list[i].eq(a) {
            assert(list.deep_view()[i as int] == a.deep_view());
            return true;
        }
        i += 1;
    }
    false
}

/// A copy of the list.
fn copy_attributes(list: &Vec<Attribute>) -> (r: Vec<Attribute>)
    ensures
        r.deep_view() == list.deep_view(),
{
    let mut out: Vec<Attribute> = Vec::new();
    let mut i: usize = 0;
    while i < list.len()
        invariant
            i <= list.len(),
            out.len() == i,
            forall|k: int| 0 <= k < i ==> out[k].deep_view() == list[k].deep_view(),
        decreases list.len() - i,
    {
        out.push(list[i].duplicate());
        i += 1;
    }
    assert(out.deep_view() =~= list.deep_view());
    out
}

/// The list without the attributes that have the payload of `a`.
fn remove(list: &Vec<Attribute>, a: &Attribute) -> (r: Vec<Attribute>)
    ensures
        r.deep_view() == without(list.deep_view(), a.deep_view()),
{
    let ghost p = differs_from(a.deep_view());
    let mut out: Vec<Attribute> = Vec::new();
    let mut i: usize = 0;
    proof {
        reveal(Seq::filter);
        assert(list.deep_view().take(0) =~= Seq::empty());
        assert(out.deep_view() =~= Seq::empty());
    }
    while i < list.len()
        invariant
            i <= list.len(),
            p == differs_from(a.deep_view()),
            out.deep_view() == list.deep_view().take(i as int).filter(p),
        decreases list.len() - i,
    {
        let ghost before = out.deep_view();
        proof {
            reveal(Seq::filter);
            assert(list.deep_view().take(i + 1).drop_last() =~= list.deep_view().take(i as int));
            assert(list.deep_view().take(i + 1).last() == list.deep_view()[i as int]);
        }
        if !list[i].eq(a) {
            out.push(list[i].duplicate());
            assert(out.deep_view() =~= before.push(list.deep_view()[i as int]));
        }
        i += 1;
    }
    assert(list.deep_view().take(list.len() as int) =~= list.deep_view());
    out
}

impl Default for UnpackContext {
    /// A context in which nothing is inherited.
    fn default() -> (r: UnpackContext)
        ensures
            r.deep_view() == Seq::<Seq<TokenView>>::empty(),
    {
        UnpackContext::new()
    }
}

impl UnpackContext {
    /// A context in which nothing is inherited.
    pub fn new() -> (r: UnpackContext)
        ensures
            r.deep_view() == Seq::<Seq<TokenView>>::empty(),
    {
        let r = UnpackContext { inherited: Vec::new() };
        assert(r.deep_view() =~= Seq::empty());
        r
    }

    /// A copy of the context, for one branch of the tree.
    pub fn duplicate(&self) -> (r: UnpackContext)
        ensures
            r.deep_view() == self.deep_view(),
    {
        UnpackContext { inherited: copy_attributes(&self.inherited) }
    }

    /// Resolves the attributes written on a definition against those that it
    /// inherits. Returns the attributes that the definition carries and
    /// leaves in the context those that the definitions nested in it
    /// inherit. On failure the context is unchanged.
    pub fn modify_composite(&mut self, attributes: Vec<CompositeAttribute>) -> (r: Result<
        Vec<Attribute>,
        ScopeError,
    >)
        ensures
            match resolve(old(self).deep_view(), attributes.deep_view()) {
                Ok(resolved) => r is Ok && r->Ok_0.deep_view() == resolved.emitted
                    && final(self).deep_view() == resolved.inherited,
                Err(e) => r == Err::<Vec<Attribute>, ScopeError>(e) && final(self).deep_view()
                    == old(self).deep_view(),
            },
    {
        let mut frozen = copy_attributes(&self.inherited);
        let mut kept = copy_attributes(&self.inherited);
        let mut own: Vec<Attribute> = Vec::new();
        let mut stack = copy_attributes(&self.inherited);
        let ghost start = entry(self.deep_view());
        let ghost locals = attributes.deep_view();
        assert(own.deep_view() =~= Seq::empty());
        let mut i: usize = 0;
        while i < attributes.len()
            invariant
                i <= attributes.len(),
                locals == attributes.deep_view(),
                start == entry(self.deep_view()),
                apply_first(start, locals, i as nat) == Ok::<Scope, ScopeError>(
                    Scope {
                        frozen: frozen.deep_view(),
                        kept: kept.deep_view(),
                        own: own.deep_view(),
                        stack: stack.deep_view(),
                    },
                ),
            ensures
                i == attributes.len(),
                apply_first(start, locals, i as nat) == Ok::<Scope, ScopeError>(
                    Scope {
                        frozen: frozen.deep_view(),
                        kept: kept.deep_view(),
                        own: own.deep_view(),
                        stack: stack.deep_view(),
                    },
                ),
            decreases attributes.len() - i,
        {
            let a = Attribute { meta: clone_tokens(&attributes[i].meta) };
            let active = holds(&frozen, &a);
            let ghost before = Scope {
                frozen: frozen.deep_view(),
                kept: kept.deep_view(),
                own: own.deep_view(),
                stack: stack.deep_view(),
            };
            assert(locals[i as int] == attributes[i as int].deep_view());
            assert(a.deep_view() == locals[i as int].meta);
            match attributes[i].modifier {
                None => {
                    if active {
                        proof {
                            lemma_failure_stays(start, locals, (i + 1) as nat, locals.len());
                        }
                        return Err(ScopeError { kind: ScopeErrorKind::AlreadyActive, index: i });
                    }
                    own.push(a);
                    assert(own.deep_view() =~= before.own.push(locals[i as int].meta));
                },
                Some(AttributeModifier::Star) => {
                    if active {
                        proof {
                            lemma_failure_stays(start, locals, (i + 1) as nat, locals.len());
                        }
                        return Err(ScopeError { kind: ScopeErrorKind::AlreadyActive, index: i });
                    }
                    frozen.push(a.duplicate());
                    stack.push(a.duplicate());
                    own.push(a);
                    assert(own.deep_view() =~= before.own.push(locals[i as int].meta));
                    assert(frozen.deep_view() =~= before.frozen.push(locals[i as int].meta));
                    assert(stack.deep_view() =~= before.stack.push(locals[i as int].meta));
                },
                Some(AttributeModifier::Slash) => {
                    if !active {
                        proof {
                            lemma_failure_stays(start, locals, (i + 1) as nat, locals.len());
                        }
                        return Err(ScopeError { kind: ScopeErrorKind::NotActive, index: i });
                    }
                    frozen = remove(&frozen, &a);
                    kept = remove(&kept, &a);
                    stack = remove(&stack, &a);
                },
                Some(AttributeModifier::Minus) => {
                    if !active {
                        proof {
                            lemma_failure_stays(start, locals, (i + 1) as nat, locals.len());
                        }
                        return Err(ScopeError { kind: ScopeErrorKind::NotActive, index: i });
                    }
                    frozen = remove(&frozen, &a);
                    kept = remove(&kept, &a);
                },
            }
            i += 1;
        }
        let mut emitted = kept;
        let ghost kept_view = emitted.deep_view();
        let mut k: usize = 0;
        while k < own.len()
            invariant
                k <= own.len(),
                emitted.deep_view() == kept_view + own.deep_view().take(k as int),
            decreases own.len() - k,
        {
            let ghost prev = emitted.deep_view();
            emitted.push(own[k].duplicate());
            assert(emitted.deep_view() =~= prev.push(own.deep_view()[k as int]));
            assert(own.deep_view().take(k + 1) =~= own.deep_view().take(k as int).push(
                own.deep_view()[k as int],
            ));
            assert(prev.push(own.deep_view()[k as int]) =~= kept_view + own.deep_view().take(
                k + 1,
            ));
            k += 1;
        }
        assert(own.deep_view().take(own.len() as int) =~= own.deep_view());
        self.inherited = stack;
        Ok(emitted)
    }

    /// Splits the attributes of a field or variant: those that apply to the
    /// field or variant itself, and those meant for the definitions nested
    /// in it.
    pub fn filter_field_nested(field_attributes: &Vec<FieldAttribute>) -> (r: (
        Vec<Attribute>,
        Vec<CompositeAttribute>,
    ))
        ensures
            r.0.deep_view() == field_scoped(field_attributes.deep_view()),
            r.1.deep_view() == nested_scoped(field_attributes.deep_view()),
    {
        let mut field_applied_now: Vec<Attribute> = Vec::new();
        let mut composite: Vec<CompositeAttribute> = Vec::new();
        let ghost all = field_attributes.deep_view();
        let mut i: usize = 0;
        assert(all.take(0) =~= Seq::empty());
        assert(field_applied_now.deep_view() =~= Seq::empty());
        assert(composite.deep_view() =~= Seq::empty());
        while i < field_attributes.len()
            invariant
                i <= field_attributes.len(),
                all == field_attributes.deep_view(),
                field_applied_now.deep_view() == field_scoped(all.take(i as int)),
                composite.deep_view() == nested_scoped(all.take(i as int)),
            decreases field_attributes.len() - i,
        {
            let ghost fields_before = field_applied_now.deep_view();
            let ghost nested_before = composite.deep_view();
            proof {
                assert(all.take(i + 1).drop_last() =~= all.take(i as int));
                assert(all.take(i + 1).last() == all[i as int]);
                assert(all[i as int] == field_attributes[i as int].deep_view());
            }
            match &field_attributes[i] {
                FieldAttribute::Field(fa) => {
                    field_applied_now.push(fa.duplicate());
                    assert(field_applied_now.deep_view() =~= fields_before + seq![
                        fa.deep_view(),
                    ]);
                },
                FieldAttribute::Nested(na) => {
                    composite.push(
                        CompositeAttribute { meta: clone_tokens(&na.meta), modifier: na.modifier },
                    );
                    assert(composite.deep_view() =~= nested_before + seq![na.deep_view()]);
                },
            }
            i += 1;
        }
        assert(all.take(field_attributes.len() as int) =~= all);
        (field_applied_now, composite)
    }
}

/// A failure among the first `n` attributes is the failure of any longer run.
pub proof fn lemma_failure_stays(
    s: Scope,
    locals: Seq<CompositeAttributeView>,
    n: nat,
    m: nat,
)
    requires
        n <= m,
        apply_first(s, locals, n) is Err,
    ensures
        apply_first(s, locals, m) == apply_first(s, locals, n),
    decreases m,
{
    if n < m {
        lemma_failure_stays(s, locals, n, (m - 1) as nat);
    }
}

} // verus!
