//! Attributes and their inheritance modifiers.

use vstd::prelude::*;
use crate::cursor::{group_content, is_punct, parsed};
use crate::error::{ErrorKind, ParseError, ParseErrorView};
use crate::grammar::{
    advance, attribute_at, attributes_from, composite_at, composites_from, field_attribute_at,
    field_attributes_from, meta_at, modifier_at, nested_at, nested_from, optional_modifier_at,
};
use crate::source::{Syntax, host_end};
use crate::token::{Delimiter, Token, TokenView, clone_tokens, tokens_eq};

verus! {

/// What follows an attribute to say how it is inherited.
#[derive(Clone, Copy, PartialEq, Eq, Debug, Structural)]
pub enum AttributeModifier {
    /// `*`: applies here and to every definition nested below.
    Star,
    /// `/`: stops applying, here and below.
    Slash,
    /// `-`: does not apply here, but still applies below.
    Minus,
}

/// An attribute as it is emitted: `#[meta]`.
#[derive(Debug)]
pub struct Attribute {
    /// The tokens between the brackets.
    pub meta: Vec<Token>,
}

/// An attribute on a field or variant that is meant for the definitions
/// nested in it: `#>[meta]`, with an optional modifier.
#[derive(Debug)]
pub struct NestedAttribute {
    /// The tokens between the brackets.
    pub meta: Vec<Token>,
    pub modifier: Option<AttributeModifier>,
}

/// An attribute on a definition: `#[meta]`, with an optional modifier.
#[derive(Debug)]
pub struct CompositeAttribute {
    /// The tokens between the brackets.
    pub meta: Vec<Token>,
    pub modifier: Option<AttributeModifier>,
}

/// An attribute written on a field or on an enum variant.
#[derive(Debug)]
pub enum FieldAttribute {
    /// Applies to the definitions nested in the field or variant.
    Nested(NestedAttribute),
    /// Applies to the field or variant itself.
    Field(Attribute),
}

/// The mathematical value of a [`CompositeAttribute`] and of a
/// [`NestedAttribute`].
pub struct CompositeAttributeView {
    pub meta: Seq<TokenView>,
    pub modifier: Option<AttributeModifier>,
}

/// The mathematical value of a [`FieldAttribute`].
pub enum FieldAttributeView {
    Nested(CompositeAttributeView),
    Field(Seq<TokenView>),
}

impl DeepView for Attribute {
    type V = Seq<TokenView>;

    open spec fn deep_view(&self) -> Seq<TokenView> {
        self.meta.deep_view()
    }
}

impl DeepView for NestedAttribute {
    type V = CompositeAttributeView;

    open spec fn deep_view(&self) -> CompositeAttributeView {
        CompositeAttributeView { meta: self.meta.deep_view(), modifier: self.modifier }
    }
}

impl DeepView for CompositeAttribute {
    type V = CompositeAttributeView;

    open spec fn deep_view(&self) -> CompositeAttributeView {
        CompositeAttributeView { meta: self.meta.deep_view(), modifier: self.modifier }
    }
}

impl DeepView for FieldAttribute {
    type V = FieldAttributeView;

    open spec fn deep_view(&self) -> FieldAttributeView {
        match self {
            FieldAttribute::Nested(a) => FieldAttributeView::Nested(a.deep_view()),
            FieldAttribute::Field(a) => FieldAttributeView::Field(a.deep_view()),
        }
    }
}

impl Attribute {
    /// Whether both attributes have the same payload.
    pub fn eq(&self, other: &Attribute) -> (r: bool)
        ensures
            r == (self.deep_view() == other.deep_view()),
    {
        tokens_eq(&self.meta, &other.meta)
    }

    /// A copy of the attribute.
    pub fn duplicate(&self) -> (r: Attribute)
        ensures
            r.deep_view() == self.deep_view(),
    {
        Attribute { meta: clone_tokens(&self.meta) }
    }
}

impl NestedAttribute {
    /// Whether the attribute has the payload of `other`.
    pub fn eq(&self, other: &Attribute) -> (r: bool)
        ensures
            r == (self.deep_view().meta == other.deep_view()),
    {
        tokens_eq(&self.meta, &other.meta)
    }
}

impl CompositeAttribute {
    /// Whether the attribute has the payload of `other`.
    pub fn eq(&self, other: &Attribute) -> (r: bool)
        ensures
            r == (self.deep_view().meta == other.deep_view()),
    {
        tokens_eq(&self.meta, &other.meta)
    }

    /// A copy of the attribute.
    pub fn duplicate(&self) -> (r: CompositeAttribute)
        ensures
            r.deep_view() == self.deep_view(),
    {
        CompositeAttribute { meta: clone_tokens(&self.meta), modifier: self.modifier }
    }
}

impl From<NestedAttribute> for Attribute {
    fn from(nested: NestedAttribute) -> (r: Attribute) {
        Attribute { meta: nested.meta }
    }
}

impl vstd::std_specs::convert::FromSpecImpl<NestedAttribute> for Attribute {
    open spec fn obeys_from_spec() -> bool {
        true
    }

    open spec fn from_spec(nested: NestedAttribute) -> Attribute {
        Attribute { meta: nested.meta }
    }
}

impl From<CompositeAttribute> for Attribute {
    fn from(composite: CompositeAttribute) -> (r: Attribute) {
        Attribute { meta: composite.meta }
    }
}

impl vstd::std_specs::convert::FromSpecImpl<CompositeAttribute> for Attribute {
    open spec fn obeys_from_spec() -> bool {
        true
    }

    open spec fn from_spec(composite: CompositeAttribute) -> Attribute {
        Attribute { meta: composite.meta }
    }
}

impl From<NestedAttribute> for CompositeAttribute {
    fn from(nested: NestedAttribute) -> (r: CompositeAttribute) {
        CompositeAttribute { meta: nested.meta, modifier: nested.modifier }
    }
}

impl vstd::std_specs::convert::FromSpecImpl<NestedAttribute> for CompositeAttribute {
    open spec fn obeys_from_spec() -> bool {
        true
    }

    open spec fn from_spec(nested: NestedAttribute) -> CompositeAttribute {
        CompositeAttribute { meta: nested.meta, modifier: nested.modifier }
    }
}

/// The payload of an attribute: the tokens between the brackets of the
/// group of index `pos`.
fn parse_meta(tokens: &Vec<Token>, pos: usize) -> (r: Result<Vec<Token>, ParseError>)
    ensures
        match r {
            Ok(meta) => meta_at(tokens.deep_view(), pos as int) == Ok::<
                Seq<TokenView>,
                ParseErrorView,
            >(meta.deep_view()) && pos < tokens.len(),
            Err(e) => meta_at(tokens.deep_view(), pos as int) == Err::<
                Seq<TokenView>,
                ParseErrorView,
            >(e.deep_view()),
        },
{
    let inner = match group_content(tokens, pos, Delimiter::Bracket) {
        Some(inner) => inner,
        None => {
            return Err(ParseError::new(ErrorKind::ExpectedBrackets, pos));
        },
    };
    match host_end(Syntax::Meta, inner, 0) {
        Some(end) => {
            if end == inner.len() {
                Ok(clone_tokens(inner))
            } else {
                Err(ParseError::new(ErrorKind::InvalidMeta, pos))
            }
        },
        None => Err(ParseError::new(ErrorKind::InvalidMeta, pos)),
    }
}

impl AttributeModifier {
    /// Reads a modifier at index `pos`: `*`, `/` or `-`.
    pub fn parse(tokens: &Vec<Token>, pos: usize) -> (r: Result<
        (AttributeModifier, usize),
        ParseError,
    >)
        requires
            pos <= tokens.len(),
        ensures
            match r {
                Ok((m, end)) => modifier_at(tokens.deep_view(), pos as int) == Ok::<
                    (AttributeModifier, nat),
                    ParseErrorView,
                >((m, 1)) && end == pos + 1 && end <= tokens.len(),
                Err(e) => modifier_at(tokens.deep_view(), pos as int) == Err::<
                    (AttributeModifier, nat),
                    ParseErrorView,
                >(e.deep_view()),
            },
    {
        if is_punct(tokens, pos, '*') {
            Ok((AttributeModifier::Star, pos + 1))
        } else if is_punct(tokens, pos, '/') {
            Ok((AttributeModifier::Slash, pos + 1))
        } else if is_punct(tokens, pos, '-') {
            Ok((AttributeModifier::Minus, pos + 1))
        } else {
            Err(ParseError::new(ErrorKind::ExpectedModifier, pos))
        }
    }
}

/// Reads the modifier that may follow an attribute.
fn parse_optional_modifier(tokens: &Vec<Token>, pos: usize) -> (r: Result<
    (Option<AttributeModifier>, usize),
    ParseError,
>)
    requires
        pos <= tokens.len(),
    ensures
        match r {
            Ok((m, end)) => pos <= end <= tokens.len() && optional_modifier_at(
                tokens.deep_view(),
                pos as int,
            ) == Ok::<(Option<AttributeModifier>, nat), ParseErrorView>((m, (end - pos) as nat)),
            Err(e) => optional_modifier_at(tokens.deep_view(), pos as int) == Err::<
                (Option<AttributeModifier>, nat),
                ParseErrorView,
            >(e.deep_view()),
        },
{
    if is_punct(tokens, pos, '*') || is_punct(tokens, pos, '/') || is_punct(tokens, pos, '-')
        || is_punct(tokens, pos, '+') {
        match AttributeModifier::parse(tokens, pos) {
            Ok((m, end)) => Ok((Some(m), end)),
            Err(e) => Err(e),
        }
    } else {
        Ok((None, pos))
    }
}

/// An attribute form that is read from tokens.
pub trait ParseAttribute: Sized + DeepView {
    /// One attribute of this form at index `pos`, and how many tokens it
    /// takes.
    spec fn single_at(ts: Seq<TokenView>, pos: int) -> Result<
        (<Self as DeepView>::V, nat),
        ParseErrorView,
    >;

    /// The attributes of this form that follow one another from index `pos`
    /// on, and how many tokens they take.
    spec fn run_at(ts: Seq<TokenView>, pos: int) -> Result<
        (Seq<<Self as DeepView>::V>, nat),
        ParseErrorView,
    >;

    /// Reads attributes for as long as `#` stands at the position reached.
    fn parse_outer(tokens: &Vec<Token>, pos: usize) -> (r: Result<(Vec<Self>, usize), ParseError>)
        requires
            pos <= tokens.len(),
        ensures
            parsed(r, pos, tokens.len(), Self::run_at(tokens.deep_view(), pos as int)),
    ;

    /// Reads one attribute at index `pos`.
    fn parse_single_outer(tokens: &Vec<Token>, pos: usize) -> (r: Result<
        (Self, usize),
        ParseError,
    >)
        requires
            pos <= tokens.len(),
        ensures
            parsed(r, pos, tokens.len(), Self::single_at(tokens.deep_view(), pos as int)),
    ;
}

impl ParseAttribute for Attribute {
    open spec fn single_at(ts: Seq<TokenView>, pos: int) -> Result<
        (Seq<TokenView>, nat),
        ParseErrorView,
    > {
        attribute_at(ts, pos)
    }

    open spec fn run_at(ts: Seq<TokenView>, pos: int) -> Result<
        (Seq<Seq<TokenView>>, nat),
        ParseErrorView,
    > {
        attributes_from(ts, pos, Seq::empty())
    }

    fn parse_outer(tokens: &Vec<Token>, pos: usize) -> (r: Result<(Vec<Self>, usize), ParseError>) {
        let mut attrs: Vec<Attribute> = Vec::new();
        let mut cur = pos;
        let ghost ts = tokens.deep_view();
        assert(attrs.deep_view() =~= Seq::empty());
        while is_punct(tokens, cur, '#')
            invariant
                pos <= cur <= tokens.len(),
                ts == tokens.deep_view(),
                attributes_from(ts, pos as int, Seq::empty()) == advance(
                    attributes_from(ts, cur as int, attrs.deep_view()),
                    (cur - pos) as nat,
                ),
            decreases tokens.len() - cur,
        {
            let ghost before = attrs.deep_view();
            match Attribute::parse_single_outer(tokens, cur) {
                Err(e) => {
                    return Err(e);
                },
                Ok((a, end)) => {
                    attrs.push(a);
                    assert(attrs.deep_view() =~= before.push(a.deep_view()));
                    cur = end;
                },
            }
        }
        Ok((attrs, cur))
    }

    fn parse_single_outer(tokens: &Vec<Token>, pos: usize) -> (r: Result<
        (Self, usize),
        ParseError,
    >) {
        if !is_punct(tokens, pos, '#') {
            return Err(ParseError::new(ErrorKind::ExpectedPound, pos));
        }
        match parse_meta(tokens, pos + 1) {
            Ok(meta) => Ok((Attribute { meta }, pos + 2)),
            Err(e) => Err(e),
        }
    }
}

impl ParseAttribute for CompositeAttribute {
    open spec fn single_at(ts: Seq<TokenView>, pos: int) -> Result<
        (CompositeAttributeView, nat),
        ParseErrorView,
    > {
        composite_at(ts, pos)
    }

    open spec fn run_at(ts: Seq<TokenView>, pos: int) -> Result<
        (Seq<CompositeAttributeView>, nat),
        ParseErrorView,
    > {
        composites_from(ts, pos, Seq::empty())
    }

    fn parse_outer(tokens: &Vec<Token>, pos: usize) -> (r: Result<(Vec<Self>, usize), ParseError>) {
        let mut attrs: Vec<CompositeAttribute> = Vec::new();
        let mut cur = pos;
        let ghost ts = tokens.deep_view();
        assert(attrs.deep_view() =~= Seq::empty());
        while is_punct(tokens, cur, '#')
            invariant
                pos <= cur <= tokens.len(),
                ts == tokens.deep_view(),
                composites_from(ts, pos as int, Seq::empty()) == advance(
                    composites_from(ts, cur as int, attrs.deep_view()),
                    (cur - pos) as nat,
                ),
            decreases tokens.len() - cur,
        {
            let ghost before = attrs.deep_view();
            match CompositeAttribute::parse_single_outer(tokens, cur) {
                Err(e) => {
                    return Err(e);
                },
                Ok((a, end)) => {
                    attrs.push(a);
                    assert(attrs.deep_view() =~= before.push(a.deep_view()));
                    cur = end;
                },
            }
        }
        Ok((attrs, cur))
    }

    fn parse_single_outer(tokens: &Vec<Token>, pos: usize) -> (r: Result<
        (Self, usize),
        ParseError,
    >) {
        if !is_punct(tokens, pos, '#') {
            return Err(ParseError::new(ErrorKind::ExpectedPound, pos));
        }
        let meta = match parse_meta(tokens, pos + 1) {
            Ok(meta) => meta,
            Err(e) => {
                return Err(e);
            },
        };
        match parse_optional_modifier(tokens, pos + 2) {
            Ok((modifier, end)) => Ok((CompositeAttribute { meta, modifier }, end)),
            Err(e) => Err(e),
        }
    }
}

impl ParseAttribute for NestedAttribute {
    open spec fn single_at(ts: Seq<TokenView>, pos: int) -> Result<
        (CompositeAttributeView, nat),
        ParseErrorView,
    > {
        nested_at(ts, pos)
    }

    open spec fn run_at(ts: Seq<TokenView>, pos: int) -> Result<
        (Seq<CompositeAttributeView>, nat),
        ParseErrorView,
    > {
        nested_from(ts, pos, Seq::empty())
    }

    fn parse_outer(tokens: &Vec<Token>, pos: usize) -> (r: Result<(Vec<Self>, usize), ParseError>) {
        let mut attrs: Vec<NestedAttribute> = Vec::new();
        let mut cur = pos;
        let ghost ts = tokens.deep_view();
        assert(attrs.deep_view() =~= Seq::empty());
        while is_punct(tokens, cur, '#')
            invariant
                pos <= cur <= tokens.len(),
                ts == tokens.deep_view(),
                nested_from(ts, pos as int, Seq::empty()) == advance(
                    nested_from(ts, cur as int, attrs.deep_view()),
                    (cur - pos) as nat,
                ),
            decreases tokens.len() - cur,
        {
            let ghost before = attrs.deep_view();
            match NestedAttribute::parse_single_outer(tokens, cur) {
                Err(e) => {
                    return Err(e);
                },
                Ok((a, end)) => {
                    attrs.push(a);
                    assert(attrs.deep_view() =~= before.push(a.deep_view()));
                    cur = end;
                },
            }
        }
        Ok((attrs, cur))
    }

    fn parse_single_outer(tokens: &Vec<Token>, pos: usize) -> (r: Result<
        (Self, usize),
        ParseError,
    >) {
        if !is_punct(tokens, pos, '#') {
            return Err(ParseError::new(ErrorKind::ExpectedPound, pos));
        }
        if !is_punct(tokens, pos + 1, '>') {
            return Err(ParseError::new(ErrorKind::ExpectedNestedMarker, pos + 1));
        }
        let meta = match parse_meta(tokens, pos + 2) {
            Ok(meta) => meta,
            Err(e) => {
                return Err(e);
            },
        };
        match parse_optional_modifier(tokens, pos + 3) {
            Ok((modifier, end)) => Ok((NestedAttribute { meta, modifier }, end)),
            Err(e) => Err(e),
        }
    }
}

impl ParseAttribute for FieldAttribute {
    open spec fn single_at(ts: Seq<TokenView>, pos: int) -> Result<
        (FieldAttributeView, nat),
        ParseErrorView,
    > {
        field_attribute_at(ts, pos)
    }

    open spec fn run_at(ts: Seq<TokenView>, pos: int) -> Result<
        (Seq<FieldAttributeView>, nat),
        ParseErrorView,
    > {
        field_attributes_from(ts, pos, Seq::empty())
    }

    fn parse_outer(tokens: &Vec<Token>, pos: usize) -> (r: Result<(Vec<Self>, usize), ParseError>) {
        let mut attrs: Vec<FieldAttribute> = Vec::new();
        let mut cur = pos;
        let ghost ts = tokens.deep_view();
        assert(attrs.deep_view() =~= Seq::empty());
        while is_punct(tokens, cur, '#')
            invariant
                pos <= cur <= tokens.len(),
                ts == tokens.deep_view(),
                field_attributes_from(ts, pos as int, Seq::empty()) == advance(
                    field_attributes_from(ts, cur as int, attrs.deep_view()),
                    (cur - pos) as nat,
                ),
            decreases tokens.len() - cur,
        {
            let ghost before = attrs.deep_view();
            match FieldAttribute::parse_single_outer(tokens, cur) {
                Err(e) => {
                    return Err(e);
                },
                Ok((a, end)) => {
                    attrs.push(a);
                    assert(attrs.deep_view() =~= before.push(a.deep_view()));
                    cur = end;
                },
            }
        }
        Ok((attrs, cur))
    }

    fn parse_single_outer(tokens: &Vec<Token>, pos: usize) -> (r: Result<
        (Self, usize),
        ParseError,
    >) {
        if is_punct(tokens, pos, '#') && is_punct(tokens, pos + 1, '>') {
            match NestedAttribute::parse_single_outer(tokens, pos) {
                Ok((a, end)) => Ok((FieldAttribute::Nested(a), end)),
                Err(e) => Err(e),
            }
        } else {
            match Attribute::parse_single_outer(tokens, pos) {
                Ok((a, end)) => Ok((FieldAttribute::Field(a), end)),
                Err(e) => Err(e),
            }
        }
    }
}

} // verus!
