use nestify::attributes::{Attribute, AttributeModifier, CompositeAttribute, FieldAttribute, NestedAttribute};
use nestify::source::lex;
use nestify::unpack_context::{ScopeError, ScopeErrorKind, UnpackContext};

/// The attribute with the payload `meta`.
fn attribute(meta: &str) -> Attribute {
    Attribute { meta: lex(meta).unwrap() }
}

/// The attribute with the payload `meta` and the given modifier.
fn composite(meta: &str, modifier: Option<AttributeModifier>) -> CompositeAttribute {
    CompositeAttribute { meta: lex(meta).unwrap(), modifier }
}

/// A context that holds the attributes with the given payloads.
fn context(inherited: &[&str]) -> UnpackContext {
    UnpackContext { inherited: inherited.iter().map(|meta| attribute(meta)).collect() }
}

/// The payloads of the attributes, as text.
fn payloads(attributes: &[Attribute]) -> Vec<String> {
    attributes
        .iter()
        .map(|a| nestify::source::render(&a.meta).unwrap())
        .collect()
}

const STAR: Option<AttributeModifier> = Some(AttributeModifier::Star);
const SLASH: Option<AttributeModifier> = Some(AttributeModifier::Slash);
const MINUS: Option<AttributeModifier> = Some(AttributeModifier::Minus);

#[test]
fn nothing_written_means_what_is_inherited() {
    let mut ctx = context(&["a", "b"]);
    let emitted = ctx.modify_composite(vec![]).unwrap();
    assert_eq!(payloads(&emitted), ["a", "b"]);
    assert_eq!(payloads(&ctx.inherited), ["a", "b"]);

    let mut empty = UnpackContext::new();
    assert!(empty.modify_composite(vec![]).unwrap().is_empty());
    assert!(empty.inherited.is_empty());
}

#[test]
fn an_attribute_without_modifier_applies_here_only() {
    let mut ctx = context(&["a"]);
    let emitted = ctx.modify_composite(vec![composite("b", None)]).unwrap();
    assert_eq!(payloads(&emitted), ["a", "b"]);
    assert_eq!(payloads(&ctx.inherited), ["a"]);
}

#[test]
fn a_star_applies_here_and_below() {
    let mut ctx = context(&["a"]);
    let emitted = ctx.modify_composite(vec![composite("b", STAR)]).unwrap();
    assert_eq!(payloads(&emitted), ["a", "b"]);
    assert_eq!(payloads(&ctx.inherited), ["a", "b"]);
}

#[test]
fn a_slash_removes_here_and_below() {
    let mut ctx = context(&["a", "b", "c"]);
    let emitted = ctx.modify_composite(vec![composite("b", SLASH)]).unwrap();
    assert_eq!(payloads(&emitted), ["a", "c"]);
    assert_eq!(payloads(&ctx.inherited), ["a", "c"]);
}

#[test]
fn a_minus_removes_here_only() {
    let mut ctx = context(&["a", "b", "c"]);
    let emitted = ctx.modify_composite(vec![composite("b", MINUS)]).unwrap();
    assert_eq!(payloads(&emitted), ["a", "c"]);
    assert_eq!(payloads(&ctx.inherited), ["a", "b", "c"]);
}

#[test]
fn inherited_attributes_come_first_then_the_own_in_order() {
    let mut ctx = context(&["a", "b"]);
    let emitted = ctx
        .modify_composite(vec![
            composite("x", None),
            composite("a", MINUS),
            composite("y", STAR),
            composite("z", None),
        ])
        .unwrap();
    assert_eq!(payloads(&emitted), ["b", "x", "y", "z"]);
    assert_eq!(payloads(&ctx.inherited), ["a", "b", "y"]);
}

#[test]
fn a_star_counts_for_the_attributes_after_it() {
    let mut ctx = context(&[]);
    let result = ctx.modify_composite(vec![composite("a", STAR), composite("a", None)]);
    assert_eq!(result.err(), Some(ScopeError { kind: ScopeErrorKind::AlreadyActive, index: 1 }));
    assert!(ctx.inherited.is_empty());

    let mut ctx = context(&[]);
    let emitted = ctx.modify_composite(vec![composite("a", None), composite("a", None)]).unwrap();
    assert_eq!(payloads(&emitted), ["a", "a"]);
}

#[test]
fn what_is_in_force_cannot_be_applied_again() {
    let mut ctx = context(&["a"]);
    let result = ctx.modify_composite(vec![composite("b", None), composite("a", None)]);
    assert_eq!(result.err(), Some(ScopeError { kind: ScopeErrorKind::AlreadyActive, index: 1 }));
    assert_eq!(payloads(&ctx.inherited), ["a"]);

    let mut ctx = context(&["a"]);
    let result = ctx.modify_composite(vec![composite("a", STAR)]);
    assert_eq!(result.err(), Some(ScopeError { kind: ScopeErrorKind::AlreadyActive, index: 0 }));
}

#[test]
fn what_is_not_in_force_cannot_be_removed() {
    let mut ctx = context(&["a"]);
    let result = ctx.modify_composite(vec![composite("b", SLASH)]);
    assert_eq!(result.err(), Some(ScopeError { kind: ScopeErrorKind::NotActive, index: 0 }));

    let mut ctx = context(&["a"]);
    let result = ctx.modify_composite(vec![composite("a", MINUS), composite("a", MINUS)]);
    assert_eq!(result.err(), Some(ScopeError { kind: ScopeErrorKind::NotActive, index: 1 }));
    assert_eq!(payloads(&ctx.inherited), ["a"]);
}

#[test]
fn what_was_removed_can_be_applied_again() {
    let mut ctx = context(&["a"]);
    let emitted = ctx.modify_composite(vec![composite("a", MINUS), composite("a", None)]).unwrap();
    assert_eq!(payloads(&emitted), ["a"]);
    assert_eq!(payloads(&ctx.inherited), ["a"]);
}

#[test]
fn the_attributes_of_a_field_are_told_apart() {
    let attributes = vec![
        FieldAttribute::Nested(NestedAttribute { meta: lex("one").unwrap(), modifier: STAR }),
        FieldAttribute::Field(attribute("a")),
        FieldAttribute::Nested(NestedAttribute { meta: lex("two").unwrap(), modifier: None }),
        FieldAttribute::Field(attribute("b")),
    ];
    let (own, nested) = UnpackContext::filter_field_nested(&attributes);
    assert_eq!(payloads(&own), ["a", "b"]);
    assert_eq!(nested.len(), 2);
    assert_eq!(nestify::source::render(&nested[0].meta).unwrap(), "one");
    assert_eq!(nested[0].modifier, STAR);
    assert_eq!(nestify::source::render(&nested[1].meta).unwrap(), "two");
    assert_eq!(nested[1].modifier, None);
}

#[test]
fn a_copy_of_the_context_is_independent() {
    let ctx = context(&["a"]);
    let mut copy = ctx.duplicate();
    copy.modify_composite(vec![composite("b", STAR)]).unwrap();
    assert_eq!(payloads(&ctx.inherited), ["a"]);
    assert_eq!(payloads(&copy.inherited), ["a", "b"]);
}
