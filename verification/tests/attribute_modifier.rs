use nestify::attributes::AttributeModifier;
use nestify::source::{lex, render};

/// Reads a modifier from the text that printing `source` gives.
fn parse_printed(source: &str) -> Option<AttributeModifier> {
    let printed = render(&lex(source).expect("the input lexes")).expect("the tokens print");
    let tokens = lex(&printed).expect("the printed text lexes");
    match AttributeModifier::parse(&tokens, 0) {
        Ok((modifier, end)) if end == tokens.len() => Some(modifier),
        _ => None,
    }
}

#[test]
fn attribute_modifier_parse_star_modifier() {
    assert!(matches!(parse_printed("*"), Some(AttributeModifier::Star)));
}

#[test]
fn attribute_modifier_parse_slash_modifier() {
    assert!(matches!(parse_printed("/"), Some(AttributeModifier::Slash)));
}

#[test]
fn attribute_modifier_parse_minus_modifier() {
    assert!(matches!(parse_printed("-"), Some(AttributeModifier::Minus)));
}
