use nestify::attributes::{
    Attribute, AttributeModifier, CompositeAttribute, FieldAttribute, NestedAttribute,
    ParseAttribute,
};
use nestify::error::{ErrorKind, ParseError};
use nestify::source::lex;
use nestify::token::Token;

/// Reads one attribute from the whole of `input`.
fn parse_attribute_from_str<A: ParseAttribute>(input: &str) -> Result<A, ParseError> {
    let tokens = lex(input).expect("the input lexes");
    let (attribute, end) = A::parse_single_outer(&tokens, 0)?;
    if end < tokens.len() {
        return Err(ParseError::new(ErrorKind::UnexpectedToken, end));
    }
    Ok(attribute)
}

/// Reads a run of attributes from the whole of `input`.
fn parse_attribute_from_str_many<A: ParseAttribute>(input: &str) -> Result<Vec<A>, ParseError> {
    let tokens = lex(input).expect("the input lexes");
    let (attributes, end) = A::parse_outer(&tokens, 0)?;
    if end < tokens.len() {
        return Err(ParseError::new(ErrorKind::UnexpectedToken, end));
    }
    Ok(attributes)
}

/// Reads a modifier from the whole of `input`.
fn parse_modifier(input: &str) -> Result<AttributeModifier, ParseError> {
    let tokens = lex(input).expect("the input lexes");
    let (modifier, end) = AttributeModifier::parse(&tokens, 0)?;
    if end < tokens.len() {
        return Err(ParseError::new(ErrorKind::UnexpectedToken, end));
    }
    Ok(modifier)
}

/// The first word of an attribute's payload.
fn first_word(meta: &[Token]) -> String {
    match &meta[0] {
        Token::Ident(text) => text.clone(),
        other => panic!("the payload starts with {:?}", other),
    }
}

#[test]
fn parse_single_valid_attribute() {
    let input = "#[derive(Debug, Clone)]";
    let result: Result<Attribute, ParseError> = parse_attribute_from_str(input);
    assert!(result.is_ok(), "Failed to parse a valid single attribute");

    if let Ok(attr) = result {
        assert_eq!(first_word(&attr.meta), "derive");
    }
}

#[test]
fn parse_multiple_valid_attributes() {
    let input = "#[derive(Debug)] #[test]";
    let result: Result<Vec<Attribute>, ParseError> = parse_attribute_from_str_many(input);
    assert!(result.is_ok(), "Failed to parse multiple valid attributes");

    if let Ok(attrs) = result {
        assert_eq!(attrs.len(), 2);
    }
}

#[test]
fn parse_invalid_attribute() {
    let input = "#[]";
    let result: Result<Attribute, ParseError> = parse_attribute_from_str(input);
    assert!(result.is_err(), "Parsed an invalid attribute successfully");

    let input = "#derive";
    let result: Result<Attribute, ParseError> = parse_attribute_from_str(input);
    assert!(result.is_err(), "Parsed an invalid attribute successfully");

    let input = "#![meta]";
    let result: Result<Attribute, ParseError> = parse_attribute_from_str(input);
    assert!(result.is_err(), "Parsed an invalid attribute successfully");
}

#[test]
fn parse_single_valid_nested_attribute() {
    let input = "#>[nested(Debug, Clone)]";
    let result: Result<NestedAttribute, ParseError> = parse_attribute_from_str(input);
    assert!(result.is_ok(), "Failed to parse a valid single nested attribute");

    if let Ok(nested_attr) = result {
        assert_eq!(first_word(&nested_attr.meta), "nested");
    }
}

#[test]
fn parse_invalid_nested_attribute() {
    let inputs = vec!["#>[]", "#>meta", "#[nested(Debug)]"];

    for input in inputs {
        let result: Result<NestedAttribute, ParseError> = parse_attribute_from_str(input);
        assert!(result.is_err(), "Parsed an invalid nested attribute successfully");
    }
}

#[test]
fn parse_multiple_valid_nested_attributes() {
    let input = "#>[nested(Debug)] #>[nested(Clone)]";
    let result: Result<Vec<NestedAttribute>, ParseError> = parse_attribute_from_str_many(input);
    assert!(result.is_ok(), "Failed to parse multiple valid nested attributes");

    if let Ok(nested_attrs) = result {
        assert_eq!(nested_attrs.len(), 2, "Expected two nested attributes to be parsed");
        assert_eq!(first_word(&nested_attrs[0].meta), "nested");
        assert_eq!(first_word(&nested_attrs[1].meta), "nested");
    }
}

#[test]
fn parse_single_valid_composite_attribute() {
    let input = "#[derive(Debug, Clone)]*";
    let result: Result<CompositeAttribute, ParseError> = parse_attribute_from_str(input);
    assert!(result.is_ok(), "Failed to parse a valid single attribute");

    if let Ok(attr) = result {
        assert_eq!(first_word(&attr.meta), "derive");
        assert_eq!(attr.modifier, Some(AttributeModifier::Star));
    }
}

#[test]
fn parse_multiple_valid_composite_attributes() {
    let input = "#[one] #[two]* #[three]/";
    let result: Result<Vec<CompositeAttribute>, ParseError> = parse_attribute_from_str_many(input);
    assert!(result.is_ok(), "Failed to parse multiple valid attributes");

    if let Ok(attrs) = result {
        assert_eq!(attrs.len(), 3);
        assert_eq!(attrs[0].modifier, None);
        assert_eq!(attrs[1].modifier, Some(AttributeModifier::Star));
        assert_eq!(attrs[2].modifier, Some(AttributeModifier::Slash));
    }
}

#[test]
fn parse_invalid_composite_attribute() {
    let input = "#[]*";
    let result: Result<CompositeAttribute, ParseError> = parse_attribute_from_str(input);
    assert!(result.is_err(), "Parsed an invalid attribute successfully");

    let input = "#derive";
    let result: Result<CompositeAttribute, ParseError> = parse_attribute_from_str(input);
    assert!(result.is_err(), "Parsed an invalid attribute successfully");

    let input = "#![meta]";
    let result: Result<CompositeAttribute, ParseError> = parse_attribute_from_str(input);
    assert!(result.is_err(), "Parsed an invalid attribute successfully");
}

#[test]
fn parse_valid_field_attribute_many() {
    let input = "#>[one]* #[a] #>[two]";
    let result: Result<Vec<FieldAttribute>, ParseError> = parse_attribute_from_str_many(input);
    assert!(result.is_ok());
    if let Ok(attrs) = result {
        assert_eq!(attrs.len(), 3);
    }
}

#[test]
fn parse_invalid_field_attribute() {
    let inputs = vec!["#>[]", "#>meta", "#[nested(Debug)]*"];

    for input in inputs {
        let result: Result<FieldAttribute, ParseError> = parse_attribute_from_str(input);
        assert!(result.is_err(), "Parsed an invalid nested attribute successfully");
    }
}

#[test]
fn parse_correct_map_confirm() {
    let input = "#[attr]";
    let attr: FieldAttribute = parse_attribute_from_str(input).unwrap();
    assert!(matches!(attr, FieldAttribute::Field(_)));

    let input = "#>[attr]*";
    let attr: FieldAttribute = parse_attribute_from_str(input).unwrap();
    assert!(matches!(attr, FieldAttribute::Nested(_)));
}

#[test]
fn test_attributes_parse_star_modifier() {
    let parsed = parse_modifier("*");
    assert!(matches!(parsed, Ok(AttributeModifier::Star)));
}

#[test]
fn test_attributes_parse_slash_modifier() {
    let parsed = parse_modifier("/");
    assert!(matches!(parsed, Ok(AttributeModifier::Slash)));
}

#[test]
fn test_attributes_parse_minus_modifier() {
    let parsed = parse_modifier("-");
    assert!(matches!(parsed, Ok(AttributeModifier::Minus)));
}

#[test]
fn parse_should_fail() {
    let parsed = parse_modifier("&");
    assert!(parsed.is_err(), "Parsed token when should fail");
}

#[test]
fn a_plus_after_an_attribute_is_no_modifier() {
    let result: Result<CompositeAttribute, ParseError> = parse_attribute_from_str("#[one]+");
    match result {
        Err(e) => {
            assert_eq!(e.kind, ErrorKind::ExpectedModifier);
            assert_eq!(e.at, vec![2]);
        }
        Ok(_) => panic!("`+` was taken for a modifier"),
    }
}

#[test]
fn attribute_failures_name_their_place() {
    let missing: Result<Attribute, ParseError> = parse_attribute_from_str("derive");
    let e = missing.err().unwrap();
    assert_eq!((e.kind, e.at), (ErrorKind::ExpectedPound, vec![0]));

    let no_brackets: Result<Attribute, ParseError> = parse_attribute_from_str("#derive");
    let e = no_brackets.err().unwrap();
    assert_eq!((e.kind, e.at), (ErrorKind::ExpectedBrackets, vec![1]));

    let empty: Result<Attribute, ParseError> = parse_attribute_from_str("#[]");
    let e = empty.err().unwrap();
    assert_eq!((e.kind, e.at), (ErrorKind::InvalidMeta, vec![1]));

    let two: Result<Attribute, ParseError> = parse_attribute_from_str("#[one two]");
    let e = two.err().unwrap();
    assert_eq!((e.kind, e.at), (ErrorKind::InvalidMeta, vec![1]));

    let marker: Result<NestedAttribute, ParseError> = parse_attribute_from_str("#[nested]");
    let e = marker.err().unwrap();
    assert_eq!((e.kind, e.at), (ErrorKind::ExpectedNestedMarker, vec![1]));

    let left_over: Result<Attribute, ParseError> = parse_attribute_from_str("#[one]*");
    let e = left_over.err().unwrap();
    assert_eq!((e.kind, e.at), (ErrorKind::UnexpectedToken, vec![2]));
}

#[test]
fn equal_payloads_make_equal_attributes() {
    let a: Attribute = parse_attribute_from_str("#[derive(Debug, Clone)]").unwrap();
    let b: Attribute = parse_attribute_from_str("#[derive(Debug ,Clone)]").unwrap();
    let c: Attribute = parse_attribute_from_str("#[derive(Debug)]").unwrap();
    assert!(a.eq(&b));
    assert!(!a.eq(&c));

    let composite: CompositeAttribute = parse_attribute_from_str("#[derive(Debug)]*").unwrap();
    assert!(composite.eq(&c));
    assert!(!composite.eq(&a));

    let nested: NestedAttribute = parse_attribute_from_str("#>[derive(Debug)]-").unwrap();
    assert!(nested.eq(&c));

    let from_nested = Attribute::from(nested);
    assert!(from_nested.eq(&c));
    let from_composite = Attribute::from(composite);
    assert!(from_composite.eq(&c));
}
