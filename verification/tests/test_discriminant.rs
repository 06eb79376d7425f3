use nestify::discriminant::Discriminant;
use nestify::source::{lex, render};
use nestify::token::Token;

/// What a discriminant with the expression `expr` prints as.
fn printed(expr: &str) -> String {
    let discriminant = Discriminant { expr: lex(expr).expect("the expression lexes") };
    let mut tokens: Vec<Token> = Vec::new();
    discriminant.to_tokens(&mut tokens);
    render(&tokens).expect("the tokens print")
}

/// What printing the tokens of `source` gives.
fn quoted(source: &str) -> String {
    render(&lex(source).unwrap()).unwrap()
}

#[test]
fn discriminant_with_simple_expression() {
    assert_eq!(printed("42"), quoted("= 42"), "Simple expression not correctly tokenized");
}

#[test]
fn discriminant_with_complex_expression() {
    assert_eq!(printed("4 + 20"), quoted("= 4 + 20"), "Complex expression not correctly tokenized");
}

#[test]
fn discriminant_with_function_call() {
    assert_eq!(
        printed("my_function(42, \"hello\".to_string())"),
        quoted("= my_function(42, \"hello\".to_string())"),
        "Function call expression not correctly tokenized"
    );
}

#[test]
fn discriminant_with_nested_expression() {
    assert_eq!(
        printed("(3 + 7) * 2"),
        quoted("= (3 + 7) * 2"),
        "Nested expression not correctly tokenized"
    );
}
