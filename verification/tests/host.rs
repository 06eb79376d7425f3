use nestify::print::print;
use nestify::source::{host_end, lex, punct_char, render, to_stream, Syntax};
use nestify::token::{clone_tokens, copy_range, extend_tokens, token_eq, tokens_eq, Delimiter, Token};

/// Where the construct ends that starts at the front of `source`.
fn end(syntax: Syntax, source: &str) -> Option<usize> {
    let tokens = lex(source).expect("the input lexes");
    host_end(syntax, &tokens, 0)
}

#[test]
fn lexing_gives_the_token_trees() {
    let tokens = lex("a += (1, 'x') ; 'b").unwrap();
    assert_eq!(tokens.len(), 7);
    assert!(matches!(&tokens[0], Token::Ident(t) if t == "a"));
    assert!(matches!(&tokens[1], Token::Punct('+', true)));
    assert!(matches!(&tokens[2], Token::Punct('=', false)));
    match &tokens[3] {
        Token::Group(Delimiter::Parenthesis, inner) => {
            assert_eq!(inner.len(), 3);
            assert!(matches!(&inner[0], Token::Literal(t) if t == "1"));
            assert!(matches!(&inner[1], Token::Punct(',', false)));
            assert!(matches!(&inner[2], Token::Literal(t) if t == "'x'"));
        }
        other => panic!("expected a group, got {:?}", other),
    }
    assert!(matches!(&tokens[4], Token::Punct(';', false)));
    assert!(matches!(&tokens[5], Token::Punct('\'', true)));
    assert!(matches!(&tokens[6], Token::Ident(t) if t == "b"));
    assert!(lex("(").is_none());
    assert_eq!(lex("").map(|t| t.len()), Some(0));
}

#[test]
fn lexing_tells_the_delimiters_apart() {
    let tokens = lex("() {} []").unwrap();
    assert!(matches!(&tokens[0], Token::Group(Delimiter::Parenthesis, inner) if inner.is_empty()));
    assert!(matches!(&tokens[1], Token::Group(Delimiter::Brace, inner) if inner.is_empty()));
    assert!(matches!(&tokens[2], Token::Group(Delimiter::Bracket, inner) if inner.is_empty()));
}

#[test]
fn printing_gives_source_text() {
    let tokens = vec![
        Token::Ident("a".to_string()),
        Token::Punct('+', true),
        Token::Punct('=', false),
        Token::Group(
            Delimiter::Parenthesis,
            vec![Token::Literal("1".to_string()), Token::Punct(',', false), Token::Ident("b".to_string())],
        ),
        Token::Group(Delimiter::Bracket, vec![]),
        Token::Group(Delimiter::Brace, vec![Token::Ident("c".to_string())]),
    ];
    assert_eq!(render(&tokens), Some("a += (1 , b) [] { c }".to_string()));
    assert_eq!(render(&Vec::new()), Some(String::new()));
    assert_eq!(render(&lex("r#type").unwrap()), Some("r#type".to_string()));
}

#[test]
fn every_token_sequence_has_a_text() {
    assert_eq!(print(&Vec::new()), "");
    assert_eq!(print(&lex("a . b").unwrap()), "a . b");
    assert_eq!(print(&lex("a::b -> c").unwrap()), "a :: b -> c");
    assert_eq!(print(&lex("&'a str").unwrap()), "&'a str");
    assert_eq!(print(&lex("f(x)[0]{}").unwrap()), "f (x) [0] { }");
    assert_eq!(print(&lex("{ { a } ( ) }").unwrap()), "{ { a } () }");
    assert_eq!(print(&lex("#[derive(Debug)] struct A<T>(T);").unwrap()), "# [derive (Debug)] struct A < T > (T) ;");
    let joint_last = vec![Token::Ident("a".to_string()), Token::Punct('+', true)];
    assert_eq!(print(&joint_last), "a +");
    let invisible = vec![
        Token::Ident("a".to_string()),
        Token::Group(Delimiter::Invisible, vec![Token::Ident("b".to_string()), Token::Ident("c".to_string())]),
        Token::Ident("d".to_string()),
    ];
    assert_eq!(print(&invisible), "a b c d");
    assert_eq!(print(&vec![Token::Ident("two words".to_string())]), "two words");
    assert_eq!(render(&vec![Token::Ident("two words".to_string())]), None);
}

#[test]
fn the_text_of_tokens_lexes_as_the_same_tokens() {
    for source in [
        "struct A { x: struct B { y: i32 } }",
        "#[a]* pub(crate) enum E<'a, T: Clone> where T: Copy { A = 1 + 1, B(&'a [T; 4]), C { c: fn(u8) -> u8 } }",
        "a += b; c >>= 2; x => y || z && !w; 1.0e3 .. 'c' ; \"s\" ; r#type :: <T>",
        "",
    ] {
        let tokens = lex(source).unwrap();
        let again = lex(&print(&tokens)).expect("the text lexes");
        assert!(tokens_eq(&tokens, &again), "for `{}`", source);
    }
}

#[test]
fn the_text_is_that_of_the_host_language() {
    for source in [
        "struct A { x: struct B { y: i32 } }",
        "a += ( 1 , b ) [ ] { c } { } f ( ) :: < 'a >",
        "# ! [ x ] - > = > . . = r#type 1u8 \"s\"",
    ] {
        let tokens = lex(source).unwrap();
        assert_eq!(print(&tokens), to_stream(&tokens, 0).unwrap().to_string());
    }
}

#[test]
fn a_stream_holds_the_tokens_from_the_given_index_on() {
    let tokens = lex("a b c").unwrap();
    assert_eq!(to_stream(&tokens, 0).unwrap().to_string(), "a b c");
    assert_eq!(to_stream(&tokens, 2).unwrap().to_string(), "c");
    assert_eq!(to_stream(&tokens, 3).unwrap().to_string(), "");
    let invisible = vec![Token::Group(Delimiter::Invisible, vec![Token::Ident("a".to_string())])];
    assert_eq!(to_stream(&invisible, 0).unwrap().into_iter().count(), 1);
}

#[test]
fn the_punctuation_of_the_host_language() {
    for c in "!#$%&'*+,-./:;<=>?@^|~".chars() {
        assert!(punct_char(c), "{:?} is punctuation", c);
    }
    for c in "()[]{}_\"\\`a1 ".chars() {
        assert!(!punct_char(c), "{:?} is no punctuation", c);
    }
}

#[test]
fn how_far_a_type_reaches() {
    assert_eq!(end(Syntax::Type, "Vec<u8>, x"), Some(4));
    assert_eq!(end(Syntax::Type, "&'a str"), Some(4));
    assert_eq!(end(Syntax::Type, "(i32, u8) rest"), Some(1));
    assert_eq!(end(Syntax::Type, "struct A"), None);
    assert_eq!(end(Syntax::Type, ""), None);
    assert_eq!(end(Syntax::Type, "Option<struct A {}>"), None);
}

#[test]
fn how_far_an_attribute_payload_reaches() {
    assert_eq!(end(Syntax::Meta, "derive(Debug) x"), Some(2));
    assert_eq!(end(Syntax::Meta, "test"), Some(1));
    assert_eq!(end(Syntax::Meta, "doc = \"text\""), Some(3));
    assert_eq!(end(Syntax::Meta, ""), None);
    assert_eq!(end(Syntax::Meta, "(x)"), None);
}

#[test]
fn how_far_a_visibility_reaches() {
    assert_eq!(end(Syntax::Visibility, "pub struct A"), Some(1));
    assert_eq!(end(Syntax::Visibility, "pub(crate) struct A"), Some(2));
    assert_eq!(end(Syntax::Visibility, "pub(in a::b) struct A"), Some(2));
    assert_eq!(end(Syntax::Visibility, "pub (i32)"), Some(1));
    assert_eq!(end(Syntax::Visibility, "struct A"), Some(0));
    assert_eq!(end(Syntax::Visibility, ""), Some(0));
    assert_eq!(end(Syntax::Visibility, "pub(in) x"), None);
}

#[test]
fn how_far_an_identifier_reaches() {
    assert_eq!(end(Syntax::Ident, "abc def"), Some(1));
    assert_eq!(end(Syntax::Ident, "r#struct"), Some(1));
    assert_eq!(end(Syntax::Ident, "union"), Some(1));
    assert_eq!(end(Syntax::Ident, "struct"), None);
    assert_eq!(end(Syntax::Ident, "_"), None);
    assert_eq!(end(Syntax::Ident, "1"), None);
}

#[test]
fn how_far_generic_parameters_reach() {
    assert_eq!(end(Syntax::Generics, "<T, U> (x)"), Some(5));
    assert_eq!(end(Syntax::Generics, "<'a, T: Clone> { }"), Some(8));
    assert_eq!(end(Syntax::Generics, "{ }"), Some(0));
    assert_eq!(end(Syntax::Generics, "<T { }"), None);
}

#[test]
fn how_far_a_where_clause_reaches() {
    assert_eq!(end(Syntax::WhereClause, "where T: Clone { }"), Some(4));
    assert_eq!(end(Syntax::WhereClause, "where T: Clone, U: Copy;"), Some(8));
    assert_eq!(end(Syntax::WhereClause, "T: Clone"), None);
}

#[test]
fn how_far_an_expression_reaches() {
    assert_eq!(end(Syntax::Expr, "1 + 2, x"), Some(3));
    assert_eq!(end(Syntax::Expr, "f(1)"), Some(2));
    assert_eq!(end(Syntax::Expr, ", x"), None);
}

#[test]
fn how_far_a_literal_reaches() {
    assert_eq!(end(Syntax::Literal, "42 x"), Some(1));
    assert_eq!(end(Syntax::Literal, "-1"), Some(2));
    assert_eq!(end(Syntax::Literal, "true"), Some(1));
    assert_eq!(end(Syntax::Literal, "x"), None);
}

#[test]
fn how_far_a_generic_argument_reaches() {
    assert_eq!(end(Syntax::GenericArgument, "'a, T"), Some(2));
    assert_eq!(end(Syntax::GenericArgument, "Item = u8>"), Some(3));
    assert_eq!(end(Syntax::GenericArgument, "{ 1 + 1 }, T"), Some(1));
    assert_eq!(end(Syntax::GenericArgument, "struct"), None);
}

#[test]
fn how_far_generic_arguments_reach() {
    assert_eq!(end(Syntax::AngleArguments, "<T, U> x"), Some(5));
    assert_eq!(end(Syntax::AngleArguments, "::<T> x"), Some(5));
    assert_eq!(end(Syntax::AngleArguments, "<> x"), Some(2));
    assert_eq!(end(Syntax::AngleArguments, "T>"), None);
}

#[test]
fn a_construct_ends_where_it_is_measured_from() {
    let tokens = lex("x: Vec<u8>, y").unwrap();
    assert_eq!(host_end(Syntax::Type, &tokens, 2), Some(6));
    assert_eq!(host_end(Syntax::Type, &tokens, 7), Some(8));
    assert_eq!(host_end(Syntax::Type, &tokens, 8), None);
    assert_eq!(host_end(Syntax::Visibility, &tokens, 8), Some(8));
}

#[test]
fn tokens_compare_by_what_they_hold() {
    let a = lex("a(b, 'c') + 1").unwrap();
    let b = lex("a ( b , 'c' ) + 1").unwrap();
    assert!(tokens_eq(&a, &b));
    assert!(!tokens_eq(&a, &lex("a(b, 'c') + 2").unwrap()));
    assert!(!tokens_eq(&a, &lex("a[b, 'c'] + 1").unwrap()));
    assert!(!tokens_eq(&a, &lex("a(b, 'c') +").unwrap()));
    assert!(!tokens_eq(&lex("a += 1").unwrap(), &lex("a + = 1").unwrap()));
    assert!(token_eq(&Token::Ident("x".to_string()), &Token::Ident("x".to_string())));
    assert!(!token_eq(&Token::Ident("1".to_string()), &Token::Literal("1".to_string())));
}

#[test]
fn tokens_are_copied_whole() {
    let tokens = lex("a (b [c]) d e").unwrap();
    assert!(tokens_eq(&clone_tokens(&tokens), &tokens));
    assert!(tokens_eq(&copy_range(&tokens, 1, 3), &lex("(b [c]) d").unwrap()));
    assert!(copy_range(&tokens, 2, 2).is_empty());
    let mut out = lex("x").unwrap();
    extend_tokens(&mut out, &tokens);
    assert!(tokens_eq(&out, &lex("x a (b [c]) d e").unwrap()));
}
