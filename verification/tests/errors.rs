use nestify::error::{ErrorKind, ParseError};
use nestify::source::{lex, render};
use nestify::special_data::{FieldsNamed, FieldsUnnamed, Special};
use nestify::token::Token;
use nestify::ty::augmented::AngleBracketedGenericArguments;
use nestify::unpack_context::ScopeErrorKind;
use nestify::{expand, nest, NestError};

/// The failure of reading `source` as one definition.
fn failure(source: &str) -> (ErrorKind, Vec<usize>) {
    let tokens = lex(source).expect("the input lexes");
    match Special::parse_complete(&tokens) {
        Ok(_) => panic!("`{}` was read as a definition", source),
        Err(ParseError { kind, at }) => (kind, at),
    }
}

#[test]
fn what_is_no_definition_is_refused() {
    assert_eq!(failure("fn a() {}"), (ErrorKind::ExpectedDefinition, vec![0]));
    assert_eq!(failure("pub type A = B;"), (ErrorKind::ExpectedDefinition, vec![1]));
}

#[test]
fn a_union_is_reported_as_such() {
    assert_eq!(failure("union U { a: i32 }"), (ErrorKind::UnsupportedUnion, vec![0]));
    assert_eq!(failure("#[repr(C)] pub union U { a: i32 }"), (ErrorKind::UnsupportedUnion, vec![3]));
}

#[test]
fn a_definition_needs_a_name() {
    assert_eq!(failure("struct { }"), (ErrorKind::ExpectedIdent, vec![1]));
    assert_eq!(failure("enum struct { }"), (ErrorKind::ExpectedIdent, vec![1]));
    assert_eq!(failure("struct"), (ErrorKind::ExpectedIdent, vec![1]));
}

#[test]
fn malformed_host_syntax_is_refused() {
    assert_eq!(failure("pub(in) struct A;"), (ErrorKind::InvalidVisibility, vec![0]));
    assert_eq!(failure("struct A<T { }"), (ErrorKind::InvalidGenerics, vec![2]));
    assert_eq!(failure("struct A where 5 { }"), (ErrorKind::InvalidWhereClause, vec![2]));
    assert_eq!(failure("enum E { A = }"), (ErrorKind::InvalidExpr, vec![2, 2]));
}

#[test]
fn an_enum_needs_braces() {
    assert_eq!(failure("enum E;"), (ErrorKind::ExpectedBraces, vec![2]));
    assert_eq!(failure("enum E(A, B)"), (ErrorKind::ExpectedBraces, vec![2]));
}

#[test]
fn field_groups_need_their_delimiters() {
    let tokens = lex("(i32)").unwrap();
    let e = FieldsNamed::parse(&tokens, 0).err().unwrap();
    assert_eq!((e.kind, e.at), (ErrorKind::ExpectedBraces, vec![0]));

    let tokens = lex("{ a: i32 }").unwrap();
    let e = FieldsUnnamed::parse(&tokens, 0).err().unwrap();
    assert_eq!((e.kind, e.at), (ErrorKind::ExpectedParentheses, vec![0]));
}

#[test]
fn fields_are_named_typed_and_separated() {
    assert_eq!(failure("struct A { x i32 }"), (ErrorKind::ExpectedColon, vec![2, 1]));
    assert_eq!(failure("struct A { x: i32 y: i32 }"), (ErrorKind::ExpectedComma, vec![2, 3]));
    assert_eq!(failure("struct A { : i32 }"), (ErrorKind::ExpectedIdent, vec![2, 0]));
    assert_eq!(failure("enum E { A B }"), (ErrorKind::ExpectedComma, vec![2, 1]));
    assert_eq!(failure("struct A { x: }"), (ErrorKind::ExpectedDefinition, vec![2, 2]));
}

#[test]
fn a_field_named_underscore_takes_no_definition() {
    assert_eq!(
        failure("struct A { _: struct B {} }"),
        (ErrorKind::UnnamedFieldDefinition, vec![2, 2])
    );
    assert_eq!(
        failure("struct A { _: union { a: i32 } }"),
        (ErrorKind::UnnamedFieldDefinition, vec![2, 2])
    );
}

#[test]
fn a_qualified_path_needs_all_its_parts() {
    assert_eq!(
        failure("struct A { x: <struct B {} as T>::X }"),
        (ErrorKind::ExpectedType, vec![2, 3])
    );
    assert_eq!(
        failure("struct A { x: <i32 as Tr<struct B {}> ; ::X }"),
        (ErrorKind::ExpectedGreater, vec![2, 11])
    );
    assert_eq!(
        failure("struct A { x: <i32 as Tr<struct B {}>> X }"),
        (ErrorKind::ExpectedPathSeparator, vec![2, 12])
    );
}

#[test]
fn generic_arguments_are_well_formed() {
    let tokens = lex("::T>").unwrap();
    let e = AngleBracketedGenericArguments::parse(&tokens, 0).err().unwrap();
    assert_eq!((e.kind, e.at), (ErrorKind::ExpectedLess, vec![2]));

    assert_eq!(
        failure("struct A { x: Foo<{ struct }, struct B {}> }"),
        (ErrorKind::InvalidGenericArgument, vec![2, 4])
    );
    assert_eq!(
        failure("struct A { x: Foo<Item = struct B {}> }"),
        (ErrorKind::InvalidGenericArgument, vec![2, 5])
    );
    assert_eq!(
        failure("struct A { x: Option<struct B {} struct C {}> }"),
        (ErrorKind::ExpectedComma, vec![2, 7])
    );
}

#[test]
fn a_hook_follows_a_definition_only() {
    assert_eq!(failure("struct A { x: i32 ||<T> }"), (ErrorKind::MisplacedFishHook, vec![2, 3]));
    assert_eq!(
        failure("struct A { x: Option<struct B<T>(T)> ||<u8> }"),
        (ErrorKind::MisplacedFishHook, vec![2, 11])
    );
    assert_eq!(
        failure("struct A { x: Vec<i32 ||<u8>, struct B;> }"),
        (ErrorKind::MisplacedFishHook, vec![2, 5])
    );
    assert_eq!(failure("struct A(struct B<T>(T) ||<>)"), (ErrorKind::EmptyFishHook, vec![2, 6]));
    assert_eq!(
        failure("struct A(struct B<T>(T) ||::<u8>)"),
        (ErrorKind::FishHookColons, vec![2, 8])
    );
    assert_eq!(failure("struct A(struct B<T>(T) || u8)"), (ErrorKind::InvalidFishHook, vec![2, 8]));
}

#[test]
fn attributes_of_definitions_are_well_formed() {
    assert_eq!(failure("#[a]+ struct A;"), (ErrorKind::ExpectedModifier, vec![2]));
    assert_eq!(failure("#>[a] struct A;"), (ErrorKind::ExpectedBrackets, vec![1]));
    assert_eq!(failure("#[] struct A;"), (ErrorKind::InvalidMeta, vec![1]));
    assert_eq!(failure("struct A { #>a x: i32 }"), (ErrorKind::ExpectedBrackets, vec![2, 2]));
}

#[test]
fn one_definition_and_no_more() {
    assert_eq!(failure("struct A; struct B;"), (ErrorKind::UnexpectedToken, vec![3]));
    assert_eq!(failure("struct A { } ;"), (ErrorKind::UnexpectedToken, vec![3]));
}

#[test]
fn removing_what_is_not_in_force_fails() {
    let tokens = lex("#[derive(Debug)]/ struct A { x: i32 }").unwrap();
    match expand(&tokens) {
        Err(NestError::Unpack(e)) => {
            assert_eq!(e.definition, "A");
            assert_eq!(e.error.kind, ScopeErrorKind::NotActive);
            assert_eq!(e.error.index, 0);
        }
        other => panic!("expected a failure to resolve, got {:?}", other),
    }
    let tokens = lex("#[a]* struct A { x: #[b] #[a]/ #[a]- struct B; }").unwrap();
    match expand(&tokens) {
        Err(NestError::Unpack(e)) => {
            assert_eq!(e.definition, "B");
            assert_eq!(e.error.kind, ScopeErrorKind::NotActive);
            assert_eq!(e.error.index, 2);
        }
        other => panic!("expected a failure to resolve, got {:?}", other),
    }
}

#[test]
fn applying_what_is_in_force_fails() {
    let tokens = lex("#[a]* struct A { x: #[a] struct B; }").unwrap();
    match expand(&tokens) {
        Err(NestError::Unpack(e)) => {
            assert_eq!(e.definition, "B");
            assert_eq!(e.error.kind, ScopeErrorKind::AlreadyActive);
            assert_eq!(e.error.index, 0);
        }
        other => panic!("expected a failure to resolve, got {:?}", other),
    }
    let tokens = lex("#[a]* struct A { x: struct B { y: #[a]* struct C; } }").unwrap();
    match expand(&tokens) {
        Err(NestError::Unpack(e)) => {
            assert_eq!(e.definition, "C");
            assert_eq!(e.error.kind, ScopeErrorKind::AlreadyActive);
        }
        other => panic!("expected a failure to resolve, got {:?}", other),
    }
}

#[test]
fn failures_of_the_whole_expansion() {
    assert!(matches!(nest("struct A {"), Err(NestError::Lex)));
    assert!(matches!(nest("   "), Err(NestError::Empty)));
    match nest("struct A { x: i32 ||<T> }") {
        Err(NestError::Parse(e)) => assert_eq!(e.kind, ErrorKind::MisplacedFishHook),
        other => panic!("expected a failure to parse, got {:?}", other),
    }
    assert!(matches!(nest("#[a]- struct A;"), Err(NestError::Unpack(_))));
}

#[test]
fn tokens_that_the_host_language_refuses_do_not_print() {
    assert_eq!(render(&vec![Token::Ident("1bad".to_string())]), None);
    assert_eq!(render(&vec![Token::Ident("two words".to_string())]), None);
    assert_eq!(render(&vec![Token::Punct('a', false)]), None);
    assert_eq!(render(&vec![Token::Literal("name".to_string())]), None);
    assert_eq!(
        render(&vec![Token::Group(
            nestify::token::Delimiter::Brace,
            vec![Token::Literal("".to_string())]
        )]),
        None
    );
    let tokens = vec![
        Token::Ident("struct".to_string()),
        Token::Ident("1bad".to_string()),
        Token::Punct(';', false),
    ];
    match expand(&tokens) {
        Err(NestError::Parse(e)) => assert_eq!(e.kind, ErrorKind::InvalidVisibility),
        other => panic!("expected a failure to parse, got {:?}", other),
    }
}
