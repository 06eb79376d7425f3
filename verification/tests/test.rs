use nestify::source::lex;
use nestify::token::{Delimiter, Token};
use nestify::{expand, nest, NestError};

/// The tokens as text, one space between two tokens, whatever their spacing.
fn spelled(tokens: &[Token]) -> String {
    let mut parts: Vec<String> = Vec::new();
    for token in tokens {
        match token {
            Token::Ident(text) => parts.push(text.clone()),
            Token::Literal(text) => parts.push(text.clone()),
            Token::Punct(c, _) => parts.push(c.to_string()),
            Token::Group(delimiter, inner) => {
                let (open, close) = match delimiter {
                    Delimiter::Parenthesis => ("(", ")"),
                    Delimiter::Brace => ("{", "}"),
                    Delimiter::Bracket => ("[", "]"),
                    Delimiter::Invisible => ("", ""),
                };
                parts.push(format!("{} {} {}", open, spelled(inner), close));
            }
        }
    }
    parts.join(" ")
}

/// What `source` expands to, as text. The expansion is a sequence of items
/// of the host language, one for each definition.
fn expanded_text(source: &str) -> String {
    let tokens = lex(source).expect("the input lexes");
    match expand(&tokens) {
        Ok(out) => {
            let printed = nestify::source::render(&out).expect("the expansion prints");
            syn::parse_file(&printed).expect("the expansion is a sequence of items");
            spelled(&out)
        }
        Err(e) => panic!("expansion failed: {:?}", e),
    }
}

/// The text of `source` in the same form.
fn same_form(source: &str) -> String {
    spelled(&lex(source).expect("the expected text lexes"))
}

#[test]
fn es() {
    assert!(matches!(nest(""), Err(NestError::Empty)));
    assert!(matches!(expand(&Vec::new()), Err(NestError::Empty)));
}

#[test]
fn please_work() {
    let out = expanded_text(
        "struct Hello {
            pub o:
            struct Another {
                s: struct A {
                    a: struct B {
                        asdfs: struct BB {

                        },
                    },
                    c: i32,
                    d: struct D();,
                    asd: Option<i32>,
                },
            },
            pub unmaed: struct Unamed;,
        }",
    );
    assert_eq!(
        out,
        same_form(
            "struct Hello { pub o: Another, pub unmaed: Unamed }
             struct Another { s: A }
             struct A { a: B, c: i32, d: D, asd: Option<i32> }
             struct B { asdfs: BB }
             struct BB {}
             struct D();
             struct Unamed;"
        )
    );
}

#[test]
fn enum_test() {
    let out = expanded_text(
        "enum Outside {
            Empty,
            Tuple(Option<i32>, i32, enum Nested1 { }),
            #>[derive(Debug)]*
            Named {
                a: (),
                b: Option<i32>,
                c: enum Nested2 {
                    Tuple2(enum Nested3 {})
                },
                d: struct Another {}
            }
        }",
    );
    assert_eq!(
        out,
        same_form(
            "enum Outside {
                Empty,
                Tuple(Option<i32>, i32, Nested1),
                Named { a: (), b: Option<i32>, c: Nested2, d: Another }
             }
             enum Nested1 {}
             #[derive(Debug)] enum Nested2 { Tuple2(Nested3) }
             #[derive(Debug)] enum Nested3 {}
             #[derive(Debug)] struct Another {}"
        )
    );
}

#[test]
fn attribute_test() {
    let out = expanded_text(
        "#[derive(Default)]
        enum AnEnum {
            #[default]
            One = 1,
            Default,
            Two,
        }",
    );
    assert_eq!(
        out,
        same_form("#[derive(Default)] enum AnEnum { #[default] One = 1, Default, Two }")
    );

    let out = expanded_text("struct A<T>(T) where T: Clone");
    assert_eq!(out, same_form("struct A<T>(T) where T: Clone;"));
}

#[test]
fn test_semis() {
    let out = expanded_text(
        "struct Outside (
            enum E<T> {Se(T)} ||<i32>,
        )",
    );
    assert_eq!(out, same_form("struct Outside(E<i32>); enum E<T> { Se(T) }"));
}

#[test]
fn test_fish_errors() {
    let out = expanded_text(
        "struct Base(
            struct NoError<T> {
                tf: T
            } ||<i32>)",
    );
    assert_eq!(out, same_form("struct Base(NoError<i32>); struct NoError<T> { tf: T }"));
}

#[test]
fn augmented_types() {
    let out = expanded_text(
        "struct Foo {
            field: Option<struct Bar {
                foo: u32
            }>,
        }",
    );
    assert_eq!(out, same_form("struct Foo { field: Option<Bar> } struct Bar { foo: u32 }"));

    let out = expanded_text(
        "struct Foo(
            Option<pub struct Bar {
                foo: u32
            }>,
        )",
    );
    assert_eq!(out, same_form("struct Foo(Option<Bar>); pub struct Bar { foo: u32 }"));

    let out = expanded_text(
        "enum Foo {
            Variant {
                field: Option<#[derive(Debug)] struct Bar {
                    foo: u32
                }>,
            }

        }",
    );
    assert_eq!(
        out,
        same_form(
            "enum Foo { Variant { field: Option<Bar> } } #[derive(Debug)] struct Bar { foo: u32 }"
        )
    );

    let out = expanded_text(
        "#[derive(Debug)]*
        enum Foo {
            Variant(
                Option<struct Bar {
                    foo: u32
                }>,
            )
        }",
    );
    assert_eq!(
        out,
        same_form(
            "#[derive(Debug)] enum Foo { Variant(Option<Bar>) }
             #[derive(Debug)] struct Bar { foo: u32 }"
        )
    );

    let out = expanded_text(
        "struct Foo {
            field: Option<struct Bar<T>(T) ||<u32>>,
        }",
    );
    assert_eq!(out, same_form("struct Foo { field: Option<Bar<u32>> } struct Bar<T>(T);"));
}
