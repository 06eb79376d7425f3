use nestify::source::lex;
use nestify::token::Token;
use nestify::{expand, nest};

/// The tokens as text, one space between two tokens, whatever their spacing.
fn plain(tokens: &[Token]) -> String {
    let mut parts: Vec<String> = Vec::new();
    for token in tokens {
        match token {
            Token::Ident(text) => parts.push(text.clone()),
            Token::Literal(text) => parts.push(text.clone()),
            Token::Punct(c, _) => parts.push(c.to_string()),
            Token::Group(delimiter, inner) => {
                let (open, close) = match delimiter {
                    nestify::token::Delimiter::Parenthesis => ("(", ")"),
                    nestify::token::Delimiter::Brace => ("{", "}"),
                    nestify::token::Delimiter::Bracket => ("[", "]"),
                    nestify::token::Delimiter::Invisible => ("", ""),
                };
                parts.push(format!("{} {} {}", open, plain(inner), close));
            }
        }
    }
    parts.join(" ")
}

/// What `source` expands to, as text. The expansion is a sequence of items
/// of the host language.
fn expansion(source: &str) -> String {
    let tokens = lex(source).expect("the input lexes");
    match expand(&tokens) {
        Ok(out) => {
            let printed = nestify::source::render(&out).expect("the expansion prints");
            let file = syn::parse_file(&printed).expect("the expansion is a sequence of items");
            assert!(file.items.iter().all(|item| matches!(item, syn::Item::Struct(_) | syn::Item::Enum(_))));
            plain(&out)
        }
        Err(e) => panic!("expansion failed: {:?}", e),
    }
}

/// The text of `source` in the same form.
fn text(source: &str) -> String {
    plain(&lex(source).expect("the expected text lexes"))
}

#[test]
fn simple_nested_structures() {
    let out = expansion(
        "struct UserProfile {
            name: String,
            address: struct Address {
                street: String,
                city: String,
            },
            preferences: struct Preferences {
                newsletter: bool,
            },
        }",
    );
    assert_eq!(
        out,
        text(
            "struct UserProfile { name: String, address: Address, preferences: Preferences }
             struct Address { street: String, city: String }
             struct Preferences { newsletter: bool }"
        )
    );
}

#[test]
fn simple_nested_enums() {
    let out = expansion(
        "struct Task {
            id: i32,
            description: String,
            status: enum Status {
                Pending,
                InProgress,
                Completed,
            },
        }",
    );
    assert_eq!(
        out,
        text(
            "struct Task { id: i32, description: String, status: Status }
             enum Status { Pending, InProgress, Completed }"
        )
    );
}

#[test]
fn field_structs() {
    let out = expansion(
        "struct Named {
            f: struct Nested {}
        }",
    );
    assert_eq!(out, text("struct Named { f: Nested } struct Nested {}"));
}

#[test]
fn tuple_structs() {
    let out = expansion("struct Unnamed(struct Nested())");
    assert_eq!(out, text("struct Unnamed(Nested); struct Nested();"));
}

#[test]
fn unit_structs() {
    let out = expansion(
        "struct Unit {
            unit: struct UnitStruct
        }",
    );
    assert_eq!(out, text("struct Unit { unit: UnitStruct } struct UnitStruct;"));
}

#[test]
fn examples_enum_variants() {
    let out = expansion(
        "enum EnumVariants {
            Unit,
            Tuple(i32, struct TupleNested),
            Struct {
                f1: i32,

            },
            // DiscriminantVariant = 1,
        }",
    );
    assert_eq!(
        out,
        text(
            "enum EnumVariants { Unit, Tuple(i32, TupleNested), Struct { f1: i32 } }
             struct TupleNested;"
        )
    );

    let out = expansion(
        "enum MyEnum {
            #>[derive(Debug)]
            Variant {
                // #[derive(Debug)
                one: struct One,
                // #[derive(Debug)
                two: struct Two
            }
        }",
    );
    assert_eq!(
        out,
        text(
            "enum MyEnum { Variant { one: One, two: Two } }
             #[derive(Debug)] struct One;
             #[derive(Debug)] struct Two;"
        )
    );

    let out = expansion(
        "pub enum One {
            Two(pub struct Two)
        }",
    );
    assert_eq!(out, text("pub enum One { Two(pub Two) } struct Two;"));
}

#[test]
fn generic() {
    let out = expansion(
        "struct Example<'a, T> {
            s: &'a str,
            t: T
        }",
    );
    assert_eq!(out, text("struct Example<'a, T> { s: &'a str, t: T }"));
}

#[test]
fn nested_generics() {
    let out = expansion(
        "struct Parent<'a> {
            child : struct Child<'c, C> {
                s: &'c str,
                f: C
            } ||<'a, i32>
        }",
    );
    assert_eq!(
        out,
        text(
            "struct Parent<'a> { child: Child<'a, i32> }
             struct Child<'c, C> { s: &'c str, f: C }"
        )
    );
}

#[test]
fn named_fields() {
    let out = expansion(
        "pub struct One {
            pub two: pub struct Two
        }",
    );
    assert_eq!(out, text("pub struct One { pub two: Two } pub struct Two;"));
}

#[test]
fn unnamed_fields() {
    let out = expansion("pub struct One(pub struct Two)");
    assert_eq!(out, text("pub struct One(pub Two); struct Two;"));
}

#[test]
fn vec_example() {
    let out = expansion("struct One(Vec<struct Two { field: i32 }>);");
    assert_eq!(out, text("struct One(Vec<Two>); struct Two { field: i32 }"));
}

#[test]
fn option_example() {
    let out = expansion("struct AppConfig(Option<struct DatabaseConfig { url: String }>);");
    assert_eq!(
        out,
        text("struct AppConfig(Option<DatabaseConfig>); struct DatabaseConfig { url: String }")
    );
}

#[test]
fn source_text_goes_in_and_comes_out() {
    let out = nest("struct A { x: struct B { y: i32 } }").expect("the definition expands");
    assert_eq!(text(&out), text("struct A { x: B } struct B { y: i32 }"));
}
