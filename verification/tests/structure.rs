use nestify::source::{lex, render};
use nestify::special_data::{Body, Special, SpecialFields};
use nestify::token::Token;
use nestify::ty::augmented::{GenericArgument, PathArguments, Type, TypePath};
use nestify::ty::SpecialType;
use nestify::{expand, flatten, nest};

/// The definition that `source` spells out.
fn definition(source: &str) -> Special {
    Special::parse_complete(&lex(source).expect("the input lexes")).expect("a definition")
}

/// The tokens as text, one space between two tokens, whatever their spacing.
fn printed(tokens: &[Token]) -> String {
    let mut parts: Vec<String> = Vec::new();
    for token in tokens {
        match token {
            Token::Ident(text) => parts.push(text.clone()),
            Token::Literal(text) => parts.push(text.clone()),
            Token::Punct(c, _) => parts.push(c.to_string()),
            Token::Group(delimiter, inner) => {
                let (open, close) = match delimiter {
                    nestify::token::Delimiter::Parenthesis => ("(", ")"),
                    nestify::token::Delimiter::Brace => ("{", "}"),
                    nestify::token::Delimiter::Bracket => ("[", "]"),
                    nestify::token::Delimiter::Invisible => ("", ""),
                };
                parts.push(format!("{} {} {}", open, printed(inner), close));
            }
        }
    }
    parts.join(" ")
}

/// The type of the first field of a struct.
fn first_type(d: &Special) -> &SpecialType {
    match &d.body {
        Body::Struct(body) => match &body.fields {
            SpecialFields::Named(f) => &f.named[0].ty,
            SpecialFields::Unnamed(f) => &f.unnamed[0].ty,
            SpecialFields::Unit => panic!("no fields"),
        },
        Body::Enum(_) => panic!("an enum"),
    }
}

/// The path of a type that the grammar reads itself.
fn path_of(ty: &SpecialType) -> &TypePath {
    match ty {
        SpecialType::Augmented(Type::Path(path)) => path,
        other => panic!("expected a path type, got {:?}", other),
    }
}

/// What `source` expands to, as text.
fn expansion(source: &str) -> String {
    printed(&expand(&lex(source).unwrap()).expect("the definition expands"))
}

/// The text of `source` in the same form.
fn quoted(source: &str) -> String {
    printed(&lex(source).unwrap())
}

#[test]
fn the_parts_of_a_definition() {
    let d = definition(
        "#[a]* #[b] pub(crate) struct Pair<'a, T: Clone> where T: Copy { pub first: &'a T, second: T }",
    );
    assert_eq!(d.attrs.len(), 2);
    assert_eq!(printed(&d.vis), "pub ( crate )");
    assert_eq!(d.ident, "Pair");
    assert_eq!(printed(&d.generics), quoted("<'a, T: Clone>"));
    assert_eq!(printed(&d.where_clause), quoted("where T: Copy"));
    match &d.body {
        Body::Struct(body) => {
            assert!(!body.semi_token);
            match &body.fields {
                SpecialFields::Named(fields) => {
                    assert_eq!(fields.named.len(), 2);
                    assert_eq!(fields.named[0].ident.as_deref(), Some("first"));
                    assert_eq!(printed(&fields.named[0].vis), "pub");
                    assert!(fields.named[1].vis.is_empty());
                }
                other => panic!("expected named fields, got {:?}", other),
            }
        }
        other => panic!("expected a struct, got {:?}", other),
    }
}

#[test]
fn a_tuple_struct_takes_its_where_clause_and_semicolon_after_the_fields() {
    let d = definition("struct A<T>(T) where T: Clone;");
    assert_eq!(printed(&d.where_clause), quoted("where T: Clone"));
    match &d.body {
        Body::Struct(body) => assert!(body.semi_token),
        other => panic!("expected a struct, got {:?}", other),
    }
    let d = definition("struct A<T>(T)");
    match &d.body {
        Body::Struct(body) => assert!(!body.semi_token),
        other => panic!("expected a struct, got {:?}", other),
    }
    assert_eq!(expansion("struct A<T>(T) where T: Clone"), quoted("struct A<T>(T) where T: Clone;"));
    assert_eq!(
        expansion("struct A<T> where T: Clone { x: T }"),
        quoted("struct A<T> where T: Clone { x: T }")
    );
    assert_eq!(expansion("struct A<T> where T: Clone;"), quoted("struct A<T> where T: Clone;"));
}

#[test]
fn the_variants_of_an_enum() {
    let d = definition("enum E { #[x] A = 1 + 1, pub B(u8), C { c: u8 }, }");
    match &d.body {
        Body::Enum(body) => {
            assert_eq!(body.variants.len(), 3);
            assert_eq!(body.variants[0].ident, "A");
            assert_eq!(body.variants[0].attrs.len(), 1);
            assert_eq!(
                body.variants[0].discriminant.as_ref().map(|d| printed(&d.expr)),
                Some("1 + 1".to_string())
            );
            assert!(matches!(body.variants[0].fields, SpecialFields::Unit));
            assert!(matches!(body.variants[1].fields, SpecialFields::Unnamed(_)));
            assert!(body.variants[1].discriminant.is_none());
            assert!(matches!(body.variants[2].fields, SpecialFields::Named(_)));
        }
        other => panic!("expected an enum, got {:?}", other),
    }
    assert_eq!(
        expansion("enum E { #[x] A = 1 + 1, pub B(u8), C { c: u8 }, }"),
        quoted("enum E { #[x] A = 1 + 1, B(u8), C { c: u8 } }")
    );
}

#[test]
fn an_ordinary_type_is_left_to_the_host_language() {
    let d = definition("struct A { x: std::collections::HashMap<String, Vec<u8>> }");
    assert!(matches!(first_type(&d), SpecialType::Type(_)));
    let d = definition("struct A(<T as Iterator>::Item);");
    assert!(matches!(first_type(&d), SpecialType::Type(_)));
    let d = definition("struct A(my_macro!(x));");
    assert!(matches!(first_type(&d), SpecialType::Type(_)));
}

#[test]
fn a_path_with_a_definition_among_its_arguments() {
    let d = definition(
        "struct A { x: ::std::result::Result::<struct Good;, Box<enum Bad {}>, > }",
    );
    let path = path_of(first_type(&d));
    assert!(path.qself.is_none());
    assert!(path.path.leading_colon);
    assert_eq!(path.path.segments.len(), 3);
    assert_eq!(path.path.segments[0].ident, "std");
    assert!(path.path.segments[0].arguments.is_none());
    assert!(!path.path.is_mod_style());
    match &path.path.segments[2].arguments {
        PathArguments::AngleBracketed(a) => {
            assert!(a.colon2_token);
            assert_eq!(a.args.len(), 2);
            assert!(matches!(&a.args[0], GenericArgument::Type(SpecialType::Def(d), None) if d.ident == "Good"));
            match &a.args[1] {
                GenericArgument::Type(inner, None) => {
                    let inner = path_of(inner);
                    assert_eq!(inner.path.segments[0].ident, "Box");
                }
                other => panic!("expected a type, got {:?}", other),
            }
        }
        other => panic!("expected generic arguments, got {:?}", other),
    }
    assert_eq!(
        expansion("struct A { x: ::std::result::Result::<struct Good;, Box<enum Bad {}>, > }"),
        quoted("struct A { x: ::std::result::Result::<Good, Box<Bad>> } struct Good; enum Bad {}")
    );
}

#[test]
fn the_kinds_of_generic_arguments() {
    let d = definition(
        "struct A { x: Holder<'a, 3, { N + 1 }, u8, Item = u8, Item: Clone + 'a, N = 4, struct In<T>(T) ||<u8>> }",
    );
    let path = path_of(first_type(&d));
    match &path.path.segments[0].arguments {
        PathArguments::AngleBracketed(a) => {
            assert!(!a.colon2_token);
            assert_eq!(a.args.len(), 8);
            assert!(matches!(&a.args[0], GenericArgument::Lifetime(t) if printed(t) == "' a"));
            assert!(matches!(&a.args[1], GenericArgument::Const(t) if printed(t) == "3"));
            assert!(matches!(&a.args[2], GenericArgument::Const(t) if printed(t) == "{ N + 1 }"));
            assert!(matches!(&a.args[3], GenericArgument::Type(SpecialType::Type(t), None) if printed(t) == "u8"));
            assert!(matches!(&a.args[4], GenericArgument::AssocType(t) if printed(t) == "Item = u8"));
            assert!(matches!(&a.args[5], GenericArgument::Constraint(t) if printed(t) == "Item : Clone + ' a"));
            assert!(matches!(&a.args[6], GenericArgument::AssocConst(t) if printed(t) == "N = 4"));
            match &a.args[7] {
                GenericArgument::Type(SpecialType::Def(d), Some(hook)) => {
                    assert_eq!(d.ident, "In");
                    assert_eq!(printed(&hook.generics), quoted("<u8>"));
                }
                other => panic!("expected a definition with a hook, got {:?}", other),
            }
        }
        other => panic!("expected generic arguments, got {:?}", other),
    }
    assert_eq!(
        expansion(
            "struct A { x: Holder<'a, 3, { N + 1 }, u8, Item = u8, Item: Clone + 'a, N = 4, struct In<T>(T) ||<u8>> }"
        ),
        quoted(
            "struct A { x: Holder<'a, 3, { N + 1 }, u8, Item = u8, Item: Clone + 'a, N = 4, In<u8>> } struct In<T>(T);"
        )
    );
}

#[test]
fn a_qualified_path_with_a_definition_in_it() {
    let d = definition("struct A { x: <u8 as Into<struct In;>>::Out::<enum E {}> }");
    let path = path_of(first_type(&d));
    let q = path.qself.as_ref().expect("a qualified self type");
    assert_eq!(printed(&q.ty), "u8");
    assert!(q.as_token);
    assert_eq!(q.position, 1);
    assert!(!path.path.leading_colon);
    assert_eq!(path.path.segments.len(), 2);
    assert_eq!(path.path.segments[0].ident, "Into");
    assert_eq!(path.path.segments[1].ident, "Out");
    assert_eq!(
        expansion("struct A { x: <u8 as Into<struct In;>>::Out::<enum E {}> }"),
        quoted("struct A { x: <u8 as Into<In>>::Out::<E> } struct In; enum E {}")
    );

    let d = definition("struct A { x: <u8>::Out<struct In;> }");
    let path = path_of(first_type(&d));
    let q = path.qself.as_ref().expect("a qualified self type");
    assert!(!q.as_token);
    assert_eq!(q.position, 0);
    assert!(path.path.leading_colon);
    assert_eq!(
        expansion("struct A { x: <u8>::Out<struct In;> }"),
        quoted("struct A { x: <u8>::Out<In> } struct In;")
    );
}

#[test]
fn paths_start_with_the_usual_words() {
    for start in ["self", "super", "crate", "Self"] {
        let source = format!("struct A {{ x: {}::Of<struct In;> }}", start);
        let d = definition(&source);
        let path = path_of(first_type(&d));
        assert_eq!(path.path.segments[0].ident, start);
        assert_eq!(path.path.segments.len(), 2);
    }
}

#[test]
fn a_definition_is_written_as_it_was_read() {
    let source = "#[a] pub struct A<T> where T: Copy { pub x: struct B(struct C;, u8) , #[f] y: Option<enum E { V }> }";
    let d = definition(source);
    let mut tokens = Vec::new();
    d.to_tokens(&mut tokens);
    assert_eq!(
        printed(&tokens),
        quoted("#[a] pub struct A<T> where T: Copy { pub x: struct B(struct C;, u8);, #[f] y: Option<enum E { V }> }")
    );
    let again = Special::parse_complete(&tokens).expect("what is written reads back");
    let mut second = Vec::new();
    again.to_tokens(&mut second);
    assert!(nestify::token::tokens_eq(&tokens, &second));
}

#[test]
fn a_hook_is_written_with_its_marker_and_read_back() {
    let d = definition("struct A(struct B<T>(T) ||<u8>);");
    let mut tokens = Vec::new();
    d.to_tokens(&mut tokens);
    assert_eq!(printed(&tokens), quoted("struct A(struct B<T>(T); ||<u8>);"));
    let again = Special::parse_complete(&tokens).expect("what is written reads back");
    assert_eq!(flatten(&again).unwrap().len(), 2);
}

#[test]
fn modifiers_and_markers_are_not_written() {
    assert_eq!(
        expansion("#[a]* #[b] struct A { #>[c]- #[d] x: #[c]* struct B; }"),
        quoted("#[a] #[b] struct A { #[d] x: B } #[a] #[c] struct B;")
    );
}

#[test]
fn the_whole_expansion_from_text_to_text() {
    assert_eq!(
        quoted(&nest("struct A(struct B<T>(T) ||<i32>)").unwrap()),
        quoted("struct A(B<i32>); struct B<T>(T);")
    );
    assert_eq!(
        quoted(&nest("struct A { f: Option<struct B{}> }").unwrap()),
        quoted("struct A { f: Option<B> } struct B {}")
    );
    assert_eq!(
        nest("struct A { x: struct B { y: i32 } }").unwrap(),
        render(&lex("struct A { x: B } struct B { y: i32 }").unwrap()).unwrap()
    );
}
