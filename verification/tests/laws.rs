use nestify::flatten;
use nestify::source::{lex, render};
use nestify::special_data::{Body, Special, SpecialField, SpecialFields};
use nestify::token::Token;
use nestify::ty::augmented::{GenericArgument, PathArguments, Type};
use nestify::ty::SpecialType;

/// The definition that `source` spells out.
fn definition(source: &str) -> Special {
    Special::parse_complete(&lex(source).expect("the input lexes")).expect("a definition")
}

/// The flat list for the definition that `source` spells out.
fn flat(source: &str) -> Vec<Special> {
    flatten(&definition(source)).expect("the definition flattens")
}

/// The names of the definitions, in order.
fn names(list: &[Special]) -> Vec<String> {
    list.iter().map(|d| d.ident.clone()).collect()
}

/// The payloads of the attributes of a definition, as text.
fn attributes(d: &Special) -> Vec<String> {
    d.attrs.iter().map(|a| render(&a.meta).unwrap()).collect()
}

/// The fields of a struct.
fn fields(d: &Special) -> &Vec<SpecialField> {
    match &d.body {
        Body::Struct(body) => match &body.fields {
            SpecialFields::Named(f) => &f.named,
            SpecialFields::Unnamed(f) => &f.unnamed,
            SpecialFields::Unit => panic!("`{}` has no fields", d.ident),
        },
        Body::Enum(_) => panic!("`{}` is an enum", d.ident),
    }
}

/// The tokens of an ordinary type, as text.
fn plain_type(ty: &SpecialType) -> String {
    match ty {
        SpecialType::Type(tokens) => render(tokens).unwrap(),
        other => panic!("expected an ordinary type, got {:?}", other),
    }
}

/// Whether a definition stands in the type.
fn holds_definition(ty: &SpecialType) -> bool {
    match ty {
        SpecialType::Type(_) => false,
        SpecialType::Def(_) => true,
        SpecialType::Augmented(Type::Path(path)) => path.path.segments.iter().any(|s| {
            match &s.arguments {
                PathArguments::Empty => false,
                PathArguments::AngleBracketed(a) => a.args.iter().any(|arg| match arg {
                    GenericArgument::Type(ty, fish) => holds_definition(ty) || fish.is_some(),
                    _ => false,
                }),
            }
        }),
    }
}

/// Whether no definition is nested in the definition.
fn is_flat(d: &Special) -> bool {
    let plain = |list: &Vec<SpecialField>| {
        list.iter().all(|f| {
            !holds_definition(&f.ty)
                && f.fish.is_none()
                && f.attrs.iter().all(|a| matches!(a, nestify::attributes::FieldAttribute::Field(_)))
        })
    };
    let group = |fields: &SpecialFields| match fields {
        SpecialFields::Named(f) => plain(&f.named),
        SpecialFields::Unnamed(f) => plain(&f.unnamed),
        SpecialFields::Unit => true,
    };
    d.attrs.iter().all(|a| a.modifier.is_none())
        && match &d.body {
            Body::Struct(body) => group(&body.fields),
            Body::Enum(body) => body.variants.iter().all(|v| {
                group(&v.fields)
                    && v.attrs
                        .iter()
                        .all(|a| matches!(a, nestify::attributes::FieldAttribute::Field(_)))
            }),
        }
}

const DEEP: &str = "struct Root {
    a: struct A { x: struct AX; , y: Vec<struct AY(i32)> },
    b: u8,
    c: Result<struct Good {}, enum Bad { One(struct Worse;), Two { w: struct Worst {} } }>,
    d: struct D<T>(T) ||<u8>,
}";

#[test]
fn one_definition_for_each_that_is_written() {
    assert_eq!(flat("struct Alone;").len(), 1);
    assert_eq!(flat("struct A { x: struct B { y: i32 } }").len(), 2);
    assert_eq!(flat(DEEP).len(), 1 + 8);
    assert_eq!(flat("enum E { A(Option<Option<struct In;>>) }").len(), 2);
}

#[test]
fn definitions_come_depth_first_in_the_order_of_the_fields() {
    assert_eq!(
        names(&flat(DEEP)),
        ["Root", "A", "AX", "AY", "Good", "Bad", "Worse", "Worst", "D"]
    );
    assert_eq!(names(&flat("struct A(struct B(struct C;), struct D;)")), ["A", "B", "C", "D"]);
}

#[test]
fn a_reference_bears_the_name_of_its_definition() {
    let list = flat(DEEP);
    let root = fields(&list[0]);
    assert_eq!(plain_type(&root[0].ty), "A");
    assert_eq!(list[1].ident, "A");
    assert_eq!(plain_type(&root[3].ty), "D < u8 >");
    assert_eq!(list[8].ident, "D");
    match &root[3].ty {
        SpecialType::Type(tokens) => {
            assert!(matches!(&tokens[0], Token::Ident(name) if *name == list[8].ident))
        }
        other => panic!("expected a reference, got {:?}", other),
    }
    let a = fields(&list[1]);
    assert_eq!(plain_type(&a[0].ty), "AX");
    assert_eq!(list[2].ident, "AX");
}

#[test]
fn an_ordinary_type_stays_as_it_is() {
    let source = "struct A { x: &'static [Option<(u8, fn(i32) -> Box<dyn Fn() + Send>)>; 4], y: i32 }";
    let parsed = definition(source);
    let list = flat(source);
    assert_eq!(list.len(), 1);
    let before = fields(&parsed);
    let after = fields(&list[0]);
    for (b, a) in before.iter().zip(after.iter()) {
        match (&b.ty, &a.ty) {
            (SpecialType::Type(x), SpecialType::Type(y)) => {
                assert!(nestify::token::tokens_eq(x, y));
                assert_eq!(render(x), render(y));
            }
            other => panic!("expected ordinary types, got {:?}", other),
        }
    }
    assert_eq!(
        plain_type(&after[0].ty),
        render(&lex("&'static [Option<(u8, fn(i32) -> Box<dyn Fn() + Send>)>; 4]").unwrap()).unwrap()
    );
}

#[test]
fn what_comes_out_is_flat() {
    for d in flat(DEEP) {
        assert!(is_flat(&d), "`{}` is not flat", d.ident);
    }
    assert!(!is_flat(&definition(DEEP)));
    for d in flat("#[a]* enum E { #>[b]* #[c] V(struct X { f: struct Y; }), W { g: Option<struct Z;> } }") {
        assert!(is_flat(&d), "`{}` is not flat", d.ident);
    }
}

#[test]
fn a_star_reaches_every_definition_below() {
    let list = flat("#[D]* struct A { f: struct B { g: struct C {} } }");
    assert_eq!(names(&list), ["A", "B", "C"]);
    for d in &list {
        assert_eq!(attributes(d), ["D"]);
    }
}

#[test]
fn a_slash_removes_from_there_down_and_not_above() {
    let list = flat(
        "#[D]* struct A {
            f: #[D]/ struct B { g: struct C { h: struct E; } },
            i: struct F;
        }",
    );
    assert_eq!(names(&list), ["A", "B", "C", "E", "F"]);
    assert_eq!(attributes(&list[0]), ["D"]);
    assert!(attributes(&list[1]).is_empty());
    assert!(attributes(&list[2]).is_empty());
    assert!(attributes(&list[3]).is_empty());
    assert_eq!(attributes(&list[4]), ["D"]);
}

#[test]
fn a_minus_skips_one_definition() {
    let list = flat(
        "#[D]* struct A {
            f: #[D]- struct B { g: struct C { h: struct E; } },
        }",
    );
    assert_eq!(names(&list), ["A", "B", "C", "E"]);
    assert_eq!(attributes(&list[0]), ["D"]);
    assert!(attributes(&list[1]).is_empty());
    assert_eq!(attributes(&list[2]), ["D"]);
    assert_eq!(attributes(&list[3]), ["D"]);
}

#[test]
fn siblings_do_not_see_each_other() {
    let list = flat(
        "struct A {
            f: #[X]* struct B { g: struct C; },
            h: struct D { i: struct E; },
            j: #[X] struct F;
        }",
    );
    assert_eq!(names(&list), ["A", "B", "C", "D", "E", "F"]);
    assert!(attributes(&list[0]).is_empty());
    assert_eq!(attributes(&list[1]), ["X"]);
    assert_eq!(attributes(&list[2]), ["X"]);
    assert!(attributes(&list[3]).is_empty());
    assert!(attributes(&list[4]).is_empty());
    assert_eq!(attributes(&list[5]), ["X"]);
}

#[test]
fn attributes_for_nested_definitions_reach_them() {
    let list = flat(
        "struct A {
            #>[derive(Debug)]
            #[serde(skip)]
            #>[derive(Clone)]*
            f: #[repr(C)] struct B { g: struct C; },
        }",
    );
    assert_eq!(attributes(&list[1]), ["repr (C)", "derive (Debug)", "derive (Clone)"]);
    assert_eq!(attributes(&list[2]), ["derive (Clone)"]);
    let field = &fields(&list[0])[0];
    assert_eq!(field.attrs.len(), 1);
    match &field.attrs[0] {
        nestify::attributes::FieldAttribute::Field(a) => {
            assert_eq!(render(&a.meta).unwrap(), "serde (skip)")
        }
        other => panic!("expected an attribute of the field, got {:?}", other),
    }
}

#[test]
fn a_variant_hands_its_attributes_to_the_definitions_in_its_fields() {
    let list = flat(
        "enum E {
            #>[v]
            A { #>[f] x: struct X;, y: Option<struct Y;> },
            B(struct Z;),
        }",
    );
    assert_eq!(names(&list), ["E", "X", "Y", "Z"]);
    assert_eq!(attributes(&list[1]), ["f", "v"]);
    assert_eq!(attributes(&list[2]), ["v"]);
    assert!(attributes(&list[3]).is_empty());
}

#[test]
fn units_and_empty_groups_hold_nothing() {
    for source in ["struct A;", "struct A", "struct A {}", "struct A();", "struct A()", "enum A {}"] {
        let list = flat(source);
        assert_eq!(names(&list), ["A"], "for `{}`", source);
    }
    let empty = definition("struct A {}");
    assert!(fields(&empty).is_empty());
    let empty = definition("struct A()");
    assert!(fields(&empty).is_empty());
}
