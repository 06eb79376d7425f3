use nestify::error::{ErrorKind, ParseError};
use nestify::fish::FishHook;
use nestify::source::{lex, render};
use nestify::token::Token;

/// Reads a generic hook from the whole of `input`.
fn parse2(input: &str) -> Result<FishHook, ParseError> {
    let tokens = lex(input).expect("the input lexes");
    let (hook, end) = FishHook::parse(&tokens, 0)?;
    if end < tokens.len() {
        return Err(ParseError::new(ErrorKind::UnexpectedToken, end));
    }
    Ok(hook)
}

/// The generic arguments of a hook, as the host language reads them.
fn arguments(hook: &FishHook) -> syn::AngleBracketedGenericArguments {
    let text = render(&hook.generics).expect("the arguments print");
    syn::parse_str(&text).expect("the arguments are generic arguments")
}

#[test]
fn parse_valid_fishhook() {
    let fish_hook = parse2("||<T>");

    assert!(fish_hook.is_ok(), "Failed to parse a valid FishHook");

    if let Ok(fish) = fish_hook {
        assert!(arguments(&fish).args.iter().count() > 0, "FishHook should have generics");
    }
}

#[test]
fn parse_fishhook_without_generics() {
    let fish_hook = parse2("||");

    assert!(fish_hook.is_err(), "Parsed a FishHook without generics");
}

#[test]
fn parse_fishhook_with_complex_generics() {
    let fish_hook = parse2("||<T: Clone + Default, U: 'static + Sync>");

    assert!(fish_hook.is_ok(), "Failed to parse FishHook with complex generics");

    if let Ok(fish) = fish_hook {
        let generics_count = arguments(&fish).args.iter().count();
        assert_eq!(generics_count, 2, "FishHook should have two generic parameters");
    }
}

#[test]
fn parse_fishhook_missing_prefix() {
    let fish_hook = parse2("<T>");

    assert!(fish_hook.is_err(), "Parsed FishHook missing the || prefix");
}

#[test]
fn parse_fishhook_with_incorrect_syntax() {
    let inputs = vec!["||<T: Clone + Default U: 'static + Sync>", "||T>", "||<>"];

    for input in inputs {
        let result = parse2(input);
        assert!(result.is_err(), "Parsed FishHook with incorrect syntax");
    }
}

#[test]
fn parse_fishhook_with_lifetime_and_constraints() {
    let fish_hook = parse2("||<'a, T: 'a + Sync>");

    assert!(fish_hook.is_ok(), "Failed to parse FishHook with lifetime and constraints");

    if let Ok(fish) = fish_hook {
        let args = arguments(&fish).args;
        let has_lifetime = args.iter().any(|p| matches!(p, syn::GenericArgument::Lifetime(_)));
        let has_type_constraints =
            args.iter().any(|p| matches!(p, syn::GenericArgument::Constraint(_)));

        assert!(has_lifetime, "Expected lifetime parameter in generics");
        assert!(has_type_constraints, "Expected type parameter with constraints in generics");
    }
}

#[test]
fn to_tokens_generates_correct_token_stream() {
    let fish_hook = FishHook { generics: lex("<T>").unwrap() };

    let mut token_stream: Vec<Token> = Vec::new();
    fish_hook.to_tokens(&mut token_stream);

    let expected_output = render(&lex("<T>").unwrap()).unwrap();
    let generated_output = render(&token_stream).unwrap();

    assert_eq!(
        generated_output, expected_output,
        "Generated TokenStream does not match expected output"
    );
}

#[test]
fn fishhook_failures_name_their_kind() {
    let e = parse2("<T>").err().unwrap();
    assert_eq!((e.kind, e.at), (ErrorKind::ExpectedFishHook, vec![0]));
    let e = parse2("||").err().unwrap();
    assert_eq!((e.kind, e.at), (ErrorKind::InvalidFishHook, vec![2]));
    let e = parse2("||<>").err().unwrap();
    assert_eq!((e.kind, e.at), (ErrorKind::EmptyFishHook, vec![0]));
    let e = parse2("||::<T>").err().unwrap();
    assert_eq!((e.kind, e.at), (ErrorKind::FishHookColons, vec![2]));
}

#[test]
fn the_hook_holds_its_arguments_with_their_brackets() {
    let hook = parse2("||<'a, i32>").unwrap();
    assert_eq!(hook.generics.len(), 6);
    assert!(matches!(&hook.generics[0], Token::Punct('<', _)));
    assert!(matches!(&hook.generics[5], Token::Punct('>', _)));
}
