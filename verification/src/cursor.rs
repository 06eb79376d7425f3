//! Looking at the token at a position.

use vstd::prelude::*;
use crate::error::{ParseError, ParseErrorView};
use crate::grammar::{group_at, ident_at, lifetime_at, pair_at, punct_at, word_at};
use crate::source::{Syntax, host_end};
use crate::token::{Delimiter, Token, clone_token, lemma_group_view};

verus! {

/// Whether what was parsed from index `pos` on has the given value: on
/// success the value read and the index after its last token, on failure
/// the failure.
pub open spec fn parsed<T: DeepView>(
    r: Result<(T, usize), ParseError>,
    pos: usize,
    len: usize,
    value: Result<(T::V, nat), ParseErrorView>,
) -> bool {
    match r {
        Ok((x, end)) => pos <= end <= len && value == Ok::<(T::V, nat), ParseErrorView>(
            (x.deep_view(), (end - pos) as nat),
        ),
        Err(e) => value == Err::<(T::V, nat), ParseErrorView>(e.deep_view()),
    }
}

/// Whether the token of index `pos` is the punctuation character `c`.
pub fn is_punct(tokens: &Vec<Token>, pos: usize, c: char) -> (r: bool)
    ensures
        r == punct_at(tokens.deep_view(), pos as int, c),
{
    if pos >= tokens.len() {
        return false;
    }
    assert(tokens.deep_view()[pos as int] == tokens[pos as int].deep_view());
    match &tokens[pos] {
        Token::Punct(x, _) => *x == c,
        _ => false,
    }
}

/// Whether the tokens of index `pos` and `pos + 1` are the punctuation
/// characters `a` and `b`, written without space between them.
pub fn is_pair(tokens: &Vec<Token>, pos: usize, a: char, b: char) -> (r: bool)
    ensures
        r == pair_at(tokens.deep_view(), pos as int, a, b),
{
    if pos >= tokens.len() {
        return false;
    }
    assert(tokens.deep_view()[pos as int] == tokens[pos as int].deep_view());
    match &tokens[pos] {
        Token::Punct(x, joint) => *x == a && *joint && is_punct(tokens, pos + 1, b),
        _ => false,
    }
}

/// Whether the token of index `pos` is the identifier or keyword `word`.
pub fn is_word(tokens: &Vec<Token>, pos: usize, word: &str) -> (r: bool)
    ensures
        r == word_at(tokens.deep_view(), pos as int, word@),
{
    if pos >= tokens.len() {
        return false;
    }
    assert(tokens.deep_view()[pos as int] == tokens[pos as int].deep_view());
    match &tokens[pos] {
        Token::Ident(text) => {
            let expected = word.to_owned();
            *text == expected
        },
        _ => false,
    }
}

/// Whether the token of index `pos` is a group with the given delimiter.
pub fn is_group(tokens: &Vec<Token>, pos: usize, delimiter: Delimiter) -> (r: bool)
    ensures
        r == group_at(tokens.deep_view(), pos as int, delimiter),
{
    if pos >= tokens.len() {
        return false;
    }
    assert(tokens.deep_view()[pos as int] == tokens[pos as int].deep_view());
    match &tokens[pos] {
        Token::Group(d, inner) => {
            proof {
                lemma_group_view(*d, *inner);
            }
            *d == delimiter
        },
        _ => false,
    }
}

/// The tokens inside the group of index `pos`, where a group with the
/// given delimiter stands there.
pub fn group_content(tokens: &Vec<Token>, pos: usize, delimiter: Delimiter) -> (r: Option<
    &Vec<Token>,
>)
    ensures
        r is Some <==> group_at(tokens.deep_view(), pos as int, delimiter),
        r matches Some(inner) ==> pos < tokens.len() && inner.deep_view() == tokens.deep_view()[pos as int]->Group_1
            && decreases_to!(tokens => inner),
{
    if pos >= tokens.len() {
        return None;
    }
    assert(tokens.deep_view()[pos as int] == tokens[pos as int].deep_view());
    match &tokens[pos] {
        Token::Group(d, inner) => {
            proof {
                lemma_group_view(*d, *inner);
            }
            if *d == delimiter {
                Some(inner)
            } else {
                None
            }
        },
        _ => None,
    }
}

/// Whether the token of index `pos` is an identifier that is no keyword.
pub fn is_ident(tokens: &Vec<Token>, pos: usize) -> (r: bool)
    ensures
        r == ident_at(tokens.deep_view(), pos as int),
{
    if pos >= tokens.len() {
        return false;
    }
    assert(tokens.deep_view()[pos as int] == tokens[pos as int].deep_view());
    match &tokens[pos] {
        Token::Ident(_) => {
            let mut one: Vec<Token> = Vec::new();
            one.push(clone_token(&tokens[pos]));
            assert(one.deep_view() =~= seq![tokens.deep_view()[pos as int]]);
            match host_end(Syntax::Ident, &one, 0) {
                Some(end) => end == 1,
                None => false,
            }
        },
        _ => false,
    }
}

/// Whether a lifetime starts at the token of index `pos`.
pub fn is_lifetime(tokens: &Vec<Token>, pos: usize) -> (r: bool)
    ensures
        r == lifetime_at(tokens.deep_view(), pos as int),
{
    if pos >= tokens.len() || pos + 1 >= tokens.len() {
        return false;
    }
    assert(tokens.deep_view()[pos as int] == tokens[pos as int].deep_view());
    assert(tokens.deep_view()[pos + 1] == tokens[pos + 1].deep_view());
    match (&tokens[pos], &tokens[pos + 1]) {
        (Token::Punct(c, joint), Token::Ident(_)) => *c == '\'' && *joint,
        _ => false,
    }
}

/// The text of the identifier or keyword of index `pos`.
pub(crate) fn word(tokens: &Vec<Token>, pos: usize) -> (r: String)
    requires
        pos < tokens.len(),
        tokens.deep_view()[pos as int] is Ident,
    ensures
        r@ == tokens.deep_view()[pos as int]->Ident_0,
{
    assert(tokens.deep_view()[pos as int] == tokens[pos as int].deep_view());
    match &tokens[pos] {
        Token::Ident(text) => text.clone(),
        _ => String::new(),
    }
}

} // verus!
