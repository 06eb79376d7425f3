//! The host language: lexing and the grammar of ordinary Rust syntax, which
//! `proc_macro2` and `syn` provide.
//!
//! Nothing in this file is proved. Each function states what the library
//! relies on from the crate it calls.
//!
//! `proc_macro2` has two implementations, its own and the compiler's, and
//! chooses between them by a switch of the process. Every function here
//! that makes a stream or parses one sets that switch to `proc_macro2`'s own
//! implementation first, with `proc_macro2::fallback::force`, so that the
//! same lexer and the same trees stand behind each call wherever the
//! library runs. The switch stays set; a caller inside a compiler's macro
//! expansion resets it with `proc_macro2::fallback::unforce` when the
//! library has returned. What is stated here holds as long as no other
//! thread resets the switch while the library runs.

use vstd::prelude::*;
use crate::token::{Delimiter, Token, TokenView};
use proc_macro2::{Group, Punct, Spacing, TokenStream, TokenTree};
use std::str::FromStr;
use syn::parse::{ParseStream, Parser};

verus! {

/// A stream of token trees of `proc_macro2`.
#[verifier::external_type_specification]
#[verifier::external_body]
pub struct ExTokenStream(proc_macro2::TokenStream);

/// One token tree of `proc_macro2`.
#[verifier::external_type_specification]
#[verifier::external_body]
pub struct ExTokenTree(proc_macro2::TokenTree);

/// The token trees that a stream holds, in order, each as `tree_token`
/// gives it.
pub uninterp spec fn stream_tokens(stream: TokenStream) -> Seq<TokenView>;

/// A token tree by its kind and text: an identifier and a literal by what
/// `to_string` gives, a punctuation character with whether its spacing is
/// `Joint`, a group with its delimiter and the trees of its own stream.
pub uninterp spec fn tree_token(tree: TokenTree) -> TokenView;

/// What `proc_macro2`'s own lexer yields for a source text, or `None` where
/// the text does not lex.
pub uninterp spec fn lexed(source: Seq<char>) -> Option<Seq<TokenView>>;

/// How many token trees are left after one type is parsed from the front of
/// the tokens, or `None` where no type starts there.
pub uninterp spec fn rest_after_type(tokens: Seq<TokenView>) -> Option<usize>;

/// How many token trees are left after one attribute payload is parsed from
/// the front of the tokens, or `None` where none starts there.
pub uninterp spec fn rest_after_meta(tokens: Seq<TokenView>) -> Option<usize>;

/// How many token trees are left after a visibility, which may be empty, is
/// parsed from the front of the tokens, or `None` where it is malformed.
pub uninterp spec fn rest_after_visibility(tokens: Seq<TokenView>) -> Option<usize>;

/// How many token trees are left after one identifier that is no keyword is
/// parsed from the front of the tokens, or `None` where none starts there.
pub uninterp spec fn rest_after_ident(tokens: Seq<TokenView>) -> Option<usize>;

/// How many token trees are left after a list of generic parameters, which
/// may be absent, is parsed from the front of the tokens, or `None` where it
/// is malformed.
pub uninterp spec fn rest_after_generics(tokens: Seq<TokenView>) -> Option<usize>;

/// How many token trees are left after one `where` clause is parsed from the
/// front of the tokens, or `None` where none starts there.
pub uninterp spec fn rest_after_where_clause(tokens: Seq<TokenView>) -> Option<usize>;

/// How many token trees are left after one expression is parsed from the
/// front of the tokens, or `None` where none starts there.
pub uninterp spec fn rest_after_expr(tokens: Seq<TokenView>) -> Option<usize>;

/// How many token trees are left after one literal is parsed from the front
/// of the tokens, or `None` where none starts there.
pub uninterp spec fn rest_after_literal(tokens: Seq<TokenView>) -> Option<usize>;

/// How many token trees are left after one generic argument of the host
/// language is parsed from the front of the tokens, or `None` where none
/// starts there.
pub uninterp spec fn rest_after_generic_argument(tokens: Seq<TokenView>) -> Option<usize>;

/// How many token trees are left after one angle-bracketed list of generic
/// arguments is parsed from the front of the tokens, or `None` where none
/// starts there.
pub uninterp spec fn rest_after_angle_arguments(tokens: Seq<TokenView>) -> Option<usize>;

/// `TokenStream::from_str`, after `fallback::force`: the stream that
/// `proc_macro2`'s own lexer gives for `source`.
#[verifier::external_body]
pub(crate) fn lex_stream(source: &str) -> (stream: Option<TokenStream>)
    ensures
        stream is Some <==> lexed(source@) is Some,
        stream matches Some(s) ==> lexed(source@) == Some(stream_tokens(s)),
{
    proc_macro2::fallback::force();
    TokenStream::from_str(source).ok()
}

/// `IntoIterator for TokenStream`: the trees of the stream, in order.
#[verifier::external_body]
pub(crate) fn stream_trees(stream: &TokenStream) -> (trees: Vec<TokenTree>)
    ensures
        trees@.len() == stream_tokens(*stream).len(),
        forall|i: int|
            0 <= i < trees@.len() ==> tree_token(#[trigger] trees@[i]) == stream_tokens(
                *stream,
            )[i],
{
    stream.clone().into_iter().collect()
}

/// What a token tree holds: the token of a tree that is no group, or the
/// delimiter of a group and the stream inside it.
pub(crate) enum TreeParts {
    Leaf(Token),
    Group(Delimiter, TokenStream),
}

/// `Ident::to_string`, `Punct::as_char`, `Punct::spacing`,
/// `Literal::to_string`, `Group::delimiter` and `Group::stream`: what the
/// tree holds, by its kind.
#[verifier::external_body]
pub(crate) fn tree_parts(tree: &TokenTree) -> (parts: TreeParts)
    ensures
        match parts {
            TreeParts::Leaf(t) => t.deep_view() == tree_token(*tree) && !(tree_token(
                *tree,
            ) is Group),
            TreeParts::Group(d, s) => tree_token(*tree) == TokenView::Group(d, stream_tokens(s)),
        },
{
    match tree {
        TokenTree::Ident(i) => TreeParts::Leaf(Token::Ident(i.to_string())),
        TokenTree::Punct(p) => TreeParts::Leaf(Token::Punct(p.as_char(), p.spacing() == Spacing::Joint)),
        TokenTree::Literal(l) => TreeParts::Leaf(Token::Literal(l.to_string())),
        TokenTree::Group(g) => TreeParts::Group(match g.delimiter() {
            proc_macro2::Delimiter::Parenthesis => Delimiter::Parenthesis,
            proc_macro2::Delimiter::Brace => Delimiter::Brace,
            proc_macro2::Delimiter::Bracket => Delimiter::Bracket,
            proc_macro2::Delimiter::None => Delimiter::Invisible,
        }, g.stream()),
    }
}

/// `TokenStream::new`, after `fallback::force`: a stream without trees.
#[verifier::external_body]
pub(crate) fn empty_stream() -> (stream: TokenStream)
    ensures
        stream_tokens(stream) == Seq::<TokenView>::empty(),
{
    proc_macro2::fallback::force();
    TokenStream::new()
}

/// The characters that `Punct::new` accepts.
pub open spec fn is_punct_char(c: char) -> bool {
    c == '!' || c == '#' || c == '$' || c == '%' || c == '&' || c == '\'' || c == '*' || c == '+'
        || c == ',' || c == '-' || c == '.' || c == '/' || c == ':' || c == ';' || c == '<'
        || c == '=' || c == '>' || c == '?' || c == '@' || c == '^' || c == '|' || c == '~'
}

/// `Punct::new` and `TokenStream::from`, after `fallback::force`: a stream
/// of the one punctuation character. `Punct::new` panics on any other
/// character than those of `is_punct_char`.
#[verifier::external_body]
pub(crate) fn punct_stream(c: char, joint: bool) -> (stream: TokenStream)
    requires
        is_punct_char(c),
    ensures
        stream_tokens(stream) == seq![TokenView::Punct(c, joint)],
{
    proc_macro2::fallback::force();
    let spacing = if joint { Spacing::Joint } else { Spacing::Alone };
    TokenStream::from(TokenTree::Punct(Punct::new(c, spacing)))
}

/// `Group::new` and `TokenStream::from`, after `fallback::force`: a stream
/// of the one group that holds `inner`.
#[verifier::external_body]
pub(crate) fn group_stream(delimiter: Delimiter, inner: TokenStream) -> (stream: TokenStream)
    ensures
        stream_tokens(stream) == seq![TokenView::Group(delimiter, stream_tokens(inner))],
{
    proc_macro2::fallback::force();
    let delimiter = match delimiter {
        Delimiter::Parenthesis => proc_macro2::Delimiter::Parenthesis,
        Delimiter::Brace => proc_macro2::Delimiter::Brace,
        Delimiter::Bracket => proc_macro2::Delimiter::Bracket,
        Delimiter::Invisible => proc_macro2::Delimiter::None,
    };
    TokenStream::from(TokenTree::Group(Group::new(delimiter, inner)))
}

/// `Extend<TokenStream>::extend`, on the one stream `more`: the trees of
/// `more` follow those that `stream` held.
#[verifier::external_body]
pub(crate) fn append_stream(stream: &mut TokenStream, more: TokenStream)
    ensures
        stream_tokens(*final(stream)) == stream_tokens(*old(stream)) + stream_tokens(more),
{
    stream.extend(Some(more));
}

/// `String::push`: the character is appended to the text.
#[verifier::external_body]
pub(crate) fn push_char(text: &mut String, c: char)
    ensures
        final(text)@ == old(text)@.push(c),
{
    text.push(c);
}

/// `<syn::Type as Parse>::parse` on the front of the stream, after
/// `fallback::force`.
#[verifier::external_body]
pub(crate) fn parse_type_prefix(stream: &TokenStream) -> (rest: Option<usize>)
    ensures
        rest == rest_after_type(stream_tokens(*stream)),
{
    proc_macro2::fallback::force();
    let parser = |input: ParseStream| {
        input.parse::<syn::Type>()?;
        input.parse::<TokenStream>()
    };
    parser.parse2(stream.clone()).ok().map(|rest| rest.into_iter().count())
}

/// `<syn::Meta as Parse>::parse` on the front of the stream, after
/// `fallback::force`.
#[verifier::external_body]
pub(crate) fn parse_meta_prefix(stream: &TokenStream) -> (rest: Option<usize>)
    ensures
        rest == rest_after_meta(stream_tokens(*stream)),
{
    proc_macro2::fallback::force();
    let parser = |input: ParseStream| {
        input.parse::<syn::Meta>()?;
        input.parse::<TokenStream>()
    };
    parser.parse2(stream.clone()).ok().map(|rest| rest.into_iter().count())
}

/// `<syn::Visibility as Parse>::parse` on the front of the stream, after
/// `fallback::force`.
#[verifier::external_body]
pub(crate) fn parse_visibility_prefix(stream: &TokenStream) -> (rest: Option<usize>)
    ensures
        rest == rest_after_visibility(stream_tokens(*stream)),
{
    proc_macro2::fallback::force();
    let parser = |input: ParseStream| {
        input.parse::<syn::Visibility>()?;
        input.parse::<TokenStream>()
    };
    parser.parse2(stream.clone()).ok().map(|rest| rest.into_iter().count())
}

/// `<syn::Ident as Parse>::parse` on the front of the stream, after
/// `fallback::force`.
#[verifier::external_body]
pub(crate) fn parse_ident_prefix(stream: &TokenStream) -> (rest: Option<usize>)
    ensures
        rest == rest_after_ident(stream_tokens(*stream)),
{
    proc_macro2::fallback::force();
    let parser = |input: ParseStream| {
        input.parse::<syn::Ident>()?;
        input.parse::<TokenStream>()
    };
    parser.parse2(stream.clone()).ok().map(|rest| rest.into_iter().count())
}

/// `<syn::Generics as Parse>::parse` on the front of the stream, after
/// `fallback::force`.
#[verifier::external_body]
pub(crate) fn parse_generics_prefix(stream: &TokenStream) -> (rest: Option<usize>)
    ensures
        rest == rest_after_generics(stream_tokens(*stream)),
{
    proc_macro2::fallback::force();
    let parser = |input: ParseStream| {
        input.parse::<syn::Generics>()?;
        input.parse::<TokenStream>()
    };
    parser.parse2(stream.clone()).ok().map(|rest| rest.into_iter().count())
}

/// `<syn::WhereClause as Parse>::parse` on the front of the stream, after
/// `fallback::force`.
#[verifier::external_body]
pub(crate) fn parse_where_clause_prefix(stream: &TokenStream) -> (rest: Option<usize>)
    ensures
        rest == rest_after_where_clause(stream_tokens(*stream)),
{
    proc_macro2::fallback::force();
    let parser = |input: ParseStream| {
        input.parse::<syn::WhereClause>()?;
        input.parse::<TokenStream>()
    };
    parser.parse2(stream.clone()).ok().map(|rest| rest.into_iter().count())
}

/// `<syn::Expr as Parse>::parse` on the front of the stream, after
/// `fallback::force`.
#[verifier::external_body]
pub(crate) fn parse_expr_prefix(stream: &TokenStream) -> (rest: Option<usize>)
    ensures
        rest == rest_after_expr(stream_tokens(*stream)),
{
    proc_macro2::fallback::force();
    let parser = |input: ParseStream| {
        input.parse::<syn::Expr>()?;
        input.parse::<TokenStream>()
    };
    parser.parse2(stream.clone()).ok().map(|rest| rest.into_iter().count())
}

/// `<syn::Lit as Parse>::parse` on the front of the stream, after
/// `fallback::force`.
#[verifier::external_body]
pub(crate) fn parse_literal_prefix(stream: &TokenStream) -> (rest: Option<usize>)
    ensures
        rest == rest_after_literal(stream_tokens(*stream)),
{
    proc_macro2::fallback::force();
    let parser = |input: ParseStream| {
        input.parse::<syn::Lit>()?;
        input.parse::<TokenStream>()
    };
    parser.parse2(stream.clone()).ok().map(|rest| rest.into_iter().count())
}

/// `<syn::GenericArgument as Parse>::parse` on the front of the stream, after
/// `fallback::force`.
#[verifier::external_body]
pub(crate) fn parse_generic_argument_prefix(stream: &TokenStream) -> (rest: Option<usize>)
    ensures
        rest == rest_after_generic_argument(stream_tokens(*stream)),
{
    proc_macro2::fallback::force();
    let parser = |input: ParseStream| {
        input.parse::<syn::GenericArgument>()?;
        input.parse::<TokenStream>()
    };
    parser.parse2(stream.clone()).ok().map(|rest| rest.into_iter().count())
}

/// `<syn::AngleBracketedGenericArguments as Parse>::parse` on the front of the stream, after
/// `fallback::force`.
#[verifier::external_body]
pub(crate) fn parse_angle_arguments_prefix(stream: &TokenStream) -> (rest: Option<usize>)
    ensures
        rest == rest_after_angle_arguments(stream_tokens(*stream)),
{
    proc_macro2::fallback::force();
    let parser = |input: ParseStream| {
        input.parse::<syn::AngleBracketedGenericArguments>()?;
        input.parse::<TokenStream>()
    };
    parser.parse2(stream.clone()).ok().map(|rest| rest.into_iter().count())
}

} // verus!
