//! Between the token model and the host language: lexing source text,
//! printing tokens, and measuring how far a construct of the host language
//! reaches.

use vstd::prelude::*;
use crate::host::{
    append_stream, empty_stream, group_stream, is_punct_char, lex_stream, lexed,
    parse_angle_arguments_prefix, parse_expr_prefix, parse_generic_argument_prefix,
    parse_generics_prefix, parse_ident_prefix, parse_literal_prefix, parse_meta_prefix,
    parse_type_prefix, parse_visibility_prefix, parse_where_clause_prefix, punct_stream,
    rest_after_angle_arguments, rest_after_expr, rest_after_generic_argument, rest_after_generics,
    rest_after_ident, rest_after_literal, rest_after_meta, rest_after_type, rest_after_visibility,
    rest_after_where_clause, stream_tokens, stream_trees, tree_parts, tree_token,
    TreeParts,
};
use crate::print::{print, printed};
use crate::token::{Token, TokenView, lemma_group_view};
use proc_macro2::TokenStream;

verus! {

/// Whether the host language accepts the token: an identifier or a literal
/// whose text lexes as itself, a punctuation character of the host's, or a
/// group of such tokens.
pub open spec fn token_ok(t: TokenView) -> bool
    decreases t, 0nat,
{
    match t {
        TokenView::Ident(text) => lexed(text) == Some(seq![TokenView::Ident(text)]),
        TokenView::Literal(text) => lexed(text) == Some(seq![TokenView::Literal(text)]),
        TokenView::Punct(c, _) => is_punct_char(c),
        TokenView::Group(_, inner) => streamable(inner),
    }
}

/// Whether the host language accepts every token of the sequence.
pub open spec fn streamable(ts: Seq<TokenView>) -> bool
    decreases ts, 1nat,
{
    forall|i: int| 0 <= i < ts.len() ==> token_ok(#[trigger] ts[i])
}

/// A construct of the host language that the grammar passes through.
#[derive(Clone, Copy, PartialEq, Eq, Debug, Structural)]
pub enum Syntax {
    Type,
    Meta,
    Visibility,
    Ident,
    Generics,
    WhereClause,
    Expr,
    Literal,
    GenericArgument,
    AngleArguments,
}

/// How many tokens are left after the construct is parsed from the front of
/// the tokens, or `None` where it does not parse.
pub open spec fn rest_after(syntax: Syntax, ts: Seq<TokenView>) -> Option<usize> {
    match syntax {
        Syntax::Type => rest_after_type(ts),
        Syntax::Meta => rest_after_meta(ts),
        Syntax::Visibility => rest_after_visibility(ts),
        Syntax::Ident => rest_after_ident(ts),
        Syntax::Generics => rest_after_generics(ts),
        Syntax::WhereClause => rest_after_where_clause(ts),
        Syntax::Expr => rest_after_expr(ts),
        Syntax::Literal => rest_after_literal(ts),
        Syntax::GenericArgument => rest_after_generic_argument(ts),
        Syntax::AngleArguments => rest_after_angle_arguments(ts),
    }
}

/// Whether the construct can consist of no token at all.
pub open spec fn may_be_empty(syntax: Syntax) -> bool {
    syntax == Syntax::Visibility || syntax == Syntax::Generics
}

/// How many tokens the construct takes when it is parsed from the token of
/// index `pos` on, or `None` where it does not parse there.
#[verifier::opaque]
pub open spec fn host_count(syntax: Syntax, ts: Seq<TokenView>, pos: int) -> Option<nat> {
    if 0 <= pos <= ts.len() && streamable(ts.skip(pos)) {
        match rest_after(syntax, ts.skip(pos)) {
            Some(rest) => if rest < ts.len() - pos || (rest == ts.len() - pos && may_be_empty(
                syntax,
            )) {
                Some((ts.len() - pos - rest) as nat)
            } else {
                None
            },
            None => None,
        }
    } else {
        None
    }
}

/// Whether `c` is a punctuation character of the host language.
pub fn punct_char(c: char) -> (r: bool)
    ensures
        r == is_punct_char(c),
{
    c == '!' || c == '#' || c == '$' || c == '%' || c == '&' || c == '\'' || c == '*' || c == '+'
        || c == ',' || c == '-' || c == '.' || c == '/' || c == ':' || c == ';' || c == '<'
        || c == '=' || c == '>' || c == '?' || c == '@' || c == '^' || c == '|' || c == '~'
}

/// The stream of the one token that `text` lexes to, where that token is
/// the identifier, or the literal, of this very text.
fn atom_stream(text: &String, literal: bool) -> (r: Option<TokenStream>)
    ensures
        r is Some <==> lexed(text@) == Some(
            seq![
                if literal {
                    TokenView::Literal(text@)
                } else {
                    TokenView::Ident(text@)
                },
            ],
        ),
        r matches Some(s) ==> lexed(text@) == Some(stream_tokens(s)),
{
    let stream = match lex_stream(text.as_str()) {
        Some(stream) => stream,
        None => {
            return None;
        },
    };
    let got = stream_contents(&stream);
    let ghost expected = if literal {
        TokenView::Literal(text@)
    } else {
        TokenView::Ident(text@)
    };
    if got.len() != 1 {
        assert(got.deep_view().len() != seq![expected].len());
        return None;
    }
    assert(got.deep_view()[0] == got[0].deep_view());
    let same = match &got[0] {
        Token::Ident(x) => !literal && *x == *text,
        Token::Literal(x) => literal && *x == *text,
        _ => false,
    };
    if same {
        assert(got.deep_view() =~= seq![expected]);
        Some(stream)
    } else {
        assert(got.deep_view()[0] != seq![expected][0]);
        None
    }
}

/// The stream of the tokens from index `from` on, or `None` where the host
/// language does not accept one of them.
pub fn to_stream(tokens: &Vec<Token>, from: usize) -> (r: Option<TokenStream>)
    requires
        from <= tokens.len(),
    ensures
        r is Some <==> streamable(tokens.deep_view().skip(from as int)),
        r matches Some(s) ==> stream_tokens(s) == tokens.deep_view().skip(from as int),
    decreases tokens,
{
    let ghost all = tokens.deep_view();
    let mut stream = empty_stream();
    let mut i: usize = from;
    assert(all.subrange(from as int, from as int) =~= Seq::empty());
    while i < tokens.len()
        invariant
            from <= i <= tokens.len(),
            all == tokens.deep_view(),
            stream_tokens(stream) == all.subrange(from as int, i as int),
            forall|k: int| from <= k < i ==> token_ok(all[k]),
        decreases tokens.len() - i,
    {
        assert(all[i as int] == tokens[i as int].deep_view());
        assert(all.skip(from as int)[i - from] == all[i as int]);
        let piece = match &tokens[i] {
            Token::Ident(text) => atom_stream(text, false),
            Token::Literal(text) => atom_stream(text, true),
            Token::Punct(c, joint) => {
                if punct_char(*c) {
                    Some(punct_stream(*c, *joint))
                } else {
                    None
                }
            },
            Token::Group(delimiter, inner) => {
                proof {
                    lemma_group_view(*delimiter, *inner);
                    assert(inner.deep_view().skip(0) =~= inner.deep_view());
                }
                match to_stream(inner, 0) {
                    Some(s) => Some(group_stream(*delimiter, s)),
                    None => None,
                }
            },
        };
        match piece {
            Some(piece) => {
                assert(stream_tokens(piece) == seq![all[i as int]]);
                append_stream(&mut stream, piece);
                assert(all.subrange(from as int, i as int) + seq![all[i as int]] =~= all.subrange(
                    from as int,
                    i + 1,
                ));
            },
            None => {
                assert(!token_ok(all[i as int]));
                return None;
            },
        }
        i += 1;
    }
    assert(all.subrange(from as int, tokens.len() as int) =~= all.skip(from as int));
    assert forall|k: int| 0 <= k < all.skip(from as int).len() implies token_ok(
        #[trigger] all.skip(from as int)[k],
    ) by {
        assert(all.skip(from as int)[k] == all[from + k]);
    }
    Some(stream)
}

/// The tokens that a stream holds.
pub fn stream_contents(stream: &TokenStream) -> (tokens: Vec<Token>)
    ensures
        tokens.deep_view() == stream_tokens(*stream),
    decreases stream_tokens(*stream),
{
    let trees = stream_trees(stream);
    let ghost all = stream_tokens(*stream);
    let mut tokens: Vec<Token> = Vec::new();
    let mut i: usize = 0;
    while i < trees.len()
        invariant
            i <= trees.len(),
            all == stream_tokens(*stream),
            trees@.len() == all.len(),
            forall|k: int| 0 <= k < trees@.len() ==> tree_token(#[trigger] trees@[k]) == all[k],
            tokens.len() == i,
            forall|k: int| 0 <= k < i ==> (#[trigger] tokens[k]).deep_view() == all[k],
        decreases trees.len() - i,
    {
        assert(tree_token(trees@[i as int]) == all[i as int]);
        let token = match tree_parts(&trees[i]) {
            TreeParts::Leaf(token) => token,
            TreeParts::Group(delimiter, inner) => {
                assert(all[i as int]->Group_1 == stream_tokens(inner));
                assert(decreases_to!(all => all[i as int]));
                assert(decreases_to!(all[i as int] => all[i as int]->Group_1));
                let content = stream_contents(&inner);
                proof {
                    lemma_group_view(delimiter, content);
                }
                Token::Group(delimiter, content)
            },
        };
        tokens.push(token);
        i += 1;
    }
    assert(tokens.deep_view() =~= all);
    tokens
}

/// The tokens of a source text, or `None` where the text does not lex.
pub fn lex(source: &str) -> (r: Option<Vec<Token>>)
    ensures
        r.deep_view() == lexed(source@),
{
    match lex_stream(source) {
        Some(stream) => Some(stream_contents(&stream)),
        None => None,
    }
}

/// The tokens printed as source text, or `None` where the host language
/// does not accept one of them.
pub fn render(tokens: &Vec<Token>) -> (r: Option<String>)
    ensures
        r is Some <==> streamable(tokens.deep_view()),
        r matches Some(text) ==> text@ == printed(tokens.deep_view()),
{
    assert(tokens.deep_view().skip(0) =~= tokens.deep_view());
    match to_stream(tokens, 0) {
        Some(_) => Some(print(tokens)),
        None => None,
    }
}

/// Where the construct ends that is parsed from the token of index `pos`
/// on, or `None` where it does not parse there.
pub fn host_end(syntax: Syntax, tokens: &Vec<Token>, pos: usize) -> (end: Option<usize>)
    requires
        pos <= tokens.len(),
    ensures
        match end {
            Some(e) => pos <= e <= tokens.len() && (pos < e || may_be_empty(syntax)) && host_count(
                syntax,
                tokens.deep_view(),
                pos as int,
            ) == Some((e - pos) as nat),
            None => host_count(syntax, tokens.deep_view(), pos as int) is None,
        },
{
    reveal(host_count);
    let stream = match to_stream(tokens, pos) {
        Some(stream) => stream,
        None => {
            return None;
        },
    };
    let rest = match syntax {
        Syntax::Type => parse_type_prefix(&stream),
        Syntax::Meta => parse_meta_prefix(&stream),
        Syntax::Visibility => parse_visibility_prefix(&stream),
        Syntax::Ident => parse_ident_prefix(&stream),
        Syntax::Generics => parse_generics_prefix(&stream),
        Syntax::WhereClause => parse_where_clause_prefix(&stream),
        Syntax::Expr => parse_expr_prefix(&stream),
        Syntax::Literal => parse_literal_prefix(&stream),
        Syntax::GenericArgument => parse_generic_argument_prefix(&stream),
        Syntax::AngleArguments => parse_angle_arguments_prefix(&stream),
    };
    let left = tokens.len() - pos;
    match rest {
        Some(rest) => {
            let empty_allowed = match syntax {
                Syntax::Visibility => true,
                Syntax::Generics => true,
                _ => false,
            };
            if rest < left || (rest == left && empty_allowed) {
                Some(tokens.len() - rest)
            } else {
                None
            }
        },
        None => None,
    }
}

} // verus!
