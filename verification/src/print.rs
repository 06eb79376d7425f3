//! Tokens as source text.

use vstd::prelude::*;
use vstd::string::StringExecFns;
use crate::host::push_char;
use crate::token::{lemma_group_view, Delimiter, Token, TokenView};

verus! {

/// What opens a group in the text. A brace is followed by a space.
pub open spec fn opening(delimiter: Delimiter) -> Seq<char> {
    match delimiter {
        Delimiter::Parenthesis => "("@,
        Delimiter::Brace => "{ "@,
        Delimiter::Bracket => "["@,
        Delimiter::Invisible => Seq::empty(),
    }
}

/// What closes a group in the text.
pub open spec fn closing(delimiter: Delimiter) -> Seq<char> {
    match delimiter {
        Delimiter::Parenthesis => ")"@,
        Delimiter::Brace => "}"@,
        Delimiter::Bracket => "]"@,
        Delimiter::Invisible => Seq::empty(),
    }
}

/// Whether the token is a punctuation character that the next token
/// follows without space.
pub open spec fn joins_next(t: TokenView) -> bool {
    t is Punct && t->Punct_1
}

/// The space before the token of index `i`: none before the first token
/// and none after a punctuation character that joins the next.
pub open spec fn space_before(ts: Seq<TokenView>, i: int) -> Seq<char> {
    if i > 0 && !joins_next(ts[i - 1]) {
        " "@
    } else {
        Seq::empty()
    }
}

/// The text of a token: an identifier and a literal as they are, a
/// punctuation character, a group between its delimiters, with a space
/// before the closing brace of a group in braces that is not empty.
pub open spec fn token_text(t: TokenView) -> Seq<char>
    decreases t, 0nat,
{
    match t {
        TokenView::Ident(text) => text,
        TokenView::Literal(text) => text,
        TokenView::Punct(c, _) => seq![c],
        TokenView::Group(delimiter, inner) => opening(delimiter) + tokens_text(inner, inner.len())
            + (if delimiter == Delimiter::Brace && inner.len() > 0 {
            " "@
        } else {
            Seq::empty()
        }) + closing(delimiter),
    }
}

/// The text of the first `n` tokens, with one space between two tokens
/// unless the first of them joins the next.
pub open spec fn tokens_text(ts: Seq<TokenView>, n: nat) -> Seq<char>
    decreases ts, n,
{
    if n == 0 || n > ts.len() {
        Seq::empty()
    } else {
        tokens_text(ts, (n - 1) as nat) + space_before(ts, n - 1) + token_text(ts[n - 1])
    }
}

/// The tokens as source text.
pub open spec fn printed(ts: Seq<TokenView>) -> Seq<char> {
    tokens_text(ts, ts.len())
}

/// Concatenation does not depend on how it is grouped.
proof fn lemma_text_assoc(a: Seq<char>, b: Seq<char>, c: Seq<char>)
    ensures
        (a + b) + c == a + (b + c),
{
    assert((a + b) + c =~= a + (b + c));
}

/// Appends the text of a token.
fn write_token(out: &mut String, token: &Token)
    ensures
        final(out)@ == old(out)@ + token_text(token.deep_view()),
    decreases token, 0nat,
{
    let ghost before = out@;
    match token {
        Token::Ident(text) => out.append(text.as_str()),
        Token::Literal(text) => out.append(text.as_str()),
        Token::Punct(c, _) => {
            push_char(out, *c);
            assert(before.push(*c) =~= before + seq![*c]);
        },
        Token::Group(delimiter, inner) => {
            proof {
                lemma_group_view(*delimiter, *inner);
            }
            let ghost content = tokens_text(inner.deep_view(), inner.len() as nat);
            let ghost gap = if *delimiter == Delimiter::Brace && inner.len() > 0 {
                " "@
            } else {
                Seq::<char>::empty()
            };
            match delimiter {
                Delimiter::Parenthesis => out.append("("),
                Delimiter::Brace => out.append("{ "),
                Delimiter::Bracket => out.append("["),
                Delimiter::Invisible => {
                    assert(before + Seq::<char>::empty() =~= before);
                },
            }
            write_tokens(out, inner);
            proof {
                lemma_text_assoc(before, opening(*delimiter), content);
            }
            match delimiter {
                Delimiter::Brace => {
                    if inner.len() > 0 {
                        out.append(" ");
                    } else {
                        assert(out@ + Seq::<char>::empty() =~= out@);
                    }
                },
                _ => {
                    assert(out@ + Seq::<char>::empty() =~= out@);
                },
            }
            proof {
                lemma_text_assoc(before, opening(*delimiter) + content, gap);
            }
            match delimiter {
                Delimiter::Parenthesis => out.append(")"),
                Delimiter::Brace => out.append("}"),
                Delimiter::Bracket => out.append("]"),
                Delimiter::Invisible => {
                    assert(out@ + Seq::<char>::empty() =~= out@);
                },
            }
            proof {
                lemma_text_assoc(before, opening(*delimiter) + content + gap, closing(*delimiter));
            }
        },
    }
}

/// Appends the text of the tokens.
fn write_tokens(out: &mut String, tokens: &Vec<Token>)
    ensures
        final(out)@ == old(out)@ + tokens_text(tokens.deep_view(), tokens.len() as nat),
    decreases tokens, 1nat,
{
    let ghost before = out@;
    let ghost all = tokens.deep_view();
    let mut joint = false;
    let mut i: usize = 0;
    assert(before + tokens_text(all, 0) =~= before);
    while i < tokens.len()
        invariant
            i <= tokens.len(),
            all == tokens.deep_view(),
            out@ == before + tokens_text(all, i as nat),
            i > 0 ==> joint == joins_next(all[i - 1]),
        decreases tokens.len() - i,
    {
        assert(all[i as int] == tokens[i as int].deep_view());
        let ghost so_far = tokens_text(all, i as nat);
        if i != 0 && !joint {
            out.append(" ");
        } else {
            assert(out@ + Seq::<char>::empty() =~= out@);
        }
        proof {
            lemma_text_assoc(before, so_far, space_before(all, i as int));
        }
        write_token(out, &tokens[i]);
        proof {
            lemma_text_assoc(
                before,
                so_far + space_before(all, i as int),
                token_text(all[i as int]),
            );
        }
        joint = match &tokens[i] {
            Token::Punct(_, joint) => *joint,
            _ => false,
        };
        i += 1;
    }
}

/// The tokens as source text: one space between two tokens, none after a
/// punctuation character that joins the next, groups between their
/// delimiters.
pub fn print(tokens: &Vec<Token>) -> (text: String)
    ensures
        text@ == printed(tokens.deep_view()),
{
    let mut out = String::new();
    write_tokens(&mut out, tokens);
    assert(Seq::<char>::empty() + printed(tokens.deep_view()) =~= printed(tokens.deep_view()));
    out
}

} // verus!
