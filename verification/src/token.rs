//! The token model: token trees as plain values.

use vstd::prelude::*;

verus! {

/// The bracket kind of a delimited group of tokens.
#[derive(Clone, Copy, PartialEq, Eq, Debug, Structural)]
pub enum Delimiter {
    /// `( ... )`
    Parenthesis,
    /// `{ ... }`
    Brace,
    /// `[ ... ]`
    Bracket,
    /// A group without visible brackets.
    Invisible,
}

/// One token tree.
#[derive(Debug)]
pub enum Token {
    /// An identifier or keyword, by its text.
    Ident(String),
    /// One punctuation character; `joint` says that the next token is a
    /// punctuation character that follows it immediately.
    Punct(char, bool),
    /// A literal, by its text.
    Literal(String),
    /// A delimited group and the tokens inside it.
    Group(Delimiter, Vec<Token>),
}

/// The mathematical value of a [`Token`].
pub enum TokenView {
    Ident(Seq<char>),
    Punct(char, bool),
    Literal(Seq<char>),
    Group(Delimiter, Seq<TokenView>),
}

/// The mathematical value of a token.
pub open spec fn token_view(t: Token) -> TokenView
    decreases t,
{
    match t {
        Token::Ident(s) => TokenView::Ident(s@),
        Token::Punct(c, j) => TokenView::Punct(c, j),
        Token::Literal(s) => TokenView::Literal(s@),
        Token::Group(d, ts) => TokenView::Group(
            d,
            Seq::new(
                ts@.len(),
                |i: int|
                    if 0 <= i < ts@.len() {
                        token_view(ts@[i])
                    } else {
                        TokenView::Punct(' ', false)
                    },
            ),
        ),
    }
}

impl DeepView for Token {
    type V = TokenView;

    open spec fn deep_view(&self) -> TokenView {
        token_view(*self)
    }
}

/// The view of a group holds the views of the tokens inside it.
pub proof fn lemma_group_view(d: Delimiter, ts: Vec<Token>)
    ensures
        Token::Group(d, ts).deep_view() == TokenView::Group(d, ts.deep_view()),
{
    assert(Token::Group(d, ts).deep_view()->Group_1 =~= ts.deep_view());
}

/// Whether two token sequences hold the same tokens.
pub fn tokens_eq(a: &Vec<Token>, b: &Vec<Token>) -> (r: bool)
    ensures
        r == (a.deep_view() == b.deep_view()),
    decreases a,
{
    if a.len() != b.len() {
        assert(a.deep_view().len() != b.deep_view().len());
        return false;
    }
    let mut i: usize = 0;
    while i < a.len()
        invariant
            i <= a.len(),
            a.len() == b.len(),
            forall|k: int| 0 <= k < i ==> a[k].deep_view() == b[k].deep_view(),
        decreases a.len() - i,
    {
        if !token_eq(&a[i], &b[i]) {
            assert(a.deep_view()[i as int] != b.deep_view()[i as int]);
            return false;
        }
        i += 1;
    }
    assert(a.deep_view() =~= b.deep_view());
    true
}

/// Whether two tokens are the same.
pub fn token_eq(a: &Token, b: &Token) -> (r: bool)
    ensures
        r == (a.deep_view() == b.deep_view()),
    decreases a,
{
    match (a, b) {
        (Token::Ident(x), Token::Ident(y)) => *x == *y,
        (Token::Punct(c, j), Token::Punct(d, k)) => *c == *d && *j == *k,
        (Token::Literal(x), Token::Literal(y)) => *x == *y,
        (Token::Group(d, xs), Token::Group(e, ys)) => {
            let same = tokens_eq(xs, ys);
            proof {
                lemma_group_view(*d, *xs);
                lemma_group_view(*e, *ys);
            }
            *d == *e && same
        },
        _ => false,
    }
}

/// A copy of a token.
pub fn clone_token(t: &Token) -> (r: Token)
    ensures
        r.deep_view() == t.deep_view(),
    decreases t,
{
    match t {
        Token::Ident(s) => Token::Ident(s.clone()),
        Token::Punct(c, j) => Token::Punct(*c, *j),
        Token::Literal(s) => Token::Literal(s.clone()),
        Token::Group(d, ts) => {
            let inner = clone_tokens(ts);
            proof {
                lemma_group_view(*d, *ts);
                lemma_group_view(*d, inner);
            }
            Token::Group(*d, inner)
        },
    }
}

/// A copy of a token sequence.
pub fn clone_tokens(ts: &Vec<Token>) -> (r: Vec<Token>)
    ensures
        r.deep_view() == ts.deep_view(),
    decreases ts,
{
    copy_range(ts, 0, ts.len())
}

/// A copy of the tokens from index `from` up to, not including, index `to`.
pub fn copy_range(ts: &Vec<Token>, from: usize, to: usize) -> (r: Vec<Token>)
    requires
        from <= to <= ts.len(),
    ensures
        r.deep_view() == ts.deep_view().subrange(from as int, to as int),
    decreases ts, 0nat,
{
    let mut out: Vec<Token> = Vec::new();
    let mut i: usize = from;
    while i < to
        invariant
            from <= i <= to <= ts.len(),
            out.len() == i - from,
            forall|k: int| 0 <= k < out.len() ==> out[k].deep_view() == ts[from + k].deep_view(),
        decreases to - i,
    {
        let t = clone_token(&ts[i]);
        out.push(t);
        i += 1;
    }
    assert(out.deep_view() =~= ts.deep_view().subrange(from as int, to as int));
    out
}

/// Appends copies of the tokens of `more` to `out`.
pub fn extend_tokens(out: &mut Vec<Token>, more: &Vec<Token>)
    ensures
        final(out).deep_view() == old(out).deep_view() + more.deep_view(),
{
    let ghost before = out.deep_view();
    let mut i: usize = 0;
    while i < more.len()
        invariant
            i <= more.len(),
            out.deep_view() == before + more.deep_view().subrange(0, i as int),
        decreases more.len() - i,
    {
        let ghost prev = out.deep_view();
        let t = clone_token(&more[i]);
        out.push(t);
        assert(out.deep_view() =~= prev.push(more.deep_view()[i as int]));
        assert(prev.push(more.deep_view()[i as int]) =~= before + more.deep_view().subrange(
            0,
            i + 1,
        ));
        i += 1;
    }
    assert(more.deep_view().subrange(0, more.len() as int) =~= more.deep_view());
}

} // verus!
