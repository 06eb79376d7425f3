//! Reading path types.

use vstd::prelude::*;
use crate::cursor::{is_group, is_ident, is_pair, is_punct, is_word, parsed, word};
use crate::error::{ErrorKind, ParseError, ParseErrorView};
use crate::grammar::{
    advance, angle_at, as_path_at, maybe_path_at, mod_style, path_at, punct_at, qpath_at, qualified,
    qualified_rest_at, segment_at, segments_from, span,
};
use crate::source::{Syntax, host_count, host_end};
use crate::token::{Delimiter, Token, TokenView, copy_range};
use crate::ty::augmented::{
    AngleBracketedGenericArguments, Path, PathArguments, PathSegment, QSelf, Type, TypePath,
    TypePathView, lemma_segment_list_view,
};

verus! {

impl Type {
    /// Reads a path type at index `pos`. Returns `None`, and reads nothing,
    /// where no path starts there or where the path is that of a macro
    /// call.
    pub fn maybe_parse(tokens: &Vec<Token>, pos: usize) -> (r: Result<
        Option<(Type, usize)>,
        ParseError,
    >)
        requires
            pos <= tokens.len(),
        ensures
            match r {
                Ok(Some((ty, end))) => pos <= end <= tokens.len() && maybe_path_at(
                    tokens.deep_view(),
                    pos as int,
                ) == Ok::<Option<(TypePathView, nat)>, ParseErrorView>(
                    Some((ty.deep_view(), (end - pos) as nat)),
                ),
                Ok(None) => maybe_path_at(tokens.deep_view(), pos as int) == Ok::<
                    Option<(TypePathView, nat)>,
                    ParseErrorView,
                >(None),
                Err(e) => maybe_path_at(tokens.deep_view(), pos as int) == Err::<
                    Option<(TypePathView, nat)>,
                    ParseErrorView,
                >(e.deep_view()),
            },
        decreases tokens, tokens.len() - pos, 70nat,
    {
        proof {
            reveal(maybe_path_at);
            reveal(qpath_at);
        }
        if is_ident(tokens, pos) || is_word(tokens, pos, "super") || is_word(tokens, pos, "self")
            || is_word(tokens, pos, "Self") || is_word(tokens, pos, "crate") || is_pair(
            tokens,
            pos,
            ':',
            ':',
        ) || is_punct(tokens, pos, '<') {
            let (ty, end) = match TypePath::parse(tokens, pos) {
                Ok(pair) => pair,
                Err(e) => {
                    return Err(e);
                },
            };
            if ty.qself.is_some() {
                return Ok(Some((Type::Path(ty), end)));
            }
            // A macro call is no path type.
            if is_punct(tokens, end, '!') && !is_pair(tokens, end, '!', '=')
                && ty.path.is_mod_style() {
                return Ok(None);
            }
            return Ok(Some((Type::Path(ty), end)));
        }
        Ok(None)
    }
}

impl TypePath {
    /// Reads a path type at index `pos`.
    pub fn parse(tokens: &Vec<Token>, pos: usize) -> (r: Result<(TypePath, usize), ParseError>)
        requires
            pos <= tokens.len(),
        ensures
            parsed(r, pos, tokens.len(), qpath_at(tokens.deep_view(), pos as int)),
        decreases tokens, tokens.len() - pos, 65nat,
    {
        parse_qpath(tokens, pos)
    }
}

/// Reads a path that may start with a qualified self type:
/// `<T as Trait>::Name`.
pub fn parse_qpath(tokens: &Vec<Token>, pos: usize) -> (r: Result<(TypePath, usize), ParseError>)
    requires
        pos <= tokens.len(),
    ensures
        parsed(r, pos, tokens.len(), qpath_at(tokens.deep_view(), pos as int)),
    decreases tokens, tokens.len() - pos, 60nat,
{
    proof {
        reveal(qpath_at);
        reveal(path_at);
    }
    if is_punct(tokens, pos, '<') {
        parse_qualified(tokens, pos)
    } else {
        match Path::parse_helper(tokens, pos) {
            Ok((path, end)) => Ok((TypePath { qself: None, path }, end)),
            Err(e) => Err(e),
        }
    }
}

/// What a path with a qualified self type is, given what follows its self
/// type.
proof fn lemma_qualified_path(ts: Seq<TokenView>, pos: int, n1: nat)
    requires
        punct_at(ts, pos, '<'),
        host_count(Syntax::Type, ts, pos + 1) == Some(n1),
    ensures
        as_path_at(ts, pos + 1 + n1) matches Err(e) ==> qpath_at(ts, pos) == Err::<
            (TypePathView, nat),
            ParseErrorView,
        >(e),
        as_path_at(ts, pos + 1 + n1) matches Ok((as_path, n2)) ==> match qualified_rest_at(
            ts,
            pos + 1 + n1 + n2,
        ) {
            Err(e) => qpath_at(ts, pos) == Err::<(TypePathView, nat), ParseErrorView>(e),
            Ok((rest, n3)) => qpath_at(ts, pos) == Ok::<(TypePathView, nat), ParseErrorView>(
                (qualified(span(ts, pos + 1, n1), as_path, rest), 1 + n1 + n2 + n3),
            ),
        },
{
    reveal(qpath_at);
    reveal(as_path_at);
    reveal(qualified_rest_at);
}

/// Reads a path that starts with a qualified self type, whose `<` stands
/// at index `pos`.
fn parse_qualified(tokens: &Vec<Token>, pos: usize) -> (r: Result<(TypePath, usize), ParseError>)
    requires
        pos < tokens.len(),
        punct_at(tokens.deep_view(), pos as int, '<'),
    ensures
        parsed(r, pos, tokens.len(), qpath_at(tokens.deep_view(), pos as int)),
    decreases tokens, tokens.len() - pos, 55nat,
{
    let p1 = match host_end(Syntax::Type, tokens, pos + 1) {
        Some(end) => end,
        None => {
            proof {
                reveal(qpath_at);
            }
            return Err(ParseError::new(ErrorKind::ExpectedType, pos + 1));
        },
    };
    proof {
        lemma_qualified_path(tokens.deep_view(), pos as int, (p1 - (pos + 1)) as nat);
    }
    let (path, p2) = match parse_as_path(tokens, p1) {
        Ok(pair) => pair,
        Err(e) => {
            return Err(e);
        },
    };
    let (rest, end) = match parse_qualified_rest(tokens, p2) {
        Ok(pair) => pair,
        Err(e) => {
            return Err(e);
        },
    };
    let this = copy_range(tokens, pos + 1, p1);
    Ok((join_qualified(this, path, rest), end))
}

/// Reads the path that follows `as` in a qualified self type, if `as`
/// stands at index `pos`.
fn parse_as_path(tokens: &Vec<Token>, pos: usize) -> (r: Result<(Option<Path>, usize), ParseError>)
    requires
        pos <= tokens.len(),
    ensures
        parsed(r, pos, tokens.len(), as_path_at(tokens.deep_view(), pos as int)),
    decreases tokens, tokens.len() - pos, 50nat,
{
    proof {
        reveal(as_path_at);
        reveal(path_at);
    }
    if is_word(tokens, pos, "as") {
        match Path::parse(tokens, pos + 1) {
            Ok((path, end)) => Ok((Some(path), end)),
            Err(e) => Err(e),
        }
    } else {
        Ok((None, pos))
    }
}

/// Reads what follows a qualified self type: `>`, `::` and the segments of
/// a path.
fn parse_qualified_rest(tokens: &Vec<Token>, pos: usize) -> (r: Result<
    (Vec<PathSegment>, usize),
    ParseError,
>)
    requires
        pos <= tokens.len(),
    ensures
        parsed(r, pos, tokens.len(), qualified_rest_at(tokens.deep_view(), pos as int)),
    decreases tokens, tokens.len() - pos, 50nat,
{
    proof {
        reveal(qualified_rest_at);
        reveal(segments_from);
    }
    if !is_punct(tokens, pos, '>') {
        return Err(ParseError::new(ErrorKind::ExpectedGreater, pos));
    }
    if !is_pair(tokens, pos + 1, ':', ':') {
        return Err(ParseError::new(ErrorKind::ExpectedPathSeparator, pos + 1));
    }
    parse_segments(tokens, pos + 3)
}

/// Puts a qualified self type and the segments after it together: the
/// segments of the path after `as`, if there is one, come first.
fn join_qualified(this: Vec<Token>, path: Option<Path>, rest: Vec<PathSegment>) -> (r: TypePath)
    ensures
        r.deep_view() == qualified(this.deep_view(), path.deep_view(), rest.deep_view()),
{
    proof {
        reveal(qualified);
    }
    let mut rest = rest;
    let ghost rest_view = rest.deep_view();
    match path {
        Some(path) => {
            let mut path = path;
            let position = path.segments.len();
            let ghost before = path.segments.deep_view();
            proof {
                lemma_segment_list_view(path.segments);
            }
            path.segments.append(&mut rest);
            proof {
                lemma_segment_list_view(path.segments);
                assert(path.segments.deep_view() =~= before + rest_view);
            }
            TypePath { qself: Some(QSelf { ty: this, position, as_token: true }), path }
        },
        None => {
            proof {
                lemma_segment_list_view(rest);
            }
            TypePath {
                qself: Some(QSelf { ty: this, position: 0, as_token: false }),
                path: Path { leading_colon: true, segments: rest },
            }
        },
    }
}

/// Reads the segments of a path from index `pos` on: one segment, and one
/// more after each `::` that no parenthesis follows.
pub fn parse_segments(tokens: &Vec<Token>, pos: usize) -> (r: Result<
    (Vec<PathSegment>, usize),
    ParseError,
>)
    requires
        pos <= tokens.len(),
    ensures
        parsed(r, pos, tokens.len(), segments_from(tokens.deep_view(), pos as int, Seq::empty())),
    decreases tokens, tokens.len() - pos, 30nat,
{
    let mut segments: Vec<PathSegment> = Vec::new();
    let mut cur = pos;
    let ghost ts = tokens.deep_view();
    assert(segments.deep_view() =~= Seq::empty());
    loop
        invariant
            pos <= cur <= tokens.len(),
            ts == tokens.deep_view(),
            segments_from(ts, pos as int, Seq::empty()) == advance(
                segments_from(ts, cur as int, segments.deep_view()),
                (cur - pos) as nat,
            ),
        decreases tokens.len() - cur,
    {
        proof {
            reveal(segments_from);
            reveal(segment_at);
        }
        let ghost before = segments.deep_view();
        let (segment, end) = match PathSegment::parse_helper(tokens, cur) {
            Ok(pair) => pair,
            Err(e) => {
                return Err(e);
            },
        };
        segments.push(segment);
        assert(segments.deep_view() =~= before.push(segment.deep_view()));
        if is_pair(tokens, end, ':', ':') && !is_group(tokens, end + 2, Delimiter::Parenthesis) {
            cur = end + 2;
        } else {
            return Ok((segments, end));
        }
    }
}

impl Path {
    /// Whether no segment of the path has generic arguments.
    pub fn is_mod_style(&self) -> (r: bool)
        ensures
            r == mod_style(self.deep_view()),
    {
        proof {
            lemma_segment_list_view(self.segments);
        }
        let mut i: usize = 0;
        while i < self.segments.len()
            invariant
                i <= self.segments.len(),
                self.deep_view().segments == self.segments.deep_view(),
                forall|k: int| 0 <= k < i ==> (#[trigger] self.deep_view().segments[k]).arguments is None,
            decreases self.segments.len() - i,
        {
            assert(self.segments.deep_view()[i as int] == self.segments[i as int].deep_view());
            if !self.segments[i].arguments.is_none() {
                return false;
            }
            i += 1;
        }
        true
    }

    /// Reads a path at index `pos`: an optional `::`, then segments
    /// separated by `::`.
    pub fn parse_helper(tokens: &Vec<Token>, pos: usize) -> (r: Result<(Path, usize), ParseError>)
        requires
            pos <= tokens.len(),
        ensures
            parsed(r, pos, tokens.len(), path_at(tokens.deep_view(), pos as int)),
        decreases tokens, tokens.len() - pos, 40nat,
    {
        proof {
            reveal(path_at);
            reveal(segments_from);
        }
        let leading_colon = is_pair(tokens, pos, ':', ':');
        let start = if leading_colon {
            pos + 2
        } else {
            pos
        };
        match parse_segments(tokens, start) {
            Ok((segments, end)) => {
                proof {
                    lemma_segment_list_view(segments);
                }
                Ok((Path { leading_colon, segments }, end))
            },
            Err(e) => Err(e),
        }
    }

    /// Reads a path at index `pos`.
    pub fn parse(tokens: &Vec<Token>, pos: usize) -> (r: Result<(Path, usize), ParseError>)
        requires
            pos <= tokens.len(),
        ensures
            parsed(r, pos, tokens.len(), path_at(tokens.deep_view(), pos as int)),
        decreases tokens, tokens.len() - pos, 45nat,
    {
        Path::parse_helper(tokens, pos)
    }
}

impl PathSegment {
    /// Reads one segment of a path at index `pos`.
    pub fn parse(tokens: &Vec<Token>, pos: usize) -> (r: Result<(PathSegment, usize), ParseError>)
        requires
            pos <= tokens.len(),
        ensures
            parsed(r, pos, tokens.len(), segment_at(tokens.deep_view(), pos as int)),
        decreases tokens, tokens.len() - pos, 25nat,
    {
        PathSegment::parse_helper(tokens, pos)
    }

    /// Reads one segment of a path at index `pos`: a name, and generic
    /// arguments where `<` or `::<` follows it.
    pub fn parse_helper(tokens: &Vec<Token>, pos: usize) -> (r: Result<
        (PathSegment, usize),
        ParseError,
    >)
        requires
            pos <= tokens.len(),
        ensures
            parsed(r, pos, tokens.len(), segment_at(tokens.deep_view(), pos as int)),
        decreases tokens, tokens.len() - pos, 20nat,
    {
        proof {
            reveal(segment_at);
            reveal(angle_at);
        }
        if is_word(tokens, pos, "super") || is_word(tokens, pos, "self") || is_word(
            tokens,
            pos,
            "crate",
        ) {
            let ident = word(tokens, pos);
            return Ok((PathSegment::from(ident), pos + 1));
        }
        if !(is_word(tokens, pos, "Self") || is_ident(tokens, pos)) {
            return Err(ParseError::new(ErrorKind::ExpectedIdent, pos));
        }
        let ident = word(tokens, pos);
        let next = pos + 1;
        if (is_punct(tokens, next, '<') && !is_pair(tokens, next, '<', '=')) || (is_pair(
            tokens,
            next,
            ':',
            ':',
        ) && is_punct(tokens, next + 2, '<')) {
            match AngleBracketedGenericArguments::parse(tokens, next) {
                Ok((arguments, end)) => Ok(
                    (
                        PathSegment { ident, arguments: PathArguments::AngleBracketed(arguments) },
                        end,
                    ),
                ),
                Err(e) => Err(e),
            }
        } else {
            Ok((PathSegment::from(ident), next))
        }
    }
}

} // verus!
