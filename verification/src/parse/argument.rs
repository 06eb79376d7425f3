//! Reading generic arguments.

use vstd::prelude::*;
use crate::cursor::{is_group, is_lifetime, is_pair, is_punct, parsed};
use crate::error::{ErrorKind, ParseError};
use crate::grammar::{
    advance, angle_at, angle_body_at, argument_at, arguments_from, const_start, special_type_at,
};
use crate::parse::field::handle_fish_hook;
use crate::source::{Syntax, host_end};
use crate::token::{Delimiter, Token, copy_range};
use crate::ty::SpecialType;
use crate::ty::augmented::{
    AngleBracketedGenericArguments, GenericArgument, lemma_argument_list_view,
};

verus! {

impl AngleBracketedGenericArguments {
    /// Reads generic arguments at index `pos`: an optional `::`, then the
    /// list between `<` and `>`.
    pub fn parse(tokens: &Vec<Token>, pos: usize) -> (r: Result<
        (AngleBracketedGenericArguments, usize),
        ParseError,
    >)
        requires
            pos <= tokens.len(),
        ensures
            parsed(r, pos, tokens.len(), angle_at(tokens.deep_view(), pos as int)),
        decreases tokens, tokens.len() - pos, 15nat,
    {
        proof {
            reveal(angle_at);
            reveal(angle_body_at);
        }
        if is_pair(tokens, pos, ':', ':') {
            AngleBracketedGenericArguments::do_parse(true, tokens, pos + 2)
        } else {
            AngleBracketedGenericArguments::do_parse(false, tokens, pos)
        }
    }

    /// Reads the list between `<` and `>` at index `pos`; `colon2_token`
    /// says whether `::` stood before it.
    pub fn do_parse(colon2_token: bool, tokens: &Vec<Token>, pos: usize) -> (r: Result<
        (AngleBracketedGenericArguments, usize),
        ParseError,
    >)
        requires
            pos <= tokens.len(),
        ensures
            parsed(
                r,
                pos,
                tokens.len(),
                angle_body_at(tokens.deep_view(), pos as int, colon2_token),
            ),
        decreases tokens, tokens.len() - pos, 10nat,
    {
        proof {
            reveal(angle_body_at);
            reveal(arguments_from);
        }
        if !is_punct(tokens, pos, '<') {
            return Err(ParseError::new(ErrorKind::ExpectedLess, pos));
        }
        let (args, end) = match parse_arguments(tokens, pos + 1) {
            Ok(pair) => pair,
            Err(e) => {
                return Err(e);
            },
        };
        if !is_punct(tokens, end, '>') {
            return Err(ParseError::new(ErrorKind::ExpectedGreater, end));
        }
        proof {
            lemma_argument_list_view(args);
        }
        Ok((AngleBracketedGenericArguments { colon2_token, args }, end + 1))
    }
}

/// Reads generic arguments from index `pos` up to the closing `>`:
/// separated by `,`, with an optional `,` after the last.
fn parse_arguments(tokens: &Vec<Token>, pos: usize) -> (r: Result<
    (Vec<GenericArgument>, usize),
    ParseError,
>)
    requires
        pos <= tokens.len(),
    ensures
        parsed(r, pos, tokens.len(), arguments_from(tokens.deep_view(), pos as int, Seq::empty())),
    decreases tokens, tokens.len() - pos, 120nat,
{
    let mut args: Vec<GenericArgument> = Vec::new();
    let mut cur = pos;
    let ghost ts = tokens.deep_view();
    assert(args.deep_view() =~= Seq::empty());
    loop
        invariant
            pos <= cur <= tokens.len(),
            ts == tokens.deep_view(),
            arguments_from(ts, pos as int, Seq::empty()) == advance(
                arguments_from(ts, cur as int, args.deep_view()),
                (cur - pos) as nat,
            ),
        decreases tokens.len() - cur,
    {
        proof {
            reveal(arguments_from);
            reveal(argument_at);
        }
        if is_punct(tokens, cur, '>') {
            return Ok((args, cur));
        }
        let ghost before = args.deep_view();
        let (value, end) = match GenericArgument::parse(tokens, cur) {
            Ok(pair) => pair,
            Err(e) => {
                return Err(e);
            },
        };
        args.push(value);
        assert(args.deep_view() =~= before.push(value.deep_view()));
        if is_punct(tokens, end, '>') {
            return Ok((args, end));
        }
        if !is_punct(tokens, end, ',') {
            return Err(ParseError::new(ErrorKind::ExpectedComma, end));
        }
        cur = end + 1;
    }
}

impl GenericArgument {
    /// Reads one generic argument at index `pos`: a lifetime, a constant
    /// expression, a type that may be a definition with its generic hook,
    /// or a binding or bound of an associated item.
    pub fn parse(tokens: &Vec<Token>, pos: usize) -> (r: Result<
        (GenericArgument, usize),
        ParseError,
    >)
        requires
            pos <= tokens.len(),
        ensures
            parsed(r, pos, tokens.len(), argument_at(tokens.deep_view(), pos as int)),
        decreases tokens, tokens.len() - pos, 90nat,
    {
        proof {
            reveal(argument_at);
            reveal(special_type_at);
        }
        if is_lifetime(tokens, pos) && !is_punct(tokens, pos + 2, '+') {
            return Ok((GenericArgument::Lifetime(copy_range(tokens, pos, pos + 2)), pos + 2));
        }
        if starts_const(tokens, pos) {
            return match host_end(Syntax::GenericArgument, tokens, pos) {
                Some(end) => Ok((GenericArgument::Const(copy_range(tokens, pos, end)), end)),
                None => Err(ParseError::new(ErrorKind::InvalidGenericArgument, pos)),
            };
        }
        let (argument, after) = match SpecialType::parse(tokens, pos) {
            Ok(pair) => pair,
            Err(e) => {
                return Err(e);
            },
        };
        let (fish, end) = match handle_fish_hook(tokens, after, &argument) {
            Ok(pair) => pair,
            Err(e) => {
                return Err(e);
            },
        };
        let plain = match &argument {
            SpecialType::Type(_) => true,
            _ => false,
        };
        let bound = is_punct(tokens, after, ':');
        if plain && (is_punct(tokens, after, '=') || bound) {
            // A binding or a bound of an associated item is left to the
            // host language as a whole.
            let whole = match host_end(Syntax::GenericArgument, tokens, pos) {
                Some(whole) => whole,
                None => {
                    return Err(ParseError::new(ErrorKind::InvalidGenericArgument, after));
                },
            };
            if whole <= after {
                return Err(ParseError::new(ErrorKind::InvalidGenericArgument, after));
            }
            let span = copy_range(tokens, pos, whole);
            if bound {
                return Ok((GenericArgument::Constraint(span), whole));
            }
            if starts_const(tokens, after + 1) {
                return Ok((GenericArgument::AssocConst(span), whole));
            }
            return Ok((GenericArgument::AssocType(span), whole));
        }
        Ok((GenericArgument::Type(argument, fish), end))
    }
}

/// Whether a constant expression starts at index `pos`: a literal, or a
/// block in braces.
fn starts_const(tokens: &Vec<Token>, pos: usize) -> (r: bool)
    requires
        pos <= tokens.len(),
    ensures
        r == const_start(tokens.deep_view(), pos as int),
{
    host_end(Syntax::Literal, tokens, pos).is_some() || is_group(tokens, pos, Delimiter::Brace)
}

} // verus!
