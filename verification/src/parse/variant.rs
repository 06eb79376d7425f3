//! Reading the variants of an enum.

use vstd::prelude::*;
use crate::attributes::{FieldAttribute, ParseAttribute};
use crate::cursor::{is_group, is_ident, is_punct, parsed, word};
use crate::discriminant::Discriminant;
use crate::error::{ErrorKind, ParseError, ParseErrorView};
use crate::grammar::{
    discriminant_at, named_fields_at, unnamed_fields_at, variant_at, variant_fields_at,
    variants_from,
};
use crate::source::{Syntax, host_end};
use crate::special_data::{FieldsNamed, FieldsUnnamed, SpecialFields, SpecialVariant, VariantView};
use crate::token::{Delimiter, Token, copy_range};

verus! {

/// Reads the variants that the tokens hold, all of them: separated by `,`,
/// with an optional `,` after the last.
pub(crate) fn parse_variants(tokens: &Vec<Token>) -> (r: Result<Vec<SpecialVariant>, ParseError>)
    ensures
        match r {
            Ok(list) => variants_from(tokens.deep_view(), 0, Seq::empty()) == Ok::<
                Seq<VariantView>,
                ParseErrorView,
            >(list.deep_view()),
            Err(e) => variants_from(tokens.deep_view(), 0, Seq::empty()) == Err::<
                Seq<VariantView>,
                ParseErrorView,
            >(e.deep_view()),
        },
    decreases tokens, tokens.len(), 120nat,
{
    let mut variants: Vec<SpecialVariant> = Vec::new();
    let mut cur: usize = 0;
    let ghost ts = tokens.deep_view();
    assert(variants.deep_view() =~= Seq::empty());
    while cur < tokens.len()
        invariant
            cur <= tokens.len(),
            ts == tokens.deep_view(),
            variants_from(ts, 0, Seq::empty()) == variants_from(
                ts,
                cur as int,
                variants.deep_view(),
            ),
        decreases tokens.len() - cur,
    {
        proof {
            reveal(variants_from);
            reveal(variant_at);
        }
        let ghost before = variants.deep_view();
        let (variant, end) = match SpecialVariant::parse(tokens, cur) {
            Ok(pair) => pair,
            Err(e) => {
                return Err(e);
            },
        };
        variants.push(variant);
        assert(variants.deep_view() =~= before.push(variant.deep_view()));
        if end >= tokens.len() {
            return Ok(variants);
        }
        if !is_punct(tokens, end, ',') {
            return Err(ParseError::new(ErrorKind::ExpectedComma, end));
        }
        cur = end + 1;
    }
    proof {
        reveal(variants_from);
    }
    Ok(variants)
}

/// Reads the discriminant at index `pos`, if `=` stands there.
fn parse_discriminant(tokens: &Vec<Token>, pos: usize) -> (r: Result<
    (Option<Discriminant>, usize),
    ParseError,
>)
    requires
        pos <= tokens.len(),
    ensures
        parsed(r, pos, tokens.len(), discriminant_at(tokens.deep_view(), pos as int)),
{
    if is_punct(tokens, pos, '=') {
        match host_end(Syntax::Expr, tokens, pos + 1) {
            Some(end) => Ok((Some(Discriminant { expr: copy_range(tokens, pos + 1, end) }), end)),
            None => Err(ParseError::new(ErrorKind::InvalidExpr, pos + 1)),
        }
    } else {
        Ok((None, pos))
    }
}

impl SpecialVariant {
    /// Reads one variant at index `pos`: attributes, a visibility that is
    /// read and dropped, a name, fields and a discriminant.
    pub fn parse(tokens: &Vec<Token>, pos: usize) -> (r: Result<
        (SpecialVariant, usize),
        ParseError,
    >)
        requires
            pos <= tokens.len(),
        ensures
            parsed(r, pos, tokens.len(), variant_at(tokens.deep_view(), pos as int)),
        decreases tokens, tokens.len() - pos, 110nat,
    {
        proof {
            reveal(variant_at);
            reveal(variant_fields_at);
            reveal(named_fields_at);
            reveal(unnamed_fields_at);
        }
        let (attrs, p1) = match FieldAttribute::parse_outer(tokens, pos) {
            Ok(pair) => pair,
            Err(e) => {
                return Err(e);
            },
        };
        let p2 = match host_end(Syntax::Visibility, tokens, p1) {
            Some(end) => end,
            None => {
                return Err(ParseError::new(ErrorKind::InvalidVisibility, p1));
            },
        };
        if !is_ident(tokens, p2) {
            return Err(ParseError::new(ErrorKind::ExpectedIdent, p2));
        }
        let ident = word(tokens, p2);
        let p3 = p2 + 1;
        let (fields, p4) = if is_group(tokens, p3, Delimiter::Brace) {
            match FieldsNamed::parse(tokens, p3) {
                Ok((fields, end)) => (SpecialFields::Named(fields), end),
                Err(e) => {
                    return Err(e);
                },
            }
        } else if is_group(tokens, p3, Delimiter::Parenthesis) {
            match FieldsUnnamed::parse(tokens, p3) {
                Ok((fields, end)) => (SpecialFields::Unnamed(fields), end),
                Err(e) => {
                    return Err(e);
                },
            }
        } else {
            (SpecialFields::Unit, p3)
        };
        let (discriminant, end) = match parse_discriminant(tokens, p4) {
            Ok(pair) => pair,
            Err(e) => {
                return Err(e);
            },
        };
        Ok((SpecialVariant { attrs, ident, fields, discriminant }, end))
    }
}

} // verus!
