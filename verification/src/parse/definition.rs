//! Reading a definition.

use vstd::prelude::*;
use crate::attributes::{CompositeAttribute, ParseAttribute};
use crate::cursor::{group_content, is_group, is_ident, is_punct, is_word, parsed, word};
use crate::error::{ErrorKind, ParseError, ParseErrorView};
use crate::grammar::{
    data_enum_at, data_struct_at, definition_of, named_fields_at, special_at, tuple_struct_at,
    unnamed_fields_at, variants_from, where_at,
};
use crate::parse::variant::parse_variants;
use crate::source::{Syntax, host_end};
use crate::special_data::{
    Body, BodyEnum, BodyStruct, FieldsNamed, FieldsUnnamed, Special, SpecialFields, SpecialView,
    lemma_variant_list_view,
};
use crate::token::{Delimiter, Token, copy_range};

verus! {

impl Special {
    /// Reads the definition that the tokens spell out, all of them.
    pub fn parse_complete(tokens: &Vec<Token>) -> (r: Result<Special, ParseError>)
        ensures
            match r {
                Ok(d) => definition_of(tokens.deep_view()) == Ok::<SpecialView, ParseErrorView>(
                    d.deep_view(),
                ),
                Err(e) => definition_of(tokens.deep_view()) == Err::<SpecialView, ParseErrorView>(
                    e.deep_view(),
                ),
            },
    {
        match Special::parse(tokens, 0) {
            Ok((definition, end)) => {
                if end < tokens.len() {
                    Err(ParseError::new(ErrorKind::UnexpectedToken, end))
                } else {
                    Ok(definition)
                }
            },
            Err(e) => Err(e),
        }
    }

    /// Reads a definition at index `pos`: attributes, visibility, `struct`
    /// or `enum`, a name, generic parameters and the body.
    pub fn parse(tokens: &Vec<Token>, pos: usize) -> (r: Result<(Special, usize), ParseError>)
        requires
            pos <= tokens.len(),
        ensures
            parsed(r, pos, tokens.len(), special_at(tokens.deep_view(), pos as int)),
        decreases tokens, tokens.len() - pos, 70nat,
    {
        proof {
            reveal(special_at);
            reveal(data_struct_at);
            reveal(data_enum_at);
        }
        let (attrs, p1) = match CompositeAttribute::parse_outer(tokens, pos) {
            Ok(pair) => pair,
            Err(e) => {
                return Err(e);
            },
        };
        let p2 = match host_end(Syntax::Visibility, tokens, p1) {
            Some(end) => end,
            None => {
                return Err(ParseError::new(ErrorKind::InvalidVisibility, p1));
            },
        };
        if is_word(tokens, p2, "union") {
            return Err(ParseError::new(ErrorKind::UnsupportedUnion, p2));
        }
        let is_struct = is_word(tokens, p2, "struct");
        if !(is_struct || is_word(tokens, p2, "enum")) {
            return Err(ParseError::new(ErrorKind::ExpectedDefinition, p2));
        }
        if !is_ident(tokens, p2 + 1) {
            return Err(ParseError::new(ErrorKind::ExpectedIdent, p2 + 1));
        }
        let ident = word(tokens, p2 + 1);
        let p3 = match host_end(Syntax::Generics, tokens, p2 + 2) {
            Some(end) => end,
            None => {
                return Err(ParseError::new(ErrorKind::InvalidGenerics, p2 + 2));
            },
        };
        let data = if is_struct {
            parse_data_struct(tokens, p3)
        } else {
            parse_data_enum(tokens, p3)
        };
        let ((where_clause, body), end) = match data {
            Ok(pair) => pair,
            Err(e) => {
                return Err(e);
            },
        };
        Ok(
            (
                Special {
                    attrs,
                    vis: copy_range(tokens, p1, p2),
                    ident,
                    generics: copy_range(tokens, p2 + 2, p3),
                    where_clause,
                    body,
                },
                end,
            ),
        )
    }
}

/// Reads the `where` clause at index `pos`, if `where` stands there.
fn parse_where(tokens: &Vec<Token>, pos: usize) -> (r: Result<(Vec<Token>, usize), ParseError>)
    requires
        pos <= tokens.len(),
    ensures
        parsed(r, pos, tokens.len(), where_at(tokens.deep_view(), pos as int)),
{
    if is_word(tokens, pos, "where") {
        match host_end(Syntax::WhereClause, tokens, pos) {
            Some(end) => Ok((copy_range(tokens, pos, end), end)),
            None => Err(ParseError::new(ErrorKind::InvalidWhereClause, pos)),
        }
    } else {
        let clause: Vec<Token> = Vec::new();
        assert(clause.deep_view() =~= Seq::empty());
        Ok((clause, pos))
    }
}

/// Reads the body of a `struct` with unnamed fields at index `pos`: the
/// fields in parentheses, then an optional `where` clause and an optional
/// semicolon.
fn parse_tuple_struct(tokens: &Vec<Token>, pos: usize) -> (r: Result<
    ((Vec<Token>, Body), usize),
    ParseError,
>)
    requires
        pos <= tokens.len(),
    ensures
        parsed(r, pos, tokens.len(), tuple_struct_at(tokens.deep_view(), pos as int)),
    decreases tokens, tokens.len() - pos, 55nat,
{
    proof {
        reveal(tuple_struct_at);
        reveal(unnamed_fields_at);
    }
    let (fields, after) = match FieldsUnnamed::parse(tokens, pos) {
        Ok(pair) => pair,
        Err(e) => {
            return Err(e);
        },
    };
    let (where_clause, q) = match parse_where(tokens, after) {
        Ok(pair) => pair,
        Err(e) => {
            return Err(e);
        },
    };
    // A semicolon may close the definition.
    let semi_token = is_punct(tokens, q, ';');
    let end = if semi_token {
        q + 1
    } else {
        q
    };
    Ok(
        (
            (
                where_clause,
                Body::Struct(BodyStruct { fields: SpecialFields::Unnamed(fields), semi_token }),
            ),
            end,
        ),
    )
}

/// Reads the rest of a `struct` after its generic parameters: the `where`
/// clause and the body.
pub fn parse_data_struct(tokens: &Vec<Token>, pos: usize) -> (r: Result<
    ((Vec<Token>, Body), usize),
    ParseError,
>)
    requires
        pos <= tokens.len(),
    ensures
        parsed(r, pos, tokens.len(), data_struct_at(tokens.deep_view(), pos as int)),
    decreases tokens, tokens.len() - pos, 60nat,
{
    proof {
        reveal(data_struct_at);
        reveal(tuple_struct_at);
        reveal(named_fields_at);
    }
    let (where_clause, p) = match parse_where(tokens, pos) {
        Ok(pair) => pair,
        Err(e) => {
            return Err(e);
        },
    };
    if p == pos && is_group(tokens, p, Delimiter::Parenthesis) {
        parse_tuple_struct(tokens, p)
    } else if is_group(tokens, p, Delimiter::Brace) {
        let (fields, end) = match FieldsNamed::parse(tokens, p) {
            Ok(pair) => pair,
            Err(e) => {
                return Err(e);
            },
        };
        Ok(
            (
                (
                    where_clause,
                    Body::Struct(
                        BodyStruct { fields: SpecialFields::Named(fields), semi_token: false },
                    ),
                ),
                end,
            ),
        )
    } else if is_punct(tokens, p, ';') {
        Ok(
            (
                (
                    where_clause,
                    Body::Struct(BodyStruct { fields: SpecialFields::Unit, semi_token: true }),
                ),
                p + 1,
            ),
        )
    } else {
        Ok(
            (
                (
                    where_clause,
                    Body::Struct(BodyStruct { fields: SpecialFields::Unit, semi_token: false }),
                ),
                p,
            ),
        )
    }
}

/// Reads the rest of an `enum` after its generic parameters: the `where`
/// clause and the variants between braces.
pub fn parse_data_enum(tokens: &Vec<Token>, pos: usize) -> (r: Result<
    ((Vec<Token>, Body), usize),
    ParseError,
>)
    requires
        pos <= tokens.len(),
    ensures
        parsed(r, pos, tokens.len(), data_enum_at(tokens.deep_view(), pos as int)),
    decreases tokens, tokens.len() - pos, 60nat,
{
    proof {
        reveal(data_enum_at);
        reveal(variants_from);
    }
    let (where_clause, p) = match parse_where(tokens, pos) {
        Ok(pair) => pair,
        Err(e) => {
            return Err(e);
        },
    };
    let content = match group_content(tokens, p, Delimiter::Brace) {
        Some(content) => content,
        None => {
            return Err(ParseError::new(ErrorKind::ExpectedBraces, p));
        },
    };
    match parse_variants(content) {
        Ok(variants) => {
            proof {
                lemma_variant_list_view(variants);
            }
            Ok(((where_clause, Body::Enum(BodyEnum { variants })), p + 1))
        },
        Err(e) => Err(e.inside(p)),
    }
}

} // verus!
