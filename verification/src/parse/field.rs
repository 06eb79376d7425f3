//! Reading fields and their types.

use vstd::prelude::*;
use crate::attributes::{FieldAttribute, ParseAttribute};
use crate::cursor::{group_content, is_group, is_ident, is_pair, is_punct, is_word, parsed, word};
use crate::error::{ErrorKind, ParseError, ParseErrorView};
use crate::fish::FishHook;
use crate::grammar::{
    field_at, field_name_at, fields_from, hook_after, maybe_path_at, named_fields_at, special_at,
    special_type_at, unnamed_fields_at,
};
use crate::source::{Syntax, host_end};
use crate::special_data::{
    FieldView, FieldsNamed, FieldsUnnamed, Special, SpecialField, lemma_field_list_view,
};
use crate::token::{Delimiter, Token, copy_range};
use crate::ty::augmented::Type;
use crate::ty::SpecialType;

verus! {

impl FieldsNamed {
    /// Reads named fields at index `pos`: a group in braces, all of whose
    /// tokens are fields with names.
    pub fn parse(tokens: &Vec<Token>, pos: usize) -> (r: Result<(FieldsNamed, usize), ParseError>)
        requires
            pos <= tokens.len(),
        ensures
            parsed(r, pos, tokens.len(), named_fields_at(tokens.deep_view(), pos as int)),
        decreases tokens, tokens.len() - pos, 50nat,
    {
        proof {
            reveal(named_fields_at);
            reveal(fields_from);
            reveal(field_at);
        }
        let content = match group_content(tokens, pos, Delimiter::Brace) {
            Some(content) => content,
            None => {
                return Err(ParseError::new(ErrorKind::ExpectedBraces, pos));
            },
        };
        match parse_fields(content, true) {
            Ok(named) => {
                proof {
                    lemma_field_list_view(named);
                }
                Ok((FieldsNamed { named }, pos + 1))
            },
            Err(e) => Err(e.inside(pos)),
        }
    }
}

impl FieldsUnnamed {
    /// Reads unnamed fields at index `pos`: a group in parentheses, all of
    /// whose tokens are fields without names.
    pub fn parse(tokens: &Vec<Token>, pos: usize) -> (r: Result<
        (FieldsUnnamed, usize),
        ParseError,
    >)
        requires
            pos <= tokens.len(),
        ensures
            parsed(r, pos, tokens.len(), unnamed_fields_at(tokens.deep_view(), pos as int)),
        decreases tokens, tokens.len() - pos, 50nat,
    {
        proof {
            reveal(unnamed_fields_at);
            reveal(fields_from);
        }
        let content = match group_content(tokens, pos, Delimiter::Parenthesis) {
            Some(content) => content,
            None => {
                return Err(ParseError::new(ErrorKind::ExpectedParentheses, pos));
            },
        };
        match parse_fields(content, false) {
            Ok(unnamed) => {
                proof {
                    lemma_field_list_view(unnamed);
                }
                Ok((FieldsUnnamed { unnamed }, pos + 1))
            },
            Err(e) => Err(e.inside(pos)),
        }
    }
}

/// Reads the fields that the tokens hold, all of them: separated by `,`,
/// with an optional `,` after the last.
fn parse_fields(tokens: &Vec<Token>, named: bool) -> (r: Result<Vec<SpecialField>, ParseError>)
    ensures
        match r {
            Ok(list) => fields_from(tokens.deep_view(), 0, named, Seq::empty()) == Ok::<
                Seq<FieldView>,
                ParseErrorView,
            >(list.deep_view()),
            Err(e) => fields_from(tokens.deep_view(), 0, named, Seq::empty()) == Err::<
                Seq<FieldView>,
                ParseErrorView,
            >(e.deep_view()),
        },
    decreases tokens, tokens.len(), 120nat,
{
    let mut fields: Vec<SpecialField> = Vec::new();
    let mut cur: usize = 0;
    let ghost ts = tokens.deep_view();
    assert(fields.deep_view() =~= Seq::empty());
    while cur < tokens.len()
        invariant
            cur <= tokens.len(),
            ts == tokens.deep_view(),
            fields_from(ts, 0, named, Seq::empty()) == fields_from(
                ts,
                cur as int,
                named,
                fields.deep_view(),
            ),
        decreases tokens.len() - cur,
    {
        proof {
            reveal(fields_from);
            reveal(field_at);
        }
        let ghost before = fields.deep_view();
        let parsed_field = if named {
            SpecialField::parse_named(tokens, cur)
        } else {
            SpecialField::parse_unnamed(tokens, cur)
        };
        let (field, end) = match parsed_field {
            Ok(pair) => pair,
            Err(e) => {
                return Err(e);
            },
        };
        fields.push(field);
        assert(fields.deep_view() =~= before.push(field.deep_view()));
        if end >= tokens.len() {
            return Ok(fields);
        }
        if !is_punct(tokens, end, ',') {
            return Err(ParseError::new(ErrorKind::ExpectedComma, end));
        }
        cur = end + 1;
    }
    proof {
        reveal(fields_from);
    }
    Ok(fields)
}

/// Reads the name of a named field and the `:` after it.
fn parse_field_name(tokens: &Vec<Token>, pos: usize) -> (r: Result<
    (Option<String>, usize),
    ParseError,
>)
    requires
        pos <= tokens.len(),
    ensures
        parsed(r, pos, tokens.len(), field_name_at(tokens.deep_view(), pos as int, true)),
{
    let unnamed_field = is_word(tokens, pos, "_");
    if !(unnamed_field || is_ident(tokens, pos)) {
        return Err(ParseError::new(ErrorKind::ExpectedIdent, pos));
    }
    if !is_punct(tokens, pos + 1, ':') {
        return Err(ParseError::new(ErrorKind::ExpectedColon, pos + 1));
    }
    if unnamed_field && (is_word(tokens, pos + 2, "struct") || (is_word(tokens, pos + 2, "union")
        && is_group(tokens, pos + 3, Delimiter::Brace))) {
        return Err(ParseError::new(ErrorKind::UnnamedFieldDefinition, pos + 2));
    }
    Ok((Some(word(tokens, pos)), pos + 2))
}

impl SpecialField {
    /// Reads a field with a name at index `pos`: attributes, visibility,
    /// the name, `:`, the type, and the generic hook that may follow a
    /// definition.
    pub fn parse_named(tokens: &Vec<Token>, pos: usize) -> (r: Result<
        (SpecialField, usize),
        ParseError,
    >)
        requires
            pos <= tokens.len(),
        ensures
            parsed(r, pos, tokens.len(), field_at(tokens.deep_view(), pos as int, true)),
        decreases tokens, tokens.len() - pos, 110nat,
    {
        proof {
            reveal(field_at);
            reveal(special_type_at);
        }
        let (attrs, p1) = match FieldAttribute::parse_outer(tokens, pos) {
            Ok(pair) => pair,
            Err(e) => {
                return Err(e);
            },
        };
        let p2 = match host_end(Syntax::Visibility, tokens, p1) {
            Some(end) => end,
            None => {
                return Err(ParseError::new(ErrorKind::InvalidVisibility, p1));
            },
        };
        let (ident, p3) = match parse_field_name(tokens, p2) {
            Ok(pair) => pair,
            Err(e) => {
                return Err(e);
            },
        };
        let (ty, p4) = match SpecialType::parse(tokens, p3) {
            Ok(pair) => pair,
            Err(e) => {
                return Err(e);
            },
        };
        let (fish, end) = match handle_fish_hook(tokens, p4, &ty) {
            Ok(pair) => pair,
            Err(e) => {
                return Err(e);
            },
        };
        Ok((SpecialField { attrs, vis: copy_range(tokens, p1, p2), ident, ty, fish }, end))
    }

    /// Reads a field without a name at index `pos`: attributes, visibility,
    /// the type, and the generic hook that may follow a definition.
    pub fn parse_unnamed(tokens: &Vec<Token>, pos: usize) -> (r: Result<
        (SpecialField, usize),
        ParseError,
    >)
        requires
            pos <= tokens.len(),
        ensures
            parsed(r, pos, tokens.len(), field_at(tokens.deep_view(), pos as int, false)),
        decreases tokens, tokens.len() - pos, 110nat,
    {
        proof {
            reveal(field_at);
            reveal(special_type_at);
        }
        let (attrs, p1) = match FieldAttribute::parse_outer(tokens, pos) {
            Ok(pair) => pair,
            Err(e) => {
                return Err(e);
            },
        };
        let p2 = match host_end(Syntax::Visibility, tokens, p1) {
            Some(end) => end,
            None => {
                return Err(ParseError::new(ErrorKind::InvalidVisibility, p1));
            },
        };
        let (ty, p3) = match SpecialType::parse(tokens, p2) {
            Ok(pair) => pair,
            Err(e) => {
                return Err(e);
            },
        };
        let (fish, end) = match handle_fish_hook(tokens, p3, &ty) {
            Ok(pair) => pair,
            Err(e) => {
                return Err(e);
            },
        };
        Ok((SpecialField { attrs, vis: copy_range(tokens, p1, p2), ident: None, ty, fish }, end))
    }
}

/// Reads the generic hook that may follow the type `ty`, which ends at
/// index `pos`. A hook can follow a definition only.
pub fn handle_fish_hook(tokens: &Vec<Token>, pos: usize, ty: &SpecialType) -> (r: Result<
    (Option<FishHook>, usize),
    ParseError,
>)
    requires
        pos <= tokens.len(),
    ensures
        parsed(r, pos, tokens.len(), hook_after(tokens.deep_view(), pos as int, ty is Def)),
{
    if is_pair(tokens, pos, '|', '|') {
        let (fishhook, end) = match FishHook::parse(tokens, pos) {
            Ok(pair) => pair,
            Err(e) => {
                return Err(e);
            },
        };
        match ty {
            SpecialType::Def(_) => Ok((Some(fishhook), end)),
            _ => Err(ParseError::new(ErrorKind::MisplacedFishHook, pos)),
        }
    } else {
        Ok((None, pos))
    }
}

impl SpecialType {
    /// Reads what stands at index `pos` where a field's type is expected:
    /// an ordinary type, where the host language reads one; else a path
    /// with definitions among its generic arguments; else a definition.
    pub fn parse(tokens: &Vec<Token>, pos: usize) -> (r: Result<(SpecialType, usize), ParseError>)
        requires
            pos <= tokens.len(),
        ensures
            parsed(r, pos, tokens.len(), special_type_at(tokens.deep_view(), pos as int)),
        decreases tokens, tokens.len() - pos, 80nat,
    {
        proof {
            reveal(special_type_at);
            reveal(maybe_path_at);
            reveal(special_at);
        }
        if let Some(end) = host_end(Syntax::Type, tokens, pos) {
            return Ok((SpecialType::Type(copy_range(tokens, pos, end)), end));
        }
        match Type::maybe_parse(tokens, pos) {
            Err(e) => Err(e),
            Ok(Some((ty, end))) => Ok((SpecialType::Augmented(ty), end)),
            Ok(None) => match Special::parse(tokens, pos) {
                Ok((special, end)) => Ok((SpecialType::Def(special), end)),
                Err(e) => Err(e),
            },
        }
    }
}

} // verus!
