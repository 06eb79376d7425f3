//! Flattening of nested `struct` and `enum` definitions.
//!
//! A definition may have definitions where the types of its fields stand, or
//! among the generic arguments of those types:
//!
//! ```text
//! struct UserProfile {
//!     name: String,
//!     address: struct Address { street: String, city: String },
//!     previous: Vec<struct Move { year: u16 }>,
//! }
//! ```
//!
//! The library reads one such definition from tokens, resolves the
//! attributes of each definition against those that it inherits from the
//! definitions around it, and writes out a flat list: the definition itself
//! with a reference where a definition was nested, then the nested
//! definitions, depth first and in the order of the fields.
//!
//! - [`token`] holds token trees as plain values and [`print`] writes them
//!   as text; [`source`] lexes them and measures the constructs of the host
//!   language, for which [`host`] calls `proc_macro2` and `syn`.
//! - [`special_data`], [`ty`], [`attributes`], [`fish`] and [`discriminant`]
//!   are the grammar model.
//! - [`grammar`] says what the tokens at a position spell out; [`parse`]
//!   reads it, and [`sound`] says what holds of everything that is read.
//! - [`unpack_context`] resolves attributes and [`unpack`] flattens;
//!   [`laws`] and [`flat`] say what holds of every flat list.
//! - [`emit`] says which tokens a definition is written as, and
//!   [`to_tokens`] writes them.
//!
//! An attribute of a definition can be followed by a modifier: `#[a]*`
//! applies to the definition and to every definition nested in it, `#[a]/`
//! stops that from there down, and `#[a]-` skips one definition. An
//! attribute written `#>[a]` on a field or on a variant is meant for the
//! definitions nested in it. After a nested definition with generic
//! parameters, `||<...>` gives the generic arguments of the reference that
//! replaces it.

pub mod attributes;
pub mod cursor;
pub mod discriminant;
pub mod emit;
pub mod error;
pub mod fish;
pub mod flat;
pub mod grammar;
pub mod host;
pub mod laws;
pub mod parse;
pub mod print;
pub mod sound;
pub mod source;
pub mod special_data;
pub mod to_tokens;
pub mod token;
pub mod ty;
pub mod unpack;
pub mod unpack_context;

use vstd::prelude::*;
use crate::emit::definition_list_tokens;
use crate::error::{ParseError, ParseErrorView};
use crate::grammar::definition_of;
use crate::host::lexed;
use crate::print::printed;
use crate::source::{lex, render, streamable};
use crate::special_data::{Special, SpecialView};
use crate::to_tokens::definitions_to_tokens;
use crate::token::{Token, TokenView};
use crate::unpack::{UnpackError, UnpackErrorView, unpack_special};
use crate::unpack_context::UnpackContext;

verus! {

/// Why a definition cannot be flattened.
#[derive(Debug)]
pub enum NestError {
    /// The source text does not lex.
    Lex,
    /// The input holds no token.
    Empty,
    /// The tokens do not spell out one definition.
    Parse(ParseError),
    /// The attributes of a definition do not resolve.
    Unpack(UnpackError),
    /// The host language does not accept a token of the result.
    Render,
}

/// The mathematical value of a [`NestError`].
pub enum NestErrorView {
    Lex,
    Empty,
    Parse(ParseErrorView),
    Unpack(UnpackErrorView),
    Render,
}

impl DeepView for NestError {
    type V = NestErrorView;

    open spec fn deep_view(&self) -> NestErrorView {
        match self {
            NestError::Lex => NestErrorView::Lex,
            NestError::Empty => NestErrorView::Empty,
            NestError::Parse(e) => NestErrorView::Parse(e.deep_view()),
            NestError::Unpack(e) => NestErrorView::Unpack(e.deep_view()),
            NestError::Render => NestErrorView::Render,
        }
    }
}

/// The flat list for the definition `d` when nothing is inherited.
pub open spec fn flattened(d: SpecialView) -> Result<Seq<SpecialView>, UnpackErrorView> {
    unpack_special(d, Seq::empty(), Seq::empty())
}

/// The tokens of the flat definitions that the tokens of one nested
/// definition stand for.
pub open spec fn expanded(ts: Seq<TokenView>) -> Result<Seq<TokenView>, NestErrorView> {
    if ts.len() == 0 {
        Err(NestErrorView::Empty)
    } else {
        match definition_of(ts) {
            Err(e) => Err(NestErrorView::Parse(e)),
            Ok(d) => match flattened(d) {
                Err(e) => Err(NestErrorView::Unpack(e)),
                Ok(list) => Ok(definition_list_tokens(list, list.len())),
            },
        }
    }
}

/// The source text of the flat definitions that the source text of one
/// nested definition stands for.
pub open spec fn nested(source: Seq<char>) -> Result<Seq<char>, NestErrorView> {
    match lexed(source) {
        None => Err(NestErrorView::Lex),
        Some(ts) => match expanded(ts) {
            Err(e) => Err(e),
            Ok(out) => if streamable(out) {
                Ok(printed(out))
            } else {
                Err(NestErrorView::Render)
            },
        },
    }
}

/// Flattens a definition that inherits nothing: the definition itself,
/// rewritten, then the definitions nested in it, depth first and in the
/// order of the fields.
pub fn flatten(definition: &Special) -> (r: Result<Vec<Special>, UnpackError>)
    ensures
        match r {
            Ok(list) => flattened(definition.deep_view()) == Ok::<
                Seq<SpecialView>,
                UnpackErrorView,
            >(list.deep_view()),
            Err(e) => flattened(definition.deep_view()) == Err::<
                Seq<SpecialView>,
                UnpackErrorView,
            >(e.deep_view()),
        },
{
    let next = Vec::new();
    assert(next.deep_view() =~= Seq::empty());
    definition.unpack(UnpackContext::new(), next)
}

/// Reads one nested definition from the tokens and writes out the flat
/// definitions that it stands for.
pub fn expand(tokens: &Vec<Token>) -> (r: Result<Vec<Token>, NestError>)
    ensures
        match r {
            Ok(out) => expanded(tokens.deep_view()) == Ok::<Seq<TokenView>, NestErrorView>(
                out.deep_view(),
            ),
            Err(e) => expanded(tokens.deep_view()) == Err::<Seq<TokenView>, NestErrorView>(
                e.deep_view(),
            ),
        },
{
    if tokens.len() == 0 {
        return Err(NestError::Empty);
    }
    let definition = match Special::parse_complete(tokens) {
        Ok(definition) => definition,
        Err(e) => {
            return Err(NestError::Parse(e));
        },
    };
    let list = match flatten(&definition) {
        Ok(list) => list,
        Err(e) => {
            return Err(NestError::Unpack(e));
        },
    };
    Ok(definitions_to_tokens(&list))
}

/// Expands one nested definition, given as source text, into the source
/// text of the flat definitions that it stands for.
pub fn nest(input: &str) -> (r: Result<String, NestError>)
    ensures
        match r {
            Ok(out) => nested(input@) == Ok::<Seq<char>, NestErrorView>(out@),
            Err(e) => nested(input@) == Err::<Seq<char>, NestErrorView>(e.deep_view()),
        },
{
    let tokens = match lex(input) {
        Some(tokens) => tokens,
        None => {
            return Err(NestError::Lex);
        },
    };
    let out = match expand(&tokens) {
        Ok(out) => out,
        Err(e) => {
            return Err(e);
        },
    };
    match render(&out) {
        Some(text) => Ok(text),
        None => Err(NestError::Render),
    }
}

} // verus!
