//! The generic hook: explicit generic arguments for the reference that
//! replaces a nested generic definition, written `||<...>` after it.

use vstd::prelude::*;
use crate::cursor::{is_pair, parsed};
use crate::error::{ErrorKind, ParseError};
use crate::grammar::fish_at;
use crate::source::{Syntax, host_end};
use crate::token::{Token, TokenView, copy_range};

verus! {

/// The generic arguments that follow `||`.
#[derive(Debug)]
pub struct FishHook {
    /// The angle-bracketed list, from `<` to `>`.
    pub generics: Vec<Token>,
}

impl DeepView for FishHook {
    type V = Seq<TokenView>;

    open spec fn deep_view(&self) -> Seq<TokenView> {
        self.generics.deep_view()
    }
}

impl FishHook {
    /// Reads a generic hook at index `pos`: `||`, then an angle-bracketed
    /// list of generic arguments that is not empty and does not start with
    /// `::`.
    pub fn parse(tokens: &Vec<Token>, pos: usize) -> (r: Result<(FishHook, usize), ParseError>)
        requires
            pos <= tokens.len(),
        ensures
            parsed(r, pos, tokens.len(), fish_at(tokens.deep_view(), pos as int)),
    {
        if !is_pair(tokens, pos, '|', '|') {
            return Err(ParseError::new(ErrorKind::ExpectedFishHook, pos));
        }
        let end = match host_end(Syntax::AngleArguments, tokens, pos + 2) {
            Some(end) => end,
            None => {
                return Err(ParseError::new(ErrorKind::InvalidFishHook, pos + 2));
            },
        };
        if is_pair(tokens, pos + 2, ':', ':') {
            return Err(ParseError::new(ErrorKind::FishHookColons, pos + 2));
        }
        if end - (pos + 2) <= 2 {
            return Err(ParseError::new(ErrorKind::EmptyFishHook, pos));
        }
        Ok((FishHook { generics: copy_range(tokens, pos + 2, end) }, end))
    }
}

} // verus!
