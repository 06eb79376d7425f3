//! The explicit discriminant of an enum variant.

use vstd::prelude::*;
use crate::token::{Token, TokenView};

verus! {

/// The expression that follows `=` in `Variant = expr`.
#[derive(Debug)]
pub struct Discriminant {
    /// The tokens of the expression, passed through as they are.
    pub expr: Vec<Token>,
}

impl DeepView for Discriminant {
    type V = Seq<TokenView>;

    open spec fn deep_view(&self) -> Seq<TokenView> {
        self.expr.deep_view()
    }
}

} // verus!
