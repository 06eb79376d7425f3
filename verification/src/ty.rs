//! The type of a field: an ordinary type, a definition, or a path type with
//! definitions among its generic arguments.

use vstd::prelude::*;

use crate::special_data::{Special, SpecialView, special_view};
use crate::token::{Token, TokenView};
use crate::ty::augmented::{TypePathView, path_type_view};

pub mod augmented;

verus! {

/// What stands where a field's type is expected.
#[derive(Debug)]
pub enum SpecialType {
    /// A definition, written in place.
    Def(Special),
    /// A path type whose generic arguments are read by this grammar, so that
    /// definitions can stand among them.
    Augmented(augmented::Type),
    /// An ordinary type, passed through as it is.
    Type(Vec<Token>),
}

/// The mathematical value of a [`SpecialType`].
pub enum SpecialTypeView {
    Def(Box<SpecialView>),
    Augmented(TypePathView),
    Type(Seq<TokenView>),
}

/// The value of a field's type.
pub open spec fn type_view(t: SpecialType) -> SpecialTypeView
    decreases t,
{
    match t {
        SpecialType::Def(s) => SpecialTypeView::Def(Box::new(special_view(s))),
        SpecialType::Augmented(a) => SpecialTypeView::Augmented(path_type_view(a)),
        SpecialType::Type(tokens) => SpecialTypeView::Type(tokens.deep_view()),
    }
}

impl DeepView for SpecialType {
    type V = SpecialTypeView;

    open spec fn deep_view(&self) -> SpecialTypeView {
        type_view(*self)
    }
}

} // verus!
