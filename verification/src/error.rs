//! Failures of parsing.

use vstd::prelude::*;

verus! {

/// What is wrong with the input.
#[derive(Clone, Copy, PartialEq, Eq, Debug, Structural)]
pub enum ErrorKind {
    /// `#` does not stand where an attribute is expected.
    ExpectedPound,
    /// `>` does not follow `#` where an attribute for nested definitions is
    /// expected.
    ExpectedNestedMarker,
    /// The brackets of an attribute are missing.
    ExpectedBrackets,
    /// What stands between the brackets of an attribute is no attribute
    /// payload.
    InvalidMeta,
    /// `+` stands where only `*`, `/` or `-` can follow an attribute.
    ExpectedModifier,
    /// The visibility is malformed.
    InvalidVisibility,
    /// Neither `struct` nor `enum` stands where a definition is expected.
    ExpectedDefinition,
    /// A `union` stands where a definition is expected.
    UnsupportedUnion,
    /// An identifier is missing.
    ExpectedIdent,
    /// The generic parameters are malformed.
    InvalidGenerics,
    /// The `where` clause is malformed.
    InvalidWhereClause,
    /// The braces of an enum's body, or of named fields, are missing.
    ExpectedBraces,
    /// The parentheses of unnamed fields are missing.
    ExpectedParentheses,
    /// The `:` between a field's name and its type is missing.
    ExpectedColon,
    /// A `,` is missing between two items of a list.
    ExpectedComma,
    /// A type is missing.
    ExpectedType,
    /// `<` is missing before generic arguments.
    ExpectedLess,
    /// `>` is missing after generic arguments or after a qualified self
    /// type.
    ExpectedGreater,
    /// `::` is missing after a qualified self type.
    ExpectedPathSeparator,
    /// A generic argument is malformed.
    InvalidGenericArgument,
    /// The expression of a discriminant is malformed.
    InvalidExpr,
    /// A definition stands as the type of a field named `_`.
    UnnamedFieldDefinition,
    /// `||` does not stand where a generic hook is expected.
    ExpectedFishHook,
    /// What follows `||` is no angle-bracketed list of generic arguments.
    InvalidFishHook,
    /// `::` stands between `||` and `<`.
    FishHookColons,
    /// A generic hook has no arguments.
    EmptyFishHook,
    /// A generic hook follows a type that is no definition.
    MisplacedFishHook,
    /// Tokens are left over after what was parsed.
    UnexpectedToken,
}

/// A failure of parsing, with the place of the offending token.
#[derive(Debug)]
pub struct ParseError {
    pub kind: ErrorKind,
    /// The place of the token: its index among the tokens of the innermost
    /// group that holds it, preceded by the index of that group in the group
    /// around it, and so on outwards.
    pub at: Vec<usize>,
}

/// The mathematical value of a [`ParseError`].
pub struct ParseErrorView {
    pub kind: ErrorKind,
    pub at: Seq<int>,
}

impl DeepView for ParseError {
    type V = ParseErrorView;

    open spec fn deep_view(&self) -> ParseErrorView {
        ParseErrorView { kind: self.kind, at: Seq::new(self.at@.len(), |i: int| self.at@[i] as int) }
    }
}

/// The failure of the given kind at the token of index `pos`.
pub open spec fn failure(kind: ErrorKind, pos: int) -> ParseErrorView {
    ParseErrorView { kind, at: seq![pos] }
}

/// A failure inside the group of index `pos`.
pub open spec fn inside(e: ParseErrorView, pos: int) -> ParseErrorView {
    ParseErrorView { kind: e.kind, at: seq![pos] + e.at }
}

impl ParseError {
    /// The failure of the given kind at the token of index `pos`.
    pub fn new(kind: ErrorKind, pos: usize) -> (r: ParseError)
        ensures
            r.deep_view() == failure(kind, pos as int),
    {
        let mut at: Vec<usize> = Vec::new();
        at.push(pos);
        let r = ParseError { kind, at };
        assert(r.deep_view().at =~= seq![pos as int]);
        r
    }

    /// The same failure, seen from outside the group of index `pos` in
    /// which it occurred.
    pub fn inside(self, pos: usize) -> (r: ParseError)
        ensures
            r.deep_view() == inside(self.deep_view(), pos as int),
    {
        let mut at = self.at;
        at.insert(0, pos);
        let r = ParseError { kind: self.kind, at };
        assert(r.deep_view().at =~= seq![pos as int] + self.deep_view().at);
        r
    }
}

} // verus!
