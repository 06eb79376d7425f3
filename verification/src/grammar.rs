//! The grammar of definitions, as functions from a token sequence and a
//! position to what is read there and how many tokens it takes.

use vstd::prelude::*;
use crate::attributes::{AttributeModifier, CompositeAttributeView, FieldAttributeView};
use crate::error::{ErrorKind, ParseErrorView, failure, inside};
use crate::source::{Syntax, host_count};
use crate::special_data::{BodyView, FieldView, FieldsView, SpecialView, VariantView};
use crate::token::{Delimiter, TokenView};
use crate::ty::augmented::{
    ArgumentView, ArgumentsView, PathView, QSelfView, SegmentView, TypePathView,
};
use crate::ty::SpecialTypeView;

verus! {

/// Whether the token of index `pos` is the punctuation character `c`.
pub open spec fn punct_at(ts: Seq<TokenView>, pos: int, c: char) -> bool {
    0 <= pos < ts.len() && ts[pos] is Punct && ts[pos]->Punct_0 == c
}

/// Whether the tokens of index `pos` and `pos + 1` are the punctuation
/// characters `a` and `b`, written without space between them.
pub open spec fn pair_at(ts: Seq<TokenView>, pos: int, a: char, b: char) -> bool {
    0 <= pos < ts.len() && ts[pos] == TokenView::Punct(a, true) && punct_at(ts, pos + 1, b)
}

/// Whether the token of index `pos` is the identifier or keyword `word`.
pub open spec fn word_at(ts: Seq<TokenView>, pos: int, word: Seq<char>) -> bool {
    0 <= pos < ts.len() && ts[pos] == TokenView::Ident(word)
}

/// Whether the token of index `pos` is a group with the given delimiter.
pub open spec fn group_at(ts: Seq<TokenView>, pos: int, delimiter: Delimiter) -> bool {
    0 <= pos < ts.len() && ts[pos] is Group && ts[pos]->Group_0 == delimiter
}

/// Whether the token of index `pos` is an identifier that is no keyword.
pub open spec fn ident_at(ts: Seq<TokenView>, pos: int) -> bool {
    0 <= pos < ts.len() && ts[pos] is Ident && host_count(Syntax::Ident, seq![ts[pos]], 0) == Some(
        1nat,
    )
}

/// Whether a lifetime starts at the token of index `pos`.
pub open spec fn lifetime_at(ts: Seq<TokenView>, pos: int) -> bool {
    0 <= pos < ts.len() && ts[pos] == TokenView::Punct('\'', true) && pos + 1 < ts.len() && ts[pos
        + 1] is Ident
}

/// The tokens from index `from` up to, not including, index `from + n`.
pub open spec fn span(ts: Seq<TokenView>, from: int, n: nat) -> Seq<TokenView> {
    ts.subrange(from, from + n)
}

/// A result whose count of tokens is raised by `by`.
pub open spec fn advance<T>(r: Result<(T, nat), ParseErrorView>, by: nat) -> Result<
    (T, nat),
    ParseErrorView,
> {
    match r {
        Ok((value, n)) => Ok((value, n + by)),
        Err(e) => Err(e),
    }
}

/// How many tokens are left from index `pos` on.
pub open spec fn remaining(ts: Seq<TokenView>, pos: int) -> nat {
    if pos <= ts.len() {
        (ts.len() - pos) as nat
    } else {
        0
    }
}

/// A modifier: `*`, `/` or `-`.
pub open spec fn modifier_at(ts: Seq<TokenView>, pos: int) -> Result<
    (AttributeModifier, nat),
    ParseErrorView,
> {
    if punct_at(ts, pos, '*') {
        Ok((AttributeModifier::Star, 1))
    } else if punct_at(ts, pos, '/') {
        Ok((AttributeModifier::Slash, 1))
    } else if punct_at(ts, pos, '-') {
        Ok((AttributeModifier::Minus, 1))
    } else {
        Err(failure(ErrorKind::ExpectedModifier, pos))
    }
}

/// The modifier that follows an attribute, if `*`, `/`, `-` or `+` stands
/// at index `pos`; `+` is no modifier.
pub open spec fn optional_modifier_at(ts: Seq<TokenView>, pos: int) -> Result<
    (Option<AttributeModifier>, nat),
    ParseErrorView,
> {
    if punct_at(ts, pos, '*') || punct_at(ts, pos, '/') || punct_at(ts, pos, '-') || punct_at(
        ts,
        pos,
        '+',
    ) {
        match modifier_at(ts, pos) {
            Err(e) => Err(e),
            Ok((modifier, n)) => Ok((Some(modifier), n)),
        }
    } else {
        Ok((None, 0))
    }
}

/// The payload of an attribute: what stands between the brackets of the
/// group of index `pos`, all of which the host language reads as one
/// attribute payload.
pub open spec fn meta_at(ts: Seq<TokenView>, pos: int) -> Result<Seq<TokenView>, ParseErrorView> {
    if !group_at(ts, pos, Delimiter::Bracket) {
        Err(failure(ErrorKind::ExpectedBrackets, pos))
    } else if host_count(Syntax::Meta, ts[pos]->Group_1, 0) != Some(ts[pos]->Group_1.len()) {
        Err(failure(ErrorKind::InvalidMeta, pos))
    } else {
        Ok(ts[pos]->Group_1)
    }
}

/// An attribute without modifier: `#[meta]`.
pub open spec fn attribute_at(ts: Seq<TokenView>, pos: int) -> Result<
    (Seq<TokenView>, nat),
    ParseErrorView,
> {
    if !punct_at(ts, pos, '#') {
        Err(failure(ErrorKind::ExpectedPound, pos))
    } else {
        match meta_at(ts, pos + 1) {
            Err(e) => Err(e),
            Ok(meta) => Ok((meta, 2)),
        }
    }
}

/// An attribute of a definition: `#[meta]` and an optional modifier.
pub open spec fn composite_at(ts: Seq<TokenView>, pos: int) -> Result<
    (CompositeAttributeView, nat),
    ParseErrorView,
> {
    match attribute_at(ts, pos) {
        Err(e) => Err(e),
        Ok((meta, n)) => match optional_modifier_at(ts, pos + 2) {
            Err(e) => Err(e),
            Ok((modifier, m)) => Ok((CompositeAttributeView { meta, modifier }, 2 + m)),
        },
    }
}

/// An attribute for nested definitions: `#>[meta]` and an optional
/// modifier.
pub open spec fn nested_at(ts: Seq<TokenView>, pos: int) -> Result<
    (CompositeAttributeView, nat),
    ParseErrorView,
> {
    if !punct_at(ts, pos, '#') {
        Err(failure(ErrorKind::ExpectedPound, pos))
    } else if !punct_at(ts, pos + 1, '>') {
        Err(failure(ErrorKind::ExpectedNestedMarker, pos + 1))
    } else {
        match meta_at(ts, pos + 2) {
            Err(e) => Err(e),
            Ok(meta) => match optional_modifier_at(ts, pos + 3) {
                Err(e) => Err(e),
                Ok((modifier, m)) => Ok((CompositeAttributeView { meta, modifier }, 3 + m)),
            },
        }
    }
}

/// An attribute of a field or variant: `#>[meta]` with an optional
/// modifier, or `#[meta]`.
pub open spec fn field_attribute_at(ts: Seq<TokenView>, pos: int) -> Result<
    (FieldAttributeView, nat),
    ParseErrorView,
> {
    if punct_at(ts, pos, '#') && punct_at(ts, pos + 1, '>') {
        match nested_at(ts, pos) {
            Err(e) => Err(e),
            Ok((a, n)) => Ok((FieldAttributeView::Nested(a), n)),
        }
    } else {
        match attribute_at(ts, pos) {
            Err(e) => Err(e),
            Ok((meta, n)) => Ok((FieldAttributeView::Field(meta), n)),
        }
    }
}

/// The attributes without modifier that follow one another from index
/// `pos` on, after those of `acc`.
pub open spec fn attributes_from(ts: Seq<TokenView>, pos: int, acc: Seq<Seq<TokenView>>) -> Result<
    (Seq<Seq<TokenView>>, nat),
    ParseErrorView,
>
    decreases remaining(ts, pos),
{
    if punct_at(ts, pos, '#') {
        match attribute_at(ts, pos) {
            Err(e) => Err(e),
            Ok((a, n)) => advance(attributes_from(ts, pos + n, acc.push(a)), n),
        }
    } else {
        Ok((acc, 0))
    }
}

/// The attributes of a definition that follow one another from index `pos`
/// on, after those of `acc`.
pub open spec fn composites_from(
    ts: Seq<TokenView>,
    pos: int,
    acc: Seq<CompositeAttributeView>,
) -> Result<(Seq<CompositeAttributeView>, nat), ParseErrorView>
    decreases remaining(ts, pos),
{
    if punct_at(ts, pos, '#') {
        match composite_at(ts, pos) {
            Err(e) => Err(e),
            Ok((a, n)) => advance(composites_from(ts, pos + n, acc.push(a)), n),
        }
    } else {
        Ok((acc, 0))
    }
}

/// The attributes for nested definitions that follow one another from
/// index `pos` on, after those of `acc`.
pub open spec fn nested_from(
    ts: Seq<TokenView>,
    pos: int,
    acc: Seq<CompositeAttributeView>,
) -> Result<(Seq<CompositeAttributeView>, nat), ParseErrorView>
    decreases remaining(ts, pos),
{
    if punct_at(ts, pos, '#') {
        match nested_at(ts, pos) {
            Err(e) => Err(e),
            Ok((a, n)) => advance(nested_from(ts, pos + n, acc.push(a)), n),
        }
    } else {
        Ok((acc, 0))
    }
}

/// The attributes of a field or variant that follow one another from index
/// `pos` on, after those of `acc`.
pub open spec fn field_attributes_from(
    ts: Seq<TokenView>,
    pos: int,
    acc: Seq<FieldAttributeView>,
) -> Result<(Seq<FieldAttributeView>, nat), ParseErrorView>
    decreases remaining(ts, pos),
{
    if punct_at(ts, pos, '#') {
        match field_attribute_at(ts, pos) {
            Err(e) => Err(e),
            Ok((a, n)) => advance(field_attributes_from(ts, pos + n, acc.push(a)), n),
        }
    } else {
        Ok((acc, 0))
    }
}

/// A generic hook: `||` and an angle-bracketed list of generic arguments
/// that is not empty and does not start with `::`.
pub open spec fn fish_at(ts: Seq<TokenView>, pos: int) -> Result<
    (Seq<TokenView>, nat),
    ParseErrorView,
> {
    if !pair_at(ts, pos, '|', '|') {
        Err(failure(ErrorKind::ExpectedFishHook, pos))
    } else {
        match host_count(Syntax::AngleArguments, ts, pos + 2) {
            None => Err(failure(ErrorKind::InvalidFishHook, pos + 2)),
            Some(n) => if pair_at(ts, pos + 2, ':', ':') {
                Err(failure(ErrorKind::FishHookColons, pos + 2))
            } else if n <= 2 {
                Err(failure(ErrorKind::EmptyFishHook, pos))
            } else {
                Ok((span(ts, pos + 2, n), 2 + n))
            },
        }
    }
}

/// The generic hook that follows a type, if any. It can follow a
/// definition only.
pub open spec fn hook_after(ts: Seq<TokenView>, pos: int, nested: bool) -> Result<
    (Option<Seq<TokenView>>, nat),
    ParseErrorView,
> {
    if pair_at(ts, pos, '|', '|') {
        match fish_at(ts, pos) {
            Err(e) => Err(e),
            Ok((generics, n)) => if nested {
                Ok((Some(generics), n))
            } else {
                Err(failure(ErrorKind::MisplacedFishHook, pos))
            },
        }
    } else {
        Ok((None, 0))
    }
}

/// The `where` clause at index `pos`, if `where` stands there.
pub open spec fn where_at(ts: Seq<TokenView>, pos: int) -> Result<
    (Seq<TokenView>, nat),
    ParseErrorView,
> {
    if word_at(ts, pos, "where"@) {
        match host_count(Syntax::WhereClause, ts, pos) {
            None => Err(failure(ErrorKind::InvalidWhereClause, pos)),
            Some(n) => Ok((span(ts, pos, n), n)),
        }
    } else {
        Ok((Seq::empty(), 0))
    }
}

/// Whether a path can start at the token of index `pos`.
pub open spec fn path_start(ts: Seq<TokenView>, pos: int) -> bool {
    ident_at(ts, pos) || word_at(ts, pos, "super"@) || word_at(ts, pos, "self"@) || word_at(
        ts,
        pos,
        "Self"@,
    ) || word_at(ts, pos, "crate"@) || pair_at(ts, pos, ':', ':') || punct_at(ts, pos, '<')
}

/// Whether no segment of the path has generic arguments.
pub open spec fn mod_style(path: PathView) -> bool {
    forall|i: int| 0 <= i < path.segments.len() ==> (#[trigger] path.segments[i]).arguments is None
}

/// What stands where a field's type is expected: an ordinary type, where
/// the host language reads one; else a path with definitions among its
/// generic arguments, where a path starts; else a definition.
#[verifier::opaque]
pub open spec fn special_type_at(ts: Seq<TokenView>, pos: int) -> Result<
    (SpecialTypeView, nat),
    ParseErrorView,
>
    decreases ts, remaining(ts, pos), 10nat,
{
    match host_count(Syntax::Type, ts, pos) {
        Some(n) => Ok((SpecialTypeView::Type(span(ts, pos, n)), n)),
        None => match maybe_path_at(ts, pos) {
            Err(e) => Err(e),
            Ok(Some((path, n))) => Ok((SpecialTypeView::Augmented(path), n)),
            Ok(None) => match special_at(ts, pos) {
                Err(e) => Err(e),
                Ok((d, n)) => Ok((SpecialTypeView::Def(Box::new(d)), n)),
            },
        },
    }
}

/// The path type at index `pos`, or `None` where no path starts there or
/// where the path is that of a macro call.
#[verifier::opaque]
pub open spec fn maybe_path_at(ts: Seq<TokenView>, pos: int) -> Result<
    Option<(TypePathView, nat)>,
    ParseErrorView,
>
    decreases ts, remaining(ts, pos), 9nat,
{
    if path_start(ts, pos) {
        match qpath_at(ts, pos) {
            Err(e) => Err(e),
            Ok((path, n)) => if path.qself is None && punct_at(ts, pos + n, '!') && !pair_at(
                ts,
                pos + n,
                '!',
                '=',
            ) && mod_style(path.path) {
                Ok(None)
            } else {
                Ok(Some((path, n)))
            },
        }
    } else {
        Ok(None)
    }
}

/// The path type that a qualified self type and the segments after it make:
/// the segments of the path after `as`, if there is one, come first.
#[verifier::opaque]
pub open spec fn qualified(
    ty: Seq<TokenView>,
    as_path: Option<PathView>,
    rest: Seq<SegmentView>,
) -> TypePathView {
    match as_path {
        Some(p) => TypePathView {
            qself: Some(QSelfView { ty, position: p.segments.len() as usize, as_token: true }),
            path: PathView { leading_colon: p.leading_colon, segments: p.segments + rest },
        },
        None => TypePathView {
            qself: Some(QSelfView { ty, position: 0, as_token: false }),
            path: PathView { leading_colon: true, segments: rest },
        },
    }
}

/// A path with an optional qualified self type: `<T as Trait>::Name` or a
/// plain path.
#[verifier::opaque]
pub open spec fn qpath_at(ts: Seq<TokenView>, pos: int) -> Result<
    (TypePathView, nat),
    ParseErrorView,
>
    decreases ts, remaining(ts, pos), 8nat,
{
    if punct_at(ts, pos, '<') {
        match host_count(Syntax::Type, ts, pos + 1) {
            None => Err(failure(ErrorKind::ExpectedType, pos + 1)),
            Some(n1) => match as_path_at(ts, pos + 1 + n1) {
                Err(e) => Err(e),
                Ok((as_path, n2)) => match qualified_rest_at(ts, pos + 1 + n1 + n2) {
                    Err(e) => Err(e),
                    Ok((rest, n3)) => Ok(
                        (qualified(span(ts, pos + 1, n1), as_path, rest), 1 + n1 + n2 + n3),
                    ),
                },
            },
        }
    } else {
        match path_at(ts, pos) {
            Err(e) => Err(e),
            Ok((path, n)) => Ok((TypePathView { qself: None, path }, n)),
        }
    }
}

/// What follows a qualified self type: `>`, `::` and the segments of a
/// path.
#[verifier::opaque]
pub open spec fn qualified_rest_at(ts: Seq<TokenView>, pos: int) -> Result<
    (Seq<SegmentView>, nat),
    ParseErrorView,
>
    decreases ts, remaining(ts, pos), 7nat,
{
    if !punct_at(ts, pos, '>') {
        Err(failure(ErrorKind::ExpectedGreater, pos))
    } else if !pair_at(ts, pos + 1, ':', ':') {
        Err(failure(ErrorKind::ExpectedPathSeparator, pos + 1))
    } else {
        advance(segments_from(ts, pos + 3, Seq::empty()), 3)
    }
}

/// The path that follows `as` in a qualified self type, if `as` stands at
/// index `pos`.
#[verifier::opaque]
pub open spec fn as_path_at(ts: Seq<TokenView>, pos: int) -> Result<
    (Option<PathView>, nat),
    ParseErrorView,
>
    decreases ts, remaining(ts, pos), 6nat,
{
    if word_at(ts, pos, "as"@) {
        match path_at(ts, pos + 1) {
            Err(e) => Err(e),
            Ok((path, n)) => Ok((Some(path), 1 + n)),
        }
    } else {
        Ok((None, 0))
    }
}

/// A path: an optional `::`, then segments separated by `::`.
#[verifier::opaque]
pub open spec fn path_at(ts: Seq<TokenView>, pos: int) -> Result<(PathView, nat), ParseErrorView>
    decreases ts, remaining(ts, pos), 5nat,
{
    let lead: nat = if pair_at(ts, pos, ':', ':') {
        2
    } else {
        0
    };
    match segments_from(ts, pos + lead, Seq::empty()) {
        Err(e) => Err(e),
        Ok((segments, n)) => Ok((PathView { leading_colon: lead == 2, segments }, lead + n)),
    }
}

/// The segments of a path from index `pos` on, after those of `acc`: one
/// segment, and one more after each `::` that no parenthesis follows.
#[verifier::opaque]
pub open spec fn segments_from(ts: Seq<TokenView>, pos: int, acc: Seq<SegmentView>) -> Result<
    (Seq<SegmentView>, nat),
    ParseErrorView,
>
    decreases ts, remaining(ts, pos), 4nat,
{
    match segment_at(ts, pos) {
        Err(e) => Err(e),
        Ok((segment, n)) => if pair_at(ts, pos + n, ':', ':') && !group_at(
            ts,
            pos + n + 2,
            Delimiter::Parenthesis,
        ) {
            advance(segments_from(ts, pos + n + 2, acc.push(segment)), n + 2)
        } else {
            Ok((acc.push(segment), n))
        },
    }
}

/// Whether generic arguments start at the token of index `pos`.
pub open spec fn arguments_start(ts: Seq<TokenView>, pos: int) -> bool {
    (punct_at(ts, pos, '<') && !pair_at(ts, pos, '<', '=')) || (pair_at(ts, pos, ':', ':')
        && punct_at(ts, pos + 2, '<'))
}

/// One segment of a path: a name and its generic arguments, if any.
#[verifier::opaque]
pub open spec fn segment_at(ts: Seq<TokenView>, pos: int) -> Result<
    (SegmentView, nat),
    ParseErrorView,
>
    decreases ts, remaining(ts, pos), 3nat,
{
    if word_at(ts, pos, "super"@) || word_at(ts, pos, "self"@) || word_at(ts, pos, "crate"@) {
        Ok((SegmentView { ident: ts[pos]->Ident_0, arguments: None }, 1))
    } else if !(word_at(ts, pos, "Self"@) || ident_at(ts, pos)) {
        Err(failure(ErrorKind::ExpectedIdent, pos))
    } else if arguments_start(ts, pos + 1) {
        match angle_at(ts, pos + 1) {
            Err(e) => Err(e),
            Ok((arguments, n)) => Ok(
                (SegmentView { ident: ts[pos]->Ident_0, arguments: Some(arguments) }, 1 + n),
            ),
        }
    } else {
        Ok((SegmentView { ident: ts[pos]->Ident_0, arguments: None }, 1))
    }
}

/// Generic arguments between `<` and `>`, after an optional `::`.
#[verifier::opaque]
pub open spec fn angle_at(ts: Seq<TokenView>, pos: int) -> Result<
    (ArgumentsView, nat),
    ParseErrorView,
>
    decreases ts, remaining(ts, pos), 2nat,
{
    if pair_at(ts, pos, ':', ':') {
        advance(angle_body_at(ts, pos + 2, true), 2)
    } else {
        angle_body_at(ts, pos, false)
    }
}

/// Generic arguments between `<` and `>`; `colon2_token` says whether `::`
/// stood before them.
#[verifier::opaque]
pub open spec fn angle_body_at(ts: Seq<TokenView>, pos: int, colon2_token: bool) -> Result<
    (ArgumentsView, nat),
    ParseErrorView,
>
    decreases ts, remaining(ts, pos), 1nat,
{
    if !punct_at(ts, pos, '<') {
        Err(failure(ErrorKind::ExpectedLess, pos))
    } else {
        match arguments_from(ts, pos + 1, Seq::empty()) {
            Err(e) => Err(e),
            Ok((args, n)) => if !punct_at(ts, pos + 1 + n, '>') {
                Err(failure(ErrorKind::ExpectedGreater, pos + 1 + n))
            } else {
                Ok((ArgumentsView { colon2_token, args }, 1 + n + 1))
            },
        }
    }
}

/// The generic arguments from index `pos` up to the closing `>`, after
/// those of `acc`: separated by `,`, with an optional `,` after the last.
#[verifier::opaque]
pub open spec fn arguments_from(ts: Seq<TokenView>, pos: int, acc: Seq<ArgumentView>) -> Result<
    (Seq<ArgumentView>, nat),
    ParseErrorView,
>
    decreases ts, remaining(ts, pos), 12nat,
{
    if punct_at(ts, pos, '>') {
        Ok((acc, 0))
    } else {
        match argument_at(ts, pos) {
            Err(e) => Err(e),
            Ok((argument, n)) => if punct_at(ts, pos + n, '>') {
                Ok((acc.push(argument), n))
            } else if !punct_at(ts, pos + n, ',') {
                Err(failure(ErrorKind::ExpectedComma, pos + n))
            } else {
                advance(arguments_from(ts, pos + n + 1, acc.push(argument)), n + 1)
            },
        }
    }
}

/// Whether a constant expression starts at the token of index `pos`.
pub open spec fn const_start(ts: Seq<TokenView>, pos: int) -> bool {
    host_count(Syntax::Literal, ts, pos) is Some || group_at(ts, pos, Delimiter::Brace)
}

/// One generic argument.
#[verifier::opaque]
pub open spec fn argument_at(ts: Seq<TokenView>, pos: int) -> Result<
    (ArgumentView, nat),
    ParseErrorView,
>
    decreases ts, remaining(ts, pos), 11nat,
{
    if lifetime_at(ts, pos) && !punct_at(ts, pos + 2, '+') {
        Ok((ArgumentView::Lifetime(span(ts, pos, 2)), 2))
    } else if const_start(ts, pos) {
        match host_count(Syntax::GenericArgument, ts, pos) {
            None => Err(failure(ErrorKind::InvalidGenericArgument, pos)),
            Some(n) => Ok((ArgumentView::Const(span(ts, pos, n)), n)),
        }
    } else {
        match special_type_at(ts, pos) {
            Err(e) => Err(e),
            Ok((ty, n)) => match hook_after(ts, pos + n, ty is Def) {
                Err(e) => Err(e),
                Ok((fish, m)) => if ty is Type && (punct_at(ts, pos + n, '=') || punct_at(
                    ts,
                    pos + n,
                    ':',
                )) {
                    match host_count(Syntax::GenericArgument, ts, pos) {
                        Some(k) => if k <= n {
                            Err(failure(ErrorKind::InvalidGenericArgument, pos + n))
                        } else if punct_at(ts, pos + n, ':') {
                            Ok((ArgumentView::Constraint(span(ts, pos, k)), k))
                        } else if const_start(ts, pos + n + 1) {
                            Ok((ArgumentView::AssocConst(span(ts, pos, k)), k))
                        } else {
                            Ok((ArgumentView::AssocType(span(ts, pos, k)), k))
                        },
                        None => Err(failure(ErrorKind::InvalidGenericArgument, pos + n)),
                    }
                } else {
                    Ok((ArgumentView::Type(ty, fish), n + m))
                },
            },
        }
    }
}

/// A definition: attributes, visibility, `struct` or `enum`, a name,
/// generic parameters and the body.
#[verifier::opaque]
pub open spec fn special_at(ts: Seq<TokenView>, pos: int) -> Result<
    (SpecialView, nat),
    ParseErrorView,
>
    decreases ts, remaining(ts, pos), 8nat,
{
    match composites_from(ts, pos, Seq::empty()) {
        Err(e) => Err(e),
        Ok((attrs, n1)) => match host_count(Syntax::Visibility, ts, pos + n1) {
            None => Err(failure(ErrorKind::InvalidVisibility, pos + n1)),
            Some(n2) => {
                let p = pos + n1 + n2;
                if word_at(ts, p, "union"@) {
                    Err(failure(ErrorKind::UnsupportedUnion, p))
                } else if !(word_at(ts, p, "struct"@) || word_at(ts, p, "enum"@)) {
                    Err(failure(ErrorKind::ExpectedDefinition, p))
                } else if !ident_at(ts, p + 1) {
                    Err(failure(ErrorKind::ExpectedIdent, p + 1))
                } else {
                    match host_count(Syntax::Generics, ts, p + 2) {
                        None => Err(failure(ErrorKind::InvalidGenerics, p + 2)),
                        Some(n3) => {
                            let q = p + 2 + n3;
                            match (if word_at(ts, p, "struct"@) {
                                data_struct_at(ts, q)
                            } else {
                                data_enum_at(ts, q)
                            }) {
                                Err(e) => Err(e),
                                Ok(((where_clause, body), n4)) => Ok(
                                    (
                                        SpecialView {
                                            attrs,
                                            vis: span(ts, pos + n1, n2),
                                            ident: ts[p + 1]->Ident_0,
                                            generics: span(ts, p + 2, n3),
                                            where_clause,
                                            body,
                                        },
                                        n1 + n2 + 2 + n3 + n4,
                                    ),
                                ),
                            }
                        },
                    }
                }
            },
        },
    }
}

/// Named fields: a group in braces, all of whose tokens are fields with
/// names.
#[verifier::opaque]
pub open spec fn named_fields_at(ts: Seq<TokenView>, pos: int) -> Result<
    (Seq<FieldView>, nat),
    ParseErrorView,
>
    decreases ts, remaining(ts, pos), 5nat,
{
    if !group_at(ts, pos, Delimiter::Brace) {
        Err(failure(ErrorKind::ExpectedBraces, pos))
    } else {
        match fields_from(ts[pos]->Group_1, 0, true, Seq::empty()) {
            Err(e) => Err(inside(e, pos)),
            Ok(list) => Ok((list, 1)),
        }
    }
}

/// Unnamed fields: a group in parentheses, all of whose tokens are fields
/// without names.
#[verifier::opaque]
pub open spec fn unnamed_fields_at(ts: Seq<TokenView>, pos: int) -> Result<
    (Seq<FieldView>, nat),
    ParseErrorView,
>
    decreases ts, remaining(ts, pos), 5nat,
{
    if !group_at(ts, pos, Delimiter::Parenthesis) {
        Err(failure(ErrorKind::ExpectedParentheses, pos))
    } else {
        match fields_from(ts[pos]->Group_1, 0, false, Seq::empty()) {
            Err(e) => Err(inside(e, pos)),
            Ok(list) => Ok((list, 1)),
        }
    }
}

/// The body of a `struct` with unnamed fields: the fields in parentheses,
/// then an optional `where` clause and an optional semicolon.
#[verifier::opaque]
pub open spec fn tuple_struct_at(ts: Seq<TokenView>, pos: int) -> Result<
    ((Seq<TokenView>, BodyView), nat),
    ParseErrorView,
>
    decreases ts, remaining(ts, pos), 6nat,
{
    match unnamed_fields_at(ts, pos) {
        Err(e) => Err(e),
        Ok((list, n)) => match where_at(ts, pos + 1) {
            Err(e) => Err(e),
            Ok((clause, n2)) => {
                let semi = punct_at(ts, pos + 1 + n2, ';');
                Ok(
                    (
                        (
                            clause,
                            BodyView::Struct {
                                fields: FieldsView::Unnamed(list),
                                semi_token: semi,
                            },
                        ),
                        1 + n2 + if semi {
                            1nat
                        } else {
                            0nat
                        },
                    ),
                )
            },
        },
    }
}

/// The rest of a `struct` after its generic parameters: the `where` clause
/// and the body. Without a `where` clause before them, unnamed fields can
/// follow, and the clause after them.
#[verifier::opaque]
pub open spec fn data_struct_at(ts: Seq<TokenView>, pos: int) -> Result<
    ((Seq<TokenView>, BodyView), nat),
    ParseErrorView,
>
    decreases ts, remaining(ts, pos), 7nat,
{
    match where_at(ts, pos) {
        Err(e) => Err(e),
        Ok((clause, n1)) => {
            let p = pos + n1;
            if n1 == 0 && group_at(ts, p, Delimiter::Parenthesis) {
                tuple_struct_at(ts, p)
            } else if group_at(ts, p, Delimiter::Brace) {
                match named_fields_at(ts, p) {
                    Err(e) => Err(e),
                    Ok((list, n)) => Ok(
                        (
                            (
                                clause,
                                BodyView::Struct {
                                    fields: FieldsView::Named(list),
                                    semi_token: false,
                                },
                            ),
                            n1 + 1,
                        ),
                    ),
                }
            } else if punct_at(ts, p, ';') {
                Ok(
                    (
                        (clause, BodyView::Struct { fields: FieldsView::Unit, semi_token: true }),
                        n1 + 1,
                    ),
                )
            } else {
                Ok(
                    (
                        (clause, BodyView::Struct { fields: FieldsView::Unit, semi_token: false }),
                        n1,
                    ),
                )
            }
        },
    }
}

/// The rest of an `enum` after its generic parameters: the `where` clause
/// and the variants between braces.
#[verifier::opaque]
pub open spec fn data_enum_at(ts: Seq<TokenView>, pos: int) -> Result<
    ((Seq<TokenView>, BodyView), nat),
    ParseErrorView,
>
    decreases ts, remaining(ts, pos), 6nat,
{
    match where_at(ts, pos) {
        Err(e) => Err(e),
        Ok((clause, n1)) => {
            let p = pos + n1;
            if !group_at(ts, p, Delimiter::Brace) {
                Err(failure(ErrorKind::ExpectedBraces, p))
            } else {
                match variants_from(ts[p]->Group_1, 0, Seq::empty()) {
                    Err(e) => Err(inside(e, p)),
                    Ok(variants) => Ok(((clause, BodyView::Enum { variants }), n1 + 1)),
                }
            }
        },
    }
}

/// The variants from index `pos` to the end of the tokens, after those of
/// `acc`: separated by `,`, with an optional `,` after the last.
#[verifier::opaque]
pub open spec fn variants_from(ts: Seq<TokenView>, pos: int, acc: Seq<VariantView>) -> Result<
    Seq<VariantView>,
    ParseErrorView,
>
    decreases ts, remaining(ts, pos), 12nat,
{
    if !(0 <= pos < ts.len()) {
        Ok(acc)
    } else {
        match variant_at(ts, pos) {
            Err(e) => Err(e),
            Ok((variant, n)) => if pos + n >= ts.len() {
                Ok(acc.push(variant))
            } else if !punct_at(ts, pos + n, ',') {
                Err(failure(ErrorKind::ExpectedComma, pos + n))
            } else {
                variants_from(ts, pos + n + 1, acc.push(variant))
            },
        }
    }
}

/// The fields of a variant, and how many tokens they take: a group in
/// braces or in parentheses, or nothing.
#[verifier::opaque]
pub open spec fn variant_fields_at(ts: Seq<TokenView>, pos: int) -> Result<
    (FieldsView, nat),
    ParseErrorView,
>
    decreases ts, remaining(ts, pos), 10nat,
{
    if group_at(ts, pos, Delimiter::Brace) {
        match named_fields_at(ts, pos) {
            Err(e) => Err(e),
            Ok((list, n)) => Ok((FieldsView::Named(list), 1)),
        }
    } else if group_at(ts, pos, Delimiter::Parenthesis) {
        match unnamed_fields_at(ts, pos) {
            Err(e) => Err(e),
            Ok((list, n)) => Ok((FieldsView::Unnamed(list), 1)),
        }
    } else {
        Ok((FieldsView::Unit, 0))
    }
}

/// The discriminant at index `pos`, if `=` stands there.
pub open spec fn discriminant_at(ts: Seq<TokenView>, pos: int) -> Result<
    (Option<Seq<TokenView>>, nat),
    ParseErrorView,
> {
    if punct_at(ts, pos, '=') {
        match host_count(Syntax::Expr, ts, pos + 1) {
            None => Err(failure(ErrorKind::InvalidExpr, pos + 1)),
            Some(n) => Ok((Some(span(ts, pos + 1, n)), 1 + n)),
        }
    } else {
        Ok((None, 0))
    }
}

/// One variant: attributes, a visibility that is read and dropped, a name,
/// fields and a discriminant.
#[verifier::opaque]
pub open spec fn variant_at(ts: Seq<TokenView>, pos: int) -> Result<
    (VariantView, nat),
    ParseErrorView,
>
    decreases ts, remaining(ts, pos), 11nat,
{
    match field_attributes_from(ts, pos, Seq::empty()) {
        Err(e) => Err(e),
        Ok((attrs, n1)) => match host_count(Syntax::Visibility, ts, pos + n1) {
            None => Err(failure(ErrorKind::InvalidVisibility, pos + n1)),
            Some(n2) => {
                let p = pos + n1 + n2;
                if !ident_at(ts, p) {
                    Err(failure(ErrorKind::ExpectedIdent, p))
                } else {
                    match variant_fields_at(ts, p + 1) {
                        Err(e) => Err(e),
                        Ok((fields, n3)) => match discriminant_at(ts, p + 1 + n3) {
                            Err(e) => Err(e),
                            Ok((discriminant, n4)) => Ok(
                                (
                                    VariantView {
                                        attrs,
                                        ident: ts[p]->Ident_0,
                                        fields,
                                        discriminant,
                                    },
                                    n1 + n2 + 1 + n3 + n4,
                                ),
                            ),
                        },
                    }
                }
            },
        },
    }
}

/// The fields from index `pos` to the end of the tokens, after those of
/// `acc`: separated by `,`, with an optional `,` after the last.
#[verifier::opaque]
pub open spec fn fields_from(
    ts: Seq<TokenView>,
    pos: int,
    named: bool,
    acc: Seq<FieldView>,
) -> Result<Seq<FieldView>, ParseErrorView>
    decreases ts, remaining(ts, pos), 12nat,
{
    if !(0 <= pos < ts.len()) {
        Ok(acc)
    } else {
        match field_at(ts, pos, named) {
            Err(e) => Err(e),
            Ok((field, n)) => if pos + n >= ts.len() {
                Ok(acc.push(field))
            } else if !punct_at(ts, pos + n, ',') {
                Err(failure(ErrorKind::ExpectedComma, pos + n))
            } else {
                fields_from(ts, pos + n + 1, named, acc.push(field))
            },
        }
    }
}

/// The name of a named field and the `:` after it, and how many tokens
/// they take; nothing for an unnamed field. A field named `_` cannot have a
/// definition as its type.
pub open spec fn field_name_at(ts: Seq<TokenView>, pos: int, named: bool) -> Result<
    (Option<Seq<char>>, nat),
    ParseErrorView,
> {
    if !named {
        Ok((None, 0))
    } else if !(word_at(ts, pos, "_"@) || ident_at(ts, pos)) {
        Err(failure(ErrorKind::ExpectedIdent, pos))
    } else if !punct_at(ts, pos + 1, ':') {
        Err(failure(ErrorKind::ExpectedColon, pos + 1))
    } else if word_at(ts, pos, "_"@) && (word_at(ts, pos + 2, "struct"@) || (word_at(
        ts,
        pos + 2,
        "union"@,
    ) && group_at(ts, pos + 3, Delimiter::Brace))) {
        Err(failure(ErrorKind::UnnamedFieldDefinition, pos + 2))
    } else {
        Ok((Some(ts[pos]->Ident_0), 2))
    }
}

/// One field: attributes, visibility, for a named field its name and `:`,
/// the type, and the generic hook that may follow a definition.
#[verifier::opaque]
pub open spec fn field_at(ts: Seq<TokenView>, pos: int, named: bool) -> Result<
    (FieldView, nat),
    ParseErrorView,
>
    decreases ts, remaining(ts, pos), 11nat,
{
    match field_attributes_from(ts, pos, Seq::empty()) {
        Err(e) => Err(e),
        Ok((attrs, n1)) => match host_count(Syntax::Visibility, ts, pos + n1) {
            None => Err(failure(ErrorKind::InvalidVisibility, pos + n1)),
            Some(n2) => match field_name_at(ts, pos + n1 + n2, named) {
                Err(e) => Err(e),
                Ok((ident, n3)) => match special_type_at(ts, pos + n1 + n2 + n3) {
                    Err(e) => Err(e),
                    Ok((ty, n4)) => match hook_after(ts, pos + n1 + n2 + n3 + n4, ty is Def) {
                        Err(e) => Err(e),
                        Ok((fish, n5)) => Ok(
                            (
                                FieldView {
                                    attrs,
                                    vis: span(ts, pos + n1, n2),
                                    ident,
                                    ty,
                                    fish,
                                },
                                n1 + n2 + n3 + n4 + n5,
                            ),
                        ),
                    },
                },
            },
        },
    }
}

/// The definition that the tokens spell out, all of them.
pub open spec fn definition_of(ts: Seq<TokenView>) -> Result<SpecialView, ParseErrorView> {
    match special_at(ts, 0) {
        Err(e) => Err(e),
        Ok((d, n)) => if n < ts.len() {
            Err(failure(ErrorKind::UnexpectedToken, n as int))
        } else {
            Ok(d)
        },
    }
}

} // verus!
