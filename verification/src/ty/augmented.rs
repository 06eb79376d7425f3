//! Path types whose generic arguments may hold definitions.

use vstd::prelude::*;
use crate::attributes::CompositeAttribute;
use crate::fish::FishHook;
use crate::special_data::{Special, SpecialView};

use crate::grammar::qualified;

use crate::token::{Token, TokenView, clone_tokens};
use crate::unpack::{
    UnpackError, UnpackErrorView, agrees, lemma_argument_failure_stays, lemma_segment_failure_stays,
    unpack_angle_bracketed, unpack_argument, unpack_arguments, unpack_path, unpack_path_arguments,
    unpack_path_type, unpack_segment, unpack_segments,
};
use crate::unpack_context::UnpackContext;
use crate::ty::{SpecialType, SpecialTypeView, type_view};

verus! {

/// A type that this grammar reads itself.
#[derive(Debug)]
pub enum Type {
    Path(TypePath),
}

/// A path type, with an optional qualified self type: `<T as Trait>::Name`.
#[derive(Debug)]
pub struct TypePath {
    pub qself: Option<QSelf>,
    pub path: Path,
}

/// The qualified self type of a path.
#[derive(Debug)]
pub struct QSelf {
    /// The type between `<` and `as` or `>`.
    pub ty: Vec<Token>,
    /// How many segments of the path stand between `as` and `>`.
    pub position: usize,
    /// Whether `as` is written.
    pub as_token: bool,
}

/// A path: segments separated by `::`.
#[derive(Debug)]
pub struct Path {
    /// Whether the path starts with `::`.
    pub leading_colon: bool,
    pub segments: Vec<PathSegment>,
}

/// One segment of a path.
#[derive(Debug)]
pub struct PathSegment {
    pub ident: String,
    pub arguments: PathArguments,
}

/// The generic arguments of a path segment.
#[derive(Debug)]
pub enum PathArguments {
    /// No generic arguments.
    Empty,
    /// `<A, B>`
    AngleBracketed(AngleBracketedGenericArguments),
}

/// Generic arguments between `<` and `>`.
#[derive(Debug)]
pub struct AngleBracketedGenericArguments {
    /// Whether `::` stands before `<`.
    pub colon2_token: bool,
    pub args: Vec<GenericArgument>,
}

/// One generic argument.
#[derive(Debug)]
pub enum GenericArgument {
    /// A lifetime.
    Lifetime(Vec<Token>),
    /// A type, which may be a definition, with the generic hook that
    /// follows a definition.
    Type(SpecialType, Option<FishHook>),
    /// A constant expression.
    Const(Vec<Token>),
    /// A binding of an associated type: `Item = T`.
    AssocType(Vec<Token>),
    /// A binding of an associated constant: `N = 1`.
    AssocConst(Vec<Token>),
    /// A bound on an associated type: `Item: Trait`.
    Constraint(Vec<Token>),
}

/// The mathematical value of a [`QSelf`].
pub struct QSelfView {
    pub ty: Seq<TokenView>,
    pub position: usize,
    pub as_token: bool,
}

/// The mathematical value of a [`Type`] and of a [`TypePath`].
pub struct TypePathView {
    pub qself: Option<QSelfView>,
    pub path: PathView,
}

/// The mathematical value of a [`Path`].
pub struct PathView {
    pub leading_colon: bool,
    pub segments: Seq<SegmentView>,
}

/// The mathematical value of a [`PathSegment`].
pub struct SegmentView {
    pub ident: Seq<char>,
    pub arguments: Option<ArgumentsView>,
}

/// The mathematical value of an [`AngleBracketedGenericArguments`].
pub struct ArgumentsView {
    pub colon2_token: bool,
    pub args: Seq<ArgumentView>,
}

/// The mathematical value of a [`GenericArgument`].
pub enum ArgumentView {
    Lifetime(Seq<TokenView>),
    Type(SpecialTypeView, Option<Seq<TokenView>>),
    Const(Seq<TokenView>),
    AssocType(Seq<TokenView>),
    AssocConst(Seq<TokenView>),
    Constraint(Seq<TokenView>),
}

impl DeepView for QSelf {
    type V = QSelfView;

    open spec fn deep_view(&self) -> QSelfView {
        QSelfView { ty: self.ty.deep_view(), position: self.position, as_token: self.as_token }
    }
}

/// The value of a type.
pub open spec fn path_type_view(t: Type) -> TypePathView
    decreases t,
{
    match t {
        Type::Path(p) => type_path_view(p),
    }
}

/// The value of a path type.
pub open spec fn type_path_view(p: TypePath) -> TypePathView
    decreases p,
{
    TypePathView { qself: p.qself.deep_view(), path: path_view(p.path) }
}

/// The value of a path.
pub open spec fn path_view(p: Path) -> PathView
    decreases p,
{
    PathView { leading_colon: p.leading_colon, segments: segment_list_view(p.segments@) }
}

/// The values of the segments of a list.
pub open spec fn segment_list_view(ss: Seq<PathSegment>) -> Seq<SegmentView>
    decreases ss,
{
    Seq::new(
        ss.len(),
        |i: int|
            if 0 <= i < ss.len() {
                segment_view(ss[i])
            } else {
                arbitrary()
            },
    )
}

/// The value of a path segment.
pub open spec fn segment_view(s: PathSegment) -> SegmentView
    decreases s,
{
    SegmentView {
        ident: s.ident@,
        arguments: match s.arguments {
            PathArguments::Empty => None,
            PathArguments::AngleBracketed(a) => Some(arguments_view(a)),
        },
    }
}

/// The value of a list of generic arguments.
pub open spec fn arguments_view(a: AngleBracketedGenericArguments) -> ArgumentsView
    decreases a,
{
    ArgumentsView { colon2_token: a.colon2_token, args: argument_list_view(a.args@) }
}

/// The values of the generic arguments of a list.
pub open spec fn argument_list_view(args: Seq<GenericArgument>) -> Seq<ArgumentView>
    decreases args,
{
    Seq::new(
        args.len(),
        |i: int|
            if 0 <= i < args.len() {
                argument_view(args[i])
            } else {
                arbitrary()
            },
    )
}

/// The value of a generic argument.
pub open spec fn argument_view(a: GenericArgument) -> ArgumentView
    decreases a,
{
    match a {
        GenericArgument::Lifetime(t) => ArgumentView::Lifetime(t.deep_view()),
        GenericArgument::Type(ty, fish) => ArgumentView::Type(type_view(ty), fish.deep_view()),
        GenericArgument::Const(t) => ArgumentView::Const(t.deep_view()),
        GenericArgument::AssocType(t) => ArgumentView::AssocType(t.deep_view()),
        GenericArgument::AssocConst(t) => ArgumentView::AssocConst(t.deep_view()),
        GenericArgument::Constraint(t) => ArgumentView::Constraint(t.deep_view()),
    }
}

impl DeepView for Type {
    type V = TypePathView;

    open spec fn deep_view(&self) -> TypePathView {
        path_type_view(*self)
    }
}

impl DeepView for TypePath {
    type V = TypePathView;

    open spec fn deep_view(&self) -> TypePathView {
        type_path_view(*self)
    }
}

impl DeepView for Path {
    type V = PathView;

    open spec fn deep_view(&self) -> PathView {
        path_view(*self)
    }
}

impl DeepView for PathSegment {
    type V = SegmentView;

    open spec fn deep_view(&self) -> SegmentView {
        segment_view(*self)
    }
}

impl DeepView for AngleBracketedGenericArguments {
    type V = ArgumentsView;

    open spec fn deep_view(&self) -> ArgumentsView {
        arguments_view(*self)
    }
}

impl DeepView for GenericArgument {
    type V = ArgumentView;

    open spec fn deep_view(&self) -> ArgumentView {
        argument_view(*self)
    }
}

impl From<String> for PathSegment {
    /// The segment of the given name, without generic arguments.
    fn from(ident: String) -> (r: PathSegment) {
        PathSegment { ident, arguments: PathArguments::Empty }
    }
}

impl vstd::std_specs::convert::FromSpecImpl<String> for PathSegment {
    open spec fn obeys_from_spec() -> bool {
        true
    }

    open spec fn from_spec(ident: String) -> PathSegment {
        PathSegment { ident, arguments: PathArguments::Empty }
    }
}

impl PathArguments {
    /// Whether the segment has no generic arguments.
    pub fn is_none(&self) -> (r: bool)
        ensures
            r == (self is Empty),
    {
        match self {
            PathArguments::Empty => true,
            PathArguments::AngleBracketed(_) => false,
        }
    }
}

/// The value of a list of segments holds the values of its segments.
pub proof fn lemma_segment_list_view(ss: Vec<PathSegment>)
    ensures
        segment_list_view(ss@) == ss.deep_view(),
{
    assert(segment_list_view(ss@) =~= ss.deep_view());
}

/// The value of a list of generic arguments holds the values of its
/// arguments.
pub proof fn lemma_argument_list_view(args: Vec<GenericArgument>)
    ensures
        argument_list_view(args@) == args.deep_view(),
{
    assert(argument_list_view(args@) =~= args.deep_view());
}

impl Type {
    /// Takes the definitions out of the type's generic arguments: the type
    /// rewritten, and the flat lists of the definitions.
    pub fn unpack(&self, unpack_context: &UnpackContext, from_variant: &Vec<CompositeAttribute>)
        -> (r: Result<(Type, Vec<Special>), UnpackError>)
        ensures
            agrees(
                r,
                unpack_path_type(
                    self.deep_view(),
                    unpack_context.deep_view(),
                    from_variant.deep_view(),
                ),
            ),
        decreases self,
    {
        match self {
            Type::Path(ty) => match ty.unpack(unpack_context, from_variant) {
                Ok((ty, definitions)) => Ok((Type::Path(ty), definitions)),
                Err(e) => Err(e),
            },
        }
    }
}

impl TypePath {
    /// Takes the definitions out of the path's generic arguments.
    pub fn unpack(&self, unpack_context: &UnpackContext, from_variant: &Vec<CompositeAttribute>)
        -> (r: Result<(TypePath, Vec<Special>), UnpackError>)
        ensures
            agrees(
                r,
                unpack_path_type(
                    self.deep_view(),
                    unpack_context.deep_view(),
                    from_variant.deep_view(),
                ),
            ),
        decreases self,
    {
        let (path, definitions) = match self.path.unpack(unpack_context, from_variant) {
            Ok(pair) => pair,
            Err(e) => {
                return Err(e);
            },
        };
        let qself = match &self.qself {
            Some(q) => Some(
                QSelf { ty: clone_tokens(&q.ty), position: q.position, as_token: q.as_token },
            ),
            None => None,
        };
        Ok((TypePath { qself, path }, definitions))
    }
}

impl Path {
    /// Takes the definitions out of the generic arguments of each segment,
    /// in order.
    pub fn unpack(&self, unpack_context: &UnpackContext, from_variant: &Vec<CompositeAttribute>)
        -> (r: Result<(Path, Vec<Special>), UnpackError>)
        ensures
            agrees(
                r,
                unpack_path(
                    self.deep_view(),
                    unpack_context.deep_view(),
                    from_variant.deep_view(),
                ),
            ),
        decreases self,
    {
        let mut done: Vec<PathSegment> = Vec::new();
        let mut definitions: Vec<Special> = Vec::new();
        let ghost all = self.segments.deep_view();
        let ghost inherited = unpack_context.deep_view();
        let ghost next = from_variant.deep_view();
        proof {
            lemma_segment_list_view(self.segments);
        }
        assert(done.deep_view() =~= Seq::empty());
        assert(definitions.deep_view() =~= Seq::empty());
        let mut i: usize = 0;
        while i < self.segments.len()
            invariant
                i <= self.segments.len(),
                all == self.segments.deep_view(),
                all == segment_list_view(self.segments@),
                inherited == unpack_context.deep_view(),
                next == from_variant.deep_view(),
                unpack_segments(all, i as nat, inherited, next) == Ok::<
                    (Seq<SegmentView>, Seq<SpecialView>),
                    UnpackErrorView,
                >((done.deep_view(), definitions.deep_view())),
            decreases self.segments.len() - i,
        {
            assert(all[i as int] == self.segments[i as int].deep_view());
            let (segment, mut more) = match self.segments[i].unpack(unpack_context, from_variant) {
                Ok(pair) => pair,
                Err(e) => {
                    proof {
                        lemma_segment_failure_stays(
                            all,
                            (i + 1) as nat,
                            all.len(),
                            inherited,
                            next,
                        );
                    }
                    return Err(e);
                },
            };
            let ghost done_before = done.deep_view();
            let ghost definitions_before = definitions.deep_view();
            let ghost more_view = more.deep_view();
            let ghost segment_view = segment.deep_view();
            done.push(segment);
            definitions.append(&mut more);
            assert(done.deep_view() =~= done_before.push(segment_view));
            assert(definitions.deep_view() =~= definitions_before + more_view);
            i += 1;
        }
        proof {
            lemma_segment_list_view(done);
        }
        Ok((Path { leading_colon: self.leading_colon, segments: done }, definitions))
    }
}

impl PathSegment {
    /// Takes the definitions out of the segment's generic arguments.
    pub fn unpack(&self, unpack_context: &UnpackContext, from_variant: &Vec<CompositeAttribute>)
        -> (r: Result<(PathSegment, Vec<Special>), UnpackError>)
        ensures
            agrees(
                r,
                unpack_segment(
                    self.deep_view(),
                    unpack_context.deep_view(),
                    from_variant.deep_view(),
                ),
            ),
        decreases self,
    {
        match self.arguments.unpack(unpack_context, from_variant) {
            Ok((arguments, definitions)) => Ok(
                (PathSegment { ident: self.ident.clone(), arguments }, definitions),
            ),
            Err(e) => Err(e),
        }
    }
}

/// The value of the generic arguments of a segment.
pub open spec fn path_arguments_view(a: PathArguments) -> Option<ArgumentsView> {
    match a {
        PathArguments::Empty => None,
        PathArguments::AngleBracketed(a) => Some(arguments_view(a)),
    }
}

impl PathArguments {
    /// Takes the definitions out of the generic arguments.
    pub fn unpack(&self, unpack_context: &UnpackContext, from_variant: &Vec<CompositeAttribute>)
        -> (r: Result<(PathArguments, Vec<Special>), UnpackError>)
        ensures
            match r {
                Ok((arguments, definitions)) => unpack_path_arguments(
                    path_arguments_view(*self),
                    unpack_context.deep_view(),
                    from_variant.deep_view(),
                ) == Ok::<(Option<ArgumentsView>, Seq<SpecialView>), UnpackErrorView>(
                    (path_arguments_view(arguments), definitions.deep_view()),
                ),
                Err(e) => unpack_path_arguments(
                    path_arguments_view(*self),
                    unpack_context.deep_view(),
                    from_variant.deep_view(),
                ) == Err::<(Option<ArgumentsView>, Seq<SpecialView>), UnpackErrorView>(
                    e.deep_view(),
                ),
            },
        decreases self,
    {
        match self {
            PathArguments::Empty => {
                let definitions: Vec<Special> = Vec::new();
                assert(definitions.deep_view() =~= Seq::empty());
                Ok((PathArguments::Empty, definitions))
            },
            PathArguments::AngleBracketed(a) => match a.unpack(unpack_context, from_variant) {
                Ok((a, definitions)) => Ok((PathArguments::AngleBracketed(a), definitions)),
                Err(e) => Err(e),
            },
        }
    }
}

impl AngleBracketedGenericArguments {
    /// Takes the definitions out of the generic arguments, in order.
    pub fn unpack(&self, unpack_context: &UnpackContext, from_variant: &Vec<CompositeAttribute>)
        -> (r: Result<(AngleBracketedGenericArguments, Vec<Special>), UnpackError>)
        ensures
            agrees(
                r,
                unpack_angle_bracketed(
                    self.deep_view(),
                    unpack_context.deep_view(),
                    from_variant.deep_view(),
                ),
            ),
        decreases self,
    {
        let mut done: Vec<GenericArgument> = Vec::new();
        let mut definitions: Vec<Special> = Vec::new();
        let ghost all = self.args.deep_view();
        let ghost inherited = unpack_context.deep_view();
        let ghost next = from_variant.deep_view();
        proof {
            lemma_argument_list_view(self.args);
        }
        assert(done.deep_view() =~= Seq::empty());
        assert(definitions.deep_view() =~= Seq::empty());
        let mut i: usize = 0;
        while i < self.args.len()
            invariant
                i <= self.args.len(),
                all == self.args.deep_view(),
                all == argument_list_view(self.args@),
                inherited == unpack_context.deep_view(),
                next == from_variant.deep_view(),
                unpack_arguments(all, i as nat, inherited, next) == Ok::<
                    (Seq<ArgumentView>, Seq<SpecialView>),
                    UnpackErrorView,
                >((done.deep_view(), definitions.deep_view())),
            decreases self.args.len() - i,
        {
            assert(all[i as int] == self.args[i as int].deep_view());
            let (argument, mut more) = match self.args[i].unpack(unpack_context, from_variant) {
                Ok(pair) => pair,
                Err(e) => {
                    proof {
                        lemma_argument_failure_stays(
                            all,
                            (i + 1) as nat,
                            all.len(),
                            inherited,
                            next,
                        );
                    }
                    return Err(e);
                },
            };
            let ghost done_before = done.deep_view();
            let ghost definitions_before = definitions.deep_view();
            let ghost more_view = more.deep_view();
            let ghost argument_view = argument.deep_view();
            done.push(argument);
            definitions.append(&mut more);
            assert(done.deep_view() =~= done_before.push(argument_view));
            assert(definitions.deep_view() =~= definitions_before + more_view);
            i += 1;
        }
        proof {
            lemma_argument_list_view(done);
        }
        Ok(
            (
                AngleBracketedGenericArguments { colon2_token: self.colon2_token, args: done },
                definitions,
            ),
        )
    }
}

impl GenericArgument {
    /// Takes the definitions out of a generic argument.
    pub fn unpack(&self, unpack_context: &UnpackContext, from_variant: &Vec<CompositeAttribute>)
        -> (r: Result<(GenericArgument, Vec<Special>), UnpackError>)
        ensures
            agrees(
                r,
                unpack_argument(
                    self.deep_view(),
                    unpack_context.deep_view(),
                    from_variant.deep_view(),
                ),
            ),
        decreases self,
    {
        let definitions: Vec<Special> = Vec::new();
        assert(definitions.deep_view() =~= Seq::empty());
        match self {
            GenericArgument::Lifetime(v) => Ok(
                (GenericArgument::Lifetime(clone_tokens(v)), definitions),
            ),
            GenericArgument::Const(v) => Ok((GenericArgument::Const(clone_tokens(v)), definitions)),
            GenericArgument::AssocType(v) => Ok(
                (GenericArgument::AssocType(clone_tokens(v)), definitions),
            ),
            GenericArgument::AssocConst(v) => Ok(
                (GenericArgument::AssocConst(clone_tokens(v)), definitions),
            ),
            GenericArgument::Constraint(v) => Ok(
                (GenericArgument::Constraint(clone_tokens(v)), definitions),
            ),
            GenericArgument::Type(ty, fish) => match ty.unpack(fish, unpack_context, from_variant) {
                Ok((ty, definitions)) => Ok((GenericArgument::Type(ty, None), definitions)),
                Err(e) => Err(e),
            },
        }
    }
}

} // verus!
