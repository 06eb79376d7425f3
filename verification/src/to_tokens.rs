//! Writing the grammar model out as tokens.

use vstd::prelude::*;
use crate::attributes::{Attribute, CompositeAttribute, FieldAttribute, NestedAttribute};
use crate::discriminant::Discriminant;
use crate::emit::{
    argument_list_tokens, argument_tokens, attribute_tokens, composite_tokens,
    definition_list_tokens, discriminant_tokens, field_attribute_meta, field_attribute_tokens,
    field_list_tokens, field_tokens, fields_tokens, hook_tokens, leading_tokens, name_tokens,
    path_separator, path_tokens, path_type_tokens, punct, qualified_as_tokens, qualified_segments,
    segment_list_tokens, segment_tokens, special_tokens, struct_body_tokens, type_tokens,
    variant_list_tokens, variant_tokens,
};
use crate::fish::FishHook;
use crate::special_data::{
    Body, Special, SpecialField, SpecialFields, SpecialVariant, lemma_field_list_view,
    lemma_variant_list_view,
};
use crate::token::{Delimiter, Token, TokenView, clone_tokens, extend_tokens, lemma_group_view};
use crate::ty::augmented::{
    GenericArgument, Path, PathArguments, PathSegment, QSelf, Type, TypePath,
    lemma_argument_list_view, lemma_segment_list_view,
};
use crate::ty::SpecialType;

verus! {

/// Concatenation does not depend on how it is grouped.
proof fn lemma_assoc(a: Seq<TokenView>, b: Seq<TokenView>, c: Seq<TokenView>)
    ensures
        (a + b) + c == a + (b + c),
{
    assert((a + b) + c =~= a + (b + c));
}

/// Appends one punctuation character.
fn push_punct(tokens: &mut Vec<Token>, c: char, joint: bool)
    ensures
        final(tokens).deep_view() == old(tokens).deep_view() + seq![TokenView::Punct(c, joint)],
{
    let ghost before = tokens.deep_view();
    tokens.push(Token::Punct(c, joint));
    assert(tokens.deep_view() =~= before + seq![TokenView::Punct(c, joint)]);
}

/// Appends `::`.
fn push_path_separator(tokens: &mut Vec<Token>)
    ensures
        final(tokens).deep_view() == old(tokens).deep_view() + path_separator(),
{
    let ghost before = tokens.deep_view();
    tokens.push(Token::Punct(':', true));
    tokens.push(Token::Punct(':', false));
    assert(tokens.deep_view() =~= before + path_separator());
}

/// Appends an identifier or keyword.
fn push_word(tokens: &mut Vec<Token>, word: String)
    ensures
        final(tokens).deep_view() == old(tokens).deep_view() + seq![TokenView::Ident(word@)],
{
    let ghost before = tokens.deep_view();
    tokens.push(Token::Ident(word));
    assert(tokens.deep_view() =~= before + seq![TokenView::Ident(word@)]);
}

/// Appends a group that holds `inner`.
fn push_group(tokens: &mut Vec<Token>, delimiter: Delimiter, inner: Vec<Token>)
    ensures
        final(tokens).deep_view() == old(tokens).deep_view() + seq![
            TokenView::Group(delimiter, inner.deep_view()),
        ],
{
    let ghost before = tokens.deep_view();
    proof {
        lemma_group_view(delimiter, inner);
    }
    tokens.push(Token::Group(delimiter, inner));
    assert(tokens.deep_view() =~= before + seq![TokenView::Group(delimiter, inner.deep_view())]);
}

/// Appends an attribute with the given payload: `#[meta]`.
fn push_attribute(tokens: &mut Vec<Token>, meta: &Vec<Token>)
    ensures
        final(tokens).deep_view() == old(tokens).deep_view() + attribute_tokens(meta.deep_view()),
{
    let ghost before = tokens.deep_view();
    push_punct(tokens, '#', false);
    push_group(tokens, Delimiter::Bracket, clone_tokens(meta));
    assert(tokens.deep_view() =~= before + attribute_tokens(meta.deep_view()));
}

impl Attribute {
    /// Appends the attribute: `#[meta]`.
    pub fn to_tokens(&self, tokens: &mut Vec<Token>)
        ensures
            final(tokens).deep_view() == old(tokens).deep_view() + attribute_tokens(
                self.deep_view(),
            ),
    {
        push_attribute(tokens, &self.meta);
    }
}

impl CompositeAttribute {
    /// Appends the attribute without its modifier: `#[meta]`.
    pub fn to_tokens(&self, tokens: &mut Vec<Token>)
        ensures
            final(tokens).deep_view() == old(tokens).deep_view() + attribute_tokens(
                self.deep_view().meta,
            ),
    {
        push_attribute(tokens, &self.meta);
    }
}

impl NestedAttribute {
    /// Appends the attribute as one of the definition that it is meant
    /// for: `#[meta]`.
    pub fn to_tokens(&self, tokens: &mut Vec<Token>)
        ensures
            final(tokens).deep_view() == old(tokens).deep_view() + attribute_tokens(
                self.deep_view().meta,
            ),
    {
        push_attribute(tokens, &self.meta);
    }
}

impl FieldAttribute {
    /// Appends the attribute: `#[meta]`.
    pub fn to_tokens(&self, tokens: &mut Vec<Token>)
        ensures
            final(tokens).deep_view() == old(tokens).deep_view() + attribute_tokens(
                field_attribute_meta(self.deep_view()),
            ),
    {
        match self {
            FieldAttribute::Nested(a) => a.to_tokens(tokens),
            FieldAttribute::Field(a) => a.to_tokens(tokens),
        }
    }
}

impl FishHook {
    /// Appends the generic arguments of the hook, without `||`.
    pub fn to_tokens(&self, tokens: &mut Vec<Token>)
        ensures
            final(tokens).deep_view() == old(tokens).deep_view() + self.deep_view(),
    {
        extend_tokens(tokens, &self.generics);
    }
}

impl Discriminant {
    /// Appends the discriminant: `=` and the expression.
    pub fn to_tokens(&self, tokens: &mut Vec<Token>)
        ensures
            final(tokens).deep_view() == old(tokens).deep_view() + discriminant_tokens(
                Some(self.deep_view()),
            ),
    {
        let ghost before = tokens.deep_view();
        push_punct(tokens, '=', false);
        extend_tokens(tokens, &self.expr);
        assert(tokens.deep_view() =~= before + (seq![punct('=')] + self.deep_view()));
    }
}

/// Appends the attributes of a definition, each without its modifier.
fn push_composites(tokens: &mut Vec<Token>, attrs: &Vec<CompositeAttribute>)
    ensures
        final(tokens).deep_view() == old(tokens).deep_view() + composite_tokens(
            attrs.deep_view(),
            attrs.len() as nat,
        ),
{
    let ghost before = tokens.deep_view();
    let ghost all = attrs.deep_view();
    let mut i: usize = 0;
    assert(before + composite_tokens(all, 0) =~= before);
    while i < attrs.len()
        invariant
            i <= attrs.len(),
            all == attrs.deep_view(),
            tokens.deep_view() == before + composite_tokens(all, i as nat),
        decreases attrs.len() - i,
    {
        assert(all[i as int] == attrs[i as int].deep_view());
        attrs[i].to_tokens(tokens);
        assert(before + composite_tokens(all, i as nat) + attribute_tokens(all[i as int].meta)
            =~= before + composite_tokens(all, (i + 1) as nat));
        i += 1;
    }
}

/// Appends the attributes of a field or variant.
fn push_field_attributes(tokens: &mut Vec<Token>, attrs: &Vec<FieldAttribute>)
    ensures
        final(tokens).deep_view() == old(tokens).deep_view() + field_attribute_tokens(
            attrs.deep_view(),
            attrs.len() as nat,
        ),
{
    let ghost before = tokens.deep_view();
    let ghost all = attrs.deep_view();
    let mut i: usize = 0;
    assert(before + field_attribute_tokens(all, 0) =~= before);
    while i < attrs.len()
        invariant
            i <= attrs.len(),
            all == attrs.deep_view(),
            tokens.deep_view() == before + field_attribute_tokens(all, i as nat),
        decreases attrs.len() - i,
    {
        assert(all[i as int] == attrs[i as int].deep_view());
        attrs[i].to_tokens(tokens);
        assert(before + field_attribute_tokens(all, i as nat) + attribute_tokens(
            field_attribute_meta(all[i as int]),
        ) =~= before + field_attribute_tokens(all, (i + 1) as nat));
        i += 1;
    }
}

/// Appends the generic hook that follows a type: `||` and the arguments.
fn push_hook(tokens: &mut Vec<Token>, fish: &Option<FishHook>)
    ensures
        final(tokens).deep_view() == old(tokens).deep_view() + hook_tokens(fish.deep_view()),
{
    let ghost before = tokens.deep_view();
    match fish {
        Some(hook) => {
            push_punct(tokens, '|', true);
            push_punct(tokens, '|', false);
            hook.to_tokens(tokens);
            assert(tokens.deep_view() =~= before + hook_tokens(fish.deep_view()));
        },
        None => {
            assert(before + hook_tokens(fish.deep_view()) =~= before);
        },
    }
}

impl Special {
    /// Appends the definition as it is written: attributes without their
    /// modifiers, visibility, keyword, name, generic parameters, `where`
    /// clause and body.
    pub fn to_tokens(&self, tokens: &mut Vec<Token>)
        ensures
            final(tokens).deep_view() == old(tokens).deep_view() + special_tokens(
                self.deep_view(),
            ),
        decreases self, 1nat,
    {
        let ghost before = tokens.deep_view();
        let ghost d = self.deep_view();
        assert(d.body == self.body.deep_view());
        push_composites(tokens, &self.attrs);
        extend_tokens(tokens, &self.vis);
        let ghost head = composite_tokens(d.attrs, d.attrs.len()) + d.vis;
        proof {
            lemma_assoc(before, composite_tokens(d.attrs, d.attrs.len()), d.vis);
        }
        match &self.body {
            Body::Struct(body) => {
                push_word(tokens, "struct".to_owned());
                push_word(tokens, self.ident.clone());
                extend_tokens(tokens, &self.generics);
                let ghost start = head + seq![
                    TokenView::Ident("struct"@),
                    TokenView::Ident(d.ident),
                ] + d.generics;
                assert(tokens.deep_view() =~= before + start);
                assert(body.fields.deep_view() == d.body->Struct_fields);
                self.struct_body_to_tokens(tokens, &body.fields);
                proof {
                    lemma_assoc(before, start, struct_body_tokens(d.where_clause, d.body->Struct_fields));
                }
            },
            Body::Enum(body) => {
                push_word(tokens, "enum".to_owned());
                push_word(tokens, self.ident.clone());
                extend_tokens(tokens, &self.generics);
                let ghost start = head + seq![
                    TokenView::Ident("enum"@),
                    TokenView::Ident(d.ident),
                ] + d.generics;
                assert(tokens.deep_view() =~= before + start);
                extend_tokens(tokens, &self.where_clause);
                proof {
                    lemma_assoc(before, start, d.where_clause);
                }
                let mut inner: Vec<Token> = Vec::new();
                assert(inner.deep_view() =~= Seq::empty());
                push_variants(&mut inner, &body.variants);
                proof {
                    lemma_variant_list_view(body.variants);
                    assert(Seq::<TokenView>::empty() + variant_list_tokens(
                        body.variants.deep_view(),
                        body.variants.len() as nat,
                    ) =~= variant_list_tokens(
                        body.variants.deep_view(),
                        body.variants.len() as nat,
                    ));
                }
                push_group(tokens, Delimiter::Brace, inner);
                proof {
                    lemma_assoc(
                        before,
                        start + d.where_clause,
                        seq![
                            TokenView::Group(
                                Delimiter::Brace,
                                variant_list_tokens(
                                    d.body->Enum_variants,
                                    d.body->Enum_variants.len(),
                                ),
                            ),
                        ],
                    );
                }
            },
        }
    }

    /// Appends what follows the generic parameters of a `struct`: the
    /// `where` clause and the fields, in the order that the kind of fields
    /// asks for, and the semicolon.
    fn struct_body_to_tokens(&self, tokens: &mut Vec<Token>, fields: &SpecialFields)
        ensures
            final(tokens).deep_view() == old(tokens).deep_view() + struct_body_tokens(
                self.where_clause.deep_view(),
                fields.deep_view(),
            ),
        decreases fields, 1nat,
    {
        let ghost before = tokens.deep_view();
        let ghost clause = self.where_clause.deep_view();
        match fields {
            SpecialFields::Named(_) => {
                extend_tokens(tokens, &self.where_clause);
                fields.to_tokens(tokens);
                proof {
                    lemma_assoc(before, clause, fields_tokens(fields.deep_view()));
                }
            },
            SpecialFields::Unnamed(_) => {
                fields.to_tokens(tokens);
                extend_tokens(tokens, &self.where_clause);
                proof {
                    lemma_assoc(before, fields_tokens(fields.deep_view()), clause);
                }
                push_punct(tokens, ';', false);
                proof {
                    lemma_assoc(
                        before,
                        fields_tokens(fields.deep_view()) + clause,
                        seq![punct(';')],
                    );
                }
            },
            SpecialFields::Unit => {
                extend_tokens(tokens, &self.where_clause);
                push_punct(tokens, ';', false);
                proof {
                    lemma_assoc(before, clause, seq![punct(';')]);
                }
            },
        }
    }
}

/// Appends the variants of an enum, separated by `,`.
fn push_variants(tokens: &mut Vec<Token>, variants: &Vec<SpecialVariant>)
    ensures
        final(tokens).deep_view() == old(tokens).deep_view() + variant_list_tokens(
            variants.deep_view(),
            variants.len() as nat,
        ),
    decreases variants,
{
    let ghost before = tokens.deep_view();
    let ghost all = variants.deep_view();
    let mut i: usize = 0;
    assert(before + variant_list_tokens(all, 0) =~= before);
    while i < variants.len()
        invariant
            i <= variants.len(),
            all == variants.deep_view(),
            tokens.deep_view() == before + variant_list_tokens(all, i as nat),
        decreases variants.len() - i,
    {
        assert(all[i as int] == variants[i as int].deep_view());
        if i > 0 {
            push_punct(tokens, ',', false);
        }
        variants[i].to_tokens(tokens);
        assert(tokens.deep_view() =~= before + (variant_list_tokens(all, i as nat) + (if i + 1
            > 1 {
            seq![punct(',')]
        } else {
            Seq::empty()
        }) + variant_tokens(all[i as int])));
        i += 1;
    }
}

impl SpecialVariant {
    /// Appends the variant: attributes, name, fields and discriminant.
    pub fn to_tokens(&self, tokens: &mut Vec<Token>)
        ensures
            final(tokens).deep_view() == old(tokens).deep_view() + variant_tokens(
                self.deep_view(),
            ),
        decreases self,
    {
        let ghost before = tokens.deep_view();
        let ghost v = self.deep_view();
        let ghost attrs = field_attribute_tokens(v.attrs, v.attrs.len());
        push_field_attributes(tokens, &self.attrs);
        push_word(tokens, self.ident.clone());
        proof {
            lemma_assoc(before, attrs, seq![TokenView::Ident(v.ident)]);
        }
        self.fields.to_tokens(tokens);
        proof {
            lemma_assoc(before, attrs + seq![TokenView::Ident(v.ident)], fields_tokens(v.fields));
        }
        push_discriminant(tokens, &self.discriminant);
        proof {
            lemma_assoc(
                before,
                attrs + seq![TokenView::Ident(v.ident)] + fields_tokens(v.fields),
                discriminant_tokens(v.discriminant),
            );
        }
    }
}

/// Appends the discriminant of a variant, if it has one.
fn push_discriminant(tokens: &mut Vec<Token>, discriminant: &Option<Discriminant>)
    ensures
        final(tokens).deep_view() == old(tokens).deep_view() + discriminant_tokens(
            discriminant.deep_view(),
        ),
{
    let ghost before = tokens.deep_view();
    match discriminant {
        Some(d) => d.to_tokens(tokens),
        None => {
            assert(before + Seq::<TokenView>::empty() =~= before);
        },
    }
}

impl SpecialFields {
    /// Appends the fields: in braces, in parentheses, or nothing.
    pub fn to_tokens(&self, tokens: &mut Vec<Token>)
        ensures
            final(tokens).deep_view() == old(tokens).deep_view() + fields_tokens(
                self.deep_view(),
            ),
        decreases self, 0nat,
    {
        let ghost before = tokens.deep_view();
        match self {
            SpecialFields::Named(fields) => {
                let mut inner: Vec<Token> = Vec::new();
                assert(inner.deep_view() =~= Seq::empty());
                push_fields(&mut inner, &fields.named);
                proof {
                    lemma_field_list_view(fields.named);
                    assert(Seq::<TokenView>::empty() + field_list_tokens(
                        fields.named.deep_view(),
                        fields.named.len() as nat,
                    ) =~= field_list_tokens(fields.named.deep_view(), fields.named.len() as nat));
                }
                push_group(tokens, Delimiter::Brace, inner);
            },
            SpecialFields::Unnamed(fields) => {
                let mut inner: Vec<Token> = Vec::new();
                assert(inner.deep_view() =~= Seq::empty());
                push_fields(&mut inner, &fields.unnamed);
                proof {
                    lemma_field_list_view(fields.unnamed);
                    assert(Seq::<TokenView>::empty() + field_list_tokens(
                        fields.unnamed.deep_view(),
                        fields.unnamed.len() as nat,
                    ) =~= field_list_tokens(
                        fields.unnamed.deep_view(),
                        fields.unnamed.len() as nat,
                    ));
                }
                push_group(tokens, Delimiter::Parenthesis, inner);
            },
            SpecialFields::Unit => {
                assert(before + fields_tokens(self.deep_view()) =~= before);
            },
        }
    }
}

/// Appends the fields of a list, separated by `,`.
fn push_fields(tokens: &mut Vec<Token>, list: &Vec<SpecialField>)
    ensures
        final(tokens).deep_view() == old(tokens).deep_view() + field_list_tokens(
            list.deep_view(),
            list.len() as nat,
        ),
    decreases list,
{
    let ghost before = tokens.deep_view();
    let ghost all = list.deep_view();
    let mut i: usize = 0;
    assert(before + field_list_tokens(all, 0) =~= before);
    while i < list.len()
        invariant
            i <= list.len(),
            all == list.deep_view(),
            tokens.deep_view() == before + field_list_tokens(all, i as nat),
        decreases list.len() - i,
    {
        assert(all[i as int] == list[i as int].deep_view());
        if i > 0 {
            push_punct(tokens, ',', false);
        }
        list[i].to_tokens(tokens);
        assert(tokens.deep_view() =~= before + (field_list_tokens(all, i as nat) + (if i + 1 > 1 {
            seq![punct(',')]
        } else {
            Seq::empty()
        }) + field_tokens(all[i as int])));
        i += 1;
    }
}

impl SpecialField {
    /// Appends the field: attributes, visibility, the name and `:` where it
    /// has a name, the type, and the generic hook.
    pub fn to_tokens(&self, tokens: &mut Vec<Token>)
        ensures
            final(tokens).deep_view() == old(tokens).deep_view() + field_tokens(self.deep_view()),
        decreases self,
    {
        let ghost before = tokens.deep_view();
        let ghost f = self.deep_view();
        let ghost attrs = field_attribute_tokens(f.attrs, f.attrs.len());
        push_field_attributes(tokens, &self.attrs);
        extend_tokens(tokens, &self.vis);
        proof {
            lemma_assoc(before, attrs, f.vis);
        }
        push_field_name(tokens, &self.ident);
        proof {
            lemma_assoc(before, attrs + f.vis, name_tokens(f.ident));
        }
        self.ty.to_tokens(tokens);
        proof {
            lemma_assoc(before, attrs + f.vis + name_tokens(f.ident), type_tokens(f.ty));
        }
        push_hook(tokens, &self.fish);
        proof {
            lemma_assoc(
                before,
                attrs + f.vis + name_tokens(f.ident) + type_tokens(f.ty),
                hook_tokens(f.fish),
            );
        }
    }
}

/// Appends the name of a named field and the `:` after it.
fn push_field_name(tokens: &mut Vec<Token>, ident: &Option<String>)
    ensures
        final(tokens).deep_view() == old(tokens).deep_view() + name_tokens(ident.deep_view()),
{
    let ghost before = tokens.deep_view();
    match ident {
        Some(name) => {
            push_word(tokens, name.clone());
            push_punct(tokens, ':', false);
            assert(tokens.deep_view() =~= before + seq![TokenView::Ident(name@), punct(':')]);
        },
        None => {
            assert(before + Seq::<TokenView>::empty() =~= before);
        },
    }
}

impl SpecialType {
    /// Appends the type: the tokens of an ordinary type as they are, a
    /// definition as it is written, a path with its generic arguments.
    pub fn to_tokens(&self, tokens: &mut Vec<Token>)
        ensures
            final(tokens).deep_view() == old(tokens).deep_view() + type_tokens(self.deep_view()),
        decreases self,
    {
        match self {
            SpecialType::Type(ty) => extend_tokens(tokens, ty),
            SpecialType::Def(special) => special.to_tokens(tokens),
            SpecialType::Augmented(path) => path.to_tokens(tokens),
        }
    }
}

impl Type {
    /// Appends the path type.
    pub fn to_tokens(&self, tokens: &mut Vec<Token>)
        ensures
            final(tokens).deep_view() == old(tokens).deep_view() + path_type_tokens(
                self.deep_view(),
            ),
        decreases self,
    {
        match self {
            Type::Path(path) => path.to_tokens(tokens),
        }
    }
}

impl TypePath {
    /// Appends the path type: `<T as Trait>::Name` with a qualified self
    /// type, else the path.
    pub fn to_tokens(&self, tokens: &mut Vec<Token>)
        ensures
            final(tokens).deep_view() == old(tokens).deep_view() + path_type_tokens(
                self.deep_view(),
            ),
        decreases self, 2nat,
    {
        let ghost before = tokens.deep_view();
        let ghost p = self.deep_view();
        proof {
            lemma_segment_list_view(self.path.segments);
            assert(p.path == self.path.deep_view());
        }
        match &self.qself {
            None => self.path.to_tokens(tokens),
            Some(q) => {
                assert(p.qself == Some(q.deep_view()));
                if q.position > 0 && self.path.segments.len() > 0 {
                    push_qualified_as(tokens, q, &self.path);
                } else {
                    push_punct(tokens, '<', false);
                    extend_tokens(tokens, &q.ty);
                    push_punct(tokens, '>', false);
                    self.path.to_tokens(tokens);
                    assert(tokens.deep_view() =~= before + (seq![punct('<')] + q.deep_view().ty
                        + seq![punct('>')] + path_tokens(p.path)));
                }
            },
        }
    }
}

impl Path {
    /// Appends the path: an optional `::`, then the segments separated by
    /// `::`.
    pub fn to_tokens(&self, tokens: &mut Vec<Token>)
        ensures
            final(tokens).deep_view() == old(tokens).deep_view() + path_tokens(self.deep_view()),
        decreases self, 0nat,
    {
        let ghost before = tokens.deep_view();
        let ghost p = self.deep_view();
        proof {
            lemma_segment_list_view(self.segments);
        }
        if self.leading_colon {
            push_path_separator(tokens);
        }
        push_segments(tokens, &self.segments, 0, self.segments.len());
        assert(tokens.deep_view() =~= before + (leading_tokens(p) + segment_list_tokens(
            p.segments,
            0,
            p.segments.len(),
        )));
    }
}

/// Appends a path whose first segments stand inside its qualified self
/// type.
fn push_qualified_as(tokens: &mut Vec<Token>, q: &QSelf, path: &Path)
    requires
        q.position > 0,
        path.segments.len() > 0,
    ensures
        final(tokens).deep_view() == old(tokens).deep_view() + qualified_as_tokens(
            q.deep_view(),
            path.deep_view(),
        ),
    decreases path, 1nat,
{
    let ghost before = tokens.deep_view();
    let ghost p = path.deep_view();
    proof {
        lemma_segment_list_view(path.segments);
    }
    let len = path.segments.len();
    let inside = if q.position <= len {
        q.position
    } else {
        len
    };
    assert(inside == qualified_segments(q.deep_view(), p));
    push_punct(tokens, '<', false);
    extend_tokens(tokens, &q.ty);
    push_word(tokens, "as".to_owned());
    let ghost first = seq![punct('<')] + q.deep_view().ty + seq![TokenView::Ident("as"@)];
    assert(tokens.deep_view() =~= before + first);
    if path.leading_colon {
        push_path_separator(tokens);
    }
    push_segments(tokens, &path.segments, 0, inside);
    push_punct(tokens, '>', false);
    let ghost second = first + leading_tokens(p) + segment_list_tokens(
        p.segments,
        0,
        inside as nat,
    ) + seq![punct('>')];
    assert(tokens.deep_view() =~= before + second);
    if inside < len {
        push_path_separator(tokens);
    }
    let ghost third = second + (if inside < len {
        path_separator()
    } else {
        Seq::empty()
    });
    assert(tokens.deep_view() =~= before + third);
    push_segments(tokens, &path.segments, inside, len);
    assert(tokens.deep_view() =~= before + (third + segment_list_tokens(
        p.segments,
        inside as nat,
        len as nat,
    )));
}

/// Appends the segments from index `from` up to, not including, index
/// `to`, separated by `::`.
fn push_segments(tokens: &mut Vec<Token>, segments: &Vec<PathSegment>, from: usize, to: usize)
    requires
        from <= to <= segments.len(),
    ensures
        final(tokens).deep_view() == old(tokens).deep_view() + segment_list_tokens(
            segments.deep_view(),
            from as nat,
            to as nat,
        ),
    decreases segments,
{
    let ghost before = tokens.deep_view();
    let ghost all = segments.deep_view();
    let mut i: usize = from;
    assert(before + segment_list_tokens(all, from as nat, from as nat) =~= before);
    while i < to
        invariant
            from <= i <= to <= segments.len(),
            all == segments.deep_view(),
            tokens.deep_view() == before + segment_list_tokens(all, from as nat, i as nat),
        decreases to - i,
    {
        assert(all[i as int] == segments[i as int].deep_view());
        if i > from {
            push_path_separator(tokens);
        }
        segments[i].to_tokens(tokens);
        assert(tokens.deep_view() =~= before + (segment_list_tokens(all, from as nat, i as nat)
            + (if i > from {
            path_separator()
        } else {
            Seq::empty()
        }) + segment_tokens(all[i as int])));
        i += 1;
    }
}

impl PathSegment {
    /// Appends the segment: the name, and the generic arguments between
    /// `<` and `>`.
    pub fn to_tokens(&self, tokens: &mut Vec<Token>)
        ensures
            final(tokens).deep_view() == old(tokens).deep_view() + segment_tokens(
                self.deep_view(),
            ),
        decreases self,
    {
        let ghost before = tokens.deep_view();
        let ghost s = self.deep_view();
        push_word(tokens, self.ident.clone());
        match &self.arguments {
            PathArguments::Empty => {
                assert(tokens.deep_view() =~= before + (seq![TokenView::Ident(s.ident)]
                    + Seq::<TokenView>::empty()));
            },
            PathArguments::AngleBracketed(a) => {
                proof {
                    lemma_argument_list_view(a.args);
                    assert(s.arguments == Some(a.deep_view()));
                }
                if a.colon2_token {
                    push_path_separator(tokens);
                }
                push_punct(tokens, '<', false);
                push_arguments(tokens, &a.args);
                push_punct(tokens, '>', false);
                assert(tokens.deep_view() =~= before + (seq![TokenView::Ident(s.ident)] + ((if
                    a.colon2_token {
                    path_separator()
                } else {
                    Seq::empty()
                }) + seq![punct('<')] + argument_list_tokens(
                    a.args.deep_view(),
                    a.args.len() as nat,
                ) + seq![punct('>')])));
            },
        }
    }
}

/// Appends generic arguments, separated by `,`.
fn push_arguments(tokens: &mut Vec<Token>, args: &Vec<GenericArgument>)
    ensures
        final(tokens).deep_view() == old(tokens).deep_view() + argument_list_tokens(
            args.deep_view(),
            args.len() as nat,
        ),
    decreases args,
{
    let ghost before = tokens.deep_view();
    let ghost all = args.deep_view();
    let mut i: usize = 0;
    assert(before + argument_list_tokens(all, 0) =~= before);
    while i < args.len()
        invariant
            i <= args.len(),
            all == args.deep_view(),
            tokens.deep_view() == before + argument_list_tokens(all, i as nat),
        decreases args.len() - i,
    {
        assert(all[i as int] == args[i as int].deep_view());
        if i > 0 {
            push_punct(tokens, ',', false);
        }
        args[i].to_tokens(tokens);
        assert(tokens.deep_view() =~= before + (argument_list_tokens(all, i as nat) + (if i + 1
            > 1 {
            seq![punct(',')]
        } else {
            Seq::empty()
        }) + argument_tokens(all[i as int])));
        i += 1;
    }
}

impl GenericArgument {
    /// Appends the generic argument.
    pub fn to_tokens(&self, tokens: &mut Vec<Token>)
        ensures
            final(tokens).deep_view() == old(tokens).deep_view() + argument_tokens(
                self.deep_view(),
            ),
        decreases self,
    {
        let ghost before = tokens.deep_view();
        match self {
            GenericArgument::Lifetime(t) => extend_tokens(tokens, t),
            GenericArgument::Const(t) => extend_tokens(tokens, t),
            GenericArgument::AssocType(t) => extend_tokens(tokens, t),
            GenericArgument::AssocConst(t) => extend_tokens(tokens, t),
            GenericArgument::Constraint(t) => extend_tokens(tokens, t),
            GenericArgument::Type(ty, fish) => {
                ty.to_tokens(tokens);
                push_hook(tokens, fish);
                assert(tokens.deep_view() =~= before + (type_tokens(ty.deep_view()) + hook_tokens(
                    fish.deep_view(),
                )));
            },
        }
    }
}

/// The tokens of the definitions of a list, one after the other.
pub fn definitions_to_tokens(list: &Vec<Special>) -> (tokens: Vec<Token>)
    ensures
        tokens.deep_view() == definition_list_tokens(list.deep_view(), list.len() as nat),
{
    let mut tokens: Vec<Token> = Vec::new();
    let ghost all = list.deep_view();
    let mut i: usize = 0;
    assert(tokens.deep_view() =~= definition_list_tokens(all, 0));
    while i < list.len()
        invariant
            i <= list.len(),
            all == list.deep_view(),
            tokens.deep_view() == definition_list_tokens(all, i as nat),
        decreases list.len() - i,
    {
        assert(all[i as int] == list[i as int].deep_view());
        list[i].to_tokens(&mut tokens);
        i += 1;
    }
    tokens
}

} // verus!
