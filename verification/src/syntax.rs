//! What the derive reads of the struct that it is put on.

use proc_macro2::{Ident, TokenStream};
use vstd::prelude::*;

use crate::ident::{is_native, named, Named};
use crate::read::message_model;
use crate::token::{tokens, Tok};

verus! {

/// A struct definition.
pub struct ItemStruct {
    pub attrs: Vec<Attr>,
    pub vis: TokenStream,
    pub ident: Ident,
    /// Whether the fields stand between braces and have names.
    pub named: bool,
    pub fields: Vec<Field>,
}

/// A field, with its name where it has one.
pub struct Field {
    pub attrs: Vec<Attr>,
    pub ident: Option<Ident>,
    pub ty: TypeTree,
}

/// An attribute: its path, what follows the path, and the whole of it as written.
pub struct Attr {
    pub path: ItemPath,
    pub tokens: TokenStream,
    pub whole: TokenStream,
}

/// A path.
pub struct ItemPath {
    pub leading_colon: bool,
    pub segments: Vec<PathSegment>,
}

/// A segment of a path: its name, and whether generic arguments follow.
pub struct PathSegment {
    pub ident: Ident,
    pub has_args: bool,
}

/// A type, with the tokens it is written with.
pub struct TypeTree {
    pub tokens: TokenStream,
    pub kind: TypeKind,
}

/// What a type is made of, as far as the derive looks.
pub enum TypeKind {
    /// A path, of which the last segment is kept.
    Path(Option<Segment>),
    /// A tuple of types.
    Tuple(Vec<TypeTree>),
    /// An array: the type of its items and its length.
    Array(Box<TypeTree>, TokenStream),
    /// Any other type.
    Other,
}

/// The last segment of a path, with its generic arguments where they stand in angle brackets.
pub struct Segment {
    pub tokens: TokenStream,
    pub args: Option<Vec<Argument>>,
}

/// A generic argument.
pub enum Argument {
    Type(syn::Type),
    Const(TokenStream),
    Other(TokenStream),
}

/// An expression in parentheses: `expr: ty`, each side kept where it is a path, or anything else.
pub enum Paren {
    Ascription(Option<ItemPath>, Option<ItemPath>),
    Other,
}

#[verifier::ext_equal]
pub struct StructModel {
    pub attrs: Seq<AttrModel>,
    pub vis: Seq<Tok>,
    pub ident: Named,
    /// Whether the name is the compiler's own identifier.
    pub native: bool,
    pub named: bool,
    pub fields: Seq<FieldModel>,
}

#[verifier::ext_equal]
pub struct FieldModel {
    pub attrs: Seq<AttrModel>,
    pub ident: Option<Named>,
    /// Whether the name is the compiler's own identifier.
    pub native: bool,
    pub ty: TypeModel,
}

#[verifier::ext_equal]
pub struct AttrModel {
    pub path: ItemPathModel,
    pub tokens: Seq<Tok>,
    pub whole: Seq<Tok>,
}

#[verifier::ext_equal]
pub struct ItemPathModel {
    pub leading_colon: bool,
    pub segments: Seq<PathSegmentModel>,
}

#[verifier::ext_equal]
pub struct PathSegmentModel {
    pub ident: Named,
    pub has_args: bool,
}

#[verifier::ext_equal]
pub struct TypeModel {
    pub tokens: Seq<Tok>,
    pub kind: TypeKindModel,
}

#[verifier::ext_equal]
pub enum TypeKindModel {
    Path(Option<SegmentModel>),
    Tuple(Seq<TypeModel>),
    Array(Box<TypeModel>, Seq<Tok>),
    Other,
}

#[verifier::ext_equal]
pub struct SegmentModel {
    pub tokens: Seq<Tok>,
    pub args: Option<Seq<ArgumentModel>>,
}

/// The type of a message: how it is written, and which type it is. Equal types have the same number.
#[verifier::ext_equal]
pub struct MessageModel {
    pub tokens: Seq<Tok>,
    pub class: int,
}

#[verifier::ext_equal]
pub enum ArgumentModel {
    Type(MessageModel),
    Const(Seq<Tok>),
    Other(Seq<Tok>),
}

#[verifier::ext_equal]
pub enum ParenModel {
    Ascription(Option<ItemPathModel>, Option<ItemPathModel>),
    Other,
}

impl View for PathSegment {
    type V = PathSegmentModel;

    open spec fn view(&self) -> PathSegmentModel {
        PathSegmentModel { ident: named(self.ident), has_args: self.has_args }
    }
}

impl View for ItemPath {
    type V = ItemPathModel;

    open spec fn view(&self) -> ItemPathModel {
        ItemPathModel {
            leading_colon: self.leading_colon,
            segments: self.segments@.map_values(|segment: PathSegment| segment@),
        }
    }
}

impl View for Attr {
    type V = AttrModel;

    open spec fn view(&self) -> AttrModel {
        AttrModel { path: self.path@, tokens: tokens(self.tokens), whole: tokens(self.whole) }
    }
}

impl View for Argument {
    type V = ArgumentModel;

    open spec fn view(&self) -> ArgumentModel {
        match self {
            Argument::Type(ty) => ArgumentModel::Type(message_model(*ty)),
            Argument::Const(stream) => ArgumentModel::Const(tokens(*stream)),
            Argument::Other(stream) => ArgumentModel::Other(tokens(*stream)),
        }
    }
}

impl View for Segment {
    type V = SegmentModel;

    open spec fn view(&self) -> SegmentModel {
        SegmentModel {
            tokens: tokens(self.tokens),
            args: match self.args {
                Some(args) => Some(args@.map_values(|arg: Argument| arg@)),
                None => None,
            },
        }
    }
}

impl TypeTree {
    pub open spec fn view(&self) -> TypeModel
        decreases self,
    {
        TypeModel { tokens: tokens(self.tokens), kind: self.kind.view() }
    }
}

impl TypeKind {
    pub open spec fn view(&self) -> TypeKindModel
        decreases self,
    {
        match self {
            TypeKind::Path(Some(segment)) => TypeKindModel::Path(Some(segment@)),
            TypeKind::Path(None) => TypeKindModel::Path(None),
            TypeKind::Tuple(elems) => TypeKindModel::Tuple(
                Seq::new(
                    elems@.len(),
                    |i: int|
                        if 0 <= i < elems@.len() {
                            elems@[i].view()
                        } else {
                            arbitrary()
                        },
                ),
            ),
            TypeKind::Array(elem, len) => TypeKindModel::Array(Box::new(elem.view()), tokens(*len)),
            TypeKind::Other => TypeKindModel::Other,
        }
    }
}

/// The model of an identifier that may not be there.
pub open spec fn name_view(ident: Option<Ident>) -> Option<Named> {
    match ident {
        Some(ident) => Some(named(ident)),
        None => None,
    }
}

/// Whether an identifier is there and is the compiler's own.
pub open spec fn has_native_name(ident: Option<Ident>) -> bool {
    ident matches Some(ident) && is_native(ident)
}

impl View for Field {
    type V = FieldModel;

    open spec fn view(&self) -> FieldModel {
        FieldModel {
            attrs: self.attrs@.map_values(|attr: Attr| attr@),
            ident: name_view(self.ident),
            native: has_native_name(self.ident),
            ty: self.ty@,
        }
    }
}

impl View for ItemStruct {
    type V = StructModel;

    open spec fn view(&self) -> StructModel {
        StructModel {
            attrs: self.attrs@.map_values(|attr: Attr| attr@),
            vis: tokens(self.vis),
            ident: named(self.ident),
            native: is_native(self.ident),
            named: self.named,
            fields: self.fields@.map_values(|field: Field| field@),
        }
    }
}

impl View for Paren {
    type V = ParenModel;

    open spec fn view(&self) -> ParenModel {
        match self {
            Paren::Ascription(expr, ty) => ParenModel::Ascription(path_view(*expr), path_view(*ty)),
            Paren::Other => ParenModel::Other,
        }
    }
}

/// The model of a path that may not be there.
pub open spec fn path_view(path: Option<ItemPath>) -> Option<ItemPathModel> {
    match path {
        Some(path) => Some(path@),
        None => None,
    }
}

/// A struct is seen whole: its visibility and name, and each of its attributes and fields at its
/// position.
pub proof fn law_struct_is_seen_whole(item: ItemStruct)
    ensures
        item@.vis == tokens(item.vis),
        item@.ident == named(item.ident),
        item@.native == is_native(item.ident),
        item@.named == item.named,
        item@.attrs.len() == item.attrs@.len(),
        forall|i: int| 0 <= i < item.attrs@.len() ==> #[trigger] item@.attrs[i] == item.attrs@[i]@,
        item@.fields.len() == item.fields@.len(),
        forall|i: int| 0 <= i < item.fields@.len() ==> #[trigger] item@.fields[i] == item.fields@[i]@,
{
}

/// A field is seen whole: its name and type, and each of its attributes at its position.
pub proof fn law_field_is_seen_whole(field: Field)
    ensures
        match field.ident {
            Some(ident) => field@.ident == Some(named(ident)) && field@.native == is_native(ident),
            None => field@.ident is None && !field@.native,
        },
        field@.ty == field.ty@,
        field@.attrs.len() == field.attrs@.len(),
        forall|i: int| 0 <= i < field.attrs@.len() ==> #[trigger] field@.attrs[i] == field.attrs@[i]@,
{
}

/// An attribute is seen whole: its tokens, and each segment of its path at its position.
pub proof fn law_attribute_is_seen_whole(attr: Attr)
    ensures
        attr@.tokens == tokens(attr.tokens),
        attr@.whole == tokens(attr.whole),
        attr@.path.leading_colon == attr.path.leading_colon,
        attr@.path.segments.len() == attr.path.segments@.len(),
        forall|i: int|
            0 <= i < attr.path.segments@.len() ==> {
                &&& (#[trigger] attr@.path.segments[i]).ident == named(attr.path.segments@[i].ident)
                &&& attr@.path.segments[i].has_args == attr.path.segments@[i].has_args
            },
{
}

/// A type is seen whole: each generic argument of its last segment, each type of a tuple, and what an
/// array is made of.
pub proof fn law_type_is_seen_whole(ty: TypeTree)
    ensures
        ty@.tokens == tokens(ty.tokens),
        match ty.kind {
            TypeKind::Path(None) => ty@.kind == TypeKindModel::Path(None),
            TypeKind::Path(Some(segment)) => ty@.kind matches TypeKindModel::Path(Some(seen)) && {
                &&& seen.tokens == tokens(segment.tokens)
                &&& segment.args is None <==> seen.args is None
                &&& segment.args matches Some(args) ==> seen.args->0.len() == args@.len() && forall|
                    i: int,
                |
                    0 <= i < args@.len() ==> #[trigger] seen.args->0[i] == args@[i]@
            },
            TypeKind::Tuple(elems) => ty@.kind matches TypeKindModel::Tuple(seen) && seen.len()
                == elems@.len() && forall|i: int|
                0 <= i < elems@.len() ==> #[trigger] seen[i] == elems@[i]@,
            TypeKind::Array(elem, len) => ty@.kind matches TypeKindModel::Array(seen, size) && *seen
                == elem@ && size == tokens(len),
            TypeKind::Other => ty@.kind is Other,
        },
{
}

} // verus!
