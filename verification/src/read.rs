//! Reading the definition of a struct.

use proc_macro2::{Ident, TokenStream};
use quote::ToTokens;
use syn::{GenericArgument, PathArguments};
use vstd::prelude::*;

use crate::error::messages;
use crate::ident::{is_native, named};
use crate::literal::{may_be_struct, unknown_in_paren, unknown_in_struct};
use crate::syntax::{
    has_native_name, name_view, Argument, Attr, AttrModel, Field, FieldModel, ItemPath, ItemStruct,
    MessageModel, Paren, ParenModel, PathSegment, Segment, StructModel, TypeKind, TypeKindModel,
    TypeModel, TypeTree,
};
use crate::token::{is_native_stream, tokens, Tok};

verus! {

#[verifier::external_type_specification]
#[verifier::external_body]
pub struct ExType(syn::Type);

#[verifier::external_type_specification]
#[verifier::external_body]
pub struct ExAttribute(syn::Attribute);

/// What a type holds, as the parser hands it out.
pub uninterp spec fn type_model(ty: syn::Type) -> TypeModel;

/// A number for each type, the same for types that compare equal and for no others.
pub uninterp spec fn type_class(ty: syn::Type) -> int;

/// A type as the type of a message.
pub open spec fn message_model(ty: syn::Type) -> MessageModel {
    MessageModel { tokens: type_model(ty).tokens, class: type_class(ty) }
}

/// What an attribute holds, as the parser hands it out.
pub uninterp spec fn attr_model(attr: syn::Attribute) -> AttrModel;

/// The struct that the tokens define, or the messages of the error where they define none. The
/// identifiers are the compiler's own where the tokens are.
pub uninterp spec fn parsed_struct(input: Seq<Tok>, native: bool) -> Result<
    StructModel,
    Seq<Seq<char>>,
>;

/// The expression in parentheses that the tokens are, where they are one.
pub uninterp spec fn parsed_paren(input: Seq<Tok>) -> Option<ParenModel>;

/// A struct definition as it comes from the parser.
struct Parsed {
    attrs: Vec<syn::Attribute>,
    vis: TokenStream,
    ident: Ident,
    named: bool,
    fields: Vec<ParsedField>,
}

/// A field as it comes from the parser.
struct ParsedField {
    attrs: Vec<syn::Attribute>,
    ident: Option<Ident>,
    ty: syn::Type,
}

/// A type with the outermost layer taken off.
enum Peeled {
    Path,
    Tuple(Vec<syn::Type>),
    Array(syn::Type, TokenStream),
    Other,
}

impl ParsedField {
    spec fn view(&self) -> FieldModel {
        FieldModel {
            attrs: self.attrs@.map_values(|attr: syn::Attribute| attr_model(attr)),
            ident: name_view(self.ident),
            native: has_native_name(self.ident),
            ty: type_model(self.ty),
        }
    }
}

impl Parsed {
    spec fn view(&self) -> StructModel {
        StructModel {
            attrs: self.attrs@.map_values(|attr: syn::Attribute| attr_model(attr)),
            vis: tokens(self.vis),
            ident: named(self.ident),
            native: is_native(self.ident),
            named: self.named,
            fields: self.fields@.map_values(|field: ParsedField| field@),
        }
    }
}

/// `syn::parse2` as a `syn::ItemStruct`: the parts of the struct, which are given a name, or the
/// error. The fields are named where they are `syn::Fields::Named`. Without the word `struct` there
/// is an error. The parser panics where it meets a literal that it does not know.
#[verifier::external_body]
fn parse_struct(input: TokenStream) -> (parsed: Result<Parsed, syn::Error>)
    requires
        unknown_in_struct(tokens(input)) is None,
    ensures
        match parsed {
            Ok(parsed) => parsed_struct(tokens(input), is_native_stream(input)) == Ok::<
                StructModel,
                Seq<Seq<char>>,
            >(parsed@),
            Err(error) => parsed_struct(tokens(input), is_native_stream(input)) == Err::<
                StructModel,
                Seq<Seq<char>>,
            >(messages(error)),
        },
        parsed is Ok ==> may_be_struct(tokens(input)),
{
    let item: syn::ItemStruct = syn::parse2(input)?;
    Ok(Parsed {
        attrs: item.attrs,
        vis: item.vis.into_token_stream(),
        ident: item.ident,
        named: matches!(item.fields, syn::Fields::Named(_)),
        fields: item.fields.into_iter().map(|field| ParsedField {
            attrs: field.attrs,
            ident: field.ident,
            ty: field.ty,
        }).collect(),
    })
}

/// `quote::ToTokens::to_token_stream` of a type: the tokens that it is written with.
#[verifier::external_body]
pub(crate) fn type_tokens(ty: &syn::Type) -> (stream: TokenStream)
    ensures
        tokens(stream) == type_model(*ty).tokens,
{
    ty.to_token_stream()
}

/// `syn::Type::clone`: a type that is written the same way and compares equal.
pub assume_specification[ <syn::Type as Clone>::clone ](ty: &syn::Type) -> (copy: syn::Type)
    ensures
        type_model(copy) == type_model(*ty),
        type_class(copy) == type_class(*ty),
;

/// `==` of `syn::Type`: types that compare equal have the same number, and others have not.
#[verifier::external_body]
pub(crate) fn equal_types(a: &syn::Type, b: &syn::Type) -> (same: bool)
    ensures
        same == (type_class(*a) == type_class(*b)),
{
    a == b
}

/// Which variant of `syn::Type` a type is, and the parts of a `syn::TypeTuple` and of a
/// `syn::TypeArray`.
#[verifier::external_body]
fn peel(ty: &syn::Type) -> (peeled: Peeled)
    ensures
        match peeled {
            Peeled::Path => type_model(*ty).kind is Path,
            Peeled::Tuple(elems) => type_model(*ty).kind == TypeKindModel::Tuple(
                elems@.map_values(|elem: syn::Type| type_model(elem)),
            ),
            Peeled::Array(elem, len) => type_model(*ty).kind == TypeKindModel::Array(
                Box::new(type_model(elem)),
                tokens(len),
            ),
            Peeled::Other => type_model(*ty).kind is Other,
        },
{
    match ty {
        syn::Type::Path(_) => Peeled::Path,
        syn::Type::Tuple(tuple) => Peeled::Tuple(tuple.elems.iter().cloned().collect()),
        syn::Type::Array(array) => Peeled::Array((*array.elem).clone(), array.len.to_token_stream()),
        _ => Peeled::Other,
    }
}

/// The last segment of the path of a `syn::TypePath`, and its generic arguments where they are
/// `syn::PathArguments::AngleBracketed`.
#[verifier::external_body]
fn last_segment(ty: &syn::Type) -> (last: Option<Segment>)
    requires
        type_model(*ty).kind is Path,
    ensures
        match last {
            Some(segment) => type_model(*ty).kind == TypeKindModel::Path(Some(segment@)),
            None => type_model(*ty).kind == TypeKindModel::Path(None),
        },
{
    let syn::Type::Path(path) = ty else { return None };
    path.path.segments.last().map(|last| Segment {
        tokens: last.to_token_stream(),
        args: match &last.arguments {
            PathArguments::AngleBracketed(list) => Some(list.args.iter().map(|arg| match arg {
                GenericArgument::Type(ty) => Argument::Type(ty.clone()),
                GenericArgument::Const(expr) => Argument::Const(expr.to_token_stream()),
                other => Argument::Other(other.to_token_stream()),
            }).collect()),
            _ => None,
        },
    })
}

/// The fields of a `syn::Attribute`: its path, the tokens after the path, and the whole of it
/// through `quote::ToTokens::to_token_stream`.
#[verifier::external_body]
fn read_attr(attr: &syn::Attribute) -> (read: Attr)
    ensures
        read@ == attr_model(*attr),
{
    Attr {
        path: ItemPath {
            leading_colon: attr.path.leading_colon.is_some(),
            segments: attr.path.segments.iter().map(|segment| PathSegment {
                ident: segment.ident.clone(),
                has_args: !matches!(segment.arguments, PathArguments::None),
            }).collect(),
        },
        tokens: attr.tokens.clone(),
        whole: attr.to_token_stream(),
    }
}

/// `syn::parse2` as a `syn::ExprParen`: what stands between the parentheses, which is given a
/// name, as far as it is a `syn::ExprType` of two paths. The parser panics where it meets a literal
/// that it does not know.
#[verifier::external_body]
pub(crate) fn parse_paren(input: &TokenStream) -> (paren: Option<Paren>)
    requires
        unknown_in_paren(tokens(*input)) is None,
    ensures
        match paren {
            Some(paren) => parsed_paren(tokens(*input)) == Some(paren@),
            None => parsed_paren(tokens(*input)) is None,
        },
{
    let read = |path: syn::Path| ItemPath {
        leading_colon: path.leading_colon.is_some(),
        segments: path.segments.into_iter().map(|segment| PathSegment {
            has_args: !matches!(segment.arguments, PathArguments::None),
            ident: segment.ident,
        }).collect(),
    };
    let paren: syn::ExprParen = syn::parse2(input.clone()).ok()?;
    let syn::Expr::Type(ascription) = *paren.expr else { return Some(Paren::Other) };
    let expr = match *ascription.expr { syn::Expr::Path(path) => Some(read(path.path)), _ => None };
    let ty = match *ascription.ty { syn::Type::Path(path) => Some(read(path.path)), _ => None };
    Some(Paren::Ascription(expr, ty))
}

/// Reads a type.
fn read_type(ty: &syn::Type) -> (read: TypeTree)
    ensures
        read@ == type_model(*ty),
    decreases type_model(*ty),
{
    let stream = type_tokens(ty);
    let ghost model = type_model(*ty);
    let kind = match peel(ty) {
        Peeled::Path => TypeKind::Path(last_segment(ty)),
        Peeled::Tuple(elems) => {
            let mut list: Vec<TypeTree> = Vec::new();
            let mut i: usize = 0;
            while i < elems.len()
                invariant
                    i <= elems.len(),
                    i == list.len(),
                    model == type_model(*ty),
                    model.kind == TypeKindModel::Tuple(
                        elems@.map_values(|elem: syn::Type| type_model(elem)),
                    ),
                    forall|j: int| 0 <= j < i ==> (#[trigger] list[j])@ == type_model(elems[j]),
                decreases elems.len() - i,
            {
                proof {
                    let parts = model.kind->Tuple_0;
                    assert(parts[i as int] == type_model(elems[i as int]));
                    assert(decreases_to!(model => model.kind));
                    assert(decreases_to!(model.kind => parts));
                    assert(decreases_to!(parts => parts[i as int]));
                }
                let elem = read_type(&elems[i]);
                list.push(elem);
                i += 1;
            }
            proof {
                let kind = TypeKind::Tuple(list);
                assert(kind@->Tuple_0 =~= model.kind->Tuple_0);
            }
            TypeKind::Tuple(list)
        },
        Peeled::Array(elem, len) => {
            assert(decreases_to!(model => model.kind));
            assert(decreases_to!(model.kind => *model.kind->Array_0));
            TypeKind::Array(Box::new(read_type(&elem)), len)
        },
        Peeled::Other => TypeKind::Other,
    };
    TypeTree { tokens: stream, kind }
}

/// Reads a list of attributes.
fn read_attrs(attrs: &Vec<syn::Attribute>) -> (read: Vec<Attr>)
    ensures
        read@.map_values(|attr: Attr| attr@) == attrs@.map_values(
            |attr: syn::Attribute| attr_model(attr),
        ),
{
    let mut list: Vec<Attr> = Vec::new();
    let mut i: usize = 0;
    while i < attrs.len()
        invariant
            i <= attrs.len(),
            i == list.len(),
            forall|j: int| 0 <= j < i ==> (#[trigger] list[j])@ == attr_model(attrs[j]),
        decreases attrs.len() - i,
    {
        list.push(read_attr(&attrs[i]));
        i += 1;
    }
    assert(list@.map_values(|attr: Attr| attr@) =~= attrs@.map_values(
        |attr: syn::Attribute| attr_model(attr),
    ));
    list
}

/// Reads a list of fields.
fn read_fields(fields: Vec<ParsedField>) -> (read: Vec<Field>)
    ensures
        read@.map_values(|field: Field| field@) == fields@.map_values(
            |field: ParsedField| field@,
        ),
{
    let mut list: Vec<Field> = Vec::new();
    let mut i: usize = 0;
    while i < fields.len()
        invariant
            i <= fields.len(),
            i == list.len(),
            forall|j: int| 0 <= j < i ==> (#[trigger] list[j])@ == fields[j]@,
        decreases fields.len() - i,
    {
        let field = Field {
            attrs: read_attrs(&fields[i].attrs),
            ident: match &fields[i].ident {
                Some(ident) => Some(ident.clone()),
                None => None,
            },
            ty: read_type(&fields[i].ty),
        };
        list.push(field);
        i += 1;
    }
    assert(list@.map_values(|field: Field| field@) =~= fields@.map_values(
        |field: ParsedField| field@,
    ));
    list
}

/// Reads the definition of a struct.
pub fn read_struct(input: TokenStream) -> (read: Result<ItemStruct, syn::Error>)
    requires
        unknown_in_struct(tokens(input)) is None,
    ensures
        match read {
            Ok(item) => parsed_struct(tokens(input), is_native_stream(input)) == Ok::<
                StructModel,
                Seq<Seq<char>>,
            >(item@),
            Err(error) => parsed_struct(tokens(input), is_native_stream(input)) == Err::<
                StructModel,
                Seq<Seq<char>>,
            >(messages(error)),
        },
        read is Ok ==> may_be_struct(tokens(input)),
{
    match parse_struct(input) {
        Ok(parsed) => {
            let item = ItemStruct {
                attrs: read_attrs(&parsed.attrs),
                vis: parsed.vis,
                ident: parsed.ident,
                named: parsed.named,
                fields: read_fields(parsed.fields),
            };
            Ok(item)
        },
        Err(error) => Err(error),
    }
}

} // verus!
