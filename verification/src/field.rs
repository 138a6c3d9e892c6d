//! What kind of service a field holds.

use proc_macro2::TokenStream;
use vstd::prelude::*;

use crate::read::{message_model, type_tokens};
use crate::syntax::{
    Argument, ArgumentModel, MessageModel, Segment, SegmentModel, TypeKind, TypeKindModel,
    TypeModel, TypeTree,
};
use crate::token::{is_plain, tokens, Tok};

verus! {

/// The services of a field. A single service has a message type and a constant.
pub enum FieldTypes {
    /// One service.
    Once(syn::Type, TokenStream),
    /// Several services side by side.
    Tuple(Vec<(syn::Type, TokenStream)>),
    /// The same services over and over, and how often.
    Array(Box<FieldTypes>, TokenStream),
}

#[verifier::ext_equal]
pub enum FieldTypesModel {
    Once(MessageModel, Seq<Tok>),
    Tuple(Seq<(MessageModel, Seq<Tok>)>),
    Array(Box<FieldTypesModel>, Seq<Tok>),
}

/// The services of a field without their constants.
#[verifier::ext_equal]
pub enum ShapeModel {
    Once(MessageModel),
    Tuple(Seq<MessageModel>),
    Array(Box<ShapeModel>, Seq<Tok>),
}

/// The services of a field without their constants.
pub open spec fn shape(types: FieldTypesModel) -> ShapeModel
    decreases types,
{
    match types {
        FieldTypesModel::Once(ty, _) => ShapeModel::Once(ty),
        FieldTypesModel::Tuple(list) => ShapeModel::Tuple(
            list.map_values(|pair: (MessageModel, Seq<Tok>)| pair.0),
        ),
        FieldTypesModel::Array(inner, len) => ShapeModel::Array(Box::new(shape(*inner)), len),
    }
}

/// Why a field cannot hold services.
#[derive(Clone, Copy, Debug, PartialEq, Eq, Structural)]
pub enum Reason {
    WrongPath,
    TwoArguments,
    SecondConst,
    FirstType,
    Nested,
    Unsupported,
}

/// The reason, and the part of the type that is to blame.
pub struct FieldError {
    pub at: TokenStream,
    pub reason: Reason,
}

#[verifier::ext_equal]
pub struct FieldErrorModel {
    pub at: Seq<Tok>,
    pub reason: Reason,
}

/// The models of a type and of a constant.
pub open spec fn pair_view(pair: (syn::Type, TokenStream)) -> (MessageModel, Seq<Tok>) {
    (message_model(pair.0), tokens(pair.1))
}

impl FieldTypes {
    pub open spec fn view(&self) -> FieldTypesModel
        decreases self,
    {
        match self {
            FieldTypes::Once(ty, num) => FieldTypesModel::Once(message_model(*ty), tokens(*num)),
            FieldTypes::Tuple(list) => FieldTypesModel::Tuple(
                list@.map_values(|pair: (syn::Type, TokenStream)| pair_view(pair)),
            ),
            FieldTypes::Array(inner, len) => FieldTypesModel::Array(
                Box::new(inner.view()),
                tokens(*len),
            ),
        }
    }
}

impl View for FieldError {
    type V = FieldErrorModel;

    open spec fn view(&self) -> FieldErrorModel {
        FieldErrorModel { at: tokens(self.at), reason: self.reason }
    }
}

/// What the compiler is told of a reason.
pub open spec fn message(reason: Reason) -> Seq<char> {
    match reason {
        Reason::WrongPath => "Wrong type path"@,
        Reason::TwoArguments => "The type must contain two template arguments"@,
        Reason::SecondConst => "The second type must be a constant expression"@,
        Reason::FirstType => "The first argument must be a type"@,
        Reason::Nested => "Services can only be grouped from services, not other groups or arrays"@,
        Reason::Unsupported => "Unsupported type"@,
    }
}

/// An error as a result.
pub open spec fn refused<T>(at: Seq<Tok>, reason: Reason) -> Result<T, FieldErrorModel> {
    Err(FieldErrorModel { at, reason })
}

/// The tokens of a generic argument.
pub open spec fn argument_tokens(arg: ArgumentModel) -> Seq<Tok> {
    match arg {
        ArgumentModel::Type(ty) => ty.tokens,
        ArgumentModel::Const(stream) => stream,
        ArgumentModel::Other(stream) => stream,
    }
}

/// The type and the constant of a service, which are the two generic arguments of the last
/// segment of the path `whole`.
pub open spec fn service_args(
    whole: Seq<Tok>,
    segment: Option<SegmentModel>,
) -> Result<(MessageModel, Seq<Tok>), FieldErrorModel> {
    match segment {
        None => refused(whole, Reason::WrongPath),
        Some(segment) => match segment.args {
            Some(args) => if args.len() != 2 {
                refused(segment.tokens, Reason::TwoArguments)
            } else {
                match (args[0], args[1]) {
                    (ArgumentModel::Type(ty), ArgumentModel::Const(num)) => Ok((ty, num)),
                    (ArgumentModel::Type(_), other) => refused(
                        argument_tokens(other),
                        Reason::SecondConst,
                    ),
                    (other, _) => refused(argument_tokens(other), Reason::FirstType),
                }
            },
            None => refused(segment.tokens, Reason::TwoArguments),
        },
    }
}

/// The services of a field of the given type.
pub open spec fn field_types(ty: TypeModel) -> Result<FieldTypesModel, FieldErrorModel>
    decreases ty, 0nat,
{
    match ty.kind {
        TypeKindModel::Path(segment) => match service_args(ty.tokens, segment) {
            Ok((arg, num)) => Ok(FieldTypesModel::Once(arg, num)),
            Err(error) => Err(error),
        },
        TypeKindModel::Tuple(elems) => match tuple_types(elems, elems.len()) {
            Ok(list) => Ok(FieldTypesModel::Tuple(list)),
            Err(error) => Err(error),
        },
        TypeKindModel::Array(elem, len) => match field_types(*elem) {
            Ok(inner) => Ok(FieldTypesModel::Array(Box::new(inner), len)),
            Err(error) => Err(error),
        },
        TypeKindModel::Other => refused(ty.tokens, Reason::Unsupported),
    }
}

/// The services that the first `n` types of a tuple stand for, each of which must be a single
/// service, or what is wrong with the first that is not.
pub open spec fn tuple_types(elems: Seq<TypeModel>, n: nat) -> Result<
    Seq<(MessageModel, Seq<Tok>)>,
    FieldErrorModel,
>
    decreases elems, n,
{
    if n == 0 || n > elems.len() {
        Ok(Seq::empty())
    } else {
        match tuple_types(elems, (n - 1) as nat) {
            Err(error) => Err(error),
            Ok(list) => match field_types(elems[n - 1]) {
                Ok(FieldTypesModel::Once(ty, num)) => Ok(list.push((ty, num))),
                Ok(_) => refused(elems[n - 1].tokens, Reason::Nested),
                Err(error) => Err(error),
            },
        }
    }
}

/// What the services of a field are, or why there are none.
pub open spec fn field_result(result: Result<FieldTypes, FieldError>) -> Result<
    FieldTypesModel,
    FieldErrorModel,
> {
    match result {
        Ok(types) => Ok(types@),
        Err(error) => Err(error@),
    }
}

impl FieldError {
    /// What the compiler is told.
    pub fn message(&self) -> (text: &'static str)
        ensures
            text@ == message(self.reason),
            is_plain(text@),
    {
        proof {
            law_messages_are_plain(self.reason);
        }
        match self.reason {
            Reason::WrongPath => "Wrong type path",
            Reason::TwoArguments => "The type must contain two template arguments",
            Reason::SecondConst => "The second type must be a constant expression",
            Reason::FirstType => "The first argument must be a type",
            Reason::Nested => "Services can only be grouped from services, not other groups or arrays",
            Reason::Unsupported => "Unsupported type",
        }
    }
}

fn refuse<T>(at: &TokenStream, reason: Reason) -> (result: Result<T, FieldError>)
    ensures
        result matches Err(error) && error@ == (FieldErrorModel { at: tokens(*at), reason }),
{
    Err(FieldError { at: at.clone(), reason })
}

/// The type and the constant of a service.
fn parse_path(whole: &TokenStream, segment: &Option<Segment>) -> (result: Result<
    FieldTypes,
    FieldError,
>)
    ensures
        match (result, service_args(
            tokens(*whole),
            match segment {
                Some(segment) => Some(segment@),
                None => None,
            },
        )) {
            (Ok(types), Ok((ty, num))) => types@ == FieldTypesModel::Once(ty, num),
            (Err(error), Err(expected)) => error@ == expected,
            _ => false,
        },
{
    match segment {
        None => refuse(whole, Reason::WrongPath),
        Some(segment) => match &segment.args {
            Some(args) => {
                if args.len() != 2 {
                    return refuse(&segment.tokens, Reason::TwoArguments);
                }
                assert(segment@.args->0[0] == args[0]@);
                assert(segment@.args->0[1] == args[1]@);
                match (&args[0], &args[1]) {
                    (Argument::Type(ty), Argument::Const(num)) => Ok(
                        FieldTypes::Once(ty.clone(), num.clone()),
                    ),
                    (Argument::Type(_), Argument::Type(other)) => refuse(
                        &type_tokens(other),
                        Reason::SecondConst,
                    ),
                    (Argument::Type(_), Argument::Other(other)) => refuse(other, Reason::SecondConst),
                    (Argument::Const(other), _) => refuse(other, Reason::FirstType),
                    (Argument::Other(other), _) => refuse(other, Reason::FirstType),
                }
            },
            None => refuse(&segment.tokens, Reason::TwoArguments),
        },
    }
}

/// Finds the services of a field by its type.
pub fn parse_field(ty: &TypeTree) -> (result: Result<FieldTypes, FieldError>)
    ensures
        field_result(result) == field_types(ty@),
    decreases ty,
{
    match &ty.kind {
        TypeKind::Path(segment) => parse_path(&ty.tokens, segment),
        TypeKind::Tuple(elems) => {
            let ghost parts = ty@.kind->Tuple_0;
            let mut list: Vec<(syn::Type, TokenStream)> = Vec::new();
            let mut i: usize = 0;
            while i < elems.len()
                invariant
                    i <= elems.len(),
                    ty.kind == TypeKind::Tuple(*elems),
                    ty@.kind == TypeKindModel::Tuple(parts),
                    parts.len() == elems.len(),
                    forall|j: int| 0 <= j < elems.len() ==> #[trigger] parts[j] == elems[j]@,
                    tuple_types(parts, i as nat) matches Ok(done) && done == list@.map_values(
                        |pair: (syn::Type, TokenStream)| pair_view(pair),
                    ),
                decreases elems.len() - i,
            {
                assert(decreases_to!(ty => elems@[i as int]));
                assert(parts[i as int] == elems[i as int]@);
                match parse_field(&elems[i]) {
                    Ok(FieldTypes::Once(arg, num)) => {
                        list.push((arg, num));
                    },
                    Ok(_) => {
                        proof {
                            lemma_tuple_stops(parts, (i + 1) as nat, parts.len());
                        }
                        return refuse(&elems[i].tokens, Reason::Nested);
                    },
                    Err(error) => {
                        proof {
                            lemma_tuple_stops(parts, (i + 1) as nat, parts.len());
                        }
                        return Err(error);
                    },
                }
                i += 1;
            }
            Ok(FieldTypes::Tuple(list))
        },
        TypeKind::Array(elem, len) => match parse_field(elem) {
            Ok(inner) => Ok(FieldTypes::Array(Box::new(inner), len.clone())),
            Err(error) => Err(error),
        },
        TypeKind::Other => refuse(&ty.tokens, Reason::Unsupported),
    }
}

/// What is wrong with the first types of a tuple is wrong with the whole tuple.
proof fn lemma_tuple_stops(elems: Seq<TypeModel>, n: nat, m: nat)
    requires
        n <= m <= elems.len(),
        tuple_types(elems, n) is Err,
    ensures
        tuple_types(elems, m) == tuple_types(elems, n),
    decreases m - n,
{
    if n < m {
        lemma_tuple_stops(elems, n, (m - 1) as nat);
    }
}

/// A tuple holds services exactly where each of its types is a single service. Then its services
/// are theirs, in order.
pub proof fn law_tuple_of_single_services(ty: TypeModel)
    requires
        ty.kind is Tuple,
    ensures
        field_types(ty) is Ok <==> forall|i: int|
            0 <= i < ty.kind->Tuple_0.len() ==> field_types(#[trigger] ty.kind->Tuple_0[i]) matches Ok(
                FieldTypesModel::Once(_, _),
            ),
        field_types(ty) matches Ok(types) ==> {
            &&& types is Tuple
            &&& types->Tuple_0.len() == ty.kind->Tuple_0.len()
            &&& forall|i: int|
                0 <= i < ty.kind->Tuple_0.len() ==> field_types(#[trigger] ty.kind->Tuple_0[i])
                    == Ok::<FieldTypesModel, FieldErrorModel>(
                    FieldTypesModel::Once(types->Tuple_0[i].0, types->Tuple_0[i].1),
                )
        },
{
    let elems = ty.kind->Tuple_0;
    lemma_tuple_types(elems, elems.len());
}

/// What the first types of a tuple stand for.
proof fn lemma_tuple_types(elems: Seq<TypeModel>, n: nat)
    requires
        n <= elems.len(),
    ensures
        tuple_types(elems, n) is Ok <==> forall|i: int|
            0 <= i < n ==> field_types(#[trigger] elems[i]) matches Ok(FieldTypesModel::Once(_, _)),
        tuple_types(elems, n) matches Ok(list) ==> list.len() == n && forall|i: int|
            0 <= i < n ==> field_types(#[trigger] elems[i]) == Ok::<FieldTypesModel, FieldErrorModel>(
                FieldTypesModel::Once(list[i].0, list[i].1),
            ),
    decreases n,
{
    if n > 0 {
        lemma_tuple_types(elems, (n - 1) as nat);
        if tuple_types(elems, n) is Err {
            if tuple_types(elems, (n - 1) as nat) is Ok {
                assert(!(field_types(elems[n - 1]) matches Ok(FieldTypesModel::Once(_, _))));
            }
        }
    }
}

/// An array holds services exactly where its items do, and then it holds theirs.
pub proof fn law_array_of_services(ty: TypeModel)
    requires
        ty.kind is Array,
    ensures
        match field_types(*ty.kind->Array_0) {
            Ok(inner) => field_types(ty) == Ok::<FieldTypesModel, FieldErrorModel>(
                FieldTypesModel::Array(Box::new(inner), ty.kind->Array_1),
            ),
            Err(error) => field_types(ty) == Err::<FieldTypesModel, FieldErrorModel>(error),
        },
{
}

/// Each message stands in a string literal as it is.
pub proof fn law_messages_are_plain(reason: Reason)
    ensures
        is_plain(message(reason)),
{
    reveal_strlit("Wrong type path");
    reveal_strlit("The type must contain two template arguments");
    reveal_strlit("The second type must be a constant expression");
    reveal_strlit("The first argument must be a type");
    reveal_strlit("Services can only be grouped from services, not other groups or arrays");
    reveal_strlit("Unsupported type");
}

/// Each reason has a message of its own.
pub proof fn law_messages_differ(a: Reason, b: Reason)
    ensures
        message(a) == message(b) ==> a == b,
{
    reveal_strlit("Wrong type path");
    reveal_strlit("The type must contain two template arguments");
    reveal_strlit("The second type must be a constant expression");
    reveal_strlit("The first argument must be a type");
    reveal_strlit("Services can only be grouped from services, not other groups or arrays");
    reveal_strlit("Unsupported type");
    assert(message(a).len() == message(b).len() ==> a == b);
}

/// Whether a segment of a path has exactly two generic arguments: the type, then the constant.
pub open spec fn takes_two(segment: SegmentModel, ty: MessageModel, num: Seq<Tok>) -> bool {
    segment.args matches Some(args) && args =~= seq![
        ArgumentModel::Type(ty),
        ArgumentModel::Const(num),
    ]
}

/// A path is a single service exactly where its last segment takes a type and a constant, and then
/// it is the service of these two.
pub proof fn law_path_of_two_arguments(ty: TypeModel, arg: MessageModel, num: Seq<Tok>)
    requires
        ty.kind is Path,
    ensures
        field_types(ty) == Ok::<FieldTypesModel, FieldErrorModel>(FieldTypesModel::Once(arg, num))
            <==> (ty.kind->Path_0 matches Some(segment) && takes_two(segment, arg, num)),
        field_types(ty) matches Ok(types) ==> types is Once,
{
    if let Some(segment) = ty.kind->Path_0 {
        if let Some(args) = segment.args {
            if args.len() == 2 {
                assert(args =~= seq![args[0], args[1]]);
            }
        }
    }
}

/// Which part of a path is to blame, and for what: the path where it has no segment, the last
/// segment where it has not two arguments, and else the first argument that is not what it has to
/// be.
pub proof fn law_blame_in_a_path(ty: TypeModel, error: FieldErrorModel)
    requires
        ty.kind is Path,
        field_types(ty) == Err::<FieldTypesModel, FieldErrorModel>(error),
    ensures
        ty.kind->Path_0 is None ==> error.at == ty.tokens && error.reason == Reason::WrongPath,
        ty.kind->Path_0 matches Some(segment) ==> match segment.args {
            None => error.at == segment.tokens && error.reason == Reason::TwoArguments,
            Some(args) => if args.len() != 2 {
                error.at == segment.tokens && error.reason == Reason::TwoArguments
            } else if !(args[0] is Type) {
                error.at == argument_tokens(args[0]) && error.reason == Reason::FirstType
            } else {
                error.at == argument_tokens(args[1]) && error.reason == Reason::SecondConst && !(
                args[1] is Const)
            },
        },
{
}

/// The first type of a tuple that is no single service is to blame: for what is wrong with it, or for
/// being a group or an array.
pub proof fn law_blame_in_a_tuple(ty: TypeModel, i: int)
    requires
        ty.kind is Tuple,
        0 <= i < ty.kind->Tuple_0.len(),
        !(field_types(ty.kind->Tuple_0[i]) matches Ok(FieldTypesModel::Once(_, _))),
        forall|j: int|
            0 <= j < i ==> field_types(#[trigger] ty.kind->Tuple_0[j]) matches Ok(
                FieldTypesModel::Once(_, _),
            ),
    ensures
        field_types(ty) matches Err(error) && match field_types(ty.kind->Tuple_0[i]) {
            Err(inner) => error == inner,
            Ok(_) => error.at == ty.kind->Tuple_0[i].tokens && error.reason == Reason::Nested,
        },
{
    let elems = ty.kind->Tuple_0;
    lemma_tuple_types(elems, i as nat);
    assert(tuple_types(elems, i as nat) is Ok);
    assert(tuple_types(elems, (i + 1) as nat) is Err);
    lemma_tuple_stops(elems, (i + 1) as nat, elems.len());
}

/// Any other type holds no services, and is to blame as a whole.
pub proof fn law_other_types_hold_nothing(ty: TypeModel)
    requires
        ty.kind is Other,
    ensures
        field_types(ty) matches Err(error) && error.at == ty.tokens && error.reason
            == Reason::Unsupported,
{
}

/// Without their constants the services of a field are as many as before, with the same message types
/// and the same lengths.
pub proof fn law_shape_keeps_types(types: FieldTypesModel)
    ensures
        match (types, shape(types)) {
            (FieldTypesModel::Once(ty, _), ShapeModel::Once(kept)) => kept == ty,
            (FieldTypesModel::Tuple(list), ShapeModel::Tuple(kept)) => kept.len() == list.len()
                && forall|k: int| 0 <= k < list.len() ==> #[trigger] kept[k] == list[k].0,
            (FieldTypesModel::Array(inner, len), ShapeModel::Array(kept, n)) => *kept == shape(
                *inner,
            ) && n == len,
            _ => false,
        },
{
}

/// What a field holds is seen whole: the message type and the constant of each service, and the length
/// of an array.
pub proof fn law_field_types_are_seen_whole(types: FieldTypes)
    ensures
        match types {
            FieldTypes::Once(ty, num) => types@ == FieldTypesModel::Once(
                message_model(ty),
                tokens(num),
            ),
            FieldTypes::Tuple(list) => types@ matches FieldTypesModel::Tuple(seen) && seen.len()
                == list@.len() && forall|i: int|
                0 <= i < list@.len() ==> (#[trigger] seen[i]) == (
                    message_model(list@[i].0),
                    tokens(list@[i].1),
                ),
            FieldTypes::Array(item, len) => types@ matches FieldTypesModel::Array(seen, size) && *seen
                == item@ && size == tokens(len),
        },
{
}

} // verus!
