//! The services of a struct.

use proc_macro2::{Ident, TokenStream};
use vstd::prelude::*;

use crate::attrs::{attr_views, path_ident, path_is};
use crate::error::{report, reported};
use crate::field::{
    field_types, message, parse_field, shape, FieldErrorModel, FieldTypes, FieldTypesModel,
    ShapeModel,
};
use crate::ident::{
    composed, ident_ok, is_ascii_text, is_ident, is_text, lemma_ascii_upper, named, respell,
    spelled, text_of, uppercase, Named,
};
use crate::syntax::{Attr, AttrModel, Field, FieldModel, ItemStruct};
use crate::token::{tokens, Tok};

verus! {

/// A field that holds services: its number among the services, its name, the `cfg` attribute that
/// it stands under, the name of its target, and the services.
pub struct Services {
    pub id: usize,
    pub ident: Ident,
    pub attr: TokenStream,
    pub upper: Ident,
    pub ty: FieldTypes,
}

#[verifier::ext_equal]
pub struct ServiceModel {
    pub id: nat,
    pub ident: Named,
    pub attr: Seq<Tok>,
    pub upper: Named,
    pub ty: FieldTypesModel,
}

impl View for Services {
    type V = ServiceModel;

    open spec fn view(&self) -> ServiceModel {
        ServiceModel {
            id: self.id as nat,
            ident: named(self.ident),
            attr: tokens(self.attr),
            upper: named(self.upper),
            ty: self.ty@,
        }
    }
}

/// Services as their models.
pub open spec fn service_views(servs: Seq<Services>) -> Seq<ServiceModel> {
    servs.map_values(|serv: Services| serv@)
}

/// What the code that is written depends on of a service: all but the constants.
#[verifier::ext_equal]
pub struct PlanModel {
    pub id: nat,
    pub ident: Named,
    pub attr: Seq<Tok>,
    pub upper: Named,
    pub shape: ShapeModel,
}

/// A service without its constants.
pub open spec fn plan(serv: ServiceModel) -> PlanModel {
    PlanModel {
        id: serv.id,
        ident: serv.ident,
        attr: serv.attr,
        upper: serv.upper,
        shape: shape(serv.ty),
    }
}

/// Services without their constants.
pub open spec fn plans(servs: Seq<ServiceModel>) -> Seq<PlanModel> {
    servs.map_values(|serv: ServiceModel| plan(serv))
}

/// Services without their constants.
pub open spec fn plan_views(servs: Seq<Services>) -> Seq<PlanModel> {
    plans(service_views(servs))
}

/// Whether a field is marked `#[service]`.
pub open spec fn is_service(field: FieldModel) -> bool {
    exists|i: int|
        0 <= i < field.attrs.len() && path_is((#[trigger] field.attrs[i]).path, "service"@)
}

/// The fields that are marked `#[service]`, in order.
pub open spec fn service_fields(fields: Seq<FieldModel>) -> Seq<FieldModel>
    decreases fields.len(),
{
    if fields.len() == 0 {
        Seq::empty()
    } else if is_service(fields.last()) {
        service_fields(fields.drop_last()).push(fields.last())
    } else {
        service_fields(fields.drop_last())
    }
}

/// Whether the path of an attribute starts with `cfg`.
pub open spec fn is_cfg(attr: AttrModel) -> bool {
    attr.path.segments.len() > 0 && attr.path.segments[0].ident.text == "cfg"@
}

/// The first `cfg` attribute, as written, or nothing.
pub open spec fn first_cfg(attrs: Seq<AttrModel>) -> Seq<Tok>
    decreases attrs.len(),
{
    if attrs.len() == 0 {
        Seq::empty()
    } else if is_cfg(attrs[0]) {
        attrs[0].whole
    } else {
        first_cfg(attrs.drop_first())
    }
}

/// The service that a field is, with the number and the name of its target.
pub open spec fn service_of(
    id: nat,
    field: FieldModel,
    ty: FieldTypesModel,
    upper: Named,
) -> ServiceModel {
    ServiceModel { id, ident: field.ident->0, attr: first_cfg(field.attrs), upper, ty }
}

/// The services of each of the given fields, or what is wrong with the first field that cannot hold
/// any.
pub open spec fn kinds(fields: Seq<FieldModel>) -> Result<Seq<FieldTypesModel>, FieldErrorModel>
    decreases fields.len(),
{
    if fields.len() == 0 {
        Ok(Seq::empty())
    } else {
        match kinds(fields.drop_last()) {
            Err(error) => Err(error),
            Ok(list) => match field_types(fields.last().ty) {
                Err(error) => Err(error),
                Ok(ty) => Ok(list.push(ty)),
            },
        }
    }
}

/// The name of the target of a field: the name of the field in upper case, at its place.
pub open spec fn target_of(field: FieldModel) -> Named {
    Named {
        text: spelled(field.native, uppercase(field.ident->0.text)),
        place: field.ident->0.place,
    }
}

/// The services of the given fields, numbered from zero.
pub open spec fn services(fields: Seq<FieldModel>) -> Seq<ServiceModel> {
    Seq::new(
        fields.len(),
        |i: int|
            service_of(
                i as nat,
                fields[i],
                field_types(fields[i].ty)->Ok_0,
                target_of(fields[i]),
            ),
    )
}

/// Why no target can be named after a field.
pub enum Trouble {
    /// The field has no name.
    Nameless,
    /// The name in upper case, which is given, is no identifier.
    BadName(String),
}

#[verifier::ext_equal]
pub enum TroubleModel {
    Nameless,
    BadName(Seq<char>),
}

impl View for Trouble {
    type V = TroubleModel;

    open spec fn view(&self) -> TroubleModel {
        match self {
            Trouble::Nameless => TroubleModel::Nameless,
            Trouble::BadName(name) => TroubleModel::BadName(name@),
        }
    }
}

/// Why no target can be named after the first of the given fields with which that is so, if it
/// comes up before a field that cannot hold services.
pub open spec fn trouble(fields: Seq<FieldModel>) -> Option<TroubleModel>
    decreases fields.len(),
{
    if fields.len() == 0 {
        None
    } else {
        match trouble(fields.drop_last()) {
            Some(found) => Some(found),
            None => if kinds(fields.drop_last()) is Err {
                None
            } else {
                match fields.last().ident {
                    None => Some(TroubleModel::Nameless),
                    Some(ident) => if kinds(fields) is Ok && !ident_ok(uppercase(ident.text)) {
                        Some(TroubleModel::BadName(uppercase(ident.text)))
                    } else {
                        None
                    },
                }
            },
        }
    }
}

/// Once a field cannot hold services, no later field counts.
proof fn lemma_stopped(fields: Seq<FieldModel>, n: int)
    requires
        0 <= n <= fields.len(),
        kinds(fields.take(n)) is Err,
    ensures
        kinds(fields) == kinds(fields.take(n)),
        trouble(fields) == trouble(fields.take(n)),
    decreases fields.len() - n,
{
    if n < fields.len() {
        assert(fields.take(n + 1).drop_last() == fields.take(n));
        lemma_stopped(fields, n + 1);
    } else {
        assert(fields.take(n) == fields);
    }
}

/// A trouble stays the first one.
proof fn lemma_trouble_stays(fields: Seq<FieldModel>, n: int)
    requires
        0 <= n <= fields.len(),
        trouble(fields.take(n)) is Some,
    ensures
        trouble(fields) == trouble(fields.take(n)),
    decreases fields.len() - n,
{
    if n < fields.len() {
        assert(fields.take(n + 1).drop_last() == fields.take(n));
        lemma_trouble_stays(fields, n + 1);
    } else {
        assert(fields.take(n) == fields);
    }
}

/// The services of the first fields are among the first services of all.
proof fn lemma_service_fields_prefix(fields: Seq<FieldModel>, n: int)
    requires
        0 <= n <= fields.len(),
    ensures
        service_fields(fields.take(n)).len() <= service_fields(fields).len(),
        service_fields(fields).take(service_fields(fields.take(n)).len() as int) == service_fields(
            fields.take(n),
        ),
        service_fields(fields.take(n)).len() <= n,
    decreases fields.len() - n + fields.len(),
{
    if n == fields.len() {
        assert(fields.take(n) == fields);
        if n > 0 {
            assert(fields.take(n - 1) == fields.drop_last());
            lemma_service_fields_prefix(fields.drop_last(), n - 1);
            assert(fields.drop_last().take(n - 1) == fields.drop_last());
        }
    } else {
        let rest = fields.drop_last();
        assert(rest.take(n) == fields.take(n));
        lemma_service_fields_prefix(rest, n);
        let found = service_fields(fields.take(n));
        assert(service_fields(fields).take(found.len() as int) =~= service_fields(rest).take(
            found.len() as int,
        ));
    }
}

/// Whether a field is marked `#[service]`.
fn marked(field: &Field) -> (found: bool)
    ensures
        found == is_service(field@),
{
    let mut i: usize = 0;
    while i < field.attrs.len()
        invariant
            i <= field.attrs.len(),
            forall|j: int|
                0 <= j < i ==> !path_is((#[trigger] field@.attrs[j]).path, "service"@),
        decreases field.attrs.len() - i,
    {
        assert(field@.attrs[i as int] == field.attrs[i as int]@);
        if field.attrs[i].path.is_ident("service") {
            return true;
        }
        i += 1;
    }
    false
}

/// The first `cfg` attribute.
fn filter_attr(attrs: &Vec<Attr>) -> (code: TokenStream)
    ensures
        tokens(code) == first_cfg(attr_views(attrs@)),
{
    let ghost all = attr_views(attrs@);
    let mut i: usize = 0;
    assert(all.skip(0) == all);
    while i < attrs.len()
        invariant
            i <= attrs.len(),
            all == attr_views(attrs@),
            first_cfg(all.skip(i as int)) == first_cfg(all),
        decreases attrs.len() - i,
    {
        let attr = &attrs[i];
        assert(all.skip(i as int)[0] == attr@);
        assert(all.skip(i as int).drop_first() == all.skip(i + 1));
        if attr.path.segments.len() > 0 {
            assert(attr@.path.segments[0] == attr.path.segments[0]@);
            if is_text(&text_of(&attr.path.segments[0].ident), "cfg") {
                return attr.whole.clone();
            }
        }
        i += 1;
    }
    TokenStream::new()
}

/// Makes a service of a field, given the name of its target. The target stands at the place of the
/// field.
pub fn make_service(id: usize, field: &Field, ty: FieldTypes, upper: &str) -> (serv: Services)
    requires
        field.ident is Some,
        ident_ok(upper@),
    ensures
        serv@ == service_of(
            id as nat,
            field@,
            ty@,
            (Named { text: spelled(field@.native, upper@), place: field@.ident->0.place }),
        ),
{
    let ident = field.ident.as_ref().unwrap();
    Services {
        id,
        ident: ident.clone(),
        attr: filter_attr(&field.attrs),
        upper: respell(upper, ident),
        ty,
    }
}

/// Fields as their models.
pub open spec fn field_views(fields: Seq<Field>) -> Seq<FieldModel> {
    fields.map_values(|field: Field| field@)
}

/// Finds out why no target can be named after a field, if that comes up before a field that cannot
/// hold services.
pub fn find_trouble(fields: &Vec<Field>) -> (found: Option<Trouble>)
    ensures
        match found {
            Some(found) => trouble(service_fields(field_views(fields@))) == Some(found@),
            None => trouble(service_fields(field_views(fields@))) is None,
        },
{
    let ghost all = field_views(fields@);
    let ghost wanted = service_fields(all);
    let mut i: usize = 0;
    while i < fields.len()
        invariant
            i <= fields.len(),
            all == field_views(fields@),
            wanted == service_fields(all),
            trouble(service_fields(all.take(i as int))) is None,
            kinds(service_fields(all.take(i as int))) is Ok,
        decreases fields.len() - i,
    {
        let field = &fields[i];
        let ghost before = service_fields(all.take(i as int));
        let ghost now = service_fields(all.take(i + 1));
        assert(all.take(i + 1).drop_last() == all.take(i as int));
        assert(all.take(i + 1).last() == field@);
        if marked(field) {
            proof {
                lemma_service_fields_prefix(all, i + 1);
                assert(now.drop_last() == before);
                assert(now.last() == field@);
            }
            let ident = match &field.ident {
                Some(ident) => ident,
                None => {
                    proof {
                        lemma_trouble_stays(wanted, now.len() as int);
                    }
                    return Some(Trouble::Nameless);
                },
            };
            match parse_field(&field.ty) {
                Ok(_) => {
                    let name = text_of(ident).as_str().to_uppercase();
                    if !is_ident(name.as_str()) {
                        proof {
                            lemma_trouble_stays(wanted, now.len() as int);
                        }
                        return Some(Trouble::BadName(name));
                    }
                },
                Err(_) => {
                    proof {
                        lemma_stopped(wanted, now.len() as int);
                    }
                    return None;
                },
            }
        }
        i += 1;
    }
    assert(all.take(i as int) == all);
    None
}

/// Finds the services of a struct, or tells the compiler of the first field that is marked as a
/// service and is none.
pub fn parse(input: &ItemStruct) -> (result: Result<Vec<Services>, TokenStream>)
    requires
        trouble(service_fields(input@.fields)) is None,
    ensures
        match result {
            Ok(servs) => kinds(service_fields(input@.fields)) is Ok && service_views(servs@)
                == services(service_fields(input@.fields)),
            Err(code) => kinds(service_fields(input@.fields)) matches Err(error) && tokens(code)
                == reported(message(error.reason), error.at),
        },
{
    let fields = &input.fields;
    let mut parsed: Vec<Services> = Vec::new();
    let ghost all = field_views(fields@);
    let ghost wanted = service_fields(all);
    assert(all == input@.fields);
    let mut i: usize = 0;
    while i < fields.len()
        invariant
            i <= fields.len(),
            fields == input.fields,
            all == field_views(fields@),
            wanted == service_fields(all),
            all == input@.fields,
            trouble(wanted) is None,
            kinds(service_fields(all.take(i as int))) is Ok,
            service_views(parsed@) == services(service_fields(all.take(i as int))),
            parsed.len() <= i,
        decreases fields.len() - i,
    {
        let field = &fields[i];
        let ghost before = service_fields(all.take(i as int));
        let ghost now = service_fields(all.take(i + 1));
        assert(all.take(i + 1).drop_last() == all.take(i as int));
        assert(all.take(i + 1).last() == field@);
        if marked(field) {
            proof {
                lemma_service_fields_prefix(all, i + 1);
                assert(now.drop_last() == before);
                assert(now.last() == field@);
                assert(trouble(now) is None) by {
                    if trouble(now) is Some {
                        lemma_trouble_stays(wanted, now.len() as int);
                    }
                }
            }
            match parse_field(&field.ty) {
                Ok(ty) => {
                    let name = text_of(field.ident.as_ref().unwrap()).as_str().to_uppercase();
                    let ghost done = parsed@;
                    let id: usize = parsed.len();
                    assert(service_views(done).len() == before.len());
                    let serv = make_service(id, field, ty, name.as_str());
                    parsed.push(serv);
                    assert(service_views(parsed@) =~= service_views(done).push(serv@));
                    assert(services(now) =~= services(before).push(serv@));
                },
                Err(error) => {
                    proof {
                        lemma_stopped(wanted, now.len() as int);
                    }
                    return Err(report(&error.at, error.message()));
                },
            }
        }
        i += 1;
    }
    assert(all.take(i as int) == all);
    Ok(parsed)
}

/// Each field has the services that are listed for it.
pub proof fn law_kinds_follow_fields(fields: Seq<FieldModel>)
    requires
        kinds(fields) is Ok,
    ensures
        kinds(fields)->Ok_0.len() == fields.len(),
        forall|i: int|
            0 <= i < fields.len() ==> field_types((#[trigger] fields[i]).ty) == Ok::<
                FieldTypesModel,
                FieldErrorModel,
            >(kinds(fields)->Ok_0[i]),
    decreases fields.len(),
{
    if fields.len() > 0 {
        let rest = fields.drop_last();
        law_kinds_follow_fields(rest);
        assert forall|i: int| 0 <= i < fields.len() implies field_types((#[trigger] fields[i]).ty)
            == Ok::<FieldTypesModel, FieldErrorModel>(kinds(fields)->Ok_0[i]) by {
            if i < rest.len() {
                assert(rest[i] == fields[i]);
            }
        }
    }
}

/// There are as many services as fields that are marked. They are numbered from zero in the order of
/// their fields, each is made of its own field, and its target is named after the field and stands
/// at its place.
pub proof fn law_services_follow_fields(fields: Seq<FieldModel>, i: int)
    requires
        kinds(fields) is Ok,
        0 <= i < fields.len(),
    ensures
        services(fields).len() == fields.len(),
        services(fields)[i] == service_of(
            i as nat,
            fields[i],
            kinds(fields)->Ok_0[i],
            target_of(fields[i]),
        ),
        field_types(fields[i].ty) == Ok::<FieldTypesModel, FieldErrorModel>(services(fields)[i].ty),
{
    law_kinds_follow_fields(fields);
    assert(field_types(fields[i].ty) is Ok);
}

/// No two services have the same number, and none has the number that senders without a service
/// have.
pub proof fn law_numbers_differ(fields: Seq<FieldModel>, i: int, j: int)
    requires
        fields.len() <= usize::MAX,
        0 <= i < j < fields.len(),
    ensures
        services(fields)[i].id < services(fields)[j].id < usize::MAX,
{
}

/// The first field that cannot hold services is the one that the compiler is told of, and there is
/// one exactly where the struct is not expanded.
pub proof fn law_first_error_counts(fields: Seq<FieldModel>)
    ensures
        match kinds(fields) {
            Ok(_) => forall|i: int|
                0 <= i < fields.len() ==> field_types((#[trigger] fields[i]).ty) is Ok,
            Err(error) => exists|i: int|
                {
                    &&& 0 <= i < fields.len()
                    &&& field_types((#[trigger] fields[i]).ty) == Err::<
                        FieldTypesModel,
                        FieldErrorModel,
                    >(error)
                    &&& forall|j: int|
                        0 <= j < i ==> field_types((#[trigger] fields[j]).ty) is Ok
                },
        },
    decreases fields.len(),
{
    if fields.len() > 0 {
        let rest = fields.drop_last();
        law_first_error_counts(rest);
        assert(forall|j: int| 0 <= j < rest.len() ==> #[trigger] fields[j] == rest[j]);
        match kinds(rest) {
            Ok(_) => {
                let last = fields.len() - 1;
                assert forall|j: int| 0 <= j < last implies field_types((#[trigger] fields[j]).ty)
                    is Ok by {
                    assert(rest[j] == fields[j]);
                }
                assert(fields[last] == fields.last());
            },
            Err(error) => {
                let i = choose|i: int|
                    {
                        &&& 0 <= i < rest.len()
                        &&& field_types((#[trigger] rest[i]).ty) == Err::<
                            FieldTypesModel,
                            FieldErrorModel,
                        >(error)
                        &&& forall|j: int|
                            0 <= j < i ==> field_types((#[trigger] rest[j]).ty) is Ok
                    };
                assert(fields[i] == rest[i]);
                assert forall|j: int| 0 <= j < i implies field_types((#[trigger] fields[j]).ty)
                    is Ok by {
                    assert(rest[j] == fields[j]);
                }
            },
        }
    }
}

/// The services are those of the marked fields, whatever other fields there are: structs that agree
/// on the marked fields have the same services, or the same first error.
pub proof fn law_marked_fields_decide(a: Seq<FieldModel>, b: Seq<FieldModel>)
    requires
        a.filter(|field: FieldModel| is_service(field)) == b.filter(
            |field: FieldModel| is_service(field),
        ),
    ensures
        service_fields(a) == service_fields(b),
        kinds(service_fields(a)) == kinds(service_fields(b)),
        services(service_fields(a)) == services(service_fields(b)),
        trouble(service_fields(a)) == trouble(service_fields(b)),
{
    lemma_filtered(a);
    lemma_filtered(b);
}

/// The marked fields are what a filter leaves.
proof fn lemma_filtered(fields: Seq<FieldModel>)
    ensures
        service_fields(fields) == fields.filter(|field: FieldModel| is_service(field)),
    decreases fields.len(),
{
    reveal(Seq::filter);
    if fields.len() > 0 {
        lemma_filtered(fields.drop_last());
    }
}

/// A field that is not marked `#[service]` changes nothing, wherever it stands.
pub proof fn law_unmarked_fields_ignored(
    before: Seq<FieldModel>,
    field: FieldModel,
    after: Seq<FieldModel>,
)
    requires
        !is_service(field),
    ensures
        service_fields(before.push(field) + after) == service_fields(before + after),
    decreases after.len(),
{
    if after.len() == 0 {
        assert(before.push(field) + after == before.push(field));
        assert(before.push(field).drop_last() == before);
        assert(before + after == before);
    } else {
        law_unmarked_fields_ignored(before, field, after.drop_last());
        assert((before.push(field) + after).drop_last() == before.push(field) + after.drop_last());
        assert((before + after).drop_last() == before + after.drop_last());
    }
}

/// Whether the field has a name that is an ASCII identifier.
pub open spec fn has_ascii_name(field: FieldModel) -> bool {
    field.ident matches Some(ident) && is_ascii_text(ident.text) && ident_ok(ident.text)
}

/// Where all names of services are ASCII identifiers, a target can be named after each of them.
pub proof fn law_ascii_names_are_good(fields: Seq<FieldModel>)
    requires
        forall|i: int| 0 <= i < fields.len() ==> has_ascii_name(#[trigger] fields[i]),
    ensures
        trouble(fields) is None,
    decreases fields.len(),
{
    if fields.len() > 0 {
        let rest = fields.drop_last();
        assert forall|i: int| 0 <= i < rest.len() implies has_ascii_name(#[trigger] rest[i]) by {
            assert(rest[i] == fields[i]);
        }
        law_ascii_names_are_good(rest);
        assert(fields[fields.len() - 1] == fields.last());
        lemma_ascii_upper(fields.last().ident->0.text);
    }
}

/// A name that is ASCII in upper case gives its target that spelling, inside the compiler or not.
pub proof fn law_ascii_targets_are_upper_case(field: FieldModel)
    requires
        is_ascii_text(uppercase(field.ident->0.text)),
    ensures
        target_of(field).text == uppercase(field.ident->0.text),
{
}

/// A field is a service wherever its mark stands among its attributes, and only where it has one.
pub proof fn law_mark_counts_anywhere(
    field: FieldModel,
    before: Seq<AttrModel>,
    mark: AttrModel,
    after: Seq<AttrModel>,
)
    requires
        field.attrs == before + seq![mark] + after,
        path_ident(mark.path) matches Some(ident) && ident.text == "service"@,
    ensures
        is_service(field),
{
    assert(field.attrs[before.len() as int] == mark);
}

/// An attribute that is no mark changes nothing about whether a field is a service, wherever it
/// stands.
pub proof fn law_other_attributes_do_not_mark(
    a: FieldModel,
    b: FieldModel,
    before: Seq<AttrModel>,
    other: AttrModel,
    after: Seq<AttrModel>,
)
    requires
        a.attrs == before + seq![other] + after,
        b.attrs == before + after,
        !(path_ident(other.path) matches Some(ident) && ident.text == "service"@),
    ensures
        is_service(a) == is_service(b),
{
    let n = before.len() as int;
    assert(a.attrs[n] == other);
    if is_service(a) {
        let i = choose|i: int|
            0 <= i < a.attrs.len() && path_is((#[trigger] a.attrs[i]).path, "service"@);
        if i < n {
            assert(b.attrs[i] == a.attrs[i]);
        } else {
            assert(b.attrs[i - 1] == a.attrs[i]);
        }
    }
    if is_service(b) {
        let i = choose|i: int|
            0 <= i < b.attrs.len() && path_is((#[trigger] b.attrs[i]).path, "service"@);
        if i < n {
            assert(a.attrs[i] == b.attrs[i]);
        } else {
            assert(a.attrs[i + 1] == b.attrs[i]);
        }
    }
}

/// A field without attributes is no service.
pub proof fn law_unmarked_field_is_no_service(field: FieldModel)
    requires
        forall|i: int|
            0 <= i < field.attrs.len() ==> !(path_ident((#[trigger] field.attrs[i]).path) matches Some(
                ident,
            ) && ident.text == "service"@),
    ensures
        !is_service(field),
{
}

/// A field that is marked is among the services, wherever it stands, after those of the fields before
/// it and before those of the fields after it.
pub proof fn law_marked_field_is_found(
    before: Seq<FieldModel>,
    field: FieldModel,
    after: Seq<FieldModel>,
)
    requires
        is_service(field),
    ensures
        service_fields(before + seq![field] + after) == service_fields(before) + seq![field]
            + service_fields(after),
{
    law_service_fields_of_both(before + seq![field], after);
    law_service_fields_of_both(before, seq![field]);
    assert(seq![field].drop_last() =~= Seq::<FieldModel>::empty());
    assert(service_fields(seq![field].drop_last()) =~= Seq::<FieldModel>::empty());
    assert(service_fields(seq![field]) =~= seq![field]);
}

/// The marked fields of two lists are those of the one, then those of the other.
pub proof fn law_service_fields_of_both(a: Seq<FieldModel>, b: Seq<FieldModel>)
    ensures
        service_fields(a + b) == service_fields(a) + service_fields(b),
    decreases b.len(),
{
    if b.len() == 0 {
        assert(a + b == a);
        assert(service_fields(a) + service_fields(b) =~= service_fields(a));
    } else {
        law_service_fields_of_both(a, b.drop_last());
        assert((a + b).drop_last() =~= a + b.drop_last());
        assert(service_fields(a + b) =~= service_fields(a) + service_fields(b));
    }
}

/// The first attribute whose path starts with `cfg` is taken over as written, wherever it stands.
pub proof fn law_first_cfg_anywhere(
    before: Seq<AttrModel>,
    cfg: AttrModel,
    after: Seq<AttrModel>,
)
    requires
        cfg.path.segments.len() > 0,
        cfg.path.segments[0].ident.text == "cfg"@,
        forall|i: int|
            0 <= i < before.len() ==> (#[trigger] before[i]).path.segments.len() == 0
                || before[i].path.segments[0].ident.text != "cfg"@,
    ensures
        first_cfg(before + seq![cfg] + after) == cfg.whole,
    decreases before.len(),
{
    let all = before + seq![cfg] + after;
    if before.len() == 0 {
        assert(all[0] == cfg);
    } else {
        assert(all[0] == before[0]);
        let rest = before.drop_first();
        assert forall|i: int| 0 <= i < rest.len() implies (#[trigger] rest[i]).path.segments.len() == 0
            || rest[i].path.segments[0].ident.text != "cfg"@ by {
            assert(rest[i] == before[i + 1]);
        }
        law_first_cfg_anywhere(rest, cfg, after);
        assert(all.drop_first() =~= rest + seq![cfg] + after);
    }
}

/// Without such an attribute nothing is taken over.
pub proof fn law_no_cfg_nothing_taken(attrs: Seq<AttrModel>)
    requires
        forall|i: int|
            0 <= i < attrs.len() ==> (#[trigger] attrs[i]).path.segments.len() == 0
                || attrs[i].path.segments[0].ident.text != "cfg"@,
    ensures
        first_cfg(attrs).len() == 0,
    decreases attrs.len(),
{
    if attrs.len() > 0 {
        let rest = attrs.drop_first();
        assert forall|i: int| 0 <= i < rest.len() implies (#[trigger] rest[i]).path.segments.len() == 0
            || rest[i].path.segments[0].ident.text != "cfg"@ by {
            assert(rest[i] == attrs[i + 1]);
        }
        assert(attrs[0] == attrs[0]);
        law_no_cfg_nothing_taken(rest);
    }
}

/// What a service has of its field: the position as its number, the name, the first `cfg` attribute,
/// the services, and a target with the name in upper case at the same place. The compiler spells it in
/// normal form.
pub proof fn law_service_of_its_field(fields: Seq<FieldModel>, i: int)
    requires
        kinds(fields) is Ok,
        0 <= i < fields.len(),
        fields[i].ident is Some,
    ensures
        ({
            let serv = services(fields)[i];
            let name = fields[i].ident->0;
            let upper = uppercase(name.text);
            &&& services(fields).len() == fields.len()
            &&& serv.id == i
            &&& serv.ident == name
            &&& serv.attr == first_cfg(fields[i].attrs)
            &&& field_types(fields[i].ty) == Ok::<FieldTypesModel, FieldErrorModel>(serv.ty)
            &&& serv.upper.place == name.place
            &&& is_ascii_text(upper) || !fields[i].native ==> serv.upper.text == upper
            &&& !is_ascii_text(upper) && fields[i].native ==> serv.upper.text == composed(upper)
            &&& plan(serv).id == serv.id && plan(serv).ident == serv.ident
            &&& plan(serv).attr == serv.attr && plan(serv).upper == serv.upper
            &&& plan(serv).shape == shape(serv.ty)
        }),
{
    law_services_follow_fields(fields, i);
}

/// No target can be named after a field exactly where the field has no name, or a name that is no
/// identifier in upper case, and all fields before it hold services. A field without a name counts even
/// where it holds none.
pub proof fn law_trouble_is_the_first_one(fields: Seq<FieldModel>)
    ensures
        match trouble(fields) {
            None => forall|i: int|
                0 <= i < fields.len() && kinds(fields.take(i)) is Ok ==> (
                #[trigger] fields[i]).ident is Some && (kinds(fields.take(i + 1)) is Ok ==> ident_ok(
                    uppercase(fields[i].ident->0.text),
                )),
            Some(TroubleModel::Nameless) => exists|i: int|
                0 <= i < fields.len() && kinds(fields.take(i)) is Ok && (#[trigger] fields[i]).ident
                    is None,
            Some(TroubleModel::BadName(name)) => exists|i: int|
                0 <= i < fields.len() && kinds(fields.take(i + 1)) is Ok && ((
                #[trigger] fields[i]).ident matches Some(ident) && name == uppercase(ident.text)
                    && !ident_ok(name)),
        },
    decreases fields.len(),
{
    if fields.len() > 0 {
        let rest = fields.drop_last();
        let n = rest.len() as int;
        law_trouble_is_the_first_one(rest);
        assert(fields.take(n) =~= rest);
        assert(fields.take(n + 1) =~= fields);
        assert forall|i: int| 0 <= i < n implies #[trigger] fields[i] == rest[i] && fields.take(i)
            == rest.take(i) && fields.take(i + 1) == rest.take(i + 1) by {
            assert(fields.take(i) =~= rest.take(i));
            assert(fields.take(i + 1) =~= rest.take(i + 1));
        }
        assert(fields[n] == fields.last());
        match trouble(rest) {
            Some(TroubleModel::Nameless) => {
                let i = choose|i: int|
                    0 <= i < rest.len() && kinds(rest.take(i)) is Ok && (#[trigger] rest[i]).ident
                        is None;
                assert(fields[i] == rest[i]);
            },
            Some(TroubleModel::BadName(name)) => {
                let i = choose|i: int|
                    0 <= i < rest.len() && kinds(rest.take(i + 1)) is Ok && ((
                    #[trigger] rest[i]).ident matches Some(ident) && name == uppercase(ident.text)
                        && !ident_ok(name));
                assert(fields[i] == rest[i]);
            },
            None => {
                assert forall|i: int|
                    0 <= i < n && kinds(fields.take(i)) is Ok implies (#[trigger] fields[i]).ident
                    is Some && (kinds(fields.take(i + 1)) is Ok ==> ident_ok(
                    uppercase(fields[i].ident->0.text),
                )) by {
                    assert(fields[i] == rest[i]);
                }
            },
        }
    }
}

/// A target is named after its field, in upper case and as the compiler spells it, at the place of the
/// name of the field.
pub proof fn law_target_is_named_after_its_field(field: FieldModel)
    requires
        field.ident is Some,
    ensures
        target_of(field).place == field.ident->0.place,
        !field.native ==> target_of(field).text == uppercase(field.ident->0.text),
        field.native ==> target_of(field).text == spelled(true, uppercase(field.ident->0.text)),
{
}

/// Services are seen whole, each at its position.
pub proof fn law_services_are_seen_whole(servs: Seq<Services>, i: int)
    requires
        0 <= i < servs.len(),
    ensures
        plan_views(servs).len() == servs.len(),
        plan_views(servs)[i].id == servs[i].id,
        plan_views(servs)[i].ident == named(servs[i].ident),
        plan_views(servs)[i].attr == tokens(servs[i].attr),
        plan_views(servs)[i].upper == named(servs[i].upper),
        plan_views(servs)[i].shape == shape(servs[i].ty@),
        service_views(servs).len() == servs.len(),
        service_views(servs)[i].id == servs[i].id,
        service_views(servs)[i].ident == named(servs[i].ident),
        service_views(servs)[i].attr == tokens(servs[i].attr),
        service_views(servs)[i].upper == named(servs[i].upper),
        service_views(servs)[i].ty == servs[i].ty@,
{
}

} // verus!
