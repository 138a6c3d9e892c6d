//! The single services that the fields hold.

use vstd::prelude::*;
use vstd::seq_lib::lemma_seq_concat_contains_all_elements;

use crate::field::{pair_view, shape, FieldTypes, ShapeModel};
use crate::grouping::{
    classes, group, groups, law_group_of_one_type, law_groups_partition, position_lists,
};
use crate::read::{message_model, type_class};
use crate::service::{plan_views, PlanModel, Services};
use crate::syntax::MessageModel;

verus! {

/// A single service: the field it stands in, its place there if the field groups several, and its
/// message type.
pub struct Slot {
    pub service: usize,
    pub index: Option<usize>,
    pub ty: syn::Type,
}

#[verifier::ext_equal]
pub struct SlotModel {
    pub service: nat,
    pub index: Option<nat>,
    pub ty: MessageModel,
}

impl View for Slot {
    type V = SlotModel;

    open spec fn view(&self) -> SlotModel {
        SlotModel {
            service: self.service as nat,
            index: match self.index {
                Some(index) => Some(index as nat),
                None => None,
            },
            ty: message_model(self.ty),
        }
    }
}

/// Single services as their models.
pub open spec fn slot_views(slots: Seq<Slot>) -> Seq<SlotModel> {
    slots.map_values(|slot: Slot| slot@)
}

/// Whether a field is an array of arrays.
pub open spec fn is_nested(shape: ShapeModel) -> bool {
    shape matches ShapeModel::Array(inner, _) && *inner is Array
}

/// Whether no field is an array of arrays.
pub open spec fn none_nested(servs: Seq<PlanModel>) -> bool {
    forall|i: int| 0 <= i < servs.len() ==> !is_nested((#[trigger] servs[i]).shape)
}

/// The single services of a field, or of one item where the field is an array.
pub open spec fn item_slots(service: nat, shape: ShapeModel) -> Seq<SlotModel> {
    match shape {
        ShapeModel::Once(ty) => seq![SlotModel { service, index: None, ty }],
        ShapeModel::Tuple(list) => Seq::new(
            list.len(),
            |k: int| SlotModel { service, index: Some(k as nat), ty: list[k] },
        ),
        ShapeModel::Array(_, _) => Seq::empty(),
    }
}

/// The single services of a field.
pub open spec fn field_slots(service: nat, shape: ShapeModel) -> Seq<SlotModel> {
    match shape {
        ShapeModel::Array(inner, _) => item_slots(service, *inner),
        _ => item_slots(service, shape),
    }
}

/// The single services of all fields, in order.
pub open spec fn all_slots(servs: Seq<PlanModel>) -> Seq<SlotModel>
    decreases servs.len(),
{
    if servs.len() == 0 {
        Seq::empty()
    } else {
        all_slots(servs.drop_last()) + field_slots((servs.len() - 1) as nat, servs.last().shape)
    }
}

/// The numbers of the message types of single services.
pub open spec fn slot_types(slots: Seq<SlotModel>) -> Seq<int> {
    slots.map_values(|slot: SlotModel| slot.ty.class)
}

/// Lists the single services of one item.
fn push_item_slots(list: &mut Vec<Slot>, service: usize, ty: &FieldTypes)
    ensures
        slot_views(final(list)@) == slot_views(old(list)@) + item_slots(service as nat, shape(ty@)),
{
    let ghost before = slot_views(list@);
    match ty {
        FieldTypes::Once(ty, _) => {
            list.push(Slot { service, index: None, ty: ty.clone() });
        },
        FieldTypes::Tuple(pairs) => {
            let ghost wanted = item_slots(service as nat, shape(ty@));
            let mut k: usize = 0;
            while k < pairs.len()
                invariant
                    k <= pairs.len(),
                    ty@ == FieldTypes::Tuple(*pairs)@,
                    wanted == item_slots(service as nat, shape(ty@)),
                    slot_views(list@) == before + wanted.take(k as int),
                decreases pairs.len() - k,
            {
                let ghost done = list@;
                let slot = Slot { service, index: Some(k), ty: pairs[k].0.clone() };
                assert(ty@->Tuple_0[k as int] == pair_view(pairs[k as int]));
                assert(shape(ty@)->Tuple_0[k as int] == ty@->Tuple_0[k as int].0);
                assert(slot@ == wanted[k as int]);
                list.push(slot);
                assert(slot_views(list@) =~= slot_views(done).push(slot@));
                assert(wanted.take(k + 1) == wanted.take(k as int).push(wanted[k as int]));
                assert(slot_views(list@) =~= before + wanted.take(k + 1));
                k += 1;
            }
            assert(wanted.take(k as int) == wanted);
        },
        FieldTypes::Array(_, _) => {},
    }
    assert(slot_views(list@) =~= before + item_slots(service as nat, shape(ty@)));
}

/// Lists the single services of all fields.
pub fn slots(servs: &Vec<Services>) -> (list: Vec<Slot>)
    requires
        none_nested(plan_views(servs@)),
    ensures
        slot_views(list@) == all_slots(plan_views(servs@)),
{
    let ghost all = plan_views(servs@);
    let mut list: Vec<Slot> = Vec::new();
    let mut i: usize = 0;
    while i < servs.len()
        invariant
            i <= servs.len(),
            all == plan_views(servs@),
            slot_views(list@) == all_slots(all.take(i as int)),
        decreases servs.len() - i,
    {
        assert(all.take(i + 1).drop_last() == all.take(i as int));
        assert(all.take(i + 1).last() == all[i as int]);
        match &servs[i].ty {
            FieldTypes::Array(inner, _) => push_item_slots(&mut list, i, inner),
            _ => push_item_slots(&mut list, i, &servs[i].ty),
        }
        i += 1;
    }
    assert(all.take(i as int) == all);
    list
}

/// Puts the single services with the same message type together.
pub fn slot_groups(slots: &Vec<Slot>) -> (list: Vec<Vec<usize>>)
    ensures
        position_lists(list@) == groups(slot_types(slot_views(slots@))),
{
    let mut types: Vec<syn::Type> = Vec::new();
    let mut i: usize = 0;
    while i < slots.len()
        invariant
            i <= slots.len(),
            i == types.len(),
            forall|j: int| 0 <= j < i ==> type_class(#[trigger] types[j]) == type_class(
                slots[j].ty,
            ),
        decreases slots.len() - i,
    {
        types.push(slots[i].ty.clone());
        i += 1;
    }
    assert(classes(types@) =~= slot_types(slot_views(slots@)));
    group(&types)
}

/// Each single service stands in the field that it names.
pub proof fn lemma_slots_in_range(servs: Seq<PlanModel>)
    ensures
        forall|i: int|
            0 <= i < all_slots(servs).len() ==> (#[trigger] all_slots(servs)[i]).service
                < servs.len(),
    decreases servs.len(),
{
    if servs.len() > 0 {
        lemma_slots_in_range(servs.drop_last());
    }
}

/// Each single service of a field is listed, and nothing else is.
pub proof fn law_slots_are_listed(servs: Seq<PlanModel>, slot: SlotModel)
    ensures
        all_slots(servs).contains(slot) <==> slot.service < servs.len() && field_slots(
            slot.service,
            servs[slot.service as int].shape,
        ).contains(slot),
    decreases servs.len(),
{
    if servs.len() > 0 {
        let rest = servs.drop_last();
        let last = field_slots((servs.len() - 1) as nat, servs.last().shape);
        law_slots_are_listed(rest, slot);
        lemma_seq_concat_contains_all_elements(all_slots(rest), last, slot);
        if last.contains(slot) {
            assert(slot.service == servs.len() - 1);
        }
        if slot.service < rest.len() {
            assert(rest[slot.service as int] == servs[slot.service as int]);
        }
    }
}

/// No single service is listed twice.
pub proof fn law_slots_are_listed_once(servs: Seq<PlanModel>)
    ensures
        all_slots(servs).no_duplicates(),
    decreases servs.len(),
{
    if servs.len() > 0 {
        let rest = servs.drop_last();
        let last = field_slots((servs.len() - 1) as nat, servs.last().shape);
        law_slots_are_listed_once(rest);
        lemma_slots_in_range(rest);
        assert forall|i: int, j: int|
            0 <= i < all_slots(servs).len() && 0 <= j < all_slots(servs).len() && i
                != j implies all_slots(servs)[i] != all_slots(servs)[j] by {
            let n = all_slots(rest).len();
            if i < n && j < n {
                assert(all_slots(rest)[i] != all_slots(rest)[j]);
            } else if i >= n && j >= n {
                assert(last[i - n] != last[j - n]);
            } else if i < n {
                assert(all_slots(rest)[i].service < rest.len());
                assert(last[j - n].service == rest.len());
            } else {
                assert(all_slots(rest)[j].service < rest.len());
                assert(last[i - n].service == rest.len());
            }
        }
    }
}

/// Each single service stands in exactly one group, once, and the group holds its message type.
pub proof fn law_slot_in_one_group(servs: Seq<PlanModel>, i: int)
    requires
        0 <= i < all_slots(servs).len(),
    ensures
        ({
            let types = slot_types(all_slots(servs));
            exists|k: int, m: int|
                {
                    &&& 0 <= k < groups(types).len()
                    &&& 0 <= m < groups(types)[k].len()
                    &&& #[trigger] groups(types)[k][m] == i
                    &&& all_slots(servs)[groups(types)[k][0]].ty.class == all_slots(servs)[i].ty.class
                    &&& forall|k2: int, m2: int|
                        0 <= k2 < groups(types).len() && 0 <= m2 < groups(types)[k2].len()
                            && #[trigger] groups(types)[k2][m2] == i ==> k2 == k && m2 == m
                }
        }),
{
    let slots = all_slots(servs);
    let types = slot_types(slots);
    law_groups_partition(types, i);
    let (k, m) = choose|k: int, m: int|
        0 <= k < groups(types).len() && 0 <= m < groups(types)[k].len()
            && #[trigger] groups(types)[k][m] == i;
    law_group_of_one_type(types, k);
    assert(types[i] == slots[i].ty.class);
    assert(0 <= groups(types)[k][0] < types.len());
    assert(types[groups(types)[k][0]] == slots[groups(types)[k][0]].ty.class);
    assert(types[groups(types)[k][m]] == types[groups(types)[k][0]]);
}

/// Whether the services of one item hold a single service of the type: alone, or at the given place of
/// a group.
pub open spec fn item_holds(item: ShapeModel, index: Option<nat>, ty: MessageModel) -> bool {
    match (item, index) {
        (ShapeModel::Once(alone), None) => alone == ty,
        (ShapeModel::Tuple(list), Some(k)) => k < list.len() && list[k as int] == ty,
        _ => false,
    }
}

/// Whether a field holds a single service of the type, in each of its items where it is an array.
pub open spec fn field_holds(shape: ShapeModel, index: Option<nat>, ty: MessageModel) -> bool {
    match shape {
        ShapeModel::Array(item, _) => item_holds(*item, index, ty),
        _ => item_holds(shape, index, ty),
    }
}

/// A single service is listed exactly where a field holds it, whatever its place there and wherever
/// the field stands.
pub proof fn law_slots_are_what_fields_hold(
    servs: Seq<PlanModel>,
    service: nat,
    index: Option<nat>,
    ty: MessageModel,
)
    ensures
        all_slots(servs).contains(SlotModel { service, index, ty }) <==> service < servs.len()
            && field_holds(servs[service as int].shape, index, ty),
{
    let slot = SlotModel { service, index, ty };
    law_slots_are_listed(servs, slot);
    if service < servs.len() {
        let shape = servs[service as int].shape;
        let list = field_slots(service, shape);
        if field_holds(shape, index, ty) {
            match index {
                None => assert(list[0] == slot),
                Some(k) => assert(list[k as int] == slot),
            }
        }
    }
}

/// A field is an array of arrays exactly where its items are arrays.
pub proof fn law_nested_is_array_of_arrays(shape: ShapeModel)
    ensures
        is_nested(shape) <==> shape is Array && *shape->Array_0 is Array,
{
}

/// The single services are listed in the order of their fields, and those of a field in the order of
/// their places.
pub proof fn law_slots_in_order(servs: Seq<PlanModel>, p: int, q: int)
    requires
        0 <= p < q < all_slots(servs).len(),
    ensures
        ({
            let a = all_slots(servs)[p];
            let b = all_slots(servs)[q];
            a.service < b.service || (a.service == b.service && a.index is Some && b.index is Some
                && a.index->0 < b.index->0)
        }),
    decreases servs.len(),
{
    if servs.len() > 0 {
        let rest = servs.drop_last();
        let n = all_slots(rest).len();
        let last = field_slots((servs.len() - 1) as nat, servs.last().shape);
        lemma_slots_in_range(rest);
        if q < n {
            law_slots_in_order(rest, p, q);
        } else if p < n {
            assert(all_slots(rest)[p].service < rest.len());
            assert(last[q - n].service == rest.len());
        } else {
            assert(all_slots(servs)[p] == last[p - n]);
            assert(all_slots(servs)[q] == last[q - n]);
        }
    }
}

/// Single services are seen whole, each at its position.
pub proof fn law_slots_are_seen_whole(slots: Seq<Slot>, i: int)
    requires
        0 <= i < slots.len(),
    ensures
        slot_views(slots).len() == slots.len(),
        slot_views(slots)[i].service == slots[i].service,
        slots[i].index matches Some(index) ==> slot_views(slots)[i].index == Some(index as nat),
        slots[i].index is None ==> slot_views(slots)[i].index is None,
        slot_views(slots)[i].ty == message_model(slots[i].ty),
{
}

} // verus!
