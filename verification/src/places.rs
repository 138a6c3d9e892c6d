//! Code is the same wherever its parts come from.

use vstd::prelude::*;

use crate::access::{
    access_code, init_code, init_item_parts_code, init_parts_code, inits_code, item_body_code,
    method_code, methods_code,
};
use crate::attrs::settings;
use crate::code::{no_code, Snippet};
use crate::field::{field_types, shape, ShapeModel};
use crate::grouping::{groups, law_group_of_one_type};
use crate::ident::Named;
use crate::notifier::{
    aliases_code, aliases_of, crate_root_code, expansion_code, struct_code, AliasesModel,
};
use crate::senders::{chain_code, chains_code, notifier_senders_code, walks_code};
use crate::service::{first_cfg, law_first_error_counts, plans, service_fields, services, PlanModel};
use crate::service_get::{
    all_markers_code, arms_code, impls_code, markers_code, service_get_code, slot_arm_code,
    suffix_code,
};
use crate::slot::{all_slots, field_slots, lemma_slots_in_range, slot_types, SlotModel};
use crate::syntax::{FieldModel, MessageModel, StructModel};
use crate::targets::{entries_code, entry_code, table_code, targets_code, Table};
use crate::token::{bare, Place, Tok};

verus! {

/// An identifier as if it stood at the call site of the derive.
pub open spec fn bare_name(ident: Named) -> Named {
    Named { text: ident.text, place: Place::CallSite }
}

/// No code stays no code.
broadcast proof fn bare_nothing()
    ensures
        #[trigger] bare(no_code()) == no_code(),
{
    reveal(bare);
    assert(bare(no_code()) =~= no_code());
}

/// `Snippet::word` adds the places of its parts only.
broadcast proof fn bare_word(code: Seq<Tok>, text: Seq<char>)
    ensures
        #[trigger] bare(code.word(text)) == bare(code).word(text),
{
    reveal(bare);
    assert(bare(code.word(text)) =~= bare(code).word(text));
}

/// `Snippet::punct` adds the places of its parts only.
broadcast proof fn bare_punct(code: Seq<Tok>, ch: char)
    ensures
        #[trigger] bare(code.punct(ch)) == bare(code).punct(ch),
{
    reveal(bare);
    assert(bare(code.punct(ch)) =~= bare(code).punct(ch));
}

/// `Snippet::operator` adds the places of its parts only.
broadcast proof fn bare_operator(code: Seq<Tok>, first: char, second: char)
    ensures
        #[trigger] bare(code.operator(first, second)) == bare(code).operator(first, second),
{
    reveal(bare);
    assert(bare(code.operator(first, second)) =~= bare(code).operator(first, second));
}

/// `Snippet::colons` adds the places of its parts only.
broadcast proof fn bare_colons(code: Seq<Tok>)
    ensures
        #[trigger] bare(code.colons()) == bare(code).colons(),
{
    reveal(bare);
    assert(bare(code.colons()) =~= bare(code).colons());
}

/// `Snippet::arrow` adds the places of its parts only.
broadcast proof fn bare_arrow(code: Seq<Tok>)
    ensures
        #[trigger] bare(code.arrow()) == bare(code).arrow(),
{
    reveal(bare);
    assert(bare(code.arrow()) =~= bare(code).arrow());
}

/// `Snippet::fat_arrow` adds the places of its parts only.
broadcast proof fn bare_fat_arrow(code: Seq<Tok>)
    ensures
        #[trigger] bare(code.fat_arrow()) == bare(code).fat_arrow(),
{
    reveal(bare);
    assert(bare(code.fat_arrow()) =~= bare(code).fat_arrow());
}

/// `Snippet::lifetime` adds the places of its parts only.
broadcast proof fn bare_lifetime(code: Seq<Tok>, name: Seq<char>)
    ensures
        #[trigger] bare(code.lifetime(name)) == bare(code).lifetime(name),
{
    reveal(bare);
    assert(bare(code.lifetime(name)) =~= bare(code).lifetime(name));
}

/// `Snippet::number` adds the places of its parts only.
broadcast proof fn bare_number(code: Seq<Tok>, n: nat)
    ensures
        #[trigger] bare(code.number(n)) == bare(code).number(n),
{
    reveal(bare);
    assert(bare(code.number(n)) =~= bare(code).number(n));
}

/// `Snippet::digits` adds the places of its parts only.
broadcast proof fn bare_digits(code: Seq<Tok>, n: nat)
    ensures
        #[trigger] bare(code.digits(n)) == bare(code).digits(n),
{
    reveal(bare);
    assert(bare(code.digits(n)) =~= bare(code).digits(n));
}

/// `Snippet::string` adds the places of its parts only.
broadcast proof fn bare_string(code: Seq<Tok>, value: Seq<char>)
    ensures
        #[trigger] bare(code.string(value)) == bare(code).string(value),
{
    reveal(bare);
    assert(bare(code.string(value)) =~= bare(code).string(value));
}

/// `Snippet::string_at` adds the places of its parts only.
broadcast proof fn bare_string_at(code: Seq<Tok>, value: Seq<char>, place: Place)
    ensures
        #[trigger] bare(code.string_at(value, place)) == bare(code).string_at(value, Place::CallSite),
{
    reveal(bare);
    assert(bare(code.string_at(value, place)) =~= bare(code).string_at(value, Place::CallSite));
}

/// `Snippet::name` adds the places of its parts only.
broadcast proof fn bare_named(code: Seq<Tok>, ident: Named)
    ensures
        #[trigger] bare(code.name(ident)) == bare(code).name(bare_name(ident)),
{
    reveal(bare);
    assert(bare(code.name(ident)) =~= bare(code).name(bare_name(ident)));
}

/// `Snippet::code` adds the places of its parts only.
broadcast proof fn bare_code(code: Seq<Tok>, inner: Seq<Tok>)
    ensures
        #[trigger] bare(code.code(inner)) == bare(code).code(bare(inner)),
{
    reveal(bare);
    assert(bare(code.code(inner)) =~= bare(code).code(bare(inner)));
}

/// `Snippet::paren` adds the places of its parts only.
broadcast proof fn bare_paren(code: Seq<Tok>, inner: Seq<Tok>)
    ensures
        #[trigger] bare(code.paren(inner)) == bare(code).paren(bare(inner)),
{
    reveal(bare);
    assert(bare(code.paren(inner)) =~= bare(code).paren(bare(inner)));
}

/// `Snippet::brace` adds the places of its parts only.
broadcast proof fn bare_brace(code: Seq<Tok>, inner: Seq<Tok>)
    ensures
        #[trigger] bare(code.brace(inner)) == bare(code).brace(bare(inner)),
{
    reveal(bare);
    assert(bare(code.brace(inner)) =~= bare(code).brace(bare(inner)));
}

/// `Snippet::bracket` adds the places of its parts only.
broadcast proof fn bare_bracket(code: Seq<Tok>, inner: Seq<Tok>)
    ensures
        #[trigger] bare(code.bracket(inner)) == bare(code).bracket(bare(inner)),
{
    reveal(bare);
    assert(bare(code.bracket(inner)) =~= bare(code).bracket(bare(inner)));
}

/// Writing code token by token.
broadcast group group_bare {
    bare_nothing,
    bare_word,
    bare_punct,
    bare_operator,
    bare_colons,
    bare_arrow,
    bare_fat_arrow,
    bare_lifetime,
    bare_number,
    bare_digits,
    bare_string,
    bare_string_at,
    bare_named,
    bare_code,
    bare_paren,
    bare_brace,
    bare_bracket,
    bare_sum,
}

/// Code that is put together from two parts.
broadcast proof fn bare_sum(a: Seq<Tok>, b: Seq<Tok>)
    ensures
        #[trigger] bare(a + b) == bare(a) + bare(b),
{
    reveal(bare);
    assert(bare(a + b) =~= bare(a) + bare(b));
}

/// A message type as if it stood at the call site of the derive.
pub open spec fn bare_message(ty: MessageModel) -> MessageModel {
    MessageModel { tokens: bare(ty.tokens), class: ty.class }
}

/// The services of a field as if they stood at the call site of the derive.
pub open spec fn bare_shape(shape: ShapeModel) -> ShapeModel
    decreases shape,
{
    match shape {
        ShapeModel::Once(ty) => ShapeModel::Once(bare_message(ty)),
        ShapeModel::Tuple(list) => ShapeModel::Tuple(
            list.map_values(|ty: MessageModel| bare_message(ty)),
        ),
        ShapeModel::Array(inner, len) => ShapeModel::Array(
            Box::new(bare_shape(*inner)),
            bare(len),
        ),
    }
}

/// A service as if it stood at the call site of the derive.
pub open spec fn bare_plan(serv: PlanModel) -> PlanModel {
    PlanModel {
        id: serv.id,
        ident: bare_name(serv.ident),
        attr: bare(serv.attr),
        upper: bare_name(serv.upper),
        shape: bare_shape(serv.shape),
    }
}

/// Services as if they stood at the call site of the derive.
pub open spec fn bare_plans(servs: Seq<PlanModel>) -> Seq<PlanModel> {
    servs.map_values(|serv: PlanModel| bare_plan(serv))
}

/// A single service as if it stood at the call site of the derive.
spec fn bare_slot(slot: SlotModel) -> SlotModel {
    SlotModel { service: slot.service, index: slot.index, ty: bare_message(slot.ty) }
}

/// Single services as if they stood at the call site of the derive.
spec fn bare_slots(slots: Seq<SlotModel>) -> Seq<SlotModel> {
    slots.map_values(|slot: SlotModel| bare_slot(slot))
}

/// The last of the services.
proof fn lemma_last_plan(servs: Seq<PlanModel>)
    requires
        servs.len() > 0,
    ensures
        bare_plans(servs).drop_last() == bare_plans(servs.drop_last()),
        bare_plans(servs).last() == bare_plan(servs.last()),
{
    assert(bare_plans(servs).drop_last() =~= bare_plans(servs.drop_last()));
}

/// `entry_code` has the places of its parts only.
proof fn lemma_entry(table: Table, crate_path: Seq<Tok>, target: Named, serv: PlanModel)
    ensures
        bare(entry_code(table, crate_path, target, serv)) == entry_code(
            table,
            bare(crate_path),
            bare_name(target),
            bare_plan(serv),
        ),
{
    broadcast use group_bare;

}

/// `entries_code` has the places of its parts only.
proof fn lemma_entries(table: Table, crate_path: Seq<Tok>, target: Named, servs: Seq<PlanModel>)
    ensures
        bare(entries_code(table, crate_path, target, servs)) == entries_code(
            table,
            bare(crate_path),
            bare_name(target),
            bare_plans(servs),
        ),
    decreases servs.len(),
{
    broadcast use group_bare;

    if servs.len() > 0 {
        lemma_last_plan(servs);
        lemma_entries(table, crate_path, target, servs.drop_last());
        lemma_entry(table, crate_path, target, servs.last());
    }
}

/// `table_code` has the places of its parts only.
proof fn lemma_table(table: Table, crate_path: Seq<Tok>, target: Named, servs: Seq<PlanModel>)
    ensures
        bare(table_code(table, crate_path, target, servs)) == table_code(
            table,
            bare(crate_path),
            bare_name(target),
            bare_plans(servs),
        ),
{
    broadcast use group_bare;

    lemma_entries(table, crate_path, target, servs);
}

/// `targets_code` has the places of its parts only.
proof fn lemma_targets(vis: Seq<Tok>, crate_path: Seq<Tok>, target: Named, servs: Seq<PlanModel>)
    ensures
        bare(targets_code(vis, crate_path, target, servs)) == targets_code(
            bare(vis),
            bare(crate_path),
            bare_name(target),
            bare_plans(servs),
        ),
{
    broadcast use group_bare;

    lemma_table(Table::Variants, crate_path, target, servs);
    lemma_table(Table::Ids, crate_path, target, servs);
    lemma_table(Table::FromId, crate_path, target, servs);
    lemma_table(Table::IntoId, crate_path, target, servs);
    lemma_table(Table::FromUsize, crate_path, target, servs);
    lemma_table(Table::Names, crate_path, target, servs);
}

/// The single services, and their types, are the same.
proof fn lemma_all_slots(servs: Seq<PlanModel>)
    ensures
        all_slots(bare_plans(servs)) == bare_slots(all_slots(servs)),
        slot_types(bare_slots(all_slots(servs))) == slot_types(all_slots(servs)),
    decreases servs.len(),
{
    if servs.len() > 0 {
        let rest = servs.drop_last();
        let n = rest.len();
        lemma_last_plan(servs);
        lemma_all_slots(rest);
        reveal_with_fuel(bare_shape, 2);
        let last = servs.last().shape;
        assert(field_slots(n, bare_shape(last)) =~= bare_slots(field_slots(n, last)));
        assert(bare_slots(all_slots(rest)) + bare_slots(field_slots(n, last)) =~= bare_slots(
            all_slots(rest) + field_slots(n, last),
        ));
    } else {
        assert(bare_slots(all_slots(servs)) =~= all_slots(bare_plans(servs)));
    }
    assert(slot_types(bare_slots(all_slots(servs))) =~= slot_types(all_slots(servs)));
}

/// Whether the positions are those of single services whose fields are there.
spec fn in_range(servs: Seq<PlanModel>, slots: Seq<SlotModel>, group: Seq<int>) -> bool {
    &&& forall|i: int| 0 <= i < slots.len() ==> (#[trigger] slots[i]).service < servs.len()
    &&& forall|m: int| 0 <= m < group.len() ==> 0 <= #[trigger] group[m] < slots.len()
}

/// Whether each group has a position, and all positions are in range.
spec fn all_in_range(
    servs: Seq<PlanModel>,
    slots: Seq<SlotModel>,
    groups: Seq<Seq<int>>,
) -> bool {
    forall|k: int|
        0 <= k < groups.len() ==> (#[trigger] groups[k]).len() > 0 && in_range(
            servs,
            slots,
            groups[k],
        )
}

/// `suffix_code` has the places of its parts only.
proof fn lemma_suffix(serv: PlanModel, slot: SlotModel)
    ensures
        bare(suffix_code(serv, slot)) == suffix_code(bare_plan(serv), bare_slot(slot)),
{
    broadcast use group_bare;

}

/// `slot_arm_code` has the places of its parts only.
proof fn lemma_slot_arm(target: Named, servs: Seq<PlanModel>, slot: SlotModel)
    requires
        slot.service < servs.len(),
    ensures
        bare(slot_arm_code(target, servs, slot)) == slot_arm_code(
            bare_name(target),
            bare_plans(servs),
            bare_slot(slot),
        ),
{
    broadcast use group_bare;

    let serv = servs[slot.service as int];
    assert(bare_plans(servs)[slot.service as int] == bare_plan(serv));
    lemma_suffix(serv, slot);
}

/// `arms_code` has the places of its parts only.
proof fn lemma_arms(
    target: Named,
    servs: Seq<PlanModel>,
    slots: Seq<SlotModel>,
    group: Seq<int>,
)
    requires
        in_range(servs, slots, group),
    ensures
        bare(arms_code(target, servs, slots, group)) == arms_code(
            bare_name(target),
            bare_plans(servs),
            bare_slots(slots),
            group,
        ),
    decreases group.len(),
{
    broadcast use group_bare;

    if group.len() > 0 {
        lemma_arms(target, servs, slots, group.drop_last());
        assert(0 <= group[group.len() - 1] < slots.len());
        assert(bare_slots(slots)[group.last()] == bare_slot(slots[group.last()]));
        lemma_slot_arm(target, servs, slots[group.last()]);
    }
}

/// `markers_code` has the places of its parts only.
proof fn lemma_markers(
    crate_path: Seq<Tok>,
    target: Named,
    name: Named,
    servs: Seq<PlanModel>,
    slots: Seq<SlotModel>,
    ty: Seq<Tok>,
    group: Seq<int>,
)
    requires
        in_range(servs, slots, group),
    ensures
        bare(markers_code(crate_path, target, name, servs, slots, ty, group)) == markers_code(
            bare(crate_path),
            bare_name(target),
            bare_name(name),
            bare_plans(servs),
            bare_slots(slots),
            bare(ty),
            group,
        ),
    decreases group.len(),
{
    broadcast use group_bare;

    if group.len() > 0 {
        lemma_markers(crate_path, target, name, servs, slots, ty, group.drop_last());
        assert(0 <= group[group.len() - 1] < slots.len());
        let slot = slots[group.last()];
        assert(bare_slots(slots)[group.last()] == bare_slot(slot));
        assert(slot.service < servs.len());
        assert(bare_plans(servs)[slot.service as int] == bare_plan(servs[slot.service as int]));
    }
}

/// `impls_code` and `all_markers_code` have the places of their parts only.
proof fn lemma_impls(
    crate_path: Seq<Tok>,
    target: Named,
    name: Named,
    servs: Seq<PlanModel>,
    slots: Seq<SlotModel>,
    groups: Seq<Seq<int>>,
)
    requires
        all_in_range(servs, slots, groups),
    ensures
        bare(impls_code(crate_path, target, name, servs, slots, groups)) == impls_code(
            bare(crate_path),
            bare_name(target),
            bare_name(name),
            bare_plans(servs),
            bare_slots(slots),
            groups,
        ),
        bare(all_markers_code(crate_path, target, name, servs, slots, groups)) == all_markers_code(
            bare(crate_path),
            bare_name(target),
            bare_name(name),
            bare_plans(servs),
            bare_slots(slots),
            groups,
        ),
    decreases groups.len(),
{
    broadcast use group_bare;

    if groups.len() > 0 {
        let rest = groups.drop_last();
        assert forall|k: int| 0 <= k < rest.len() implies (#[trigger] rest[k]).len() > 0 && in_range(
            servs,
            slots,
            rest[k],
        ) by {
            assert(rest[k] == groups[k]);
        }
        lemma_impls(crate_path, target, name, servs, slots, rest);
        let group = groups[groups.len() - 1];
        assert(in_range(servs, slots, group));
        assert(0 <= group[0] < slots.len());
        assert(bare_slots(slots)[group[0]] == bare_slot(slots[group[0]]));
        lemma_arms(target, servs, slots, group);
        lemma_markers(
            crate_path,
            target,
            name,
            servs,
            slots,
            slots[group[0]].ty.tokens,
            group,
        );
    }
}

/// All positions of the groups are in range.
proof fn lemma_groups_in_range(servs: Seq<PlanModel>)
    ensures
        all_in_range(servs, all_slots(servs), groups(slot_types(all_slots(servs)))),
{
    let slots = all_slots(servs);
    let types = slot_types(slots);
    lemma_slots_in_range(servs);
    assert forall|k: int| 0 <= k < groups(types).len() implies (#[trigger] groups(types)[k]).len() > 0
        && in_range(servs, slots, groups(types)[k]) by {
        law_group_of_one_type(types, k);
    }
}

/// `service_get_code` has the places of its parts only.
proof fn lemma_service_get(
    name: Named,
    crate_path: Seq<Tok>,
    target: Named,
    servs: Seq<PlanModel>,
)
    ensures
        bare(service_get_code(name, crate_path, target, servs)) == service_get_code(
            bare_name(name),
            bare(crate_path),
            bare_name(target),
            bare_plans(servs),
        ),
{
    broadcast use group_bare;

    let slots = all_slots(servs);
    lemma_all_slots(servs);
    lemma_groups_in_range(servs);
    lemma_impls(crate_path, target, name, servs, slots, groups(slot_types(slots)));
}

/// `chain_code` has the places of its parts only.
proof fn lemma_chain(
    crate_path: Seq<Tok>,
    servs: Seq<PlanModel>,
    slot: SlotModel,
    ty: Seq<Tok>,
)
    requires
        slot.service < servs.len(),
    ensures
        bare(chain_code(crate_path, servs, slot, ty)) == chain_code(
            bare(crate_path),
            bare_plans(servs),
            bare_slot(slot),
            bare(ty),
        ),
{
    broadcast use group_bare;

    assert(bare_plans(servs)[slot.service as int] == bare_plan(servs[slot.service as int]));
}

/// `chains_code` has the places of its parts only.
proof fn lemma_chains(
    crate_path: Seq<Tok>,
    servs: Seq<PlanModel>,
    slots: Seq<SlotModel>,
    ty: Seq<Tok>,
    group: Seq<int>,
)
    requires
        in_range(servs, slots, group),
    ensures
        bare(chains_code(crate_path, servs, slots, ty, group)) == chains_code(
            bare(crate_path),
            bare_plans(servs),
            bare_slots(slots),
            bare(ty),
            group,
        ),
    decreases group.len(),
{
    broadcast use group_bare;

    if group.len() > 0 {
        lemma_chains(crate_path, servs, slots, ty, group.drop_last());
        assert(0 <= group[group.len() - 1] < slots.len());
        assert(bare_slots(slots)[group.last()] == bare_slot(slots[group.last()]));
        lemma_chain(crate_path, servs, slots[group.last()], ty);
    }
}

/// `walks_code` has the places of its parts only.
proof fn lemma_walks(
    crate_path: Seq<Tok>,
    name: Named,
    servs: Seq<PlanModel>,
    slots: Seq<SlotModel>,
    groups: Seq<Seq<int>>,
)
    requires
        all_in_range(servs, slots, groups),
    ensures
        bare(walks_code(crate_path, name, servs, slots, groups)) == walks_code(
            bare(crate_path),
            bare_name(name),
            bare_plans(servs),
            bare_slots(slots),
            groups,
        ),
    decreases groups.len(),
{
    broadcast use group_bare;

    if groups.len() > 0 {
        let rest = groups.drop_last();
        assert forall|k: int| 0 <= k < rest.len() implies (#[trigger] rest[k]).len() > 0 && in_range(
            servs,
            slots,
            rest[k],
        ) by {
            assert(rest[k] == groups[k]);
        }
        lemma_walks(crate_path, name, servs, slots, rest);
        let group = groups[groups.len() - 1];
        assert(in_range(servs, slots, group));
        assert(0 <= group[0] < slots.len());
        assert(bare_slots(slots)[group[0]] == bare_slot(slots[group[0]]));
        lemma_chains(crate_path, servs, slots, slots[group[0]].ty.tokens, group);
    }
}

/// `notifier_senders_code` has the places of its parts only.
proof fn lemma_notifier_senders(name: Named, crate_path: Seq<Tok>, servs: Seq<PlanModel>)
    ensures
        bare(notifier_senders_code(name, crate_path, servs)) == notifier_senders_code(
            bare_name(name),
            bare(crate_path),
            bare_plans(servs),
        ),
{
    let slots = all_slots(servs);
    lemma_all_slots(servs);
    lemma_groups_in_range(servs);
    lemma_walks(crate_path, name, servs, slots, groups(slot_types(slots)));
}

/// `method_code` has the places of its parts only.
proof fn lemma_method(crate_path: Seq<Tok>, target: Named, serv: PlanModel)
    ensures
        bare(method_code(crate_path, target, serv)) == method_code(
            bare(crate_path),
            bare_name(target),
            bare_plan(serv),
        ),
{
    broadcast use group_bare;

}

/// `methods_code` has the places of its parts only.
proof fn lemma_methods(crate_path: Seq<Tok>, target: Named, servs: Seq<PlanModel>)
    ensures
        bare(methods_code(crate_path, target, servs)) == methods_code(
            bare(crate_path),
            bare_name(target),
            bare_plans(servs),
        ),
    decreases servs.len(),
{
    broadcast use group_bare;

    if servs.len() > 0 {
        lemma_last_plan(servs);
        lemma_methods(crate_path, target, servs.drop_last());
        lemma_method(crate_path, target, servs.last());
    }
}

/// `init_parts_code` has the places of its parts only.
proof fn lemma_init_parts(target: Named, serv: PlanModel, n: nat)
    ensures
        bare(init_parts_code(target, serv, n)) == init_parts_code(
            bare_name(target),
            bare_plan(serv),
            n,
        ),
    decreases n,
{
    broadcast use group_bare;

    if n > 0 {
        lemma_init_parts(target, serv, (n - 1) as nat);
    }
}

/// `init_item_parts_code` has the places of its parts only.
proof fn lemma_init_item_parts(ident: Named, n: nat)
    ensures
        bare(init_item_parts_code(ident, n)) == init_item_parts_code(bare_name(ident), n),
    decreases n,
{
    broadcast use group_bare;

    if n > 0 {
        lemma_init_item_parts(ident, (n - 1) as nat);
    }
}

/// `item_body_code` has the places of its parts only.
proof fn lemma_item_body(ident: Named, item: ShapeModel)
    ensures
        bare(item_body_code(ident, item)) == item_body_code(bare_name(ident), bare_shape(item)),
{
    broadcast use group_bare;

    if let ShapeModel::Tuple(list) = item {
        lemma_init_item_parts(ident, list.len());
    }
}

/// `init_code` has the places of its parts only.
proof fn lemma_init(crate_path: Seq<Tok>, target: Named, serv: PlanModel)
    ensures
        bare(init_code(crate_path, target, serv)) == init_code(
            bare(crate_path),
            bare_name(target),
            bare_plan(serv),
        ),
{
    broadcast use group_bare;

    match serv.shape {
        ShapeModel::Once(_) => {},
        ShapeModel::Tuple(list) => lemma_init_parts(target, serv, list.len()),
        ShapeModel::Array(item, _) => lemma_item_body(serv.ident, *item),
    }
}

/// `inits_code` has the places of its parts only.
proof fn lemma_inits(crate_path: Seq<Tok>, target: Named, servs: Seq<PlanModel>)
    ensures
        bare(inits_code(crate_path, target, servs)) == inits_code(
            bare(crate_path),
            bare_name(target),
            bare_plans(servs),
        ),
    decreases servs.len(),
{
    broadcast use group_bare;

    if servs.len() > 0 {
        lemma_last_plan(servs);
        lemma_inits(crate_path, target, servs.drop_last());
        lemma_init(crate_path, target, servs.last());
    }
}

/// `access_code` has the places of its parts only.
proof fn lemma_access(name: Named, crate_path: Seq<Tok>, target: Named, servs: Seq<PlanModel>)
    ensures
        bare(access_code(name, crate_path, target, servs)) == access_code(
            bare_name(name),
            bare(crate_path),
            bare_name(target),
            bare_plans(servs),
        ),
{
    broadcast use group_bare;

    lemma_methods(crate_path, target, servs);
    lemma_inits(crate_path, target, servs);
}

/// Aliases as if they stood at the call site of the derive.
pub open spec fn bare_aliases(aliases: AliasesModel) -> AliasesModel {
    AliasesModel {
        channel: bare_name(aliases.channel),
        channels: bare_name(aliases.channels),
        sender: bare_name(aliases.sender),
        receiver: bare_name(aliases.receiver),
    }
}

/// `aliases_code` has the places of its parts only.
proof fn lemma_aliases(
    vis: Seq<Tok>,
    crate_path: Seq<Tok>,
    name: Named,
    aliases: AliasesModel,
    target: Named,
)
    ensures
        bare(aliases_code(vis, crate_path, name, aliases, target)) == aliases_code(
            bare(vis),
            bare(crate_path),
            bare_name(name),
            bare_aliases(aliases),
            bare_name(target),
        ),
{
    broadcast use group_bare;

}

/// What is written for a struct is, but for places, the same wherever its parts stand.
pub proof fn law_expansion_without_places(
    vis: Seq<Tok>,
    name: Named,
    aliases: AliasesModel,
    target: Named,
    servs: Seq<PlanModel>,
)
    ensures
        bare(expansion_code(vis, name, aliases, target, servs)) == expansion_code(
            bare(vis),
            bare_name(name),
            bare_aliases(aliases),
            bare_name(target),
            bare_plans(servs),
        ),
{
    broadcast use group_bare;

    reveal(expansion_code);
    let crate_path = crate_root_code();
    lemma_aliases(vis, crate_path, name, aliases, target);
    lemma_targets(vis, crate_path, target, servs);
    lemma_service_get(name, crate_path, target, servs);
    lemma_notifier_senders(name, crate_path, servs);
    lemma_access(name, crate_path, target, servs);
}

/// Whether two fields have the same name, the same first `cfg` attribute and the same services, but
/// for places and for the constants of the services.
pub open spec fn alike(a: FieldModel, b: FieldModel) -> bool {
    &&& match (a.ident, b.ident) {
        (Some(x), Some(y)) => x.text == y.text,
        (None, None) => true,
        _ => false,
    }
    &&& a.native == b.native
    &&& bare(first_cfg(a.attrs)) == bare(first_cfg(b.attrs))
    &&& match (field_types(a.ty), field_types(b.ty)) {
        (Ok(x), Ok(y)) => bare_shape(shape(x)) == bare_shape(shape(y)),
        _ => false,
    }
}

/// Whether two structs have, but for places, the same visibility, the same name, the same name for
/// their targets, and fields marked as services that are alike. Either both are the compiler's own or
/// none is.
pub open spec fn structs_alike(a: StructModel, b: StructModel) -> bool {
    &&& bare(a.vis) == bare(b.vis)
    &&& a.ident.text == b.ident.text
    &&& a.native == b.native
    &&& settings(a.attrs)["targets"@].text == settings(b.attrs)["targets"@].text
    &&& service_fields(a.fields).len() == service_fields(b.fields).len()
    &&& forall|i: int|
        0 <= i < service_fields(a.fields).len() ==> alike(
            #[trigger] service_fields(a.fields)[i],
            service_fields(b.fields)[i],
        )
}

/// What is written for a struct is, but for places, a matter of its visibility, its name, the name
/// of its targets, and of its services: the name, the first `cfg` attribute, the message types and
/// the lengths of arrays. The constants of the services, what stands before them in their paths,
/// other fields, generics and other attributes have no influence.
pub proof fn law_shapes_decide(a: StructModel, b: StructModel)
    requires
        structs_alike(a, b),
    ensures
        bare(struct_code(a)) == bare(struct_code(b)),
{
    let mine = service_fields(a.fields);
    let yours = service_fields(b.fields);
    assert forall|i: int| 0 <= i < mine.len() implies field_types((#[trigger] mine[i]).ty) is Ok
        && field_types(yours[i].ty) is Ok by {
        assert(alike(mine[i], yours[i]));
    }
    assert forall|i: int| 0 <= i < yours.len() implies field_types((#[trigger] yours[i]).ty) is Ok by {
        assert(field_types(mine[i].ty) is Ok);
    }
    law_first_error_counts(mine);
    law_first_error_counts(yours);
    let xs = plans(services(mine));
    let ys = plans(services(yours));
    assert forall|i: int| 0 <= i < xs.len() implies bare_plans(xs)[i] == bare_plans(ys)[i] by {
        assert(alike(mine[i], yours[i]));
        assert(services(mine)[i].ty == field_types(mine[i].ty)->Ok_0);
        assert(services(yours)[i].ty == field_types(yours[i].ty)->Ok_0);
    }
    assert(bare_plans(xs) =~= bare_plans(ys));
    law_expansion_without_places(
        a.vis,
        a.ident,
        aliases_of(a.ident, a.native),
        settings(a.attrs)["targets"@],
        xs,
    );
    law_expansion_without_places(
        b.vis,
        b.ident,
        aliases_of(b.ident, b.native),
        settings(b.attrs)["targets"@],
        ys,
    );
}

} // verus!
