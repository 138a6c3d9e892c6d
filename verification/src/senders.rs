//! Walking all services of a message type.

use proc_macro2::{Ident, TokenStream};
use vstd::prelude::*;

use crate::code::{flat, lemma_words, no_code, Code, Snippet};
use crate::field::FieldTypes;
use crate::grouping::{groups, law_group_of_one_type, position_lists, positions};
use crate::ident::{named, Named};
use crate::read::type_tokens;
use crate::service::{plan, plan_views, PlanModel, Services};
use crate::service_get::{
    all_markers_code, arms_code, get_impl_code, impls_code, service_get_code, slot_arm_code,
};
use crate::slot::{
    all_slots, lemma_slots_in_range, none_nested, slot_groups, slot_types, slot_views, slots, Slot,
    SlotModel,
};
use crate::targets::is_indexed;
use crate::token::{push_stream, tokens, Tok};

verus! {

/// How the services of one message type are reached from a field: from the field itself or from
/// each item of it, and at which place in a group.
pub enum NotifTypes {
    Once(Option<usize>),
    Array(Option<usize>),
}

/// `as &dyn crate_path::DynamicService<ty>`.
pub open spec fn as_service_code(crate_path: Seq<Tok>, ty: Seq<Tok>) -> Seq<Tok> {
    no_code()
        .word("as"@).punct('&').word("dyn"@).code(crate_path).colons().word("DynamicService"@)
        .punct('<').code(ty).punct('>')
}

fn as_service(crate_path: &TokenStream, ty: &TokenStream) -> (code: TokenStream)
    ensures
        tokens(code) == as_service_code(tokens(*crate_path), tokens(*ty)),
{
    proof {
        lemma_words();
    }
    Code::new()
        .word("as").punct('&').word("dyn").code(crate_path).colons().word("DynamicService")
        .punct('<').code(ty).punct('>').done()
}

/// `attr let iter = iter.chain([&self.ident suffix cast].into_iter());`.
pub open spec fn chain_one_code(
    attr: Seq<Tok>,
    ident: Named,
    suffix: Seq<Tok>,
    cast: Seq<Tok>,
) -> Seq<Tok> {
    no_code()
        .code(attr).word("let"@).word("iter"@).punct('=').word("iter"@).punct('.')
        .word("chain"@).paren(
            no_code()
                .bracket(
                    no_code()
                        .punct('&').word("self"@).punct('.').name(ident).code(suffix).code(cast),
                ).punct('.').word("into_iter"@).paren(no_code()),
        ).punct(';')
}

fn chain_one(
    attr: &TokenStream,
    ident: &Ident,
    suffix: &TokenStream,
    cast: &TokenStream,
) -> (code: TokenStream)
    ensures
        tokens(code) == chain_one_code(
            tokens(*attr),
            named(*ident),
            tokens(*suffix),
            tokens(*cast),
        ),
{
    proof {
        lemma_words();
    }
    Code::new()
        .code(attr).word("let").word("iter").punct('=').word("iter").punct('.').word("chain")
        .paren(
            Code::new()
                .bracket(
                    Code::new()
                        .punct('&').word("self").punct('.').ident(ident).code(suffix).code(cast),
                ).punct('.').word("into_iter").paren(Code::new()),
        ).punct(';').done()
}

/// `attr let iter = iter.chain(self.ident.iter().map(|item| prefix item suffix cast));`.
pub open spec fn chain_items_code(
    attr: Seq<Tok>,
    ident: Named,
    prefix: Seq<Tok>,
    suffix: Seq<Tok>,
    cast: Seq<Tok>,
) -> Seq<Tok> {
    no_code()
        .code(attr).word("let"@).word("iter"@).punct('=').word("iter"@).punct('.')
        .word("chain"@).paren(
            no_code()
                .word("self"@).punct('.').name(ident).punct('.').word("iter"@).paren(no_code())
                .punct('.').word("map"@).paren(
                    no_code()
                        .punct('|').word("item"@).punct('|').code(prefix).word("item"@)
                        .code(suffix).code(cast),
                ),
        ).punct(';')
}

fn chain_items(
    attr: &TokenStream,
    ident: &Ident,
    prefix: &TokenStream,
    suffix: &TokenStream,
    cast: &TokenStream,
) -> (code: TokenStream)
    ensures
        tokens(code) == chain_items_code(
            tokens(*attr),
            named(*ident),
            tokens(*prefix),
            tokens(*suffix),
            tokens(*cast),
        ),
{
    proof {
        lemma_words();
    }
    Code::new()
        .code(attr).word("let").word("iter").punct('=').word("iter").punct('.').word("chain")
        .paren(
            Code::new()
                .word("self").punct('.').ident(ident).punct('.').word("iter").paren(Code::new())
                .punct('.').word("map").paren(
                    Code::new()
                        .punct('|').word("item").punct('|').code(prefix).word("item")
                        .code(suffix).code(cast),
                ),
        ).punct(';').done()
}

/// `impl crate_path::NotifierSenders<ty> for name { type Iter<'ch> = impl Iterator<Item = &'ch dyn
/// DynamicService<ty>> + Clone where ty: 'ch, Self: 'ch; fn get<'ch>(&'ch self) -> Self::Iter<'ch>
/// { let iter = [].into_iter(); iters iter } }`.
pub open spec fn senders_impl_code(
    crate_path: Seq<Tok>,
    name: Named,
    ty: Seq<Tok>,
    iters: Seq<Tok>,
) -> Seq<Tok> {
    no_code()
        .word("impl"@).code(crate_path).colons().word("NotifierSenders"@).punct('<').code(ty)
        .punct('>').word("for"@).name(name).brace(
            no_code()
                .word("type"@).word("Iter"@).punct('<').lifetime("ch"@).punct('>').punct('=')
                .word("impl"@).word("Iterator"@).punct('<').word("Item"@).punct('=').punct('&')
                .lifetime("ch"@).word("dyn"@).word("DynamicService"@).punct('<').code(ty)
                .operator('>', '>').punct('+').word("Clone"@).word("where"@).code(ty).punct(':')
                .lifetime("ch"@).punct(',').word("Self"@).punct(':').lifetime("ch"@).punct(';')
                .word("fn"@).word("get"@).punct('<').lifetime("ch"@).punct('>')
                .paren(no_code().punct('&').lifetime("ch"@).word("self"@)).arrow().word("Self"@)
                .colons().word("Iter"@).punct('<').lifetime("ch"@).punct('>').brace(
                    no_code()
                        .word("let"@).word("iter"@).punct('=').bracket(no_code()).punct('.')
                        .word("into_iter"@).paren(no_code()).punct(';').code(iters)
                        .word("iter"@),
                ),
        )
}

fn senders_impl(
    crate_path: &TokenStream,
    name: &Ident,
    ty: &TokenStream,
    iters: &TokenStream,
) -> (code: TokenStream)
    ensures
        tokens(code) == senders_impl_code(
            tokens(*crate_path),
            named(*name),
            tokens(*ty),
            tokens(*iters),
        ),
{
    proof {
        lemma_words();
    }
    Code::new()
        .word("impl").code(crate_path).colons().word("NotifierSenders").punct('<').code(ty)
        .punct('>').word("for").ident(name).brace(
            Code::new()
                .word("type").word("Iter").punct('<').lifetime("ch").punct('>').punct('=')
                .word("impl").word("Iterator").punct('<').word("Item").punct('=').punct('&')
                .lifetime("ch").word("dyn").word("DynamicService").punct('<').code(ty)
                .operator('>', '>').punct('+').word("Clone").word("where").code(ty).punct(':')
                .lifetime("ch").punct(',').word("Self").punct(':').lifetime("ch").punct(';')
                .word("fn").word("get").punct('<').lifetime("ch").punct('>')
                .paren(Code::new().punct('&').lifetime("ch").word("self")).arrow().word("Self")
                .colons().word("Iter").punct('<').lifetime("ch").punct('>').brace(
                    Code::new()
                        .word("let").word("iter").punct('=').bracket(Code::new()).punct('.')
                        .word("into_iter").paren(Code::new()).punct(';').code(iters)
                        .word("iter"),
                ),
        ).done()
}

/// The place of a single service in its group, where it stands in one.
pub open spec fn place_code(index: Option<nat>) -> Seq<Tok> {
    match index {
        Some(index) => no_code().punct('.').digits(index),
        None => no_code(),
    }
}

/// What adds a single service, or all of an array, to the walk.
pub open spec fn chain_code(
    crate_path: Seq<Tok>,
    servs: Seq<PlanModel>,
    slot: SlotModel,
    ty: Seq<Tok>,
) -> Seq<Tok> {
    let serv = servs[slot.service as int];
    let cast = as_service_code(crate_path, ty);
    if is_indexed(serv.shape) {
        let prefix = if slot.index is Some {
            no_code().punct('&')
        } else {
            no_code()
        };
        chain_items_code(serv.attr, serv.ident, prefix, place_code(slot.index), cast)
    } else {
        chain_one_code(serv.attr, serv.ident, place_code(slot.index), cast)
    }
}

/// What adds the single services at the given positions to the walk.
pub open spec fn chains_code(
    crate_path: Seq<Tok>,
    servs: Seq<PlanModel>,
    slots: Seq<SlotModel>,
    ty: Seq<Tok>,
    group: Seq<int>,
) -> Seq<Tok>
    decreases group.len(),
{
    if group.len() == 0 {
        no_code()
    } else {
        chains_code(crate_path, servs, slots, ty, group.drop_last()) + chain_code(
            crate_path,
            servs,
            slots[group.last()],
            ty,
        )
    }
}

/// For each group the impl that walks its single services.
pub open spec fn walks_code(
    crate_path: Seq<Tok>,
    name: Named,
    servs: Seq<PlanModel>,
    slots: Seq<SlotModel>,
    groups: Seq<Seq<int>>,
) -> Seq<Tok>
    decreases groups.len(),
{
    if groups.len() == 0 {
        no_code()
    } else {
        let group = groups.last();
        let ty = slots[group[0]].ty.tokens;
        walks_code(crate_path, name, servs, slots, groups.drop_last()) + senders_impl_code(
            crate_path,
            name,
            ty,
            chains_code(crate_path, servs, slots, ty, group),
        )
    }
}

/// For each message type the impl that walks its services, in the order in which the types come
/// up.
pub open spec fn notifier_senders_code(
    name: Named,
    crate_path: Seq<Tok>,
    servs: Seq<PlanModel>,
) -> Seq<Tok> {
    let slots = all_slots(servs);
    walks_code(crate_path, name, servs, slots, groups(slot_types(slots)))
}

/// How a single service is reached.
fn reach(serv: &Services, slot: &Slot) -> (notif: NotifTypes)
    ensures
        notif == (if is_indexed(plan(serv@).shape) {
            NotifTypes::Array(slot.index)
        } else {
            NotifTypes::Once(slot.index)
        }),
{
    if let FieldTypes::Array(_, _) = &serv.ty {
        NotifTypes::Array(slot.index)
    } else {
        NotifTypes::Once(slot.index)
    }
}

/// The place of a single service in its group.
fn place(index: Option<usize>) -> (code: TokenStream)
    ensures
        tokens(code) == place_code(
            match index {
                Some(index) => Some(index as nat),
                None => None,
            },
        ),
{
    match index {
        Some(index) => Code::new().punct('.').digits(index).done(),
        None => TokenStream::new(),
    }
}

/// What adds a single service, or all of an array, to the walk.
fn chain(
    crate_path: &TokenStream,
    servs: &Vec<Services>,
    slot: &Slot,
    ty: &TokenStream,
) -> (code: TokenStream)
    requires
        slot.service < servs.len(),
    ensures
        tokens(code) == chain_code(
            tokens(*crate_path),
            plan_views(servs@),
            slot@,
            tokens(*ty),
        ),
{
    let serv = &servs[slot.service];
    assert(plan_views(servs@)[slot@.service as int] == plan(serv@));
    let cast = as_service(crate_path, ty);
    match reach(serv, slot) {
        NotifTypes::Once(index) => chain_one(&serv.attr, &serv.ident, &place(index), &cast),
        NotifTypes::Array(index) => {
            let prefix = if index.is_some() {
                Code::new().punct('&').done()
            } else {
                TokenStream::new()
            };
            chain_items(&serv.attr, &serv.ident, &prefix, &place(index), &cast)
        },
    }
}

/// What adds the single services at the given positions to the walk.
fn chains(
    crate_path: &TokenStream,
    servs: &Vec<Services>,
    slots: &Vec<Slot>,
    ty: &TokenStream,
    group: &Vec<usize>,
) -> (code: TokenStream)
    requires
        forall|i: int| 0 <= i < slots.len() ==> (#[trigger] slots[i]).service < servs.len(),
        forall|m: int| 0 <= m < group.len() ==> (#[trigger] group[m]) < slots.len(),
    ensures
        tokens(code) == chains_code(
            tokens(*crate_path),
            plan_views(servs@),
            slot_views(slots@),
            tokens(*ty),
            positions(group@),
        ),
{
    let ghost list = positions(group@);
    let mut code = TokenStream::new();
    let mut m: usize = 0;
    while m < group.len()
        invariant
            m <= group.len(),
            list == positions(group@),
            forall|i: int| 0 <= i < slots.len() ==> (#[trigger] slots[i]).service < servs.len(),
            forall|m: int| 0 <= m < group.len() ==> (#[trigger] group[m]) < slots.len(),
            tokens(code) == chains_code(
                tokens(*crate_path),
                plan_views(servs@),
                slot_views(slots@),
                tokens(*ty),
                list.take(m as int),
            ),
        decreases group.len() - m,
    {
        let slot = &slots[group[m]];
        assert(list.take(m + 1).drop_last() == list.take(m as int));
        assert(list.take(m + 1).last() == group[m as int]);
        assert(slot_views(slots@)[group[m as int] as int] == slot@);
        push_stream(&mut code, &chain(crate_path, servs, slot, ty));
        m += 1;
    }
    assert(list.take(m as int) == list);
    code
}

/// Writes the walks over the services of each message type. The impls come in the order in which
/// the types come up.
pub fn notifier_senders(
    name: &Ident,
    crate_path: &TokenStream,
    servs: &Vec<Services>,
) -> (code: TokenStream)
    requires
        none_nested(plan_views(servs@)),
    ensures
        tokens(code) == notifier_senders_code(
            named(*name),
            tokens(*crate_path),
            plan_views(servs@),
        ),
{
    let slots = slots(servs);
    let sorted = slot_groups(&slots);
    let ghost all = plan_views(servs@);
    let ghost list = slot_views(slots@);
    let ghost parts = groups(slot_types(list));
    proof {
        lemma_slots_in_range(all);
        assert forall|i: int| 0 <= i < slots.len() implies (#[trigger] slots[i]).service
            < servs.len() by {
            assert(list[i] == slots[i]@);
        }
    }
    let mut code = TokenStream::new();
    let mut k: usize = 0;
    while k < sorted.len()
        invariant
            k <= sorted.len(),
            all == plan_views(servs@),
            list == slot_views(slots@),
            parts == groups(slot_types(list)),
            position_lists(sorted@) == parts,
            forall|i: int| 0 <= i < slots.len() ==> (#[trigger] slots[i]).service < servs.len(),
            tokens(code) == walks_code(
                tokens(*crate_path),
                named(*name),
                all,
                list,
                parts.take(k as int),
            ),
        decreases sorted.len() - k,
    {
        let group = &sorted[k];
        proof {
            assert(parts.take(k + 1).drop_last() == parts.take(k as int));
            assert(parts.take(k + 1).last() == parts[k as int]);
            assert(parts[k as int] == positions(group@));
            law_group_of_one_type(slot_types(list), k as int);
            assert forall|m: int| 0 <= m < group.len() implies (#[trigger] group[m])
                < slots.len() by {
                assert(parts[k as int][m] == group[m]);
            }
            assert(parts[k as int][0] == group[0]);
            assert(list[group[0] as int] == slots[group[0] as int]@);
        }
        let ty = type_tokens(&slots[group[0]].ty);
        let iters = chains(crate_path, servs, &slots, &ty, group);
        push_stream(&mut code, &senders_impl(crate_path, name, &ty, &iters));
        k += 1;
    }
    assert(parts.take(k as int) == parts);
    code
}

/// Each step of a walk stands under the `cfg` attribute of its field.
pub proof fn law_walk_under_cfg(
    crate_path: Seq<Tok>,
    servs: Seq<PlanModel>,
    slot: SlotModel,
    ty: Seq<Tok>,
)
    ensures
        servs[slot.service as int].attr.is_prefix_of(chain_code(crate_path, servs, slot, ty)),
{
}

/// The steps of a walk are one for each position.
proof fn lemma_chains(
    crate_path: Seq<Tok>,
    servs: Seq<PlanModel>,
    slots: Seq<SlotModel>,
    ty: Seq<Tok>,
    group: Seq<int>,
)
    ensures
        chains_code(crate_path, servs, slots, ty, group) == flat(
            group.map_values(|i: int| chain_code(crate_path, servs, slots[i], ty)),
        ),
    decreases group.len(),
{
    if group.len() > 0 {
        lemma_chains(crate_path, servs, slots, ty, group.drop_last());
        let list = group.map_values(|i: int| chain_code(crate_path, servs, slots[i], ty));
        assert(list.drop_last() =~= group.drop_last().map_values(
            |i: int| chain_code(crate_path, servs, slots[i], ty),
        ));
    }
}

/// The arms of a lookup are one for each position.
proof fn lemma_arms(
    target: Named,
    servs: Seq<PlanModel>,
    slots: Seq<SlotModel>,
    group: Seq<int>,
)
    ensures
        arms_code(target, servs, slots, group) == flat(
            group.map_values(|i: int| slot_arm_code(target, servs, slots[i])),
        ),
    decreases group.len(),
{
    if group.len() > 0 {
        lemma_arms(target, servs, slots, group.drop_last());
        let list = group.map_values(|i: int| slot_arm_code(target, servs, slots[i]));
        assert(list.drop_last() =~= group.drop_last().map_values(
            |i: int| slot_arm_code(target, servs, slots[i]),
        ));
    }
}

/// The walk over the services at the given positions, which have the type of the first one.
pub open spec fn walk_code(
    name: Named,
    crate_path: Seq<Tok>,
    servs: Seq<PlanModel>,
    slots: Seq<SlotModel>,
    group: Seq<int>,
) -> Seq<Tok> {
    let ty = slots[group[0]].ty.tokens;
    let steps = group.map_values(|i: int| chain_code(crate_path, servs, slots[i], ty));
    senders_impl_code(crate_path, name, ty, flat(steps))
}

/// The lookup of the services at the given positions, which have the type of the first one.
pub open spec fn lookup_code(
    name: Named,
    crate_path: Seq<Tok>,
    target: Named,
    servs: Seq<PlanModel>,
    slots: Seq<SlotModel>,
    group: Seq<int>,
) -> Seq<Tok> {
    let ty = slots[group[0]].ty.tokens;
    let arms = group.map_values(|i: int| slot_arm_code(target, servs, slots[i]));
    get_impl_code(crate_path, target, name, ty, flat(arms))
}

/// Each group has its walk.
proof fn lemma_walks(
    name: Named,
    crate_path: Seq<Tok>,
    servs: Seq<PlanModel>,
    slots: Seq<SlotModel>,
    groups: Seq<Seq<int>>,
)
    ensures
        walks_code(crate_path, name, servs, slots, groups) == flat(
            groups.map_values(
                |group: Seq<int>| walk_code(name, crate_path, servs, slots, group),
            ),
        ),
    decreases groups.len(),
{
    if groups.len() > 0 {
        let rest = groups.drop_last();
        let group = groups.last();
        lemma_walks(name, crate_path, servs, slots, rest);
        lemma_chains(crate_path, servs, slots, slots[group[0]].ty.tokens, group);
        let list = groups.map_values(
            |group: Seq<int>| walk_code(name, crate_path, servs, slots, group),
        );
        assert(list.drop_last() =~= rest.map_values(
            |group: Seq<int>| walk_code(name, crate_path, servs, slots, group),
        ));
    }
}

/// Each group has its lookup.
proof fn lemma_lookups(
    name: Named,
    crate_path: Seq<Tok>,
    target: Named,
    servs: Seq<PlanModel>,
    slots: Seq<SlotModel>,
    groups: Seq<Seq<int>>,
)
    ensures
        impls_code(crate_path, target, name, servs, slots, groups) == flat(
            groups.map_values(
                |group: Seq<int>| lookup_code(name, crate_path, target, servs, slots, group),
            ),
        ),
    decreases groups.len(),
{
    if groups.len() > 0 {
        let rest = groups.drop_last();
        let group = groups.last();
        lemma_lookups(name, crate_path, target, servs, slots, rest);
        lemma_arms(target, servs, slots, group);
        let list = groups.map_values(
            |group: Seq<int>| lookup_code(name, crate_path, target, servs, slots, group),
        );
        assert(list.drop_last() =~= rest.map_values(
            |group: Seq<int>| lookup_code(name, crate_path, target, servs, slots, group),
        ));
    }
}

/// The walks and the lookups are of the same message types, in the same order: one of each for each
/// group of services. The walk of a group has a step, and its lookup an arm, for each service of the
/// group, so it has as many of the one as of the other.
pub proof fn law_walks_match_lookups(
    name: Named,
    crate_path: Seq<Tok>,
    target: Named,
    servs: Seq<PlanModel>,
)
    ensures
        ({
            let slots = all_slots(servs);
            let groups = groups(slot_types(slots));
            &&& notifier_senders_code(name, crate_path, servs) == flat(
                groups.map_values(
                    |group: Seq<int>| walk_code(name, crate_path, servs, slots, group),
                ),
            )
            &&& service_get_code(name, crate_path, target, servs) == flat(
                groups.map_values(
                    |group: Seq<int>| lookup_code(name, crate_path, target, servs, slots, group),
                ),
            ) + all_markers_code(crate_path, target, name, servs, slots, groups)
        }),
{
    let slots = all_slots(servs);
    let groups = groups(slot_types(slots));
    lemma_walks(name, crate_path, servs, slots, groups);
    lemma_lookups(name, crate_path, target, servs, slots, groups);
}

} // verus!
