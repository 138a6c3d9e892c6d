//! Looking a service up by its target.

use proc_macro2::{Ident, TokenStream};
use vstd::prelude::*;

use crate::code::{lemma_words, no_code, Code, Snippet};
use crate::field::FieldTypes;
use crate::grouping::{groups, law_group_of_one_type, position_lists, positions};
use crate::ident::{named, Named};
use crate::read::type_tokens;
use crate::service::{plan, plan_views, PlanModel, Services};
use crate::slot::{
    all_slots, lemma_slots_in_range, none_nested, slot_groups, slot_types, slot_views, slots, Slot,
    SlotModel,
};
use crate::targets::is_indexed;
use crate::token::{push_stream, tokens, Tok};

verus! {

/// `.get(match index { ::core::option::Option::Some(index) => index, ::core::option::Option::None
/// => return ::core::option::Option::None, }) { ::core::option::Option::Some(service) => service,
/// ::core::option::Option::None => return ::core::option::Option::None, }`.
pub open spec fn lookup_tail_code() -> Seq<Tok> {
    no_code()
        .punct('.').word("get"@).paren(
            no_code()
                .word("match"@).word("index"@).brace(
                    no_code()
                        .colons().word("core"@).colons().word("option"@).colons()
                        .word("Option"@).colons().word("Some"@).paren(no_code().word("index"@))
                        .fat_arrow().word("index"@).punct(',').colons().word("core"@).colons()
                        .word("option"@).colons().word("Option"@).colons().word("None"@)
                        .fat_arrow().word("return"@).colons().word("core"@).colons()
                        .word("option"@).colons().word("Option"@).colons().word("None"@)
                        .punct(','),
                ),
        ).brace(
            no_code()
                .colons().word("core"@).colons().word("option"@).colons().word("Option"@)
                .colons().word("Some"@).paren(no_code().word("service"@)).fat_arrow()
                .word("service"@).punct(',').colons().word("core"@).colons().word("option"@)
                .colons().word("Option"@).colons().word("None"@).fat_arrow().word("return"@)
                .colons().word("core"@).colons().word("option"@).colons().word("Option"@)
                .colons().word("None"@).punct(','),
        )
}

fn lookup_tail() -> (code: TokenStream)
    ensures
        tokens(code) == lookup_tail_code(),
{
    proof {
        lemma_words();
    }
    Code::new()
        .punct('.').word("get").paren(
            Code::new()
                .word("match").word("index").brace(
                    Code::new()
                        .colons().word("core").colons().word("option").colons().word("Option")
                        .colons().word("Some").paren(Code::new().word("index")).fat_arrow()
                        .word("index").punct(',').colons().word("core").colons().word("option")
                        .colons().word("Option").colons().word("None").fat_arrow()
                        .word("return").colons().word("core").colons().word("option").colons()
                        .word("Option").colons().word("None").punct(','),
                ),
        ).brace(
            Code::new()
                .colons().word("core").colons().word("option").colons().word("Option").colons()
                .word("Some").paren(Code::new().word("service")).fat_arrow().word("service")
                .punct(',').colons().word("core").colons().word("option").colons()
                .word("Option").colons().word("None").fat_arrow().word("return").colons()
                .word("core").colons().word("option").colons().word("Option").colons()
                .word("None").punct(','),
        ).done()
}

/// `upper(index)`.
pub open spec fn with_index_code(upper: Named) -> Seq<Tok> {
    no_code().name(upper).paren(no_code().word("index"@))
}

fn with_index(upper: &Ident) -> (code: TokenStream)
    ensures
        tokens(code) == with_index_code(named(*upper)),
{
    proof {
        lemma_words();
    }
    Code::new().ident(upper).paren(Code::new().word("index")).done()
}

/// `upper(None)`.
pub open spec fn without_index_code(upper: Named) -> Seq<Tok> {
    no_code().name(upper).paren(no_code().word("None"@))
}

fn without_index(upper: &Ident) -> (code: TokenStream)
    ensures
        tokens(code) == without_index_code(named(*upper)),
{
    proof {
        lemma_words();
    }
    Code::new().ident(upper).paren(Code::new().word("None")).done()
}

/// `attr target::id => { prefix self.ident suffix }`.
pub open spec fn get_arm_code(
    attr: Seq<Tok>,
    target: Named,
    id: Seq<Tok>,
    prefix: Seq<Tok>,
    ident: Named,
    suffix: Seq<Tok>,
) -> Seq<Tok> {
    no_code()
        .code(attr).name(target).colons().code(id).fat_arrow()
        .brace(no_code().code(prefix).word("self"@).punct('.').name(ident).code(suffix))
}

fn get_arm(
    attr: &TokenStream,
    target: &Ident,
    id: &TokenStream,
    prefix: &TokenStream,
    ident: &Ident,
    suffix: &TokenStream,
) -> (code: TokenStream)
    ensures
        tokens(code) == get_arm_code(
            tokens(*attr),
            named(*target),
            tokens(*id),
            tokens(*prefix),
            named(*ident),
            tokens(*suffix),
        ),
{
    proof {
        lemma_words();
    }
    Code::new()
        .code(attr).ident(target).colons().code(id).fat_arrow()
        .brace(Code::new().code(prefix).word("self").punct('.').ident(ident).code(suffix))
        .done()
}

/// `impl crate_path::ServiceGet<ty> for name { fn get(&self, id: impl Into<crate_path::ID>) ->
/// ::core::option::Option<&'_ dyn crate_path::DynamicService<ty>> { let id: crate_path::ID =
/// id.into(); ::core::option::Option::Some(match target::from(id) { arms _ => return
/// ::core::option::Option::None }) } }`.
pub open spec fn get_impl_code(
    crate_path: Seq<Tok>,
    target: Named,
    name: Named,
    ty: Seq<Tok>,
    arms: Seq<Tok>,
) -> Seq<Tok> {
    no_code()
        .word("impl"@).code(crate_path).colons().word("ServiceGet"@).punct('<').code(ty)
        .punct('>').word("for"@).name(name).brace(
            no_code()
                .word("fn"@).word("get"@).paren(
                    no_code()
                        .punct('&').word("self"@).punct(',').word("id"@).punct(':')
                        .word("impl"@).word("Into"@).punct('<').code(crate_path).colons()
                        .word("ID"@).punct('>'),
                ).arrow().colons().word("core"@).colons().word("option"@).colons()
                .word("Option"@).punct('<').punct('&').lifetime("_"@).word("dyn"@)
                .code(crate_path).colons().word("DynamicService"@).punct('<').code(ty)
                .operator('>', '>').brace(
                    no_code()
                        .word("let"@).word("id"@).punct(':').code(crate_path).colons()
                        .word("ID"@).punct('=').word("id"@).punct('.').word("into"@)
                        .paren(no_code()).punct(';').colons().word("core"@).colons()
                        .word("option"@).colons().word("Option"@).colons().word("Some"@).paren(
                            no_code()
                                .word("match"@).name(target).colons().word("from"@)
                                .paren(no_code().word("id"@)).brace(
                                    no_code()
                                        .code(arms).word("_"@).fat_arrow().word("return"@)
                                        .colons().word("core"@).colons().word("option"@)
                                        .colons().word("Option"@).colons().word("None"@),
                                ),
                        ),
                ),
        )
}

fn get_impl(
    crate_path: &TokenStream,
    target: &Ident,
    name: &Ident,
    ty: &TokenStream,
    arms: &TokenStream,
) -> (code: TokenStream)
    ensures
        tokens(code) == get_impl_code(
            tokens(*crate_path),
            named(*target),
            named(*name),
            tokens(*ty),
            tokens(*arms),
        ),
{
    proof {
        lemma_words();
    }
    Code::new()
        .word("impl").code(crate_path).colons().word("ServiceGet").punct('<').code(ty)
        .punct('>').word("for").ident(name).brace(
            Code::new()
                .word("fn").word("get").paren(
                    Code::new()
                        .punct('&').word("self").punct(',').word("id").punct(':').word("impl")
                        .word("Into").punct('<').code(crate_path).colons().word("ID").punct('>'),
                ).arrow().colons().word("core").colons().word("option").colons().word("Option")
                .punct('<').punct('&').lifetime("_").word("dyn").code(crate_path).colons()
                .word("DynamicService").punct('<').code(ty).operator('>', '>').brace(
                    Code::new()
                        .word("let").word("id").punct(':').code(crate_path).colons().word("ID")
                        .punct('=').word("id").punct('.').word("into").paren(Code::new())
                        .punct(';').colons().word("core").colons().word("option").colons()
                        .word("Option").colons().word("Some").paren(
                            Code::new()
                                .word("match").ident(target).colons().word("from")
                                .paren(Code::new().word("id")).brace(
                                    Code::new()
                                        .code(arms).word("_").fat_arrow().word("return")
                                        .colons().word("core").colons().word("option").colons()
                                        .word("Option").colons().word("None"),
                                ),
                        ),
                ),
        ).done()
}

/// `attr impl crate_path::marker::ServiceGet<{ target::id.id() }, ty> for name { }`.
pub open spec fn marker_impl_code(
    attr: Seq<Tok>,
    crate_path: Seq<Tok>,
    target: Named,
    id: Seq<Tok>,
    ty: Seq<Tok>,
    name: Named,
) -> Seq<Tok> {
    no_code()
        .code(attr).word("impl"@).code(crate_path).colons().word("marker"@).colons()
        .word("ServiceGet"@).punct('<')
        .brace(no_code().name(target).colons().code(id).punct('.').word("id"@).paren(no_code()))
        .punct(',').code(ty).punct('>').word("for"@).name(name).brace(no_code())
}

fn marker_impl(
    attr: &TokenStream,
    crate_path: &TokenStream,
    target: &Ident,
    id: &TokenStream,
    ty: &TokenStream,
    name: &Ident,
) -> (code: TokenStream)
    ensures
        tokens(code) == marker_impl_code(
            tokens(*attr),
            tokens(*crate_path),
            named(*target),
            tokens(*id),
            tokens(*ty),
            named(*name),
        ),
{
    proof {
        lemma_words();
    }
    Code::new()
        .code(attr).word("impl").code(crate_path).colons().word("marker").colons()
        .word("ServiceGet").punct('<').brace(
            Code::new().ident(target).colons().code(id).punct('.').word("id").paren(Code::new()),
        ).punct(',').code(ty).punct('>').word("for").ident(name).brace(Code::new()).done()
}

/// The pattern of the target of a service, which binds the index where there is one.
pub open spec fn pattern_code(serv: PlanModel) -> Seq<Tok> {
    if is_indexed(serv.shape) {
        with_index_code(serv.upper)
    } else {
        no_code().name(serv.upper)
    }
}

/// The target of a service, without an index.
pub open spec fn target_code(serv: PlanModel) -> Seq<Tok> {
    if is_indexed(serv.shape) {
        without_index_code(serv.upper)
    } else {
        no_code().name(serv.upper)
    }
}

/// What stands before the field in an arm: a reference to a single service, a look into an array,
/// or a reference to a part of what the look finds.
pub open spec fn prefix_code(serv: PlanModel, slot: SlotModel) -> Seq<Tok> {
    if !is_indexed(serv.shape) {
        no_code().punct('&')
    } else if slot.index is None {
        no_code().word("match"@)
    } else {
        no_code().punct('&').word("match"@)
    }
}

/// What stands after the field in an arm: the look into an array by the index, then the place in
/// a group.
pub open spec fn suffix_code(serv: PlanModel, slot: SlotModel) -> Seq<Tok> {
    let look = if is_indexed(serv.shape) {
        lookup_tail_code()
    } else {
        no_code()
    };
    match slot.index {
        Some(index) => look.punct('.').digits(index),
        None => look,
    }
}

/// The arm that finds a single service.
pub open spec fn slot_arm_code(
    target: Named,
    servs: Seq<PlanModel>,
    slot: SlotModel,
) -> Seq<Tok> {
    let serv = servs[slot.service as int];
    get_arm_code(
        serv.attr,
        target,
        pattern_code(serv),
        prefix_code(serv, slot),
        serv.ident,
        suffix_code(serv, slot),
    )
}

/// The arms that find the single services at the given positions.
pub open spec fn arms_code(
    target: Named,
    servs: Seq<PlanModel>,
    slots: Seq<SlotModel>,
    group: Seq<int>,
) -> Seq<Tok>
    decreases group.len(),
{
    if group.len() == 0 {
        no_code()
    } else {
        arms_code(target, servs, slots, group.drop_last()) + slot_arm_code(
            target,
            servs,
            slots[group.last()],
        )
    }
}

/// What marks the targets of the single services at the given positions as having the type.
pub open spec fn markers_code(
    crate_path: Seq<Tok>,
    target: Named,
    name: Named,
    servs: Seq<PlanModel>,
    slots: Seq<SlotModel>,
    ty: Seq<Tok>,
    group: Seq<int>,
) -> Seq<Tok>
    decreases group.len(),
{
    if group.len() == 0 {
        no_code()
    } else {
        let slot = slots[group.last()];
        let serv = servs[slot.service as int];
        markers_code(crate_path, target, name, servs, slots, ty, group.drop_last())
            + marker_impl_code(serv.attr, crate_path, target, target_code(serv), ty, name)
    }
}

/// For each group the impl that finds its single services.
pub open spec fn impls_code(
    crate_path: Seq<Tok>,
    target: Named,
    name: Named,
    servs: Seq<PlanModel>,
    slots: Seq<SlotModel>,
    groups: Seq<Seq<int>>,
) -> Seq<Tok>
    decreases groups.len(),
{
    if groups.len() == 0 {
        no_code()
    } else {
        let group = groups.last();
        impls_code(crate_path, target, name, servs, slots, groups.drop_last()) + get_impl_code(
            crate_path,
            target,
            name,
            slots[group[0]].ty.tokens,
            arms_code(target, servs, slots, group),
        )
    }
}

/// For each group what marks the targets of its single services.
pub open spec fn all_markers_code(
    crate_path: Seq<Tok>,
    target: Named,
    name: Named,
    servs: Seq<PlanModel>,
    slots: Seq<SlotModel>,
    groups: Seq<Seq<int>>,
) -> Seq<Tok>
    decreases groups.len(),
{
    if groups.len() == 0 {
        no_code()
    } else {
        let group = groups.last();
        all_markers_code(crate_path, target, name, servs, slots, groups.drop_last())
            + markers_code(
            crate_path,
            target,
            name,
            servs,
            slots,
            slots[group[0]].ty.tokens,
            group,
        )
    }
}

/// For each message type the impl that finds its services by their targets, then what marks each
/// target as having the type.
pub open spec fn service_get_code(
    name: Named,
    crate_path: Seq<Tok>,
    target: Named,
    servs: Seq<PlanModel>,
) -> Seq<Tok> {
    let slots = all_slots(servs);
    let groups = groups(slot_types(slots));
    impls_code(crate_path, target, name, servs, slots, groups) + all_markers_code(
        crate_path,
        target,
        name,
        servs,
        slots,
        groups,
    )
}

/// Whether the target of a service has an index.
fn indexed(serv: &Services) -> (yes: bool)
    ensures
        yes == is_indexed(plan(serv@).shape),
{
    if let FieldTypes::Array(_, _) = &serv.ty {
        true
    } else {
        false
    }
}

/// The arm that finds a single service.
fn slot_arm(target: &Ident, servs: &Vec<Services>, slot: &Slot) -> (code: TokenStream)
    requires
        slot.service < servs.len(),
    ensures
        tokens(code) == slot_arm_code(named(*target), plan_views(servs@), slot@),
{
    proof {
        lemma_words();
    }
    let serv = &servs[slot.service];
    let array = indexed(serv);
    assert(plan_views(servs@)[slot@.service as int] == plan(serv@));
    let pattern = if array {
        with_index(&serv.upper)
    } else {
        Code::new().ident(&serv.upper).done()
    };
    let prefix = if !array {
        Code::new().punct('&')
    } else if slot.index.is_none() {
        Code::new().word("match")
    } else {
        Code::new().punct('&').word("match")
    };
    let look = if array {
        lookup_tail()
    } else {
        TokenStream::new()
    };
    let suffix = match slot.index {
        Some(index) => {
            assert(no_code().code(tokens(look)) =~= tokens(look));
            Code::new().code(&look).punct('.').digits(index).done()
        },
        None => look,
    };
    get_arm(&serv.attr, target, &pattern, &prefix.done(), &serv.ident, &suffix)
}

/// The arms that find the single services at the given positions.
fn arms(
    target: &Ident,
    servs: &Vec<Services>,
    slots: &Vec<Slot>,
    group: &Vec<usize>,
) -> (code: TokenStream)
    requires
        forall|i: int| 0 <= i < slots.len() ==> (#[trigger] slots[i]).service < servs.len(),
        forall|m: int| 0 <= m < group.len() ==> (#[trigger] group[m]) < slots.len(),
    ensures
        tokens(code) == arms_code(
            named(*target),
            plan_views(servs@),
            slot_views(slots@),
            positions(group@),
        ),
{
    let ghost list = positions(group@);
    let mut code = TokenStream::new();
    let mut m: usize = 0;
    while m < group.len()
        invariant
            m <= group.len(),
            list == positions(group@),
            forall|i: int| 0 <= i < slots.len() ==> (#[trigger] slots[i]).service < servs.len(),
            forall|m: int| 0 <= m < group.len() ==> (#[trigger] group[m]) < slots.len(),
            tokens(code) == arms_code(
                named(*target),
                plan_views(servs@),
                slot_views(slots@),
                list.take(m as int),
            ),
        decreases group.len() - m,
    {
        let slot = &slots[group[m]];
        assert(list.take(m + 1).drop_last() == list.take(m as int));
        assert(list.take(m + 1).last() == group[m as int]);
        assert(slot_views(slots@)[group[m as int] as int] == slot@);
        push_stream(&mut code, &slot_arm(target, servs, slot));
        m += 1;
    }
    assert(list.take(m as int) == list);
    code
}

/// What marks the targets of the single services at the given positions as having the type.
fn markers(
    crate_path: &TokenStream,
    target: &Ident,
    name: &Ident,
    servs: &Vec<Services>,
    slots: &Vec<Slot>,
    ty: &TokenStream,
    group: &Vec<usize>,
) -> (code: TokenStream)
    requires
        forall|i: int| 0 <= i < slots.len() ==> (#[trigger] slots[i]).service < servs.len(),
        forall|m: int| 0 <= m < group.len() ==> (#[trigger] group[m]) < slots.len(),
    ensures
        tokens(code) == markers_code(
            tokens(*crate_path),
            named(*target),
            named(*name),
            plan_views(servs@),
            slot_views(slots@),
            tokens(*ty),
            positions(group@),
        ),
{
    let ghost list = positions(group@);
    let mut code = TokenStream::new();
    let mut m: usize = 0;
    while m < group.len()
        invariant
            m <= group.len(),
            list == positions(group@),
            forall|i: int| 0 <= i < slots.len() ==> (#[trigger] slots[i]).service < servs.len(),
            forall|m: int| 0 <= m < group.len() ==> (#[trigger] group[m]) < slots.len(),
            tokens(code) == markers_code(
                tokens(*crate_path),
                named(*target),
                named(*name),
                plan_views(servs@),
                slot_views(slots@),
                tokens(*ty),
                list.take(m as int),
            ),
        decreases group.len() - m,
    {
        let slot = &slots[group[m]];
        let serv = &servs[slot.service];
        assert(list.take(m + 1).drop_last() == list.take(m as int));
        assert(list.take(m + 1).last() == group[m as int]);
        assert(slot_views(slots@)[group[m as int] as int] == slot@);
        assert(plan_views(servs@)[slot@.service as int] == plan(serv@));
        let id = if indexed(serv) {
            without_index(&serv.upper)
        } else {
            Code::new().ident(&serv.upper).done()
        };
        push_stream(
            &mut code,
            &marker_impl(&serv.attr, crate_path, target, &id, ty, name),
        );
        m += 1;
    }
    assert(list.take(m as int) == list);
    code
}

/// Writes the lookup of services by their targets.
pub fn service_get(
    name: &Ident,
    crate_path: &TokenStream,
    target: &Ident,
    servs: &Vec<Services>,
) -> (code: TokenStream)
    requires
        none_nested(plan_views(servs@)),
    ensures
        tokens(code) == service_get_code(
            named(*name),
            tokens(*crate_path),
            named(*target),
            plan_views(servs@),
        ),
{
    let slots = slots(servs);
    let sorted = slot_groups(&slots);
    let ghost all = plan_views(servs@);
    let ghost list = slot_views(slots@);
    let ghost parts = groups(slot_types(list));
    proof {
        lemma_slots_in_range(all);
        assert forall|i: int| 0 <= i < slots.len() implies (#[trigger] slots[i]).service
            < servs.len() by {
            assert(list[i] == slots[i]@);
        }
    }
    let mut code = TokenStream::new();
    let mut marks = TokenStream::new();
    let mut k: usize = 0;
    while k < sorted.len()
        invariant
            k <= sorted.len(),
            all == plan_views(servs@),
            list == slot_views(slots@),
            parts == groups(slot_types(list)),
            position_lists(sorted@) == parts,
            forall|i: int| 0 <= i < slots.len() ==> (#[trigger] slots[i]).service < servs.len(),
            tokens(code) == impls_code(
                tokens(*crate_path),
                named(*target),
                named(*name),
                all,
                list,
                parts.take(k as int),
            ),
            tokens(marks) == all_markers_code(
                tokens(*crate_path),
                named(*target),
                named(*name),
                all,
                list,
                parts.take(k as int),
            ),
        decreases sorted.len() - k,
    {
        let group = &sorted[k];
        proof {
            assert(parts.take(k + 1).drop_last() == parts.take(k as int));
            assert(parts.take(k + 1).last() == parts[k as int]);
            assert(parts[k as int] == positions(group@));
            law_group_of_one_type(slot_types(list), k as int);
            assert forall|m: int| 0 <= m < group.len() implies (#[trigger] group[m])
                < slots.len() by {
                assert(parts[k as int][m] == group[m]);
            }
            assert(parts[k as int][0] == group[0]);
            assert(list[group[0] as int] == slots[group[0] as int]@);
        }
        let ty = type_tokens(&slots[group[0]].ty);
        let body = arms(target, servs, &slots, group);
        push_stream(&mut code, &get_impl(crate_path, target, name, &ty, &body));
        push_stream(&mut marks, &markers(crate_path, target, name, servs, &slots, &ty, group));
        k += 1;
    }
    assert(parts.take(k as int) == parts);
    push_stream(&mut code, &marks);
    code
}

/// Each arm and each mark stands under the `cfg` attribute of its field.
pub proof fn law_lookup_under_cfg(
    crate_path: Seq<Tok>,
    target: Named,
    name: Named,
    servs: Seq<PlanModel>,
    slot: SlotModel,
    ty: Seq<Tok>,
)
    ensures
        servs[slot.service as int].attr.is_prefix_of(slot_arm_code(target, servs, slot)),
        servs[slot.service as int].attr.is_prefix_of(
            marker_impl_code(
                servs[slot.service as int].attr,
                crate_path,
                target,
                target_code(servs[slot.service as int]),
                ty,
                name,
            ),
        ),
{
}

} // verus!
