//! How the items of an expansion read.

use vstd::prelude::*;

use crate::code::{flat, no_code, Snippet};
use crate::grouping::{groups, law_group_of_one_type};
use crate::ident::Named;
use crate::notifier::{
    channel_alias_code, channels_alias_code, notifier_item_code, receiver_alias_code,
    sender_alias_code,
};
use crate::reading::{
    group_at, has_code, has_empty_paren, has_operator, has_option, has_punct, has_word, in_range,
    joined, law_lookup_is_its_arms, law_walk_is_its_steps, lookup_cuts, name_at, plain_of,
    read_number, walk_cuts, Plain,
};
use crate::senders::{chains_code, notifier_senders_code, senders_impl_code, walks_code};
use crate::service::PlanModel;
use crate::service_get::{
    all_markers_code, arms_code, get_impl_code, impls_code, marker_impl_code, markers_code,
    service_get_code, target_code,
};
use crate::slot::{all_slots, lemma_slots_in_range, slot_types, SlotModel};
use crate::token::{Delimiter, Tok};

verus! {

/// What stands between the brackets of the last token.
pub open spec fn last_group(code: Seq<Tok>, wanted: Delimiter) -> Option<Seq<Tok>> {
    group_at(code, code.len() - 1, wanted)
}

/// Whether the code starts with `impl crate_path::text<ty> for name`, and one more token follows.
pub open spec fn implements(
    code: Seq<Tok>,
    crate_path: Seq<Tok>,
    text: Seq<char>,
    ty: Seq<Tok>,
    name: Named,
) -> bool {
    let n = crate_path.len() as int;
    let t = ty.len() as int;
    &&& has_word(code, 0, "impl"@)
    &&& has_code(code, 1, crate_path)
    &&& has_operator(code, n + 1, ':', ':')
    &&& has_word(code, n + 3, text)
    &&& has_punct(code, n + 4, '<')
    &&& has_code(code, n + 5, ty)
    &&& has_punct(code, n + t + 5, '>')
    &&& has_word(code, n + t + 6, "for"@)
    &&& name_at(code, n + t + 7) == Some(name)
    &&& code.len() == n + t + 9
}

/// Reads the impl of the walk of a type, `impl crate_path::NotifierSenders<ty> for name { .. { let
/// iter = [].into_iter(); steps iter } }`: the steps.
pub open spec fn read_walk(
    code: Seq<Tok>,
    crate_path: Seq<Tok>,
    ty: Seq<Tok>,
    name: Named,
) -> Option<Seq<Tok>> {
    match last_group(code, Delimiter::Brace) {
        Some(inner) => match last_group(inner, Delimiter::Brace) {
            Some(body) => if implements(code, crate_path, "NotifierSenders"@, ty, name) && has_word(
                body,
                0,
                "let"@,
            ) && has_word(body, 1, "iter"@) && has_punct(body, 2, '=') && (group_at(
                body,
                3,
                Delimiter::Bracket,
            ) matches Some(start) && start.len() == 0) && has_punct(body, 4, '.') && has_word(
                body,
                5,
                "into_iter"@,
            ) && has_empty_paren(body, 6) && has_punct(body, 7, ';') && body.len() >= 9 && has_word(
                body,
                body.len() - 1,
                "iter"@,
            ) {
                Some(body.subrange(8, body.len() - 1))
            } else {
                None
            },
            None => None,
        },
        None => None,
    }
}

/// Reads `match target::from(id) { arms _ => return ::core::option::Option::None }`: the arms.
pub open spec fn read_choice(code: Seq<Tok>, target: Named) -> Option<Seq<Tok>> {
    match group_at(code, 6, Delimiter::Brace) {
        Some(inner) => {
            let k = inner.len() - 16;
            if has_word(code, 0, "match"@) && name_at(code, 1) == Some(target) && has_operator(
                code,
                2,
                ':',
                ':',
            ) && has_word(code, 4, "from"@) && (group_at(code, 5, Delimiter::Parenthesis) matches Some(
                arg,
            ) && arg.len() == 1 && has_word(arg, 0, "id"@)) && code.len() == 7 && k >= 0 && has_word(
                inner,
                k,
                "_"@,
            ) && has_operator(inner, k + 1, '=', '>') && has_word(inner, k + 3, "return"@) && has_option(
                inner,
                k + 4,
                "None"@,
            ) {
                Some(inner.take(k))
            } else {
                None
            }
        },
        None => None,
    }
}

/// Reads the impl of the lookup of a type, `impl crate_path::ServiceGet<ty> for name { .. { ..
/// ::core::option::Option::Some(choice) } }`: the arms of the choice.
pub open spec fn read_lookup(
    code: Seq<Tok>,
    crate_path: Seq<Tok>,
    target: Named,
    ty: Seq<Tok>,
    name: Named,
) -> Option<Seq<Tok>> {
    match last_group(code, Delimiter::Brace) {
        Some(inner) => match last_group(inner, Delimiter::Brace) {
            Some(body) => match last_group(body, Delimiter::Parenthesis) {
                Some(choice) => if implements(code, crate_path, "ServiceGet"@, ty, name)
                    && has_option(body, body.len() - 13, "Some"@) {
                    read_choice(choice, target)
                } else {
                    None
                },
                None => None,
            },
            None => None,
        },
        None => None,
    }
}

proof fn lemma_walk_impl(crate_path: Seq<Tok>, name: Named, ty: Seq<Tok>, steps: Seq<Tok>)
    ensures
        read_walk(senders_impl_code(crate_path, name, ty, steps), crate_path, ty, name) == Some(
            steps,
        ),
{
    let code = senders_impl_code(crate_path, name, ty, steps);
    let n = crate_path.len() as int;
    let t = ty.len() as int;
    let inner = last_group(code, Delimiter::Brace)->0;
    let body = last_group(inner, Delimiter::Brace)->0;
    assert(code.subrange(1, n + 1) =~= crate_path);
    assert(code.subrange(n + 5, n + t + 5) =~= ty);
    assert(body =~= no_code().word("let"@).word("iter"@).punct('=').bracket(no_code()).punct(
        '.',
    ).word("into_iter"@).paren(no_code()).punct(';').code(steps).word("iter"@));
    assert(body.subrange(8, body.len() - 1) =~= steps);
}

proof fn lemma_lookup_impl(
    crate_path: Seq<Tok>,
    target: Named,
    name: Named,
    ty: Seq<Tok>,
    arms: Seq<Tok>,
)
    ensures
        read_lookup(
            get_impl_code(crate_path, target, name, ty, arms),
            crate_path,
            target,
            ty,
            name,
        ) == Some(arms),
{
    let code = get_impl_code(crate_path, target, name, ty, arms);
    let n = crate_path.len() as int;
    let t = ty.len() as int;
    let inner = last_group(code, Delimiter::Brace)->0;
    let body = last_group(inner, Delimiter::Brace)->0;
    assert(code.subrange(1, n + 1) =~= crate_path);
    assert(code.subrange(n + 5, n + t + 5) =~= ty);
    let last = arms.word("_"@).fat_arrow().word("return"@).colons().word("core"@).colons().word(
        "option"@,
    ).colons().word("Option"@).colons().word("None"@);
    assert(no_code().code(arms) =~= arms);
    let choice = no_code().word("match"@).name(target).colons().word("from"@).paren(
        no_code().word("id"@),
    ).brace(last);
    assert(last_group(body, Delimiter::Parenthesis) == Some(choice));
    assert(last.take(last.len() - 16) =~= arms);
    assert(has_option(last, last.len() - 12, "None"@));
    assert(read_choice(choice, target) == Some(arms));
    assert(has_option(body, body.len() - 13, "Some"@));
}

/// There is one walk for each message type, in order. Each is written for the struct and for its type,
/// and it has a step for each single service of the type.
pub proof fn law_walks_of_their_types(name: Named, crate_path: Seq<Tok>, servs: Seq<PlanModel>)
    ensures
        ({
            let slots = all_slots(servs);
            let found = groups(slot_types(slots));
            exists|items: Seq<Seq<Tok>>|
                {
                    &&& items.len() == found.len()
                    &&& notifier_senders_code(name, crate_path, servs) == #[trigger] flat(items)
                    &&& forall|k: int|
                        0 <= k < found.len() ==> read_walk(
                            #[trigger] items[k],
                            crate_path,
                            slots[found[k][0]].ty.tokens,
                            name,
                        ) == Some(
                            joined(
                                walk_cuts(
                                    crate_path,
                                    servs,
                                    slots,
                                    slots[found[k][0]].ty.tokens,
                                    found[k],
                                ),
                            ),
                        )
                }
        }),
{
    let slots = all_slots(servs);
    let found = groups(slot_types(slots));
    let items = found.map_values(
        |group: Seq<int>|
            senders_impl_code(
                crate_path,
                name,
                slots[group[0]].ty.tokens,
                chains_code(crate_path, servs, slots, slots[group[0]].ty.tokens, group),
            ),
    );
    lemma_walk_items(name, crate_path, servs, slots, found);
    assert(notifier_senders_code(name, crate_path, servs) == flat(items));
    assert forall|k: int| 0 <= k < found.len() implies read_walk(
        #[trigger] items[k],
        crate_path,
        slots[found[k][0]].ty.tokens,
        name,
    ) == Some(
        joined(walk_cuts(crate_path, servs, slots, slots[found[k][0]].ty.tokens, found[k])),
    ) by {
        let ty = slots[found[k][0]].ty.tokens;
        lemma_found_in_range(servs, k);
        law_walk_is_its_steps(crate_path, servs, slots, ty, found[k]);
        lemma_walk_impl(
            crate_path,
            name,
            ty,
            chains_code(crate_path, servs, slots, ty, found[k]),
        );
    }
}

proof fn lemma_found_in_range(servs: Seq<PlanModel>, k: int)
    requires
        0 <= k < groups(slot_types(all_slots(servs))).len(),
    ensures
        in_range(servs, all_slots(servs), groups(slot_types(all_slots(servs)))[k]),
        groups(slot_types(all_slots(servs)))[k].len() > 0,
{
    lemma_slots_in_range(servs);
    law_group_of_one_type(slot_types(all_slots(servs)), k);
}

proof fn lemma_walk_items(
    name: Named,
    crate_path: Seq<Tok>,
    servs: Seq<PlanModel>,
    slots: Seq<SlotModel>,
    found: Seq<Seq<int>>,
)
    ensures
        walks_code(crate_path, name, servs, slots, found) == flat(
            found.map_values(
                |group: Seq<int>|
                    senders_impl_code(
                        crate_path,
                        name,
                        slots[group[0]].ty.tokens,
                        chains_code(crate_path, servs, slots, slots[group[0]].ty.tokens, group),
                    ),
            ),
        ),
    decreases found.len(),
{
    if found.len() > 0 {
        lemma_walk_items(name, crate_path, servs, slots, found.drop_last());
        let item = |group: Seq<int>|
            senders_impl_code(
                crate_path,
                name,
                slots[group[0]].ty.tokens,
                chains_code(crate_path, servs, slots, slots[group[0]].ty.tokens, group),
            );
        assert(found.map_values(item).drop_last() =~= found.drop_last().map_values(item));
    }
}

/// Reads `impl crate_path::marker::ServiceGet<{ number }, ty> for name { }`: the variant that gives
/// the number.
pub open spec fn read_marker(
    code: Seq<Tok>,
    crate_path: Seq<Tok>,
    target: Named,
    ty: Seq<Tok>,
    name: Named,
) -> Option<Plain> {
    let n = crate_path.len() as int;
    let t = ty.len() as int;
    match group_at(code, n + 8, Delimiter::Brace) {
        Some(number) => if has_word(code, 0, "impl"@) && has_code(code, 1, crate_path)
            && has_operator(code, n + 1, ':', ':') && has_word(code, n + 3, "marker"@)
            && has_operator(code, n + 4, ':', ':') && has_word(code, n + 6, "ServiceGet"@)
            && has_punct(code, n + 7, '<') && has_punct(code, n + 9, ',') && has_code(
            code,
            n + 10,
            ty,
        ) && has_punct(code, n + t + 10, '>') && has_word(code, n + t + 11, "for"@) && name_at(
            code,
            n + t + 12,
        ) == Some(name) && (group_at(code, n + t + 13, Delimiter::Brace) matches Some(body)
            && body.len() == 0) && code.len() == n + t + 14 {
            read_number(number, target)
        } else {
            None
        },
        None => None,
    }
}

/// Whether the code stands under the `cfg` attribute of the field and marks it as a service of the
/// type, by the number of its target.
pub open spec fn marks(
    code: Seq<Tok>,
    crate_path: Seq<Tok>,
    target: Named,
    ty: Seq<Tok>,
    name: Named,
    serv: PlanModel,
) -> bool {
    serv.attr.is_prefix_of(code) && read_marker(
        code.skip(serv.attr.len() as int),
        crate_path,
        target,
        ty,
        name,
    ) == Some(plain_of(serv))
}

proof fn lemma_marker(
    crate_path: Seq<Tok>,
    target: Named,
    ty: Seq<Tok>,
    name: Named,
    serv: PlanModel,
)
    ensures
        marks(
            marker_impl_code(serv.attr, crate_path, target, target_code(serv), ty, name),
            crate_path,
            target,
            ty,
            name,
            serv,
        ),
{
    let code = marker_impl_code(serv.attr, crate_path, target, target_code(serv), ty, name).skip(
        serv.attr.len() as int,
    );
    let n = crate_path.len() as int;
    let t = ty.len() as int;
    let shown = if plain_of(serv).indexed {
        no_code().name(target).colons().name(serv.upper).paren(no_code().word("None"@))
    } else {
        no_code().name(target).colons().name(serv.upper)
    };
    let number = shown.punct('.').word("id"@).paren(no_code());
    assert(no_code().name(target).colons().code(target_code(serv)).punct('.').word("id"@).paren(
        no_code(),
    ) =~= number);
    let full = no_code().word("impl"@).code(crate_path).colons().word("marker"@).colons().word(
        "ServiceGet"@,
    ).punct('<').brace(number).punct(',').code(ty).punct('>').word("for"@).name(name).brace(
        no_code(),
    );
    assert(code =~= full);
    assert(full.subrange(1, n + 1) =~= crate_path);
    assert(full.subrange(n + 10, n + t + 10) =~= ty);
    assert(read_number(number, target) == Some(plain_of(serv)));
}

/// There is one mark for each single service of a type, in order, with the number of its field.
pub proof fn law_each_service_is_marked(
    crate_path: Seq<Tok>,
    target: Named,
    name: Named,
    servs: Seq<PlanModel>,
    slots: Seq<SlotModel>,
    ty: Seq<Tok>,
    group: Seq<int>,
)
    ensures
        exists|items: Seq<Seq<Tok>>|
            {
                &&& items.len() == group.len()
                &&& markers_code(crate_path, target, name, servs, slots, ty, group)
                    == #[trigger] flat(items)
                &&& forall|m: int|
                    0 <= m < group.len() ==> marks(
                        #[trigger] items[m],
                        crate_path,
                        target,
                        ty,
                        name,
                        servs[slots[group[m]].service as int],
                    )
            },
{
    let item = |p: int|
        marker_impl_code(
            servs[slots[p].service as int].attr,
            crate_path,
            target,
            target_code(servs[slots[p].service as int]),
            ty,
            name,
        );
    let items = group.map_values(item);
    lemma_marker_items(crate_path, target, name, servs, slots, ty, group);
    assert(items =~= group.map_values(
        |p: int|
            marker_impl_code(
                servs[slots[p].service as int].attr,
                crate_path,
                target,
                target_code(servs[slots[p].service as int]),
                ty,
                name,
            ),
    ));
    assert(markers_code(crate_path, target, name, servs, slots, ty, group) == flat(items));
    assert forall|m: int| 0 <= m < group.len() implies marks(
        #[trigger] items[m],
        crate_path,
        target,
        ty,
        name,
        servs[slots[group[m]].service as int],
    ) by {
        lemma_marker(crate_path, target, ty, name, servs[slots[group[m]].service as int]);
    }
}

proof fn lemma_marker_items(
    crate_path: Seq<Tok>,
    target: Named,
    name: Named,
    servs: Seq<PlanModel>,
    slots: Seq<SlotModel>,
    ty: Seq<Tok>,
    group: Seq<int>,
)
    ensures
        markers_code(crate_path, target, name, servs, slots, ty, group) == flat(
            group.map_values(
                |p: int|
                    marker_impl_code(
                        servs[slots[p].service as int].attr,
                        crate_path,
                        target,
                        target_code(servs[slots[p].service as int]),
                        ty,
                        name,
                    ),
            ),
        ),
    decreases group.len(),
{
    if group.len() > 0 {
        lemma_marker_items(crate_path, target, name, servs, slots, ty, group.drop_last());
        let item = |p: int|
            marker_impl_code(
                servs[slots[p].service as int].attr,
                crate_path,
                target,
                target_code(servs[slots[p].service as int]),
                ty,
                name,
            );
        assert(group.map_values(item).drop_last() =~= group.drop_last().map_values(item));
    }
}

/// There is one lookup for each message type, in order, followed by the marks of all types. Each
/// lookup is written for the struct and for its type, and it has an arm for each single service of
/// the type.
pub proof fn law_lookups_of_their_types(
    name: Named,
    crate_path: Seq<Tok>,
    target: Named,
    servs: Seq<PlanModel>,
)
    ensures
        ({
            let slots = all_slots(servs);
            let found = groups(slot_types(slots));
            exists|items: Seq<Seq<Tok>>, marks: Seq<Seq<Tok>>|
                {
                    &&& items.len() == found.len()
                    &&& marks.len() == found.len()
                    &&& service_get_code(name, crate_path, target, servs) == #[trigger] flat(items)
                        + #[trigger] flat(marks)
                    &&& forall|k: int|
                        0 <= k < found.len() ==> read_lookup(
                            #[trigger] items[k],
                            crate_path,
                            target,
                            slots[found[k][0]].ty.tokens,
                            name,
                        ) == Some(joined(lookup_cuts(target, servs, slots, found[k])))
                    &&& forall|k: int|
                        0 <= k < found.len() ==> #[trigger] marks[k] == markers_code(
                            crate_path,
                            target,
                            name,
                            servs,
                            slots,
                            slots[found[k][0]].ty.tokens,
                            found[k],
                        )
                }
        }),
{
    let slots = all_slots(servs);
    let found = groups(slot_types(slots));
    let items = found.map_values(
        |group: Seq<int>|
            get_impl_code(
                crate_path,
                target,
                name,
                slots[group[0]].ty.tokens,
                arms_code(target, servs, slots, group),
            ),
    );
    let marks = found.map_values(
        |group: Seq<int>|
            markers_code(
                crate_path,
                target,
                name,
                servs,
                slots,
                slots[group[0]].ty.tokens,
                group,
            ),
    );
    lemma_lookup_items(name, crate_path, target, servs, slots, found);
    assert(service_get_code(name, crate_path, target, servs) == flat(items) + flat(marks));
    assert forall|k: int| 0 <= k < found.len() implies read_lookup(
        #[trigger] items[k],
        crate_path,
        target,
        slots[found[k][0]].ty.tokens,
        name,
    ) == Some(joined(lookup_cuts(target, servs, slots, found[k]))) by {
        lemma_found_in_range(servs, k);
        law_lookup_is_its_arms(target, servs, slots, found[k]);
        lemma_lookup_impl(
            crate_path,
            target,
            name,
            slots[found[k][0]].ty.tokens,
            arms_code(target, servs, slots, found[k]),
        );
    }
}

proof fn lemma_lookup_items(
    name: Named,
    crate_path: Seq<Tok>,
    target: Named,
    servs: Seq<PlanModel>,
    slots: Seq<SlotModel>,
    found: Seq<Seq<int>>,
)
    ensures
        impls_code(crate_path, target, name, servs, slots, found) == flat(
            found.map_values(
                |group: Seq<int>|
                    get_impl_code(
                        crate_path,
                        target,
                        name,
                        slots[group[0]].ty.tokens,
                        arms_code(target, servs, slots, group),
                    ),
            ),
        ),
        all_markers_code(crate_path, target, name, servs, slots, found) == flat(
            found.map_values(
                |group: Seq<int>|
                    markers_code(
                        crate_path,
                        target,
                        name,
                        servs,
                        slots,
                        slots[group[0]].ty.tokens,
                        group,
                    ),
            ),
        ),
    decreases found.len(),
{
    if found.len() > 0 {
        lemma_lookup_items(name, crate_path, target, servs, slots, found.drop_last());
        let item = |group: Seq<int>|
            get_impl_code(
                crate_path,
                target,
                name,
                slots[group[0]].ty.tokens,
                arms_code(target, servs, slots, group),
            );
        let mark = |group: Seq<int>|
            markers_code(
                crate_path,
                target,
                name,
                servs,
                slots,
                slots[group[0]].ty.tokens,
                group,
            );
        assert(found.map_values(item).drop_last() =~= found.drop_last().map_values(item));
        assert(found.map_values(mark).drop_last() =~= found.drop_last().map_values(mark));
    }
}

/// Whether the lifetime stands at the position.
pub open spec fn has_lifetime(code: Seq<Tok>, i: int, text: Seq<char>) -> bool {
    has_punct(code, i, '\'') && has_word(code, i + 1, text)
}

/// Whether the code starts with `vis type alias<'a`.
pub open spec fn opens_alias(code: Seq<Tok>, vis: Seq<Tok>, alias: Named) -> bool {
    let n = vis.len() as int;
    &&& has_code(code, 0, vis)
    &&& has_word(code, n, "type"@)
    &&& name_at(code, n + 1) == Some(alias)
    &&& has_punct(code, n + 2, '<')
    &&& has_lifetime(code, n + 3, "a"@)
}

/// Whether `> = crate_path::text<'a` stands at the position.
pub open spec fn has_aliased(
    code: Seq<Tok>,
    i: int,
    crate_path: Seq<Tok>,
    text: Seq<char>,
) -> bool {
    let c = crate_path.len() as int;
    &&& has_punct(code, i, '>')
    &&& has_punct(code, i + 1, '=')
    &&& has_code(code, i + 2, crate_path)
    &&& has_operator(code, i + c + 2, ':', ':')
    &&& has_word(code, i + c + 4, text)
    &&& has_punct(code, i + c + 5, '<')
    &&& has_lifetime(code, i + c + 6, "a"@)
}

/// Whether `, const text: usize` stands at the position.
pub open spec fn has_const(code: Seq<Tok>, i: int, text: Seq<char>) -> bool {
    has_punct(code, i, ',') && has_word(code, i + 1, "const"@) && has_word(code, i + 2, text)
        && has_punct(code, i + 3, ':') && has_word(code, i + 4, "usize"@)
}

/// Whether the code ends in `>;`, from the position on.
pub open spec fn closes_alias(code: Seq<Tok>, i: int) -> bool {
    has_punct(code, i, '>') && has_punct(code, i + 1, ';') && code.len() == i + 2
}

/// The alias of a channel has the visibility of the struct. It stands for the channel of the crate,
/// for the struct, its targets and a number.
#[verifier::rlimit(50)]
pub proof fn law_channel_alias_reads(
    vis: Seq<Tok>,
    alias: Named,
    crate_path: Seq<Tok>,
    name: Named,
    target: Named,
)
    ensures
        ({
            let code = channel_alias_code(vis, alias, crate_path, name, target);
            let k: int = vis.len() + 10int;
            let e: int = k + crate_path.len() + 8;
            &&& opens_alias(code, vis, alias)
            &&& has_const(code, k - 5, "ID"@)
            &&& has_aliased(code, k, crate_path, "Channel"@)
            &&& has_punct(code, e, ',') && name_at(code, e + 1) == Some(name)
            &&& has_punct(code, e + 2, ',') && name_at(code, e + 3) == Some(target)
            &&& has_punct(code, e + 4, ',') && has_word(code, e + 5, "ID"@)
            &&& closes_alias(code, e + 6)
        }),
{
    let n = vis.len() as int;
    let c = crate_path.len() as int;
    let code = channel_alias_code(vis, alias, crate_path, name, target);
    assert(code.subrange(0, n) =~= vis);
    assert(code.subrange(n + 12, n + c + 12) =~= crate_path);
}

/// The alias of an array of channels has the visibility of the struct. It stands for the channels of
/// the crate, for the struct, its targets, a number and a length.
#[verifier::rlimit(50)]
pub proof fn law_channels_alias_reads(
    vis: Seq<Tok>,
    alias: Named,
    crate_path: Seq<Tok>,
    name: Named,
    target: Named,
)
    ensures
        ({
            let code = channels_alias_code(vis, alias, crate_path, name, target);
            let k: int = vis.len() + 15int;
            let e: int = k + crate_path.len() + 8;
            &&& opens_alias(code, vis, alias)
            &&& has_const(code, k - 10, "ID"@)
            &&& has_const(code, k - 5, "U"@)
            &&& has_aliased(code, k, crate_path, "Channels"@)
            &&& has_punct(code, e, ',') && has_word(code, e + 1, "U"@)
            &&& has_punct(code, e + 2, ',') && name_at(code, e + 3) == Some(name)
            &&& has_punct(code, e + 4, ',') && name_at(code, e + 5) == Some(target)
            &&& has_punct(code, e + 6, ',') && has_word(code, e + 7, "ID"@)
            &&& closes_alias(code, e + 8)
        }),
{
    let n = vis.len() as int;
    let c = crate_path.len() as int;
    let code = channels_alias_code(vis, alias, crate_path, name, target);
    assert(code.subrange(0, n) =~= vis);
    assert(code.subrange(n + 17, n + c + 17) =~= crate_path);
}

/// The alias of a sender has the visibility of the struct. It stands for the sender of the crate, for
/// the struct.
#[verifier::rlimit(50)]
pub proof fn law_sender_alias_reads(
    vis: Seq<Tok>,
    alias: Named,
    crate_path: Seq<Tok>,
    name: Named,
)
    ensures
        ({
            let code = sender_alias_code(vis, alias, crate_path, name);
            let k: int = vis.len() + 5int;
            let e: int = k + crate_path.len() + 8;
            &&& opens_alias(code, vis, alias)
            &&& has_aliased(code, k, crate_path, "Sender"@)
            &&& has_punct(code, e, ',') && name_at(code, e + 1) == Some(name)
            &&& closes_alias(code, e + 2)
        }),
{
    let n = vis.len() as int;
    let c = crate_path.len() as int;
    let code = sender_alias_code(vis, alias, crate_path, name);
    assert(code.subrange(0, n) =~= vis);
    assert(code.subrange(n + 7, n + c + 7) =~= crate_path);
}

/// The alias of a receiver has the visibility of the struct. It stands for the receiver of the crate,
/// for a message.
#[verifier::rlimit(50)]
pub proof fn law_receiver_alias_reads(
    vis: Seq<Tok>,
    alias: Named,
    crate_path: Seq<Tok>,
)
    ensures
        ({
            let code = receiver_alias_code(vis, alias, crate_path);
            let k: int = vis.len() + 7int;
            let e: int = k + crate_path.len() + 8;
            &&& opens_alias(code, vis, alias)
            &&& has_punct(code, k - 2, ',') && has_word(code, k - 1, "T"@)
            &&& has_aliased(code, k, crate_path, "Receiver"@)
            &&& has_punct(code, e, ',') && has_word(code, e + 1, "T"@)
            &&& closes_alias(code, e + 2)
        }),
{
    let n = vis.len() as int;
    let c = crate_path.len() as int;
    let code = receiver_alias_code(vis, alias, crate_path);
    assert(code.subrange(0, n) =~= vis);
    assert(code.subrange(n + 9, n + c + 9) =~= crate_path);
}

/// The impl of the notifier is written for the struct: `impl crate_path::Notifier for name { }`.
pub proof fn law_notifier_reads(crate_path: Seq<Tok>, name: Named)
    ensures
        ({
            let code = notifier_item_code(crate_path, name);
            let n = crate_path.len() as int;
            &&& has_word(code, 0, "impl"@)
            &&& has_code(code, 1, crate_path)
            &&& has_operator(code, n + 1, ':', ':')
            &&& has_word(code, n + 3, "Notifier"@)
            &&& has_word(code, n + 4, "for"@)
            &&& name_at(code, n + 5) == Some(name)
            &&& group_at(code, n + 6, Delimiter::Brace) matches Some(inner) && inner.len() == 0
            &&& code.len() == n + 7
        }),
{
    let code = notifier_item_code(crate_path, name);
    assert(code.subrange(1, crate_path.len() + 1int) =~= crate_path);
}

} // verus!
