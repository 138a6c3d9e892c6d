//! How the written code reads, and that it does what it is for.

use vstd::prelude::*;

use crate::code::{flat, no_code, Snippet};
use crate::grouping::{groups, law_group_of_one_type, law_groups_in_order};
use crate::ident::Named;
use crate::meaning::{global_target, is_on, is_target_of, target_index, variants_differ, Target};
use crate::senders::{as_service_code, chain_code, chains_code, place_code};
use crate::service::PlanModel;
use crate::service_get::{arms_code, lookup_tail_code, prefix_code, slot_arm_code, suffix_code};
use crate::slot::{
    all_slots, field_holds, law_slot_in_one_group, law_slots_are_listed_once,
    law_slots_are_what_fields_hold, law_slots_in_order, lemma_slots_in_range, slot_types, SlotModel,
};
use crate::syntax::MessageModel;
use crate::token::{decimal, Delimiter, Tok};

verus! {

/// Whether the token at the position is the word.
pub open spec fn has_word(code: Seq<Tok>, i: int, text: Seq<char>) -> bool {
    0 <= i < code.len() && (code[i] matches Tok::Ident(word, _) && word == text)
}

/// Whether the token at the position is the punctuation character.
pub open spec fn has_punct(code: Seq<Tok>, i: int, ch: char) -> bool {
    0 <= i < code.len() && (code[i] matches Tok::Punct(c, _, _) && c == ch)
}

/// Whether two glued punctuation characters stand at the position.
pub open spec fn has_operator(code: Seq<Tok>, i: int, first: char, second: char) -> bool {
    has_punct(code, i, first) && has_punct(code, i + 1, second) && (code[i] matches Tok::Punct(
        _,
        glued,
        _,
    ) && glued)
}

/// Whether the part stands at the position.
pub open spec fn has_code(code: Seq<Tok>, i: int, part: Seq<Tok>) -> bool {
    0 <= i <= i + part.len() <= code.len() && code.subrange(i, i + part.len()) == part
}

/// The identifier at the position.
pub open spec fn name_at(code: Seq<Tok>, i: int) -> Option<Named> {
    if 0 <= i < code.len() {
        match code[i] {
            Tok::Ident(text, place) => Some(Named { text, place }),
            _ => None,
        }
    } else {
        None
    }
}

/// What stands between the brackets at the position.
pub open spec fn group_at(code: Seq<Tok>, i: int, wanted: Delimiter) -> Option<Seq<Tok>> {
    if 0 <= i < code.len() {
        match code[i] {
            Tok::Group(delimiter, inner, _) => if delimiter == wanted {
                Some(inner)
            } else {
                None
            },
            _ => None,
        }
    } else {
        None
    }
}

/// Whether the group at the position holds the word and nothing else.
pub open spec fn has_word_in_paren(code: Seq<Tok>, i: int, text: Seq<char>) -> bool {
    group_at(code, i, Delimiter::Parenthesis) matches Some(inner) && inner.len() == 1 && has_word(
        inner,
        0,
        text,
    )
}

/// Whether the group at the position holds nothing.
pub open spec fn has_empty_paren(code: Seq<Tok>, i: int) -> bool {
    group_at(code, i, Delimiter::Parenthesis) matches Some(inner) && inner.len() == 0
}

/// The variant of `target::variant` at the position.
pub open spec fn variant_at(code: Seq<Tok>, i: int, target: Named) -> Option<Named> {
    if name_at(code, i) == Some(target) && has_operator(code, i + 1, ':', ':') {
        name_at(code, i + 3)
    } else {
        None
    }
}

/// A variant of the enum of targets, with or without `(None)` behind it.
#[verifier::ext_equal]
pub struct Plain {
    pub variant: Named,
    pub indexed: bool,
}

/// Reads `target::variant` and `target::variant(None)` from the position on; and where it ends.
pub open spec fn plain_at(code: Seq<Tok>, i: int, target: Named) -> Option<(Plain, int)> {
    match variant_at(code, i, target) {
        Some(variant) => if has_word_in_paren(code, i + 4, "None"@) {
            Some((Plain { variant, indexed: true }, i + 5))
        } else {
            Some((Plain { variant, indexed: false }, i + 4))
        },
        None => None,
    }
}

/// The target that a variant stands for.
pub open spec fn plain_target(plain: Plain) -> Target {
    if plain.indexed {
        Target::Indexed(plain.variant.text, None)
    } else {
        Target::Plain(plain.variant.text)
    }
}

/// Reads `target::variant.id()` and `target::variant(None).id()`: the variant that gives the number.
pub open spec fn read_number(code: Seq<Tok>, target: Named) -> Option<Plain> {
    match plain_at(code, 0, target) {
        Some((plain, i)) => if has_punct(code, i, '.') && has_word(code, i + 1, "id"@)
            && has_empty_paren(code, i + 2) && code.len() == i + 3 {
            Some(plain)
        } else {
            None
        },
        None => None,
    }
}

/// The variant of a service, which has an index where the service is an array.
pub open spec fn plain_of(serv: PlanModel) -> Plain {
    Plain { variant: serv.upper, indexed: serv.shape is Array }
}

/// The number of `.number` at the position, in digits.
pub open spec fn part_at(code: Seq<Tok>, i: int) -> Option<Seq<char>> {
    if has_punct(code, i, '.') && 0 <= i + 1 < code.len() {
        match code[i + 1] {
            Tok::Literal(digits, _) => Some(digits),
            _ => None,
        }
    } else {
        None
    }
}

/// The place of a single service in a group, in digits.
pub open spec fn part_digits(index: Option<nat>) -> Option<Seq<char>> {
    match index {
        Some(k) => Some(decimal(k)),
        None => None,
    }
}

/// Where a single service is: in a field, in one item of it or in the field itself, alone or at a
/// place of a group.
#[verifier::ext_equal]
pub struct Spot {
    pub field: Named,
    pub item: bool,
    pub part: Option<Seq<char>>,
}

/// Where a slot of the services is.
pub open spec fn spot_of(servs: Seq<PlanModel>, slot: SlotModel) -> Spot {
    Spot {
        field: servs[slot.service as int].ident,
        item: servs[slot.service as int].shape is Array,
        part: part_digits(slot.index),
    }
}

/// Reads `&self.field`, `&self.field.part`, `match self.field.get(..) {..}` and
/// `&match self.field.get(..) {..}.part`, each a reference to a single service.
pub open spec fn read_spot(code: Seq<Tok>) -> Option<Spot> {
    let borrows = has_punct(code, 0, '&');
    let i: int = if borrows {
        1
    } else {
        0
    };
    let item = has_word(code, i, "match"@);
    let j: int = if item {
        i + 1
    } else {
        i
    };
    let look = lookup_tail_code();
    let k: int = if item {
        j + 3 + look.len()
    } else {
        j + 3
    };
    let part = part_at(code, k);
    let end: int = if part is Some {
        k + 2
    } else {
        k
    };
    if has_word(code, j, "self"@) && has_punct(code, j + 1, '.') && name_at(code, j + 2) is Some && (
    item ==> has_code(code, j + 3, look)) && end == code.len() && borrows == (!item || part is Some) {
        Some(Spot { field: name_at(code, j + 2)->0, item, part })
    } else {
        None
    }
}

/// An arm of a lookup: the variant that it takes, whether it binds the index, and what it gives.
#[verifier::ext_equal]
pub struct LookupArm {
    pub variant: Named,
    pub binds: bool,
    pub spot: Spot,
}

/// Reads `target::variant => { spot }` and `target::variant(index) => { spot }`.
pub open spec fn read_arm(code: Seq<Tok>, target: Named) -> Option<LookupArm> {
    let binds = has_word_in_paren(code, 4, "index"@);
    let k: int = if binds {
        5
    } else {
        4
    };
    match (variant_at(code, 0, target), group_at(code, k + 2, Delimiter::Brace)) {
        (Some(variant), Some(body)) => match read_spot(body) {
            Some(spot) => if has_operator(code, k, '=', '>') && code.len() == k + 3 {
                Some(LookupArm { variant, binds, spot })
            } else {
                None
            },
            None => None,
        },
        _ => None,
    }
}

/// Each arm of a lookup stands under the `cfg` attribute of its field, takes the targets of the field
/// and no others, and gives a reference to the single service: in the item that the target names where
/// the field is an array, and at its place where the field groups services.
pub proof fn law_arm_finds_its_service(target: Named, servs: Seq<PlanModel>, slot: SlotModel)
    requires
        slot.service < servs.len(),
    ensures
        ({
            let serv = servs[slot.service as int];
            let piece = slot_arm_code(target, servs, slot);
            let n = serv.attr.len() as int;
            &&& serv.attr.is_prefix_of(piece)
            &&& read_arm(piece.skip(n), target) == Some(
                LookupArm {
                    variant: serv.upper,
                    binds: serv.shape is Array,
                    spot: spot_of(servs, slot),
                },
            )
        }),
{
    let serv = servs[slot.service as int];
    let piece = slot_arm_code(target, servs, slot);
    let n = serv.attr.len() as int;
    let arm = piece.skip(n);
    let look = lookup_tail_code();
    let head = no_code().name(target).colons().name(serv.upper);
    if serv.shape is Array {
        let start = if slot.index is Some {
            no_code().punct('&').word("match"@).word("self"@).punct('.').name(serv.ident)
        } else {
            no_code().word("match"@).word("self"@).punct('.').name(serv.ident)
        };
        let body = match slot.index {
            Some(k) => start.code(look).punct('.').digits(k),
            None => start.code(look),
        };
        assert(no_code().code(prefix_code(serv, slot)).word("self"@).punct('.').name(serv.ident).code(
            suffix_code(serv, slot),
        ) =~= body);
        assert(arm =~= head.paren(no_code().word("index"@)).fat_arrow().brace(body));
        assert(body.subrange(start.len() as int, (start.len() + look.len()) as int) =~= look);
        assert(group_at(arm, 7, Delimiter::Brace) == Some(body));
        lemma_self_is_no_match();
    } else {
        let start = no_code().punct('&').word("self"@).punct('.').name(serv.ident);
        let body = match slot.index {
            Some(k) => start.punct('.').digits(k),
            None => start,
        };
        assert(no_code().code(prefix_code(serv, slot)).word("self"@).punct('.').name(serv.ident).code(
            suffix_code(serv, slot),
        ) =~= body);
        assert(arm =~= head.fat_arrow().brace(body));
        assert(group_at(arm, 6, Delimiter::Brace) == Some(body));
        lemma_self_is_no_match();
    }
}

/// `self` is another word than `match`.
proof fn lemma_self_is_no_match()
    ensures
        "self"@ != "match"@,
{
    reveal_strlit("self");
    reveal_strlit("match");
    assert("self"@.len() != "match"@.len());
}

/// Code under a `cfg` attribute.
#[verifier::ext_equal]
pub struct Cut {
    pub cfg: Seq<Tok>,
    pub code: Seq<Tok>,
}

/// Pieces of code under their attributes, one after the other.
pub open spec fn joined(list: Seq<Cut>) -> Seq<Tok> {
    flat(list.map_values(|cut: Cut| cut.cfg + cut.code))
}

/// Pieces of code cut off their attributes.
pub open spec fn cuts(pieces: Seq<Seq<Tok>>, cfgs: Seq<Seq<Tok>>) -> Seq<Cut> {
    Seq::new(
        pieces.len(),
        |m: int| Cut { cfg: cfgs[m], code: pieces[m].skip(cfgs[m].len() as int) },
    )
}

/// The `cfg` attributes that the single services at the given positions stand under.
pub open spec fn cfgs_of(
    servs: Seq<PlanModel>,
    slots: Seq<SlotModel>,
    group: Seq<int>,
) -> Seq<Seq<Tok>> {
    group.map_values(|p: int| servs[slots[p].service as int].attr)
}

/// Whether the positions are those of single services whose fields are there.
pub open spec fn in_range(servs: Seq<PlanModel>, slots: Seq<SlotModel>, group: Seq<int>) -> bool {
    forall|m: int|
        0 <= m < group.len() ==> 0 <= #[trigger] group[m] < slots.len() && slots[group[m]].service
            < servs.len()
}

/// Pieces that start with their attributes make up the same code when they are cut.
proof fn lemma_cuts_join(pieces: Seq<Seq<Tok>>, cfgs: Seq<Seq<Tok>>)
    requires
        pieces.len() == cfgs.len(),
        forall|m: int| 0 <= m < pieces.len() ==> cfgs[m].is_prefix_of(#[trigger] pieces[m]),
    ensures
        joined(cuts(pieces, cfgs)) == flat(pieces),
{
    let list = cuts(pieces, cfgs).map_values(|cut: Cut| cut.cfg + cut.code);
    assert forall|m: int| 0 <= m < pieces.len() implies list[m] == pieces[m] by {
        assert(cfgs[m].is_prefix_of(pieces[m]));
        assert(cfgs[m] + pieces[m].skip(cfgs[m].len() as int) =~= pieces[m]);
    }
    assert(list =~= pieces);
}

/// What a lookup finds: a field, the item that was asked for where the field is an array, and the
/// place in a group.
#[verifier::ext_equal]
pub struct Found {
    pub field: Named,
    pub item: Option<nat>,
    pub part: Option<Seq<char>>,
}

/// Whether an arm takes the target.
pub open spec fn arm_takes(arm: LookupArm, asked: Target) -> bool {
    match asked {
        Target::Plain(name) => !arm.binds && arm.variant.text == name,
        Target::Indexed(name, _) => arm.binds && arm.variant.text == name,
    }
}

/// What an arm gives for a target that it takes. An array gives nothing without an index.
pub open spec fn arm_gives(arm: LookupArm, asked: Target) -> Option<Found> {
    if !arm.spot.item {
        Some(Found { field: arm.spot.field, item: None, part: arm.spot.part })
    } else {
        match target_index(asked) {
            Some(n) => Some(Found { field: arm.spot.field, item: Some(n), part: arm.spot.part }),
            None => None,
        }
    }
}

/// Whether an arm is compiled, and takes the target.
pub open spec fn cut_takes(
    cut: Cut,
    on: spec_fn(Seq<Tok>) -> bool,
    target: Named,
    asked: Target,
) -> bool {
    is_on(cut.cfg, on) && (read_arm(cut.code, target) matches Some(arm) && arm_takes(arm, asked))
}

/// What a lookup gives: what its first arm gives that takes the target, and nothing where none does.
pub open spec fn answer(
    list: Seq<Cut>,
    on: spec_fn(Seq<Tok>) -> bool,
    target: Named,
    asked: Target,
) -> Option<Found>
    decreases list.len(),
{
    if list.len() == 0 {
        None
    } else if cut_takes(list[0], on, target, asked) {
        arm_gives(read_arm(list[0].code, target)->0, asked)
    } else {
        answer(list.drop_first(), on, target, asked)
    }
}

/// The first arm that takes the target decides, and without one there is no answer.
proof fn lemma_answer(
    list: Seq<Cut>,
    on: spec_fn(Seq<Tok>) -> bool,
    target: Named,
    asked: Target,
    k: int,
)
    requires
        0 <= k <= list.len(),
        forall|j: int| 0 <= j < k ==> !cut_takes(#[trigger] list[j], on, target, asked),
        k < list.len() ==> cut_takes(list[k], on, target, asked),
    ensures
        answer(list, on, target, asked) == if k < list.len() {
            arm_gives(read_arm(list[k].code, target)->0, asked)
        } else {
            None
        },
    decreases k,
{
    if k > 0 {
        assert(!cut_takes(list[0], on, target, asked));
        let rest = list.drop_first();
        assert forall|j: int| 0 <= j < k - 1 implies !cut_takes(
            #[trigger] rest[j],
            on,
            target,
            asked,
        ) by {
            assert(rest[j] == list[j + 1]);
        }
        lemma_answer(rest, on, target, asked, k - 1);
    }
}

/// The arms of a lookup, cut off their attributes.
pub open spec fn lookup_cuts(
    target: Named,
    servs: Seq<PlanModel>,
    slots: Seq<SlotModel>,
    group: Seq<int>,
) -> Seq<Cut> {
    cuts(
        group.map_values(|p: int| slot_arm_code(target, servs, slots[p])),
        cfgs_of(servs, slots, group),
    )
}

/// A lookup is written as its arms, one for each single service, in order.
pub proof fn law_lookup_is_its_arms(
    target: Named,
    servs: Seq<PlanModel>,
    slots: Seq<SlotModel>,
    group: Seq<int>,
)
    requires
        in_range(servs, slots, group),
    ensures
        arms_code(target, servs, slots, group) == joined(lookup_cuts(target, servs, slots, group)),
        lookup_cuts(target, servs, slots, group).len() == group.len(),
{
    let pieces = group.map_values(|p: int| slot_arm_code(target, servs, slots[p]));
    lemma_arm_pieces(target, servs, slots, group);
    assert forall|m: int| 0 <= m < pieces.len() implies cfgs_of(servs, slots, group)[m].is_prefix_of(
        #[trigger] pieces[m],
    ) by {
        assert(0 <= group[m] < slots.len());
        law_arm_finds_its_service(target, servs, slots[group[m]]);
    }
    lemma_cuts_join(pieces, cfgs_of(servs, slots, group));
}

proof fn lemma_arm_pieces(
    target: Named,
    servs: Seq<PlanModel>,
    slots: Seq<SlotModel>,
    group: Seq<int>,
)
    ensures
        arms_code(target, servs, slots, group) == flat(
            group.map_values(|p: int| slot_arm_code(target, servs, slots[p])),
        ),
    decreases group.len(),
{
    if group.len() > 0 {
        lemma_arm_pieces(target, servs, slots, group.drop_last());
        assert(group.map_values(|p: int| slot_arm_code(target, servs, slots[p])).drop_last()
            =~= group.drop_last().map_values(|p: int| slot_arm_code(target, servs, slots[p])));
    }
}

/// A lookup answers a target of a service with the first of its single services that stands in the
/// field: in the item that the target names, and at its place in a group. Where none stands in the
/// field, and for the target of senders that are no service, it gives nothing.
pub proof fn law_lookup_answers(
    target: Named,
    servs: Seq<PlanModel>,
    on: spec_fn(Seq<Tok>) -> bool,
    slots: Seq<SlotModel>,
    group: Seq<int>,
    i: int,
    asked: Target,
    m: int,
)
    requires
        variants_differ(servs, on),
        in_range(servs, slots, group),
        is_target_of(servs, on, i, asked),
        0 <= m <= group.len(),
        forall|j: int| 0 <= j < m ==> slots[#[trigger] group[j]].service != i,
        m < group.len() ==> slots[group[m]].service == i,
    ensures
        answer(lookup_cuts(target, servs, slots, group), on, target, asked) == if m == group.len() {
            None
        } else if servs[i].shape is Array && target_index(asked) is None {
            None
        } else {
            Some(
                Found {
                    field: servs[i].ident,
                    item: target_index(asked),
                    part: part_digits(slots[group[m]].index),
                },
            )
        },
        answer(lookup_cuts(target, servs, slots, group), on, target, global_target()) is None,
{
    let list = lookup_cuts(target, servs, slots, group);
    assert forall|j: int| 0 <= j < list.len() implies read_arm(
        (#[trigger] list[j]).code,
        target,
    ) == Some(
        LookupArm {
            variant: servs[slots[group[j]].service as int].upper,
            binds: servs[slots[group[j]].service as int].shape is Array,
            spot: spot_of(servs, slots[group[j]]),
        },
    ) && list[j].cfg == servs[slots[group[j]].service as int].attr by {
        assert(0 <= group[j] < slots.len());
        law_arm_finds_its_service(target, servs, slots[group[j]]);
    }
    assert forall|j: int| 0 <= j < m implies !cut_takes(#[trigger] list[j], on, target, asked) by {
        assert(slots[group[j]].service != i);
        let s = slots[group[j]].service as int;
        if is_on(servs[s].attr, on) {
            if s < i {
                assert(servs[s].upper.text != servs[i].upper.text);
            } else {
                assert(servs[i].upper.text != servs[s].upper.text);
            }
        }
    }
    assert forall|j: int| 0 <= j < list.len() implies !cut_takes(
        #[trigger] list[j],
        on,
        target,
        global_target(),
    ) by {
        assert(0 <= group[j] < slots.len());
    }
    if m < group.len() {
        assert(list[m].cfg == servs[i].attr);
        assert(cut_takes(list[m], on, target, asked));
    }
    lemma_answer(list, on, target, asked, m);
    lemma_answer(list, on, target, global_target(), list.len() as int);
}

/// Each single service can be looked up: the lookup of its message type answers each target of its
/// field with it, where it is the first of the type in the field, whatever its number and its place.
pub proof fn law_each_service_is_found(
    target: Named,
    servs: Seq<PlanModel>,
    on: spec_fn(Seq<Tok>) -> bool,
    service: nat,
    index: Option<nat>,
    ty: MessageModel,
    asked: Target,
)
    requires
        variants_differ(servs, on),
        is_target_of(servs, on, service as int, asked),
        field_holds(servs[service as int].shape, index, ty),
        servs[service as int].shape is Array ==> target_index(asked) is Some,
        forall|earlier: nat, other: MessageModel|
            field_holds(servs[service as int].shape, Some(earlier), other) && other.class == ty.class
                && index is Some ==> index->0 <= earlier,
    ensures
        ({
            let slots = all_slots(servs);
            let found = groups(slot_types(slots));
            exists|k: int|
                {
                    &&& 0 <= k < found.len()
                    &&& slots[(#[trigger] found[k])[0]].ty.class == ty.class
                    &&& answer(lookup_cuts(target, servs, slots, found[k]), on, target, asked) == Some(
                        Found {
                            field: servs[service as int].ident,
                            item: target_index(asked),
                            part: part_digits(index),
                        },
                    )
                }
        }),
{
    let slots = all_slots(servs);
    let types = slot_types(slots);
    let found = groups(types);
    let slot = SlotModel { service, index, ty };
    law_slots_are_what_fields_hold(servs, service, index, ty);
    let p = choose|p: int| 0 <= p < slots.len() && slots[p] == slot;
    law_slot_in_one_group(servs, p);
    let (k, m) = choose|k: int, m: int|
        {
            &&& 0 <= k < found.len()
            &&& 0 <= m < found[k].len()
            &&& #[trigger] found[k][m] == p
            &&& slots[found[k][0]].ty.class == slots[p].ty.class
        };
    lemma_slots_in_range(servs);
    law_group_of_one_type(types, k);
    assert(in_range(servs, slots, found[k])) by {
        assert forall|j: int| 0 <= j < found[k].len() implies 0 <= #[trigger] found[k][j] < slots.len()
            && slots[found[k][j]].service < servs.len() by {}
    }
    law_groups_in_order(types);
    assert forall|j: int| 0 <= j < m implies slots[#[trigger] found[k][j]].service != service by {
        let q = found[k][j];
        assert(q < p);
        let other = slots[q];
        assert(types[q] == types[p]);
        assert(types[q] == other.ty.class && types[p] == ty.class);
        if other.service == service {
            law_slots_are_what_fields_hold(servs, service, other.index, other.ty);
            assert(slots.contains(other));
            law_slots_in_order(servs, q, p);
        }
    }
    law_lookup_answers(target, servs, on, slots, found[k], service as int, asked, m);
}

/// A step of a walk: where the single services are that it adds, all items of an array or one, and
/// what they are taken for.
#[verifier::ext_equal]
pub struct Step {
    pub spot: Spot,
    pub cast: Seq<Tok>,
}

/// Reads `[&self.field.part cast].into_iter()`, with or without the part.
pub open spec fn read_one(code: Seq<Tok>) -> Option<Step> {
    match group_at(code, 0, Delimiter::Bracket) {
        Some(inner) => {
            let part = part_at(inner, 4);
            let end: int = if part is Some {
                6
            } else {
                4
            };
            if has_punct(inner, 0, '&') && has_word(inner, 1, "self"@) && has_punct(inner, 2, '.')
                && name_at(inner, 3) is Some && end <= inner.len() && has_punct(code, 1, '.')
                && has_word(code, 2, "into_iter"@) && has_empty_paren(code, 3) && code.len() == 4 {
                Some(
                    Step {
                        spot: Spot { field: name_at(inner, 3)->0, item: false, part },
                        cast: inner.skip(end),
                    },
                )
            } else {
                None
            }
        },
        None => None,
    }
}

/// Reads `self.field.iter().map(|item| item cast)` and `self.field.iter().map(|item| &item.part cast)`.
pub open spec fn read_items(code: Seq<Tok>) -> Option<Step> {
    match group_at(code, 8, Delimiter::Parenthesis) {
        Some(inner) => {
            let borrows = has_punct(inner, 3, '&');
            let i: int = if borrows {
                4
            } else {
                3
            };
            let part = part_at(inner, i + 1);
            let end: int = if part is Some {
                i + 3
            } else {
                i + 1
            };
            if has_word(code, 0, "self"@) && has_punct(code, 1, '.') && name_at(code, 2) is Some
                && has_punct(code, 3, '.') && has_word(code, 4, "iter"@) && has_empty_paren(code, 5)
                && has_punct(code, 6, '.') && has_word(code, 7, "map"@) && code.len() == 9
                && has_punct(inner, 0, '|') && has_word(inner, 1, "item"@) && has_punct(inner, 2, '|')
                && has_word(inner, i, "item"@) && end <= inner.len() && borrows == part is Some {
                Some(
                    Step {
                        spot: Spot { field: name_at(code, 2)->0, item: true, part },
                        cast: inner.skip(end),
                    },
                )
            } else {
                None
            }
        },
        None => None,
    }
}

/// Reads `let iter = iter.chain(services);`.
pub open spec fn read_step(code: Seq<Tok>) -> Option<Step> {
    match group_at(code, 6, Delimiter::Parenthesis) {
        Some(inner) => if has_word(code, 0, "let"@) && has_word(code, 1, "iter"@) && has_punct(
            code,
            2,
            '=',
        ) && has_word(code, 3, "iter"@) && has_punct(code, 4, '.') && has_word(code, 5, "chain"@)
            && has_punct(code, 7, ';') && code.len() == 8 {
            if group_at(inner, 0, Delimiter::Bracket) is Some {
                read_one(inner)
            } else {
                read_items(inner)
            }
        } else {
            None
        },
        None => None,
    }
}

/// Whether the code is `as &dyn crate_path::DynamicService<ty>`.
pub open spec fn casts_to(code: Seq<Tok>, crate_path: Seq<Tok>, ty: Seq<Tok>) -> bool {
    let n = crate_path.len() as int;
    &&& code.len() == n + ty.len() + 8
    &&& has_word(code, 0, "as"@) && has_punct(code, 1, '&') && has_word(code, 2, "dyn"@)
    &&& has_code(code, 3, crate_path)
    &&& has_operator(code, n + 3, ':', ':')
    &&& has_word(code, n + 5, "DynamicService"@)
    &&& has_punct(code, n + 6, '<')
    &&& has_code(code, n + 7, ty)
    &&& has_punct(code, n + 7 + ty.len(), '>')
}

/// Each step of a walk stands under the `cfg` attribute of its field and adds the single service, as a
/// service of the message type: that of each item where the field is an array, and at its place where
/// the field groups services.
pub proof fn law_step_adds_its_service(
    crate_path: Seq<Tok>,
    servs: Seq<PlanModel>,
    slot: SlotModel,
    ty: Seq<Tok>,
)
    requires
        slot.service < servs.len(),
    ensures
        ({
            let serv = servs[slot.service as int];
            let piece = chain_code(crate_path, servs, slot, ty);
            &&& serv.attr.is_prefix_of(piece)
            &&& read_step(piece.skip(serv.attr.len() as int)) matches Some(step) && step.spot
                == spot_of(servs, slot) && casts_to(step.cast, crate_path, ty)
        }),
{
    lemma_cast(crate_path, ty);
    if servs[slot.service as int].shape is Array {
        lemma_step_of_items(crate_path, servs, slot, ty);
    } else {
        lemma_step_of_one(crate_path, servs, slot, ty);
    }
}

proof fn lemma_cast(crate_path: Seq<Tok>, ty: Seq<Tok>)
    ensures
        casts_to(as_service_code(crate_path, ty), crate_path, ty),
{
    let cast = as_service_code(crate_path, ty);
    let n = crate_path.len() as int;
    assert(cast.subrange(3, 3 + n) =~= crate_path);
    assert(cast.subrange(n + 7, n + 7 + ty.len()) =~= ty);
}

#[verifier::rlimit(50)]
proof fn lemma_step_of_items(
    crate_path: Seq<Tok>,
    servs: Seq<PlanModel>,
    slot: SlotModel,
    ty: Seq<Tok>,
)
    requires
        slot.service < servs.len(),
        servs[slot.service as int].shape is Array,
    ensures
        ({
            let serv = servs[slot.service as int];
            let piece = chain_code(crate_path, servs, slot, ty);
            &&& serv.attr.is_prefix_of(piece)
            &&& read_step(piece.skip(serv.attr.len() as int)) == Some(
                Step { spot: spot_of(servs, slot), cast: as_service_code(crate_path, ty) },
            )
        }),
{
    let serv = servs[slot.service as int];
    let piece = chain_code(crate_path, servs, slot, ty);
    let code = piece.skip(serv.attr.len() as int);
    let cast = as_service_code(crate_path, ty);
    let part = place_code(slot.index);
    let prefix = if slot.index is Some {
        no_code().punct('&')
    } else {
        no_code()
    };
    let inner = no_code().punct('|').word("item"@).punct('|').code(prefix).word("item"@).code(
        part,
    ).code(cast);
    let services = no_code().word("self"@).punct('.').name(serv.ident).punct('.').word("iter"@).paren(
        no_code(),
    ).punct('.').word("map"@).paren(inner);
    assert(code =~= no_code().word("let"@).word("iter"@).punct('=').word("iter"@).punct('.').word(
        "chain"@,
    ).paren(services).punct(';'));
    let end: int = if slot.index is Some {
        7
    } else {
        4
    };
    assert(inner.skip(end) =~= cast);
    assert(read_items(services) == Some(Step { spot: spot_of(servs, slot), cast }));
}

#[verifier::rlimit(50)]
proof fn lemma_step_of_one(
    crate_path: Seq<Tok>,
    servs: Seq<PlanModel>,
    slot: SlotModel,
    ty: Seq<Tok>,
)
    requires
        slot.service < servs.len(),
        !(servs[slot.service as int].shape is Array),
    ensures
        ({
            let serv = servs[slot.service as int];
            let piece = chain_code(crate_path, servs, slot, ty);
            &&& serv.attr.is_prefix_of(piece)
            &&& read_step(piece.skip(serv.attr.len() as int)) == Some(
                Step { spot: spot_of(servs, slot), cast: as_service_code(crate_path, ty) },
            )
        }),
{
    let serv = servs[slot.service as int];
    let piece = chain_code(crate_path, servs, slot, ty);
    let code = piece.skip(serv.attr.len() as int);
    let cast = as_service_code(crate_path, ty);
    let part = place_code(slot.index);
    let inner = no_code().punct('&').word("self"@).punct('.').name(serv.ident).code(part).code(cast);
    let services = no_code().bracket(inner).punct('.').word("into_iter"@).paren(no_code());
    assert(code =~= no_code().word("let"@).word("iter"@).punct('=').word("iter"@).punct('.').word(
        "chain"@,
    ).paren(services).punct(';'));
    let end: int = if slot.index is Some {
        6
    } else {
        4
    };
    assert(inner.skip(end) =~= cast);
    assert(read_one(services) == Some(Step { spot: spot_of(servs, slot), cast }));
}

/// The steps of a walk, cut off their attributes.
pub open spec fn walk_cuts(
    crate_path: Seq<Tok>,
    servs: Seq<PlanModel>,
    slots: Seq<SlotModel>,
    ty: Seq<Tok>,
    group: Seq<int>,
) -> Seq<Cut> {
    cuts(
        group.map_values(|p: int| chain_code(crate_path, servs, slots[p], ty)),
        cfgs_of(servs, slots, group),
    )
}

/// A walk is written as its steps: one for each single service of its type, in order, each of which
/// adds that single service.
pub proof fn law_walk_is_its_steps(
    crate_path: Seq<Tok>,
    servs: Seq<PlanModel>,
    slots: Seq<SlotModel>,
    ty: Seq<Tok>,
    group: Seq<int>,
)
    requires
        in_range(servs, slots, group),
    ensures
        ({
            let list = walk_cuts(crate_path, servs, slots, ty, group);
            &&& chains_code(crate_path, servs, slots, ty, group) == joined(list)
            &&& list.len() == group.len()
            &&& forall|m: int|
                0 <= m < group.len() ==> (#[trigger] list[m]).cfg
                    == servs[slots[group[m]].service as int].attr && (read_step(
                    list[m].code,
                ) matches Some(step) && step.spot == spot_of(servs, slots[group[m]]) && casts_to(
                    step.cast,
                    crate_path,
                    ty,
                ))
        }),
{
    let pieces = group.map_values(|p: int| chain_code(crate_path, servs, slots[p], ty));
    let list = walk_cuts(crate_path, servs, slots, ty, group);
    lemma_step_pieces(crate_path, servs, slots, ty, group);
    assert forall|m: int| 0 <= m < pieces.len() implies cfgs_of(servs, slots, group)[m].is_prefix_of(
        #[trigger] pieces[m],
    ) by {
        assert(0 <= group[m] < slots.len());
        law_step_adds_its_service(crate_path, servs, slots[group[m]], ty);
    }
    lemma_cuts_join(pieces, cfgs_of(servs, slots, group));
    assert forall|m: int| 0 <= m < group.len() implies (#[trigger] list[m]).cfg
        == servs[slots[group[m]].service as int].attr && (read_step(list[m].code) matches Some(step)
        && step.spot == spot_of(servs, slots[group[m]]) && casts_to(step.cast, crate_path, ty)) by {
        assert(0 <= group[m] < slots.len());
        law_step_adds_its_service(crate_path, servs, slots[group[m]], ty);
    }
}

proof fn lemma_step_pieces(
    crate_path: Seq<Tok>,
    servs: Seq<PlanModel>,
    slots: Seq<SlotModel>,
    ty: Seq<Tok>,
    group: Seq<int>,
)
    ensures
        chains_code(crate_path, servs, slots, ty, group) == flat(
            group.map_values(|p: int| chain_code(crate_path, servs, slots[p], ty)),
        ),
    decreases group.len(),
{
    if group.len() > 0 {
        lemma_step_pieces(crate_path, servs, slots, ty, group.drop_last());
        assert(group.map_values(|p: int| chain_code(crate_path, servs, slots[p], ty)).drop_last()
            =~= group.drop_last().map_values(|p: int| chain_code(crate_path, servs, slots[p], ty)));
    }
}

/// Whether the step of a walk adds the single service at the position of the list.
pub open spec fn step_adds(
    crate_path: Seq<Tok>,
    servs: Seq<PlanModel>,
    group: Seq<int>,
    m: int,
    field: Named,
    item: bool,
    index: Option<nat>,
) -> bool {
    let slots = all_slots(servs);
    let list = walk_cuts(crate_path, servs, slots, slots[group[0]].ty.tokens, group);
    0 <= m < list.len() && (read_step(list[m].code) matches Some(step) && step.spot == Spot {
        field,
        item,
        part: part_digits(index),
    })
}

/// The walks reach each single service, whatever its field and its place: exactly one walk has a step
/// for it, and only one. It is the walk of its message type.
pub proof fn law_each_service_is_walked_once(
    crate_path: Seq<Tok>,
    servs: Seq<PlanModel>,
    service: nat,
    index: Option<nat>,
    ty: MessageModel,
)
    requires
        service < servs.len(),
        field_holds(servs[service as int].shape, index, ty),
    ensures
        ({
            let slots = all_slots(servs);
            let found = groups(slot_types(slots));
            let slot = SlotModel { service, index, ty };
            exists|k: int, m: int|
                {
                    &&& 0 <= k < found.len()
                    &&& 0 <= m < found[k].len()
                    &&& slots[#[trigger] found[k][m]] == slot
                    &&& slots[found[k][0]].ty.class == ty.class
                    &&& step_adds(
                        crate_path,
                        servs,
                        found[k],
                        m,
                        servs[service as int].ident,
                        servs[service as int].shape is Array,
                        index,
                    )
                    &&& forall|k2: int, m2: int|
                        0 <= k2 < found.len() && 0 <= m2 < found[k2].len()
                            && slots[#[trigger] found[k2][m2]] == slot ==> k2 == k && m2 == m
                }
        }),
{
    let slots = all_slots(servs);
    let types = slot_types(slots);
    let found = groups(types);
    let slot = SlotModel { service, index, ty };
    law_slots_are_what_fields_hold(servs, service, index, ty);
    let p = choose|p: int| 0 <= p < slots.len() && slots[p] == slot;
    law_slot_in_one_group(servs, p);
    let (k, m) = choose|k: int, m: int|
        {
            &&& 0 <= k < found.len()
            &&& 0 <= m < found[k].len()
            &&& #[trigger] found[k][m] == p
            &&& slots[found[k][0]].ty.class == slots[p].ty.class
            &&& forall|k2: int, m2: int|
                0 <= k2 < found.len() && 0 <= m2 < found[k2].len() && #[trigger] found[k2][m2] == p
                    ==> k2 == k && m2 == m
        };
    lemma_slots_in_range(servs);
    law_group_of_one_type(types, k);
    assert(in_range(servs, slots, found[k])) by {
        assert forall|j: int| 0 <= j < found[k].len() implies 0 <= #[trigger] found[k][j] < slots.len()
            && slots[found[k][j]].service < servs.len() by {}
    }
    law_walk_is_its_steps(crate_path, servs, slots, slots[found[k][0]].ty.tokens, found[k]);
    let list = walk_cuts(crate_path, servs, slots, slots[found[k][0]].ty.tokens, found[k]);
    assert(read_step(list[m].code) is Some);
    law_slots_are_listed_once(servs);
    assert forall|k2: int, m2: int|
        0 <= k2 < found.len() && 0 <= m2 < found[k2].len() && slots[#[trigger] found[k2][m2]]
            == slot implies k2 == k && m2 == m by {
        law_group_of_one_type(types, k2);
        assert(0 <= found[k2][m2] < slots.len());
        assert(found[k2][m2] == p);
    }
}

/// Whether `::core::option::Option::text` stands at the position.
pub open spec fn has_option(code: Seq<Tok>, i: int, text: Seq<char>) -> bool {
    &&& has_operator(code, i, ':', ':')
    &&& has_word(code, i + 2, "core"@)
    &&& has_operator(code, i + 3, ':', ':')
    &&& has_word(code, i + 5, "option"@)
    &&& has_operator(code, i + 6, ':', ':')
    &&& has_word(code, i + 8, "Option"@)
    &&& has_operator(code, i + 9, ':', ':')
    &&& has_word(code, i + 11, text)
}

/// Whether the code is `Some(text) => text, None => return None,`, with the whole paths.
#[verifier::opaque]
pub open spec fn takes_or_returns(code: Seq<Tok>, text: Seq<char>) -> bool {
    &&& has_option(code, 0, "Some"@)
    &&& has_word_in_paren(code, 12, text)
    &&& has_operator(code, 13, '=', '>')
    &&& has_word(code, 15, text)
    &&& has_punct(code, 16, ',')
    &&& has_option(code, 17, "None"@)
    &&& has_operator(code, 29, '=', '>')
    &&& has_word(code, 31, "return"@)
    &&& has_option(code, 32, "None"@)
    &&& has_punct(code, 44, ',')
    &&& code.len() == 45
}

/// A look into an array takes the item at the index. Nothing is found where no index is set, and where
/// the array has no such item.
pub proof fn law_look_takes_the_item()
    ensures
        ({
            let code = lookup_tail_code();
            &&& code.len() == 4 && has_punct(code, 0, '.') && has_word(code, 1, "get"@)
            &&& group_at(code, 2, Delimiter::Parenthesis) matches Some(inner) && inner.len() == 3
                && has_word(inner, 0, "match"@) && has_word(inner, 1, "index"@) && (group_at(
                inner,
                2,
                Delimiter::Brace,
            ) matches Some(choice) && takes_or_returns(choice, "index"@))
            &&& group_at(code, 3, Delimiter::Brace) matches Some(choice) && takes_or_returns(
                choice,
                "service"@,
            )
        }),
{
    lemma_takes_or_returns("index"@);
    lemma_takes_or_returns("service"@);
}

#[verifier::rlimit(100)]
proof fn lemma_takes_or_returns(text: Seq<char>)
    ensures
        takes_or_returns(
            no_code().colons().word("core"@).colons().word("option"@).colons().word(
                "Option"@,
            ).colons().word("Some"@).paren(no_code().word(text)).fat_arrow().word(text).punct(
                ',',
            ).colons().word("core"@).colons().word("option"@).colons().word("Option"@).colons().word(
                "None"@,
            ).fat_arrow().word("return"@).colons().word("core"@).colons().word(
                "option"@,
            ).colons().word("Option"@).colons().word("None"@).punct(','),
            text,
        ),
{
    reveal(takes_or_returns);
}

} // verus!
