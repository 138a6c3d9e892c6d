//! What the conversions of the enum of targets mean.

use vstd::prelude::*;

use crate::code::{no_code, Snippet};
use crate::ident::{upper_camel, Named};
use crate::service::{plans, services, PlanModel};
use crate::syntax::FieldModel;
use crate::targets::{
    entries_code, entry_code, from_id_arm_array_code, from_id_arm_code, from_usize_arm_array_code,
    id_arm_array_code, id_arm_code, into_id_arm_array_code, into_id_arm_code, is_indexed, last_code,
    last_from_id_arm_code, last_from_usize_arm_code, last_id_arm_code, last_into_id_arm_code,
    last_name_arm_code, name_arm_array_code, name_arm_code, table_code, Table,
};
use crate::token::{Place, Tok};

verus! {

/// A value of the enum of targets: a variant, with an index where the variant takes one.
pub enum Target {
    Plain(Seq<char>),
    Indexed(Seq<char>, Option<nat>),
}

/// An identifier of the crate: a number, an index that may not be set, and a name.
pub struct IdModel {
    pub id: nat,
    pub index: Option<nat>,
    pub name: Seq<char>,
}

/// The left side of a match arm.
pub enum Pattern {
    /// A variant without an index.
    Plain(Named),
    /// A variant with any index.
    Indexed(Named),
    /// A number.
    Number(nat),
    /// Whatever is left.
    Rest,
}

/// The right side of a match arm.
pub enum Outcome {
    /// A number.
    Number(nat),
    /// The greatest `usize`.
    Greatest,
    /// A variant without an index.
    Plain(Named),
    /// A variant with the index of the identifier that is matched.
    SameIndex(Named),
    /// A variant with no index set.
    NoIndex(Named),
    /// An identifier with the number, and with the name of the target that is matched.
    NewId(nat),
    /// The same, with the index of the target that is matched.
    NewIdAt(nat),
    /// The same with the greatest `usize` as its number.
    NewIdGreatest,
    /// A text, written at a place.
    Text(Seq<char>, Place),
}

/// A match arm, under its `cfg` attribute.
pub struct Arm {
    pub cfg: Seq<Tok>,
    pub pattern: Pattern,
    pub outcome: Outcome,
}

/// The variant for senders that are no service.
pub open spec fn global() -> Named {
    Named { text: "GLOBAL_SENDER"@, place: Place::CallSite }
}

/// The target for senders that are no service.
pub open spec fn global_target() -> Target {
    Target::Plain("GLOBAL_SENDER"@)
}

/// The pattern that the target of a service fits.
pub open spec fn target_pattern(serv: PlanModel) -> Pattern {
    if is_indexed(serv.shape) {
        Pattern::Indexed(serv.upper)
    } else {
        Pattern::Plain(serv.upper)
    }
}

/// The arm of a service in a table.
pub open spec fn arm_of(table: Table, serv: PlanModel) -> Arm {
    let indexed = is_indexed(serv.shape);
    let (pattern, outcome) = match table {
        Table::FromId => (
            Pattern::Number(serv.id),
            if indexed {
                Outcome::SameIndex(serv.upper)
            } else {
                Outcome::Plain(serv.upper)
            },
        ),
        Table::FromUsize => (
            Pattern::Number(serv.id),
            if indexed {
                Outcome::NoIndex(serv.upper)
            } else {
                Outcome::Plain(serv.upper)
            },
        ),
        Table::IntoId => (
            target_pattern(serv),
            if indexed {
                Outcome::NewIdAt(serv.id)
            } else {
                Outcome::NewId(serv.id)
            },
        ),
        Table::Names => (
            target_pattern(serv),
            Outcome::Text(upper_camel(serv.upper.text), serv.upper.place),
        ),
        _ => (target_pattern(serv), Outcome::Number(serv.id)),
    };
    Arm { cfg: serv.attr, pattern, outcome }
}

/// The last arm of a table.
pub open spec fn last_arm(table: Table) -> Arm {
    let (pattern, outcome) = match table {
        Table::FromId => (Pattern::Rest, Outcome::Plain(global())),
        Table::FromUsize => (Pattern::Rest, Outcome::Plain(global())),
        Table::IntoId => (Pattern::Plain(global()), Outcome::NewIdGreatest),
        Table::Names => (Pattern::Plain(global()), Outcome::Text("Global"@, Place::CallSite)),
        _ => (Pattern::Plain(global()), Outcome::Greatest),
    };
    Arm { cfg: no_code(), pattern, outcome }
}

/// The arms of a table.
pub open spec fn arms(table: Table, servs: Seq<PlanModel>) -> Seq<Arm> {
    servs.map_values(|serv: PlanModel| arm_of(table, serv)).push(last_arm(table))
}

/// How a pattern is written.
pub open spec fn pattern_tokens(owner: Seq<Tok>, binder: Seq<char>, pattern: Pattern) -> Seq<Tok> {
    match pattern {
        Pattern::Plain(variant) => owner.colons().name(variant),
        Pattern::Indexed(variant) => owner.colons().name(variant).paren(no_code().word(binder)),
        Pattern::Number(n) => no_code().number(n),
        Pattern::Rest => no_code().word("_"@),
    }
}

/// How a new identifier is written.
pub open spec fn new_id_tokens(crate_path: Seq<Tok>, number: Seq<Tok>) -> Seq<Tok> {
    crate_path.colons().word("ID"@).colons().word("new"@).paren(number)
}

/// How the name of the target that is matched is set.
pub open spec fn named_tokens(id: Seq<Tok>) -> Seq<Tok> {
    id.punct('.').word("set_name"@).paren(
        no_code().word("target"@).punct('.').word("into"@).paren(no_code()),
    )
}

/// How an outcome is written.
pub open spec fn outcome_tokens(
    owner: Seq<Tok>,
    crate_path: Seq<Tok>,
    outcome: Outcome,
) -> Seq<Tok> {
    match outcome {
        Outcome::Number(n) => no_code().number(n),
        Outcome::Greatest => no_code().word("usize"@).colons().word("MAX"@),
        Outcome::Plain(variant) => owner.colons().name(variant),
        Outcome::SameIndex(variant) => owner.colons().name(variant).paren(
            no_code().word("id"@).punct('.').word("index"@).paren(no_code()),
        ),
        Outcome::NoIndex(variant) => owner.colons().name(variant).paren(no_code().word("None"@)),
        Outcome::NewId(n) => named_tokens(new_id_tokens(crate_path, no_code().number(n))),
        Outcome::NewIdAt(n) => named_tokens(
            no_code().word("match"@).word("index"@).brace(
                no_code()
                    .word("Some"@).paren(no_code().word("index"@)).fat_arrow()
                    .code(new_id_tokens(crate_path, no_code().number(n)))
                    .punct('.').word("set_index"@).paren(no_code().word("index"@)).punct(',')
                    .word("None"@).fat_arrow()
                    .code(new_id_tokens(crate_path, no_code().number(n))),
            ),
        ),
        Outcome::NewIdGreatest => named_tokens(
            new_id_tokens(crate_path, no_code().word("usize"@).colons().word("MAX"@)),
        ),
        Outcome::Text(text, place) => no_code().string_at(text, place),
    }
}

/// How an arm is written: `cfg pattern => outcome`.
pub open spec fn arm_tokens(
    owner: Seq<Tok>,
    binder: Seq<char>,
    crate_path: Seq<Tok>,
    arm: Arm,
) -> Seq<Tok> {
    arm.cfg + pattern_tokens(owner, binder, arm.pattern).fat_arrow().code(
        outcome_tokens(owner, crate_path, arm.outcome),
    )
}

/// What the variants of a table belong to: `Self`, or the enum by its name.
pub open spec fn owner(table: Table, target: Named) -> Seq<Tok> {
    if table == Table::IntoId || table == Table::Names {
        no_code().name(target)
    } else {
        no_code().word("Self"@)
    }
}

/// The same for the last arm.
pub open spec fn last_owner(table: Table, target: Named) -> Seq<Tok> {
    if table == Table::FromId {
        no_code().name(target)
    } else {
        owner(table, target)
    }
}

/// What an index is bound to.
pub open spec fn binder(table: Table) -> Seq<char> {
    if table == Table::IntoId {
        "index"@
    } else {
        "_"@
    }
}

/// The entry of a service in a table is its arm, with a comma.
pub proof fn law_entry_is_arm(
    table: Table,
    crate_path: Seq<Tok>,
    target: Named,
    serv: PlanModel,
)
    requires
        table != Table::Variants,
    ensures
        entry_code(table, crate_path, target, serv) == arm_tokens(
            owner(table, target),
            binder(table),
            crate_path,
            arm_of(table, serv),
        ).punct(','),
{
    let arm = arm_of(table, serv);
    let owner = owner(table, target);
    let body = pattern_tokens(owner, binder(table), arm.pattern).fat_arrow().code(
        outcome_tokens(owner, crate_path, arm.outcome),
    ).punct(',');
    let upper = serv.upper;
    let name = upper_camel(upper.text);
    if is_indexed(serv.shape) {
        match table {
            Table::Ids => assert(id_arm_array_code(upper, serv.id) =~= body),
            Table::FromId => assert(from_id_arm_array_code(upper, serv.id) =~= body),
            Table::IntoId => {
                let one = no_code().word("Some"@).paren(no_code().word("index"@)).fat_arrow();
                lemma_new_id(one, crate_path, no_code().number(serv.id));
                let two = one.code(new_id_tokens(crate_path, no_code().number(serv.id))).punct(
                    '.',
                ).word("set_index"@).paren(no_code().word("index"@)).punct(',').word(
                    "None"@,
                ).fat_arrow();
                lemma_new_id(two, crate_path, no_code().number(serv.id));
                assert(into_id_arm_array_code(crate_path, target, upper, serv.id) =~= body);
            },
            Table::FromUsize => assert(from_usize_arm_array_code(upper, serv.id) =~= body),
            Table::Names => assert(name_arm_array_code(target, upper, name) =~= body),
            Table::Variants => {},
        }
    } else {
        match table {
            Table::Ids => assert(id_arm_code(upper, serv.id) =~= body),
            Table::FromId => assert(from_id_arm_code(upper, serv.id) =~= body),
            Table::IntoId => {
                assert(into_id_arm_code(crate_path, target, upper, serv.id) =~= body);
            },
            Table::FromUsize => assert(from_id_arm_code(upper, serv.id) =~= body),
            Table::Names => assert(name_arm_code(target, upper, name) =~= body),
            Table::Variants => {},
        }
    }
    assert(entry_code(table, crate_path, target, serv) =~= serv.attr + body);
    assert(serv.attr + body =~= arm_tokens(owner, binder(table), crate_path, arm).punct(','));
}

/// A new identifier can be written in one go.
proof fn lemma_new_id(before: Seq<Tok>, crate_path: Seq<Tok>, number: Seq<Tok>)
    ensures
        before.code(crate_path).colons().word("ID"@).colons().word("new"@).paren(number)
            == before.code(new_id_tokens(crate_path, number)),
{
    assert(before.code(crate_path).colons().word("ID"@).colons().word("new"@).paren(number)
        =~= before.code(new_id_tokens(crate_path, number)));
}

/// The last entry of a table is its last arm, in some tables with a comma.
pub proof fn law_last_entry_is_arm(table: Table, crate_path: Seq<Tok>, target: Named)
    requires
        table != Table::Variants,
    ensures
        ({
            let last = arm_tokens(
                last_owner(table, target),
                binder(table),
                crate_path,
                last_arm(table),
            );
            last_code(table, crate_path, target) == if table == Table::Ids || table
                == Table::FromUsize {
                last.punct(',')
            } else {
                last
            }
        }),
{
    let last = arm_tokens(last_owner(table, target), binder(table), crate_path, last_arm(table));
    match table {
        Table::Ids => assert(last_id_arm_code() =~= last.punct(',')),
        Table::FromId => assert(last_from_id_arm_code(target) =~= last),
        Table::IntoId => assert(last_into_id_arm_code(crate_path, target) =~= last),
        Table::FromUsize => assert(last_from_usize_arm_code() =~= last.punct(',')),
        Table::Names => assert(last_name_arm_code(target) =~= last),
        Table::Variants => {},
    }
}

/// The arms of the services, written one after the other.
pub open spec fn arms_tokens(
    owner: Seq<Tok>,
    binder: Seq<char>,
    crate_path: Seq<Tok>,
    list: Seq<Arm>,
) -> Seq<Tok>
    decreases list.len(),
{
    if list.len() == 0 {
        no_code()
    } else {
        arms_tokens(owner, binder, crate_path, list.drop_last()) + arm_tokens(
            owner,
            binder,
            crate_path,
            list.last(),
        ).punct(',')
    }
}

/// A table is its arms, written in order: those of the services, each with a comma, then the last
/// one.
pub proof fn law_table_is_its_arms(
    table: Table,
    crate_path: Seq<Tok>,
    target: Named,
    servs: Seq<PlanModel>,
)
    requires
        table != Table::Variants,
    ensures
        arms(table, servs).len() == servs.len() + 1,
        arms(table, servs).last() == last_arm(table),
        table_code(table, crate_path, target, servs) == arms_tokens(
            owner(table, target),
            binder(table),
            crate_path,
            arms(table, servs).drop_last(),
        ) + last_code(table, crate_path, target),
    decreases servs.len(),
{
    let list = servs.map_values(|serv: PlanModel| arm_of(table, serv));
    assert(arms(table, servs).drop_last() =~= list);
    if servs.len() > 0 {
        let rest = servs.drop_last();
        law_table_is_its_arms(table, crate_path, target, rest);
        assert(arms(table, rest).drop_last() =~= list.drop_last());
        law_entry_is_arm(table, crate_path, target, servs.last());
        let done = arms_tokens(owner(table, target), binder(table), crate_path, list.drop_last());
        lemma_same_end(
            entries_code(table, crate_path, target, rest),
            done,
            last_code(table, crate_path, target),
        );
    }
}

/// What stands before the same end is the same where the whole is.
proof fn lemma_same_end(a: Seq<Tok>, b: Seq<Tok>, end: Seq<Tok>)
    requires
        a + end == b + end,
    ensures
        a == b,
{
    assert(a.len() + end.len() == (a + end).len());
    assert(b.len() + end.len() == (b + end).len());
    assert(a =~= (a + end).take(a.len() as int));
    assert(b =~= (b + end).take(b.len() as int));
}

/// What a match looks at.
pub enum Input {
    Target(Target),
    Number(nat),
}

/// Whether the input fits the pattern. Where an identifier points in the source does not count.
pub open spec fn fits(pattern: Pattern, input: Input) -> bool {
    match (pattern, input) {
        (Pattern::Plain(variant), Input::Target(Target::Plain(name))) => variant.text == name,
        (Pattern::Indexed(variant), Input::Target(Target::Indexed(name, _))) => variant.text == name,
        (Pattern::Number(n), Input::Number(m)) => n == m,
        (Pattern::Rest, _) => true,
        _ => false,
    }
}

/// Whether what stands under the attribute is compiled, given which attributes hold.
pub open spec fn is_on(cfg: Seq<Tok>, on: spec_fn(Seq<Tok>) -> bool) -> bool {
    cfg.len() == 0 || on(cfg)
}

/// Whether an arm is compiled and its pattern fits.
pub open spec fn takes(arm: Arm, on: spec_fn(Seq<Tok>) -> bool, input: Input) -> bool {
    is_on(arm.cfg, on) && fits(arm.pattern, input)
}

/// What a match gives: the outcome of the first arm that takes the input.
pub open spec fn chosen(
    list: Seq<Arm>,
    on: spec_fn(Seq<Tok>) -> bool,
    input: Input,
) -> Option<Outcome>
    decreases list.len(),
{
    if list.len() == 0 {
        None
    } else if takes(list[0], on, input) {
        Some(list[0].outcome)
    } else {
        chosen(list.drop_first(), on, input)
    }
}

/// `target.id()`.
pub open spec fn target_number(
    servs: Seq<PlanModel>,
    on: spec_fn(Seq<Tok>) -> bool,
    target: Target,
) -> Option<nat> {
    match chosen(arms(Table::Ids, servs), on, Input::Target(target)) {
        Some(Outcome::Number(n)) => Some(n),
        Some(Outcome::Greatest) => Some(usize::MAX as nat),
        _ => None,
    }
}

/// `<&'static str>::from(target)`.
pub open spec fn target_name(
    servs: Seq<PlanModel>,
    on: spec_fn(Seq<Tok>) -> bool,
    target: Target,
) -> Option<Seq<char>> {
    match chosen(arms(Table::Names, servs), on, Input::Target(target)) {
        Some(Outcome::Text(text, _)) => Some(text),
        _ => None,
    }
}

/// The index of a target, where it has one that is set.
pub open spec fn target_index(target: Target) -> Option<nat> {
    match target {
        Target::Plain(_) => None,
        Target::Indexed(_, index) => index,
    }
}

/// `ID::from(target)`. `ID::new` sets the number only, `set_index` the index and `set_name` the
/// name.
pub open spec fn target_to_id(
    servs: Seq<PlanModel>,
    on: spec_fn(Seq<Tok>) -> bool,
    target: Target,
) -> Option<IdModel> {
    match (
        chosen(arms(Table::IntoId, servs), on, Input::Target(target)),
        target_name(servs, on, target),
    ) {
        (Some(Outcome::NewId(id)), Some(name)) => Some(IdModel { id, index: None, name }),
        (Some(Outcome::NewIdAt(id)), Some(name)) => Some(
            IdModel { id, index: target_index(target), name },
        ),
        (Some(Outcome::NewIdGreatest), Some(name)) => Some(
            IdModel { id: usize::MAX as nat, index: None, name },
        ),
        _ => None,
    }
}

/// `Target::from(n)` for a number.
pub open spec fn number_to_target(
    servs: Seq<PlanModel>,
    on: spec_fn(Seq<Tok>) -> bool,
    n: nat,
) -> Option<Target> {
    match chosen(arms(Table::FromUsize, servs), on, Input::Number(n)) {
        Some(Outcome::Plain(variant)) => Some(Target::Plain(variant.text)),
        Some(Outcome::NoIndex(variant)) => Some(Target::Indexed(variant.text, None)),
        _ => None,
    }
}

/// `Target::from(id)` for an identifier.
pub open spec fn id_to_target(
    servs: Seq<PlanModel>,
    on: spec_fn(Seq<Tok>) -> bool,
    id: IdModel,
) -> Option<Target> {
    match chosen(arms(Table::FromId, servs), on, Input::Number(id.id)) {
        Some(Outcome::Plain(variant)) => Some(Target::Plain(variant.text)),
        Some(Outcome::SameIndex(variant)) => Some(Target::Indexed(variant.text, id.index)),
        _ => None,
    }
}

/// Whether the services are numbered by their positions, as many as a `Vec` can hold.
pub open spec fn are_numbered(servs: Seq<PlanModel>) -> bool {
    servs.len() <= usize::MAX && forall|i: int|
        0 <= i < servs.len() ==> (#[trigger] servs[i]).id == i
}

/// The services of a struct are numbered by their positions.
pub proof fn law_services_are_numbered(fields: Seq<FieldModel>)
    requires
        fields.len() <= usize::MAX,
    ensures
        are_numbered(plans(services(fields))),
{
}

/// Whether no two variants that are compiled have the same name.
pub open spec fn variants_differ(servs: Seq<PlanModel>, on: spec_fn(Seq<Tok>) -> bool) -> bool {
    &&& forall|i: int|
        0 <= i < servs.len() && is_on((#[trigger] servs[i]).attr, on) ==> servs[i].upper.text
            != "GLOBAL_SENDER"@
    &&& forall|i: int, j: int|
        0 <= i < j < servs.len() && is_on((#[trigger] servs[i]).attr, on) && is_on(
            (#[trigger] servs[j]).attr,
            on,
        ) ==> servs[i].upper.text != servs[j].upper.text
}

/// Whether the target is one of the service at the position, which is compiled.
pub open spec fn is_target_of(
    servs: Seq<PlanModel>,
    on: spec_fn(Seq<Tok>) -> bool,
    i: int,
    target: Target,
) -> bool {
    &&& 0 <= i < servs.len()
    &&& is_on(servs[i].attr, on)
    &&& match target {
        Target::Plain(name) => !is_indexed(servs[i].shape) && name == servs[i].upper.text,
        Target::Indexed(name, _) => is_indexed(servs[i].shape) && name == servs[i].upper.text,
    }
}

/// A target without its index.
pub open spec fn without_index(target: Target) -> Target {
    match target {
        Target::Plain(name) => Target::Plain(name),
        Target::Indexed(name, _) => Target::Indexed(name, None),
    }
}

/// The first arm that takes the input decides.
proof fn lemma_chosen(list: Seq<Arm>, on: spec_fn(Seq<Tok>) -> bool, input: Input, k: int)
    requires
        0 <= k < list.len(),
        takes(list[k], on, input),
        forall|j: int| 0 <= j < k ==> !takes(#[trigger] list[j], on, input),
    ensures
        chosen(list, on, input) == Some(list[k].outcome),
    decreases k,
{
    if k > 0 {
        assert(!takes(list[0], on, input));
        let rest = list.drop_first();
        assert forall|j: int| 0 <= j < k - 1 implies !takes(#[trigger] rest[j], on, input) by {
            assert(rest[j] == list[j + 1]);
        }
        lemma_chosen(rest, on, input, k - 1);
    }
}

/// A target of a service is taken by the arm of the service.
proof fn lemma_target_arm(
    table: Table,
    servs: Seq<PlanModel>,
    on: spec_fn(Seq<Tok>) -> bool,
    i: int,
    target: Target,
)
    requires
        table == Table::Ids || table == Table::IntoId || table == Table::Names,
        variants_differ(servs, on),
        is_target_of(servs, on, i, target),
    ensures
        chosen(arms(table, servs), on, Input::Target(target)) == Some(
            arm_of(table, servs[i]).outcome,
        ),
{
    let list = arms(table, servs);
    let input = Input::Target(target);
    assert(list[i] == arm_of(table, servs[i]));
    assert forall|j: int| 0 <= j < i implies !takes(#[trigger] list[j], on, input) by {
        assert(list[j] == arm_of(table, servs[j]));
        if is_on(servs[j].attr, on) {
            assert(servs[j].upper.text != servs[i].upper.text);
        }
    }
    lemma_chosen(list, on, input, i);
}

/// The target for senders that are no service is taken by the last arm.
proof fn lemma_global_arm(table: Table, servs: Seq<PlanModel>, on: spec_fn(Seq<Tok>) -> bool)
    requires
        table == Table::Ids || table == Table::IntoId || table == Table::Names,
        variants_differ(servs, on),
    ensures
        chosen(arms(table, servs), on, Input::Target(global_target())) == Some(
            last_arm(table).outcome,
        ),
{
    let list = arms(table, servs);
    let input = Input::Target(global_target());
    assert forall|j: int| 0 <= j < servs.len() implies !takes(#[trigger] list[j], on, input) by {
        assert(list[j] == arm_of(table, servs[j]));
        if is_on(servs[j].attr, on) {
            assert(servs[j].upper.text != "GLOBAL_SENDER"@);
        }
    }
    lemma_chosen(list, on, input, servs.len() as int);
}

/// A number is taken by the arm of the service that has it, or else by the last arm.
proof fn lemma_number_arm(
    table: Table,
    servs: Seq<PlanModel>,
    on: spec_fn(Seq<Tok>) -> bool,
    n: nat,
)
    requires
        table == Table::FromId || table == Table::FromUsize,
        are_numbered(servs),
    ensures
        chosen(arms(table, servs), on, Input::Number(n)) == Some(
            if n < servs.len() && is_on(servs[n as int].attr, on) {
                arm_of(table, servs[n as int]).outcome
            } else {
                last_arm(table).outcome
            },
        ),
{
    let list = arms(table, servs);
    let input = Input::Number(n);
    assert forall|j: int| 0 <= j < servs.len() && j != n implies !takes(#[trigger] list[j], on, input)
        by {
        assert(list[j] == arm_of(table, servs[j]));
        assert(servs[j].id == j);
    }
    if n < servs.len() {
        assert(list[n as int] == arm_of(table, servs[n as int]));
        assert(servs[n as int].id == n);
    }
    if n < servs.len() && is_on(servs[n as int].attr, on) {
        lemma_chosen(list, on, input, n as int);
    } else {
        lemma_chosen(list, on, input, servs.len() as int);
    }
}

/// The number of a target is the position of its service, and leads back to the target, with no
/// index set.
pub proof fn law_number_of_target_leads_back(
    servs: Seq<PlanModel>,
    on: spec_fn(Seq<Tok>) -> bool,
    i: int,
    target: Target,
)
    requires
        are_numbered(servs),
        variants_differ(servs, on),
        is_target_of(servs, on, i, target),
    ensures
        target_number(servs, on, target) == Some(i as nat),
        number_to_target(servs, on, i as nat) == Some(without_index(target)),
{
    lemma_target_arm(Table::Ids, servs, on, i, target);
    lemma_number_arm(Table::FromUsize, servs, on, i as nat);
    assert(servs[i].id == i);
}

/// The number of the target for senders that are no service is the greatest `usize`, and leads back
/// to it.
pub proof fn law_greatest_number_leads_back(
    servs: Seq<PlanModel>,
    on: spec_fn(Seq<Tok>) -> bool,
)
    requires
        are_numbered(servs),
        variants_differ(servs, on),
    ensures
        target_number(servs, on, global_target()) == Some(usize::MAX as nat),
        number_to_target(servs, on, usize::MAX as nat) == Some(global_target()),
{
    lemma_global_arm(Table::Ids, servs, on);
    lemma_number_arm(Table::FromUsize, servs, on, usize::MAX as nat);
}

/// A number leads to a target that has it, where it is the position of a service that is compiled,
/// and else to the target for senders that are no service.
pub proof fn law_target_of_number_leads_back(
    servs: Seq<PlanModel>,
    on: spec_fn(Seq<Tok>) -> bool,
    n: usize,
)
    requires
        are_numbered(servs),
        variants_differ(servs, on),
    ensures
        if n < servs.len() && is_on(servs[n as int].attr, on) {
            number_to_target(servs, on, n as nat) matches Some(target) && is_target_of(
                servs,
                on,
                n as int,
                target,
            ) && target_number(servs, on, target) == Some(n as nat)
        } else {
            number_to_target(servs, on, n as nat) == Some(global_target())
        },
{
    lemma_number_arm(Table::FromUsize, servs, on, n as nat);
    if n < servs.len() && is_on(servs[n as int].attr, on) {
        let upper = servs[n as int].upper.text;
        let target = if is_indexed(servs[n as int].shape) {
            Target::Indexed(upper, None)
        } else {
            Target::Plain(upper)
        };
        law_number_of_target_leads_back(servs, on, n as int, target);
    }
}

/// The identifier of a target has its number and its name, and leads back to it with its index.
pub proof fn law_id_of_target_leads_back(
    servs: Seq<PlanModel>,
    on: spec_fn(Seq<Tok>) -> bool,
    i: int,
    target: Target,
)
    requires
        are_numbered(servs),
        variants_differ(servs, on),
        is_target_of(servs, on, i, target),
    ensures
        target_to_id(servs, on, target) matches Some(id) && {
            &&& target_number(servs, on, target) == Some(id.id)
            &&& target_name(servs, on, target) == Some(id.name)
            &&& id.name == upper_camel(servs[i].upper.text)
            &&& id.index == target_index(target)
            &&& id_to_target(servs, on, id) == Some(target)
        },
{
    law_number_of_target_leads_back(servs, on, i, target);
    lemma_target_arm(Table::IntoId, servs, on, i, target);
    lemma_target_arm(Table::Names, servs, on, i, target);
    lemma_number_arm(Table::FromId, servs, on, i as nat);
    assert(servs[i].id == i);
}

/// The identifier of the target for senders that are no service has the greatest number and the name
/// `Global`, and leads back to it.
pub proof fn law_global_id_leads_back(servs: Seq<PlanModel>, on: spec_fn(Seq<Tok>) -> bool)
    requires
        are_numbered(servs),
        variants_differ(servs, on),
    ensures
        target_to_id(servs, on, global_target()) matches Some(id) && {
            &&& id.id == usize::MAX
            &&& id.index is None
            &&& id.name == "Global"@
            &&& target_name(servs, on, global_target()) == Some(id.name)
            &&& id_to_target(servs, on, id) == Some(global_target())
        },
{
    lemma_global_arm(Table::IntoId, servs, on);
    lemma_global_arm(Table::Names, servs, on);
    lemma_number_arm(Table::FromId, servs, on, usize::MAX as nat);
}

/// Two targets have the same number exactly where they are of the same service. None of them has
/// the number of the target for senders that are no service.
pub proof fn law_numbers_tell_services_apart(
    servs: Seq<PlanModel>,
    on: spec_fn(Seq<Tok>) -> bool,
    i: int,
    a: Target,
    j: int,
    b: Target,
)
    requires
        are_numbered(servs),
        variants_differ(servs, on),
        is_target_of(servs, on, i, a),
        is_target_of(servs, on, j, b),
    ensures
        target_number(servs, on, a) == target_number(servs, on, b) <==> i == j,
        target_number(servs, on, a) == Some(i as nat),
        i < servs.len(),
        target_number(servs, on, a) != target_number(servs, on, global_target()),
{
    law_number_of_target_leads_back(servs, on, i, a);
    law_number_of_target_leads_back(servs, on, j, b);
    law_greatest_number_leads_back(servs, on);
}

} // verus!
