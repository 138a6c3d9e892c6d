//! How the enum of targets and the tables of its conversions read.

use vstd::prelude::*;

use crate::code::{flat, no_code, Snippet};
use crate::ident::Named;
use crate::meaning::{
    arm_of, arm_tokens, binder, last_arm, last_owner, law_entry_is_arm, law_last_entry_is_arm,
    new_id_tokens, outcome_tokens, owner, pattern_tokens, Arm, Outcome, Pattern,
};
use crate::reading::{
    group_at, has_code, has_empty_paren, has_operator, has_punct, has_word, has_word_in_paren,
    name_at,
};
use crate::service::PlanModel;
use crate::targets::{
    entries_code, entry_code, enum_item_code, from_id_impl_code, from_usize_impl_code, id_impl_code,
    into_id_impl_code, last_code, name_impl_code, table_code, targets_code, Table,
};
use crate::token::{decimal, quoted, Delimiter, Place, Tok};

verus! {

/// Whether the token at the position is the number, with the suffix `usize`.
pub open spec fn has_number(code: Seq<Tok>, i: int, n: nat) -> bool {
    0 <= i < code.len() && (code[i] matches Tok::Literal(text, _) && text == decimal(n) + "usize"@)
}

/// Whether the code is `owner::variant`, from the position on, and where it ends.
pub open spec fn has_variant(
    code: Seq<Tok>,
    i: int,
    owner: Seq<Tok>,
    variant: Named,
    end: int,
) -> bool {
    let n = owner.len() as int;
    &&& has_code(code, i, owner)
    &&& has_operator(code, i + n, ':', ':')
    &&& name_at(code, i + n + 2) == Some(variant)
    &&& end == i + n + 3
}

/// Whether the code is the left side of an arm.
#[verifier::opaque]
pub open spec fn shows_pattern(
    code: Seq<Tok>,
    owner: Seq<Tok>,
    binder: Seq<char>,
    pattern: Pattern,
) -> bool {
    match pattern {
        Pattern::Plain(variant) => has_variant(code, 0, owner, variant, code.len() as int),
        Pattern::Indexed(variant) => has_variant(code, 0, owner, variant, code.len() - 1)
            && has_word_in_paren(code, code.len() - 1, binder),
        Pattern::Number(n) => has_number(code, 0, n) && code.len() == 1,
        Pattern::Rest => has_word(code, 0, "_"@) && code.len() == 1,
    }
}

/// Whether `crate_path::ID::new(..)` stands at the position, with the number or the greatest `usize`.
pub open spec fn has_new_id(
    code: Seq<Tok>,
    i: int,
    crate_path: Seq<Tok>,
    number: Option<nat>,
) -> bool {
    let n = crate_path.len() as int;
    &&& has_code(code, i, crate_path)
    &&& has_operator(code, i + n, ':', ':')
    &&& has_word(code, i + n + 2, "ID"@)
    &&& has_operator(code, i + n + 3, ':', ':')
    &&& has_word(code, i + n + 5, "new"@)
    &&& group_at(code, i + n + 6, Delimiter::Parenthesis) matches Some(inner) && match number {
        Some(number) => has_number(inner, 0, number) && inner.len() == 1,
        None => shows_greatest(inner),
    }
}

/// Whether the code is `usize::MAX`.
pub open spec fn shows_greatest(code: Seq<Tok>) -> bool {
    has_word(code, 0, "usize"@) && has_operator(code, 1, ':', ':') && has_word(code, 3, "MAX"@)
        && code.len() == 4
}

/// Whether the code ends in `.set_name(target.into())`, from the position on.
pub open spec fn ends_with_name(code: Seq<Tok>, i: int) -> bool {
    &&& has_punct(code, i, '.')
    &&& has_word(code, i + 1, "set_name"@)
    &&& group_at(code, i + 2, Delimiter::Parenthesis) matches Some(inner) && has_word(
        inner,
        0,
        "target"@,
    ) && has_punct(inner, 1, '.') && has_word(inner, 2, "into"@) && has_empty_paren(inner, 3)
        && inner.len() == 4
    &&& code.len() == i + 3
}

/// Whether the code is the right side of an arm.
#[verifier::opaque]
pub open spec fn shows_outcome(
    code: Seq<Tok>,
    owner: Seq<Tok>,
    crate_path: Seq<Tok>,
    outcome: Outcome,
) -> bool {
    let n = crate_path.len() as int;
    match outcome {
        Outcome::Number(number) => has_number(code, 0, number) && code.len() == 1,
        Outcome::Greatest => shows_greatest(code),
        Outcome::Plain(variant) => has_variant(code, 0, owner, variant, code.len() as int),
        Outcome::SameIndex(variant) => has_variant(code, 0, owner, variant, code.len() - 1) && (
        group_at(code, code.len() - 1, Delimiter::Parenthesis) matches Some(inner) && has_word(
            inner,
            0,
            "id"@,
        ) && has_punct(inner, 1, '.') && has_word(inner, 2, "index"@) && has_empty_paren(inner, 3)
            && inner.len() == 4),
        Outcome::NoIndex(variant) => has_variant(code, 0, owner, variant, code.len() - 1)
            && has_word_in_paren(code, code.len() - 1, "None"@),
        Outcome::NewId(number) => has_new_id(code, 0, crate_path, Some(number)) && ends_with_name(
            code,
            n + 7,
        ),
        Outcome::NewIdAt(number) => has_word(code, 0, "match"@) && has_word(code, 1, "index"@) && (
        group_at(code, 2, Delimiter::Brace) matches Some(inner) && has_word(inner, 0, "Some"@)
            && has_word_in_paren(inner, 1, "index"@) && has_operator(inner, 2, '=', '>')
            && has_new_id(inner, 4, crate_path, Some(number)) && has_punct(inner, n + 11, '.')
            && has_word(inner, n + 12, "set_index"@) && has_word_in_paren(inner, n + 13, "index"@)
            && has_punct(inner, n + 14, ',') && has_word(inner, n + 15, "None"@) && has_operator(
            inner,
            n + 16,
            '=',
            '>',
        ) && has_new_id(inner, n + 18, crate_path, Some(number)) && inner.len() == 2 * n + 25)
            && ends_with_name(code, 3),
        Outcome::NewIdGreatest => has_new_id(code, 0, crate_path, None) && ends_with_name(
            code,
            n + 7,
        ),
        Outcome::Text(text, place) => code.len() == 1 && code[0] == Tok::Literal(
            quoted(text),
            place,
        ),
    }
}

/// Whether the code is the arm: `cfg pattern => outcome`.
pub open spec fn shows_arm(
    code: Seq<Tok>,
    owner: Seq<Tok>,
    binder: Seq<char>,
    crate_path: Seq<Tok>,
    arm: Arm,
) -> bool {
    let rest = code.skip(arm.cfg.len() as int);
    &&& arm.cfg.is_prefix_of(code)
    &&& exists|k: int|
        0 <= k <= rest.len() && has_operator(rest, k, '=', '>') && shows_pattern(
            #[trigger] rest.take(k),
            owner,
            binder,
            arm.pattern,
        ) && shows_outcome(rest.skip(k + 2), owner, crate_path, arm.outcome)
}

proof fn lemma_pattern(owner: Seq<Tok>, binder: Seq<char>, pattern: Pattern)
    ensures
        shows_pattern(pattern_tokens(owner, binder, pattern), owner, binder, pattern),
{
    reveal(shows_pattern);
    let code = pattern_tokens(owner, binder, pattern);
    if pattern is Plain || pattern is Indexed {
        assert(code.subrange(0, owner.len() as int) =~= owner);
    }
}

proof fn lemma_new_id(before: Seq<Tok>, crate_path: Seq<Tok>, number: nat, after: Seq<Tok>)
    ensures
        has_new_id(
            before + new_id_tokens(crate_path, no_code().number(number)) + after,
            before.len() as int,
            crate_path,
            Some(number),
        ),
{
    let code = before + new_id_tokens(crate_path, no_code().number(number)) + after;
    let i = before.len() as int;
    assert(code.subrange(i, i + crate_path.len()) =~= crate_path);
}

#[verifier::rlimit(50)]
proof fn lemma_outcome(owner: Seq<Tok>, crate_path: Seq<Tok>, outcome: Outcome)
    ensures
        shows_outcome(outcome_tokens(owner, crate_path, outcome), owner, crate_path, outcome),
{
    reveal(shows_outcome);
    let code = outcome_tokens(owner, crate_path, outcome);
    let n = crate_path.len() as int;
    match outcome {
        Outcome::Plain(_) => {
            assert(code.subrange(0, owner.len() as int) =~= owner);
        },
        Outcome::SameIndex(_) => {
            assert(code.subrange(0, owner.len() as int) =~= owner);
        },
        Outcome::NoIndex(_) => {
            assert(code.subrange(0, owner.len() as int) =~= owner);
        },
        Outcome::NewId(_) => {
            assert(code.subrange(0, n) =~= crate_path);
        },
        Outcome::NewIdGreatest => {
            assert(code.subrange(0, n) =~= crate_path);
        },
        Outcome::NewIdAt(number) => {
            let id = new_id_tokens(crate_path, no_code().number(number));
            let one = no_code().word("Some"@).paren(no_code().word("index"@)).fat_arrow();
            let mid = no_code().punct('.').word("set_index"@).paren(no_code().word("index"@)).punct(
                ',',
            ).word("None"@).fat_arrow();
            let inner = one.code(id).punct('.').word("set_index"@).paren(
                no_code().word("index"@),
            ).punct(',').word("None"@).fat_arrow().code(id);
            assert(inner =~= one + id + (mid + id));
            assert(inner =~= (one + id + mid) + id + no_code());
            lemma_new_id(one, crate_path, number, mid + id);
            lemma_new_id(one + id + mid, crate_path, number, no_code());
            assert(group_at(code, 2, Delimiter::Brace) == Some(inner));
        },
        _ => {},
    }
}

/// An arm is written so that it can be read back.
pub proof fn law_arm_reads(
    owner: Seq<Tok>,
    binder: Seq<char>,
    crate_path: Seq<Tok>,
    arm: Arm,
)
    ensures
        shows_arm(arm_tokens(owner, binder, crate_path, arm), owner, binder, crate_path, arm),
{
    let code = arm_tokens(owner, binder, crate_path, arm);
    let left = pattern_tokens(owner, binder, arm.pattern);
    let right = outcome_tokens(owner, crate_path, arm.outcome);
    lemma_pattern(owner, binder, arm.pattern);
    lemma_outcome(owner, crate_path, arm.outcome);
    lemma_sides(arm.cfg, left, right);
    assert(code == arm.cfg + left.fat_arrow().code(right));
}

/// The sides of an arm, cut at the arrow.
proof fn lemma_sides(cfg: Seq<Tok>, left: Seq<Tok>, right: Seq<Tok>)
    ensures
        ({
            let code = cfg + left.fat_arrow().code(right);
            let rest = code.skip(cfg.len() as int);
            &&& cfg.is_prefix_of(code)
            &&& left.len() <= rest.len()
            &&& has_operator(rest, left.len() as int, '=', '>')
            &&& rest.take(left.len() as int) == left
            &&& rest.skip(left.len() + 2int) == right
        }),
{
    let rest = (cfg + left.fat_arrow().code(right)).skip(cfg.len() as int);
    assert(rest =~= left.fat_arrow().code(right));
    assert(rest.take(left.len() as int) =~= left);
    assert(rest.skip(left.len() + 2int) =~= right);
}

/// The entry of a service in a table reads as its arm, followed by a comma.
pub proof fn law_entry_reads(
    table: Table,
    crate_path: Seq<Tok>,
    target: Named,
    serv: PlanModel,
)
    requires
        table != Table::Variants,
    ensures
        ({
            let code = entry_code(table, crate_path, target, serv);
            &&& has_punct(code, code.len() - 1, ',')
            &&& shows_arm(
                code.drop_last(),
                owner(table, target),
                binder(table),
                crate_path,
                arm_of(table, serv),
            )
        }),
        owner(table, target) == no_code().word("Self"@) || owner(table, target) == no_code().name(
            target,
        ),
        table == Table::IntoId ==> binder(table) == "index"@,
{
    let arm = arm_tokens(owner(table, target), binder(table), crate_path, arm_of(table, serv));
    law_entry_is_arm(table, crate_path, target, serv);
    law_arm_reads(owner(table, target), binder(table), crate_path, arm_of(table, serv));
    assert(entry_code(table, crate_path, target, serv).drop_last() =~= arm);
}

/// The last entry of a table reads as its last arm.
pub proof fn law_last_entry_reads(table: Table, crate_path: Seq<Tok>, target: Named)
    requires
        table != Table::Variants,
    ensures
        ({
            let code = last_code(table, crate_path, target);
            let closed = table == Table::Ids || table == Table::FromUsize;
            &&& closed ==> has_punct(code, code.len() - 1, ',')
            &&& shows_arm(
                if closed {
                    code.drop_last()
                } else {
                    code
                },
                last_owner(table, target),
                binder(table),
                crate_path,
                last_arm(table),
            )
        }),
        last_owner(table, target) == no_code().word("Self"@) || last_owner(table, target)
            == no_code().name(target),
{
    let last = arm_tokens(last_owner(table, target), binder(table), crate_path, last_arm(table));
    law_last_entry_is_arm(table, crate_path, target);
    law_arm_reads(last_owner(table, target), binder(table), crate_path, last_arm(table));
    assert(last.punct(',').drop_last() =~= last);
}

/// Whether the code declares the variant under the attribute, with a comma: `variant,`, or
/// `variant(Option<usize>),` where it has an index.
pub open spec fn declares(code: Seq<Tok>, cfg: Seq<Tok>, variant: Named, indexed: bool) -> bool {
    let rest = code.skip(cfg.len() as int);
    &&& cfg.is_prefix_of(code)
    &&& name_at(rest, 0) == Some(variant)
    &&& if indexed {
        (group_at(rest, 1, Delimiter::Parenthesis) matches Some(inner) && has_word(
            inner,
            0,
            "Option"@,
        ) && has_punct(inner, 1, '<') && has_word(inner, 2, "usize"@) && has_punct(inner, 3, '>')
            && inner.len() == 4) && has_punct(rest, 2, ',') && rest.len() == 3
    } else {
        has_punct(rest, 1, ',') && rest.len() == 2
    }
}

/// The enum has one variant for each service, in order, named by it and with an index where it is an
/// array, and one more for senders that are no service.
pub proof fn law_each_service_has_a_variant(
    crate_path: Seq<Tok>,
    target: Named,
    servs: Seq<PlanModel>,
)
    ensures
        exists|parts: Seq<Seq<Tok>>|
            {
                &&& parts.len() == servs.len() + 1
                &&& table_code(Table::Variants, crate_path, target, servs) == #[trigger] flat(parts)
                &&& forall|i: int|
                    0 <= i < servs.len() ==> declares(
                        #[trigger] parts[i],
                        servs[i].attr,
                        servs[i].upper,
                        servs[i].shape is Array,
                    )
                &&& declares(
                    parts.last(),
                    no_code(),
                    Named { text: "GLOBAL_SENDER"@, place: Place::CallSite },
                    false,
                )
            },
{
    let list = servs.map_values(
        |serv: PlanModel| entry_code(Table::Variants, crate_path, target, serv),
    );
    let last = last_code(Table::Variants, crate_path, target);
    let parts = list.push(last);
    law_entries_are_listed(Table::Variants, crate_path, target, servs);
    assert(parts.drop_last() =~= list);
    assert(table_code(Table::Variants, crate_path, target, servs) == flat(parts));
    assert forall|i: int| 0 <= i < servs.len() implies declares(
        #[trigger] parts[i],
        servs[i].attr,
        servs[i].upper,
        servs[i].shape is Array,
    ) by {
        let rest = parts[i].skip(servs[i].attr.len() as int);
        if servs[i].shape is Array {
            assert(rest =~= no_code().name(servs[i].upper).paren(
                no_code().word("Option"@).punct('<').word("usize"@).punct('>'),
            ).punct(','));
        } else {
            assert(rest =~= no_code().name(servs[i].upper).punct(','));
        }
    }
    assert(last.skip(0) =~= no_code().word("GLOBAL_SENDER"@).punct(','));
}

/// A table has one entry for each service, in order.
pub proof fn law_entries_are_listed(
    table: Table,
    crate_path: Seq<Tok>,
    target: Named,
    servs: Seq<PlanModel>,
)
    ensures
        entries_code(table, crate_path, target, servs) == flat(
            servs.map_values(|serv: PlanModel| entry_code(table, crate_path, target, serv)),
        ),
        table_code(table, crate_path, target, servs) == entries_code(
            table,
            crate_path,
            target,
            servs,
        ) + last_code(table, crate_path, target),
    decreases servs.len(),
{
    if servs.len() > 0 {
        law_entries_are_listed(table, crate_path, target, servs.drop_last());
        let entry = |serv: PlanModel| entry_code(table, crate_path, target, serv);
        assert(servs.map_values(entry).drop_last() =~= servs.drop_last().map_values(entry));
    }
}

/// The enum of targets comes with its five conversions, each with its own table: the numbers of the
/// targets, targets from identifiers and back, targets from numbers, and names.
pub proof fn law_enum_and_conversions(
    vis: Seq<Tok>,
    crate_path: Seq<Tok>,
    target: Named,
    servs: Seq<PlanModel>,
)
    ensures
        targets_code(vis, crate_path, target, servs) == flat(
            seq![
                enum_item_code(
                    vis,
                    target,
                    table_code(Table::Variants, crate_path, target, servs),
                ),
                id_impl_code(target, table_code(Table::Ids, crate_path, target, servs)),
                from_id_impl_code(
                    crate_path,
                    target,
                    table_code(Table::FromId, crate_path, target, servs),
                ),
                into_id_impl_code(
                    crate_path,
                    target,
                    table_code(Table::IntoId, crate_path, target, servs),
                ),
                from_usize_impl_code(
                    target,
                    table_code(Table::FromUsize, crate_path, target, servs),
                ),
                name_impl_code(target, table_code(Table::Names, crate_path, target, servs)),
            ],
        ),
{
    lemma_flat_of_six(
        enum_item_code(vis, target, table_code(Table::Variants, crate_path, target, servs)),
        id_impl_code(target, table_code(Table::Ids, crate_path, target, servs)),
        from_id_impl_code(
            crate_path,
            target,
            table_code(Table::FromId, crate_path, target, servs),
        ),
        into_id_impl_code(
            crate_path,
            target,
            table_code(Table::IntoId, crate_path, target, servs),
        ),
        from_usize_impl_code(target, table_code(Table::FromUsize, crate_path, target, servs)),
        name_impl_code(target, table_code(Table::Names, crate_path, target, servs)),
    );
}

/// Six parts, one after the other.
pub proof fn lemma_flat_of_six(
    a: Seq<Tok>,
    b: Seq<Tok>,
    c: Seq<Tok>,
    d: Seq<Tok>,
    e: Seq<Tok>,
    f: Seq<Tok>,
)
    ensures
        flat(seq![a, b, c, d, e, f]) == no_code().code(a).code(b).code(c).code(d).code(e).code(f),
{
    reveal_with_fuel(flat, 7);
    assert(seq![a, b, c, d, e, f].drop_last() =~= seq![a, b, c, d, e]);
    assert(seq![a, b, c, d, e].drop_last() =~= seq![a, b, c, d]);
    assert(seq![a, b, c, d].drop_last() =~= seq![a, b, c]);
    assert(seq![a, b, c].drop_last() =~= seq![a, b]);
    assert(seq![a, b].drop_last() =~= seq![a]);
    assert(seq![a].drop_last() =~= Seq::<Seq<Tok>>::empty());
}

/// Whether the code is `word: ty`.
pub open spec fn shows_argument(code: Seq<Tok>, word: Seq<char>, ty: Seq<Tok>) -> bool {
    has_word(code, 0, word) && has_punct(code, 1, ':') && has_code(code, 2, ty) && code.len()
        == ty.len() + 2
}

/// Whether the code is `match subject { arms }`.
pub open spec fn shows_match(code: Seq<Tok>, subject: Seq<Tok>, arms: Seq<Tok>) -> bool {
    let n = subject.len() as int;
    has_word(code, 0, "match"@) && has_code(code, 1, subject) && group_at(
        code,
        n + 1,
        Delimiter::Brace,
    ) == Some(arms) && code.len() == n + 2
}

/// Whether the code is `impl From<from> for into { fn from(word: from) -> Self { match subject { arms
/// } } }`.
pub open spec fn shows_conversion(
    code: Seq<Tok>,
    from: Seq<Tok>,
    into: Seq<Tok>,
    word: Seq<char>,
    subject: Seq<Tok>,
    arms: Seq<Tok>,
) -> bool {
    let n = from.len() as int;
    let m = into.len() as int;
    &&& has_word(code, 0, "impl"@) && has_word(code, 1, "From"@) && has_punct(code, 2, '<')
    &&& has_code(code, 3, from)
    &&& has_punct(code, n + 3, '>') && has_word(code, n + 4, "for"@)
    &&& has_code(code, n + 5, into)
    &&& code.len() == n + m + 6
    &&& group_at(code, n + m + 5, Delimiter::Brace) matches Some(inner) && {
        &&& inner.len() == 7
        &&& has_word(inner, 0, "fn"@) && has_word(inner, 1, "from"@)
        &&& group_at(inner, 2, Delimiter::Parenthesis) matches Some(argument) && shows_argument(
            argument,
            word,
            from,
        )
        &&& has_operator(inner, 3, '-', '>') && has_word(inner, 5, "Self"@)
        &&& group_at(inner, 6, Delimiter::Brace) matches Some(body) && shows_match(
            body,
            subject,
            arms,
        )
    }
}

proof fn lemma_conversion(
    from: Seq<Tok>,
    into: Seq<Tok>,
    word: Seq<char>,
    subject: Seq<Tok>,
    arms: Seq<Tok>,
)
    ensures
        ({
            let argument = no_code().word(word).punct(':').code(from);
            let body = no_code().word("match"@).code(subject).brace(arms);
            let inner = no_code().word("fn"@).word("from"@).paren(argument).arrow().word("Self"@).brace(
                body,
            );
            shows_conversion(
                no_code().word("impl"@).word("From"@).punct('<').code(from).punct('>').word(
                    "for"@,
                ).code(into).brace(inner),
                from,
                into,
                word,
                subject,
                arms,
            )
        }),
{
    let n = from.len() as int;
    let m = into.len() as int;
    let argument = no_code().word(word).punct(':').code(from);
    let body = no_code().word("match"@).code(subject).brace(arms);
    let inner = no_code().word("fn"@).word("from"@).paren(argument).arrow().word("Self"@).brace(body);
    let code = no_code().word("impl"@).word("From"@).punct('<').code(from).punct('>').word(
        "for"@,
    ).code(into).brace(inner);
    assert(code.subrange(3, n + 3) =~= from);
    assert(code.subrange(n + 5, n + m + 5) =~= into);
    assert(argument.subrange(2, n + 2) =~= from);
    assert(body.subrange(1, subject.len() + 1int) =~= subject);
}

/// The conversions are between the enum and identifiers, from numbers to the enum, and from the enum
/// to names. Each matches on what it is given; an identifier is matched by its number.
pub proof fn law_conversions_read(crate_path: Seq<Tok>, target: Named, arms: Seq<Tok>)
    ensures
        ({
            let id = crate_path.colons().word("ID"@);
            let it = no_code().name(target);
            &&& shows_conversion(
                from_id_impl_code(crate_path, target, arms),
                id,
                it,
                "id"@,
                no_code().word("id"@).punct('.').word("id"@).paren(no_code()),
                arms,
            )
            &&& shows_conversion(
                into_id_impl_code(crate_path, target, arms),
                it,
                id,
                "target"@,
                no_code().word("target"@),
                arms,
            )
            &&& shows_conversion(
                from_usize_impl_code(target, arms),
                no_code().word("usize"@),
                it,
                "id"@,
                no_code().word("id"@),
                arms,
            )
            &&& shows_conversion(
                name_impl_code(target, arms),
                it,
                no_code().punct('&').lifetime("static"@).word("str"@),
                "target"@,
                no_code().word("target"@),
                arms,
            )
        }),
{
    lemma_from_id(crate_path, target, arms);
    lemma_into_id(crate_path, target, arms);
    lemma_from_usize(target, arms);
    lemma_name(target, arms);
}

proof fn lemma_from_id(crate_path: Seq<Tok>, target: Named, arms: Seq<Tok>)
    ensures
        shows_conversion(
            from_id_impl_code(crate_path, target, arms),
            crate_path.colons().word("ID"@),
            no_code().name(target),
            "id"@,
            no_code().word("id"@).punct('.').word("id"@).paren(no_code()),
            arms,
        ),
{
    let from = crate_path.colons().word("ID"@);
    let subject = no_code().word("id"@).punct('.').word("id"@).paren(no_code());
    let argument = no_code().word("id"@).punct(':').code(from);
    let body = no_code().word("match"@).code(subject).brace(arms);
    let inner = no_code().word("fn"@).word("from"@).paren(argument).arrow().word("Self"@).brace(body);
    lemma_conversion(from, no_code().name(target), "id"@, subject, arms);
    assert(no_code().code(arms) =~= arms);
    assert(no_code().word("id"@).punct(':').code(crate_path).colons().word("ID"@) =~= argument);
    assert(no_code().word("match"@).word("id"@).punct('.').word("id"@).paren(no_code()).brace(arms)
        =~= body);
    assert(from_id_impl_code(crate_path, target, arms) =~= no_code().word("impl"@).word(
        "From"@,
    ).punct('<').code(from).punct('>').word("for"@).code(no_code().name(target)).brace(inner));
}

proof fn lemma_into_id(crate_path: Seq<Tok>, target: Named, arms: Seq<Tok>)
    ensures
        shows_conversion(
            into_id_impl_code(crate_path, target, arms),
            no_code().name(target),
            crate_path.colons().word("ID"@),
            "target"@,
            no_code().word("target"@),
            arms,
        ),
{
    let from = no_code().name(target);
    let into = crate_path.colons().word("ID"@);
    let subject = no_code().word("target"@);
    let argument = no_code().word("target"@).punct(':').code(from);
    let body = no_code().word("match"@).code(subject).brace(arms);
    let inner = no_code().word("fn"@).word("from"@).paren(argument).arrow().word("Self"@).brace(body);
    lemma_conversion(from, into, "target"@, subject, arms);
    assert(no_code().code(arms) =~= arms);
    assert(no_code().word("target"@).punct(':').name(target) =~= argument);
    assert(no_code().word("match"@).word("target"@).brace(arms) =~= body);
    assert(into_id_impl_code(crate_path, target, arms) =~= no_code().word("impl"@).word(
        "From"@,
    ).punct('<').code(from).punct('>').word("for"@).code(into).brace(inner));
}

proof fn lemma_from_usize(target: Named, arms: Seq<Tok>)
    ensures
        shows_conversion(
            from_usize_impl_code(target, arms),
            no_code().word("usize"@),
            no_code().name(target),
            "id"@,
            no_code().word("id"@),
            arms,
        ),
{
    let from = no_code().word("usize"@);
    let subject = no_code().word("id"@);
    let argument = no_code().word("id"@).punct(':').code(from);
    let body = no_code().word("match"@).code(subject).brace(arms);
    let inner = no_code().word("fn"@).word("from"@).paren(argument).arrow().word("Self"@).brace(body);
    lemma_conversion(from, no_code().name(target), "id"@, subject, arms);
    assert(no_code().code(arms) =~= arms);
    assert(no_code().word("id"@).punct(':').word("usize"@) =~= argument);
    assert(no_code().word("match"@).word("id"@).brace(arms) =~= body);
    assert(from_usize_impl_code(target, arms) =~= no_code().word("impl"@).word("From"@).punct(
        '<',
    ).code(from).punct('>').word("for"@).code(no_code().name(target)).brace(inner));
}

proof fn lemma_name(target: Named, arms: Seq<Tok>)
    ensures
        shows_conversion(
            name_impl_code(target, arms),
            no_code().name(target),
            no_code().punct('&').lifetime("static"@).word("str"@),
            "target"@,
            no_code().word("target"@),
            arms,
        ),
{
    let from = no_code().name(target);
    let into = no_code().punct('&').lifetime("static"@).word("str"@);
    let subject = no_code().word("target"@);
    let argument = no_code().word("target"@).punct(':').code(from);
    let body = no_code().word("match"@).code(subject).brace(arms);
    let inner = no_code().word("fn"@).word("from"@).paren(argument).arrow().word("Self"@).brace(body);
    lemma_conversion(from, into, "target"@, subject, arms);
    assert(no_code().code(arms) =~= arms);
    assert(no_code().word("target"@).punct(':').name(target) =~= argument);
    assert(no_code().word("match"@).word("target"@).brace(arms) =~= body);
    assert(name_impl_code(target, arms) =~= no_code().word("impl"@).word("From"@).punct('<').code(
        from,
    ).punct('>').word("for"@).code(into).brace(inner));
}

/// The number of a target is what a constant method of the enum gives: `impl target { pub const fn
/// id(&self) -> usize { match self { arms } } }`.
pub proof fn law_number_method_reads(target: Named, arms: Seq<Tok>)
    ensures
        ({
            let code = id_impl_code(target, arms);
            &&& code.len() == 3 && has_word(code, 0, "impl"@) && name_at(code, 1) == Some(target)
            &&& group_at(code, 2, Delimiter::Brace) matches Some(inner) && {
                &&& inner.len() == 9
                &&& has_word(inner, 0, "pub"@) && has_word(inner, 1, "const"@) && has_word(
                    inner,
                    2,
                    "fn"@,
                ) && has_word(inner, 3, "id"@)
                &&& group_at(inner, 4, Delimiter::Parenthesis) matches Some(receiver)
                    && receiver.len() == 2 && has_punct(receiver, 0, '&') && has_word(
                    receiver,
                    1,
                    "self"@,
                )
                &&& has_operator(inner, 5, '-', '>') && has_word(inner, 7, "usize"@)
                &&& group_at(inner, 8, Delimiter::Brace) matches Some(body) && shows_match(
                    body,
                    no_code().word("self"@),
                    arms,
                )
            }
        }),
{
    let body = no_code().word("match"@).word("self"@).brace(arms);
    assert(no_code().code(arms) =~= arms);
    assert(body.subrange(1, 2) =~= no_code().word("self"@));
}

/// The enum stands under its derives, with the visibility of the struct: `#[derive(..)] vis enum target
/// { variants }`.
pub proof fn law_enum_reads(vis: Seq<Tok>, target: Named, variants: Seq<Tok>)
    ensures
        ({
            let code = enum_item_code(vis, target, variants);
            let n = vis.len() as int;
            &&& code.len() == n + 5
            &&& has_punct(code, 0, '#')
            &&& group_at(code, 1, Delimiter::Bracket) matches Some(attr) && attr.len() == 2
                && has_word(attr, 0, "derive"@) && (group_at(attr, 1, Delimiter::Parenthesis) matches Some(
                list,
            ) && list.len() == 9 && has_word(list, 0, "Debug"@) && has_punct(list, 1, ',') && has_word(
                list,
                2,
                "Clone"@,
            ) && has_punct(list, 3, ',') && has_word(list, 4, "Copy"@) && has_punct(list, 5, ',')
                && has_word(list, 6, "PartialEq"@) && has_punct(list, 7, ',') && has_word(
                list,
                8,
                "Eq"@,
            ))
            &&& has_code(code, 2, vis)
            &&& has_word(code, n + 2, "enum"@)
            &&& name_at(code, n + 3) == Some(target)
            &&& group_at(code, n + 4, Delimiter::Brace) == Some(variants)
        }),
{
    let code = enum_item_code(vis, target, variants);
    assert(no_code().code(variants) =~= variants);
    assert(code.subrange(2, vis.len() + 2int) =~= vis);
}

} // verus!
