//! Code is written the same way whatever it is filled with.

use vstd::prelude::*;

use crate::access::access_impl_code;
use crate::code::{no_code, Snippet};
use crate::ident::Named;
use crate::notifier::{
    channel_alias_code, channels_alias_code, notifier_item_code, receiver_alias_code,
    sender_alias_code,
};
use crate::senders::senders_impl_code;
use crate::service_get::{get_impl_code, marker_impl_code};
use crate::targets::{
    enum_item_code, from_id_impl_code, from_usize_impl_code, id_impl_code, into_id_impl_code,
    last_from_id_arm_code, last_into_id_arm_code, last_name_arm_code, name_impl_code,
};
use crate::token::{quoted, Delimiter, Place, Tok};

verus! {

/// A blank, to be filled with the part that has the number.
pub open spec fn blank(k: int) -> Named {
    Named { text: "_"@, place: Place::At(k) }
}

/// A token with the blanks filled: an identifier that is written at a place of its own is a blank.
pub open spec fn fill_tok(tok: Tok, parts: Seq<Seq<Tok>>) -> Seq<Tok>
    decreases tok,
{
    match tok {
        Tok::Ident(_, Place::At(k)) => if 0 <= k < parts.len() {
            parts[k]
        } else {
            seq![tok]
        },
        Tok::Group(delimiter, inner, place) => seq![
            Tok::Group(delimiter, fill(inner, parts), place),
        ],
        _ => seq![tok],
    }
}

/// Code with the blanks filled, inside groups too.
#[verifier::opaque]
pub open spec fn fill(code: Seq<Tok>, parts: Seq<Seq<Tok>>) -> Seq<Tok>
    decreases code,
{
    if code.len() == 0 {
        no_code()
    } else {
        fill(code.drop_last(), parts) + fill_tok(code.last(), parts)
    }
}

/// Filling goes token by token.
proof fn lemma_fill_push(code: Seq<Tok>, tok: Tok, parts: Seq<Seq<Tok>>)
    ensures
        fill(code.push(tok), parts) == fill(code, parts) + fill_tok(tok, parts),
{
    reveal(fill);
    assert(code.push(tok).drop_last() =~= code);
}

/// There is nothing to fill in no code.
broadcast proof fn fill_nothing(parts: Seq<Seq<Tok>>)
    ensures
        #[trigger] fill(no_code(), parts) == no_code(),
{
    reveal(fill);
}

/// `Snippet::word` adds no blank.
broadcast proof fn fill_word(code: Seq<Tok>, text: Seq<char>, parts: Seq<Seq<Tok>>)
    ensures
        #[trigger] fill(code.word(text), parts) == fill(code, parts).word(text),
{
    lemma_fill_push(code, Tok::Ident(text, Place::CallSite), parts);
    assert(fill(code.word(text), parts) =~= fill(code, parts).word(text));
}

/// `Snippet::punct` adds no blank.
broadcast proof fn fill_punct(code: Seq<Tok>, ch: char, parts: Seq<Seq<Tok>>)
    ensures
        #[trigger] fill(code.punct(ch), parts) == fill(code, parts).punct(ch),
{
    lemma_fill_push(code, Tok::Punct(ch, false, Place::CallSite), parts);
    assert(fill(code.punct(ch), parts) =~= fill(code, parts).punct(ch));
}

/// `Snippet::operator` adds no blank.
broadcast proof fn fill_operator(code: Seq<Tok>, first: char, second: char, parts: Seq<Seq<Tok>>)
    ensures
        #[trigger] fill(
            code.operator(first, second),
            parts,
        ) == fill(code, parts).operator(first, second),
{
    lemma_fill_push(code, Tok::Punct(first, true, Place::CallSite), parts);
    lemma_fill_push(
        code.push(Tok::Punct(first, true, Place::CallSite)),
        Tok::Punct(second, false, Place::CallSite),
        parts,
    );
    assert(fill(code.operator(first, second), parts) =~= fill(code, parts).operator(first, second));
}

/// `Snippet::colons` adds no blank.
broadcast proof fn fill_colons(code: Seq<Tok>, parts: Seq<Seq<Tok>>)
    ensures
        #[trigger] fill(code.colons(), parts) == fill(code, parts).colons(),
{
    lemma_fill_push(code, Tok::Punct(':', true, Place::CallSite), parts);
    lemma_fill_push(
        code.push(Tok::Punct(':', true, Place::CallSite)),
        Tok::Punct(':', false, Place::CallSite),
        parts,
    );
    assert(fill(code.colons(), parts) =~= fill(code, parts).colons());
}

/// `Snippet::arrow` adds no blank.
broadcast proof fn fill_arrow(code: Seq<Tok>, parts: Seq<Seq<Tok>>)
    ensures
        #[trigger] fill(code.arrow(), parts) == fill(code, parts).arrow(),
{
    lemma_fill_push(code, Tok::Punct('-', true, Place::CallSite), parts);
    lemma_fill_push(
        code.push(Tok::Punct('-', true, Place::CallSite)),
        Tok::Punct('>', false, Place::CallSite),
        parts,
    );
    assert(fill(code.arrow(), parts) =~= fill(code, parts).arrow());
}

/// `Snippet::fat_arrow` adds no blank.
broadcast proof fn fill_fat_arrow(code: Seq<Tok>, parts: Seq<Seq<Tok>>)
    ensures
        #[trigger] fill(code.fat_arrow(), parts) == fill(code, parts).fat_arrow(),
{
    lemma_fill_push(code, Tok::Punct('=', true, Place::CallSite), parts);
    lemma_fill_push(
        code.push(Tok::Punct('=', true, Place::CallSite)),
        Tok::Punct('>', false, Place::CallSite),
        parts,
    );
    assert(fill(code.fat_arrow(), parts) =~= fill(code, parts).fat_arrow());
}

/// `Snippet::lifetime` adds no blank.
broadcast proof fn fill_lifetime(code: Seq<Tok>, text: Seq<char>, parts: Seq<Seq<Tok>>)
    ensures
        #[trigger] fill(code.lifetime(text), parts) == fill(code, parts).lifetime(text),
{
    lemma_fill_push(code, Tok::Punct('\'', true, Place::CallSite), parts);
    lemma_fill_push(
        code.push(Tok::Punct('\'', true, Place::CallSite)),
        Tok::Ident(text, Place::CallSite),
        parts,
    );
    assert(fill(code.lifetime(text), parts) =~= fill(code, parts).lifetime(text));
}

/// `Snippet::string` adds no blank.
broadcast proof fn fill_string(code: Seq<Tok>, value: Seq<char>, parts: Seq<Seq<Tok>>)
    ensures
        #[trigger] fill(code.string(value), parts) == fill(code, parts).string(value),
{
    lemma_fill_push(code, Tok::Literal(quoted(value), Place::CallSite), parts);
    assert(fill(code.string(value), parts) =~= fill(code, parts).string(value));
}

/// Groups are filled inside.
broadcast proof fn fill_paren(code: Seq<Tok>, inner: Seq<Tok>, parts: Seq<Seq<Tok>>)
    ensures
        #[trigger] fill(code.paren(inner), parts) == fill(code, parts).paren(fill(inner, parts)),
{
    reveal(fill);
    lemma_fill_push(code, Tok::Group(Delimiter::Parenthesis, inner, Place::CallSite), parts);
    assert(fill(code.paren(inner), parts) =~= fill(code, parts).paren(fill(inner, parts)));
}

/// Groups are filled inside.
broadcast proof fn fill_brace(code: Seq<Tok>, inner: Seq<Tok>, parts: Seq<Seq<Tok>>)
    ensures
        #[trigger] fill(code.brace(inner), parts) == fill(code, parts).brace(fill(inner, parts)),
{
    reveal(fill);
    lemma_fill_push(code, Tok::Group(Delimiter::Brace, inner, Place::CallSite), parts);
    assert(fill(code.brace(inner), parts) =~= fill(code, parts).brace(fill(inner, parts)));
}

/// Groups are filled inside.
broadcast proof fn fill_bracket(code: Seq<Tok>, inner: Seq<Tok>, parts: Seq<Seq<Tok>>)
    ensures
        #[trigger] fill(
            code.bracket(inner),
            parts,
        ) == fill(code, parts).bracket(fill(inner, parts)),
{
    reveal(fill);
    lemma_fill_push(code, Tok::Group(Delimiter::Bracket, inner, Place::CallSite), parts);
    assert(fill(code.bracket(inner), parts) =~= fill(code, parts).bracket(fill(inner, parts)));
}

/// A blank is filled with its part.
broadcast proof fn fill_blank(code: Seq<Tok>, k: int, parts: Seq<Seq<Tok>>)
    requires
        0 <= k < parts.len(),
    ensures
        #[trigger] fill(code.name(blank(k)), parts) == fill(code, parts).code(parts[k]),
{
    lemma_fill_push(code, Tok::Ident("_"@, Place::At(k)), parts);
}

/// A blank is filled with its part, where it stands for code.
broadcast proof fn fill_blank_code(code: Seq<Tok>, k: int, parts: Seq<Seq<Tok>>)
    requires
        0 <= k < parts.len(),
    ensures
        #[trigger] fill(code.code(no_code().name(blank(k))), parts) == fill(code, parts).code(
            parts[k],
        ),
{
    lemma_fill_push(code, Tok::Ident("_"@, Place::At(k)), parts);
    assert(code.code(no_code().name(blank(k))) =~= code.name(blank(k)));
}

/// An identifier is code, too.
broadcast proof fn name_is_code(code: Seq<Tok>, ident: Named)
    ensures
        #[trigger] code.code(no_code().name(ident)) == code.name(ident),
{
    assert(code.code(no_code().name(ident)) =~= code.name(ident));
}

broadcast group group_fill {
    fill_nothing,
    fill_word,
    fill_punct,
    fill_operator,
    fill_colons,
    fill_arrow,
    fill_fat_arrow,
    fill_lifetime,
    fill_string,
    fill_paren,
    fill_brace,
    fill_bracket,
    fill_blank,
    fill_blank_code,
    name_is_code,
}

/// The impl of a lookup is written the same way for all names and types.
pub proof fn law_get_impl_is_filled(
    crate_path: Seq<Tok>,
    target: Named,
    name: Named,
    ty: Seq<Tok>,
    arms: Seq<Tok>,
)
    ensures
        get_impl_code(crate_path, target, name, ty, arms) == fill(
            get_impl_code(
                no_code().name(blank(0)),
                blank(1),
                blank(2),
                no_code().name(blank(3)),
                no_code().name(blank(4)),
            ),
            seq![crate_path, no_code().name(target), no_code().name(name), ty, arms],
        ),
{
    broadcast use group_fill;

    let parts = seq![crate_path, no_code().name(target), no_code().name(name), ty, arms];
    assert(parts[0] == crate_path);
    assert(parts[1] == no_code().name(target));
    assert(parts[2] == no_code().name(name));
    assert(parts[3] == ty);
    assert(parts[4] == arms);
}

/// The impl that marks a service is written the same way for all names and types.
pub proof fn law_marker_impl_is_filled(
    attr: Seq<Tok>,
    crate_path: Seq<Tok>,
    target: Named,
    id: Seq<Tok>,
    ty: Seq<Tok>,
    name: Named,
)
    ensures
        marker_impl_code(attr, crate_path, target, id, ty, name) == fill(
            marker_impl_code(
                no_code().name(blank(0)),
                no_code().name(blank(1)),
                blank(2),
                no_code().name(blank(3)),
                no_code().name(blank(4)),
                blank(5),
            ),
            seq![attr, crate_path, no_code().name(target), id, ty, no_code().name(name)],
        ),
{
    broadcast use group_fill;

    let parts = seq![attr, crate_path, no_code().name(target), id, ty, no_code().name(name)];
    assert(parts[0] == attr);
    assert(parts[1] == crate_path);
    assert(parts[2] == no_code().name(target));
    assert(parts[3] == id);
    assert(parts[4] == ty);
    assert(parts[5] == no_code().name(name));
}

/// The impl of a walk is written the same way for all names and types.
pub proof fn law_senders_impl_is_filled(
    crate_path: Seq<Tok>,
    name: Named,
    ty: Seq<Tok>,
    iters: Seq<Tok>,
)
    ensures
        senders_impl_code(crate_path, name, ty, iters) == fill(
            senders_impl_code(
                no_code().name(blank(0)),
                blank(1),
                no_code().name(blank(2)),
                no_code().name(blank(3)),
            ),
            seq![crate_path, no_code().name(name), ty, iters],
        ),
{
    broadcast use group_fill;

    let parts = seq![crate_path, no_code().name(name), ty, iters];
    assert(parts[0] == crate_path);
    assert(parts[1] == no_code().name(name));
    assert(parts[2] == ty);
    assert(parts[3] == iters);
}

/// The enum of targets is written the same way for all names.
pub proof fn law_enum_item_is_filled(vis: Seq<Tok>, target: Named, variants: Seq<Tok>)
    ensures
        enum_item_code(vis, target, variants) == fill(
            enum_item_code(no_code().name(blank(0)), blank(1), no_code().name(blank(2))),
            seq![vis, no_code().name(target), variants],
        ),
{
    broadcast use group_fill;

    let parts = seq![vis, no_code().name(target), variants];
    assert(parts[0] == vis);
    assert(parts[1] == no_code().name(target));
    assert(parts[2] == variants);
}

/// The impl that gives a target its number is written the same way for all names.
pub proof fn law_id_impl_is_filled(target: Named, arms: Seq<Tok>)
    ensures
        id_impl_code(target, arms) == fill(
            id_impl_code(blank(0), no_code().name(blank(1))),
            seq![no_code().name(target), arms],
        ),
{
    broadcast use group_fill;

    let parts = seq![no_code().name(target), arms];
    assert(parts[0] == no_code().name(target));
    assert(parts[1] == arms);
}

/// The impl that makes a target of an identifier is written the same way for all names.
pub proof fn law_from_id_impl_is_filled(crate_path: Seq<Tok>, target: Named, arms: Seq<Tok>)
    ensures
        from_id_impl_code(crate_path, target, arms) == fill(
            from_id_impl_code(no_code().name(blank(0)), blank(1), no_code().name(blank(2))),
            seq![crate_path, no_code().name(target), arms],
        ),
{
    broadcast use group_fill;

    let parts = seq![crate_path, no_code().name(target), arms];
    assert(parts[0] == crate_path);
    assert(parts[1] == no_code().name(target));
    assert(parts[2] == arms);
}

/// The impl that makes an identifier of a target is written the same way for all names.
pub proof fn law_into_id_impl_is_filled(crate_path: Seq<Tok>, target: Named, arms: Seq<Tok>)
    ensures
        into_id_impl_code(crate_path, target, arms) == fill(
            into_id_impl_code(no_code().name(blank(0)), blank(1), no_code().name(blank(2))),
            seq![crate_path, no_code().name(target), arms],
        ),
{
    broadcast use group_fill;

    let parts = seq![crate_path, no_code().name(target), arms];
    assert(parts[0] == crate_path);
    assert(parts[1] == no_code().name(target));
    assert(parts[2] == arms);
}

/// The impl that makes a target of a number is written the same way for all names.
pub proof fn law_from_usize_impl_is_filled(target: Named, arms: Seq<Tok>)
    ensures
        from_usize_impl_code(target, arms) == fill(
            from_usize_impl_code(blank(0), no_code().name(blank(1))),
            seq![no_code().name(target), arms],
        ),
{
    broadcast use group_fill;

    let parts = seq![no_code().name(target), arms];
    assert(parts[0] == no_code().name(target));
    assert(parts[1] == arms);
}

/// The impl that gives a target its name is written the same way for all names.
pub proof fn law_name_impl_is_filled(target: Named, arms: Seq<Tok>)
    ensures
        name_impl_code(target, arms) == fill(
            name_impl_code(blank(0), no_code().name(blank(1))),
            seq![no_code().name(target), arms],
        ),
{
    broadcast use group_fill;

    let parts = seq![no_code().name(target), arms];
    assert(parts[0] == no_code().name(target));
    assert(parts[1] == arms);
}

/// The last arm of a match on identifiers is written the same way for all names.
pub proof fn law_last_from_id_arm_is_filled(target: Named)
    ensures
        last_from_id_arm_code(target) == fill(
            last_from_id_arm_code(blank(0)),
            seq![no_code().name(target)],
        ),
{
    broadcast use group_fill;

    let parts = seq![no_code().name(target)];
    assert(parts[0] == no_code().name(target));
}

/// The last arm of a match that makes identifiers is written the same way for all names.
pub proof fn law_last_into_id_arm_is_filled(crate_path: Seq<Tok>, target: Named)
    ensures
        last_into_id_arm_code(crate_path, target) == fill(
            last_into_id_arm_code(no_code().name(blank(0)), blank(1)),
            seq![crate_path, no_code().name(target)],
        ),
{
    broadcast use group_fill;

    let parts = seq![crate_path, no_code().name(target)];
    assert(parts[0] == crate_path);
    assert(parts[1] == no_code().name(target));
}

/// The last arm of a match that gives names is written the same way for all names.
pub proof fn law_last_name_arm_is_filled(target: Named)
    ensures
        last_name_arm_code(target) == fill(
            last_name_arm_code(blank(0)),
            seq![no_code().name(target)],
        ),
{
    broadcast use group_fill;

    let parts = seq![no_code().name(target)];
    assert(parts[0] == no_code().name(target));
}

/// The alias of a channel is written the same way for all names.
pub proof fn law_channel_alias_is_filled(
    vis: Seq<Tok>,
    alias: Named,
    crate_path: Seq<Tok>,
    name: Named,
    target: Named,
)
    ensures
        channel_alias_code(vis, alias, crate_path, name, target) == fill(
            channel_alias_code(
                no_code().name(blank(0)),
                blank(1),
                no_code().name(blank(2)),
                blank(3),
                blank(4),
            ),
            seq![vis, no_code(
            ).name(alias), crate_path, no_code().name(name), no_code().name(target)],
        ),
{
    broadcast use group_fill;

    let parts = seq![vis, no_code(
    ).name(alias), crate_path, no_code().name(name), no_code().name(target)];
    assert(parts[0] == vis);
    assert(parts[1] == no_code().name(alias));
    assert(parts[2] == crate_path);
    assert(parts[3] == no_code().name(name));
    assert(parts[4] == no_code().name(target));
}

/// The alias of an array of channels is written the same way for all names.
pub proof fn law_channels_alias_is_filled(
    vis: Seq<Tok>,
    alias: Named,
    crate_path: Seq<Tok>,
    name: Named,
    target: Named,
)
    ensures
        channels_alias_code(vis, alias, crate_path, name, target) == fill(
            channels_alias_code(
                no_code().name(blank(0)),
                blank(1),
                no_code().name(blank(2)),
                blank(3),
                blank(4),
            ),
            seq![vis, no_code(
            ).name(alias), crate_path, no_code().name(name), no_code().name(target)],
        ),
{
    broadcast use group_fill;

    let parts = seq![vis, no_code(
    ).name(alias), crate_path, no_code().name(name), no_code().name(target)];
    assert(parts[0] == vis);
    assert(parts[1] == no_code().name(alias));
    assert(parts[2] == crate_path);
    assert(parts[3] == no_code().name(name));
    assert(parts[4] == no_code().name(target));
}

/// The alias of a sender is written the same way for all names.
pub proof fn law_sender_alias_is_filled(
    vis: Seq<Tok>,
    alias: Named,
    crate_path: Seq<Tok>,
    name: Named,
)
    ensures
        sender_alias_code(vis, alias, crate_path, name) == fill(
            sender_alias_code(
                no_code().name(blank(0)),
                blank(1),
                no_code().name(blank(2)),
                blank(3),
            ),
            seq![vis, no_code().name(alias), crate_path, no_code().name(name)],
        ),
{
    broadcast use group_fill;

    let parts = seq![vis, no_code().name(alias), crate_path, no_code().name(name)];
    assert(parts[0] == vis);
    assert(parts[1] == no_code().name(alias));
    assert(parts[2] == crate_path);
    assert(parts[3] == no_code().name(name));
}

/// The alias of a receiver is written the same way for all names.
pub proof fn law_receiver_alias_is_filled(vis: Seq<Tok>, alias: Named, crate_path: Seq<Tok>)
    ensures
        receiver_alias_code(vis, alias, crate_path) == fill(
            receiver_alias_code(no_code().name(blank(0)), blank(1), no_code().name(blank(2))),
            seq![vis, no_code().name(alias), crate_path],
        ),
{
    broadcast use group_fill;

    let parts = seq![vis, no_code().name(alias), crate_path];
    assert(parts[0] == vis);
    assert(parts[1] == no_code().name(alias));
    assert(parts[2] == crate_path);
}

/// The impl of the notifier is written the same way for all names.
pub proof fn law_notifier_item_is_filled(crate_path: Seq<Tok>, name: Named)
    ensures
        notifier_item_code(crate_path, name) == fill(
            notifier_item_code(no_code().name(blank(0)), blank(1)),
            seq![crate_path, no_code().name(name)],
        ),
{
    broadcast use group_fill;

    let parts = seq![crate_path, no_code().name(name)];
    assert(parts[0] == crate_path);
    assert(parts[1] == no_code().name(name));
}

/// The impl with the channels is written the same way for all names.
pub proof fn law_access_impl_is_filled(name: Named, methods: Seq<Tok>, init: Seq<Tok>)
    ensures
        access_impl_code(name, methods, init) == fill(
            access_impl_code(blank(0), no_code().name(blank(1)), no_code().name(blank(2))),
            seq![no_code().name(name), methods, init],
        ),
{
    broadcast use group_fill;

    let parts = seq![no_code().name(name), methods, init];
    assert(parts[0] == no_code().name(name));
    assert(parts[1] == methods);
    assert(parts[2] == init);
}

} // verus!
