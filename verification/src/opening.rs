//! How the impl with the channels reads, and that it opens and initialises the services.

use vstd::prelude::*;

use crate::access::{
    init_code, init_item_part_code, init_item_parts_code, init_part_code, init_parts_code,
    inits_code, method_code, methods_code,
};
use crate::code::{flat, no_code, Snippet};
use crate::field::ShapeModel;
use crate::ident::Named;
use crate::meaning::{
    are_numbered, global_target, is_on, is_target_of, law_greatest_number_leads_back,
    law_number_of_target_leads_back, target_number, variants_differ,
};
use crate::reading::{
    group_at, has_code, has_operator, has_punct, has_word, has_word_in_paren, name_at, part_at,
    plain_at, plain_of, plain_target, read_number, variant_at, Plain,
};
use crate::service::PlanModel;
use crate::token::{decimal, Delimiter, Tok};

verus! {

/// A statement that initialises a single service: the field, its place in the group, and the variant
/// that it is given.
#[verifier::ext_equal]
pub struct Init {
    pub field: Named,
    pub part: Option<Seq<char>>,
    pub variant: Named,
}

/// Reads `self.field.init(target::variant);` and `self.field.part.init(target::variant);`.
pub open spec fn read_init(code: Seq<Tok>, target: Named) -> Option<Init> {
    let part = part_at(code, 3);
    let i: int = if part is Some {
        5
    } else {
        3
    };
    match group_at(code, i + 2, Delimiter::Parenthesis) {
        Some(inner) => if has_word(code, 0, "self"@) && has_punct(code, 1, '.') && name_at(
            code,
            2,
        ) is Some && has_punct(code, i, '.') && has_word(code, i + 1, "init"@) && has_punct(
            code,
            i + 3,
            ';',
        ) && code.len() == i + 4 && variant_at(inner, 0, target) is Some && inner.len() == 4 {
            Some(
                Init { field: name_at(code, 2)->0, part, variant: variant_at(inner, 0, target)->0 },
            )
        } else {
            None
        },
        None => None,
    }
}

/// A statement that initialises the items of an array: the field, the variant that they are given,
/// with their indices, what an item is called, and what is done to it.
#[verifier::ext_equal]
pub struct ItemsInit {
    pub field: Named,
    pub variant: Named,
    pub item: Named,
    pub body: Seq<Tok>,
}

/// Reads `crate_path::Service::array(target::variant(None), &mut self.field, |id, item| { body });`.
pub open spec fn read_items_init(
    code: Seq<Tok>,
    crate_path: Seq<Tok>,
    target: Named,
) -> Option<ItemsInit> {
    let n = crate_path.len() as int;
    match group_at(code, n + 6, Delimiter::Parenthesis) {
        Some(inner) => if has_code(code, 0, crate_path) && has_operator(code, n, ':', ':') && has_word(
            code,
            n + 2,
            "Service"@,
        ) && has_operator(code, n + 3, ':', ':') && has_word(code, n + 5, "array"@) && has_punct(
            code,
            n + 7,
            ';',
        ) && code.len() == n + 8 && variant_at(inner, 0, target) is Some && has_word_in_paren(
            inner,
            4,
            "None"@,
        ) && has_punct(inner, 5, ',') && has_punct(inner, 6, '&') && has_word(inner, 7, "mut"@)
            && has_word(inner, 8, "self"@) && has_punct(inner, 9, '.') && name_at(inner, 10) is Some
            && has_punct(inner, 11, ',') && has_punct(inner, 12, '|') && has_word(inner, 13, "id"@)
            && has_punct(inner, 14, ',') && name_at(inner, 15) is Some && has_punct(inner, 16, '|')
            && group_at(inner, 17, Delimiter::Brace) is Some && inner.len() == 18 {
            Some(
                ItemsInit {
                    field: name_at(inner, 10)->0,
                    variant: variant_at(inner, 0, target)->0,
                    item: name_at(inner, 15)->0,
                    body: group_at(inner, 17, Delimiter::Brace)->0,
                },
            )
        } else {
            None
        },
        None => None,
    }
}

/// Reads `item.init(id)`, where nothing follows, and `item.part.init(id);`: the place that is
/// initialised.
pub open spec fn read_item_init(code: Seq<Tok>, item: Named) -> Option<Option<Seq<char>>> {
    let part = part_at(code, 1);
    let i: int = if part is Some {
        3
    } else {
        1
    };
    if name_at(code, 0) == Some(item) && has_punct(code, i, '.') && has_word(code, i + 1, "init"@)
        && has_word_in_paren(code, i + 2, "id"@) && (if part is Some {
        has_punct(code, i + 3, ';') && code.len() == i + 4
    } else {
        code.len() == i + 3
    }) {
        Some(part)
    } else {
        None
    }
}

/// Whether the statement stands under the attribute and initialises the single service of the field
/// with the variant.
pub open spec fn inits_one(
    piece: Seq<Tok>,
    cfg: Seq<Tok>,
    target: Named,
    init: Init,
) -> bool {
    cfg.is_prefix_of(piece) && read_init(piece.skip(cfg.len() as int), target) == Some(init)
}

/// Whether the code initialises all services of an item of an array: the item itself, or each of the
/// services that it groups, in order and once.
pub open spec fn inits_item(body: Seq<Tok>, name: Named, item: ShapeModel) -> bool {
    match item {
        ShapeModel::Once(_) => read_item_init(body, name) == Some(None::<Seq<char>>),
        ShapeModel::Tuple(list) => exists|pieces: Seq<Seq<Tok>>|
            {
                &&& pieces.len() == list.len()
                &&& body == #[trigger] flat(pieces)
                &&& forall|k: int|
                    0 <= k < list.len() ==> read_item_init(#[trigger] pieces[k], name) == Some(
                        Some(decimal(k as nat)),
                    )
            },
        ShapeModel::Array(_, _) => false,
    }
}

/// Whether the code initialises all services of a field, each once, with the target of the field: the
/// field itself, each of the services that it groups in order, or the items of an array with all that
/// they hold. Each statement stands under the `cfg` attribute of the field.
pub open spec fn inits_field(
    code: Seq<Tok>,
    crate_path: Seq<Tok>,
    target: Named,
    serv: PlanModel,
) -> bool {
    match serv.shape {
        ShapeModel::Once(_) => inits_one(
            code,
            serv.attr,
            target,
            Init { field: serv.ident, part: None, variant: serv.upper },
        ),
        ShapeModel::Tuple(list) => exists|pieces: Seq<Seq<Tok>>|
            {
                &&& pieces.len() == list.len()
                &&& code == #[trigger] flat(pieces)
                &&& forall|k: int|
                    0 <= k < list.len() ==> inits_one(
                        #[trigger] pieces[k],
                        serv.attr,
                        target,
                        Init {
                            field: serv.ident,
                            part: Some(decimal(k as nat)),
                            variant: serv.upper,
                        },
                    )
            },
        ShapeModel::Array(item, _) => serv.attr.is_prefix_of(code) && (read_items_init(
            code.skip(serv.attr.len() as int),
            crate_path,
            target,
        ) matches Some(init) && init.field == serv.ident && init.variant == serv.upper && inits_item(
            init.body,
            init.item,
            *item,
        )),
    }
}

/// What initialises a field initialises each single service of it, with the target of the field.
pub proof fn law_init_of_its_field(crate_path: Seq<Tok>, target: Named, serv: PlanModel)
    requires
        serv.shape matches ShapeModel::Array(item, _) ==> !(*item is Array),
    ensures
        inits_field(init_code(crate_path, target, serv), crate_path, target, serv),
{
    let code = init_code(crate_path, target, serv);
    match serv.shape {
        ShapeModel::Once(_) => {
            lemma_init_one(target, serv, crate_path);
        },
        ShapeModel::Tuple(list) => {
            let pieces = Seq::new(
                list.len(),
                |k: int| init_part_code(serv.attr, target, serv.ident, k as nat, serv.upper),
            );
            lemma_init_parts(target, serv, list.len());
            assert(pieces =~= Seq::new(
                list.len(),
                |k: int| init_part_code(serv.attr, target, serv.ident, k as nat, serv.upper),
            ));
            assert(code == flat(pieces));
            assert forall|k: int| 0 <= k < list.len() implies inits_one(
                #[trigger] pieces[k],
                serv.attr,
                target,
                Init { field: serv.ident, part: Some(decimal(k as nat)), variant: serv.upper },
            ) by {
                lemma_init_part(target, serv, k as nat);
            }
        },
        ShapeModel::Array(item, _) => {
            lemma_init_items(crate_path, target, serv);
            let init = read_items_init(
                code.skip(serv.attr.len() as int),
                crate_path,
                target,
            )->0;
            match *item {
                ShapeModel::Once(_) => {},
                ShapeModel::Tuple(list) => {
                    let pieces = Seq::new(
                        list.len(),
                        |k: int| init_item_part_code(serv.ident, k as nat),
                    );
                    lemma_init_item_parts(serv.ident, list.len());
                    assert(init.body == flat(pieces));
                    assert forall|k: int| 0 <= k < list.len() implies read_item_init(
                        #[trigger] pieces[k],
                        serv.ident,
                    ) == Some(Some(decimal(k as nat))) by {
                        lemma_init_item_part(serv.ident, k as nat);
                    }
                },
                ShapeModel::Array(_, _) => {},
            }
        },
    }
}

proof fn lemma_init_one(target: Named, serv: PlanModel, crate_path: Seq<Tok>)
    requires
        serv.shape is Once,
    ensures
        inits_one(
            init_code(crate_path, target, serv),
            serv.attr,
            target,
            Init { field: serv.ident, part: None, variant: serv.upper },
        ),
{
    let code = init_code(crate_path, target, serv).skip(serv.attr.len() as int);
    let inner = no_code().name(target).colons().name(serv.upper);
    assert(code =~= no_code().word("self"@).punct('.').name(serv.ident).punct('.').word(
        "init"@,
    ).paren(inner).punct(';'));
    assert(variant_at(inner, 0, target) == Some(serv.upper));
}

proof fn lemma_init_part(target: Named, serv: PlanModel, k: nat)
    ensures
        inits_one(
            init_part_code(serv.attr, target, serv.ident, k, serv.upper),
            serv.attr,
            target,
            Init { field: serv.ident, part: Some(decimal(k)), variant: serv.upper },
        ),
{
    let code = init_part_code(serv.attr, target, serv.ident, k, serv.upper).skip(
        serv.attr.len() as int,
    );
    let inner = no_code().name(target).colons().name(serv.upper);
    assert(code =~= no_code().word("self"@).punct('.').name(serv.ident).punct('.').digits(k).punct(
        '.',
    ).word("init"@).paren(inner).punct(';'));
    assert(variant_at(inner, 0, target) == Some(serv.upper));
}

proof fn lemma_init_parts(target: Named, serv: PlanModel, n: nat)
    ensures
        init_parts_code(target, serv, n) == flat(
            Seq::new(
                n,
                |k: int| init_part_code(serv.attr, target, serv.ident, k as nat, serv.upper),
            ),
        ),
    decreases n,
{
    if n > 0 {
        let m = (n - 1) as nat;
        lemma_init_parts(target, serv, m);
        assert(Seq::new(
            n,
            |k: int| init_part_code(serv.attr, target, serv.ident, k as nat, serv.upper),
        ).drop_last() =~= Seq::new(
            m,
            |k: int| init_part_code(serv.attr, target, serv.ident, k as nat, serv.upper),
        ));
    }
}

proof fn lemma_init_items(crate_path: Seq<Tok>, target: Named, serv: PlanModel)
    requires
        serv.shape is Array,
    ensures
        ({
            let code = init_code(crate_path, target, serv);
            let item = *serv.shape->Array_0;
            &&& serv.attr.is_prefix_of(code)
            &&& read_items_init(code.skip(serv.attr.len() as int), crate_path, target) matches Some(
                init,
            ) && init.field == serv.ident && init.variant == serv.upper && init.item == serv.ident && (
            item is Once ==> read_item_init(init.body, serv.ident) == Some(None::<Seq<char>>)) && (
            item matches ShapeModel::Tuple(list) ==> init.body == init_item_parts_code(
                serv.ident,
                list.len(),
            ))
        }),
{
    let code = init_code(crate_path, target, serv).skip(serv.attr.len() as int);
    let item = *serv.shape->Array_0;
    let body = match item {
        ShapeModel::Once(_) => no_code().name(serv.ident).punct('.').word("init"@).paren(
            no_code().word("id"@),
        ),
        ShapeModel::Tuple(list) => init_item_parts_code(serv.ident, list.len()),
        ShapeModel::Array(_, _) => no_code(),
    };
    assert(no_code().code(body) =~= body);
    let inner = no_code().name(target).colons().name(serv.upper).paren(no_code().word("None"@)).punct(
        ',',
    ).punct('&').word("mut"@).word("self"@).punct('.').name(serv.ident).punct(',').punct('|').word(
        "id"@,
    ).punct(',').name(serv.ident).punct('|').brace(body);
    let n = crate_path.len() as int;
    assert(code =~= crate_path.colons().word("Service"@).colons().word("array"@).paren(inner).punct(
        ';',
    ));
    assert(code.subrange(0, n) =~= crate_path);
    assert(variant_at(inner, 0, target) == Some(serv.upper));
}

proof fn lemma_init_item_part(ident: Named, k: nat)
    ensures
        read_item_init(init_item_part_code(ident, k), ident) == Some(Some(decimal(k))),
{
    assert(init_item_part_code(ident, k) =~= no_code().name(ident).punct('.').digits(k).punct(
        '.',
    ).word("init"@).paren(no_code().word("id"@)).punct(';'));
}

proof fn lemma_init_item_parts(ident: Named, n: nat)
    ensures
        init_item_parts_code(ident, n) == flat(
            Seq::new(n, |k: int| init_item_part_code(ident, k as nat)),
        ),
    decreases n,
{
    if n > 0 {
        let m = (n - 1) as nat;
        lemma_init_item_parts(ident, m);
        assert(Seq::new(n, |k: int| init_item_part_code(ident, k as nat)).drop_last() =~= Seq::new(
            m,
            |k: int| init_item_part_code(ident, k as nat),
        ));
    }
}

/// `init_notifier` initialises each field, in order and once: its body is made up of one part for
/// each field, which initialises all single services of that field.
pub proof fn law_each_field_is_initialised(
    crate_path: Seq<Tok>,
    target: Named,
    servs: Seq<PlanModel>,
)
    requires
        forall|i: int|
            0 <= i < servs.len() ==> ((#[trigger] servs[i]).shape matches ShapeModel::Array(item, _)
                ==> !(*item is Array)),
    ensures
        exists|parts: Seq<Seq<Tok>>|
            {
                &&& parts.len() == servs.len()
                &&& inits_code(crate_path, target, servs) == #[trigger] flat(parts)
                &&& forall|i: int|
                    0 <= i < servs.len() ==> inits_field(
                        #[trigger] parts[i],
                        crate_path,
                        target,
                        servs[i],
                    )
            },
{
    let parts = servs.map_values(|serv: PlanModel| init_code(crate_path, target, serv));
    lemma_inits(crate_path, target, servs);
    assert(inits_code(crate_path, target, servs) == flat(parts));
    assert forall|i: int| 0 <= i < servs.len() implies inits_field(
        #[trigger] parts[i],
        crate_path,
        target,
        servs[i],
    ) by {
        assert(servs[i].shape matches ShapeModel::Array(item, _) ==> !(*item is Array));
        law_init_of_its_field(crate_path, target, servs[i]);
    }
}

proof fn lemma_inits(crate_path: Seq<Tok>, target: Named, servs: Seq<PlanModel>)
    ensures
        inits_code(crate_path, target, servs) == flat(
            servs.map_values(|serv: PlanModel| init_code(crate_path, target, serv)),
        ),
    decreases servs.len(),
{
    if servs.len() > 0 {
        lemma_inits(crate_path, target, servs.drop_last());
        assert(servs.map_values(
            |serv: PlanModel| init_code(crate_path, target, serv),
        ).drop_last() =~= servs.drop_last().map_values(
            |serv: PlanModel| init_code(crate_path, target, serv),
        ));
    }
}

/// A method that opens a channel, or as many channels as the length says: its name, the variant whose
/// number stands in its type, and the variant that is opened.
#[verifier::ext_equal]
pub struct Method {
    pub name: Named,
    pub len: Option<Seq<Tok>>,
    pub number: Plain,
    pub opened: Plain,
}

/// Reads `crate_path::kind::new(&self, target::variant)`.
pub open spec fn read_opened(
    code: Seq<Tok>,
    crate_path: Seq<Tok>,
    kind: Seq<char>,
    target: Named,
) -> Option<Plain> {
    let n = crate_path.len() as int;
    match group_at(code, n + 6, Delimiter::Parenthesis) {
        Some(inner) => match plain_at(inner, 3, target) {
            Some((plain, i)) => if has_code(code, 0, crate_path) && has_operator(code, n, ':', ':')
                && has_word(code, n + 2, kind) && has_operator(code, n + 3, ':', ':') && has_word(
                code,
                n + 5,
                "new"@,
            ) && code.len() == n + 7 && has_punct(inner, 0, '&') && has_word(inner, 1, "self"@)
                && has_punct(inner, 2, ',') && inner.len() == i {
                Some(plain)
            } else {
                None
            },
            None => None,
        },
        None => None,
    }
}

/// Reads `pub fn name(&self) -> crate_path::Channel<'_, Self, target, { number }> { opened }` and
/// `pub fn name(&self) -> crate_path::Channels<'_, { len }, Self, target, { number }> { opened }`.
pub open spec fn read_method(
    code: Seq<Tok>,
    crate_path: Seq<Tok>,
    target: Named,
) -> Option<Method> {
    let n = crate_path.len() as int;
    let many = has_word(code, n + 8, "Channels"@);
    let kind = if many {
        "Channels"@
    } else {
        "Channel"@
    };
    let i: int = if many {
        n + 15
    } else {
        n + 13
    };
    let len = group_at(code, n + 13, Delimiter::Brace);
    match (
        group_at(code, 3, Delimiter::Parenthesis),
        group_at(code, i + 4, Delimiter::Brace),
        group_at(code, i + 6, Delimiter::Brace),
    ) {
        (Some(receiver), Some(number), Some(body)) => if has_word(code, 0, "pub"@) && has_word(
            code,
            1,
            "fn"@,
        ) && name_at(code, 2) is Some && has_punct(receiver, 0, '&') && has_word(
            receiver,
            1,
            "self"@,
        ) && receiver.len() == 2 && has_operator(code, 4, '-', '>') && has_code(code, 6, crate_path)
            && has_operator(code, n + 6, ':', ':') && has_word(code, n + 8, kind) && has_punct(
            code,
            n + 9,
            '<',
        ) && has_punct(code, n + 10, '\'') && has_word(code, n + 11, "_"@) && has_punct(
            code,
            n + 12,
            ',',
        ) && (many ==> len is Some && has_punct(code, n + 14, ',')) && has_word(code, i, "Self"@)
            && has_punct(code, i + 1, ',') && name_at(code, i + 2) == Some(target) && has_punct(
            code,
            i + 3,
            ',',
        ) && has_punct(code, i + 5, '>') && code.len() == i + 7 && read_number(number, target) is Some
            && read_opened(body, crate_path, kind, target) is Some {
            Some(
                Method {
                    name: name_at(code, 2)->0,
                    len: if many {
                        len
                    } else {
                        None
                    },
                    number: read_number(number, target)->0,
                    opened: read_opened(body, crate_path, kind, target)->0,
                },
            )
        } else {
            None
        },
        _ => None,
    }
}

/// Whether the code is a method under the `cfg` attribute of the field, with its name, that opens the
/// channel on the target of the field, or one for each item of an array, and whose type has the number
/// of that very target.
pub open spec fn opens_field(
    code: Seq<Tok>,
    crate_path: Seq<Tok>,
    target: Named,
    serv: PlanModel,
) -> bool {
    serv.attr.is_prefix_of(code) && read_method(
        code.skip(serv.attr.len() as int),
        crate_path,
        target,
    ) == Some(
        Method {
            name: serv.ident,
            len: match serv.shape {
                ShapeModel::Array(_, len) => Some(len),
                _ => None,
            },
            number: plain_of(serv),
            opened: plain_of(serv),
        },
    )
}

/// The method of a field opens the channel of that field.
pub proof fn law_method_of_its_field(crate_path: Seq<Tok>, target: Named, serv: PlanModel)
    ensures
        opens_field(method_code(crate_path, target, serv), crate_path, target, serv),
{
    if serv.shape is Array {
        lemma_method_of_items(crate_path, target, serv);
    } else {
        lemma_method_of_one(crate_path, target, serv);
    }
}

proof fn lemma_kinds_differ()
    ensures
        "Channel"@ != "Channels"@,
{
    reveal_strlit("Channel");
    reveal_strlit("Channels");
    assert("Channel"@.len() != "Channels"@.len());
}

#[verifier::rlimit(50)]
proof fn lemma_method_of_one(crate_path: Seq<Tok>, target: Named, serv: PlanModel)
    requires
        !(serv.shape is Array),
    ensures
        opens_field(method_code(crate_path, target, serv), crate_path, target, serv),
{
    lemma_kinds_differ();
    let code = method_code(crate_path, target, serv).skip(serv.attr.len() as int);
    let n = crate_path.len() as int;
    let shown = no_code().name(target).colons().name(serv.upper);
    let number = shown.punct('.').word("id"@).paren(no_code());
    let inner = no_code().punct('&').word("self"@).punct(',').name(target).colons().name(serv.upper);
    let body = crate_path.colons().word("Channel"@).colons().word("new"@).paren(inner);
    let receiver = no_code().punct('&').word("self"@);
    let head = no_code().word("pub"@).word("fn"@).name(serv.ident).paren(receiver).arrow();
    let full = head.code(crate_path).colons().word("Channel"@).punct('<').lifetime("_"@).punct(
        ',',
    ).word("Self"@).punct(',').name(target).punct(',').brace(number).punct('>').brace(body);
    assert(no_code().code(crate_path) =~= crate_path);
    assert(code =~= full);
    assert(full.subrange(6, 6 + n) =~= crate_path);
    assert(body.subrange(0, n) =~= crate_path);
    assert(read_number(number, target) == Some(plain_of(serv)));
    assert(plain_at(inner, 3, target) == Some((plain_of(serv), 7int)));
    assert(read_opened(body, crate_path, "Channel"@, target) == Some(plain_of(serv)));
}

#[verifier::rlimit(50)]
proof fn lemma_method_of_items(crate_path: Seq<Tok>, target: Named, serv: PlanModel)
    requires
        serv.shape is Array,
    ensures
        opens_field(method_code(crate_path, target, serv), crate_path, target, serv),
{
    let code = method_code(crate_path, target, serv).skip(serv.attr.len() as int);
    let n = crate_path.len() as int;
    let len = serv.shape->Array_1;
    let none = no_code().word("None"@);
    let shown = no_code().name(target).colons().name(serv.upper).paren(none);
    let number = shown.punct('.').word("id"@).paren(no_code());
    let inner = no_code().punct('&').word("self"@).punct(',').name(target).colons().name(
        serv.upper,
    ).paren(none);
    let body = crate_path.colons().word("Channels"@).colons().word("new"@).paren(inner);
    let receiver = no_code().punct('&').word("self"@);
    let head = no_code().word("pub"@).word("fn"@).name(serv.ident).paren(receiver).arrow();
    let full = head.code(crate_path).colons().word("Channels"@).punct('<').lifetime("_"@).punct(
        ',',
    ).brace(len).punct(',').word("Self"@).punct(',').name(target).punct(',').brace(number).punct(
        '>',
    ).brace(body);
    assert(no_code().code(crate_path) =~= crate_path);
    assert(no_code().code(len) =~= len);
    assert(code =~= full);
    assert(full.subrange(6, 6 + n) =~= crate_path);
    assert(body.subrange(0, n) =~= crate_path);
    assert(read_number(number, target) == Some(plain_of(serv)));
    assert(plain_at(inner, 3, target) == Some((plain_of(serv), 8int)));
    assert(read_opened(body, crate_path, "Channels"@, target) == Some(plain_of(serv)));
}

/// The impl has one method for each field, in order, which opens the channel of that field.
pub proof fn law_each_field_is_opened(crate_path: Seq<Tok>, target: Named, servs: Seq<PlanModel>)
    ensures
        exists|parts: Seq<Seq<Tok>>|
            {
                &&& parts.len() == servs.len()
                &&& methods_code(crate_path, target, servs) == #[trigger] flat(parts)
                &&& forall|i: int|
                    0 <= i < servs.len() ==> opens_field(
                        #[trigger] parts[i],
                        crate_path,
                        target,
                        servs[i],
                    )
            },
{
    let parts = servs.map_values(|serv: PlanModel| method_code(crate_path, target, serv));
    lemma_methods(crate_path, target, servs);
    assert(methods_code(crate_path, target, servs) == flat(parts));
    assert forall|i: int| 0 <= i < servs.len() implies opens_field(
        #[trigger] parts[i],
        crate_path,
        target,
        servs[i],
    ) by {
        law_method_of_its_field(crate_path, target, servs[i]);
    }
}

proof fn lemma_methods(crate_path: Seq<Tok>, target: Named, servs: Seq<PlanModel>)
    ensures
        methods_code(crate_path, target, servs) == flat(
            servs.map_values(|serv: PlanModel| method_code(crate_path, target, serv)),
        ),
    decreases servs.len(),
{
    if servs.len() > 0 {
        lemma_methods(crate_path, target, servs.drop_last());
        assert(servs.map_values(
            |serv: PlanModel| method_code(crate_path, target, serv),
        ).drop_last() =~= servs.drop_last().map_values(
            |serv: PlanModel| method_code(crate_path, target, serv),
        ));
    }
}

/// The target that the method of a field opens is one of that field. Its number is the position of the
/// field, and not that of senders that are no service.
pub proof fn law_opened_target_is_its_own(
    crate_path: Seq<Tok>,
    target: Named,
    servs: Seq<PlanModel>,
    on: spec_fn(Seq<Tok>) -> bool,
    i: int,
)
    requires
        are_numbered(servs),
        variants_differ(servs, on),
        0 <= i < servs.len(),
        is_on(servs[i].attr, on),
    ensures
        read_method(
            method_code(crate_path, target, servs[i]).skip(servs[i].attr.len() as int),
            crate_path,
            target,
        ) matches Some(method) && {
            &&& method.name == servs[i].ident
            &&& is_target_of(servs, on, i, plain_target(method.opened))
            &&& target_number(servs, on, plain_target(method.opened)) == Some(i as nat)
            &&& target_number(servs, on, plain_target(method.number)) == Some(i as nat)
            &&& target_number(servs, on, plain_target(method.opened)) != target_number(
                servs,
                on,
                global_target(),
            )
        },
{
    law_method_of_its_field(crate_path, target, servs[i]);
    law_number_of_target_leads_back(servs, on, i, plain_target(plain_of(servs[i])));
    law_greatest_number_leads_back(servs, on);
}

} // verus!
