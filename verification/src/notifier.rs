//! The whole expansion of the derive.

use proc_macro2::{Ident, TokenStream};
use vstd::prelude::*;

use crate::access::{access, access_code, inits_code, methods_code};
use crate::attrs::{find_unknown_setting, named_values, parse_attrs, settings, unknown_setting};
use crate::code::{flat, lemma_words, no_code, Code, Snippet};
use crate::error::{law_each_message_is_told, reported, tells_all};
use crate::field::{field_types, message, shape, FieldErrorModel, FieldTypes, FieldTypesModel};
use crate::ident::{
    ident_ok, is_ident, is_native, law_identifiers_grow, lemma_longer_ident, named, place, respell,
    spelled, spelling, text_of, Named,
};
use crate::literal::{find_unknown_in_struct, may_be_struct, unknown_in_struct, unknown_literal};
use crate::read::{parsed_struct, read_struct};
use crate::reading::{group_at, has_code, has_punct, has_word, name_at};
use crate::senders::{notifier_senders, notifier_senders_code};
use crate::service::{
    field_views, find_trouble, has_ascii_name, kinds, law_ascii_names_are_good,
    law_first_error_counts, law_kinds_follow_fields, parse, plan_views, plans, service_fields,
    service_views, services, trouble, PlanModel, Services, Trouble, TroubleModel,
};
use crate::service_get::{service_get, service_get_code};
use crate::slot::{is_nested, none_nested};
use crate::syntax::{FieldModel, ItemStruct, StructModel};
use crate::tables::lemma_flat_of_six;
use crate::targets::{targets, targets_code};
use crate::token::{is_native_stream, tokens, Delimiter, Tok};

verus! {

/// `::target_notifier`.
pub open spec fn crate_root_code() -> Seq<Tok> {
    no_code().colons().word("target_notifier"@)
}

fn crate_root() -> (code: TokenStream)
    ensures
        tokens(code) == crate_root_code(),
{
    proof {
        lemma_words();
    }
    Code::new().colons().word("target_notifier").done()
}

/// `vis type alias<'a, const ID: usize> = crate_path::Channel<'a, name, target, ID>;`.
pub open spec fn channel_alias_code(
    vis: Seq<Tok>,
    alias: Named,
    crate_path: Seq<Tok>,
    name: Named,
    target: Named,
) -> Seq<Tok> {
    no_code()
        .code(vis).word("type"@).name(alias).punct('<').lifetime("a"@).punct(',').word("const"@)
        .word("ID"@).punct(':').word("usize"@).punct('>').punct('=').code(crate_path).colons()
        .word("Channel"@).punct('<').lifetime("a"@).punct(',').name(name).punct(',')
        .name(target).punct(',').word("ID"@).punct('>').punct(';')
}

fn channel_alias(
    vis: &TokenStream,
    alias: &Ident,
    crate_path: &TokenStream,
    name: &Ident,
    target: &Ident,
) -> (code: TokenStream)
    ensures
        tokens(code) == channel_alias_code(
            tokens(*vis),
            named(*alias),
            tokens(*crate_path),
            named(*name),
            named(*target),
        ),
{
    proof {
        lemma_words();
    }
    Code::new()
        .code(vis).word("type").ident(alias).punct('<').lifetime("a").punct(',').word("const")
        .word("ID").punct(':').word("usize").punct('>').punct('=').code(crate_path).colons()
        .word("Channel").punct('<').lifetime("a").punct(',').ident(name).punct(',')
        .ident(target).punct(',').word("ID").punct('>').punct(';').done()
}

/// `vis type alias<'a, const ID: usize, const U: usize> = crate_path::Channels<'a, U, name, target,
/// ID>;`.
pub open spec fn channels_alias_code(
    vis: Seq<Tok>,
    alias: Named,
    crate_path: Seq<Tok>,
    name: Named,
    target: Named,
) -> Seq<Tok> {
    no_code()
        .code(vis).word("type"@).name(alias).punct('<').lifetime("a"@).punct(',').word("const"@)
        .word("ID"@).punct(':').word("usize"@).punct(',').word("const"@).word("U"@).punct(':')
        .word("usize"@).punct('>').punct('=').code(crate_path).colons().word("Channels"@)
        .punct('<').lifetime("a"@).punct(',').word("U"@).punct(',').name(name).punct(',')
        .name(target).punct(',').word("ID"@).punct('>').punct(';')
}

fn channels_alias(
    vis: &TokenStream,
    alias: &Ident,
    crate_path: &TokenStream,
    name: &Ident,
    target: &Ident,
) -> (code: TokenStream)
    ensures
        tokens(code) == channels_alias_code(
            tokens(*vis),
            named(*alias),
            tokens(*crate_path),
            named(*name),
            named(*target),
        ),
{
    proof {
        lemma_words();
    }
    Code::new()
        .code(vis).word("type").ident(alias).punct('<').lifetime("a").punct(',').word("const")
        .word("ID").punct(':').word("usize").punct(',').word("const").word("U").punct(':')
        .word("usize").punct('>').punct('=').code(crate_path).colons().word("Channels")
        .punct('<').lifetime("a").punct(',').word("U").punct(',').ident(name).punct(',')
        .ident(target).punct(',').word("ID").punct('>').punct(';').done()
}

/// `vis type alias<'a> = crate_path::Sender<'a, name>;`.
pub open spec fn sender_alias_code(
    vis: Seq<Tok>,
    alias: Named,
    crate_path: Seq<Tok>,
    name: Named,
) -> Seq<Tok> {
    no_code()
        .code(vis).word("type"@).name(alias).punct('<').lifetime("a"@).punct('>').punct('=')
        .code(crate_path).colons().word("Sender"@).punct('<').lifetime("a"@).punct(',')
        .name(name).punct('>').punct(';')
}

fn sender_alias(
    vis: &TokenStream,
    alias: &Ident,
    crate_path: &TokenStream,
    name: &Ident,
) -> (code: TokenStream)
    ensures
        tokens(code) == sender_alias_code(
            tokens(*vis),
            named(*alias),
            tokens(*crate_path),
            named(*name),
        ),
{
    proof {
        lemma_words();
    }
    Code::new()
        .code(vis).word("type").ident(alias).punct('<').lifetime("a").punct('>').punct('=')
        .code(crate_path).colons().word("Sender").punct('<').lifetime("a").punct(',')
        .ident(name).punct('>').punct(';').done()
}

/// `vis type alias<'a, T> = crate_path::Receiver<'a, T>;`.
pub open spec fn receiver_alias_code(
    vis: Seq<Tok>,
    alias: Named,
    crate_path: Seq<Tok>,
) -> Seq<Tok> {
    no_code()
        .code(vis).word("type"@).name(alias).punct('<').lifetime("a"@).punct(',').word("T"@)
        .punct('>').punct('=').code(crate_path).colons().word("Receiver"@).punct('<')
        .lifetime("a"@).punct(',').word("T"@).punct('>').punct(';')
}

fn receiver_alias(vis: &TokenStream, alias: &Ident, crate_path: &TokenStream) -> (code: TokenStream)
    ensures
        tokens(code) == receiver_alias_code(tokens(*vis), named(*alias), tokens(*crate_path)),
{
    proof {
        lemma_words();
    }
    Code::new()
        .code(vis).word("type").ident(alias).punct('<').lifetime("a").punct(',').word("T")
        .punct('>').punct('=').code(crate_path).colons().word("Receiver").punct('<')
        .lifetime("a").punct(',').word("T").punct('>').punct(';').done()
}

/// `impl crate_path::Notifier for name { }`.
pub open spec fn notifier_item_code(crate_path: Seq<Tok>, name: Named) -> Seq<Tok> {
    no_code()
        .word("impl"@).code(crate_path).colons().word("Notifier"@).word("for"@).name(name)
        .brace(no_code())
}

fn notifier_item(crate_path: &TokenStream, name: &Ident) -> (code: TokenStream)
    ensures
        tokens(code) == notifier_item_code(tokens(*crate_path), named(*name)),
{
    proof {
        lemma_words();
    }
    Code::new()
        .word("impl").code(crate_path).colons().word("Notifier").word("for").ident(name)
        .brace(Code::new()).done()
}

/// The names of the aliases of the types of the crate.
pub struct Aliases {
    pub channel: Ident,
    pub channels: Ident,
    pub sender: Ident,
    pub receiver: Ident,
}

#[verifier::ext_equal]
pub struct AliasesModel {
    pub channel: Named,
    pub channels: Named,
    pub sender: Named,
    pub receiver: Named,
}

impl View for Aliases {
    type V = AliasesModel;

    open spec fn view(&self) -> AliasesModel {
        AliasesModel {
            channel: named(self.channel),
            channels: named(self.channels),
            sender: named(self.sender),
            receiver: named(self.receiver),
        }
    }
}

/// The aliases of the types of the crate for the struct.
pub open spec fn aliases_code(
    vis: Seq<Tok>,
    crate_path: Seq<Tok>,
    name: Named,
    aliases: AliasesModel,
    target: Named,
) -> Seq<Tok> {
    no_code()
        .code(channel_alias_code(vis, aliases.channel, crate_path, name, target))
        .code(channels_alias_code(vis, aliases.channels, crate_path, name, target))
        .code(sender_alias_code(vis, aliases.sender, crate_path, name))
        .code(receiver_alias_code(vis, aliases.receiver, crate_path))
}

/// All that is written for a struct whose services are found.
#[verifier::opaque]
pub open spec fn expansion_code(
    vis: Seq<Tok>,
    name: Named,
    aliases: AliasesModel,
    target: Named,
    servs: Seq<PlanModel>,
) -> Seq<Tok> {
    let crate_path = crate_root_code();
    no_code()
        .code(aliases_code(vis, crate_path, name, aliases, target))
        .code(targets_code(vis, crate_path, target, servs))
        .code(service_get_code(name, crate_path, target, servs))
        .code(notifier_senders_code(name, crate_path, servs))
        .code(notifier_item_code(crate_path, name))
        .code(access_code(name, crate_path, target, servs))
}

/// Why a struct cannot be expanded at all.
pub enum Refusal {
    /// The parser does not know a literal, which is given.
    UnknownLiteral(String),
    /// The fields have no names. The name of the struct is given.
    UnnamedFields(String),
    /// No attribute sets `targets`.
    NoTargets,
    /// A field that is marked as a service has no name.
    NamelessService,
    /// A name that the code needs cannot be an identifier.
    BadName(String),
    /// A field is an array of arrays.
    NestedArrays,
}

#[verifier::ext_equal]
pub enum RefusalModel {
    UnknownLiteral(Seq<char>),
    UnnamedFields(Seq<char>),
    NoTargets,
    NamelessService,
    BadName(Seq<char>),
    NestedArrays,
}

impl View for Refusal {
    type V = RefusalModel;

    open spec fn view(&self) -> RefusalModel {
        match self {
            Refusal::UnknownLiteral(text) => RefusalModel::UnknownLiteral(text@),
            Refusal::UnnamedFields(name) => RefusalModel::UnnamedFields(name@),
            Refusal::NoTargets => RefusalModel::NoTargets,
            Refusal::NamelessService => RefusalModel::NamelessService,
            Refusal::BadName(name) => RefusalModel::BadName(name@),
            Refusal::NestedArrays => RefusalModel::NestedArrays,
        }
    }
}

/// The first alias of the struct that cannot be an identifier.
pub open spec fn bad_alias(name: Seq<char>) -> Option<Seq<char>> {
    if !ident_ok(name + "Channel"@) {
        Some(name + "Channel"@)
    } else if !ident_ok(name + "Channels"@) {
        Some(name + "Channels"@)
    } else if !ident_ok(name + "Sender"@) {
        Some(name + "Sender"@)
    } else if !ident_ok(name + "Receiver"@) {
        Some(name + "Receiver"@)
    } else {
        None
    }
}

/// Whether a field is an array of arrays.
pub open spec fn any_nested(list: Seq<FieldTypesModel>) -> bool {
    exists|i: int| 0 <= i < list.len() && is_nested(shape(#[trigger] list[i]))
}

/// Why a struct cannot be expanded, where it cannot. A field that is marked as a service and is
/// none is no such reason: the compiler is told of it.
pub open spec fn refusal(item: StructModel) -> Option<RefusalModel> {
    if unknown_setting(item.attrs) is Some {
        Some(RefusalModel::UnknownLiteral(unknown_setting(item.attrs)->0))
    } else if !item.named {
        Some(RefusalModel::UnnamedFields(item.ident.text))
    } else if !settings(item.attrs).contains_key("targets"@) {
        Some(RefusalModel::NoTargets)
    } else {
        match trouble(service_fields(item.fields)) {
            Some(TroubleModel::Nameless) => Some(RefusalModel::NamelessService),
            Some(TroubleModel::BadName(name)) => Some(RefusalModel::BadName(name)),
            None => match kinds(service_fields(item.fields)) {
                Err(_) => None,
                Ok(list) => if any_nested(list) {
                    Some(RefusalModel::NestedArrays)
                } else {
                    match bad_alias(item.ident.text) {
                        Some(name) => Some(RefusalModel::BadName(name)),
                        None => None,
                    }
                },
            },
        }
    }
}

/// The name of an alias of a struct. It stands at the place of the name of the struct.
pub open spec fn alias_of(name: Named, native: bool, end: Seq<char>) -> Named {
    Named { text: spelled(native, name.text + end), place: name.place }
}

/// The aliases of a struct.
pub open spec fn aliases_of(name: Named, native: bool) -> AliasesModel {
    AliasesModel {
        channel: alias_of(name, native, "Channel"@),
        channels: alias_of(name, native, "Channels"@),
        sender: alias_of(name, native, "Sender"@),
        receiver: alias_of(name, native, "Receiver"@),
    }
}

/// What is written for a struct: its expansion, or what the compiler is told of the first field
/// that is marked as a service and is none.
pub open spec fn struct_code(item: StructModel) -> Seq<Tok> {
    match kinds(service_fields(item.fields)) {
        Ok(_) => expansion_code(
            item.vis,
            item.ident,
            aliases_of(item.ident, item.native),
            settings(item.attrs)["targets"@],
            plans(services(service_fields(item.fields))),
        ),
        Err(error) => reported(message(error.reason), error.at),
    }
}

/// Whether the code is what is written for the tokens of a struct: what is written for the struct,
/// or what the compiler is told where the tokens define none.
pub open spec fn is_derived(input: Seq<Tok>, native: bool, code: Seq<Tok>) -> bool {
    match parsed_struct(input, native) {
        Ok(item) => code == struct_code(item),
        Err(list) => tells_all(code, list),
    }
}

/// Why the tokens of a struct cannot be expanded, where they cannot.
pub open spec fn derive_refusal(input: Seq<Tok>, native: bool) -> Option<RefusalModel> {
    match unknown_in_struct(input) {
        Some(text) => Some(RefusalModel::UnknownLiteral(text)),
        None => match parsed_struct(input, native) {
            Ok(item) => refusal(item),
            Err(_) => None,
        },
    }
}

/// The name of an alias.
fn alias_name(name: &Ident, end: &str) -> (text: String)
    ensures
        text@ == spelling(*name) + end@,
{
    let mut text = text_of(name);
    text.append(end);
    text
}

/// The first alias of the struct that cannot be an identifier.
fn find_bad_alias(name: &Ident) -> (found: Option<String>)
    ensures
        match found {
            Some(text) => bad_alias(spelling(*name)) == Some(text@),
            None => bad_alias(spelling(*name)) is None,
        },
{
    let channel = alias_name(name, "Channel");
    if !is_ident(channel.as_str()) {
        return Some(channel);
    }
    let channels = alias_name(name, "Channels");
    if !is_ident(channels.as_str()) {
        return Some(channels);
    }
    let sender = alias_name(name, "Sender");
    if !is_ident(sender.as_str()) {
        return Some(sender);
    }
    let receiver = alias_name(name, "Receiver");
    if !is_ident(receiver.as_str()) {
        return Some(receiver);
    }
    None
}

/// Names the aliases of a struct. They stand at the place of its name.
pub fn make_aliases(name: &Ident) -> (aliases: Aliases)
    requires
        bad_alias(spelling(*name)) is None,
    ensures
        aliases@ == aliases_of(named(*name), is_native(*name)),
{
    Aliases {
        channel: respell(alias_name(name, "Channel").as_str(), name),
        channels: respell(alias_name(name, "Channels").as_str(), name),
        sender: respell(alias_name(name, "Sender").as_str(), name),
        receiver: respell(alias_name(name, "Receiver").as_str(), name),
    }
}

/// Whether a field is an array of arrays.
fn has_nested(servs: &Vec<Services>) -> (found: bool)
    ensures
        found == !none_nested(plan_views(servs@)),
{
    let mut i: usize = 0;
    while i < servs.len()
        invariant
            i <= servs.len(),
            forall|j: int|
                0 <= j < i ==> !is_nested((#[trigger] plan_views(servs@)[j]).shape),
        decreases servs.len() - i,
    {
        proof {
            assert(plan_views(servs@)[i as int].shape == shape(servs[i as int]@.ty));
            reveal_with_fuel(FieldTypes::view, 2);
            reveal_with_fuel(shape, 2);
        }
        if let FieldTypes::Array(inner, _) = &servs[i].ty {
            if let FieldTypes::Array(_, _) = &**inner {
                assert(is_nested(plan_views(servs@)[i as int].shape));
                return true;
            }
        }
        i += 1;
    }
    false
}

/// Whether a field is an array of arrays can be seen from the services.
proof fn lemma_nested(fields: Seq<FieldModel>, servs: Seq<Services>)
    requires
        kinds(fields) is Ok,
        service_views(servs) == services(fields),
    ensures
        none_nested(plan_views(servs)) == !any_nested(kinds(fields)->Ok_0),
{
    let list = kinds(fields)->Ok_0;
    law_kinds_follow_fields(fields);
    assert forall|i: int| 0 <= i < list.len() implies (#[trigger] plan_views(servs)[i]).shape == shape(
        list[i],
    ) by {
        assert(service_views(servs)[i].ty == field_types(fields[i].ty)->Ok_0);
    }
    if any_nested(list) {
        let i = choose|i: int| 0 <= i < list.len() && is_nested(shape(#[trigger] list[i]));
        assert(is_nested(plan_views(servs)[i].shape));
    } else {
        assert forall|i: int| 0 <= i < plan_views(servs).len() implies !is_nested(
            (#[trigger] plan_views(servs)[i]).shape,
        ) by {
            assert(!is_nested(shape(list[i])));
        }
    }
}

/// Writes the aliases of the types of the crate for the struct.
fn write_aliases(
    vis: &TokenStream,
    crate_path: &TokenStream,
    name: &Ident,
    aliases: &Aliases,
    target: &Ident,
) -> (code: TokenStream)
    ensures
        tokens(code) == aliases_code(
            tokens(*vis),
            tokens(*crate_path),
            named(*name),
            aliases@,
            named(*target),
        ),
{
    Code::new()
        .code(&channel_alias(vis, &aliases.channel, crate_path, name, target))
        .code(&channels_alias(vis, &aliases.channels, crate_path, name, target))
        .code(&sender_alias(vis, &aliases.sender, crate_path, name))
        .code(&receiver_alias(vis, &aliases.receiver, crate_path))
        .done()
}

/// Writes all that is written for a struct whose services are found.
pub fn expansion(
    vis: &TokenStream,
    name: &Ident,
    aliases: &Aliases,
    target: &Ident,
    servs: &Vec<Services>,
) -> (code: TokenStream)
    requires
        none_nested(plan_views(servs@)),
    ensures
        tokens(code) == expansion_code(
            tokens(*vis),
            named(*name),
            aliases@,
            named(*target),
            plan_views(servs@),
        ),
{
    proof {
        reveal(expansion_code);
    }
    let crate_path = crate_root();
    Code::new()
        .code(&write_aliases(vis, &crate_path, name, aliases, target))
        .code(&targets(vis, &crate_path, target, servs))
        .code(&service_get(name, &crate_path, target, servs))
        .code(&notifier_senders(name, &crate_path, servs))
        .code(&notifier_item(&crate_path, name))
        .code(&access(name, &crate_path, target, servs))
        .done()
}

/// Finds out why a struct cannot be expanded, where it cannot.
pub fn find_refusal(input: &ItemStruct) -> (found: Option<Refusal>)
    ensures
        match found {
            Some(reason) => refusal(input@) == Some(reason@),
            None => refusal(input@) is None,
        },
{
    if let Some(text) = find_unknown_setting(&input.attrs) {
        return Some(Refusal::UnknownLiteral(text));
    }
    let attrs = parse_attrs(&input.attrs);
    assert(named_values(attrs@).contains_key("targets"@) == attrs@.contains_key("targets"@));
    if !input.named {
        return Some(Refusal::UnnamedFields(text_of(&input.ident)));
    }
    if !attrs.contains_key("targets") {
        return Some(Refusal::NoTargets);
    }
    assert(input@.fields == field_views(input.fields@));
    match find_trouble(&input.fields) {
        Some(Trouble::Nameless) => return Some(Refusal::NamelessService),
        Some(Trouble::BadName(name)) => return Some(Refusal::BadName(name)),
        None => {},
    }
    match parse(input) {
        Err(_) => None,
        Ok(servs) => {
            proof {
                lemma_nested(service_fields(input@.fields), servs@);
            }
            if has_nested(&servs) {
                return Some(Refusal::NestedArrays);
            }
            match find_bad_alias(&input.ident) {
                Some(name) => Some(Refusal::BadName(name)),
                None => None,
            }
        },
    }
}

/// Expands a struct.
pub fn notifier_impl(input: &ItemStruct) -> (code: TokenStream)
    requires
        refusal(input@) is None,
    ensures
        tokens(code) == struct_code(input@),
{
    let attrs = parse_attrs(&input.attrs);
    assert(named_values(attrs@).contains_key("targets"@) == attrs@.contains_key("targets"@));
    let parsed = match parse(input) {
        Ok(parsed) => parsed,
        Err(code) => return code,
    };
    let target = attrs.get("targets").unwrap();
    assert(named(*target) == named_values(attrs@)["targets"@]);
    let aliases = make_aliases(&input.ident);
    proof {
        lemma_nested(service_fields(input@.fields), parsed@);
    }
    expansion(&input.vis, &input.ident, &aliases, target, &parsed)
}

/// Expands the tokens of a struct.
pub fn macro_body(input: TokenStream) -> (code: TokenStream)
    requires
        derive_refusal(tokens(input), is_native_stream(input)) is None,
    ensures
        is_derived(tokens(input), is_native_stream(input), tokens(code)),
        parsed_struct(tokens(input), is_native_stream(input)) is Ok ==> may_be_struct(tokens(input)),
{
    match read_struct(input) {
        Ok(item) => notifier_impl(&item),
        Err(error) => error.into_compile_error(),
    }
}

/// Expands the tokens of a struct, or says why they cannot be expanded.
pub fn try_macro_body(input: TokenStream) -> (result: Result<TokenStream, Refusal>)
    ensures
        match result {
            Ok(code) => derive_refusal(tokens(input), is_native_stream(input)) is None && is_derived(
                tokens(input),
                is_native_stream(input),
                tokens(code),
            ),
            Err(reason) => derive_refusal(tokens(input), is_native_stream(input)) == Some(reason@),
        },
        parsed_struct(tokens(input), is_native_stream(input)) is Ok ==> may_be_struct(tokens(input)),
{
    if let Some(text) = find_unknown_in_struct(&input) {
        return Err(Refusal::UnknownLiteral(text));
    }
    if let Ok(item) = read_struct(input.clone()) {
        if let Some(reason) = find_refusal(&item) {
            return Err(reason);
        }
    }
    Ok(macro_body(input))
}

/// The name of a struct that is an identifier makes good aliases.
proof fn lemma_good_aliases(name: Seq<char>)
    requires
        ident_ok(name),
    ensures
        bad_alias(name) is None,
{
    reveal_strlit("Channel");
    reveal_strlit("Channels");
    reveal_strlit("Sender");
    reveal_strlit("Receiver");
    lemma_longer_ident(name, "Channel"@);
    lemma_longer_ident(name, "Channels"@);
    lemma_longer_ident(name, "Sender"@);
    lemma_longer_ident(name, "Receiver"@);
}

/// A struct with named fields that sets `targets` is refused only for an array of arrays, where the
/// parser knows the literals in its `notifier` attributes, its name is an identifier and the names
/// of its services are ASCII identifiers. A name that is written with `r#` is none.
pub proof fn law_ordinary_structs_expand(item: StructModel)
    requires
        unknown_setting(item.attrs) is None,
        item.named,
        settings(item.attrs).contains_key("targets"@),
        ident_ok(item.ident.text),
        forall|i: int|
            0 <= i < service_fields(item.fields).len() ==> has_ascii_name(
                #[trigger] service_fields(item.fields)[i],
            ),
    ensures
        match refusal(item) {
            None => true,
            Some(reason) => reason is NestedArrays,
        },
        refusal(item) is Some <==> (kinds(service_fields(item.fields)) matches Ok(list)
            && any_nested(list)),
{
    law_ascii_names_are_good(service_fields(item.fields));
    lemma_good_aliases(item.ident.text);
}

/// What is written for a struct, and whether it is refused, depends only on its visibility, its
/// name, what its attributes set, and the fields that are marked as services.
pub proof fn law_only_services_matter(a: StructModel, b: StructModel)
    requires
        a.vis == b.vis,
        a.ident == b.ident,
        a.native == b.native,
        a.named == b.named,
        unknown_setting(a.attrs) == unknown_setting(b.attrs),
        settings(a.attrs) == settings(b.attrs),
        service_fields(a.fields) == service_fields(b.fields),
    ensures
        refusal(a) == refusal(b),
        struct_code(a) == struct_code(b),
{
    let fields = service_fields(a.fields);
    assert(trouble(fields) == trouble(service_fields(b.fields)));
    assert(kinds(fields) == kinds(service_fields(b.fields)));
    assert(plans(services(fields)) == plans(services(service_fields(b.fields))));
    assert(aliases_of(a.ident, a.native) == aliases_of(b.ident, b.native));
}

/// Where a field that is marked as a service is none, the struct is not expanded: all that is
/// written is the report of the first such field, which points at the part of its type that is to
/// blame.
pub proof fn law_error_in_place_of_code(item: StructModel, i: int)
    requires
        0 <= i < service_fields(item.fields).len(),
        field_types(service_fields(item.fields)[i].ty) is Err,
        forall|j: int|
            0 <= j < i ==> field_types((#[trigger] service_fields(item.fields)[j]).ty) is Ok,
    ensures
        ({
            let error = field_types(service_fields(item.fields)[i].ty)->Err_0;
            struct_code(item) == reported(message(error.reason), error.at)
        }),
{
    let fields = service_fields(item.fields);
    law_first_error_counts(fields);
    assert(field_types(fields[i].ty) is Err);
    let error = kinds(fields)->Err_0;
    let k = choose|k: int|
        {
            &&& 0 <= k < fields.len()
            &&& field_types((#[trigger] fields[k]).ty) == Err::<FieldTypesModel, FieldErrorModel>(
                error,
            )
            &&& forall|j: int| 0 <= j < k ==> field_types((#[trigger] fields[j]).ty) is Ok
        };
    assert(k == i);
}

/// Tokens without the word `struct`, and without a group that could hide it, are never refused: all
/// that is written is what the parser says of them, whatever literals they hold.
pub proof fn law_other_items_are_reported(input: Seq<Tok>, native: bool, code: Seq<Tok>)
    requires
        !may_be_struct(input),
        parsed_struct(input, native) is Err,
    ensures
        derive_refusal(input, native) is None,
        is_derived(input, native, code) <==> tells_all(code, parsed_struct(input, native)->Err_0),
{
}

/// An expansion has six parts, one after the other: the aliases, the enum of targets with its
/// conversions, the lookups, the walks, the impl of the notifier, and the impl with the channels.
pub proof fn law_expansion_has_its_parts(
    vis: Seq<Tok>,
    name: Named,
    aliases: AliasesModel,
    target: Named,
    servs: Seq<PlanModel>,
)
    ensures
        ({
            let crate_path = crate_root_code();
            &&& crate_path == no_code().colons().word("target_notifier"@)
            &&& expansion_code(vis, name, aliases, target, servs) == flat(
                seq![
                    aliases_code(vis, crate_path, name, aliases, target),
                    targets_code(vis, crate_path, target, servs),
                    service_get_code(name, crate_path, target, servs),
                    notifier_senders_code(name, crate_path, servs),
                    notifier_item_code(crate_path, name),
                    access_code(name, crate_path, target, servs),
                ],
            )
        }),
{
    reveal(expansion_code);
    let crate_path = crate_root_code();
    lemma_flat_of_six(
        aliases_code(vis, crate_path, name, aliases, target),
        targets_code(vis, crate_path, target, servs),
        service_get_code(name, crate_path, target, servs),
        notifier_senders_code(name, crate_path, servs),
        notifier_item_code(crate_path, name),
        access_code(name, crate_path, target, servs),
    );
}

/// The impl with the channels is written for the struct. It holds the methods, and then
/// `init_notifier` with what initialises the services.
pub proof fn law_methods_and_init(
    name: Named,
    crate_path: Seq<Tok>,
    target: Named,
    servs: Seq<PlanModel>,
)
    ensures
        ({
            let code = access_code(name, crate_path, target, servs);
            let methods = methods_code(crate_path, target, servs);
            let n = methods.len() as int;
            &&& code.len() == 3 && has_word(code, 0, "impl"@) && name_at(code, 1) == Some(name)
            &&& group_at(code, 2, Delimiter::Brace) matches Some(inner) && {
                &&& inner.len() == n + 5
                &&& has_code(inner, 0, methods)
                &&& has_word(inner, n, "pub"@) && has_word(inner, n + 1, "fn"@) && has_word(
                    inner,
                    n + 2,
                    "init_notifier"@,
                )
                &&& group_at(inner, n + 3, Delimiter::Parenthesis) matches Some(receiver)
                    && receiver.len() == 3 && has_punct(receiver, 0, '&') && has_word(
                    receiver,
                    1,
                    "mut"@,
                ) && has_word(receiver, 2, "self"@)
                &&& group_at(inner, n + 4, Delimiter::Brace) == Some(
                    inits_code(crate_path, target, servs),
                )
            }
        }),
{
    let methods = methods_code(crate_path, target, servs);
    let inits = inits_code(crate_path, target, servs);
    assert(no_code().code(inits) =~= inits);
    assert(no_code().code(methods) =~= methods);
    let inner = methods.word("pub"@).word("fn"@).word("init_notifier"@).paren(
        no_code().punct('&').word("mut"@).word("self"@),
    ).brace(inits);
    assert(inner.subrange(0, methods.len() as int) =~= methods);
    assert(group_at(access_code(name, crate_path, target, servs), 2, Delimiter::Brace) == Some(inner));
}

/// There are four aliases, one after the other: of a channel, of an array of channels, of a sender and
/// of a receiver.
pub proof fn law_four_aliases(
    vis: Seq<Tok>,
    crate_path: Seq<Tok>,
    name: Named,
    aliases: AliasesModel,
    target: Named,
)
    ensures
        aliases_code(vis, crate_path, name, aliases, target) == channel_alias_code(
            vis,
            aliases.channel,
            crate_path,
            name,
            target,
        ) + channels_alias_code(vis, aliases.channels, crate_path, name, target) + sender_alias_code(
            vis,
            aliases.sender,
            crate_path,
            name,
        ) + receiver_alias_code(vis, aliases.receiver, crate_path),
{
    let first = channel_alias_code(vis, aliases.channel, crate_path, name, target);
    assert(no_code().code(first) =~= first);
}

/// Each alias has the name of the struct and its own ending, as the compiler spells it, at the place
/// of the name.
pub proof fn law_aliases_are_named_after_the_struct(name: Named, native: bool)
    ensures
        ({
            let aliases = aliases_of(name, native);
            &&& aliases.channel.text == spelled(native, name.text + "Channel"@)
            &&& aliases.channels.text == spelled(native, name.text + "Channels"@)
            &&& aliases.sender.text == spelled(native, name.text + "Sender"@)
            &&& aliases.receiver.text == spelled(native, name.text + "Receiver"@)
            &&& aliases.channel.place == name.place && aliases.channels.place == name.place
            &&& aliases.sender.place == name.place && aliases.receiver.place == name.place
        }),
{
}

/// The aliases of two structs are the same exactly where the structs have the same name.
pub proof fn law_aliases_tell_structs_apart(a: Named, b: Named)
    ensures
        aliases_of(a, false).channel.text == aliases_of(b, false).channel.text <==> a.text == b.text,
        aliases_of(a, false).channels.text == aliases_of(b, false).channels.text <==> a.text == b.text,
        aliases_of(a, false).sender.text == aliases_of(b, false).sender.text <==> a.text == b.text,
        aliases_of(a, false).receiver.text == aliases_of(b, false).receiver.text <==> a.text == b.text,
{
    lemma_same_ending(a.text, b.text, "Channel"@);
    lemma_same_ending(a.text, b.text, "Channels"@);
    lemma_same_ending(a.text, b.text, "Sender"@);
    lemma_same_ending(a.text, b.text, "Receiver"@);
}

proof fn lemma_same_ending(a: Seq<char>, b: Seq<char>, end: Seq<char>)
    ensures
        a + end == b + end <==> a == b,
{
    if a + end == b + end {
        assert((a + end).len() == (b + end).len());
        assert(a =~= (a + end).take(a.len() as int));
        assert(b =~= (b + end).take(b.len() as int));
    }
}

/// An alias is bad exactly where the name of the struct is: it is then the first one, of a channel.
pub proof fn law_bad_name_makes_bad_alias(name: Seq<char>)
    requires
        name.len() > 0,
    ensures
        ident_ok(name) <==> bad_alias(name) is None,
        !ident_ok(name) ==> bad_alias(name) == Some(name + "Channel"@),
{
    if ident_ok(name) {
        lemma_good_aliases(name);
    } else if ident_ok(name + "Channel"@) {
        lemma_shorter_ident(name, "Channel"@);
    }
}

proof fn lemma_shorter_ident(text: Seq<char>, more: Seq<char>)
    requires
        text.len() > 0,
        ident_ok(text + more),
    ensures
        ident_ok(text),
    decreases more.len(),
{
    if more.len() == 0 {
        assert(text + more =~= text);
    } else {
        assert(text + more =~= (text + more.drop_last()).push(more.last()));
        law_identifiers_grow(text + more.drop_last(), more.last());
        lemma_shorter_ident(text, more.drop_last());
    }
}

/// Each reason for a refusal comes exactly where it applies and none before it does: an unknown literal
/// in a `notifier` attribute, fields without names, no `targets`, a service without a name or with one
/// that makes no target, arrays of arrays, and a name that makes no alias.
pub proof fn law_each_refusal_has_its_reason(item: StructModel, text: Seq<char>)
    ensures
        ({
            let read = unknown_setting(item.attrs) is None;
            let set = read && item.named && settings(item.attrs).contains_key("targets"@);
            let fields = service_fields(item.fields);
            let fine = set && trouble(fields) is None && kinds(fields) is Ok;
            let nested = exists|i: int|
                0 <= i < kinds(fields)->Ok_0.len() && is_nested(
                    shape(#[trigger] kinds(fields)->Ok_0[i]),
                );
            &&& refusal(item) == Some(RefusalModel::UnknownLiteral(text)) <==> unknown_setting(
                item.attrs,
            ) == Some(text)
            &&& refusal(item) == Some(RefusalModel::UnnamedFields(text)) <==> read && !item.named
                && text == item.ident.text
            &&& refusal(item) == Some(RefusalModel::NoTargets) <==> read && item.named && !settings(
                item.attrs,
            ).contains_key("targets"@)
            &&& refusal(item) == Some(RefusalModel::NamelessService) <==> set && trouble(fields)
                == Some(TroubleModel::Nameless)
            &&& refusal(item) == Some(RefusalModel::NestedArrays) <==> fine && nested
            &&& refusal(item) == Some(RefusalModel::BadName(text)) <==> (set && trouble(fields)
                == Some(TroubleModel::BadName(text))) || (fine && !nested && bad_alias(
                item.ident.text,
            ) == Some(text))
        }),
{
}

/// A struct whose services all have types of services is expanded, with its own visibility and name,
/// the enum that its attributes set, and its services.
pub proof fn law_struct_is_expanded(item: StructModel)
    requires
        forall|i: int|
            0 <= i < service_fields(item.fields).len() ==> field_types(
                (#[trigger] service_fields(item.fields)[i]).ty,
            ) is Ok,
    ensures
        struct_code(item) == expansion_code(
            item.vis,
            item.ident,
            aliases_of(item.ident, item.native),
            settings(item.attrs)["targets"@],
            plans(services(service_fields(item.fields))),
        ),
{
    law_first_error_counts(service_fields(item.fields));
}

/// Tokens are refused for the first unknown literal of a struct, or else for what the struct is refused
/// for. Tokens that the parser does not take for a struct are not.
pub proof fn law_tokens_are_refused_with_their_struct(input: Seq<Tok>, native: bool)
    ensures
        may_be_struct(input) && unknown_literal(input) is Some ==> derive_refusal(input, native)
            == Some(RefusalModel::UnknownLiteral(unknown_literal(input)->0)),
        !(may_be_struct(input) && unknown_literal(input) is Some) ==> (match parsed_struct(
            input,
            native,
        ) {
            Ok(item) => derive_refusal(input, native) == refusal(item),
            Err(_) => derive_refusal(input, native) is None,
        }),
{
}

/// What is written for tokens is the code of the struct that they define, or else what the parser says
/// of them, message by message.
pub proof fn law_derived_code(input: Seq<Tok>, native: bool, code: Seq<Tok>)
    requires
        is_derived(input, native, code),
    ensures
        match parsed_struct(input, native) {
            Ok(item) => code == struct_code(item),
            Err(list) => code.len() == 3 * list.len() && tells_all(code, list),
        },
{
    if let Err(list) = parsed_struct(input, native) {
        if list.len() > 0 {
            law_each_message_is_told(code, list, 0);
        }
    }
}

} // verus!
