//! The enum of targets and its conversions.

use proc_macro2::{Ident, TokenStream};
use vstd::prelude::*;

use crate::code::{lemma_words, no_code, Code, Snippet};
use crate::field::{FieldTypes, ShapeModel};
use crate::ident::{lemma_alphanumeric_plain, named, text_of, to_upper_camel, upper_camel, Named};
use crate::service::{plan, plan_views, PlanModel, Services};
use crate::token::{decimal, is_plain, law_decimal_injective, push_stream, tokens, Tok};

verus! {

/// The lists of the enum of targets that have one entry for each service.
#[derive(Clone, Copy, Debug, PartialEq, Eq, Structural)]
pub enum Table {
    /// The variants.
    Variants,
    /// The number of each target.
    Ids,
    /// The target of each identifier.
    FromId,
    /// The identifier of each target.
    IntoId,
    /// The target of each number.
    FromUsize,
    /// The name of each target.
    Names,
}

/// `upper,`.
pub open spec fn variant_code(upper: Named) -> Seq<Tok> {
    no_code().name(upper).punct(',')
}

fn variant(upper: &Ident) -> (code: TokenStream)
    ensures
        tokens(code) == variant_code(named(*upper)),
{
    Code::new().ident(upper).punct(',').done()
}

/// `upper(Option<usize>),`.
pub open spec fn variant_array_code(upper: Named) -> Seq<Tok> {
    no_code()
        .name(upper).paren(no_code().word("Option"@).punct('<').word("usize"@).punct('>'))
        .punct(',')
}

fn variant_array(upper: &Ident) -> (code: TokenStream)
    ensures
        tokens(code) == variant_array_code(named(*upper)),
{
    proof {
        lemma_words();
    }
    Code::new()
        .ident(upper).paren(Code::new().word("Option").punct('<').word("usize").punct('>'))
        .punct(',').done()
}

/// `Self::upper => id,`.
pub open spec fn id_arm_code(upper: Named, id: nat) -> Seq<Tok> {
    no_code().word("Self"@).colons().name(upper).fat_arrow().number(id).punct(',')
}

fn id_arm(upper: &Ident, id: usize) -> (code: TokenStream)
    ensures
        tokens(code) == id_arm_code(named(*upper), id as nat),
{
    proof {
        lemma_words();
    }
    Code::new().word("Self").colons().ident(upper).fat_arrow().number(id).punct(',').done()
}

/// `Self::upper(_) => id,`.
pub open spec fn id_arm_array_code(upper: Named, id: nat) -> Seq<Tok> {
    no_code()
        .word("Self"@).colons().name(upper).paren(no_code().word("_"@)).fat_arrow().number(id)
        .punct(',')
}

fn id_arm_array(upper: &Ident, id: usize) -> (code: TokenStream)
    ensures
        tokens(code) == id_arm_array_code(named(*upper), id as nat),
{
    proof {
        lemma_words();
    }
    Code::new()
        .word("Self").colons().ident(upper).paren(Code::new().word("_")).fat_arrow().number(id)
        .punct(',').done()
}

/// `id => Self::upper,`.
pub open spec fn from_id_arm_code(upper: Named, id: nat) -> Seq<Tok> {
    no_code().number(id).fat_arrow().word("Self"@).colons().name(upper).punct(',')
}

fn from_id_arm(upper: &Ident, id: usize) -> (code: TokenStream)
    ensures
        tokens(code) == from_id_arm_code(named(*upper), id as nat),
{
    proof {
        lemma_words();
    }
    Code::new().number(id).fat_arrow().word("Self").colons().ident(upper).punct(',').done()
}

/// `id => Self::upper(id.index()),`.
pub open spec fn from_id_arm_array_code(upper: Named, id: nat) -> Seq<Tok> {
    no_code()
        .number(id).fat_arrow().word("Self"@).colons().name(upper)
        .paren(no_code().word("id"@).punct('.').word("index"@).paren(no_code())).punct(',')
}

fn from_id_arm_array(upper: &Ident, id: usize) -> (code: TokenStream)
    ensures
        tokens(code) == from_id_arm_array_code(named(*upper), id as nat),
{
    proof {
        lemma_words();
    }
    Code::new()
        .number(id).fat_arrow().word("Self").colons().ident(upper)
        .paren(Code::new().word("id").punct('.').word("index").paren(Code::new())).punct(',')
        .done()
}

/// `target::upper => crate_path::ID::new(id).set_name(target.into()),`.
pub open spec fn into_id_arm_code(
    crate_path: Seq<Tok>,
    target: Named,
    upper: Named,
    id: nat,
) -> Seq<Tok> {
    no_code()
        .name(target).colons().name(upper).fat_arrow().code(crate_path).colons().word("ID"@)
        .colons().word("new"@).paren(no_code().number(id)).punct('.').word("set_name"@)
        .paren(no_code().word("target"@).punct('.').word("into"@).paren(no_code())).punct(',')
}

fn into_id_arm(
    crate_path: &TokenStream,
    target: &Ident,
    upper: &Ident,
    id: usize,
) -> (code: TokenStream)
    ensures
        tokens(code) == into_id_arm_code(
            tokens(*crate_path),
            named(*target),
            named(*upper),
            id as nat,
        ),
{
    proof {
        lemma_words();
    }
    Code::new()
        .ident(target).colons().ident(upper).fat_arrow().code(crate_path).colons().word("ID")
        .colons().word("new").paren(Code::new().number(id)).punct('.').word("set_name")
        .paren(Code::new().word("target").punct('.').word("into").paren(Code::new())).punct(',')
        .done()
}

/// `target::upper(index) => match index { Some(index) => crate_path::ID::new(id).set_index(index),
/// None => crate_path::ID::new(id) }.set_name(target.into()),`.
pub open spec fn into_id_arm_array_code(
    crate_path: Seq<Tok>,
    target: Named,
    upper: Named,
    id: nat,
) -> Seq<Tok> {
    no_code()
        .name(target).colons().name(upper).paren(no_code().word("index"@)).fat_arrow()
        .word("match"@).word("index"@).brace(
            no_code()
                .word("Some"@).paren(no_code().word("index"@)).fat_arrow().code(crate_path)
                .colons().word("ID"@).colons().word("new"@).paren(no_code().number(id))
                .punct('.').word("set_index"@).paren(no_code().word("index"@)).punct(',')
                .word("None"@).fat_arrow().code(crate_path).colons().word("ID"@).colons()
                .word("new"@).paren(no_code().number(id)),
        ).punct('.').word("set_name"@)
        .paren(no_code().word("target"@).punct('.').word("into"@).paren(no_code())).punct(',')
}

fn into_id_arm_array(
    crate_path: &TokenStream,
    target: &Ident,
    upper: &Ident,
    id: usize,
) -> (code: TokenStream)
    ensures
        tokens(code) == into_id_arm_array_code(
            tokens(*crate_path),
            named(*target),
            named(*upper),
            id as nat,
        ),
{
    proof {
        lemma_words();
    }
    Code::new()
        .ident(target).colons().ident(upper).paren(Code::new().word("index")).fat_arrow()
        .word("match").word("index").brace(
            Code::new()
                .word("Some").paren(Code::new().word("index")).fat_arrow().code(crate_path)
                .colons().word("ID").colons().word("new").paren(Code::new().number(id))
                .punct('.').word("set_index").paren(Code::new().word("index")).punct(',')
                .word("None").fat_arrow().code(crate_path).colons().word("ID").colons()
                .word("new").paren(Code::new().number(id)),
        ).punct('.').word("set_name")
        .paren(Code::new().word("target").punct('.').word("into").paren(Code::new())).punct(',')
        .done()
}

/// `id => Self::upper(None),`.
pub open spec fn from_usize_arm_array_code(upper: Named, id: nat) -> Seq<Tok> {
    no_code()
        .number(id).fat_arrow().word("Self"@).colons().name(upper)
        .paren(no_code().word("None"@)).punct(',')
}

fn from_usize_arm_array(upper: &Ident, id: usize) -> (code: TokenStream)
    ensures
        tokens(code) == from_usize_arm_array_code(named(*upper), id as nat),
{
    proof {
        lemma_words();
    }
    Code::new()
        .number(id).fat_arrow().word("Self").colons().ident(upper)
        .paren(Code::new().word("None")).punct(',').done()
}

/// `target::upper => name,`.
pub open spec fn name_arm_code(target: Named, upper: Named, name: Seq<char>) -> Seq<Tok> {
    no_code()
        .name(target).colons().name(upper).fat_arrow().string_at(name, upper.place).punct(',')
}

pub fn name_arm(target: &Ident, upper: &Ident, name: &str) -> (code: TokenStream)
    requires
        is_plain(name@),
    ensures
        tokens(code) == name_arm_code(named(*target), named(*upper), name@),
{
    Code::new()
        .ident(target).colons().ident(upper).fat_arrow().string_at(name, upper).punct(',')
        .done()
}

/// `target::upper(_) => name,`.
pub open spec fn name_arm_array_code(target: Named, upper: Named, name: Seq<char>) -> Seq<Tok> {
    no_code()
        .name(target).colons().name(upper).paren(no_code().word("_"@)).fat_arrow()
        .string_at(name, upper.place).punct(',')
}

pub fn name_arm_array(target: &Ident, upper: &Ident, name: &str) -> (code: TokenStream)
    requires
        is_plain(name@),
    ensures
        tokens(code) == name_arm_array_code(named(*target), named(*upper), name@),
{
    proof {
        lemma_words();
    }
    Code::new()
        .ident(target).colons().ident(upper).paren(Code::new().word("_")).fat_arrow()
        .string_at(name, upper).punct(',').done()
}

/// `GLOBAL_SENDER,`.
pub open spec fn last_variant_code() -> Seq<Tok> {
    no_code().word("GLOBAL_SENDER"@).punct(',')
}

fn last_variant() -> (code: TokenStream)
    ensures
        tokens(code) == last_variant_code(),
{
    proof {
        lemma_words();
    }
    Code::new().word("GLOBAL_SENDER").punct(',').done()
}

/// `Self::GLOBAL_SENDER => usize::MAX,`.
pub open spec fn last_id_arm_code() -> Seq<Tok> {
    no_code()
        .word("Self"@).colons().word("GLOBAL_SENDER"@).fat_arrow().word("usize"@).colons()
        .word("MAX"@).punct(',')
}

fn last_id_arm() -> (code: TokenStream)
    ensures
        tokens(code) == last_id_arm_code(),
{
    proof {
        lemma_words();
    }
    Code::new()
        .word("Self").colons().word("GLOBAL_SENDER").fat_arrow().word("usize").colons()
        .word("MAX").punct(',').done()
}

/// `_ => target::GLOBAL_SENDER`.
pub open spec fn last_from_id_arm_code(target: Named) -> Seq<Tok> {
    no_code().word("_"@).fat_arrow().name(target).colons().word("GLOBAL_SENDER"@)
}

fn last_from_id_arm(target: &Ident) -> (code: TokenStream)
    ensures
        tokens(code) == last_from_id_arm_code(named(*target)),
{
    proof {
        lemma_words();
    }
    Code::new().word("_").fat_arrow().ident(target).colons().word("GLOBAL_SENDER").done()
}

/// `target::GLOBAL_SENDER => crate_path::ID::new(usize::MAX).set_name(target.into())`.
pub open spec fn last_into_id_arm_code(crate_path: Seq<Tok>, target: Named) -> Seq<Tok> {
    no_code()
        .name(target).colons().word("GLOBAL_SENDER"@).fat_arrow().code(crate_path).colons()
        .word("ID"@).colons().word("new"@).paren(no_code().word("usize"@).colons().word("MAX"@))
        .punct('.').word("set_name"@)
        .paren(no_code().word("target"@).punct('.').word("into"@).paren(no_code()))
}

fn last_into_id_arm(crate_path: &TokenStream, target: &Ident) -> (code: TokenStream)
    ensures
        tokens(code) == last_into_id_arm_code(tokens(*crate_path), named(*target)),
{
    proof {
        lemma_words();
    }
    Code::new()
        .ident(target).colons().word("GLOBAL_SENDER").fat_arrow().code(crate_path).colons()
        .word("ID").colons().word("new").paren(Code::new().word("usize").colons().word("MAX"))
        .punct('.').word("set_name")
        .paren(Code::new().word("target").punct('.').word("into").paren(Code::new())).done()
}

/// `_ => Self::GLOBAL_SENDER,`.
pub open spec fn last_from_usize_arm_code() -> Seq<Tok> {
    no_code().word("_"@).fat_arrow().word("Self"@).colons().word("GLOBAL_SENDER"@).punct(',')
}

fn last_from_usize_arm() -> (code: TokenStream)
    ensures
        tokens(code) == last_from_usize_arm_code(),
{
    proof {
        lemma_words();
    }
    Code::new().word("_").fat_arrow().word("Self").colons().word("GLOBAL_SENDER").punct(',')
        .done()
}

/// `target::GLOBAL_SENDER => "Global"`.
pub open spec fn last_name_arm_code(target: Named) -> Seq<Tok> {
    no_code().name(target).colons().word("GLOBAL_SENDER"@).fat_arrow().string("Global"@)
}

fn last_name_arm(target: &Ident) -> (code: TokenStream)
    ensures
        tokens(code) == last_name_arm_code(named(*target)),
{
    proof {
        lemma_words();
        reveal_strlit("Global");
    }
    Code::new().ident(target).colons().word("GLOBAL_SENDER").fat_arrow().string("Global").done()
}

/// Whether a field holds its services more than once, so that its target has an index.
pub open spec fn is_indexed(shape: ShapeModel) -> bool {
    shape is Array
}

/// The entry of a service, under the `cfg` attribute of its field.
pub open spec fn entry_code(
    table: Table,
    crate_path: Seq<Tok>,
    target: Named,
    serv: PlanModel,
) -> Seq<Tok> {
    let upper = serv.upper;
    let name = upper_camel(upper.text);
    serv.attr + if is_indexed(serv.shape) {
        match table {
            Table::Variants => variant_array_code(upper),
            Table::Ids => id_arm_array_code(upper, serv.id),
            Table::FromId => from_id_arm_array_code(upper, serv.id),
            Table::IntoId => into_id_arm_array_code(crate_path, target, upper, serv.id),
            Table::FromUsize => from_usize_arm_array_code(upper, serv.id),
            Table::Names => name_arm_array_code(target, upper, name),
        }
    } else {
        match table {
            Table::Variants => variant_code(upper),
            Table::Ids => id_arm_code(upper, serv.id),
            Table::FromId => from_id_arm_code(upper, serv.id),
            Table::IntoId => into_id_arm_code(crate_path, target, upper, serv.id),
            Table::FromUsize => from_id_arm_code(upper, serv.id),
            Table::Names => name_arm_code(target, upper, name),
        }
    }
}

/// The entries of the services, in order.
pub open spec fn entries_code(
    table: Table,
    crate_path: Seq<Tok>,
    target: Named,
    servs: Seq<PlanModel>,
) -> Seq<Tok>
    decreases servs.len(),
{
    if servs.len() == 0 {
        no_code()
    } else {
        entries_code(table, crate_path, target, servs.drop_last()) + entry_code(
            table,
            crate_path,
            target,
            servs.last(),
        )
    }
}

/// The entry of a service.
fn entry(table: Table, crate_path: &TokenStream, target: &Ident, serv: &Services) -> (code:
    TokenStream)
    ensures
        tokens(code) == entry_code(table, tokens(*crate_path), named(*target), plan(serv@)),
{
    let upper = &serv.upper;
    let inner = if let FieldTypes::Array(_, _) = &serv.ty {
        match table {
            Table::Variants => variant_array(upper),
            Table::Ids => id_arm_array(upper, serv.id),
            Table::FromId => from_id_arm_array(upper, serv.id),
            Table::IntoId => into_id_arm_array(crate_path, target, upper, serv.id),
            Table::FromUsize => from_usize_arm_array(upper, serv.id),
            Table::Names => {
                let name = to_upper_camel(text_of(upper).as_str());
                proof {
                    lemma_alphanumeric_plain(name@);
                }
                name_arm_array(target, upper, name.as_str())
            },
        }
    } else {
        match table {
            Table::Variants => variant(upper),
            Table::Ids => id_arm(upper, serv.id),
            Table::FromId => from_id_arm(upper, serv.id),
            Table::IntoId => into_id_arm(crate_path, target, upper, serv.id),
            Table::FromUsize => from_id_arm(upper, serv.id),
            Table::Names => {
                let name = to_upper_camel(text_of(upper).as_str());
                proof {
                    lemma_alphanumeric_plain(name@);
                }
                name_arm(target, upper, name.as_str())
            },
        }
    };
    let mut code = serv.attr.clone();
    push_stream(&mut code, &inner);
    code
}

/// The entries of the services, in order.
fn entries(
    table: Table,
    crate_path: &TokenStream,
    target: &Ident,
    servs: &Vec<Services>,
) -> (code: TokenStream)
    ensures
        tokens(code) == entries_code(
            table,
            tokens(*crate_path),
            named(*target),
            plan_views(servs@),
        ),
{
    let ghost all = plan_views(servs@);
    let mut code = TokenStream::new();
    let mut i: usize = 0;
    while i < servs.len()
        invariant
            i <= servs.len(),
            all == plan_views(servs@),
            tokens(code) == entries_code(
                table,
                tokens(*crate_path),
                named(*target),
                all.take(i as int),
            ),
        decreases servs.len() - i,
    {
        assert(all.take(i + 1).drop_last() == all.take(i as int));
        assert(all.take(i + 1).last() == plan(servs[i as int]@));
        push_stream(&mut code, &entry(table, crate_path, target, &servs[i]));
        i += 1;
    }
    assert(all.take(i as int) == all);
    code
}

/// The entry of the target of senders that are no service. It comes after all the others.
pub open spec fn last_code(table: Table, crate_path: Seq<Tok>, target: Named) -> Seq<Tok> {
    match table {
        Table::Variants => last_variant_code(),
        Table::Ids => last_id_arm_code(),
        Table::FromId => last_from_id_arm_code(target),
        Table::IntoId => last_into_id_arm_code(crate_path, target),
        Table::FromUsize => last_from_usize_arm_code(),
        Table::Names => last_name_arm_code(target),
    }
}

/// A whole list: the entries of the services, in order, then the last entry.
pub open spec fn table_code(
    table: Table,
    crate_path: Seq<Tok>,
    target: Named,
    servs: Seq<PlanModel>,
) -> Seq<Tok> {
    entries_code(table, crate_path, target, servs) + last_code(table, crate_path, target)
}

/// Writes a whole list.
fn write_table(
    table: Table,
    crate_path: &TokenStream,
    target: &Ident,
    servs: &Vec<Services>,
) -> (code: TokenStream)
    ensures
        tokens(code) == table_code(
            table,
            tokens(*crate_path),
            named(*target),
            plan_views(servs@),
        ),
{
    let mut code = entries(table, crate_path, target, servs);
    let last = match table {
        Table::Variants => last_variant(),
        Table::Ids => last_id_arm(),
        Table::FromId => last_from_id_arm(target),
        Table::IntoId => last_into_id_arm(crate_path, target),
        Table::FromUsize => last_from_usize_arm(),
        Table::Names => last_name_arm(target),
    };
    push_stream(&mut code, &last);
    code
}

/// `#[derive(Debug, Clone, Copy, PartialEq, Eq)] vis enum target { variants }`.
pub open spec fn enum_item_code(vis: Seq<Tok>, target: Named, variants: Seq<Tok>) -> Seq<Tok> {
    no_code()
        .punct('#').bracket(
            no_code()
                .word("derive"@).paren(
                    no_code()
                        .word("Debug"@).punct(',').word("Clone"@).punct(',').word("Copy"@)
                        .punct(',').word("PartialEq"@).punct(',').word("Eq"@),
                ),
        ).code(vis).word("enum"@).name(target).brace(no_code().code(variants))
}

fn enum_item(vis: &TokenStream, target: &Ident, variants: &TokenStream) -> (code: TokenStream)
    ensures
        tokens(code) == enum_item_code(tokens(*vis), named(*target), tokens(*variants)),
{
    proof {
        lemma_words();
    }
    Code::new()
        .punct('#').bracket(
            Code::new()
                .word("derive").paren(
                    Code::new()
                        .word("Debug").punct(',').word("Clone").punct(',').word("Copy")
                        .punct(',').word("PartialEq").punct(',').word("Eq"),
                ),
        ).code(vis).word("enum").ident(target).brace(Code::new().code(variants)).done()
}

/// `impl target { pub const fn id(&self) -> usize { match self { arms } } }`.
pub open spec fn id_impl_code(target: Named, arms: Seq<Tok>) -> Seq<Tok> {
    no_code()
        .word("impl"@).name(target).brace(
            no_code()
                .word("pub"@).word("const"@).word("fn"@).word("id"@)
                .paren(no_code().punct('&').word("self"@)).arrow().word("usize"@)
                .brace(no_code().word("match"@).word("self"@).brace(no_code().code(arms))),
        )
}

fn id_impl(target: &Ident, arms: &TokenStream) -> (code: TokenStream)
    ensures
        tokens(code) == id_impl_code(named(*target), tokens(*arms)),
{
    proof {
        lemma_words();
    }
    Code::new()
        .word("impl").ident(target).brace(
            Code::new()
                .word("pub").word("const").word("fn").word("id")
                .paren(Code::new().punct('&').word("self")).arrow().word("usize")
                .brace(Code::new().word("match").word("self").brace(Code::new().code(arms))),
        ).done()
}

/// `impl From<crate_path::ID> for target { fn from(id: crate_path::ID) -> Self { match id.id() {
/// arms } } }`.
pub open spec fn from_id_impl_code(
    crate_path: Seq<Tok>,
    target: Named,
    arms: Seq<Tok>,
) -> Seq<Tok> {
    no_code()
        .word("impl"@).word("From"@).punct('<').code(crate_path).colons().word("ID"@).punct('>')
        .word("for"@).name(target).brace(
            no_code()
                .word("fn"@).word("from"@)
                .paren(no_code().word("id"@).punct(':').code(crate_path).colons().word("ID"@))
                .arrow().word("Self"@).brace(
                    no_code()
                        .word("match"@).word("id"@).punct('.').word("id"@).paren(no_code())
                        .brace(no_code().code(arms)),
                ),
        )
}

fn from_id_impl(crate_path: &TokenStream, target: &Ident, arms: &TokenStream) -> (code: TokenStream)
    ensures
        tokens(code) == from_id_impl_code(tokens(*crate_path), named(*target), tokens(*arms)),
{
    proof {
        lemma_words();
    }
    Code::new()
        .word("impl").word("From").punct('<').code(crate_path).colons().word("ID").punct('>')
        .word("for").ident(target).brace(
            Code::new()
                .word("fn").word("from")
                .paren(Code::new().word("id").punct(':').code(crate_path).colons().word("ID"))
                .arrow().word("Self").brace(
                    Code::new()
                        .word("match").word("id").punct('.').word("id").paren(Code::new())
                        .brace(Code::new().code(arms)),
                ),
        ).done()
}

/// `impl From<target> for crate_path::ID { fn from(target: target) -> Self { match target { arms }
/// } }`.
pub open spec fn into_id_impl_code(
    crate_path: Seq<Tok>,
    target: Named,
    arms: Seq<Tok>,
) -> Seq<Tok> {
    no_code()
        .word("impl"@).word("From"@).punct('<').name(target).punct('>').word("for"@)
        .code(crate_path).colons().word("ID"@).brace(
            no_code()
                .word("fn"@).word("from"@)
                .paren(no_code().word("target"@).punct(':').name(target)).arrow().word("Self"@)
                .brace(no_code().word("match"@).word("target"@).brace(no_code().code(arms))),
        )
}

fn into_id_impl(crate_path: &TokenStream, target: &Ident, arms: &TokenStream) -> (code: TokenStream)
    ensures
        tokens(code) == into_id_impl_code(tokens(*crate_path), named(*target), tokens(*arms)),
{
    proof {
        lemma_words();
    }
    Code::new()
        .word("impl").word("From").punct('<').ident(target).punct('>').word("for")
        .code(crate_path).colons().word("ID").brace(
            Code::new()
                .word("fn").word("from")
                .paren(Code::new().word("target").punct(':').ident(target)).arrow().word("Self")
                .brace(Code::new().word("match").word("target").brace(Code::new().code(arms))),
        ).done()
}

/// `impl From<usize> for target { fn from(id: usize) -> Self { match id { arms } } }`.
pub open spec fn from_usize_impl_code(target: Named, arms: Seq<Tok>) -> Seq<Tok> {
    no_code()
        .word("impl"@).word("From"@).punct('<').word("usize"@).punct('>').word("for"@)
        .name(target).brace(
            no_code()
                .word("fn"@).word("from"@)
                .paren(no_code().word("id"@).punct(':').word("usize"@)).arrow().word("Self"@)
                .brace(no_code().word("match"@).word("id"@).brace(no_code().code(arms))),
        )
}

fn from_usize_impl(target: &Ident, arms: &TokenStream) -> (code: TokenStream)
    ensures
        tokens(code) == from_usize_impl_code(named(*target), tokens(*arms)),
{
    proof {
        lemma_words();
    }
    Code::new()
        .word("impl").word("From").punct('<').word("usize").punct('>').word("for").ident(target)
        .brace(
            Code::new()
                .word("fn").word("from").paren(Code::new().word("id").punct(':').word("usize"))
                .arrow().word("Self")
                .brace(Code::new().word("match").word("id").brace(Code::new().code(arms))),
        ).done()
}

/// `impl From<target> for &'static str { fn from(target: target) -> Self { match target { arms } }
/// }`.
pub open spec fn name_impl_code(target: Named, arms: Seq<Tok>) -> Seq<Tok> {
    no_code()
        .word("impl"@).word("From"@).punct('<').name(target).punct('>').word("for"@).punct('&')
        .lifetime("static"@).word("str"@).brace(
            no_code()
                .word("fn"@).word("from"@)
                .paren(no_code().word("target"@).punct(':').name(target)).arrow().word("Self"@)
                .brace(no_code().word("match"@).word("target"@).brace(no_code().code(arms))),
        )
}

fn name_impl(target: &Ident, arms: &TokenStream) -> (code: TokenStream)
    ensures
        tokens(code) == name_impl_code(named(*target), tokens(*arms)),
{
    proof {
        lemma_words();
    }
    Code::new()
        .word("impl").word("From").punct('<').ident(target).punct('>').word("for").punct('&')
        .lifetime("static").word("str").brace(
            Code::new()
                .word("fn").word("from")
                .paren(Code::new().word("target").punct(':').ident(target)).arrow().word("Self")
                .brace(Code::new().word("match").word("target").brace(Code::new().code(arms))),
        ).done()
}

/// The enum of targets, one for each service and one for senders that are none, with its
/// conversions from and to numbers and identifiers, and its names.
pub open spec fn targets_code(
    vis: Seq<Tok>,
    crate_path: Seq<Tok>,
    target: Named,
    servs: Seq<PlanModel>,
) -> Seq<Tok> {
    no_code()
        .code(enum_item_code(
            vis,
            target,
            table_code(Table::Variants, crate_path, target, servs),
        ))
        .code(id_impl_code(target, table_code(Table::Ids, crate_path, target, servs)))
        .code(from_id_impl_code(
            crate_path,
            target,
            table_code(Table::FromId, crate_path, target, servs),
        ))
        .code(into_id_impl_code(
            crate_path,
            target,
            table_code(Table::IntoId, crate_path, target, servs),
        ))
        .code(from_usize_impl_code(
            target,
            table_code(Table::FromUsize, crate_path, target, servs),
        ))
        .code(name_impl_code(target, table_code(Table::Names, crate_path, target, servs)))
}

/// Writes the enum of targets.
pub fn targets(
    vis: &TokenStream,
    crate_path: &TokenStream,
    target: &Ident,
    servs: &Vec<Services>,
) -> (code: TokenStream)
    ensures
        tokens(code) == targets_code(
            tokens(*vis),
            tokens(*crate_path),
            named(*target),
            plan_views(servs@),
        ),
{
    let variants = write_table(Table::Variants, crate_path, target, servs);
    let ids = write_table(Table::Ids, crate_path, target, servs);
    let from_id = write_table(Table::FromId, crate_path, target, servs);
    let into_id = write_table(Table::IntoId, crate_path, target, servs);
    let from_usize = write_table(Table::FromUsize, crate_path, target, servs);
    let names = write_table(Table::Names, crate_path, target, servs);
    Code::new()
        .code(&enum_item(vis, target, &variants))
        .code(&id_impl(target, &ids))
        .code(&from_id_impl(crate_path, target, &from_id))
        .code(&into_id_impl(crate_path, target, &into_id))
        .code(&from_usize_impl(target, &from_usize))
        .code(&name_impl(target, &names))
        .done()
}

/// No two different numbers are written alike.
pub proof fn law_written_numbers_differ(i: nat, j: nat)
    ensures
        no_code().number(i) == no_code().number(j) ==> i == j,
{
    let a = decimal(i);
    let b = decimal(j);
    if no_code().number(i) == no_code().number(j) {
        assert(no_code().number(i)[0] == no_code().number(j)[0]);
        assert(a + "usize"@ == b + "usize"@);
        assert(a.len() + "usize"@.len() == (a + "usize"@).len());
        assert(b.len() + "usize"@.len() == (b + "usize"@).len());
        assert(a =~= (a + "usize"@).take(a.len() as int));
        assert(b =~= (b + "usize"@).take(b.len() as int));
        law_decimal_injective(i, j);
    }
}

/// Each table has the entries of the services one after the other.
pub proof fn law_entries_in_order(
    table: Table,
    crate_path: Seq<Tok>,
    target: Named,
    servs: Seq<PlanModel>,
    more: Seq<PlanModel>,
)
    ensures
        entries_code(table, crate_path, target, servs + more) == entries_code(
            table,
            crate_path,
            target,
            servs,
        ) + entries_code(table, crate_path, target, more),
    decreases more.len(),
{
    if more.len() == 0 {
        assert(servs + more == servs);
    } else {
        law_entries_in_order(table, crate_path, target, servs, more.drop_last());
        assert((servs + more).drop_last() == servs + more.drop_last());
    }
}

/// Each entry stands under the `cfg` attribute of its field.
pub proof fn law_entries_under_cfg(
    table: Table,
    crate_path: Seq<Tok>,
    target: Named,
    serv: PlanModel,
)
    ensures
        serv.attr.is_prefix_of(entry_code(table, crate_path, target, serv)),
{
}

} // verus!
