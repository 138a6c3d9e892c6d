//! Channels to the services, and their initialisation.

use proc_macro2::{Ident, TokenStream};
use vstd::prelude::*;

use crate::code::{lemma_words, no_code, Code, Snippet};
use crate::field::{shape, FieldTypes, ShapeModel};
use crate::ident::{named, Named};
use crate::service::{plan, plan_views, PlanModel, Services};
use crate::slot::{is_nested, none_nested};
use crate::token::{push_stream, tokens, Tok};

verus! {

/// `attr pub fn ident(&self) -> crate_path::Channel<'_, Self, target, { target::upper.id() }> {
/// crate_path::Channel::new(&self, target::upper) }`.
pub open spec fn channel_fn_code(
    attr: Seq<Tok>,
    crate_path: Seq<Tok>,
    target: Named,
    ident: Named,
    upper: Named,
) -> Seq<Tok> {
    no_code()
        .code(attr).word("pub"@).word("fn"@).name(ident)
        .paren(no_code().punct('&').word("self"@)).arrow().code(crate_path).colons()
        .word("Channel"@).punct('<').lifetime("_"@).punct(',').word("Self"@).punct(',')
        .name(target).punct(',').brace(
            no_code().name(target).colons().name(upper).punct('.').word("id"@).paren(no_code()),
        ).punct('>').brace(
            no_code()
                .code(crate_path).colons().word("Channel"@).colons().word("new"@).paren(
                    no_code()
                        .punct('&').word("self"@).punct(',').name(target).colons().name(upper),
                ),
        )
}

fn channel_fn(
    attr: &TokenStream,
    crate_path: &TokenStream,
    target: &Ident,
    ident: &Ident,
    upper: &Ident,
) -> (code: TokenStream)
    ensures
        tokens(code) == channel_fn_code(
            tokens(*attr),
            tokens(*crate_path),
            named(*target),
            named(*ident),
            named(*upper),
        ),
{
    proof {
        lemma_words();
    }
    Code::new()
        .code(attr).word("pub").word("fn").ident(ident)
        .paren(Code::new().punct('&').word("self")).arrow().code(crate_path).colons()
        .word("Channel").punct('<').lifetime("_").punct(',').word("Self").punct(',')
        .ident(target).punct(',').brace(
            Code::new()
                .ident(target).colons().ident(upper).punct('.').word("id").paren(Code::new()),
        ).punct('>').brace(
            Code::new()
                .code(crate_path).colons().word("Channel").colons().word("new").paren(
                    Code::new()
                        .punct('&').word("self").punct(',').ident(target).colons().ident(upper),
                ),
        ).done()
}

/// `attr pub fn ident(&self) -> crate_path::Channels<'_, { len }, Self, target, {
/// target::upper(None).id() }> { crate_path::Channels::new(&self, target::upper(None)) }`.
pub open spec fn channels_fn_code(
    attr: Seq<Tok>,
    crate_path: Seq<Tok>,
    target: Named,
    ident: Named,
    upper: Named,
    len: Seq<Tok>,
) -> Seq<Tok> {
    no_code()
        .code(attr).word("pub"@).word("fn"@).name(ident)
        .paren(no_code().punct('&').word("self"@)).arrow().code(crate_path).colons()
        .word("Channels"@).punct('<').lifetime("_"@).punct(',').brace(no_code().code(len))
        .punct(',').word("Self"@).punct(',').name(target).punct(',').brace(
            no_code()
                .name(target).colons().name(upper).paren(no_code().word("None"@)).punct('.')
                .word("id"@).paren(no_code()),
        ).punct('>').brace(
            no_code()
                .code(crate_path).colons().word("Channels"@).colons().word("new"@).paren(
                    no_code()
                        .punct('&').word("self"@).punct(',').name(target).colons().name(upper)
                        .paren(no_code().word("None"@)),
                ),
        )
}

fn channels_fn(
    attr: &TokenStream,
    crate_path: &TokenStream,
    target: &Ident,
    ident: &Ident,
    upper: &Ident,
    len: &TokenStream,
) -> (code: TokenStream)
    ensures
        tokens(code) == channels_fn_code(
            tokens(*attr),
            tokens(*crate_path),
            named(*target),
            named(*ident),
            named(*upper),
            tokens(*len),
        ),
{
    proof {
        lemma_words();
    }
    Code::new()
        .code(attr).word("pub").word("fn").ident(ident)
        .paren(Code::new().punct('&').word("self")).arrow().code(crate_path).colons()
        .word("Channels").punct('<').lifetime("_").punct(',').brace(Code::new().code(len))
        .punct(',').word("Self").punct(',').ident(target).punct(',').brace(
            Code::new()
                .ident(target).colons().ident(upper).paren(Code::new().word("None")).punct('.')
                .word("id").paren(Code::new()),
        ).punct('>').brace(
            Code::new()
                .code(crate_path).colons().word("Channels").colons().word("new").paren(
                    Code::new()
                        .punct('&').word("self").punct(',').ident(target).colons().ident(upper)
                        .paren(Code::new().word("None")),
                ),
        ).done()
}

/// `attr self.ident.init(target::upper);`.
pub open spec fn init_one_code(
    attr: Seq<Tok>,
    target: Named,
    ident: Named,
    upper: Named,
) -> Seq<Tok> {
    no_code()
        .code(attr).word("self"@).punct('.').name(ident).punct('.').word("init"@)
        .paren(no_code().name(target).colons().name(upper)).punct(';')
}

fn init_one(attr: &TokenStream, target: &Ident, ident: &Ident, upper: &Ident) -> (code: TokenStream)
    ensures
        tokens(code) == init_one_code(tokens(*attr), named(*target), named(*ident), named(*upper)),
{
    proof {
        lemma_words();
    }
    Code::new()
        .code(attr).word("self").punct('.').ident(ident).punct('.').word("init")
        .paren(Code::new().ident(target).colons().ident(upper)).punct(';').done()
}

/// `attr self.ident.index.init(target::upper);`.
pub open spec fn init_part_code(
    attr: Seq<Tok>,
    target: Named,
    ident: Named,
    index: nat,
    upper: Named,
) -> Seq<Tok> {
    no_code()
        .code(attr).word("self"@).punct('.').name(ident).punct('.').digits(index).punct('.')
        .word("init"@).paren(no_code().name(target).colons().name(upper)).punct(';')
}

fn init_part(
    attr: &TokenStream,
    target: &Ident,
    ident: &Ident,
    index: usize,
    upper: &Ident,
) -> (code: TokenStream)
    ensures
        tokens(code) == init_part_code(
            tokens(*attr),
            named(*target),
            named(*ident),
            index as nat,
            named(*upper),
        ),
{
    proof {
        lemma_words();
    }
    Code::new()
        .code(attr).word("self").punct('.').ident(ident).punct('.').digits(index).punct('.')
        .word("init").paren(Code::new().ident(target).colons().ident(upper)).punct(';').done()
}

/// `ident.init(id)`.
pub open spec fn init_item_code(ident: Named) -> Seq<Tok> {
    no_code().name(ident).punct('.').word("init"@).paren(no_code().word("id"@))
}

fn init_item(ident: &Ident) -> (code: TokenStream)
    ensures
        tokens(code) == init_item_code(named(*ident)),
{
    proof {
        lemma_words();
    }
    Code::new().ident(ident).punct('.').word("init").paren(Code::new().word("id")).done()
}

/// `ident.index.init(id);`.
pub open spec fn init_item_part_code(ident: Named, index: nat) -> Seq<Tok> {
    no_code()
        .name(ident).punct('.').digits(index).punct('.').word("init"@)
        .paren(no_code().word("id"@)).punct(';')
}

fn init_item_part(ident: &Ident, index: usize) -> (code: TokenStream)
    ensures
        tokens(code) == init_item_part_code(named(*ident), index as nat),
{
    proof {
        lemma_words();
    }
    Code::new()
        .ident(ident).punct('.').digits(index).punct('.').word("init")
        .paren(Code::new().word("id")).punct(';').done()
}

/// `attr crate_path::Service::array(target::upper(None), &mut self.ident, |id, ident| { body });`.
pub open spec fn init_array_code(
    attr: Seq<Tok>,
    crate_path: Seq<Tok>,
    target: Named,
    ident: Named,
    upper: Named,
    body: Seq<Tok>,
) -> Seq<Tok> {
    no_code()
        .code(attr).code(crate_path).colons().word("Service"@).colons().word("array"@).paren(
            no_code()
                .name(target).colons().name(upper).paren(no_code().word("None"@)).punct(',')
                .punct('&').word("mut"@).word("self"@).punct('.').name(ident).punct(',')
                .punct('|').word("id"@).punct(',').name(ident).punct('|')
                .brace(no_code().code(body)),
        ).punct(';')
}

fn init_array(
    attr: &TokenStream,
    crate_path: &TokenStream,
    target: &Ident,
    ident: &Ident,
    upper: &Ident,
    body: &TokenStream,
) -> (code: TokenStream)
    ensures
        tokens(code) == init_array_code(
            tokens(*attr),
            tokens(*crate_path),
            named(*target),
            named(*ident),
            named(*upper),
            tokens(*body),
        ),
{
    proof {
        lemma_words();
    }
    Code::new()
        .code(attr).code(crate_path).colons().word("Service").colons().word("array").paren(
            Code::new()
                .ident(target).colons().ident(upper).paren(Code::new().word("None")).punct(',')
                .punct('&').word("mut").word("self").punct('.').ident(ident).punct(',')
                .punct('|').word("id").punct(',').ident(ident).punct('|')
                .brace(Code::new().code(body)),
        ).punct(';').done()
}

/// `impl name { methods pub fn init_notifier(&mut self) { init } }`.
pub open spec fn access_impl_code(name: Named, methods: Seq<Tok>, init: Seq<Tok>) -> Seq<Tok> {
    no_code()
        .word("impl"@).name(name).brace(
            no_code()
                .code(methods).word("pub"@).word("fn"@).word("init_notifier"@)
                .paren(no_code().punct('&').word("mut"@).word("self"@))
                .brace(no_code().code(init)),
        )
}

fn access_impl(name: &Ident, methods: &TokenStream, init: &TokenStream) -> (code: TokenStream)
    ensures
        tokens(code) == access_impl_code(named(*name), tokens(*methods), tokens(*init)),
{
    proof {
        lemma_words();
    }
    Code::new()
        .word("impl").ident(name).brace(
            Code::new()
                .code(methods).word("pub").word("fn").word("init_notifier")
                .paren(Code::new().punct('&').word("mut").word("self"))
                .brace(Code::new().code(init)),
        ).done()
}

/// The method that opens the channel of a service, or the channels of an array.
pub open spec fn method_code(
    crate_path: Seq<Tok>,
    target: Named,
    serv: PlanModel,
) -> Seq<Tok> {
    match serv.shape {
        ShapeModel::Array(_, len) => channels_fn_code(
            serv.attr,
            crate_path,
            target,
            serv.ident,
            serv.upper,
            len,
        ),
        _ => channel_fn_code(serv.attr, crate_path, target, serv.ident, serv.upper),
    }
}

/// The methods of the services, in order.
pub open spec fn methods_code(
    crate_path: Seq<Tok>,
    target: Named,
    servs: Seq<PlanModel>,
) -> Seq<Tok>
    decreases servs.len(),
{
    if servs.len() == 0 {
        no_code()
    } else {
        methods_code(crate_path, target, servs.drop_last()) + method_code(
            crate_path,
            target,
            servs.last(),
        )
    }
}

/// What initialises the first `n` parts of a group.
pub open spec fn init_parts_code(target: Named, serv: PlanModel, n: nat) -> Seq<Tok>
    decreases n,
{
    if n == 0 {
        no_code()
    } else {
        init_parts_code(target, serv, (n - 1) as nat) + init_part_code(
            serv.attr,
            target,
            serv.ident,
            (n - 1) as nat,
            serv.upper,
        )
    }
}

/// What initialises the first `n` parts of an item of an array.
pub open spec fn init_item_parts_code(ident: Named, n: nat) -> Seq<Tok>
    decreases n,
{
    if n == 0 {
        no_code()
    } else {
        init_item_parts_code(ident, (n - 1) as nat) + init_item_part_code(ident, (n - 1) as nat)
    }
}

/// What initialises an item of an array.
pub open spec fn item_body_code(ident: Named, item: ShapeModel) -> Seq<Tok> {
    match item {
        ShapeModel::Once(_) => init_item_code(ident),
        ShapeModel::Tuple(list) => init_item_parts_code(ident, list.len()),
        ShapeModel::Array(_, _) => no_code(),
    }
}

/// What initialises a service.
pub open spec fn init_code(
    crate_path: Seq<Tok>,
    target: Named,
    serv: PlanModel,
) -> Seq<Tok> {
    match serv.shape {
        ShapeModel::Once(_) => init_one_code(serv.attr, target, serv.ident, serv.upper),
        ShapeModel::Tuple(list) => init_parts_code(target, serv, list.len()),
        ShapeModel::Array(item, _) => init_array_code(
            serv.attr,
            crate_path,
            target,
            serv.ident,
            serv.upper,
            item_body_code(serv.ident, *item),
        ),
    }
}

/// What initialises the services, in order.
pub open spec fn inits_code(
    crate_path: Seq<Tok>,
    target: Named,
    servs: Seq<PlanModel>,
) -> Seq<Tok>
    decreases servs.len(),
{
    if servs.len() == 0 {
        no_code()
    } else {
        inits_code(crate_path, target, servs.drop_last()) + init_code(
            crate_path,
            target,
            servs.last(),
        )
    }
}

/// The impl with a method for each service and the one that initialises them all.
pub open spec fn access_code(
    name: Named,
    crate_path: Seq<Tok>,
    target: Named,
    servs: Seq<PlanModel>,
) -> Seq<Tok> {
    access_impl_code(
        name,
        methods_code(crate_path, target, servs),
        inits_code(crate_path, target, servs),
    )
}

/// The method that opens the channel of a service, or the channels of an array.
fn method(crate_path: &TokenStream, target: &Ident, serv: &Services) -> (code: TokenStream)
    ensures
        tokens(code) == method_code(tokens(*crate_path), named(*target), plan(serv@)),
{
    match &serv.ty {
        FieldTypes::Array(_, len) => channels_fn(
            &serv.attr,
            crate_path,
            target,
            &serv.ident,
            &serv.upper,
            len,
        ),
        _ => channel_fn(&serv.attr, crate_path, target, &serv.ident, &serv.upper),
    }
}

/// What initialises the parts of a group.
fn init_parts(target: &Ident, serv: &Services, n: usize) -> (code: TokenStream)
    ensures
        tokens(code) == init_parts_code(named(*target), plan(serv@), n as nat),
{
    let mut code = TokenStream::new();
    let mut k: usize = 0;
    while k < n
        invariant
            k <= n,
            tokens(code) == init_parts_code(named(*target), plan(serv@), k as nat),
        decreases n - k,
    {
        push_stream(&mut code, &init_part(&serv.attr, target, &serv.ident, k, &serv.upper));
        k += 1;
    }
    code
}

/// What initialises an item of an array.
fn item_body(ident: &Ident, item: &FieldTypes) -> (code: TokenStream)
    requires
        !(shape(item@) is Array),
    ensures
        tokens(code) == item_body_code(named(*ident), shape(item@)),
{
    match item {
        FieldTypes::Once(_, _) => init_item(ident),
        FieldTypes::Tuple(list) => {
            let mut code = TokenStream::new();
            let mut k: usize = 0;
            while k < list.len()
                invariant
                    k <= list.len(),
                    tokens(code) == init_item_parts_code(named(*ident), k as nat),
                decreases list.len() - k,
            {
                push_stream(&mut code, &init_item_part(ident, k));
                k += 1;
            }
            assert(shape(item@)->Tuple_0.len() == list.len());
            code
        },
        FieldTypes::Array(_, _) => TokenStream::new(),
    }
}

/// What initialises a service.
fn init(crate_path: &TokenStream, target: &Ident, serv: &Services) -> (code: TokenStream)
    requires
        !is_nested(plan(serv@).shape),
    ensures
        tokens(code) == init_code(tokens(*crate_path), named(*target), plan(serv@)),
{
    match &serv.ty {
        FieldTypes::Once(_, _) => init_one(&serv.attr, target, &serv.ident, &serv.upper),
        FieldTypes::Tuple(list) => {
            assert(plan(serv@).shape->Tuple_0.len() == list.len());
            init_parts(target, serv, list.len())
        },
        FieldTypes::Array(item, _) => {
            let body = item_body(&serv.ident, item);
            init_array(&serv.attr, crate_path, target, &serv.ident, &serv.upper, &body)
        },
    }
}

/// Writes the methods that open channels and the one that initialises the services.
pub fn access(
    name: &Ident,
    crate_path: &TokenStream,
    target: &Ident,
    servs: &Vec<Services>,
) -> (code: TokenStream)
    requires
        none_nested(plan_views(servs@)),
    ensures
        tokens(code) == access_code(
            named(*name),
            tokens(*crate_path),
            named(*target),
            plan_views(servs@),
        ),
{
    let ghost all = plan_views(servs@);
    let mut methods = TokenStream::new();
    let mut inits = TokenStream::new();
    let mut i: usize = 0;
    while i < servs.len()
        invariant
            i <= servs.len(),
            all == plan_views(servs@),
            none_nested(all),
            tokens(methods) == methods_code(
                tokens(*crate_path),
                named(*target),
                all.take(i as int),
            ),
            tokens(inits) == inits_code(
                tokens(*crate_path),
                named(*target),
                all.take(i as int),
            ),
        decreases servs.len() - i,
    {
        assert(all.take(i + 1).drop_last() == all.take(i as int));
        assert(all.take(i + 1).last() == plan(servs[i as int]@));
        assert(all[i as int] == plan(servs[i as int]@));
        push_stream(&mut methods, &method(crate_path, target, &servs[i]));
        push_stream(&mut inits, &init(crate_path, target, &servs[i]));
        i += 1;
    }
    assert(all.take(i as int) == all);
    access_impl(name, &methods, &inits)
}

/// Each method stands under the `cfg` attribute of its field.
pub proof fn law_methods_under_cfg(crate_path: Seq<Tok>, target: Named, serv: PlanModel)
    ensures
        serv.attr.is_prefix_of(method_code(crate_path, target, serv)),
{
}

/// Each statement that initialises a service stands under the `cfg` attribute of its field. A group
/// has one for each of its parts.
pub proof fn law_inits_under_cfg(
    crate_path: Seq<Tok>,
    target: Named,
    serv: PlanModel,
    k: nat,
)
    ensures
        !(serv.shape is Tuple) ==> serv.attr.is_prefix_of(init_code(crate_path, target, serv)),
        serv.attr.is_prefix_of(init_part_code(serv.attr, target, serv.ident, k, serv.upper)),
        init_parts_code(target, serv, k + 1) == init_parts_code(target, serv, k) + init_part_code(
            serv.attr,
            target,
            serv.ident,
            k,
            serv.upper,
        ),
{
}

} // verus!
