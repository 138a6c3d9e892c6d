//! Token streams and what they hold.

use proc_macro2::{Group, Ident, Literal, Punct, Spacing, Span, TokenStream, TokenTree};
use quote::{ToTokens, TokenStreamExt};
use vstd::prelude::*;

use crate::ident::{is_word, place, spelling};

verus! {

/// The brackets around a group of tokens.
#[derive(Clone, Copy, Debug, PartialEq, Eq, Structural)]
pub enum Delimiter {
    Parenthesis,
    Brace,
    Bracket,
    Invisible,
}

/// The place in the source that a token points at: where the derive is called, or any other place,
/// as the number of its span.
pub enum Place {
    CallSite,
    At(int),
}

/// One token as a stream holds it, with its place. A punctuation character is marked when it is
/// glued to the punctuation that follows it.
pub enum Tok {
    Ident(Seq<char>, Place),
    Punct(char, bool, Place),
    Literal(Seq<char>, Place),
    Group(Delimiter, Seq<Tok>, Place),
}

/// The place of a token.
pub open spec fn tok_place(tok: Tok) -> Place {
    match tok {
        Tok::Ident(_, place) => place,
        Tok::Punct(_, _, place) => place,
        Tok::Literal(_, place) => place,
        Tok::Group(_, _, place) => place,
    }
}

/// The places of the first and the last token.
pub open spec fn extent(list: Seq<Tok>) -> (Place, Place) {
    if list.len() == 0 {
        (Place::CallSite, Place::CallSite)
    } else {
        (tok_place(list.first()), tok_place(list.last()))
    }
}

/// A token as if it stood at the call site of the derive.
pub open spec fn bare_tok(tok: Tok) -> Tok
    decreases tok,
{
    match tok {
        Tok::Ident(text, _) => Tok::Ident(text, Place::CallSite),
        Tok::Punct(ch, joint, _) => Tok::Punct(ch, joint, Place::CallSite),
        Tok::Literal(text, _) => Tok::Literal(text, Place::CallSite),
        Tok::Group(delimiter, inner, _) => Tok::Group(delimiter, bare(inner), Place::CallSite),
    }
}

/// Tokens as if they stood at the call site of the derive: two lists become equal where they differ
/// in places only.
#[verifier::opaque]
pub open spec fn bare(list: Seq<Tok>) -> Seq<Tok>
    decreases list,
{
    Seq::new(
        list.len(),
        |i: int|
            if 0 <= i < list.len() {
                bare_tok(list[i])
            } else {
                arbitrary()
            },
    )
}

#[verifier::external_type_specification]
#[verifier::external_body]
pub struct ExTokenStream(proc_macro2::TokenStream);

/// The tokens that a stream holds, in order.
pub uninterp spec fn tokens(stream: TokenStream) -> Seq<Tok>;

/// Whether a stream is the compiler's own, as inside a macro, and not one that is made where no
/// compiler runs.
pub uninterp spec fn is_native_stream(stream: TokenStream) -> bool;

/// `proc_macro2::TokenStream::new`: a stream that holds nothing.
pub assume_specification[ proc_macro2::TokenStream::new ]() -> (stream: TokenStream)
    ensures
        tokens(stream) == Seq::<Tok>::empty(),
;

/// `proc_macro2::TokenStream::clone`: a stream that holds the same tokens, of the same kind.
pub assume_specification[ <proc_macro2::TokenStream as Clone>::clone ](
    stream: &TokenStream,
) -> (copy: TokenStream)
    ensures
        tokens(copy) == tokens(*stream),
        is_native_stream(copy) == is_native_stream(*stream),
;

/// `proc_macro2::Punct::new` takes these characters.
pub open spec fn is_punct(ch: char) -> bool {
    ch == '!' || ch == '#' || ch == '$' || ch == '%' || ch == '&' || ch == '\'' || ch == '*' || ch
        == '+' || ch == ',' || ch == '-' || ch == '.' || ch == '/' || ch == ':' || ch == ';' || ch
        == '<' || ch == '=' || ch == '>' || ch == '?' || ch == '@' || ch == '^' || ch == '|' || ch
        == '~'
}

/// A number in decimal digits.
pub open spec fn decimal(n: nat) -> Seq<char>
    decreases n,
{
    let digit = (('0' as nat) + n % 10) as char;
    if n < 10 {
        seq![digit]
    } else {
        decimal(n / 10).push(digit)
    }
}

/// `proc_macro2::Ident::new` at the call site of the derive, then `quote::TokenStreamExt::append`:
/// the identifier goes to the end of the stream. The call panics on text that no identifier can
/// have. Beyond ASCII the compiler may write the text in another form, so only ASCII is taken.
#[verifier::external_body]
pub(crate) fn push_word(out: &mut TokenStream, text: &str)
    requires
        is_word(text@),
    ensures
        tokens(*final(out)) == tokens(*old(out)).push(Tok::Ident(text@, Place::CallSite)),
{
    out.append(Ident::new(text, Span::call_site()));
}

/// `quote::TokenStreamExt::append` of an identifier: it goes to the end of the stream.
#[verifier::external_body]
pub(crate) fn push_ident(out: &mut TokenStream, ident: &Ident)
    ensures
        tokens(*final(out)) == tokens(*old(out)).push(Tok::Ident(spelling(*ident), place(*ident))),
{
    out.append(ident.clone());
}

/// `proc_macro2::Punct::new` with `Spacing::Alone`, then `quote::TokenStreamExt::append`: the
/// character goes to the end of the stream, at the call site of the derive. The call panics on
/// other characters.
#[verifier::external_body]
pub(crate) fn push_punct(out: &mut TokenStream, ch: char)
    requires
        is_punct(ch),
    ensures
        tokens(*final(out)) == tokens(*old(out)).push(Tok::Punct(ch, false, Place::CallSite)),
{
    out.append(Punct::new(ch, Spacing::Alone));
}

/// `proc_macro2::Punct::new` with `Spacing::Joint`, then `quote::TokenStreamExt::append`: the
/// character goes to the end of the stream, at the call site of the derive and glued to what comes
/// next. The call panics on other characters.
#[verifier::external_body]
pub(crate) fn push_glued(out: &mut TokenStream, ch: char)
    requires
        is_punct(ch),
    ensures
        tokens(*final(out)) == tokens(*old(out)).push(Tok::Punct(ch, true, Place::CallSite)),
{
    out.append(Punct::new(ch, Spacing::Joint));
}

/// `proc_macro2::Group::new`, then `quote::TokenStreamExt::append`: a group that holds the inner
/// stream goes to the end of the stream, at the call site of the derive.
#[verifier::external_body]
pub(crate) fn push_group(out: &mut TokenStream, delimiter: Delimiter, inner: TokenStream)
    ensures
        tokens(*final(out)) == tokens(*old(out)).push(
            Tok::Group(delimiter, tokens(inner), Place::CallSite),
        ),
{
    let delimiter = match delimiter {
        Delimiter::Parenthesis => proc_macro2::Delimiter::Parenthesis,
        Delimiter::Brace => proc_macro2::Delimiter::Brace,
        Delimiter::Bracket => proc_macro2::Delimiter::Bracket,
        Delimiter::Invisible => proc_macro2::Delimiter::None,
    };
    out.append(Group::new(delimiter, inner));
}

/// `proc_macro2::TokenStream::extend` by a stream: its tokens go to the end.
#[verifier::external_body]
pub(crate) fn push_stream(out: &mut TokenStream, stream: &TokenStream)
    ensures
        tokens(*final(out)) == tokens(*old(out)) + tokens(*stream),
{
    out.extend(stream.clone());
}

/// `proc_macro2::Literal::usize_suffixed`, then `quote::TokenStreamExt::append`: the number goes to
/// the end of the stream, in decimal digits and with the suffix `usize`, at the call site of the
/// derive.
#[verifier::external_body]
pub(crate) fn push_usize(out: &mut TokenStream, n: usize)
    ensures
        tokens(*final(out)) == tokens(*old(out)).push(
            Tok::Literal(decimal(n as nat) + "usize"@, Place::CallSite),
        ),
{
    out.append(Literal::usize_suffixed(n));
}

/// `proc_macro2::Literal::usize_unsuffixed`, then `quote::TokenStreamExt::append`: the number goes
/// to the end of the stream, in decimal digits, at the call site of the derive.
#[verifier::external_body]
pub(crate) fn push_index(out: &mut TokenStream, n: usize)
    ensures
        tokens(*final(out)) == tokens(*old(out)).push(
            Tok::Literal(decimal(n as nat), Place::CallSite),
        ),
{
    out.append(Literal::usize_unsuffixed(n));
}

/// Whether a string literal holds the value as it is: printable ASCII without `"` and `\`.
pub open spec fn is_plain(value: Seq<char>) -> bool {
    forall|i: int|
        0 <= i < value.len() ==> ' ' <= #[trigger] value[i] <= '~' && value[i] != '"' && value[i]
            != '\\'
}

/// A string literal with a plain value, as it is written.
pub open spec fn quoted(value: Seq<char>) -> Seq<char> {
    seq!['"'] + value + seq!['"']
}

/// `proc_macro2::Literal::string`, then `quote::TokenStreamExt::append`: the string literal goes to
/// the end of the stream, at the call site of the derive. Printable ASCII stands in it as it is,
/// apart from `"` and `\`. How other values are escaped depends on where the call is made, so they
/// are not taken.
#[verifier::external_body]
pub(crate) fn push_string(out: &mut TokenStream, value: &str)
    requires
        is_plain(value@),
    ensures
        tokens(*final(out)) == tokens(*old(out)).push(
            Tok::Literal(quoted(value@), Place::CallSite),
        ),
{
    out.append(Literal::string(value));
}

/// `syn::LitStr::new` with the span of `like`, then `quote::ToTokens::to_tokens`: the string
/// literal, made by `proc_macro2::Literal::string`, goes to the end of the stream, at the place of
/// `like`. Only plain values are taken.
#[verifier::external_body]
pub(crate) fn push_string_at(out: &mut TokenStream, value: &str, like: &Ident)
    requires
        is_plain(value@),
    ensures
        tokens(*final(out)) == tokens(*old(out)).push(Tok::Literal(quoted(value@), place(*like))),
{
    syn::LitStr::new(value, like.span()).to_tokens(out);
}

/// A token as it can be looked at: the tokens of a group stay a stream.
pub enum Tree {
    Ident(String),
    Punct(char, bool),
    Literal(String),
    Group(Delimiter, TokenStream),
}

/// Whether the token, apart from its place, is what the tree shows.
pub open spec fn shows(tree: Tree, tok: Tok) -> bool {
    match (tree, tok) {
        (Tree::Ident(text), Tok::Ident(word, _)) => text@ == word,
        (Tree::Punct(a, joint), Tok::Punct(b, glued, _)) => a == b && joint == glued,
        (Tree::Literal(text), Tok::Literal(word, _)) => text@ == word,
        (Tree::Group(a, stream), Tok::Group(b, inner, _)) => a == b && tokens(stream) == inner,
        _ => false,
    }
}

/// `proc_macro2::TokenStream::into_iter`: the tokens of the stream one by one.
#[verifier::external_body]
pub(crate) fn trees(stream: &TokenStream) -> (list: Vec<Tree>)
    ensures
        list@.len() == tokens(*stream).len(),
        forall|i: int| 0 <= i < list@.len() ==> shows(#[trigger] list@[i], tokens(*stream)[i]),
{
    stream.clone().into_iter().map(|tree| match tree {
        TokenTree::Ident(ident) => Tree::Ident(ident.to_string()),
        TokenTree::Punct(punct) => Tree::Punct(punct.as_char(), punct.spacing() == Spacing::Joint),
        TokenTree::Literal(literal) => Tree::Literal(literal.to_string()),
        TokenTree::Group(group) => Tree::Group(match group.delimiter() {
            proc_macro2::Delimiter::Parenthesis => Delimiter::Parenthesis,
            proc_macro2::Delimiter::Brace => Delimiter::Brace,
            proc_macro2::Delimiter::Bracket => Delimiter::Bracket,
            proc_macro2::Delimiter::None => Delimiter::Invisible,
        }, group.stream()),
    }).collect()
}

/// Different numbers have different digits.
pub proof fn law_decimal_injective(a: nat, b: nat)
    ensures
        decimal(a) == decimal(b) ==> a == b,
    decreases a,
{
    if decimal(a) == decimal(b) {
        let digit_a = (('0' as nat) + a % 10) as char;
        let digit_b = (('0' as nat) + b % 10) as char;
        assert(decimal(a).last() == digit_a);
        assert(decimal(b).last() == digit_b);
        assert(digit_a == digit_b);
        assert(digit_a as nat == ('0' as nat) + a % 10);
        assert(digit_b as nat == ('0' as nat) + b % 10);
        lemma_decimal_len(a);
        lemma_decimal_len(b);
        if a >= 10 && b >= 10 {
            assert(decimal(a).drop_last() == decimal(a / 10));
            assert(decimal(b).drop_last() == decimal(b / 10));
            law_decimal_injective(a / 10, b / 10);
        } else {
            assert(a < 10 && b < 10);
        }
    }
}

/// A number has one digit exactly where it is less than ten.
proof fn lemma_decimal_len(n: nat)
    ensures
        decimal(n).len() >= 1,
        decimal(n).len() == 1 <==> n < 10,
    decreases n,
{
    if n >= 10 {
        lemma_decimal_len(n / 10);
    }
}

/// The number that digits stand for.
pub open spec fn value(digits: Seq<char>) -> nat
    decreases digits.len(),
{
    if digits.len() == 0 {
        0
    } else {
        (10 * value(digits.drop_last()) + (digits.last() as int - '0' as int)) as nat
    }
}

/// A number is written in decimal digits that stand for it, with no zero in front unless it is zero.
pub proof fn law_decimal_stands_for_its_number(n: nat)
    ensures
        value(decimal(n)) == n,
        decimal(n).len() > 0,
        forall|i: int| 0 <= i < decimal(n).len() ==> '0' <= #[trigger] decimal(n)[i] <= '9',
        decimal(n)[0] == '0' ==> n == 0,
    decreases n,
{
    let digit = (('0' as nat) + n % 10) as char;
    assert(digit as nat == ('0' as nat) + n % 10);
    if n >= 10 {
        law_decimal_stands_for_its_number(n / 10);
        assert(decimal(n).drop_last() =~= decimal(n / 10));
        assert(decimal(n)[0] == decimal(n / 10)[0]);
        assert forall|i: int| 0 <= i < decimal(n).len() implies '0' <= #[trigger] decimal(n)[i] <= '9' by {
            if i < decimal(n / 10).len() {
                assert(decimal(n)[i] == decimal(n / 10)[i]);
            }
        }
    } else {
        assert(decimal(n).drop_last() =~= Seq::<char>::empty());
        assert(value(Seq::empty()) == 0);
    }
    assert(decimal(n).last() == digit);
}

} // verus!
