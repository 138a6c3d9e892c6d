//! Errors as the compiler is told of them.

use proc_macro2::TokenStream;
use vstd::prelude::*;

use crate::token::{extent, is_plain, quoted, tok_place, tokens, Delimiter, Place, Tok};

verus! {

#[verifier::external_type_specification]
#[verifier::external_body]
pub struct ExError(syn::Error);

/// The messages of an error, in order.
pub uninterp spec fn messages(error: syn::Error) -> Seq<Seq<char>>;

/// What the compiler is told: a message as a string literal, and from where to where in the source
/// it is about.
pub struct Report {
    pub literal: Seq<char>,
    pub start: Place,
    pub end: Place,
}

/// The code that makes the compiler report a message.
pub open spec fn report_code(report: Report) -> Seq<Tok> {
    seq![
        Tok::Ident("compile_error"@, report.start),
        Tok::Punct('!', false, report.start),
        Tok::Group(Delimiter::Brace, seq![Tok::Literal(report.literal, report.end)], report.end),
    ]
}

/// The code that makes the compiler report the messages one after the other.
pub open spec fn reports_code(list: Seq<Report>) -> Seq<Tok>
    decreases list.len(),
{
    if list.len() == 0 {
        Seq::empty()
    } else {
        reports_code(list.drop_last()) + report_code(list.last())
    }
}

/// The code that makes the compiler report a plain message about the tokens `at`.
pub open spec fn reported(message: Seq<char>, at: Seq<Tok>) -> Seq<Tok> {
    report_code(
        Report { literal: quoted(message), start: extent(at).0, end: extent(at).1 },
    )
}

/// Whether each message has its report, in order. A message that is not plain is escaped in some
/// way.
pub open spec fn tells(list: Seq<Report>, messages: Seq<Seq<char>>) -> bool {
    &&& list.len() == messages.len()
    &&& forall|i: int|
        0 <= i < list.len() && is_plain(messages[i]) ==> (#[trigger] list[i]).literal == quoted(
            messages[i],
        )
}

/// Whether the code reports the messages one after the other.
pub open spec fn tells_all(code: Seq<Tok>, messages: Seq<Seq<char>>) -> bool {
    exists|list: Seq<Report>| #[trigger] tells(list, messages) && code == reports_code(list)
}

/// `syn::Error::into_compile_error`: for each message a call of `compile_error!` with the message
/// as a string literal. A plain message stands in it as it is. Nothing is said of how other messages
/// are escaped, nor of the places, which are lost on another thread.
pub assume_specification[ syn::Error::into_compile_error ](error: syn::Error) -> (code: TokenStream)
    ensures
        tells_all(tokens(code), messages(error)),
;

/// `syn::Error::new_spanned`, then `syn::Error::into_compile_error`: a call of `compile_error!` with
/// the message as a string literal, which stretches from the first to the last of the tokens `at`.
/// Only plain messages are taken.
#[verifier::external_body]
pub(crate) fn report(at: &TokenStream, message: &str) -> (code: TokenStream)
    requires
        is_plain(message@),
    ensures
        tokens(code) == reported(message@, tokens(*at)),
{
    syn::Error::new_spanned(at, message).into_compile_error()
}

/// A report reads `compile_error! { "message" }`. It starts where the tokens that are to blame start,
/// and ends where they end.
pub proof fn law_report_points_at_the_blame(message: Seq<char>, at: Seq<Tok>)
    requires
        at.len() > 0,
    ensures
        ({
            let code = reported(message, at);
            let start = tok_place(at.first());
            let end = tok_place(at.last());
            &&& code.len() == 3
            &&& code[0] == Tok::Ident("compile_error"@, start)
            &&& code[1] == Tok::Punct('!', false, start)
            &&& code[2] matches Tok::Group(Delimiter::Brace, inner, place) && place == end
                && inner.len() == 1 && inner[0] == Tok::Literal(seq!['"'] + message + seq!['"'], end)
        }),
{
}

/// What tells of messages is one report for each of them, in order: `compile_error! { message }`.
pub proof fn law_each_message_is_told(code: Seq<Tok>, messages: Seq<Seq<char>>, i: int)
    requires
        tells_all(code, messages),
        0 <= i < messages.len(),
    ensures
        code.len() == 3 * messages.len(),
        code[3 * i] matches Tok::Ident(word, _) && word == "compile_error"@,
        code[3 * i + 1] matches Tok::Punct(ch, _, _) && ch == '!',
        code[3 * i + 2] matches Tok::Group(Delimiter::Brace, inner, _) && inner.len() == 1 && (
        inner[0] matches Tok::Literal(text, _) && (is_plain(messages[i]) ==> text == quoted(
            messages[i],
        ))),
{
    let list = choose|list: Seq<Report>| #[trigger] tells(list, messages) && code == reports_code(list);
    lemma_reports(list, i);
    let report = list[i];
    let inner = seq![Tok::Literal(report.literal, report.end)];
    assert(code.subrange(3 * i, 3 * i + 3)[0] == code[3 * i]);
    assert(code.subrange(3 * i, 3 * i + 3)[1] == code[3 * i + 1]);
    assert(code.subrange(3 * i, 3 * i + 3)[2] == code[3 * i + 2]);
    assert(report_code(report)[2] == Tok::Group(Delimiter::Brace, inner, report.end));
}

proof fn lemma_reports(list: Seq<Report>, i: int)
    requires
        0 <= i < list.len(),
    ensures
        reports_code(list).len() == 3 * list.len(),
        reports_code(list).subrange(3 * i, 3 * i + 3) == report_code(list[i]),
    decreases list.len(),
{
    let rest = list.drop_last();
    lemma_reports_len(rest);
    lemma_reports_len(list);
    if i < rest.len() {
        lemma_reports(rest, i);
        assert(reports_code(list).subrange(3 * i, 3 * i + 3) =~= reports_code(rest).subrange(
            3 * i,
            3 * i + 3,
        ));
    } else {
        assert(reports_code(list).subrange(3 * i, 3 * i + 3) =~= report_code(list[i]));
    }
}

proof fn lemma_reports_len(list: Seq<Report>)
    ensures
        reports_code(list).len() == 3 * list.len(),
    decreases list.len(),
{
    if list.len() > 0 {
        lemma_reports_len(list.drop_last());
    }
}

} // verus!
