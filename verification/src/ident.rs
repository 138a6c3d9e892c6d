//! Identifiers and their spelling.

use heck::ToUpperCamelCase;
use proc_macro2::Ident;
use vstd::prelude::*;

use crate::token::{is_plain, Place};

verus! {

#[verifier::external_type_specification]
#[verifier::external_body]
pub struct ExIdent(proc_macro2::Ident);

/// The characters of an identifier, with its `r#` where it has one.
pub uninterp spec fn spelling(ident: Ident) -> Seq<char>;

/// The place in the source that an identifier points at.
pub uninterp spec fn place(ident: Ident) -> Place;

/// Whether an identifier is the compiler's own, as inside a macro, and not one that is made where no
/// compiler runs.
pub uninterp spec fn is_native(ident: Ident) -> bool;

/// The text in Unicode normal form C, in which the compiler spells the identifiers that it makes.
pub uninterp spec fn composed(text: Seq<char>) -> Seq<char>;

/// How an identifier with the given text is spelled: the compiler puts text beyond ASCII in normal
/// form.
pub open spec fn spelled(native: bool, text: Seq<char>) -> Seq<char> {
    if native && !is_ascii_text(text) {
        composed(text)
    } else {
        text
    }
}

/// An identifier: its spelling and its place.
#[verifier::ext_equal]
pub struct Named {
    pub text: Seq<char>,
    pub place: Place,
}

/// The spelling and the place of an identifier.
pub open spec fn named(ident: Ident) -> Named {
    Named { text: spelling(ident), place: place(ident) }
}

/// What Unicode says of a character beyond ASCII: whether an identifier may start with it.
pub uninterp spec fn wide_start(ch: char) -> bool;

/// What Unicode says of a character beyond ASCII: whether an identifier may go on with it.
pub uninterp spec fn wide_continue(ch: char) -> bool;

/// The text in upper case, where it goes beyond ASCII.
pub uninterp spec fn wide_uppercase(text: Seq<char>) -> Seq<char>;

/// The text in upper camel case.
pub uninterp spec fn upper_camel(text: Seq<char>) -> Seq<char>;

pub open spec fn is_ascii_letter(ch: char) -> bool {
    'a' <= ch <= 'z' || 'A' <= ch <= 'Z'
}

/// Whether the text is ASCII.
pub open spec fn is_ascii_text(text: Seq<char>) -> bool {
    forall|i: int| 0 <= i < text.len() ==> #[trigger] text[i] <= '\x7f'
}

/// An ASCII character in upper case.
pub open spec fn ascii_upper(ch: char) -> char {
    if 'a' <= ch <= 'z' {
        ((ch as u32) - 32) as char
    } else {
        ch
    }
}

/// The text in upper case, given what it is beyond ASCII.
pub open spec fn in_uppercase(text: Seq<char>, wide: Seq<char>) -> Seq<char> {
    if is_ascii_text(text) {
        text.map_values(|ch: char| ascii_upper(ch))
    } else {
        wide
    }
}

/// The text in upper case.
pub open spec fn uppercase(text: Seq<char>) -> Seq<char> {
    in_uppercase(text, wide_uppercase(text))
}

/// Whether the character has the Unicode property XID_Start.
pub open spec fn xid_start(ch: char) -> bool {
    is_ascii_letter(ch) || (ch > '\x7f' && wide_start(ch))
}

/// Whether the character has the Unicode property XID_Continue.
pub open spec fn xid_continue(ch: char) -> bool {
    is_ascii_letter(ch) || '0' <= ch <= '9' || ch == '_' || (ch > '\x7f' && wide_continue(ch))
}

/// Whether the text can be made an identifier.
#[verifier::opaque]
pub open spec fn ident_ok(text: Seq<char>) -> bool {
    &&& text.len() > 0
    &&& text[0] == '_' || xid_start(text[0])
    &&& forall|i: int| 1 <= i < text.len() ==> xid_continue(#[trigger] text[i])
}

/// Whether the text is an ASCII identifier.
#[verifier::opaque]
pub open spec fn is_word(text: Seq<char>) -> bool {
    is_ascii_text(text) && ident_ok(text)
}

/// Whether the text is made of ASCII letters and digits.
pub open spec fn is_alphanumeric(text: Seq<char>) -> bool {
    forall|i: int|
        0 <= i < text.len() ==> is_ascii_letter(#[trigger] text[i]) || '0' <= text[i] <= '9'
}

/// `unicode_ident::is_xid_start`: of the ASCII characters it accepts the letters. Of the others
/// the result is given a name.
pub assume_specification[ unicode_ident::is_xid_start ](ch: char) -> (accepted: bool)
    ensures
        accepted == (is_ascii_letter(ch) || (ch > '\x7f' && wide_start(ch))),
;

/// `unicode_ident::is_xid_continue`: of the ASCII characters it accepts the letters, the digits
/// and the underscore. Of the others the result is given a name.
pub assume_specification[ unicode_ident::is_xid_continue ](ch: char) -> (accepted: bool)
    ensures
        accepted == (is_ascii_letter(ch) || '0' <= ch <= '9' || ch == '_' || (ch > '\x7f'
            && wide_continue(ch))),
;

/// `str::to_uppercase`: in ASCII text the small letters become capital letters. Of other text the
/// result is given a name.
pub assume_specification[ str::to_uppercase ](text: &str) -> (upper: String)
    ensures
        upper@ == in_uppercase(text@, wide_uppercase(text@)),
;

/// `heck::ToUpperCamelCase::to_upper_camel_case` of a string: the result is given a name. All other
/// characters than ASCII letters and digits only part words and are left out.
#[verifier::external_body]
pub(crate) fn to_upper_camel(text: &str) -> (camel: String)
    ensures
        camel@ == upper_camel(text@),
        is_alphanumeric(camel@),
{
    text.to_upper_camel_case()
}

/// `proc_macro2::Ident::to_string`: the spelling of the identifier.
#[verifier::external_body]
pub(crate) fn text_of(ident: &Ident) -> (text: String)
    ensures
        text@ == spelling(*ident),
{
    ident.to_string()
}

/// `proc_macro2::Ident::clone`: an identifier with the same spelling and place, of the same kind.
pub assume_specification[ <proc_macro2::Ident as Clone>::clone ](ident: &Ident) -> (copy: Ident)
    ensures
        spelling(copy) == spelling(*ident),
        place(copy) == place(*ident),
        is_native(copy) == is_native(*ident),
;

/// `proc_macro2::Ident::new` with the span of `like`: an identifier at the place of `like`, made by
/// the compiler where `like` is the compiler's own. It is spelled as given, except that the compiler
/// puts text beyond ASCII in normal form C, which is given a name. The call panics on text that no
/// identifier can have.
#[verifier::external_body]
pub(crate) fn respell(text: &str, like: &Ident) -> (ident: Ident)
    requires
        ident_ok(text@),
    ensures
        spelling(ident) == (if is_native(*like) && !is_ascii_text(text@) {
            composed(text@)
        } else {
            text@
        }),
        place(ident) == place(*like),
{
    Ident::new(text, like.span())
}

/// Whether the text can be made an identifier.
pub fn is_ident(text: &str) -> (ok: bool)
    ensures
        ok == ident_ok(text@),
{
    proof {
        reveal(ident_ok);
    }
    let len = text.unicode_len();
    if len == 0 {
        return false;
    }
    let first = text.get_char(0);
    if first != '_' && !unicode_ident::is_xid_start(first) {
        return false;
    }
    let mut i: usize = 1;
    while i < len
        invariant
            1 <= i <= len,
            len == text@.len(),
            text@[0] == '_' || xid_start(text@[0]),
            forall|j: int| 1 <= j < i ==> xid_continue(#[trigger] text@[j]),
        decreases len - i,
    {
        if !unicode_ident::is_xid_continue(text.get_char(i)) {
            proof {
                reveal(ident_ok);
                assert(!xid_continue(text@[i as int]));
            }
            return false;
        }
        i += 1;
    }
    true
}

/// Whether a string is the given text.
pub(crate) fn is_text(string: &String, text: &str) -> (same: bool)
    ensures
        same == (string@ == text@),
{
    *string == text.to_owned()
}

/// Letters and digits can stand in a string literal as they are.
pub(crate) proof fn lemma_alphanumeric_plain(text: Seq<char>)
    requires
        is_alphanumeric(text),
    ensures
        is_plain(text),
{
}

/// An ASCII identifier in upper case is an identifier.
pub proof fn lemma_ascii_upper(text: Seq<char>)
    requires
        is_ascii_text(text),
        ident_ok(text),
    ensures
        is_ascii_text(uppercase(text)),
        ident_ok(uppercase(text)),
{
    reveal(ident_ok);
    let upper = uppercase(text);
    assert forall|i: int| 0 <= i < upper.len() implies #[trigger] upper[i] <= '\x7f' by {
        assert(upper[i] == ascii_upper(text[i]));
    }
    assert(upper[0] == ascii_upper(text[0]));
    assert forall|i: int| 1 <= i < upper.len() implies xid_continue(#[trigger] upper[i]) by {
        assert(upper[i] == ascii_upper(text[i]));
        assert(xid_continue(text[i]));
    }
}

/// An identifier stays one with more characters that an identifier can go on with.
pub proof fn lemma_longer_ident(text: Seq<char>, more: Seq<char>)
    requires
        ident_ok(text),
        forall|i: int| 0 <= i < more.len() ==> xid_continue(#[trigger] more[i]),
    ensures
        ident_ok(text + more),
{
    reveal(ident_ok);
    assert forall|i: int| 1 <= i < (text + more).len() implies xid_continue(
        #[trigger] (text + more)[i],
    ) by {
        if i < text.len() {
            assert(xid_continue(text[i]));
        } else {
            assert(xid_continue(more[i - text.len()]));
        }
    }
}

/// Each character of an identifier counts: one that an identifier cannot go on with spoils it, at
/// whatever position after the first, and so does a first one that it cannot start with.
pub proof fn law_each_character_counts(text: Seq<char>, i: int)
    requires
        0 <= i < text.len(),
    ensures
        ident_ok(text) ==> if i == 0 {
            text[0] == '_' || is_ascii_letter(text[0]) || (text[0] > '\x7f' && wide_start(text[0]))
        } else {
            is_ascii_letter(text[i]) || '0' <= text[i] <= '9' || text[i] == '_' || (text[i] > '\x7f'
                && wide_continue(text[i]))
        },
{
    reveal(ident_ok);
}

/// An identifier that is cut short is one, unless nothing is left, and one that goes on with a
/// character that it can go on with is one.
pub proof fn law_identifiers_grow(text: Seq<char>, ch: char)
    requires
        text.len() > 0,
    ensures
        ident_ok(text.push(ch)) <==> ident_ok(text) && (is_ascii_letter(ch) || '0' <= ch <= '9' || ch
            == '_' || (ch > '\x7f' && wide_continue(ch))),
{
    reveal(ident_ok);
    let more = text.push(ch);
    assert(more[0] == text[0]);
    assert(more[text.len() as int] == ch);
    if ident_ok(more) {
        assert forall|i: int| 1 <= i < text.len() implies xid_continue(#[trigger] text[i]) by {
            assert(xid_continue(more[i]));
        }
    }
    if ident_ok(text) {
        assert forall|i: int| 1 <= i < text.len() implies xid_continue(#[trigger] more[i]) by {
            assert(xid_continue(text[i]));
        }
    }
}

/// A text in upper case differs from it in its small letters only, where it is ASCII: each becomes the
/// capital letter, at whatever position. All other texts have the upper case that Unicode gives them.
pub proof fn law_upper_case_by_character(text: Seq<char>, i: int)
    requires
        0 <= i < text.len(),
    ensures
        is_ascii_text(text) ==> uppercase(text).len() == text.len() && uppercase(text)[i] as int
            == if 'a' <= text[i] <= 'z' {
            text[i] as int - 'a' as int + 'A' as int
        } else {
            text[i] as int
        },
        !is_ascii_text(text) ==> uppercase(text) == wide_uppercase(text),
{
    assert(is_ascii_text(text) ==> text[i] <= '\x7f');
}

/// An identifier that the compiler makes of a text has that spelling where the text is ASCII, and its
/// composed form else. One that is made outside the compiler has the spelling in any case.
pub proof fn law_spelling(text: Seq<char>)
    ensures
        spelled(false, text) == text,
        is_ascii_text(text) ==> spelled(true, text) == text,
        !is_ascii_text(text) ==> spelled(true, text) == composed(text),
{
}

} // verus!
