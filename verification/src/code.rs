//! Writing code token by token.

use proc_macro2::{Ident, TokenStream};
use vstd::prelude::*;

use crate::ident::{ident_ok, is_word, named, place, Named};
use crate::token::{
    decimal, is_plain, is_punct, push_glued, push_group, push_ident, push_index, push_punct,
    push_stream, push_string, push_string_at, push_usize, push_word, quoted, tokens, Delimiter,
    Place, Tok,
};

verus! {

/// No tokens yet.
pub open spec fn no_code() -> Seq<Tok> {
    Seq::empty()
}

/// Code that grows at its end.
pub trait Snippet: Sized {
    /// A word at the call site of the derive.
    spec fn word(self, text: Seq<char>) -> Self;

    /// An identifier at its own place.
    spec fn name(self, ident: Named) -> Self;

    /// A punctuation character.
    spec fn punct(self, ch: char) -> Self;

    /// Two punctuation characters that make one operator.
    spec fn operator(self, first: char, second: char) -> Self;

    /// `::`.
    spec fn colons(self) -> Self;

    /// `->`.
    spec fn arrow(self) -> Self;

    /// `=>`.
    spec fn fat_arrow(self) -> Self;

    /// `'name`.
    spec fn lifetime(self, name: Seq<char>) -> Self;

    /// Code that is there already.
    spec fn code(self, inner: Self) -> Self;

    /// `(inner)`.
    spec fn paren(self, inner: Self) -> Self;

    /// `{ inner }`.
    spec fn brace(self, inner: Self) -> Self;

    /// `[inner]`.
    spec fn bracket(self, inner: Self) -> Self;

    /// A number with the suffix `usize`.
    spec fn number(self, n: nat) -> Self;

    /// A number without a suffix.
    spec fn digits(self, n: nat) -> Self;

    /// A string literal with the given value.
    spec fn string(self, value: Seq<char>) -> Self;

    /// A string literal with the given value at the given place.
    spec fn string_at(self, value: Seq<char>, place: Place) -> Self;
}

impl Snippet for Seq<Tok> {
    open spec fn word(self, text: Seq<char>) -> Seq<Tok> {
        self.push(Tok::Ident(text, Place::CallSite))
    }

    open spec fn name(self, ident: Named) -> Seq<Tok> {
        self.push(Tok::Ident(ident.text, ident.place))
    }

    open spec fn punct(self, ch: char) -> Seq<Tok> {
        self.push(Tok::Punct(ch, false, Place::CallSite))
    }

    open spec fn operator(self, first: char, second: char) -> Seq<Tok> {
        self.push(Tok::Punct(first, true, Place::CallSite)).push(
            Tok::Punct(second, false, Place::CallSite),
        )
    }

    open spec fn colons(self) -> Seq<Tok> {
        self.operator(':', ':')
    }

    open spec fn arrow(self) -> Seq<Tok> {
        self.operator('-', '>')
    }

    open spec fn fat_arrow(self) -> Seq<Tok> {
        self.operator('=', '>')
    }

    open spec fn lifetime(self, name: Seq<char>) -> Seq<Tok> {
        self.push(Tok::Punct('\'', true, Place::CallSite)).push(Tok::Ident(name, Place::CallSite))
    }

    open spec fn code(self, inner: Seq<Tok>) -> Seq<Tok> {
        self + inner
    }

    open spec fn paren(self, inner: Seq<Tok>) -> Seq<Tok> {
        self.push(Tok::Group(Delimiter::Parenthesis, inner, Place::CallSite))
    }

    open spec fn brace(self, inner: Seq<Tok>) -> Seq<Tok> {
        self.push(Tok::Group(Delimiter::Brace, inner, Place::CallSite))
    }

    open spec fn bracket(self, inner: Seq<Tok>) -> Seq<Tok> {
        self.push(Tok::Group(Delimiter::Bracket, inner, Place::CallSite))
    }

    open spec fn number(self, n: nat) -> Seq<Tok> {
        self.push(Tok::Literal(decimal(n) + "usize"@, Place::CallSite))
    }

    open spec fn digits(self, n: nat) -> Seq<Tok> {
        self.push(Tok::Literal(decimal(n), Place::CallSite))
    }

    open spec fn string(self, value: Seq<char>) -> Seq<Tok> {
        self.push(Tok::Literal(quoted(value), Place::CallSite))
    }

    open spec fn string_at(self, value: Seq<char>, place: Place) -> Seq<Tok> {
        self.push(Tok::Literal(quoted(value), place))
    }
}

/// Pieces of code one after the other.
pub open spec fn flat(list: Seq<Seq<Tok>>) -> Seq<Tok>
    decreases list.len(),
{
    if list.len() == 0 {
        no_code()
    } else {
        flat(list.drop_last()) + list.last()
    }
}

/// Code in the making.
pub struct Code {
    stream: TokenStream,
}

impl View for Code {
    type V = Seq<Tok>;

    closed spec fn view(&self) -> Seq<Tok> {
        tokens(self.stream)
    }
}

impl Code {
    pub fn new() -> (code: Self)
        ensures
            code@ == no_code(),
    {
        Code { stream: TokenStream::new() }
    }

    pub fn done(self) -> (stream: TokenStream)
        ensures
            tokens(stream) == self@,
    {
        self.stream
    }

    pub fn word(self, text: &str) -> (code: Self)
        requires
            is_word(text@),
        ensures
            code@ == self@.word(text@),
    {
        let mut stream = self.stream;
        push_word(&mut stream, text);
        Code { stream }
    }

    pub fn ident(self, ident: &Ident) -> (code: Self)
        ensures
            code@ == self@.name(named(*ident)),
    {
        let mut stream = self.stream;
        push_ident(&mut stream, ident);
        Code { stream }
    }

    pub fn punct(self, ch: char) -> (code: Self)
        requires
            is_punct(ch),
        ensures
            code@ == self@.punct(ch),
    {
        let mut stream = self.stream;
        push_punct(&mut stream, ch);
        Code { stream }
    }

    pub fn operator(self, first: char, second: char) -> (code: Self)
        requires
            is_punct(first),
            is_punct(second),
        ensures
            code@ == self@.operator(first, second),
    {
        let mut stream = self.stream;
        push_glued(&mut stream, first);
        push_punct(&mut stream, second);
        Code { stream }
    }

    pub fn colons(self) -> (code: Self)
        ensures
            code@ == self@.colons(),
    {
        self.operator(':', ':')
    }

    pub fn arrow(self) -> (code: Self)
        ensures
            code@ == self@.arrow(),
    {
        self.operator('-', '>')
    }

    pub fn fat_arrow(self) -> (code: Self)
        ensures
            code@ == self@.fat_arrow(),
    {
        self.operator('=', '>')
    }

    pub fn lifetime(self, name: &str) -> (code: Self)
        requires
            is_word(name@),
        ensures
            code@ == self@.lifetime(name@),
    {
        let mut stream = self.stream;
        push_glued(&mut stream, '\'');
        push_word(&mut stream, name);
        Code { stream }
    }

    pub fn code(self, inner: &TokenStream) -> (code: Self)
        ensures
            code@ == self@.code(tokens(*inner)),
    {
        let mut stream = self.stream;
        push_stream(&mut stream, inner);
        Code { stream }
    }

    pub fn paren(self, inner: Code) -> (code: Self)
        ensures
            code@ == self@.paren(inner@),
    {
        let mut stream = self.stream;
        push_group(&mut stream, Delimiter::Parenthesis, inner.stream);
        Code { stream }
    }

    pub fn brace(self, inner: Code) -> (code: Self)
        ensures
            code@ == self@.brace(inner@),
    {
        let mut stream = self.stream;
        push_group(&mut stream, Delimiter::Brace, inner.stream);
        Code { stream }
    }

    pub fn bracket(self, inner: Code) -> (code: Self)
        ensures
            code@ == self@.bracket(inner@),
    {
        let mut stream = self.stream;
        push_group(&mut stream, Delimiter::Bracket, inner.stream);
        Code { stream }
    }

    pub fn number(self, n: usize) -> (code: Self)
        ensures
            code@ == self@.number(n as nat),
    {
        let mut stream = self.stream;
        push_usize(&mut stream, n);
        Code { stream }
    }

    pub fn digits(self, n: usize) -> (code: Self)
        ensures
            code@ == self@.digits(n as nat),
    {
        let mut stream = self.stream;
        push_index(&mut stream, n);
        Code { stream }
    }

    pub fn string(self, value: &str) -> (code: Self)
        requires
            is_plain(value@),
        ensures
            code@ == self@.string(value@),
    {
        let mut stream = self.stream;
        push_string(&mut stream, value);
        Code { stream }
    }

    /// A string literal at the place of an identifier.
    pub fn string_at(self, value: &str, like: &Ident) -> (code: Self)
        requires
            is_plain(value@),
        ensures
            code@ == self@.string_at(value@, place(*like)),
    {
        let mut stream = self.stream;
        push_string_at(&mut stream, value, like);
        Code { stream }
    }
}

/// The words that stand in the code are ASCII identifiers.
pub(crate) proof fn lemma_words()
    ensures
        is_word("_"@),
        is_word("a"@),
        is_word("array"@),
        is_word("as"@),
        is_word("ch"@),
        is_word("chain"@),
        is_word("Channel"@),
        is_word("Channels"@),
        is_word("Clone"@),
        is_word("const"@),
        is_word("Copy"@),
        is_word("core"@),
        is_word("Debug"@),
        is_word("derive"@),
        is_word("dyn"@),
        is_word("DynamicService"@),
        is_word("enum"@),
        is_word("Eq"@),
        is_word("fn"@),
        is_word("for"@),
        is_word("From"@),
        is_word("from"@),
        is_word("get"@),
        is_word("GLOBAL_SENDER"@),
        is_word("ID"@),
        is_word("id"@),
        is_word("impl"@),
        is_word("index"@),
        is_word("init"@),
        is_word("init_notifier"@),
        is_word("Into"@),
        is_word("into"@),
        is_word("into_iter"@),
        is_word("Item"@),
        is_word("item"@),
        is_word("Iter"@),
        is_word("iter"@),
        is_word("Iterator"@),
        is_word("let"@),
        is_word("map"@),
        is_word("marker"@),
        is_word("match"@),
        is_word("MAX"@),
        is_word("mut"@),
        is_word("new"@),
        is_word("None"@),
        is_word("Notifier"@),
        is_word("NotifierSenders"@),
        is_word("Option"@),
        is_word("option"@),
        is_word("PartialEq"@),
        is_word("pub"@),
        is_word("Receiver"@),
        is_word("return"@),
        is_word("Self"@),
        is_word("self"@),
        is_word("Sender"@),
        is_word("Service"@),
        is_word("service"@),
        is_word("ServiceGet"@),
        is_word("set_index"@),
        is_word("set_name"@),
        is_word("Some"@),
        is_word("static"@),
        is_word("str"@),
        is_word("T"@),
        is_word("target"@),
        is_word("target_notifier"@),
        is_word("type"@),
        is_word("U"@),
        is_word("usize"@),
        is_word("where"@),
{
    reveal(ident_ok);
    reveal(is_word);
    reveal_strlit("_");
    reveal_strlit("a");
    reveal_strlit("array");
    reveal_strlit("as");
    reveal_strlit("ch");
    reveal_strlit("chain");
    reveal_strlit("Channel");
    reveal_strlit("Channels");
    reveal_strlit("Clone");
    reveal_strlit("const");
    reveal_strlit("Copy");
    reveal_strlit("core");
    reveal_strlit("Debug");
    reveal_strlit("derive");
    reveal_strlit("dyn");
    reveal_strlit("DynamicService");
    reveal_strlit("enum");
    reveal_strlit("Eq");
    reveal_strlit("fn");
    reveal_strlit("for");
    reveal_strlit("From");
    reveal_strlit("from");
    reveal_strlit("get");
    reveal_strlit("GLOBAL_SENDER");
    reveal_strlit("ID");
    reveal_strlit("id");
    reveal_strlit("impl");
    reveal_strlit("index");
    reveal_strlit("init");
    reveal_strlit("init_notifier");
    reveal_strlit("Into");
    reveal_strlit("into");
    reveal_strlit("into_iter");
    reveal_strlit("Item");
    reveal_strlit("item");
    reveal_strlit("Iter");
    reveal_strlit("iter");
    reveal_strlit("Iterator");
    reveal_strlit("let");
    reveal_strlit("map");
    reveal_strlit("marker");
    reveal_strlit("match");
    reveal_strlit("MAX");
    reveal_strlit("mut");
    reveal_strlit("new");
    reveal_strlit("None");
    reveal_strlit("Notifier");
    reveal_strlit("NotifierSenders");
    reveal_strlit("Option");
    reveal_strlit("option");
    reveal_strlit("PartialEq");
    reveal_strlit("pub");
    reveal_strlit("Receiver");
    reveal_strlit("return");
    reveal_strlit("Self");
    reveal_strlit("self");
    reveal_strlit("Sender");
    reveal_strlit("Service");
    reveal_strlit("service");
    reveal_strlit("ServiceGet");
    reveal_strlit("set_index");
    reveal_strlit("set_name");
    reveal_strlit("Some");
    reveal_strlit("static");
    reveal_strlit("str");
    reveal_strlit("T");
    reveal_strlit("target");
    reveal_strlit("target_notifier");
    reveal_strlit("type");
    reveal_strlit("U");
    reveal_strlit("usize");
    reveal_strlit("where");
}

/// Parts stand one after the other, each once.
pub proof fn law_parts_in_order(a: Seq<Seq<Tok>>, part: Seq<Tok>, b: Seq<Seq<Tok>>)
    ensures
        flat(a.push(part) + b) == flat(a) + part + flat(b),
        flat(Seq::<Seq<Tok>>::empty()) == no_code(),
    decreases b.len(),
{
    if b.len() == 0 {
        assert(a.push(part) + b =~= a.push(part));
        assert(a.push(part).drop_last() =~= a);
        assert(flat(a) + part + flat(b) =~= flat(a) + part);
    } else {
        law_parts_in_order(a, part, b.drop_last());
        assert((a.push(part) + b).drop_last() =~= a.push(part) + b.drop_last());
        assert(flat(a) + part + (flat(b.drop_last()) + b.last()) =~= flat(a) + part + flat(
            b.drop_last(),
        ) + b.last());
    }
}

} // verus!
