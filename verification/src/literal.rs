//! Which literals the parser knows.

use proc_macro2::TokenStream;
use vstd::prelude::*;

use crate::ident::is_text;
use crate::token::{shows, tokens, trees, Delimiter, Place, Tok, Tree};

verus! {

/// Whether the parser knows a literal: strings, bytes, characters and numbers, but no C strings.
pub open spec fn is_known(text: Seq<char>) -> bool {
    text.len() > 0 && (text[0] == '"' || text[0] == 'r' || text[0] == 'b' || text[0] == '\''
        || text[0] == '-' || '0' <= text[0] <= '9')
}

/// Whether the word is reserved, so that it does not name a macro. A macro can be named by the words
/// that a path can be made of: `crate`, `self`, `Self` and `super`.
pub open spec fn is_reserved(text: Seq<char>) -> bool {
    ||| text == "_"@
    ||| text == "abstract"@
    ||| text == "as"@
    ||| text == "become"@
    ||| text == "box"@
    ||| text == "break"@
    ||| text == "const"@
    ||| text == "continue"@
    ||| text == "do"@
    ||| text == "else"@
    ||| text == "enum"@
    ||| text == "extern"@
    ||| text == "false"@
    ||| text == "final"@
    ||| text == "fn"@
    ||| text == "for"@
    ||| text == "if"@
    ||| text == "impl"@
    ||| text == "in"@
    ||| text == "let"@
    ||| text == "loop"@
    ||| text == "macro"@
    ||| text == "match"@
    ||| text == "mod"@
    ||| text == "move"@
    ||| text == "mut"@
    ||| text == "override"@
    ||| text == "priv"@
    ||| text == "pub"@
    ||| text == "ref"@
    ||| text == "return"@
    ||| text == "static"@
    ||| text == "struct"@
    ||| text == "trait"@
    ||| text == "true"@
    ||| text == "type"@
    ||| text == "typeof"@
    ||| text == "unsafe"@
    ||| text == "unsized"@
    ||| text == "use"@
    ||| text == "virtual"@
    ||| text == "where"@
    ||| text == "while"@
    ||| text == "yield"@
}

/// Whether the token at the position is the punctuation character.
pub open spec fn punct_at(list: Seq<Tok>, i: int, ch: char) -> bool {
    0 <= i < list.len() && (list[i] matches Tok::Punct(c, _, _) && c == ch)
}

/// Whether the token at the position is a word that is not reserved. A word after `'` is a label.
pub open spec fn word_at(list: Seq<Tok>, i: int) -> bool {
    &&& 0 <= i < list.len()
    &&& list[i] matches Tok::Ident(text, _) && !is_reserved(text)
    &&& !punct_at(list, i - 1, '\'')
}

/// Whether the group at the position, between the given brackets, is what an attribute or a macro
/// takes: it stands after `#`, `#!`, `word!` or `word! word`. The parser keeps it as it is.
pub open spec fn stays_raw(list: Seq<Tok>, i: int, delimiter: Delimiter) -> bool {
    ||| delimiter == Delimiter::Bracket && punct_at(list, i - 1, '#')
    ||| delimiter == Delimiter::Bracket && punct_at(list, i - 1, '!') && punct_at(list, i - 2, '#')
    ||| delimiter != Delimiter::Invisible && punct_at(list, i - 1, '!') && word_at(list, i - 2)
    ||| delimiter != Delimiter::Invisible && word_at(list, i - 1) && punct_at(list, i - 2, '!')
        && word_at(list, i - 3)
}

/// The first literal among the first `n` tokens that the parser may meet and does not know.
pub open spec fn first_unknown(list: Seq<Tok>, n: nat) -> Option<Seq<char>>
    decreases list, n,
{
    if n == 0 || n > list.len() {
        None
    } else {
        match first_unknown(list, (n - 1) as nat) {
            Some(text) => Some(text),
            None => match list[n - 1] {
                Tok::Literal(text, _) => if is_known(text) {
                    None
                } else {
                    Some(text)
                },
                Tok::Group(delimiter, inner, _) => if stays_raw(list, n - 1, delimiter) {
                    None
                } else {
                    first_unknown(inner, inner.len())
                },
                _ => None,
            },
        }
    }
}

/// The first literal that the parser may meet and does not know.
pub open spec fn unknown_literal(list: Seq<Tok>) -> Option<Seq<char>> {
    first_unknown(list, list.len())
}

/// Whether the tokens can be those of a struct: the word `struct` is among them, or may be in a
/// group without brackets. The parser gives up on others before it comes to a literal.
pub open spec fn may_be_struct(list: Seq<Tok>) -> bool {
    exists|i: int| 0 <= i < list.len() && tells_of_struct(#[trigger] list[i])
}

/// Whether the token is the word `struct` or may hold it.
pub open spec fn tells_of_struct(tok: Tok) -> bool {
    match tok {
        Tok::Ident(text, _) => text == "struct"@,
        Tok::Group(delimiter, _, _) => delimiter == Delimiter::Invisible,
        _ => false,
    }
}

/// The first literal that the parser may meet and does not know where it parses the tokens as a
/// struct.
pub open spec fn unknown_in_struct(list: Seq<Tok>) -> Option<Seq<char>> {
    if may_be_struct(list) {
        unknown_literal(list)
    } else {
        None
    }
}

/// How many tokens, from the given one on, an expression can be made of: it ends before a comma or
/// a semicolon, unless the comma may stand between the arguments of a generic or of a closure.
pub open spec fn expression_end(list: Seq<Tok>, i: nat) -> nat
    decreases list.len() - i,
{
    if i >= list.len() {
        list.len()
    } else {
        match list[i as int] {
            Tok::Punct(ch, _, _) => if ch == ',' || ch == ';' {
                i
            } else if ch == '<' || ch == '|' {
                list.len()
            } else {
                expression_end(list, i + 1)
            },
            Tok::Group(delimiter, _, _) => if delimiter == Delimiter::Invisible {
                list.len()
            } else {
                expression_end(list, i + 1)
            },
            _ => expression_end(list, i + 1),
        }
    }
}

/// The first literal that the parser may meet and does not know where it parses the tokens as an
/// expression in parentheses. It gives up where no parenthesis opens, and does not look past the
/// end of the expression.
pub open spec fn unknown_in_paren(list: Seq<Tok>) -> Option<Seq<char>> {
    if list.len() == 0 {
        None
    } else {
        match list[0] {
            Tok::Group(delimiter, inner, _) => match delimiter {
                Delimiter::Parenthesis => first_unknown(inner, expression_end(inner, 0)),
                Delimiter::Invisible => unknown_literal(list),
                _ => None,
            },
            _ => None,
        }
    }
}

/// Whether the word is reserved.
fn reserved(text: &String) -> (yes: bool)
    ensures
        yes == is_reserved(text@),
{
    is_text(text, "_") || is_text(text, "abstract") || is_text(text, "as")
        || is_text(text, "become") || is_text(text, "box") || is_text(text, "break")
        || is_text(text, "const") || is_text(text, "continue") || is_text(text, "do")
        || is_text(text, "else") || is_text(text, "enum") || is_text(text, "extern")
        || is_text(text, "false") || is_text(text, "final") || is_text(text, "fn")
        || is_text(text, "for") || is_text(text, "if") || is_text(text, "impl")
        || is_text(text, "in") || is_text(text, "let") || is_text(text, "loop")
        || is_text(text, "macro") || is_text(text, "match") || is_text(text, "mod")
        || is_text(text, "move") || is_text(text, "mut") || is_text(text, "override")
        || is_text(text, "priv") || is_text(text, "pub") || is_text(text, "ref")
        || is_text(text, "return") || is_text(text, "static") || is_text(text, "struct")
        || is_text(text, "trait") || is_text(text, "true") || is_text(text, "type")
        || is_text(text, "typeof") || is_text(text, "unsafe") || is_text(text, "unsized")
        || is_text(text, "use") || is_text(text, "virtual") || is_text(text, "where")
        || is_text(text, "while") || is_text(text, "yield")
}

/// Whether the parser knows a literal.
fn known(text: &String) -> (yes: bool)
    ensures
        yes == is_known(text@),
{
    if text.as_str().unicode_len() == 0 {
        return false;
    }
    let ch = text.as_str().get_char(0);
    ch == '"' || ch == 'r' || ch == 'b' || ch == '\'' || ch == '-' || ('0' <= ch && ch <= '9')
}

/// Whether the trees show the tokens.
spec fn show(list: Seq<Tree>, toks: Seq<Tok>) -> bool {
    list.len() == toks.len() && forall|i: int|
        0 <= i < list.len() ==> shows(#[trigger] list[i], toks[i])
}

/// Whether the token that is `back` tokens before the position is the punctuation character.
fn punct_before(
    list: &Vec<Tree>,
    i: usize,
    back: usize,
    ch: char,
    Ghost(toks): Ghost<Seq<Tok>>,
) -> (yes: bool)
    requires
        i < list.len(),
        0 < back,
        show(list@, toks),
    ensures
        yes == punct_at(toks, i - back, ch),
{
    if i < back {
        return false;
    }
    assert(shows(list@[i - back], toks[i - back]));
    match &list[i - back] {
        Tree::Punct(c, _) => *c == ch,
        _ => false,
    }
}

/// Whether the token that is `back` tokens before the position is a word that is not reserved.
fn word_before(
    list: &Vec<Tree>,
    i: usize,
    back: usize,
    Ghost(toks): Ghost<Seq<Tok>>,
) -> (yes: bool)
    requires
        i < list.len(),
        0 < back < usize::MAX,
        show(list@, toks),
    ensures
        yes == word_at(toks, i - back),
{
    if i < back {
        return false;
    }
    assert(shows(list@[i - back], toks[i - back]));
    let free = match &list[i - back] {
        Tree::Ident(text) => !reserved(text),
        _ => false,
    };
    free && !punct_before(list, i, back + 1, '\'', Ghost(toks))
}

/// Whether the parser keeps the group at the position as it is.
fn raw(list: &Vec<Tree>, i: usize, delimiter: Delimiter, Ghost(toks): Ghost<Seq<Tok>>) -> (yes:
    bool)
    requires
        i < list.len(),
        show(list@, toks),
    ensures
        yes == stays_raw(toks, i as int, delimiter),
{
    let bang = punct_before(list, i, 1, '!', Ghost(toks));
    let attribute = punct_before(list, i, 1, '#', Ghost(toks)) || (bang && punct_before(
        list,
        i,
        2,
        '#',
        Ghost(toks),
    ));
    let macro_input = (bang && word_before(list, i, 2, Ghost(toks))) || (word_before(
        list,
        i,
        1,
        Ghost(toks),
    ) && punct_before(list, i, 2, '!', Ghost(toks)) && word_before(list, i, 3, Ghost(toks)));
    (delimiter == Delimiter::Bracket && attribute) || (delimiter != Delimiter::Invisible
        && macro_input)
}

/// The number of tokens that an expression can be made of.
fn find_end(list: &Vec<Tree>, Ghost(toks): Ghost<Seq<Tok>>) -> (end: usize)
    requires
        show(list@, toks),
    ensures
        end == expression_end(toks, 0),
        end <= list.len(),
{
    let mut i: usize = 0;
    while i < list.len()
        invariant
            i <= list.len(),
            show(list@, toks),
            expression_end(toks, i as nat) == expression_end(toks, 0),
        decreases list.len() - i,
    {
        assert(shows(list@[i as int], toks[i as int]));
        match &list[i] {
            Tree::Punct(ch, _) => {
                if *ch == ',' || *ch == ';' {
                    return i;
                }
                if *ch == '<' || *ch == '|' {
                    return list.len();
                }
            },
            Tree::Group(delimiter, _) => {
                if *delimiter == Delimiter::Invisible {
                    return list.len();
                }
            },
            _ => {},
        }
        i += 1;
    }
    i
}

/// Finds the first literal that the parser may meet and does not know, among all tokens or, where
/// an expression is looked for, among those that it can be made of.
fn scan(stream: &TokenStream, expression: bool) -> (found: Option<String>)
    ensures
        ({
            let toks = tokens(*stream);
            let end = if expression {
                expression_end(toks, 0)
            } else {
                toks.len()
            };
            match found {
                Some(text) => first_unknown(toks, end) == Some(text@),
                None => first_unknown(toks, end) is None,
            }
        }),
    decreases tokens(*stream),
{
    let list = trees(stream);
    let ghost toks = tokens(*stream);
    let end = if expression {
        find_end(&list, Ghost(toks))
    } else {
        list.len()
    };
    let mut i: usize = 0;
    while i < end
        invariant
            i <= end <= list.len(),
            end == if expression {
                expression_end(toks, 0)
            } else {
                toks.len()
            },
            toks == tokens(*stream),
            show(list@, toks),
            first_unknown(toks, i as nat) is None,
        decreases end - i,
    {
        assert(shows(list@[i as int], toks[i as int]));
        let found = match &list[i] {
            Tree::Literal(text) => if known(text) {
                None
            } else {
                Some(text.clone())
            },
            Tree::Group(delimiter, inner) => if raw(&list, i, *delimiter, Ghost(toks)) {
                None
            } else {
                proof {
                    assert(decreases_to!(toks => toks[i as int]));
                    assert(decreases_to!(toks[i as int] => toks[i as int]->Group_1));
                }
                scan(inner, false)
            },
            _ => None,
        };
        if found.is_some() {
            proof {
                lemma_unknown_stays(toks, (i + 1) as nat, end as nat);
            }
            return found;
        }
        i += 1;
    }
    None
}

/// Finds the first literal that the parser may meet and does not know.
pub fn find_unknown(stream: &TokenStream) -> (found: Option<String>)
    ensures
        match found {
            Some(text) => unknown_literal(tokens(*stream)) == Some(text@),
            None => unknown_literal(tokens(*stream)) is None,
        },
{
    scan(stream, false)
}

/// Finds the first literal that the parser may meet and does not know where it parses the tokens as
/// a struct.
pub fn find_unknown_in_struct(stream: &TokenStream) -> (found: Option<String>)
    ensures
        match found {
            Some(text) => unknown_in_struct(tokens(*stream)) == Some(text@),
            None => unknown_in_struct(tokens(*stream)) is None,
        },
{
    let list = trees(stream);
    let ghost toks = tokens(*stream);
    let mut i: usize = 0;
    while i < list.len()
        invariant
            i <= list.len(),
            toks == tokens(*stream),
            show(list@, toks),
            forall|j: int| 0 <= j < i ==> !tells_of_struct(#[trigger] toks[j]),
        decreases list.len() - i,
    {
        assert(shows(list@[i as int], toks[i as int]));
        let told = match &list[i] {
            Tree::Ident(text) => is_text(text, "struct"),
            Tree::Group(delimiter, _) => *delimiter == Delimiter::Invisible,
            _ => false,
        };
        if told {
            assert(tells_of_struct(toks[i as int]));
            return find_unknown(stream);
        }
        i += 1;
    }
    None
}

/// Finds the first literal that the parser may meet and does not know where it parses the tokens as
/// an expression in parentheses.
pub fn find_unknown_in_paren(stream: &TokenStream) -> (found: Option<String>)
    ensures
        match found {
            Some(text) => unknown_in_paren(tokens(*stream)) == Some(text@),
            None => unknown_in_paren(tokens(*stream)) is None,
        },
{
    let list = trees(stream);
    if list.len() == 0 {
        return None;
    }
    assert(shows(list@[0], tokens(*stream)[0]));
    match &list[0] {
        Tree::Group(Delimiter::Parenthesis, inner) => scan(inner, true),
        Tree::Group(Delimiter::Invisible, _) => find_unknown(stream),
        _ => None,
    }
}

/// The first unknown literal stays the first one.
proof fn lemma_unknown_stays(list: Seq<Tok>, n: nat, m: nat)
    requires
        n <= m <= list.len(),
        first_unknown(list, n) is Some,
    ensures
        first_unknown(list, m) == first_unknown(list, n),
    decreases m - n,
{
    if n < m {
        lemma_unknown_stays(list, n, (m - 1) as nat);
    }
}

/// Whether a literal is known shows in its first character alone: a quote, a digit, a sign, or the
/// letter of a raw text or of bytes.
pub proof fn law_literals_by_first_character(text: Seq<char>, other: Seq<char>)
    requires
        text.len() > 0,
        other.len() > 0,
    ensures
        text[0] == other[0] ==> is_known(text) == is_known(other),
        '0' <= text[0] <= '9' || text[0] == '"' || text[0] == '\'' || text[0] == 'r' || text[0] == 'b'
            || text[0] == '-' <==> is_known(text),
        !is_known(Seq::empty()),
{
}

/// What stands behind the first positions does not matter for them.
proof fn lemma_prefix_decides(list: Seq<Tok>, more: Seq<Tok>, n: nat)
    requires
        n <= list.len(),
    ensures
        first_unknown(list + more, n) == first_unknown(list, n),
    decreases n,
{
    if n > 0 {
        lemma_prefix_decides(list, more, (n - 1) as nat);
        let long = list + more;
        assert(long[n - 1] == list[n - 1]);
        assert forall|i: int, ch: char| i < n implies #[trigger] punct_at(long, i, ch) == punct_at(
            list,
            i,
            ch,
        ) by {
            if 0 <= i {
                assert(long[i] == list[i]);
            }
        }
        assert forall|i: int| i < n implies #[trigger] word_at(long, i) == word_at(list, i) by {
            if 0 <= i {
                assert(long[i] == list[i]);
                assert(punct_at(long, i - 1, '\'') == punct_at(list, i - 1, '\''));
            }
        }
    }
}

/// The first unknown literal is the one that is found, whatever follows.
pub proof fn law_first_unknown_counts(list: Seq<Tok>, more: Seq<Tok>)
    ensures
        unknown_literal(list) is Some ==> unknown_literal(list + more) == unknown_literal(list),
    decreases more.len(),
{
    if more.len() == 0 {
        assert(list + more =~= list);
    } else {
        law_first_unknown_counts(list, more.drop_last());
        lemma_prefix_decides(
            list + more.drop_last(),
            seq![more.last()],
            (list.len() + more.len() - 1) as nat,
        );
        assert(list + more =~= (list + more.drop_last()) + seq![more.last()]);
    }
}

/// One token more is one place more to look at, however many there are: a literal is found where it is
/// unknown, an identifier or a punctuation character never, and a group is looked into unless it
/// stays as it is.
pub proof fn law_each_token_is_looked_at(list: Seq<Tok>, tok: Tok)
    requires
        unknown_literal(list) is None,
    ensures
        unknown_literal(list.push(tok)) == match tok {
            Tok::Literal(text, _) => if is_known(text) {
                None
            } else {
                Some(text)
            },
            Tok::Group(delimiter, inner, _) => if stays_raw(list.push(tok), list.len() as int, delimiter) {
                None
            } else {
                unknown_literal(inner)
            },
            _ => None,
        },
{
    lemma_prefix_decides(list, seq![tok], list.len());
    assert(list + seq![tok] =~= list.push(tok));
    assert(list.push(tok)[list.len() as int] == tok);
}

/// Whether the token is the punctuation character.
pub open spec fn is_mark(tok: Tok, ch: char) -> bool {
    tok matches Tok::Punct(c, _, _) && c == ch
}

/// What an attribute holds in its brackets stays as it is: `#[..]` and `#![..]`, wherever it stands.
pub proof fn law_attributes_stay_raw(list: Seq<Tok>, hash: Tok, bang: Tok, inner: Seq<Tok>, place: Place)
    requires
        unknown_literal(list) is None,
        is_mark(hash, '#'),
        is_mark(bang, '!'),
    ensures
        unknown_literal(list.push(hash).push(Tok::Group(Delimiter::Bracket, inner, place))) is None,
        unknown_literal(
            list.push(hash).push(bang).push(Tok::Group(Delimiter::Bracket, inner, place)),
        ) is None,
{
    let group = Tok::Group(Delimiter::Bracket, inner, place);
    let one = list.push(hash);
    let two = one.push(bang);
    law_each_token_is_looked_at(list, hash);
    law_each_token_is_looked_at(one, group);
    assert(punct_at(one.push(group), one.len() - 1, '#'));
    law_each_token_is_looked_at(one, bang);
    law_each_token_is_looked_at(two, group);
    assert(punct_at(two.push(group), two.len() - 1, '!'));
    assert(punct_at(two.push(group), two.len() - 2, '#'));
}

/// What a macro is called with stays as it is: `name!(..)`, in whatever brackets and wherever it
/// stands. The name is no reserved word and no lifetime.
pub proof fn law_macro_calls_stay_raw(
    list: Seq<Tok>,
    name: Seq<char>,
    at: Place,
    bang: Tok,
    delimiter: Delimiter,
    inner: Seq<Tok>,
    place: Place,
)
    requires
        unknown_literal(list) is None,
        list.len() > 0 ==> !is_mark(list.last(), '\''),
        !is_reserved(name),
        is_mark(bang, '!'),
        delimiter != Delimiter::Invisible,
    ensures
        unknown_literal(
            list.push(Tok::Ident(name, at)).push(bang).push(Tok::Group(delimiter, inner, place)),
        ) is None,
{
    let group = Tok::Group(delimiter, inner, place);
    let one = list.push(Tok::Ident(name, at));
    let two = one.push(bang);
    law_each_token_is_looked_at(list, Tok::Ident(name, at));
    law_each_token_is_looked_at(one, bang);
    law_each_token_is_looked_at(two, group);
    let all = two.push(group);
    assert(punct_at(all, two.len() - 1, '!'));
    if list.len() > 0 {
        assert(all[list.len() - 1] == list.last());
    }
    assert(all[list.len() as int] == Tok::Ident(name, at));
    assert(word_at(all, two.len() - 2));
}

/// A group that follows neither `#` nor `!` nor a word is looked into, however deep: an unknown literal
/// in it is found.
pub proof fn law_groups_are_looked_into(
    list: Seq<Tok>,
    delimiter: Delimiter,
    inner: Seq<Tok>,
    place: Place,
)
    requires
        unknown_literal(list) is None,
        list.len() > 0 ==> !is_mark(list.last(), '#') && !is_mark(list.last(), '!') && !(
        list.last() is Ident),
    ensures
        unknown_literal(list.push(Tok::Group(delimiter, inner, place))) == unknown_literal(inner),
{
    let group = Tok::Group(delimiter, inner, place);
    law_each_token_is_looked_at(list, group);
    let all = list.push(group);
    if list.len() > 0 {
        assert(all[list.len() - 1] == list.last());
    }
}

/// The word `struct` tells of a struct wherever it stands, and so does a group without brackets.
/// Without both there is no struct.
pub proof fn law_struct_anywhere(before: Seq<Tok>, tok: Tok, after: Seq<Tok>)
    ensures
        (tok matches Tok::Ident(text, _) && text == "struct"@) ==> may_be_struct(
            before.push(tok) + after,
        ),
        (tok matches Tok::Group(Delimiter::Invisible, _, _)) ==> may_be_struct(
            before.push(tok) + after,
        ),
        !(tok matches Tok::Ident(text, _) && text == "struct"@) && !(tok matches Tok::Group(
            Delimiter::Invisible,
            _,
            _,
        )) ==> may_be_struct(before.push(tok) + after) == (may_be_struct(before) || may_be_struct(
            after,
        )),
{
    let all = before.push(tok) + after;
    assert(all[before.len() as int] == tok);
    if may_be_struct(before) {
        let i = choose|i: int| 0 <= i < before.len() && tells_of_struct(#[trigger] before[i]);
        assert(tells_of_struct(all[i]));
    }
    if may_be_struct(after) {
        let i = choose|i: int| 0 <= i < after.len() && tells_of_struct(#[trigger] after[i]);
        assert(tells_of_struct(all[before.len() + 1 + i]));
    }
    if may_be_struct(all) {
        let i = choose|i: int| 0 <= i < all.len() && tells_of_struct(#[trigger] all[i]);
        if i < before.len() {
            assert(tells_of_struct(before[i]));
        } else if i > before.len() {
            assert(tells_of_struct(after[i - before.len() - 1]));
        }
    }
}

/// Whether an expression may not go on at the token: a comma or a semicolon ends it, and `<`, `|` and
/// a group without brackets leave its end open.
pub open spec fn stops(tok: Tok) -> bool {
    is_mark(tok, ',') || is_mark(tok, ';') || is_mark(tok, '<') || is_mark(tok, '|') || (
    tok matches Tok::Group(Delimiter::Invisible, _, _))
}

/// An expression ends at the first comma or semicolon, at whatever position, unless its end was left
/// open before. Then, and where there is neither, it may go on to the last token.
pub proof fn law_expression_end(list: Seq<Tok>, i: nat, k: int)
    requires
        i <= k <= list.len(),
        forall|j: int| i <= j < k ==> !stops(#[trigger] list[j]),
        k < list.len() ==> stops(list[k]),
    ensures
        expression_end(list, i) == if k < list.len() && (is_mark(list[k], ',') || is_mark(
            list[k],
            ';',
        )) {
            k as nat
        } else {
            list.len()
        },
    decreases k - i,
{
    if i < k {
        assert(!stops(list[i as int]));
        law_expression_end(list, i + 1, k);
    }
}

/// In parentheses, an unknown literal counts where it stands before the end of the expression.
pub proof fn law_parentheses_up_to_the_end(inner: Seq<Tok>, place: Place, more: Seq<Tok>)
    ensures
        unknown_in_paren(seq![Tok::Group(Delimiter::Parenthesis, inner, place)] + more)
            == unknown_literal(inner.take(expression_end(inner, 0) as int)),
{
    let end = expression_end(inner, 0);
    lemma_end_in_range(inner, 0);
    let part = inner.take(end as int);
    lemma_prefix_decides(part, inner.skip(end as int), end);
    assert(part + inner.skip(end as int) =~= inner);
}

/// Where a group without brackets comes first, all tokens are looked at. Where anything but that and
/// parentheses comes first, there is no expression in parentheses, and nothing is looked at.
pub proof fn law_no_parentheses(first: Tok, more: Seq<Tok>)
    ensures
        (first matches Tok::Group(Delimiter::Invisible, _, _)) ==> unknown_in_paren(
            seq![first] + more,
        ) == unknown_literal(seq![first] + more),
        !(first matches Tok::Group(Delimiter::Invisible, _, _)) && !(first matches Tok::Group(
            Delimiter::Parenthesis,
            _,
            _,
        )) ==> unknown_in_paren(seq![first] + more) is None,
        unknown_in_paren(Seq::empty()) is None,
{
    assert((seq![first] + more)[0] == first);
}

proof fn lemma_end_in_range(list: Seq<Tok>, i: nat)
    ensures
        expression_end(list, i) <= list.len(),
    decreases list.len() - i,
{
    if i < list.len() {
        lemma_end_in_range(list, i + 1);
    }
}

/// Whether the tokens end in the punctuation character.
pub open spec fn ends_in_mark(list: Seq<Tok>, ch: char) -> bool {
    list.len() > 0 && is_mark(list.last(), ch)
}

/// Whether the tokens end in a word that can name a macro: not a reserved one, and not the name of a
/// lifetime.
pub open spec fn ends_in_name(list: Seq<Tok>) -> bool {
    list.len() > 0 && (list.last() matches Tok::Ident(text, _) && !is_reserved(text))
        && !ends_in_mark(list.drop_last(), '\'')
}

/// Whether a group that follows the tokens is left as it is: the brackets of an attribute, `#[..]` or
/// `#![..]`, what a macro is called with, `name!(..)`, and what a macro defines, `name! name {..}`.
pub open spec fn leaves_raw(list: Seq<Tok>, delimiter: Delimiter) -> bool {
    if delimiter == Delimiter::Bracket && (ends_in_mark(list, '#') || (ends_in_mark(list, '!')
        && ends_in_mark(list.drop_last(), '#'))) {
        true
    } else {
        delimiter != Delimiter::Invisible && ((ends_in_mark(list, '!') && ends_in_name(
            list.drop_last(),
        )) || (ends_in_name(list) && ends_in_mark(list.drop_last(), '!') && ends_in_name(
            list.drop_last().drop_last(),
        )))
    }
}

/// A group is looked into exactly where it follows neither the sign of an attribute nor the name of a
/// macro, at whatever position and in whatever brackets.
pub proof fn law_raw_groups(list: Seq<Tok>, delimiter: Delimiter, inner: Seq<Tok>, place: Place)
    requires
        unknown_literal(list) is None,
    ensures
        unknown_literal(list.push(Tok::Group(delimiter, inner, place))) == if leaves_raw(
            list,
            delimiter,
        ) {
            None
        } else {
            unknown_literal(inner)
        },
{
    let group = Tok::Group(delimiter, inner, place);
    let all = list.push(group);
    let n = list.len() as int;
    law_each_token_is_looked_at(list, group);
    lemma_ends(list, group);
    if n >= 1 {
        assert(all =~= list.drop_last() + seq![list.last(), group]);
        lemma_ends_before(list.drop_last(), seq![list.last(), group]);
    }
    if n >= 2 {
        let two = list.drop_last().drop_last();
        assert(all =~= two + seq![list[n - 2], list.last(), group]);
        lemma_ends_before(two, seq![list[n - 2], list.last(), group]);
    }
}

proof fn lemma_ends(list: Seq<Tok>, tok: Tok)
    ensures
        forall|ch: char| #[trigger]
            punct_at(list.push(tok), list.len() - 1, ch) == ends_in_mark(list, ch),
        word_at(list.push(tok), list.len() - 1) == ends_in_name(list),
{
    assert(list.push(tok) =~= list + seq![tok]);
    lemma_ends_before(list, seq![tok]);
}

proof fn lemma_ends_before(list: Seq<Tok>, more: Seq<Tok>)
    ensures
        forall|ch: char| #[trigger]
            punct_at(list + more, list.len() - 1, ch) == ends_in_mark(list, ch),
        word_at(list + more, list.len() - 1) == ends_in_name(list),
{
    let all = list + more;
    if list.len() > 0 {
        assert(all[list.len() - 1] == list.last());
    }
    if list.len() > 1 {
        assert(all[list.len() - 2] == list.drop_last().last());
    }
}

/// The words that Rust uses itself, but for those that a path can be made of.
pub open spec fn is_used_word(text: Seq<char>) -> bool {
    let control = text == "break"@ || text == "continue"@ || text == "else"@ || text == "for"@ || text
        == "if"@ || text == "in"@ || text == "loop"@ || text == "match"@ || text == "return"@ || text
        == "while"@;
    let items = text == "const"@ || text == "enum"@ || text == "extern"@ || text == "fn"@ || text
        == "impl"@ || text == "mod"@ || text == "pub"@ || text == "static"@ || text == "struct"@
        || text == "trait"@ || text == "type"@ || text == "use"@ || text == "where"@;
    let others = text == "as"@ || text == "false"@ || text == "let"@ || text == "move"@ || text
        == "mut"@ || text == "ref"@ || text == "true"@ || text == "unsafe"@;
    control || items || others
}

/// The words that Rust keeps for later.
pub open spec fn is_kept_word(text: Seq<char>) -> bool {
    text == "abstract"@ || text == "become"@ || text == "box"@ || text == "do"@ || text == "final"@
        || text == "macro"@ || text == "override"@ || text == "priv"@ || text == "typeof"@ || text
        == "unsized"@ || text == "virtual"@ || text == "yield"@
}

/// The words that Rust uses or keeps are reserved, and `_`, and no others.
pub proof fn law_reserved_words(text: Seq<char>)
    ensures
        is_reserved(text) <==> is_used_word(text) || is_kept_word(text) || text == "_"@,
{
}

} // verus!
