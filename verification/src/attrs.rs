//! The attributes that steer the derive.

use proc_macro2::Ident;
use vstd::hash_map::StringHashMap;
use vstd::prelude::*;

use crate::ident::{is_text, named, text_of, Named};
use crate::literal::{find_unknown_in_paren, unknown_in_paren};
use crate::read::{parse_paren, parsed_paren};
use crate::syntax::{Attr, AttrModel, ItemPath, ItemPathModel, Paren, ParenModel, PathSegmentModel};
use crate::token::tokens;

verus! {

/// The identifier that a path consists of, where it is one.
pub open spec fn path_ident(path: ItemPathModel) -> Option<Named> {
    if !path.leading_colon && path.segments.len() == 1 && !path.segments[0].has_args {
        Some(path.segments[0].ident)
    } else {
        None
    }
}

/// Whether a path consists of the given identifier.
pub open spec fn path_is(path: ItemPathModel, text: Seq<char>) -> bool {
    path_ident(path) matches Some(ident) && ident.text == text
}

impl ItemPath {
    /// The identifier that the path consists of, where it is one.
    pub fn get_ident(&self) -> (found: Option<&Ident>)
        ensures
            match found {
                Some(ident) => path_ident(self@) == Some(named(*ident)),
                None => path_ident(self@) is None,
            },
    {
        if !self.leading_colon && self.segments.len() == 1 {
            assert(self@.segments[0] == self.segments[0]@);
            if !self.segments[0].has_args {
                return Some(&self.segments[0].ident);
            }
        }
        None
    }

    /// Whether the path consists of the given identifier.
    pub fn is_ident(&self, text: &str) -> (same: bool)
        ensures
            same == path_is(self@, text@),
    {
        match self.get_ident() {
            Some(ident) => is_text(&text_of(ident), text),
            None => false,
        }
    }
}

/// The two identifiers of `name: value`.
pub open spec fn ascribed(paren: ParenModel) -> Option<(Seq<char>, Named)> {
    match paren {
        ParenModel::Ascription(Some(expr), Some(ty)) => match (path_ident(expr), path_ident(ty)) {
            (Some(name), Some(value)) => Some((name.text, value)),
            _ => None,
        },
        _ => None,
    }
}

/// The two identifiers of `name: value`.
pub fn ascription(paren: &Paren) -> (found: Option<(String, Ident)>)
    ensures
        match found {
            Some((name, value)) => ascribed(paren@) == Some((name@, named(value))),
            None => ascribed(paren@) is None,
        },
{
    match paren {
        Paren::Ascription(Some(expr), Some(ty)) => match (expr.get_ident(), ty.get_ident()) {
            (Some(name), Some(value)) => Some((text_of(name), value.clone())),
            _ => None,
        },
        _ => None,
    }
}

/// What an attribute sets: `name` to `value` where it reads `#[notifier(name: value)]`.
pub open spec fn setting(attr: AttrModel) -> Option<(Seq<char>, Named)> {
    if path_is(attr.path, "notifier"@) {
        match parsed_paren(attr.tokens) {
            Some(paren) => ascribed(paren),
            None => None,
        }
    } else {
        None
    }
}

/// What the attributes set. Of two that set the same name the later one counts.
pub open spec fn settings(attrs: Seq<AttrModel>) -> Map<Seq<char>, Named>
    decreases attrs.len(),
{
    if attrs.len() == 0 {
        Map::empty()
    } else {
        let earlier = settings(attrs.drop_last());
        match setting(attrs.last()) {
            Some((name, value)) => earlier.insert(name, value),
            None => earlier,
        }
    }
}

/// Attributes as their models.
pub open spec fn attr_views(attrs: Seq<Attr>) -> Seq<AttrModel> {
    attrs.map_values(|attr: Attr| attr@)
}

/// The spelling and the place of each value of a map.
pub open spec fn named_values(map: Map<Seq<char>, Ident>) -> Map<Seq<char>, Named> {
    map.map_values(|ident: Ident| named(ident))
}

/// The first literal in a `notifier` attribute that the parser may meet and does not know.
pub open spec fn unknown_setting(attrs: Seq<AttrModel>) -> Option<Seq<char>>
    decreases attrs.len(),
{
    if attrs.len() == 0 {
        None
    } else {
        match unknown_setting(attrs.drop_last()) {
            Some(text) => Some(text),
            None => if path_is(attrs.last().path, "notifier"@) {
                unknown_in_paren(attrs.last().tokens)
            } else {
                None
            },
        }
    }
}

/// The first attribute with an unknown literal stays the first one.
proof fn lemma_unknown_setting(attrs: Seq<AttrModel>, n: int)
    requires
        0 <= n <= attrs.len(),
        unknown_setting(attrs.take(n)) is Some,
    ensures
        unknown_setting(attrs) == unknown_setting(attrs.take(n)),
    decreases attrs.len() - n,
{
    if n < attrs.len() {
        assert(attrs.take(n + 1).drop_last() == attrs.take(n));
        lemma_unknown_setting(attrs, n + 1);
    } else {
        assert(attrs.take(n) == attrs);
    }
}

/// Finds the first literal in a `notifier` attribute that the parser may meet and does not know.
pub fn find_unknown_setting(attrs: &Vec<Attr>) -> (found: Option<String>)
    ensures
        match found {
            Some(text) => unknown_setting(attr_views(attrs@)) == Some(text@),
            None => unknown_setting(attr_views(attrs@)) is None,
        },
{
    let ghost all = attr_views(attrs@);
    let mut i: usize = 0;
    while i < attrs.len()
        invariant
            i <= attrs.len(),
            all == attr_views(attrs@),
            unknown_setting(all.take(i as int)) is None,
        decreases attrs.len() - i,
    {
        let attr = &attrs[i];
        assert(all.take(i + 1).drop_last() == all.take(i as int));
        assert(all.take(i + 1).last() == attr@);
        if attr.path.is_ident("notifier") {
            if let Some(text) = find_unknown_in_paren(&attr.tokens) {
                proof {
                    lemma_unknown_setting(all, i + 1);
                }
                return Some(text);
            }
        }
        i += 1;
    }
    assert(all.take(i as int) == all);
    None
}

/// Collects what the attributes set.
pub fn parse_attrs(attrs: &Vec<Attr>) -> (map: StringHashMap<Ident>)
    requires
        unknown_setting(attr_views(attrs@)) is None,
    ensures
        named_values(map@) == settings(attr_views(attrs@)),
{
    let ghost all = attr_views(attrs@);
    let mut map: StringHashMap<Ident> = StringHashMap::new();
    assert(named_values(map@) =~= Map::<Seq<char>, Named>::empty());
    let mut i: usize = 0;
    while i < attrs.len()
        invariant
            i <= attrs.len(),
            all == attr_views(attrs@),
            unknown_setting(all) is None,
            named_values(map@) == settings(all.take(i as int)),
        decreases attrs.len() - i,
    {
        let attr = &attrs[i];
        let ghost before = map@;
        assert(all.take(i + 1).drop_last() == all.take(i as int));
        assert(all.take(i + 1).last() == attr@);
        if attr.path.is_ident("notifier") {
            proof {
                if unknown_in_paren(tokens(attr.tokens)) is Some {
                    lemma_unknown_setting(all, i + 1);
                }
            }
            if let Some(paren) = parse_paren(&attr.tokens) {
                if let Some((name, value)) = ascription(&paren) {
                    let ghost key = name@;
                    map.insert(name, value);
                    assert(named_values(map@) =~= named_values(before).insert(key, named(value)));
                }
            }
        }
        i += 1;
    }
    assert(all.take(i as int) == all);
    map
}

/// Of two attributes that set the same name the later one counts.
pub proof fn law_later_setting_wins(attrs: Seq<AttrModel>, attr: AttrModel)
    requires
        setting(attr) is Some,
    ensures
        settings(attrs.push(attr)).contains_key(setting(attr).unwrap().0),
        settings(attrs.push(attr))[setting(attr).unwrap().0] == setting(attr).unwrap().1,
        forall|name: Seq<char>|
            name != setting(attr).unwrap().0 ==> (#[trigger] settings(attrs.push(attr)).contains_key(name)
                <==> settings(attrs).contains_key(name)) && settings(attrs.push(attr))[name]
                == settings(attrs)[name],
{
    assert(attrs.push(attr).drop_last() == attrs);
}

/// What two lists of attributes set together: the later list counts where both set a name.
pub proof fn law_settings_of_both(a: Seq<AttrModel>, b: Seq<AttrModel>)
    ensures
        settings(a + b) == settings(a).union_prefer_right(settings(b)),
        unknown_setting(a + b) is None <==> unknown_setting(a) is None && unknown_setting(b) is None,
    decreases b.len(),
{
    if b.len() == 0 {
        assert(a + b == a);
        assert(settings(a) =~= settings(a).union_prefer_right(settings(b)));
    } else {
        law_settings_of_both(a, b.drop_last());
        assert((a + b).drop_last() == a + b.drop_last());
        assert((a + b).last() == b.last());
        assert(settings(a + b) =~= settings(a).union_prefer_right(settings(b)));
    }
}

/// An attribute that is not of the form `#[notifier(name: value)]` changes nothing, wherever it
/// stands.
pub proof fn law_other_attrs_ignored(before: Seq<AttrModel>, attr: AttrModel, after: Seq<AttrModel>)
    requires
        setting(attr) is None,
    ensures
        settings(before.push(attr) + after) == settings(before + after),
    decreases after.len(),
{
    if after.len() == 0 {
        assert(before.push(attr) + after == before.push(attr));
        assert(before.push(attr).drop_last() == before);
        assert(before + after == before);
    } else {
        law_other_attrs_ignored(before, attr, after.drop_last());
        assert((before.push(attr) + after).drop_last() == before.push(attr) + after.drop_last());
        assert((before + after).drop_last() == before + after.drop_last());
    }
}

/// A name is set exactly where some attribute sets it.
pub proof fn law_set_by_some_attr(attrs: Seq<AttrModel>, name: Seq<char>)
    ensures
        settings(attrs).contains_key(name) <==> exists|i: int|
            0 <= i < attrs.len() && setting(#[trigger] attrs[i]) is Some && setting(attrs[i]).unwrap().0
                == name,
    decreases attrs.len(),
{
    if attrs.len() > 0 {
        let rest = attrs.drop_last();
        law_set_by_some_attr(rest, name);
        if settings(rest).contains_key(name) {
            let i = choose|i: int|
                0 <= i < rest.len() && setting(#[trigger] rest[i]) is Some && setting(rest[i]).unwrap().0
                    == name;
            assert(attrs[i] == rest[i]);
        } else if settings(attrs).contains_key(name) {
            assert(setting(attrs[attrs.len() - 1]).unwrap().0 == name);
        } else {
            assert forall|i: int|
                0 <= i < attrs.len() && setting(#[trigger] attrs[i]) is Some implies setting(
                attrs[i],
            ).unwrap().0 != name by {
                if i < rest.len() {
                    assert(rest[i] == attrs[i]);
                }
            }
        }
    }
}

/// A path names an identifier exactly where it has one segment, with no `::` before it and no generic
/// arguments after it. Then it is that of the segment.
pub proof fn law_path_of_one_segment(path: ItemPathModel)
    ensures
        path_ident(path) matches Some(ident) ==> path.segments =~= seq![
            PathSegmentModel { ident, has_args: false },
        ] && !path.leading_colon,
        !path.leading_colon && path.segments.len() == 1 && !path.segments[0].has_args
            ==> path_ident(path) == Some(path.segments[0].ident),
        forall|text: Seq<char>| #[trigger]
            path_is(path, text) <==> path_ident(path) is Some && path_ident(path)->0.text == text,
{
}

/// A path that is longer, has generic arguments or starts with `::` is no identifier, whatever its
/// segments are.
pub proof fn law_longer_paths_are_no_identifiers(path: ItemPathModel, text: Seq<char>)
    requires
        path.leading_colon || path.segments.len() != 1 || path.segments[0].has_args,
    ensures
        path_ident(path) is None,
        !path_is(path, text),
{
}

/// `#[notifier(name: value)]` sets the name to the value, with the place of the value, and nothing
/// else sets anything.
pub proof fn law_setting_is_read(attr: AttrModel, name: Named, value: Named)
    ensures
        setting(attr) == Some((name.text, value)) <== {
            &&& attr.path.segments =~= seq![
                PathSegmentModel { ident: attr.path.segments[0].ident, has_args: false },
            ]
            &&& !attr.path.leading_colon
            &&& attr.path.segments[0].ident.text == "notifier"@
            &&& parsed_paren(attr.tokens) matches Some(ParenModel::Ascription(Some(left), Some(right)))
            &&& left.segments =~= seq![PathSegmentModel { ident: name, has_args: false }]
            &&& right.segments =~= seq![PathSegmentModel { ident: value, has_args: false }]
            &&& !left.leading_colon
            &&& !right.leading_colon
        },
        setting(attr) matches Some((key, ident)) ==> {
            &&& attr.path.segments.len() == 1
            &&& attr.path.segments[0].ident.text == "notifier"@
            &&& parsed_paren(attr.tokens) matches Some(ParenModel::Ascription(Some(left), Some(right)))
            &&& left.segments.len() == 1 && left.segments[0].ident.text == key
            &&& right.segments.len() == 1 && right.segments[0].ident == ident
        },
{
}

/// The literals of each `notifier` attribute count, wherever it stands, and those of no other.
pub proof fn law_unknown_setting_anywhere(attrs: Seq<AttrModel>)
    ensures
        unknown_setting(attrs) is Some <==> exists|i: int|
            0 <= i < attrs.len() && path_ident((#[trigger] attrs[i]).path) is Some
                && path_ident(attrs[i].path)->0.text == "notifier"@ && unknown_in_paren(
                attrs[i].tokens,
            ) is Some,
    decreases attrs.len(),
{
    if attrs.len() > 0 {
        let rest = attrs.drop_last();
        law_unknown_setting_anywhere(rest);
        assert forall|i: int| 0 <= i < rest.len() implies #[trigger] attrs[i] == rest[i] by {}
        assert(attrs[attrs.len() - 1] == attrs.last());
        if unknown_setting(rest) is Some {
            let i = choose|i: int|
                0 <= i < rest.len() && path_ident((#[trigger] rest[i]).path) is Some
                    && path_ident(rest[i].path)->0.text == "notifier"@ && unknown_in_paren(
                    rest[i].tokens,
                ) is Some;
            assert(attrs[i] == rest[i]);
        }
    }
}

/// What is set is seen whole: the same names, each with its identifier.
pub proof fn law_settings_are_seen_whole(map: Map<Seq<char>, Ident>, name: Seq<char>)
    ensures
        named_values(map).contains_key(name) <==> map.contains_key(name),
        map.contains_key(name) ==> named_values(map)[name] == named(map[name]),
{
}

/// Attributes are seen whole, each at its position.
pub proof fn law_attributes_are_seen_whole(attrs: Seq<Attr>, i: int)
    requires
        0 <= i < attrs.len(),
    ensures
        attr_views(attrs).len() == attrs.len(),
        attr_views(attrs)[i] == attrs[i]@,
{
}

} // verus!
