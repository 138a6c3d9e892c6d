use notifier_derive::attrs::{ascription, find_unknown_setting, parse_attrs};
use notifier_derive::code::Code;
use notifier_derive::field::{parse_field, FieldTypes, Reason};
use notifier_derive::grouping::group;
use notifier_derive::ident::is_ident;
use notifier_derive::literal::{find_unknown, find_unknown_in_paren, find_unknown_in_struct};
use notifier_derive::notifier::{expansion, make_aliases, notifier_impl};
use notifier_derive::read::read_struct;
use notifier_derive::service::{find_trouble, make_service, parse, Trouble};
use notifier_derive::slot::{slot_groups, slots};
use notifier_derive::syntax::{ItemPath, ItemStruct, Paren, PathSegment};
use notifier_derive::targets::{name_arm, name_arm_array};
use proc_macro2::{Ident, Span, TokenStream};
use quote::ToTokens;

fn stream(source: &str) -> TokenStream {
    source.parse().unwrap()
}

fn item(source: &str) -> ItemStruct {
    read_struct(stream(source)).unwrap()
}

fn ident(text: &str) -> Ident {
    Ident::new(text, Span::call_site())
}

fn types(sources: &[&str]) -> Vec<syn::Type> {
    sources.iter().map(|source| syn::parse_str(source).unwrap()).collect()
}

#[test]
fn groups_keep_the_order_of_first_positions() {
    let list = types(&["B", "A", "B", "C<B>", "A", "B"]);
    assert_eq!(group(&list), vec![vec![0, 2, 5], vec![1, 4], vec![3]]);
    assert!(group(&Vec::new()).is_empty());
}

#[test]
fn types_are_told_apart_as_the_parser_does() {
    let list = types(&["M<'a, T>", "M<'a, T,>", "M<'a,T>", "(A, [B; 3])", "(A,[B;3])", "(A, [B; 4])"]);
    assert_eq!(group(&list), vec![vec![0, 2], vec![1], vec![3, 4], vec![5]]);
    let late = types(&["M<T, 'a>", "M<'a, T,>"]);
    assert_eq!(late[0].to_token_stream().to_string(), late[1].to_token_stream().to_string());
    assert_eq!(group(&late), vec![vec![0], vec![1]]);
}

#[test]
fn unknown_literals_are_found() {
    assert_eq!(find_unknown(&stream("a (b [1 c\"x\"] cr\"y\")")).unwrap(), "c\"x\"");
    assert_eq!(find_unknown(&stream("x = !(c\"x\")")).unwrap(), "c\"x\"");
    assert_eq!(find_unknown(&stream("return !(c\"x\")")).unwrap(), "c\"x\"");
    assert_eq!(find_unknown(&stream("break 'a !(c\"x\")")).unwrap(), "c\"x\"");
    assert_eq!(find_unknown(&stream("# (c\"x\")")).unwrap(), "c\"x\"");
}

#[test]
fn known_literals_pass() {
    assert!(find_unknown(&stream("\"a\" r\"b\" b\"c\" br\"d\" 'e' b'f' 1 2.5 0x1f -3 c")).is_none());
}

#[test]
fn attributes_and_macros_keep_their_literals() {
    assert!(find_unknown(&stream("#[a = c\"x\"] #![b(c\"x\")] m!(c\"x\") m![c\"x\"] n::m!{ c\"x\" }"))
        .is_none());
}

#[test]
fn macros_with_a_name_of_their_own_and_path_words_keep_their_literals() {
    assert!(find_unknown(&stream("macro_rules! m { c\"x\" }")).is_none());
    assert!(find_unknown(&stream("self!(c\"x\") super![c\"x\"] crate!{ c\"x\" } Self!(c\"x\")")).is_none());
    assert!(find_unknown(&stream("try!(c\"x\") r#fn!(c\"x\")")).is_none());
    assert_eq!(find_unknown(&stream("return !m(c\"x\")")).unwrap(), "c\"x\"");
    assert_eq!(find_unknown(&stream("break 'a !m(c\"x\")")).unwrap(), "c\"x\"");
    assert_eq!(find_unknown(&stream("x = !m(c\"x\")")).unwrap(), "c\"x\"");
}

#[test]
fn only_structs_are_searched_for_literals() {
    assert!(find_unknown_in_struct(&stream("pub enum E { A = c\"x\" }")).is_none());
    assert!(find_unknown_in_struct(&stream("union U { a: [u8; c\"x\"] }")).is_none());
    let found = find_unknown_in_struct(&stream("pub struct S { a: [u8; c\"x\"] }"));
    assert_eq!(found.unwrap(), "c\"x\"");
}

#[test]
fn only_the_expression_in_parentheses_is_searched_for_literals() {
    for source in ["= c\"x\"", "[c\"x\"]", "", "a c\"x\"", "(a, c\"x\")", "(a: T; c\"x\")", "(a) c\"x\""] {
        assert!(find_unknown_in_paren(&stream(source)).is_none(), "{}", source);
    }
    for source in ["(c\"x\")", "(a = c\"x\")", "(a: T<B, c\"x\">)", "(|a, b| c\"x\")", "((c\"x\", a))"] {
        assert_eq!(find_unknown_in_paren(&stream(source)).unwrap(), "c\"x\"", "{}", source);
    }
}

#[test]
fn attributes_that_set_nothing_are_skipped() {
    let map = parse_attrs(
        &item(
            "#[notifier = c\"x\"] #[notifier(a: A)] #[notifier(b: B, note = c\"x\")] #[notifier]
             #[notifier[c\"x\"]] struct Hub;",
        )
        .attrs,
    );
    assert_eq!(map.len(), 1);
    assert_eq!(map.get("a").unwrap().to_string(), "A");
}

#[test]
fn settings_of_two_lists_come_together() {
    let both = parse_attrs(&item("#[notifier(a: A)] #[notifier(b: B)] #[notifier(a: C)] struct H;").attrs);
    let first = parse_attrs(&item("#[notifier(a: A)] #[notifier(b: B)] struct H;").attrs);
    let second = parse_attrs(&item("#[notifier(a: C)] struct H;").attrs);
    assert_eq!(both.len(), 2);
    assert_eq!(both.get("a").unwrap(), second.get("a").unwrap());
    assert_eq!(both.get("b").unwrap(), first.get("b").unwrap());
}

#[test]
fn unknown_literals_in_settings_are_found() {
    let hub = item("#[other(c\"x\")] #[notifier(a: A)] #[notifier(c\"y\")] struct Hub;");
    assert_eq!(find_unknown_setting(&hub.attrs).unwrap(), "c\"y\"");
    let hub = item("#[other(c\"x\")] #[notifier(a: A)] struct Hub;");
    assert!(find_unknown_setting(&hub.attrs).is_none());
}

#[test]
fn identifiers_are_recognised() {
    for text in ["a", "_", "_1", "Ab_9", "\u{e9}t\u{e9}"] {
        assert!(is_ident(text));
        assert_eq!(ident(text).to_string(), text);
    }
    for text in ["", "1a", "12", "r#a", "a-b", "a b", "\u{20ac}"] {
        assert!(!is_ident(text));
    }
}

#[test]
fn attributes_set_names() {
    let map = parse_attrs(
        &item(
            "#[notifier(a: A)] #[notifier(b: B)] #[other(c: C)] #[notifier(a: D)] #[notifier(1)]
             struct Hub;",
        )
        .attrs,
    );
    assert_eq!(map.len(), 2);
    assert_eq!(map.get("a").unwrap().to_string(), "D");
    assert_eq!(map.get("b").unwrap().to_string(), "B");
}

fn path(leading_colon: bool, names: &[(&str, bool)]) -> ItemPath {
    let segments =
        names.iter().map(|(name, args)| PathSegment { ident: ident(name), has_args: *args });
    ItemPath { leading_colon, segments: segments.collect() }
}

#[test]
fn ascriptions_are_of_two_identifiers() {
    let plain = || Some(path(false, &[("a", false)]));
    let (name, value) =
        ascription(&Paren::Ascription(plain(), Some(path(false, &[("B", false)])))).unwrap();
    assert_eq!(name, "a");
    assert_eq!(value.to_string(), "B");
    assert!(ascription(&Paren::Ascription(plain(), None)).is_none());
    assert!(ascription(&Paren::Ascription(None, plain())).is_none());
    assert!(ascription(&Paren::Ascription(plain(), Some(path(true, &[("B", false)])))).is_none());
    assert!(ascription(&Paren::Ascription(plain(), Some(path(false, &[("B", true)])))).is_none());
    let long = Some(path(false, &[("b", false), ("B", false)]));
    assert!(ascription(&Paren::Ascription(plain(), long)).is_none());
    assert!(ascription(&Paren::Other).is_none());
    assert!(path(false, &[("a", false)]).is_ident("a"));
    assert!(!path(false, &[("a", false)]).is_ident("b"));
}

#[test]
fn fields_hold_services() {
    let hub = item("struct Hub { a: x::Service<A<u8>, 7>, b: [(S<A, 1>, S<B, { 2 }>); 4] }");
    let fields = hub.fields;
    match parse_field(&fields[0].ty) {
        Ok(FieldTypes::Once(ty, num)) => {
            assert_eq!(ty.to_token_stream().to_string(), "A < u8 >");
            assert_eq!(num.to_string(), "7");
        }
        _ => panic!("no single service"),
    }
    match parse_field(&fields[1].ty) {
        Ok(FieldTypes::Array(inner, len)) => {
            assert_eq!(len.to_string(), "4");
            match *inner {
                FieldTypes::Tuple(list) => {
                    assert_eq!(list.len(), 2);
                    assert_eq!(list[1].0.to_token_stream().to_string(), "B");
                    assert_eq!(list[1].1.to_string(), "{ 2 }");
                }
                _ => panic!("no group"),
            }
        }
        _ => panic!("no array"),
    }
}

#[test]
fn field_errors_name_the_part_to_blame() {
    let hub = item(
        "struct Hub { a: x::Service<A, B<C> >, b: x::Service<A>, c: (S<A, 1>, [S<A, 1>; 2]) }",
    );
    let fields = hub.fields;
    let wanted = [
        (Reason::SecondConst, "B < C >"),
        (Reason::TwoArguments, "Service < A >"),
        (Reason::Nested, "[S < A , 1 > ; 2]"),
    ];
    for (field, (reason, at)) in fields.iter().zip(wanted) {
        match parse_field(&field.ty) {
            Err(error) => {
                assert_eq!(error.reason, reason);
                assert_eq!(error.at.to_string(), at);
            }
            Ok(_) => panic!("accepted"),
        }
    }
}

#[test]
fn messages_tell_the_reason() {
    let hub = item("struct Hub { a: &'static u8 }");
    let fields = hub.fields;
    match parse_field(&fields[0].ty) {
        Err(error) => assert_eq!(error.message(), "Unsupported type"),
        Ok(_) => panic!("accepted"),
    }
}

#[test]
fn services_are_numbered_in_order() {
    let hub = item(
        "struct Hub {
            x: u8, #[service] first_one: S<A, 1>, y: u8,
            #[service] #[cfg(a)] second: S<A, 1>, #[service] third3: [S<A, 1>; 2]
        }",
    );
    let servs = parse(&hub).unwrap();
    let ids: Vec<usize> = servs.iter().map(|serv| serv.id).collect();
    let names: Vec<String> = servs.iter().map(|serv| serv.ident.to_string()).collect();
    let uppers: Vec<String> = servs.iter().map(|serv| serv.upper.to_string()).collect();
    let attrs: Vec<String> = servs.iter().map(|serv| serv.attr.to_string()).collect();
    assert_eq!(ids, [0, 1, 2]);
    assert_eq!(names, ["first_one", "second", "third3"]);
    assert_eq!(uppers, ["FIRST_ONE", "SECOND", "THIRD3"]);
    assert_eq!(attrs, ["", "# [cfg (a)]", ""]);
}

#[test]
fn names_beyond_ascii_get_upper_case() {
    let hub = item("struct Hub { #[service] \u{e9}t\u{e9}: S<A, 1> }");
    let servs = parse(&hub).unwrap();
    assert_eq!(servs[0].upper.to_string(), "\u{c9}T\u{c9}");
    let hub = item("struct Hub { #[service] e\u{301}: S<A, 1>, #[service] \u{fc}: S<A, 1> }");
    let servs = parse(&hub).unwrap();
    assert_eq!(servs[0].upper.to_string(), "E\u{301}");
    assert_eq!(servs[1].upper.to_string(), "\u{dc}");
    assert_eq!(make_aliases(&ident("\u{c9}t\u{e9}")).sender.to_string(), "\u{c9}t\u{e9}Sender");
}

#[test]
fn a_service_is_made_of_its_field() {
    let hub = item("struct Hub { #[cfg(b)] name: S<A, 1> }");
    let fields = hub.fields;
    let ty = match parse_field(&fields[0].ty) {
        Ok(ty) => ty,
        Err(_) => panic!("refused"),
    };
    let serv = make_service(5, &fields[0], ty, "OTHER");
    assert_eq!(serv.id, 5);
    assert_eq!(serv.ident.to_string(), "name");
    assert_eq!(serv.upper.to_string(), "OTHER");
    assert_eq!(serv.attr.to_string(), "# [cfg (b)]");
}

#[test]
fn names_that_make_no_target_are_found() {
    let bad = item("struct Hub { r#as: u8, #[service] ok: S<A, 1>, #[service] r#fn: S<A, 1> }");
    assert!(matches!(find_trouble(&bad.fields), Some(Trouble::BadName(name)) if name == "R#FN"));
    let good = item("struct Hub { r#as: u8, #[service] ok: S<A, 1> }");
    assert!(find_trouble(&good.fields).is_none());
    let nameless = item("struct Hub(u8, #[service] S<A, 1>);");
    assert!(matches!(find_trouble(&nameless.fields), Some(Trouble::Nameless)));
    let nameless = item("struct Hub(#[service] u8);");
    assert!(matches!(find_trouble(&nameless.fields), Some(Trouble::Nameless)));
}

#[test]
fn unnamed_fields_that_are_no_services_are_skipped() {
    let hub = item("struct Hub(u8, A);");
    assert!(!hub.named);
    assert_eq!(hub.fields.len(), 2);
    assert!(hub.fields[0].ident.is_none());
    assert!(parse(&hub).unwrap().is_empty());
    let unit = item("struct Unit;");
    assert!(!unit.named && unit.fields.is_empty());
    assert!(parse(&unit).unwrap().is_empty());
}

#[test]
fn an_expansion_is_made_of_its_parts() {
    let hub = item("#[notifier(targets: T)] pub struct Hub { #[service] a: S<A, 1> }");
    let servs = parse(&hub).unwrap();
    let aliases = make_aliases(&hub.ident);
    assert_eq!(aliases.channel.to_string(), "HubChannel");
    assert_eq!(aliases.channels.to_string(), "HubChannels");
    assert_eq!(aliases.sender.to_string(), "HubSender");
    assert_eq!(aliases.receiver.to_string(), "HubReceiver");
    let code = expansion(&hub.vis, &hub.ident, &aliases, &ident("T"), &servs);
    assert_eq!(code.to_string(), notifier_impl(&hub).to_string());
}

#[test]
fn slots_are_the_single_services() {
    let hub = item(
        "struct Hub {
            #[service] a: S<A, 1>, #[service] b: (S<B, 1>, S<A, 1>), #[service] c: [S<A, 1>; 2]
        }",
    );
    let servs = parse(&hub).unwrap();
    let list = slots(&servs);
    let places: Vec<(usize, Option<usize>)> =
        list.iter().map(|slot| (slot.service, slot.index)).collect();
    assert_eq!(places, [(0, None), (1, Some(0)), (1, Some(1)), (2, None)]);
    assert_eq!(slot_groups(&list), vec![vec![0, 2, 3], vec![1]]);
}

#[test]
fn names_stand_in_their_arms() {
    let arm = name_arm(&ident("T"), &ident("MAIN_LOOP"), "MainLoop");
    assert_eq!(arm.to_string(), "T :: MAIN_LOOP => \"MainLoop\" ,");
    let arm = name_arm_array(&ident("T"), &ident("M"), "M");
    assert_eq!(arm.to_string(), "T :: M (_) => \"M\" ,");
}

#[test]
fn code_grows_token_by_token() {
    let code = Code::new()
        .word("let")
        .ident(&ident("x"))
        .punct('=')
        .number(12)
        .punct('+')
        .digits(340)
        .punct(';')
        .string("a b")
        .lifetime("q")
        .bracket(Code::new().word("y").colons().word("z"))
        .arrow()
        .paren(Code::new())
        .fat_arrow()
        .brace(Code::new().code(&stream("1 2")))
        .done();
    assert_eq!(
        code.to_string(),
        "let x = 12usize + 340 ; \"a b\" 'q [y :: z] -> () => { 1 2 }"
    );
}
