use notifier_derive::notifier::{find_refusal, notifier_impl, try_macro_body, Refusal};
use notifier_derive::read::read_struct;
use proc_macro2::{TokenStream, TokenTree};

/// The tokens as text, without regard to which punctuation is glued to which.
fn flatten(stream: TokenStream) -> Vec<String> {
    let mut list = Vec::new();
    for tree in stream {
        match tree {
            TokenTree::Group(group) => {
                list.push(format!("open {:?}", group.delimiter()));
                list.extend(flatten(group.stream()));
                list.push(format!("close {:?}", group.delimiter()));
            }
            other => list.push(other.to_string()),
        }
    }
    list
}

fn expand(source: &str) -> TokenStream {
    match try_macro_body(source.parse().unwrap()) {
        Ok(code) => code,
        Err(_) => panic!("refused"),
    }
}

fn assert_expands(source: &str, expected: &str) {
    let written = flatten(expand(source));
    let wanted = flatten(expected.parse().unwrap());
    for (i, (a, b)) in written.iter().zip(wanted.iter()).enumerate() {
        assert_eq!(a, b, "token {} after {:?}", i, &written[i.saturating_sub(12)..i]);
    }
    assert_eq!(written.len(), wanted.len());
}

#[test]
fn expands_an_empty_struct() {
    assert_expands(
        "#[notifier(targets: T)] struct Hub {}",
        r#"
        type HubChannel<'a, const ID: usize> = ::target_notifier::Channel<'a, Hub, T, ID>;
        type HubChannels<'a, const ID: usize, const U: usize>
            = ::target_notifier::Channels<'a, U, Hub, T, ID>;
        type HubSender<'a> = ::target_notifier::Sender<'a, Hub>;
        type HubReceiver<'a, T> = ::target_notifier::Receiver<'a, T>;
        #[derive(Debug, Clone, Copy, PartialEq, Eq)]
        enum T { GLOBAL_SENDER, }
        impl T {
            pub const fn id(&self) -> usize {
                match self { Self::GLOBAL_SENDER => usize::MAX, }
            }
        }
        impl From<::target_notifier::ID> for T {
            fn from(id: ::target_notifier::ID) -> Self {
                match id.id() { _ => T::GLOBAL_SENDER }
            }
        }
        impl From<T> for ::target_notifier::ID {
            fn from(target: T) -> Self {
                match target {
                    T::GLOBAL_SENDER => ::target_notifier::ID::new(usize::MAX).set_name(target.into())
                }
            }
        }
        impl From<usize> for T {
            fn from(id: usize) -> Self {
                match id { _ => Self::GLOBAL_SENDER, }
            }
        }
        impl From<T> for &'static str {
            fn from(target: T) -> Self {
                match target { T::GLOBAL_SENDER => "Global" }
            }
        }
        impl ::target_notifier::Notifier for Hub {}
        impl Hub { pub fn init_notifier(&mut self) { } }
        "#,
    );
}

#[test]
fn expands_services_of_every_kind() {
    assert_expands(
        r#"
        #[derive(Debug)]
        #[notifier(targets: Targets)]
        pub(crate) struct Hub {
            #[cfg(unix)]
            #[service]
            main_loop: Service<A, 4>,
            skipped: u8,
            #[service]
            pair: (Service<A, 1>, Service<B<u8>, { N }>),
            #[service]
            many: [Service<A, 2>; 3],
            #[service]
            #[cfg(windows)]
            #[cfg(never)]
            rows: [(Service<B<u8>, 1>, deep::Service<C, 1>); LEN + 1],
        }
        "#,
        r#"
        pub(crate) type HubChannel<'a, const ID: usize>
            = ::target_notifier::Channel<'a, Hub, Targets, ID>;
        pub(crate) type HubChannels<'a, const ID: usize, const U: usize>
            = ::target_notifier::Channels<'a, U, Hub, Targets, ID>;
        pub(crate) type HubSender<'a> = ::target_notifier::Sender<'a, Hub>;
        pub(crate) type HubReceiver<'a, T> = ::target_notifier::Receiver<'a, T>;
        #[derive(Debug, Clone, Copy, PartialEq, Eq)]
        pub(crate) enum Targets {
            #[cfg(unix)] MAIN_LOOP,
            PAIR,
            MANY(Option<usize>),
            #[cfg(windows)] ROWS(Option<usize>),
            GLOBAL_SENDER,
        }
        impl Targets {
            pub const fn id(&self) -> usize {
                match self {
                    #[cfg(unix)] Self::MAIN_LOOP => 0usize,
                    Self::PAIR => 1usize,
                    Self::MANY(_) => 2usize,
                    #[cfg(windows)] Self::ROWS(_) => 3usize,
                    Self::GLOBAL_SENDER => usize::MAX,
                }
            }
        }
        impl From<::target_notifier::ID> for Targets {
            fn from(id: ::target_notifier::ID) -> Self {
                match id.id() {
                    #[cfg(unix)] 0usize => Self::MAIN_LOOP,
                    1usize => Self::PAIR,
                    2usize => Self::MANY(id.index()),
                    #[cfg(windows)] 3usize => Self::ROWS(id.index()),
                    _ => Targets::GLOBAL_SENDER
                }
            }
        }
        impl From<Targets> for ::target_notifier::ID {
            fn from(target: Targets) -> Self {
                match target {
                    #[cfg(unix)]
                    Targets::MAIN_LOOP => ::target_notifier::ID::new(0usize).set_name(target.into()),
                    Targets::PAIR => ::target_notifier::ID::new(1usize).set_name(target.into()),
                    Targets::MANY(index) => match index {
                        Some(index) => ::target_notifier::ID::new(2usize).set_index(index),
                        None => ::target_notifier::ID::new(2usize)
                    }.set_name(target.into()),
                    #[cfg(windows)]
                    Targets::ROWS(index) => match index {
                        Some(index) => ::target_notifier::ID::new(3usize).set_index(index),
                        None => ::target_notifier::ID::new(3usize)
                    }.set_name(target.into()),
                    Targets::GLOBAL_SENDER
                        => ::target_notifier::ID::new(usize::MAX).set_name(target.into())
                }
            }
        }
        impl From<usize> for Targets {
            fn from(id: usize) -> Self {
                match id {
                    #[cfg(unix)] 0usize => Self::MAIN_LOOP,
                    1usize => Self::PAIR,
                    2usize => Self::MANY(None),
                    #[cfg(windows)] 3usize => Self::ROWS(None),
                    _ => Self::GLOBAL_SENDER,
                }
            }
        }
        impl From<Targets> for &'static str {
            fn from(target: Targets) -> Self {
                match target {
                    #[cfg(unix)] Targets::MAIN_LOOP => "MainLoop",
                    Targets::PAIR => "Pair",
                    Targets::MANY(_) => "Many",
                    #[cfg(windows)] Targets::ROWS(_) => "Rows",
                    Targets::GLOBAL_SENDER => "Global"
                }
            }
        }
        impl ::target_notifier::ServiceGet<A> for Hub {
            fn get(&self, id: impl Into<::target_notifier::ID>)
                -> ::core::option::Option<&'_ dyn ::target_notifier::DynamicService<A>>
            {
                let id: ::target_notifier::ID = id.into();
                ::core::option::Option::Some(match Targets::from(id) {
                    #[cfg(unix)]
                    Targets::MAIN_LOOP => { &self.main_loop }
                    Targets::PAIR => { &self.pair.0 }
                    Targets::MANY(index) => {
                        match self.many.get(match index {
                            ::core::option::Option::Some(index) => index,
                            ::core::option::Option::None => return ::core::option::Option::None,
                        }) {
                            ::core::option::Option::Some(service) => service,
                            ::core::option::Option::None => return ::core::option::Option::None,
                        }
                    }
                    _ => return ::core::option::Option::None
                })
            }
        }
        impl ::target_notifier::ServiceGet<B<u8> > for Hub {
            fn get(&self, id: impl Into<::target_notifier::ID>)
                -> ::core::option::Option<&'_ dyn ::target_notifier::DynamicService<B<u8> >>
            {
                let id: ::target_notifier::ID = id.into();
                ::core::option::Option::Some(match Targets::from(id) {
                    Targets::PAIR => { &self.pair.1 }
                    #[cfg(windows)]
                    Targets::ROWS(index) => {
                        &match self.rows.get(match index {
                            ::core::option::Option::Some(index) => index,
                            ::core::option::Option::None => return ::core::option::Option::None,
                        }) {
                            ::core::option::Option::Some(service) => service,
                            ::core::option::Option::None => return ::core::option::Option::None,
                        }.0
                    }
                    _ => return ::core::option::Option::None
                })
            }
        }
        impl ::target_notifier::ServiceGet<C> for Hub {
            fn get(&self, id: impl Into<::target_notifier::ID>)
                -> ::core::option::Option<&'_ dyn ::target_notifier::DynamicService<C>>
            {
                let id: ::target_notifier::ID = id.into();
                ::core::option::Option::Some(match Targets::from(id) {
                    #[cfg(windows)]
                    Targets::ROWS(index) => {
                        &match self.rows.get(match index {
                            ::core::option::Option::Some(index) => index,
                            ::core::option::Option::None => return ::core::option::Option::None,
                        }) {
                            ::core::option::Option::Some(service) => service,
                            ::core::option::Option::None => return ::core::option::Option::None,
                        }.1
                    }
                    _ => return ::core::option::Option::None
                })
            }
        }
        #[cfg(unix)]
        impl ::target_notifier::marker::ServiceGet<{ Targets::MAIN_LOOP.id() }, A> for Hub {}
        impl ::target_notifier::marker::ServiceGet<{ Targets::PAIR.id() }, A> for Hub {}
        impl ::target_notifier::marker::ServiceGet<{ Targets::MANY(None).id() }, A> for Hub {}
        impl ::target_notifier::marker::ServiceGet<{ Targets::PAIR.id() }, B<u8> > for Hub {}
        #[cfg(windows)]
        impl ::target_notifier::marker::ServiceGet<{ Targets::ROWS(None).id() }, B<u8> > for Hub {}
        #[cfg(windows)]
        impl ::target_notifier::marker::ServiceGet<{ Targets::ROWS(None).id() }, C> for Hub {}
        impl ::target_notifier::NotifierSenders<A> for Hub {
            type Iter<'ch> = impl Iterator<Item = &'ch dyn DynamicService<A>> + Clone
                where A: 'ch, Self: 'ch;
            fn get<'ch>(&'ch self) -> Self::Iter<'ch> {
                let iter = [].into_iter();
                #[cfg(unix)]
                let iter = iter.chain(
                    [&self.main_loop as &dyn ::target_notifier::DynamicService<A>].into_iter()
                );
                let iter = iter.chain(
                    [&self.pair.0 as &dyn ::target_notifier::DynamicService<A>].into_iter()
                );
                let iter = iter.chain(
                    self.many.iter().map(|item| item as &dyn ::target_notifier::DynamicService<A>)
                );
                iter
            }
        }
        impl ::target_notifier::NotifierSenders<B<u8> > for Hub {
            type Iter<'ch> = impl Iterator<Item = &'ch dyn DynamicService<B<u8> >> + Clone
                where B<u8>: 'ch, Self: 'ch;
            fn get<'ch>(&'ch self) -> Self::Iter<'ch> {
                let iter = [].into_iter();
                let iter = iter.chain(
                    [&self.pair.1 as &dyn ::target_notifier::DynamicService<B<u8> >].into_iter()
                );
                #[cfg(windows)]
                let iter = iter.chain(
                    self.rows.iter()
                        .map(|item| &item.0 as &dyn ::target_notifier::DynamicService<B<u8> >)
                );
                iter
            }
        }
        impl ::target_notifier::NotifierSenders<C> for Hub {
            type Iter<'ch> = impl Iterator<Item = &'ch dyn DynamicService<C>> + Clone
                where C: 'ch, Self: 'ch;
            fn get<'ch>(&'ch self) -> Self::Iter<'ch> {
                let iter = [].into_iter();
                #[cfg(windows)]
                let iter = iter.chain(
                    self.rows.iter()
                        .map(|item| &item.1 as &dyn ::target_notifier::DynamicService<C>)
                );
                iter
            }
        }
        impl ::target_notifier::Notifier for Hub {}
        impl Hub {
            #[cfg(unix)]
            pub fn main_loop(&self)
                -> ::target_notifier::Channel<'_, Self, Targets, { Targets::MAIN_LOOP.id() }>
            {
                ::target_notifier::Channel::new(&self, Targets::MAIN_LOOP)
            }
            pub fn pair(&self)
                -> ::target_notifier::Channel<'_, Self, Targets, { Targets::PAIR.id() }>
            {
                ::target_notifier::Channel::new(&self, Targets::PAIR)
            }
            pub fn many(&self)
                -> ::target_notifier::Channels<'_, { 3 }, Self, Targets, { Targets::MANY(None).id() }>
            {
                ::target_notifier::Channels::new(&self, Targets::MANY(None))
            }
            #[cfg(windows)]
            pub fn rows(&self)
                -> ::target_notifier::Channels<
                    '_, { LEN + 1 }, Self, Targets, { Targets::ROWS(None).id() }>
            {
                ::target_notifier::Channels::new(&self, Targets::ROWS(None))
            }
            pub fn init_notifier(&mut self) {
                #[cfg(unix)]
                self.main_loop.init(Targets::MAIN_LOOP);
                self.pair.0.init(Targets::PAIR);
                self.pair.1.init(Targets::PAIR);
                ::target_notifier::Service::array(Targets::MANY(None), &mut self.many, |id, many| {
                    many.init(id)
                });
                #[cfg(windows)]
                ::target_notifier::Service::array(Targets::ROWS(None), &mut self.rows, |id, rows| {
                    rows.0.init(id);
                    rows.1.init(id);
                });
            }
        }
        "#,
    );
}

#[test]
fn operators_are_glued_and_other_punctuation_is_not() {
    let code = expand("#[notifier(targets: T)] struct Hub { #[service] s: S<A, 1> }").to_string();
    assert!(code.contains("-> :: core :: option :: Option < & '_ dyn"));
    assert!(code.contains("DynamicService < A >> {"));
    assert!(code.contains("0usize => Self :: S ,"));
}

fn assert_reports(ty: &str, message: &str) {
    let source = format!("#[notifier(targets: T)] struct Hub {{ #[service] a: {} }}", ty);
    let wanted = format!("compile_error ! {{ {:?} }}", message);
    assert_eq!(expand(&source).to_string(), wanted);
}

#[test]
fn reports_fields_that_are_no_services() {
    let two = "The type must contain two template arguments";
    let second = "The second type must be a constant expression";
    let first = "The first argument must be a type";
    let nested = "Services can only be grouped from services, not other groups or arrays";
    assert_reports("u8", two);
    assert_reports("Service<A>", two);
    assert_reports("Service<A, 1, 2>", two);
    assert_reports("Service(A) -> B", two);
    assert_reports("Service<A, B>", second);
    assert_reports("Service<A, 'a>", second);
    assert_reports("Service<1, A>", first);
    assert_reports("Service<'a, 1>", first);
    assert_reports("(Service<A, 1>, (Service<A, 1>,))", nested);
    assert_reports("(Service<A, 1>, [Service<A, 1>; 2])", nested);
    assert_reports("(Service<A, 1>, u8)", two);
    assert_reports("[&'static A; 2]", "Unsupported type");
    assert_reports("&'static A", "Unsupported type");
}

#[test]
fn reports_the_first_wrong_field_only() {
    let code = expand(
        "#[notifier(targets: T)] struct Hub {
            #[service] a: Service<A, 1>, ignored: &'static u8,
            #[service] b: Service<A, B>, #[service] c: &'static u8
        }",
    );
    assert_eq!(
        code.to_string(),
        "compile_error ! { \"The second type must be a constant expression\" }"
    );
}

#[test]
fn reports_input_that_is_no_struct() {
    let code = expand("enum Hub { A }").to_string();
    assert_eq!(code, "compile_error ! { \"expected `struct`\" }");
}

#[test]
fn reports_other_items_whatever_literals_they_hold() {
    for source in ["enum E { A = c\"x\" }", "pub union U { a: [u8; c\"x\"] }", "", "c\"x\""] {
        let code = expand(source).to_string();
        assert!(code.starts_with("compile_error ! { \""), "{}", code);
        assert!(code.contains("expected `struct`"), "{}", code);
    }
}

#[test]
fn expands_structs_beside_attributes_that_set_nothing() {
    let plain = expand("#[notifier(targets: T)] struct Hub { #[service] s: S<A, 1> }");
    let noisy = expand(
        "#[notifier = c\"x\"] #[notifier(targets: T)] #[notifier(targets: U, note = c\"x\")]
         struct Hub {
            #[service] s: S<A, 1>,
            a: [u8; { macro_rules! m { () => { c\"x\" } } 1 }],
            b: self::m!(c\"x\"),
        }",
    );
    assert_eq!(plain.to_string(), noisy.to_string());
}

fn refusal(source: &str) -> Refusal {
    match try_macro_body(source.parse().unwrap()) {
        Ok(_) => panic!("expanded"),
        Err(reason) => reason,
    }
}

#[test]
fn refuses_structs_without_named_fields() {
    assert!(matches!(
        refusal("#[notifier(targets: T)] struct Hub(u8);"),
        Refusal::UnnamedFields(name) if name == "Hub"
    ));
    assert!(matches!(refusal("struct Unit;"), Refusal::UnnamedFields(name) if name == "Unit"));
}

#[test]
fn refuses_literals_that_the_parser_does_not_know() {
    for source in [
        "#[notifier(targets: T)] struct Hub { #[service] a: Service<A, c\"x\"> }",
        "#[notifier(targets: T)] struct Hub { #[service] a: [Service<A, 1>; c\"x\"] }",
        "#[notifier(targets: T)] struct Hub { a: [u8; !(c\"x\")] }",
        "#[notifier(targets: T)] #[notifier(c\"x\")] struct Hub {}",
        "#[notifier(c\"x\")] struct Hub(u8);",
    ] {
        assert!(matches!(refusal(source), Refusal::UnknownLiteral(text) if text == "c\"x\""));
    }
}

#[test]
fn expands_structs_whose_attributes_and_macros_hold_other_literals() {
    let plain = expand("#[notifier(targets: T)] struct Hub { #[service] s: S<A, 1>, a: u8 }");
    let noisy = expand(
        "#[doc = c\"x\"] #[notifier(targets: T)] struct Hub {
            #[other(c\"x\")] #[service] s: S<A, { len!(c\"x\") }>, a: m!(c\"x\")
        }",
    );
    assert_eq!(plain.to_string(), noisy.to_string());
}

#[test]
fn constants_paths_and_generics_change_nothing() {
    let plain = expand("#[notifier(targets: T)] struct Hub { #[service] s: [S<A, 1>; 3] }");
    let other = expand(
        "#[notifier(targets: T)] struct Hub<X> { #[service] s: [a::b::Other<A, { N + 1 }>; 3] }",
    );
    assert_eq!(plain.to_string(), other.to_string());
}

#[test]
fn numbers_lead_back_to_targets() {
    let code = expand(
        "#[notifier(targets: T)] struct Hub {
            #[service] a: S<A, 1>, #[service] b: [S<A, 1>; 3], #[service] c: (S<A, 1>, S<B, 1>)
        }",
    )
    .to_string();
    for arm in [
        "Self :: A => 0usize ,",
        "Self :: B (_) => 1usize ,",
        "Self :: C => 2usize ,",
        "Self :: GLOBAL_SENDER => usize :: MAX ,",
        "0usize => Self :: A ,",
        "1usize => Self :: B (None) ,",
        "1usize => Self :: B (id . index ()) ,",
        "2usize => Self :: C ,",
        "_ => Self :: GLOBAL_SENDER ,",
    ] {
        assert!(code.contains(arm), "{}", arm);
    }
}

#[test]
fn each_type_has_as_many_steps_as_arms() {
    let code = expand(
        "#[notifier(targets: T)] struct Hub {
            #[service] a: S<A, 1>, #[service] b: [S<A, 1>; 3], #[service] c: (S<A, 1>, S<B, 1>)
        }",
    )
    .to_string();
    assert_eq!(code.matches("NotifierSenders <").count(), 2);
    assert_eq!(code.matches(":: ServiceGet < A > for").count(), 1);
    assert_eq!(code.matches(":: ServiceGet < B > for").count(), 1);
    assert_eq!(code.matches("iter . chain (").count(), 4);
    assert_eq!(code.matches("=> { &").count() + code.matches("=> { match").count(), 4);
}

#[test]
fn types_that_differ_in_a_comma_have_their_own_impls() {
    let code = expand(
        "#[notifier(targets: T)] struct Hub {
            #[service] a: S<M<A>, 1>, #[service] b: S<M<A,>, 1>, #[service] c: S<M<A>, 2>
        }",
    )
    .to_string();
    assert_eq!(code.matches("NotifierSenders < M < A > >").count(), 1);
    assert_eq!(code.matches("NotifierSenders < M < A , > >").count(), 1);
}

#[test]
fn refuses_structs_without_targets() {
    assert!(matches!(refusal("struct Hub {}"), Refusal::NoTargets));
    assert!(matches!(refusal("#[notifier(other: T)] struct Hub {}"), Refusal::NoTargets));
    assert!(matches!(refusal("#[notifier(targets = T)] struct Hub {}"), Refusal::NoTargets));
    assert!(matches!(refusal("#[notifier(targets: a::T)] struct Hub {}"), Refusal::NoTargets));
    assert!(matches!(refusal("#[my::notifier(targets: T)] struct Hub {}"), Refusal::NoTargets));
}

#[test]
fn refuses_names_that_make_no_identifier() {
    assert!(matches!(
        refusal("#[notifier(targets: T)] struct Hub { #[service] r#type: Service<A, 1> }"),
        Refusal::BadName(name) if name == "R#TYPE"
    ));
    assert!(matches!(
        refusal("#[notifier(targets: T)] struct r#Hub {}"),
        Refusal::BadName(name) if name == "r#HubChannel"
    ));
}

#[test]
fn a_wrong_field_before_a_bad_name_is_reported() {
    let code = expand(
        "#[notifier(targets: T)] struct r#Hub {
            #[service] a: &'static u8, #[service] r#type: Service<A, 1>
        }",
    );
    assert_eq!(code.to_string(), "compile_error ! { \"Unsupported type\" }");
}

#[test]
fn refuses_arrays_of_arrays() {
    assert!(matches!(
        refusal("#[notifier(targets: T)] struct Hub { #[service] a: [[Service<A, 1>; 2]; 3] }"),
        Refusal::NestedArrays
    ));
}

#[test]
fn the_last_targets_attribute_counts() {
    let once = expand("#[notifier(targets: Last)] struct Hub {}");
    let twice = expand("#[notifier(targets: First)] #[notifier(targets: Last)] struct Hub {}");
    assert_eq!(once.to_string(), twice.to_string());
}

#[test]
fn unmarked_fields_and_other_attributes_change_nothing() {
    let plain = expand("#[notifier(targets: T)] struct Hub { #[service] s: S<A, 1> }");
    let noisy = expand(
        "#[doc = \"x\"] #[notifier(targets: T)] #[notifier] struct Hub {
            a: u8, #[doc = \"y\"] #[service] s: S<A, 1>, #[not::service] b: u8
        }",
    );
    assert_eq!(plain.to_string(), noisy.to_string());
}

#[test]
fn a_struct_is_read_before_it_is_expanded() {
    let source = "#[notifier(targets: T)] pub struct Hub { #[service] s: S<A, 1> }";
    let item = read_struct(source.parse().unwrap()).unwrap();
    assert!(find_refusal(&item).is_none());
    assert_eq!(notifier_impl(&item).to_string(), expand(source).to_string());
}
