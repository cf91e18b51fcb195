use lakka::expand::{
    messages_from_tokens, ExpandError, args_to_fields_and_args, extract_generic_params, flatten_type_name, messages,
    parse_mode, plan_messages, FnInput, GenericArg, ImplBlock, ImplItem,
    MacroAttr, MacroError, MessageKind, MethodSig, Mode, PathEnd, SelfType,
};

fn method(name: &str, inputs: Vec<FnInput>, returns_value: bool, is_async: bool) -> ImplItem {
    ImplItem::Method(MethodSig { name: name.to_string(), inputs, returns_value, is_async })
}

fn ref_self() -> FnInput {
    FnInput::Receiver { reference: true, colon: false }
}

fn arg(name: &str) -> FnInput {
    FnInput::Typed { ident: Some(name.to_string()) }
}

fn plain_type(name: &str) -> SelfType {
    SelfType::Path(Some(PathEnd { ident: name.to_string(), args: vec![] }))
}

fn counter_block() -> ImplBlock {
    ImplBlock {
        self_ty: plain_type("Counter"),
        self_ty_tokens: "Counter".to_string(),
        has_generics: false,
        items: vec![
            method("inc", vec![ref_self()], false, false),
            method("get", vec![ref_self()], true, false),
        ],
    }
}

#[test]
fn readme_counter_plan() {
    let plan = messages(&MacroAttr::Unparsed, &counter_block()).unwrap();
    assert_eq!(plan.mode, Mode::Bounded);
    assert_eq!(plan.name, "Counter");
    assert_eq!(plan.module_name, "counter");
    assert_eq!(plan.ask_enum, "CounterAskMessage");
    assert_eq!(plan.tell_enum, "CounterTellMessage");
    assert_eq!(plan.message_name, "CounterMessage");
    assert_eq!(plan.handle_name, "CounterHandle");
    assert!(!plan.generics_from_impl);
    assert!(plan.phantoms.is_empty());
    assert_eq!(plan.messages.len(), 2);
    assert_eq!(plan.messages[0].item, 0);
    assert_eq!(plan.messages[0].variant, "Inc");
    assert_eq!(plan.messages[0].kind, MessageKind::Tell);
    assert!(plan.messages[0].fields.is_empty());
    assert_eq!(plan.messages[1].item, 1);
    assert_eq!(plan.messages[1].variant, "Get");
    assert_eq!(plan.messages[1].kind, MessageKind::Ask);
    assert!(!plan.messages[1].is_async);
}

#[test]
fn attribute_modes() {
    assert_eq!(parse_mode(&MacroAttr::Unparsed), Ok(Mode::Bounded));
    assert_eq!(parse_mode(&MacroAttr::Path(Some("default".to_string()))), Ok(Mode::Bounded));
    assert_eq!(parse_mode(&MacroAttr::Path(Some("unbounded".to_string()))), Ok(Mode::Unbounded));
    assert_eq!(parse_mode(&MacroAttr::Path(Some("bounded".to_string()))), Err(MacroError::InvalidAttribute));
    assert_eq!(parse_mode(&MacroAttr::Path(None)), Err(MacroError::InvalidAttribute));
    assert_eq!(parse_mode(&MacroAttr::Other), Err(MacroError::InvalidAttribute));
    let plan = messages(&MacroAttr::Path(Some("unbounded".to_string())), &counter_block()).unwrap();
    assert_eq!(plan.mode, Mode::Unbounded);
}

#[test]
fn trait_names_per_mode() {
    assert_eq!(
        Mode::Bounded.trait_names(),
        ("BoundedActor".to_string(), "ActorHandle".to_string(), "ChannelSender".to_string())
    );
    assert_eq!(
        Mode::Unbounded.trait_names(),
        (
            "UnboundedActor".to_string(),
            "UnboundedActorHandle".to_string(),
            "UnboundedChannelSender".to_string()
        )
    );
}

#[test]
fn refusals() {
    assert_eq!(
        messages(&MacroAttr::Other, &counter_block()).unwrap_err(),
        MacroError::InvalidAttribute
    );
    let mut block = counter_block();
    block.self_ty = SelfType::Other;
    assert_eq!(messages(&MacroAttr::Unparsed, &block).unwrap_err(), MacroError::UnexpectedType);
    // The attribute is read before the type.
    assert_eq!(messages(&MacroAttr::Other, &block).unwrap_err(), MacroError::InvalidAttribute);
    block.self_ty = SelfType::Path(None);
    assert_eq!(messages(&MacroAttr::Unparsed, &block).unwrap_err(), MacroError::NoActorName);
    assert_eq!(lakka::expand_pakka::messages(&MacroAttr::Unparsed, &block).unwrap_err(), MacroError::NoActorName);
}

#[test]
fn refusal_texts() {
    assert_eq!(
        MacroError::InvalidAttribute.message(),
        "Invalid attribute parameter. Use #[lakka::messages(unbounded)] or #[lakka::messages] only"
    );
    assert_eq!(MacroError::NoActorName.message(), "Unable to determine actor name");
    assert_eq!(MacroError::UnexpectedType.message(), "Unexpected type in impl block");
}

#[test]
fn only_reference_receivers_become_messages() {
    let items = vec![
        method("new", vec![], true, false),
        method("consume", vec![FnInput::Receiver { reference: false, colon: false }], false, false),
        method("typed_self", vec![FnInput::Receiver { reference: true, colon: true }], false, false),
        ImplItem::Other,
        method("chat_send", vec![ref_self(), arg("msg")], false, true),
        method("set_value", vec![ref_self(), arg("val")], false, false),
        method("free", vec![arg("x")], false, false),
    ];
    let plans = plan_messages(&items);
    assert_eq!(plans.len(), 2);
    assert_eq!(plans[0].item, 4);
    assert_eq!(plans[0].variant, "ChatSend");
    assert!(plans[0].is_async);
    assert_eq!(plans[0].fields, vec![1]);
    assert_eq!(plans[1].item, 5);
    assert_eq!(plans[1].variant, "SetValue");
    assert_eq!(plans[1].fields, vec![1]);
}

#[test]
fn fields_are_named_typed_inputs() {
    let inputs = vec![
        ref_self(),
        arg("name"),
        FnInput::Typed { ident: None },
        arg("self"),
        arg("addr"),
    ];
    assert_eq!(args_to_fields_and_args(&inputs), vec![1, 4]);
    assert!(args_to_fields_and_args(&vec![]).is_empty());
}

#[test]
fn generic_actor_names() {
    let ty = SelfType::Path(Some(PathEnd {
        ident: "Connection".to_string(),
        args: vec![GenericArg::Type, GenericArg::Lifetime],
    }));
    assert_eq!(extract_generic_params(&ty), vec![GenericArg::Type, GenericArg::Lifetime]);
    assert!(extract_generic_params(&SelfType::Other).is_empty());
    let block = ImplBlock {
        self_ty: ty,
        self_ty_tokens: "Connection < Connected , 'a >".to_string(),
        has_generics: false,
        items: vec![method("disconnect", vec![ref_self()], true, false)],
    };
    let plan = messages(&MacroAttr::Unparsed, &block).unwrap();
    assert_eq!(plan.module_name, "connection_connected'a");
    assert_eq!(plan.phantoms, vec![GenericArg::Type, GenericArg::Lifetime]);
    assert_eq!(plan.handle_name, "ConnectionHandle");
    let pakka_plan = lakka::expand_pakka::messages(&MacroAttr::Unparsed, &block).unwrap();
    assert_eq!(pakka_plan.module_name, "connection_connected'a");
    assert!(pakka_plan.phantoms.is_empty());
    assert_eq!(pakka_plan.mode, Mode::Bounded);
}

#[test]
fn generic_impl_takes_its_own_generics() {
    let mut block = counter_block();
    block.has_generics = true;
    assert!(messages(&MacroAttr::Unparsed, &block).unwrap().generics_from_impl);
    assert!(lakka::expand_pakka::messages(&MacroAttr::Unparsed, &block).unwrap().generics_from_impl);
}

#[test]
fn type_name_flattening() {
    assert_eq!(flatten_type_name("crate :: actors :: Foo < A , B >"), "crateactorsFooAB");
    assert_eq!(flatten_type_name("Connection < Disconnected , Happy >"), "ConnectionDisconnectedHappy");
    assert_eq!(flatten_type_name(":::x"), ":x");
    assert_eq!(flatten_type_name("a: :b"), "ab");
    assert_eq!(flatten_type_name(""), "");
}

fn tokens(text: &str) -> proc_macro2::TokenStream {
    text.parse().unwrap()
}

#[test]
fn readme_counter_from_tokens() {
    let (input, plan) = messages_from_tokens(
        tokens(""),
        tokens("impl Counter { fn inc(&mut self) { self.counter += 1; } fn get(&self) -> i32 { self.counter } }"),
    );
    assert_eq!(input.attr, MacroAttr::Unparsed);
    let (_, block) = input.item.unwrap();
    assert_eq!(block.self_ty, SelfType::Path(Some(PathEnd { ident: "Counter".to_string(), args: vec![] })));
    assert_eq!(block.self_ty_tokens, "Counter");
    assert!(!block.has_generics);
    assert_eq!(block.items.len(), 2);
    assert_eq!(
        block.items[1],
        ImplItem::Method(MethodSig {
            name: "get".to_string(),
            inputs: vec![FnInput::Receiver { reference: true, colon: false }],
            returns_value: true,
            is_async: false,
        })
    );
    let plan = plan.unwrap();
    assert_eq!(plan.module_name, "counter");
    assert_eq!(plan.messages[0].variant, "Inc");
    assert_eq!(plan.messages[0].kind, MessageKind::Tell);
    assert_eq!(plan.messages[1].variant, "Get");
    assert_eq!(plan.messages[1].kind, MessageKind::Ask);
}

#[test]
fn bad_attribute_is_refused_before_the_item_is_read() {
    let (input, plan) = messages_from_tokens(tokens("bounded"), tokens("not an impl"));
    assert_eq!(input.attr, MacroAttr::Path(Some("bounded".to_string())));
    assert!(input.item.is_none());
    assert_eq!(plan.unwrap_err(), ExpandError::Refused(MacroError::InvalidAttribute));
    let (input, plan) = messages_from_tokens(tokens("a = 1"), tokens("impl A {}"));
    assert_eq!(input.attr, MacroAttr::Other);
    assert_eq!(plan.unwrap_err().message(), MacroError::InvalidAttribute.message());
}

#[test]
fn unparsable_item() {
    let (input, plan) = messages_from_tokens(tokens("unbounded"), tokens("struct A;"));
    assert_eq!(input.attr, MacroAttr::Path(Some("unbounded".to_string())));
    assert!(input.item.is_none());
    match plan.unwrap_err() {
        ExpandError::Unparsable(text) => assert!(text.starts_with("Error with parsing input: ")),
        other => panic!("{:?}", other),
    }
}

#[test]
fn reference_type_is_refused() {
    let (_, plan) = messages_from_tokens(tokens(""), tokens("impl &A { fn f(&self) {} }"));
    assert_eq!(plan.unwrap_err(), ExpandError::Refused(MacroError::UnexpectedType));
}

#[test]
fn generic_example_module_names() {
    let item = "impl Connection<Disconnected, Happy> { pub fn connect(&self) -> u8 { 0 } }";
    let (input, plan) = messages_from_tokens(tokens(""), tokens(item));
    let plan = plan.unwrap();
    assert_eq!(plan.module_name, "connection_disconnected_happy");
    assert_eq!(plan.phantoms, vec![GenericArg::Type, GenericArg::Type]);
    let (_, block) = input.item.unwrap();
    assert_eq!(block.self_ty_tokens, "Connection < Disconnected , Happy >");
    let (parsed, plan) = lakka::expand_pakka::messages_from_tokens(tokens(""), tokens(item));
    assert!(parsed.is_some());
    let plan = plan.unwrap();
    assert_eq!(plan.module_name, "connection_disconnected_happy");
    assert_eq!(plan.handle_name, "ConnectionHandle");
    assert!(plan.phantoms.is_empty());
}

#[test]
fn receivers_and_patterns_from_tokens() {
    let item = "impl<T> Holder<T> {
        fn new() -> Self { todo!() }
        fn consume(self) {}
        fn typed(self: &Self) {}
        async fn set(&mut self, val: u16, (a, b): (u8, u8), _: u8) {}
        const X: u8 = 1;
    }";
    let (input, plan) = messages_from_tokens(tokens("default"), tokens(item));
    let (_, block) = input.item.unwrap();
    assert!(block.has_generics);
    assert_eq!(block.items.len(), 5);
    assert_eq!(block.items[4], ImplItem::Other);
    match &block.items[3] {
        ImplItem::Method(m) => {
            assert!(m.is_async);
            assert!(!m.returns_value);
            assert_eq!(
                m.inputs,
                vec![
                    FnInput::Receiver { reference: true, colon: false },
                    FnInput::Typed { ident: Some("val".to_string()) },
                    FnInput::Typed { ident: None },
                    FnInput::Typed { ident: None },
                ]
            );
        }
        other => panic!("{:?}", other),
    }
    match &block.items[2] {
        ImplItem::Method(m) => assert_eq!(m.inputs, vec![FnInput::Receiver { reference: false, colon: true }]),
        other => panic!("{:?}", other),
    }
    let plan = plan.unwrap();
    assert!(plan.generics_from_impl);
    assert_eq!(plan.messages.len(), 1);
    assert_eq!(plan.messages[0].item, 3);
    assert_eq!(plan.messages[0].variant, "Set");
    assert_eq!(plan.messages[0].fields, vec![1]);
}

#[test]
fn unparsable_item_carries_syn_text() {
    let item = "struct S;";
    let syn_text = match syn::parse2::<syn::ItemImpl>(tokens(item)) {
        Ok(_) => panic!("parsed"),
        Err(e) => e.to_string(),
    };
    let (_, plan) = messages_from_tokens(tokens(""), tokens(item));
    assert_eq!(plan.unwrap_err(), ExpandError::Unparsable(format!("Error with parsing input: {syn_text}")));
    let (parsed, plan) = lakka::expand_pakka::messages_from_tokens(tokens(""), tokens(item));
    assert!(parsed.is_none());
    assert_eq!(plan.unwrap_err().message(), format!("Error with parsing input: {syn_text}"));
}
