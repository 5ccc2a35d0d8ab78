use spl_interface_instructions::{
    extract_interface_from_attribute, process_enum, process_functions, DeclaredType, FieldDecl, FnInput,
    FunctionDecl, InterfaceInstruction, RequiredArgType, SplInterfaceError, VariantDecl,
};

fn path(text: &str) -> Vec<String> {
    text.split("::").map(|s| s.to_string()).collect()
}

fn ty(text: &str) -> DeclaredType {
    DeclaredType::Path { leading_colon: false, segments: path(text) }
}

fn field(name: &str, t: &str) -> FieldDecl {
    FieldDecl { ident: Some(name.to_string()), ty: ty(t) }
}

fn variant(interface: Option<&str>, fields: Vec<FieldDecl>) -> VariantDecl {
    VariantDecl { interface: interface.map(path), fields }
}

fn amount_variant(interface: &str) -> VariantDecl {
    variant(Some(interface), vec![field("amount", "u64")])
}

fn metadata_variant(interface: &str) -> VariantDecl {
    variant(Some(interface), vec![field("name", "String"), field("symbol", "String"), field("uri", "String")])
}

fn custom_variant() -> VariantDecl {
    variant(None, vec![field("custom_arg_1", "solana_program::pubkey::Pubkey"), field("custom_arg_2", "u32")])
}

fn typed(name: &str, t: &str) -> FnInput {
    FnInput::Typed { ident: Some(name.to_string()), ty: ty(t) }
}

fn function(interface: Option<&str>, inputs: Vec<FnInput>) -> FunctionDecl {
    FunctionDecl { interface: interface.map(path), inputs }
}

fn names(a: &str, b: &str) -> (String, String) {
    (a.to_string(), b.to_string())
}

#[test]
fn test_compiles() {
    let a = vec![amount_variant("srfc20_token::mint_to"), amount_variant("srfc20_token::transfer")];
    let b = vec![
        variant(Some("srfc22_associated_token::freeze"), vec![]),
        variant(Some("srfc22_associated_token::thaw"), vec![]),
    ];
    let c = vec![
        metadata_variant("srfc23_token_metadata::create_metadata"),
        metadata_variant("srfc23_token_metadata::update_metadata"),
    ];
    let d = vec![
        amount_variant("srfc20_token::mint_to"),
        amount_variant("srfc20_token::transfer"),
        amount_variant("srfc21_token::burn"),
        variant(Some("srfc22_associated_token::freeze"), vec![]),
        variant(Some("srfc22_associated_token::thaw"), vec![]),
        custom_variant(),
    ];
    let mut e = d.clone();
    e.insert(5, metadata_variant("srfc23_token_metadata::create_metadata"));
    e.insert(6, metadata_variant("srfc23_token_metadata::update_metadata"));
    assert_eq!(process_enum(&a), Ok(()));
    assert_eq!(process_enum(&b), Ok(()));
    assert_eq!(process_enum(&c), Ok(()));
    assert_eq!(process_enum(&d), Ok(()));
    assert_eq!(process_enum(&e), Ok(()));
}

#[test]
fn custom_variants_are_ignored() {
    let base = vec![amount_variant("srfc20_token::mint_to")];
    let expected = Err(SplInterfaceError::InstructionMissing { missing: vec![names("srfc20_token", "transfer")] });
    assert_eq!(process_enum(&base), expected);
    let mut with_custom = base.clone();
    with_custom.insert(0, custom_variant());
    with_custom.push(variant(None, vec![FieldDecl { ident: None, ty: DeclaredType::Other }]));
    assert_eq!(process_enum(&with_custom), expected);
    assert_eq!(process_enum(&vec![custom_variant()]), Ok(()));
}

#[test]
fn native_example_with_wrong_transfer_type_fails() {
    let variants = vec![
        variant(Some("srfc20_token::mint_to"), vec![field("amount", "u64")]),
        variant(Some("srfc20_token::transfer"), vec![field("this_should_error", "u8")]),
    ];
    assert_eq!(
        process_enum(&variants),
        Err(SplInterfaceError::InstructionNotFound {
            interface_namespace: "srfc20_token".to_string(),
            instruction_namespace: "transfer".to_string(),
        })
    );
}

#[test]
fn shank_example_with_unknown_interface_fails() {
    let variants = vec![variant(
        Some("token::mint_to"),
        vec![field("amount", "u64"), field("custom_arg_1", "String"), field("custom_arg_2", "u64")],
    )];
    assert_eq!(
        process_enum(&variants),
        Err(SplInterfaceError::InvalidInterfaceNamespace { interface_namespace: "token".to_string() })
    );
}

#[test]
fn malformed_annotation_is_a_parse_error() {
    assert_eq!(extract_interface_from_attribute(&path("srfc20_token")), Err(SplInterfaceError::ParseError));
    assert_eq!(extract_interface_from_attribute(&path("a::b::c")), Err(SplInterfaceError::ParseError));
    assert_eq!(extract_interface_from_attribute(&vec![]), Err(SplInterfaceError::ParseError));
    assert_eq!(
        extract_interface_from_attribute(&vec!["".to_string(), "x".to_string()]),
        Err(SplInterfaceError::ParseError)
    );
    assert_eq!(extract_interface_from_attribute(&path("srfc21_token::burn")), Ok(names("srfc21_token", "burn")));
    let variants = vec![amount_variant("srfc20_token")];
    assert_eq!(process_enum(&variants), Err(SplInterfaceError::ParseError));
}

#[test]
fn unsupported_argument_type_is_rejected() {
    let variants = vec![variant(Some("srfc21_token::burn"), vec![field("amount", "i64")])];
    assert_eq!(process_enum(&variants), Err(SplInterfaceError::ParseError));
    let v = variant(None, vec![FieldDecl { ident: Some("x".to_string()), ty: DeclaredType::Other }]);
    assert_eq!(
        InterfaceInstruction::from_variant(&"a".to_string(), &"b".to_string(), &v),
        Err(SplInterfaceError::ParseError)
    );
}

#[test]
fn argument_types_map_from_declared_types() {
    let kinds = [
        ("u8", RequiredArgType::U8),
        ("u16", RequiredArgType::U16),
        ("u32", RequiredArgType::U32),
        ("u64", RequiredArgType::U64),
        ("u128", RequiredArgType::U128),
        ("String", RequiredArgType::String),
        ("solana_program::pubkey::Pubkey", RequiredArgType::Pubkey),
    ];
    for (text, kind) in kinds {
        assert_eq!(RequiredArgType::from_declared_type(&ty(text)), Some(kind));
        assert_eq!(RequiredArgType::from_declared_type(&kind.declared_type()), Some(kind));
    }
    assert_eq!(RequiredArgType::from_declared_type(&ty("Pubkey")), None);
    assert_eq!(RequiredArgType::from_declared_type(&ty("u64::u64")), None);
    assert_eq!(
        RequiredArgType::from_declared_type(&DeclaredType::Path { leading_colon: true, segments: path("u8") }),
        None
    );
    assert_eq!(RequiredArgType::from_declared_type(&DeclaredType::Other), None);
}

#[test]
fn from_variant_reads_named_fields_in_order() {
    let v = variant(
        None,
        vec![
            field("name", "String"),
            FieldDecl { ident: None, ty: DeclaredType::Other },
            field("owner", "solana_program::pubkey::Pubkey"),
        ],
    );
    let ix = InterfaceInstruction::from_variant(&"iface".to_string(), &"op".to_string(), &v).unwrap();
    assert_eq!(ix.interface_namespace, "iface");
    assert_eq!(ix.instruction_namespace, "op");
    assert_eq!(
        ix.required_args,
        vec![("name".to_string(), RequiredArgType::String), ("owner".to_string(), RequiredArgType::Pubkey)]
    );
}

#[test]
fn from_item_fn_reads_identifier_arguments() {
    let f = function(
        None,
        vec![
            FnInput::Receiver,
            typed("amount", "u64"),
            FnInput::Typed { ident: None, ty: DeclaredType::Other },
            typed("decimals", "u8"),
        ],
    );
    let ix = InterfaceInstruction::from_item_fn(&"srfc20_token".to_string(), &"mint_to".to_string(), &f).unwrap();
    assert_eq!(ix.interface_namespace, "srfc20_token");
    assert_eq!(ix.instruction_namespace, "mint_to");
    assert_eq!(
        ix.required_args,
        vec![("amount".to_string(), RequiredArgType::U64), ("decimals".to_string(), RequiredArgType::U8)]
    );
}

#[test]
fn process_functions_validates_annotated_functions() {
    let functions = vec![
        function(Some("srfc20_token::mint_to"), vec![typed("amount", "u64")]),
        function(Some("srfc20_token::transfer"), vec![typed("amount", "u64")]),
        function(Some("srfc21_token::burn"), vec![typed("amount", "u64")]),
        function(Some("srfc22_associated_token::freeze"), vec![]),
        function(Some("srfc22_associated_token::thaw"), vec![]),
        function(None, vec![typed("anything", "u32")]),
    ];
    assert_eq!(process_functions(&functions), Ok(()));
    let partial = vec![function(Some("srfc22_associated_token::thaw"), vec![])];
    assert_eq!(
        process_functions(&partial),
        Err(SplInterfaceError::InstructionMissing { missing: vec![names("srfc22_associated_token", "freeze")] })
    );
}

#[test]
fn anchor_context_argument_is_rejected() {
    let functions = vec![function(
        Some("srfc20_token::mint_to"),
        vec![FnInput::Typed { ident: Some("ctx".to_string()), ty: DeclaredType::Other }, typed("amount", "u64")],
    )];
    assert_eq!(process_functions(&functions), Err(SplInterfaceError::ParseError));
}

#[test]
fn any_unreadable_declaration_is_a_parse_error() {
    let functions = vec![
        function(
            Some("srfc20_token::mint_to"),
            vec![FnInput::Typed { ident: Some("ctx".to_string()), ty: DeclaredType::Other }],
        ),
        function(Some("mint_to"), vec![typed("amount", "u64")]),
    ];
    assert_eq!(process_functions(&functions), Err(SplInterfaceError::ParseError));
    let variants = vec![
        variant(Some("srfc20_token::mint_to"), vec![field("amount", "i64")]),
        amount_variant("srfc20_token"),
    ];
    assert_eq!(process_enum(&variants), Err(SplInterfaceError::ParseError));
    let variants = vec![amount_variant("srfc20_token::mint_to"), amount_variant("srfc20_token")];
    assert_eq!(process_enum(&variants), Err(SplInterfaceError::ParseError));
}
