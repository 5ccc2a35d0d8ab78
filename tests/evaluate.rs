use spl_interface_instructions::registry::{check_interface, check_registry};
use spl_interface_instructions::{
    builtin_interfaces, evaluate_against, evaluate_interface_instructions, lookup, Interface, InterfaceInstruction,
    InterfaceDefinition, RequiredArgType, SplInterfaceError, TestInterface, TokenInterface, SRFC20, SRFC21, SRFC22, SRFC23,
};

fn ix(interface: &str, instruction: &str, args: &[(&str, RequiredArgType)]) -> InterfaceInstruction {
    InterfaceInstruction {
        interface_namespace: interface.to_string(),
        instruction_namespace: instruction.to_string(),
        required_args: args.iter().map(|(n, t)| (n.to_string(), *t)).collect(),
    }
}

fn amount(interface: &str, instruction: &str) -> InterfaceInstruction {
    ix(interface, instruction, &[("amount", RequiredArgType::U64)])
}

fn not_found(interface: &str, instruction: &str) -> SplInterfaceError {
    SplInterfaceError::InstructionNotFound {
        interface_namespace: interface.to_string(),
        instruction_namespace: instruction.to_string(),
    }
}

fn missing(pairs: &[(&str, &str)]) -> SplInterfaceError {
    SplInterfaceError::InstructionMissing {
        missing: pairs.iter().map(|(a, b)| (a.to_string(), b.to_string())).collect(),
    }
}

#[test]
fn complete_implementation_passes() {
    for declared in [
        SRFC20::instructions(),
        SRFC21::instructions(),
        SRFC22::instructions(),
        SRFC23::instructions(),
    ] {
        assert_eq!(evaluate_interface_instructions(declared), Ok(()));
    }
}

#[test]
fn complete_implementation_in_any_order_passes() {
    let declared = vec![amount("srfc20_token", "transfer"), amount("srfc20_token", "mint_to")];
    assert_eq!(evaluate_interface_instructions(declared), Ok(()));
}

#[test]
fn nothing_declared_passes() {
    assert_eq!(evaluate_interface_instructions(vec![]), Ok(()));
}

#[test]
fn missing_instruction_is_reported() {
    let declared = vec![amount("srfc20_token", "mint_to")];
    assert_eq!(evaluate_interface_instructions(declared), Err(missing(&[("srfc20_token", "transfer")])));
}

#[test]
fn wrong_signature_is_not_found() {
    let declared = vec![
        amount("srfc20_token", "mint_to"),
        ix("srfc20_token", "transfer", &[("amount", RequiredArgType::U32)]),
    ];
    assert_eq!(evaluate_interface_instructions(declared), Err(not_found("srfc20_token", "transfer")));
}

#[test]
fn wrong_argument_count_is_not_found() {
    let declared = vec![ix("srfc22_associated_token", "freeze", &[("amount", RequiredArgType::U64)])];
    assert_eq!(
        evaluate_interface_instructions(declared),
        Err(not_found("srfc22_associated_token", "freeze"))
    );
}

#[test]
fn instruction_outside_the_interface_is_not_found() {
    let declared = vec![amount("srfc20_token", "burn")];
    assert_eq!(evaluate_interface_instructions(declared), Err(not_found("srfc20_token", "burn")));
}

#[test]
fn duplicate_claim_is_not_found() {
    let declared = vec![
        amount("srfc20_token", "mint_to"),
        amount("srfc20_token", "mint_to"),
        amount("srfc20_token", "transfer"),
    ];
    assert_eq!(evaluate_interface_instructions(declared), Err(not_found("srfc20_token", "mint_to")));
}

#[test]
fn argument_names_do_not_matter() {
    let declared = vec![
        ix("srfc20_token", "mint_to", &[("quantity", RequiredArgType::U64)]),
        ix("srfc20_token", "transfer", &[("value", RequiredArgType::U64)]),
    ];
    assert_eq!(evaluate_interface_instructions(declared), Ok(()));
}

#[test]
fn interfaces_are_validated_independently() {
    let mut declared = SRFC20::instructions();
    declared.extend(SRFC22::instructions());
    assert_eq!(evaluate_interface_instructions(declared), Ok(()));

    let mut declared = SRFC20::instructions();
    declared.push(ix("srfc22_associated_token", "freeze", &[]));
    assert_eq!(
        evaluate_interface_instructions(declared),
        Err(missing(&[("srfc22_associated_token", "thaw")]))
    );

    let mut declared = vec![amount("srfc20_token", "transfer")];
    declared.extend(SRFC21::instructions());
    assert_eq!(evaluate_interface_instructions(declared), Err(missing(&[("srfc20_token", "mint_to")])));
}

#[test]
fn missing_instructions_of_all_interfaces_are_collected() {
    let declared = vec![
        ix("srfc23_token_metadata", "update_metadata", &[
            ("name", RequiredArgType::String),
            ("symbol", RequiredArgType::String),
            ("uri", RequiredArgType::String),
        ]),
        ix("srfc22_associated_token", "thaw", &[]),
        amount("srfc20_token", "transfer"),
    ];
    assert_eq!(
        evaluate_interface_instructions(declared),
        Err(missing(&[
            ("srfc20_token", "mint_to"),
            ("srfc22_associated_token", "freeze"),
            ("srfc23_token_metadata", "create_metadata"),
        ]))
    );
}

#[test]
fn unknown_namespace_fails_first() {
    let declared = vec![amount("token", "mint_to"), amount("srfc20_token", "burn")];
    assert_eq!(
        evaluate_interface_instructions(declared),
        Err(SplInterfaceError::InvalidInterfaceNamespace { interface_namespace: "token".to_string() })
    );
    let declared = vec![amount("srfc20_token", "mint_to"), amount("srfc99", "mint_to")];
    assert_eq!(
        evaluate_interface_instructions(declared),
        Err(SplInterfaceError::InvalidInterfaceNamespace { interface_namespace: "srfc99".to_string() })
    );
}

#[test]
fn error_comes_from_the_first_failing_descriptor() {
    let declared = vec![amount("srfc20_token", "mint_to"), amount("srfc20_token", "burn"), amount("nowhere", "x")];
    assert_eq!(evaluate_interface_instructions(declared), Err(not_found("srfc20_token", "burn")));
}

#[test]
fn custom_registry_is_used() {
    let registry = vec![TokenInterface::definition(), TestInterface::definition()];
    let declared = vec![amount("token", "mint_to"), amount("token", "transfer"), amount("test", "test")];
    assert_eq!(evaluate_against(&registry, &declared), Err(missing(&[("test", "test2")])));
    let declared = vec![amount("srfc20_token", "mint_to")];
    assert_eq!(
        evaluate_against(&registry, &declared),
        Err(SplInterfaceError::InvalidInterfaceNamespace { interface_namespace: "srfc20_token".to_string() })
    );
}

#[test]
fn registry_lookup() {
    let registry = builtin_interfaces();
    assert_eq!(registry.len(), 4);
    assert_eq!(lookup(&registry, &"srfc20_token".to_string()), Some(0));
    assert_eq!(lookup(&registry, &"srfc23_token_metadata".to_string()), Some(3));
    assert_eq!(lookup(&registry, &"srfc24".to_string()), None);
    assert_eq!(registry[1].namespace, "srfc21_token");
    assert_eq!(registry[3].instructions[0].required_args.len(), 3);
}

#[test]
fn interface_definitions() {
    assert_eq!(SRFC22::namespace(), "srfc22_associated_token");
    let d = SRFC23::definition();
    assert_eq!(d.namespace, "srfc23_token_metadata");
    assert_eq!(d.instructions.len(), 2);
    assert_eq!(d.instructions[1].instruction_namespace, "update_metadata");
    assert_eq!(d.instructions[1].required_args[2], ("uri".to_string(), RequiredArgType::String));
    assert_eq!(TokenInterface::namespace(), "token");
    assert_eq!(TestInterface::instructions()[1].instruction_namespace, "test2");
}

#[test]
fn descriptor_equality_ignores_argument_names() {
    let a = ix("srfc20_token", "mint_to", &[("amount", RequiredArgType::U64)]);
    let b = ix("srfc20_token", "mint_to", &[("n", RequiredArgType::U64)]);
    let c = ix("srfc20_token", "mint_to", &[("amount", RequiredArgType::U8)]);
    assert!(a == b);
    assert!(a != c);
    assert!(a != amount("srfc21_token", "mint_to"));
}

#[test]
fn builtin_and_custom_registries_are_well_formed() {
    assert!(check_registry(&builtin_interfaces()));
    assert!(check_registry(&vec![TokenInterface::definition(), TestInterface::definition()]));
    assert!(check_interface(&SRFC23::definition()));
}

#[test]
fn malformed_definitions_are_rejected() {
    let duplicate_names = InterfaceDefinition {
        namespace: "token".to_string(),
        instructions: vec![amount("token", "mint_to"), ix("token", "mint_to", &[])],
    };
    assert!(!check_interface(&duplicate_names));
    let foreign = InterfaceDefinition {
        namespace: "token".to_string(),
        instructions: vec![amount("other", "mint_to")],
    };
    assert!(!check_interface(&foreign));
    let bad_name = InterfaceDefinition { namespace: "to:ken".to_string(), instructions: vec![] };
    assert!(!check_interface(&bad_name));
    let empty_instruction = InterfaceDefinition {
        namespace: "token".to_string(),
        instructions: vec![amount("token", "")],
    };
    assert!(!check_interface(&empty_instruction));
    assert!(!check_registry(&vec![SRFC20::definition(), SRFC21::definition(), SRFC20::definition()]));
    assert!(!check_registry(&vec![duplicate_names]));
}

#[test]
fn several_interfaces_in_any_order_pass() {
    let declared = vec![
        ix("srfc22_associated_token", "thaw", &[]),
        amount("srfc20_token", "transfer"),
        amount("srfc21_token", "burn"),
        ix("srfc22_associated_token", "freeze", &[]),
        amount("srfc20_token", "mint_to"),
    ];
    assert_eq!(evaluate_interface_instructions(declared), Ok(()));
}

#[test]
fn interleaved_interfaces_report_the_union_of_missing() {
    let first = vec![amount("srfc20_token", "mint_to")];
    let second = vec![ix("srfc22_associated_token", "thaw", &[])];
    assert_eq!(evaluate_interface_instructions(first.clone()), Err(missing(&[("srfc20_token", "transfer")])));
    assert_eq!(
        evaluate_interface_instructions(second.clone()),
        Err(missing(&[("srfc22_associated_token", "freeze")]))
    );
    let declared = vec![second[0].clone(), first[0].clone()];
    assert_eq!(
        evaluate_interface_instructions(declared),
        Err(missing(&[("srfc20_token", "transfer"), ("srfc22_associated_token", "freeze")]))
    );
    let declared = vec![
        amount("srfc20_token", "transfer"),
        ix("srfc22_associated_token", "freeze", &[]),
        amount("srfc20_token", "mint_to"),
        ix("srfc22_associated_token", "thaw", &[]),
    ];
    assert_eq!(evaluate_interface_instructions(declared), Ok(()));
}
