use spl_interface_instructions::discriminator::is_valid_namespace;
use spl_interface_instructions::{
    builtin_interfaces, discriminator, find_instruction, Interface, InterfaceInstruction, RequiredArgType, SRFC20,
};

fn descriptor(interface: &str, instruction: &str) -> InterfaceInstruction {
    InterfaceInstruction {
        interface_namespace: interface.to_string(),
        instruction_namespace: instruction.to_string(),
        required_args: vec![("amount".to_string(), RequiredArgType::U64)],
    }
}

#[test]
fn discriminator_is_sha256_prefix_of_joined_names() {
    assert_eq!(discriminator("srfc20_token", "mint_to"), [72, 188, 206, 219, 176, 166, 155, 233]);
    assert_eq!(discriminator("srfc20_token", "transfer"), [62, 41, 116, 21, 138, 86, 202, 221]);
    assert_eq!(discriminator("srfc21_token", "burn"), [201, 232, 232, 140, 186, 148, 99, 23]);
    assert_eq!(discriminator("srfc22_associated_token", "freeze"), [44, 149, 90, 6, 215, 56, 251, 14]);
    assert_eq!(discriminator("srfc22_associated_token", "thaw"), [121, 216, 160, 41, 192, 2, 185, 246]);
    assert_eq!(
        discriminator("srfc23_token_metadata", "create_metadata"),
        [86, 213, 114, 168, 217, 43, 115, 131]
    );
    assert_eq!(
        discriminator("srfc23_token_metadata", "update_metadata"),
        [217, 63, 208, 174, 254, 191, 22, 239]
    );
}

#[test]
fn discriminator_of_empty_names() {
    assert_eq!(discriminator("", ""), [231, 172, 7, 134, 102, 142, 15, 240]);
}

#[test]
fn discriminator_is_deterministic() {
    let first = discriminator("srfc21_token", "burn");
    for _ in 0..10 {
        assert_eq!(discriminator("srfc21_token", "burn"), first);
    }
    let ix = descriptor("srfc21_token", "burn");
    assert_eq!(ix.discriminator(), first);
    assert_eq!(ix.discriminator(), ix.discriminator());
}

#[test]
fn method_uses_both_namespaces_of_the_descriptor() {
    let ix = descriptor("srfc20_token", "mint_to");
    assert_eq!(ix.discriminator(), discriminator("srfc20_token", "mint_to"));
    assert_ne!(ix.discriminator(), discriminator("srfc20_token", "transfer"));
    assert_ne!(ix.discriminator(), discriminator("srfc21_token", "mint_to"));
}

#[test]
fn builtin_discriminators_are_pairwise_distinct() {
    let registry = builtin_interfaces();
    let mut all = vec![];
    for definition in &registry {
        for ix in &definition.instructions {
            all.push(ix.discriminator());
        }
    }
    assert_eq!(all.len(), 7);
    for i in 0..all.len() {
        for j in 0..all.len() {
            if i != j {
                assert_ne!(all[i], all[j]);
            }
        }
    }
}

#[test]
fn separator_inside_a_namespace_collides() {
    // why namespaces must not contain the separator
    assert_eq!(discriminator("a:b", "c"), discriminator("a", "b:c"));
    assert!(!is_valid_namespace(&"a:b".to_string()));
    assert!(!is_valid_namespace(&"b:c".to_string()));
    assert!(!is_valid_namespace(&String::new()));
    assert!(!is_valid_namespace(&"caf\u{e9}".to_string()));
    assert!(is_valid_namespace(&"srfc20_token".to_string()));
}

#[test]
fn find_instruction_routes_by_prefix() {
    let registry = builtin_interfaces();
    let mut data = discriminator("srfc22_associated_token", "thaw").to_vec();
    data.extend_from_slice(&[1, 2, 3]);
    assert_eq!(find_instruction(&registry, &data), Some((2, 1)));
    let exact = discriminator("srfc20_token", "mint_to");
    assert_eq!(find_instruction(&registry, &exact), Some((0, 0)));
    let meta = discriminator("srfc23_token_metadata", "update_metadata");
    assert_eq!(find_instruction(&registry, &meta), Some((3, 1)));
}

#[test]
fn find_instruction_rejects_short_or_unknown_data() {
    let registry = builtin_interfaces();
    let disc = discriminator("srfc20_token", "mint_to");
    assert_eq!(find_instruction(&registry, &disc[..7]), None);
    assert_eq!(find_instruction(&registry, &[]), None);
    assert_eq!(find_instruction(&registry, &[0u8; 16]), None);
    let custom = discriminator("my_program", "custom");
    assert_eq!(find_instruction(&registry, &custom), None);
}

#[test]
fn find_instruction_in_a_custom_registry() {
    let registry = vec![SRFC20::definition()];
    let disc = discriminator("srfc20_token", "transfer");
    assert_eq!(find_instruction(&registry, &disc), Some((0, 1)));
    let burn = discriminator("srfc21_token", "burn");
    assert_eq!(find_instruction(&registry, &burn), None);
}
