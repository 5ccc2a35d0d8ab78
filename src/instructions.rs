//! Community-defined interfaces from the sRFC workflow, and the registry of
//! built-in interfaces.
use vstd::prelude::*;

use crate::discriminator::{lemma_valid_namespace, namespace_chars_from};
use crate::interface::{InstructionView, InterfaceInstruction, RequiredArg, RequiredArgType};
use crate::registry::{
    instruction_views, interface_view, registry_view, registry_wf, Interface, InterfaceDefinition, InterfaceView,
};

verus! {

/// The value of a required instruction.
pub open spec fn required_view(
    interface_namespace: Seq<char>,
    instruction_namespace: Seq<char>,
    required_args: Seq<(Seq<char>, RequiredArgType)>,
) -> InstructionView {
    InstructionView { interface_namespace, instruction_namespace, required_args }
}

fn arg(name: &str, kind: RequiredArgType) -> (r: RequiredArg)
    ensures
        r.0@ == name@,
        r.1 == kind,
{
    (name.to_owned(), kind)
}

fn required(interface_namespace: &str, instruction_namespace: &str, required_args: Vec<RequiredArg>) -> (r:
    InterfaceInstruction)
    ensures
        r@ == required_view(
            interface_namespace@,
            instruction_namespace@,
            required_args@.map_values(|a: RequiredArg| (a.0@, a.1)),
        ),
{
    InterfaceInstruction {
        interface_namespace: interface_namespace.to_owned(),
        instruction_namespace: instruction_namespace.to_owned(),
        required_args,
    }
}

/// The single `amount: u64` argument.
fn amount_arg() -> (r: Vec<RequiredArg>)
    ensures
        r@.map_values(|a: RequiredArg| (a.0@, a.1)) == seq![("amount"@, RequiredArgType::U64)],
{
    let r = vec![arg("amount", RequiredArgType::U64)];
    assert(r@.map_values(|a: RequiredArg| (a.0@, a.1)) =~= seq![("amount"@, RequiredArgType::U64)]);
    r
}

/// The `name`, `symbol` and `uri` string arguments of token metadata.
fn metadata_args() -> (r: Vec<RequiredArg>)
    ensures
        r@.map_values(|a: RequiredArg| (a.0@, a.1)) == seq![
            ("name"@, RequiredArgType::String),
            ("symbol"@, RequiredArgType::String),
            ("uri"@, RequiredArgType::String),
        ],
{
    let r = vec![
        arg("name", RequiredArgType::String),
        arg("symbol", RequiredArgType::String),
        arg("uri", RequiredArgType::String),
    ];
    assert(r@.map_values(|a: RequiredArg| (a.0@, a.1)) =~= seq![
        ("name"@, RequiredArgType::String),
        ("symbol"@, RequiredArgType::String),
        ("uri"@, RequiredArgType::String),
    ]);
    r
}

/// No arguments.
fn no_args() -> (r: Vec<RequiredArg>)
    ensures
        r@.map_values(|a: RequiredArg| (a.0@, a.1)) == Seq::<(Seq<char>, RequiredArgType)>::empty(),
{
    let r: Vec<RequiredArg> = Vec::new();
    assert(r@.map_values(|a: RequiredArg| (a.0@, a.1)) =~= Seq::<(Seq<char>, RequiredArgType)>::empty());
    r
}

/// The sRFC 20 Token Interface
pub struct SRFC20 {}

impl Interface for SRFC20 {
    open spec fn spec_namespace() -> Seq<char> {
        "srfc20_token"@
    }

    open spec fn spec_instructions() -> Seq<InstructionView> {
        seq![
            required_view("srfc20_token"@, "mint_to"@, seq![("amount"@, RequiredArgType::U64)]),
            required_view("srfc20_token"@, "transfer"@, seq![("amount"@, RequiredArgType::U64)]),
        ]
    }

    fn namespace() -> (r: String) {
        "srfc20_token".to_owned()
    }

    fn instructions() -> (r: Vec<InterfaceInstruction>) {
        let ns = "srfc20_token";
        let r = vec![
            required(ns, "mint_to", amount_arg()),
            required(ns, "transfer", amount_arg()),
        ];
        assert(instruction_views(r@) =~= Self::spec_instructions());
        r
    }

    proof fn lemma_well_formed() {
        reveal_with_fuel(namespace_chars_from, 24);
        reveal_strlit("srfc20_token");
        reveal_strlit("mint_to");
        reveal_strlit("transfer");
        lemma_valid_namespace("srfc20_token"@);
        lemma_valid_namespace("mint_to"@);
        lemma_valid_namespace("transfer"@);
    }
}

/// The sRFC 21 Token Interface
pub struct SRFC21 {}

impl Interface for SRFC21 {
    open spec fn spec_namespace() -> Seq<char> {
        "srfc21_token"@
    }

    open spec fn spec_instructions() -> Seq<InstructionView> {
        seq![
            required_view("srfc21_token"@, "burn"@, seq![("amount"@, RequiredArgType::U64)]),
        ]
    }

    fn namespace() -> (r: String) {
        "srfc21_token".to_owned()
    }

    fn instructions() -> (r: Vec<InterfaceInstruction>) {
        let ns = "srfc21_token";
        let r = vec![
            required(ns, "burn", amount_arg()),
        ];
        assert(instruction_views(r@) =~= Self::spec_instructions());
        r
    }

    proof fn lemma_well_formed() {
        reveal_with_fuel(namespace_chars_from, 24);
        reveal_strlit("srfc21_token");
        reveal_strlit("burn");
        lemma_valid_namespace("srfc21_token"@);
        lemma_valid_namespace("burn"@);
    }
}

/// The sRFC 22 Associated Token Interface
pub struct SRFC22 {}

impl Interface for SRFC22 {
    open spec fn spec_namespace() -> Seq<char> {
        "srfc22_associated_token"@
    }

    open spec fn spec_instructions() -> Seq<InstructionView> {
        seq![
            required_view("srfc22_associated_token"@, "freeze"@, Seq::empty()),
            required_view("srfc22_associated_token"@, "thaw"@, Seq::empty()),
        ]
    }

    fn namespace() -> (r: String) {
        "srfc22_associated_token".to_owned()
    }

    fn instructions() -> (r: Vec<InterfaceInstruction>) {
        let ns = "srfc22_associated_token";
        let r = vec![
            required(ns, "freeze", no_args()),
            required(ns, "thaw", no_args()),
        ];
        assert(instruction_views(r@) =~= Self::spec_instructions());
        r
    }

    proof fn lemma_well_formed() {
        reveal_with_fuel(namespace_chars_from, 24);
        reveal_strlit("srfc22_associated_token");
        reveal_strlit("freeze");
        reveal_strlit("thaw");
        lemma_valid_namespace("srfc22_associated_token"@);
        lemma_valid_namespace("freeze"@);
        lemma_valid_namespace("thaw"@);
    }
}

/// The sRFC 23 Token Metadata Interface
pub struct SRFC23 {}

impl Interface for SRFC23 {
    open spec fn spec_namespace() -> Seq<char> {
        "srfc23_token_metadata"@
    }

    open spec fn spec_instructions() -> Seq<InstructionView> {
        seq![
            required_view("srfc23_token_metadata"@, "create_metadata"@, seq![
                    ("name"@, RequiredArgType::String),
                    ("symbol"@, RequiredArgType::String),
                    ("uri"@, RequiredArgType::String),
                ]),
            required_view("srfc23_token_metadata"@, "update_metadata"@, seq![
                    ("name"@, RequiredArgType::String),
                    ("symbol"@, RequiredArgType::String),
                    ("uri"@, RequiredArgType::String),
                ]),
        ]
    }

    fn namespace() -> (r: String) {
        "srfc23_token_metadata".to_owned()
    }

    fn instructions() -> (r: Vec<InterfaceInstruction>) {
        let ns = "srfc23_token_metadata";
        let r = vec![
            required(ns, "create_metadata", metadata_args()),
            required(ns, "update_metadata", metadata_args()),
        ];
        assert(instruction_views(r@) =~= Self::spec_instructions());
        r
    }

    proof fn lemma_well_formed() {
        reveal_with_fuel(namespace_chars_from, 24);
        reveal_strlit("srfc23_token_metadata");
        reveal_strlit("create_metadata");
        reveal_strlit("update_metadata");
        lemma_valid_namespace("srfc23_token_metadata"@);
        lemma_valid_namespace("create_metadata"@);
        lemma_valid_namespace("update_metadata"@);
        assert("create_metadata"@[0] != "update_metadata"@[0]);
    }
}

/// A minimal token interface: `mint_to` and `transfer` of an amount.
pub struct TokenInterface {}

impl Interface for TokenInterface {
    open spec fn spec_namespace() -> Seq<char> {
        "token"@
    }

    open spec fn spec_instructions() -> Seq<InstructionView> {
        seq![
            required_view("token"@, "mint_to"@, seq![("amount"@, RequiredArgType::U64)]),
            required_view("token"@, "transfer"@, seq![("amount"@, RequiredArgType::U64)]),
        ]
    }

    fn namespace() -> (r: String) {
        "token".to_owned()
    }

    fn instructions() -> (r: Vec<InterfaceInstruction>) {
        let ns = "token";
        let r = vec![
            required(ns, "mint_to", amount_arg()),
            required(ns, "transfer", amount_arg()),
        ];
        assert(instruction_views(r@) =~= Self::spec_instructions());
        r
    }

    proof fn lemma_well_formed() {
        reveal_with_fuel(namespace_chars_from, 24);
        reveal_strlit("token");
        reveal_strlit("mint_to");
        reveal_strlit("transfer");
        lemma_valid_namespace("token"@);
        lemma_valid_namespace("mint_to"@);
        lemma_valid_namespace("transfer"@);
    }
}

/// An interface of two amount-taking instructions, for trying the engine.
pub struct TestInterface {}

impl Interface for TestInterface {
    open spec fn spec_namespace() -> Seq<char> {
        "test"@
    }

    open spec fn spec_instructions() -> Seq<InstructionView> {
        seq![
            required_view("test"@, "test"@, seq![("amount"@, RequiredArgType::U64)]),
            required_view("test"@, "test2"@, seq![("amount"@, RequiredArgType::U64)]),
        ]
    }

    fn namespace() -> (r: String) {
        "test".to_owned()
    }

    fn instructions() -> (r: Vec<InterfaceInstruction>) {
        let ns = "test";
        let r = vec![
            required(ns, "test", amount_arg()),
            required(ns, "test2", amount_arg()),
        ];
        assert(instruction_views(r@) =~= Self::spec_instructions());
        r
    }

    proof fn lemma_well_formed() {
        reveal_with_fuel(namespace_chars_from, 24);
        reveal_strlit("test");
        reveal_strlit("test2");
        lemma_valid_namespace("test"@);
        lemma_valid_namespace("test2"@);
    }
}

/// The built-in registry, as values: the sRFC 20, 21, 22 and 23 interfaces.
pub open spec fn builtin_registry() -> Seq<InterfaceView> {
    seq![interface_view::<SRFC20>(), interface_view::<SRFC21>(), interface_view::<SRFC22>(), interface_view::<SRFC23>()]
}

/// The built-in registry is well formed.
pub proof fn lemma_builtin_registry_wf()
    ensures
        registry_wf(builtin_registry()),
{
    SRFC20::lemma_well_formed();
    SRFC21::lemma_well_formed();
    SRFC22::lemma_well_formed();
    SRFC23::lemma_well_formed();
    reveal_strlit("srfc20_token");
    reveal_strlit("srfc21_token");
    reveal_strlit("srfc22_associated_token");
    reveal_strlit("srfc23_token_metadata");
    assert("srfc20_token"@[5] != "srfc21_token"@[5]);
}

/// Returns the built-in registry of interfaces.
pub fn builtin_interfaces() -> (r: Vec<InterfaceDefinition>)
    ensures
        registry_view(r@) == builtin_registry(),
        registry_wf(registry_view(r@)),
{
    proof {
        lemma_builtin_registry_wf();
    }
    let r = vec![SRFC20::definition(), SRFC21::definition(), SRFC22::definition(), SRFC23::definition()];
    assert(registry_view(r@) =~= builtin_registry());
    r
}

} // verus!
