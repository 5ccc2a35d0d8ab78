//! Interface contracts for dispatchable program instructions: the data model
//! of interfaces and their required instructions, the 8-byte discriminator of
//! an instruction, the registry of built-in interfaces, and the engine that
//! checks a program's declared instructions against the interfaces it claims.
pub mod discriminator;
pub mod dispatch;
pub mod error;
pub mod evaluate;
pub mod extract;
pub mod instructions;
pub mod interface;
pub mod laws;
pub mod registry;

pub use discriminator::discriminator;
pub use dispatch::find_instruction;
pub use error::SplInterfaceError;
pub use evaluate::{evaluate_against, evaluate_interface_instructions};
pub use extract::{
    extract_interface_from_attribute, process_enum, process_functions, DeclaredType, FieldDecl, FnInput,
    FunctionDecl, VariantDecl,
};
pub use instructions::{builtin_interfaces, TestInterface, TokenInterface, SRFC20, SRFC21, SRFC22, SRFC23};
pub use interface::{InstructionView, InterfaceInstruction, RequiredArg, RequiredArgType};
pub use registry::{lookup, Interface, InterfaceDefinition};
