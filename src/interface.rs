//! The data model: argument kinds, required arguments and instruction
//! descriptors, with their mathematical views.
use vstd::prelude::*;

verus! {

/// The closed set of primitive argument kinds an interface can require.
#[derive(Clone, Copy, Debug, PartialEq, Eq, Structural, Hash)]
pub enum RequiredArgType {
    /// A `u8` arg
    U8,
    /// A `u16` arg
    U16,
    /// A `u32` arg
    U32,
    /// A `u64` arg
    U64,
    /// A `u128` arg
    U128,
    /// A `String` arg
    String,
    /// A `Pubkey` arg (a 32-byte identifier)
    Pubkey,
}

/// A required argument: its name (informational) and its kind.
pub type RequiredArg = (String, RequiredArgType);

/// The key under which descriptors are compared: interface namespace,
/// instruction namespace and the ordered argument kinds.
pub type InstructionKey = (Seq<char>, Seq<char>, Seq<RequiredArgType>);

/// The mathematical value of an `InterfaceInstruction`.
pub struct InstructionView {
    pub interface_namespace: Seq<char>,
    pub instruction_namespace: Seq<char>,
    pub required_args: Seq<(Seq<char>, RequiredArgType)>,
}

impl InstructionView {
    /// The ordered argument kinds, names left out.
    pub open spec fn arg_types(self) -> Seq<RequiredArgType> {
        self.required_args.map_values(|a: (Seq<char>, RequiredArgType)| a.1)
    }

    /// What two descriptors are compared by: names of arguments play no part.
    pub open spec fn key(self) -> InstructionKey {
        (self.interface_namespace, self.instruction_namespace, self.arg_types())
    }
}

/// One operation of one interface, as required by the interface or as
/// declared by a program.
#[derive(Debug, Clone)]
pub struct InterfaceInstruction {
    /// The interface's namespace
    pub interface_namespace: String,
    /// The instruction's namespace
    pub instruction_namespace: String,
    /// The instruction's required arguments
    pub required_args: Vec<RequiredArg>,
}

impl View for InterfaceInstruction {
    type V = InstructionView;

    open spec fn view(&self) -> InstructionView {
        InstructionView {
            interface_namespace: self.interface_namespace@,
            instruction_namespace: self.instruction_namespace@,
            required_args: self.required_args@.map_values(|a: RequiredArg| (a.0@, a.1)),
        }
    }
}

/// Whether two argument lists have the same kinds in the same order.
fn same_arg_types(a: &Vec<RequiredArg>, b: &Vec<RequiredArg>) -> (r: bool)
    ensures
        r == (a@.map_values(|x: RequiredArg| x.1) == b@.map_values(|x: RequiredArg| x.1)),
{
    if a.len() != b.len() {
        assert(a@.map_values(|x: RequiredArg| x.1).len() != b@.map_values(|x: RequiredArg| x.1).len());
        return false;
    }
    let mut i: usize = 0;
    while i < a.len()
        invariant
            a@.len() == b@.len(),
            i <= a@.len(),
            forall|j: int| 0 <= j < i ==> a@[j].1 == b@[j].1,
        decreases a@.len() - i,
    {
        if a[i].1 != b[i].1 {
            assert(a@.map_values(|x: RequiredArg| x.1)[i as int] != b@.map_values(|x: RequiredArg| x.1)[i as int]);
            return false;
        }
        i += 1;
    }
    assert(a@.map_values(|x: RequiredArg| x.1) =~= b@.map_values(|x: RequiredArg| x.1));
    true
}

impl InterfaceInstruction {
    /// The ordered argument kinds of the descriptor.
    pub proof fn lemma_arg_types(&self)
        ensures
            self@.arg_types() == self.required_args@.map_values(|x: RequiredArg| x.1),
    {
        assert(self@.arg_types() =~= self.required_args@.map_values(|x: RequiredArg| x.1));
    }

    /// Whether the two descriptors name the same instruction of the same
    /// interface with the same argument kinds.
    pub fn same_key(&self, other: &InterfaceInstruction) -> (r: bool)
        ensures
            r == (self@.key() == other@.key()),
    {
        proof {
            self.lemma_arg_types();
            other.lemma_arg_types();
        }
        self.interface_namespace == other.interface_namespace
            && self.instruction_namespace == other.instruction_namespace
            && same_arg_types(&self.required_args, &other.required_args)
    }
}

impl PartialEq for InterfaceInstruction {
    fn eq(&self, other: &InterfaceInstruction) -> (r: bool) {
        self.same_key(other)
    }
}

impl vstd::std_specs::cmp::PartialEqSpecImpl for InterfaceInstruction {
    open spec fn obeys_eq_spec() -> bool {
        true
    }

    open spec fn eq_spec(&self, other: &InterfaceInstruction) -> bool {
        self@.key() == other@.key()
    }
}

impl Eq for InterfaceInstruction {}

} // verus!
