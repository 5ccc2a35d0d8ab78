//! Interfaces as data: the `Interface` trait that a built-in interface
//! implements, the definition value it yields, and lookup by namespace.
use vstd::prelude::*;

use crate::discriminator::{is_valid_namespace, valid_namespace};
use crate::interface::{InstructionView, InterfaceInstruction};

verus! {

/// The mathematical value of an `InterfaceDefinition`.
pub struct InterfaceView {
    pub namespace: Seq<char>,
    pub instructions: Seq<InstructionView>,
}

/// The views of a list of descriptors.
pub open spec fn instruction_views(s: Seq<InterfaceInstruction>) -> Seq<InstructionView> {
    s.map_values(|i: InterfaceInstruction| i@)
}

/// An interface is well formed when its namespace and those of its
/// instructions are valid, every instruction belongs to it, and no two
/// instructions share a name.
pub open spec fn interface_wf(iface: InterfaceView) -> bool {
    &&& valid_namespace(iface.namespace)
    &&& forall|q: int|
        0 <= q < iface.instructions.len() ==> {
            &&& (#[trigger] iface.instructions[q]).interface_namespace == iface.namespace
            &&& valid_namespace(iface.instructions[q].instruction_namespace)
        }
    &&& forall|q1: int, q2: int|
        0 <= q1 < iface.instructions.len() && 0 <= q2 < iface.instructions.len() && q1 != q2
            ==> (#[trigger] iface.instructions[q1]).instruction_namespace
            != (#[trigger] iface.instructions[q2]).instruction_namespace
}

/// A registry is well formed when each interface is, and no two interfaces
/// share a namespace.
pub open spec fn registry_wf(reg: Seq<InterfaceView>) -> bool {
    &&& forall|j: int| 0 <= j < reg.len() ==> interface_wf(#[trigger] reg[j])
    &&& forall|j1: int, j2: int|
        0 <= j1 < reg.len() && 0 <= j2 < reg.len() && j1 != j2
            ==> (#[trigger] reg[j1]).namespace != (#[trigger] reg[j2]).namespace
}

/// A named interface and its ordered list of required instructions.
#[derive(Debug, Clone)]
pub struct InterfaceDefinition {
    /// The interface's namespace
    pub namespace: String,
    /// The instructions required by the interface
    pub instructions: Vec<InterfaceInstruction>,
}

impl View for InterfaceDefinition {
    type V = InterfaceView;

    open spec fn view(&self) -> InterfaceView {
        InterfaceView { namespace: self.namespace@, instructions: instruction_views(self.instructions@) }
    }
}

/// The views of a list of interface definitions.
pub open spec fn registry_view(s: Seq<InterfaceDefinition>) -> Seq<InterfaceView> {
    s.map_values(|d: InterfaceDefinition| d@)
}

/// The value of an implementation of `Interface`.
pub open spec fn interface_view<I: Interface>() -> InterfaceView {
    InterfaceView { namespace: I::spec_namespace(), instructions: I::spec_instructions() }
}

/// A Solana program interface: a namespace and the instructions it requires.
pub trait Interface: Sized {
    /// The interface's namespace, as a value.
    spec fn spec_namespace() -> Seq<char>;

    /// The instructions required by the interface, as values.
    spec fn spec_instructions() -> Seq<InstructionView>;

    /// The interface's namespace
    fn namespace() -> (r: String)
        ensures
            r@ == Self::spec_namespace(),
    ;

    /// The instructions required by the interface
    fn instructions() -> (r: Vec<InterfaceInstruction>)
        ensures
            instruction_views(r@) == Self::spec_instructions(),
    ;

    /// Every implementation is a well-formed interface: no two of its
    /// instructions share a name.
    proof fn lemma_well_formed()
        ensures
            interface_wf((InterfaceView { namespace: Self::spec_namespace(), instructions: Self::spec_instructions() })),
    ;

    /// The interface as a definition value, for a registry.
    fn definition() -> (r: InterfaceDefinition)
        ensures
            r@ == (InterfaceView { namespace: Self::spec_namespace(), instructions: Self::spec_instructions() }),
            interface_wf(r@),
    {
        proof {
            Self::lemma_well_formed();
        }
        let r = InterfaceDefinition { namespace: Self::namespace(), instructions: Self::instructions() };
        assert(r@ == (InterfaceView { namespace: Self::spec_namespace(), instructions: Self::spec_instructions() }));
        r
    }
}

/// Whether some interface of the registry has the namespace.
pub open spec fn registered(reg: Seq<InterfaceView>, namespace: Seq<char>) -> bool {
    exists|j: int| 0 <= j < reg.len() && (#[trigger] reg[j]).namespace == namespace
}

/// The position of the interface with the namespace (meaningful when it is
/// registered).
pub open spec fn interface_index(reg: Seq<InterfaceView>, namespace: Seq<char>) -> int {
    choose|j: int| 0 <= j < reg.len() && (#[trigger] reg[j]).namespace == namespace
}

/// Finds the position of the interface named `namespace` in `registry`.
pub fn lookup(registry: &Vec<InterfaceDefinition>, namespace: &String) -> (r: Option<usize>)
    requires
        registry_wf(registry_view(registry@)),
    ensures
        r.is_none() == !registered(registry_view(registry@), namespace@),
        r matches Some(j) ==> j == interface_index(registry_view(registry@), namespace@),
{
    let ghost reg = registry_view(registry@);
    let mut j: usize = 0;
    while j < registry.len()
        invariant
            reg == registry_view(registry@),
            registry_wf(reg),
            j <= registry@.len(),
            forall|k: int| 0 <= k < j ==> (#[trigger] reg[k]).namespace != namespace@,
        decreases registry@.len() - j,
    {
        if registry[j].namespace == *namespace {
            proof {
                assert(reg[j as int].namespace == namespace@);
                let c = interface_index(reg, namespace@);
                assert(reg[c].namespace == namespace@);
            }
            return Some(j);
        }
        j += 1;
    }
    None
}

/// Whether the definition is a well-formed interface; a definition that is
/// not is rejected before it takes part in any validation.
pub fn check_interface(definition: &InterfaceDefinition) -> (r: bool)
    ensures
        r == interface_wf(definition@),
{
    let ghost iface = definition@;
    if !is_valid_namespace(&definition.namespace) {
        return false;
    }
    let mut q: usize = 0;
    while q < definition.instructions.len()
        invariant
            iface == definition@,
            valid_namespace(iface.namespace),
            q <= iface.instructions.len(),
            forall|p: int|
                0 <= p < q ==> {
                    &&& (#[trigger] iface.instructions[p]).interface_namespace == iface.namespace
                    &&& valid_namespace(iface.instructions[p].instruction_namespace)
                },
            forall|p1: int, p2: int|
                0 <= p1 < q && 0 <= p2 < q && p1 != p2 ==> (#[trigger] iface.instructions[p1]).instruction_namespace
                    != (#[trigger] iface.instructions[p2]).instruction_namespace,
        decreases iface.instructions.len() - q,
    {
        let ix = &definition.instructions[q];
        assert(iface.instructions[q as int] == ix@);
        if !(ix.interface_namespace == definition.namespace) || !is_valid_namespace(&ix.instruction_namespace) {
            return false;
        }
        let mut p: usize = 0;
        while p < q
            invariant
                iface == definition@,
                q < iface.instructions.len(),
                iface.instructions[q as int] == ix@,
                p <= q,
                forall|p1: int| 0 <= p1 < p ==> (#[trigger] iface.instructions[p1]).instruction_namespace
                    != ix@.instruction_namespace,
            decreases q - p,
        {
            assert(iface.instructions[p as int] == definition.instructions@[p as int]@);
            if definition.instructions[p].instruction_namespace == ix.instruction_namespace {
                assert(iface.instructions[p as int].instruction_namespace == iface.instructions[q as int].instruction_namespace);
                return false;
            }
            p += 1;
        }
        q += 1;
    }
    true
}

/// Whether the definitions form a well-formed registry.
pub fn check_registry(registry: &Vec<InterfaceDefinition>) -> (r: bool)
    ensures
        r == registry_wf(registry_view(registry@)),
{
    let ghost reg = registry_view(registry@);
    let mut j: usize = 0;
    while j < registry.len()
        invariant
            reg == registry_view(registry@),
            j <= reg.len(),
            forall|k: int| 0 <= k < j ==> interface_wf(#[trigger] reg[k]),
            forall|k1: int, k2: int|
                0 <= k1 < j && 0 <= k2 < j && k1 != k2 ==> (#[trigger] reg[k1]).namespace != (#[trigger] reg[k2]).namespace,
        decreases reg.len() - j,
    {
        assert(reg[j as int] == registry@[j as int]@);
        if !check_interface(&registry[j]) {
            return false;
        }
        let mut k: usize = 0;
        while k < j
            invariant
                reg == registry_view(registry@),
                j < reg.len(),
                k <= j,
                forall|k1: int| 0 <= k1 < k ==> (#[trigger] reg[k1]).namespace != reg[j as int].namespace,
            decreases j - k,
        {
            assert(reg[k as int] == registry@[k as int]@);
            if registry[k].namespace == registry[j].namespace {
                assert(reg[k as int].namespace == reg[j as int].namespace);
                assert(k as int != j as int);
                return false;
            }
            k += 1;
        }
        j += 1;
    }
    true
}

} // verus!
