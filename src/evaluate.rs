//! The reconciliation engine: checks a program's declared instructions
//! against the registered interfaces they claim.
use vstd::prelude::*;

use crate::error::{outcome, pair_views, InterfaceErrorView, SplInterfaceError};
use crate::instructions::{builtin_interfaces, builtin_registry};
use crate::interface::{InstructionKey, InstructionView, InterfaceInstruction};
use crate::registry::{
    instruction_views, interface_index, interface_wf, lookup, registered, registry_view, registry_wf,
    InterfaceDefinition, InterfaceView,
};

verus! {

/// Some descriptor of `decl` has the key `k`.
pub open spec fn matched(decl: Seq<InstructionView>, k: InstructionKey) -> bool {
    exists|j: int| 0 <= j < decl.len() && (#[trigger] decl[j]).key() == k
}

/// Some descriptor of `decl` claims the interface `namespace`.
pub open spec fn claimed(decl: Seq<InstructionView>, namespace: Seq<char>) -> bool {
    exists|j: int| 0 <= j < decl.len() && (#[trigger] decl[j]).interface_namespace == namespace
}

/// The interface requires an instruction with the key `k`.
pub open spec fn requires_key(iface: InterfaceView, k: InstructionKey) -> bool {
    exists|q: int| 0 <= q < iface.instructions.len() && (#[trigger] iface.instructions[q]).key() == k
}

/// The descriptor at position `i` of `decl` (of a registered interface)
/// matches a requirement that no earlier descriptor has matched.
pub open spec fn accepted(reg: Seq<InterfaceView>, decl: Seq<InstructionView>, i: int) -> bool {
    accepted_after(reg, decl.take(i), decl[i])
}

/// The descriptor `d` (of a registered interface) matches a requirement that
/// no descriptor of `seen` has matched.
pub open spec fn accepted_after(reg: Seq<InterfaceView>, seen: Seq<InstructionView>, d: InstructionView) -> bool {
    &&& requires_key(reg[interface_index(reg, d.interface_namespace)], d.key())
    &&& !matched(seen, d.key())
}

/// The required instructions of `iface` that no descriptor of `decl`
/// matches, as (interface, instruction) pairs in the interface's order.
pub open spec fn unmatched(iface: InterfaceView, decl: Seq<InstructionView>) -> Seq<(Seq<char>, Seq<char>)> {
    unmatched_among(iface.instructions, decl)
}

/// The instructions of `required` that no descriptor of `decl` matches, as
/// (interface, instruction) pairs in order.
pub open spec fn unmatched_among(required: Seq<InstructionView>, decl: Seq<InstructionView>) -> Seq<
    (Seq<char>, Seq<char>),
> {
    required.filter_map(
        |v: InstructionView|
            if matched(decl, v.key()) {
                None
            } else {
                Some((v.interface_namespace, v.instruction_namespace))
            },
    )
}

/// The unmatched requirements of the claimed interfaces among the first `n`
/// of the registry, in registry order.
pub open spec fn missing_upto(reg: Seq<InterfaceView>, decl: Seq<InstructionView>, n: int) -> Seq<
    (Seq<char>, Seq<char>),
>
    decreases n,
{
    if n <= 0 {
        Seq::empty()
    } else {
        missing_upto(reg, decl, n - 1) + if claimed(decl, reg[n - 1].namespace) {
            unmatched(reg[n - 1], decl)
        } else {
            Seq::empty()
        }
    }
}

/// The unmatched requirements of all claimed interfaces.
pub open spec fn missing(reg: Seq<InterfaceView>, decl: Seq<InstructionView>) -> Seq<(Seq<char>, Seq<char>)> {
    missing_upto(reg, decl, reg.len() as int)
}

/// The result of validating `decl` from position `i` on, the descriptors
/// before `i` having been accepted: the first descriptor that names an
/// unknown interface or is not accepted decides; if there is none, the
/// result is success exactly when no requirement is missing.
pub open spec fn verdict_from(reg: Seq<InterfaceView>, decl: Seq<InstructionView>, i: int) -> Result<
    (),
    InterfaceErrorView,
>
    decreases decl.len() - i,
{
    if i >= decl.len() {
        if missing(reg, decl).len() == 0 {
            Ok(())
        } else {
            Err(InterfaceErrorView::InstructionMissing(missing(reg, decl)))
        }
    } else if !registered(reg, decl[i].interface_namespace) {
        Err(InterfaceErrorView::InvalidInterfaceNamespace(decl[i].interface_namespace))
    } else if !accepted(reg, decl, i) {
        Err(InterfaceErrorView::InstructionNotFound(decl[i].interface_namespace, decl[i].instruction_namespace))
    } else {
        verdict_from(reg, decl, i + 1)
    }
}

/// The result of validating the declared descriptors `decl` against `reg`.
pub open spec fn verdict(reg: Seq<InterfaceView>, decl: Seq<InstructionView>) -> Result<(), InterfaceErrorView> {
    verdict_from(reg, decl, 0)
}

/// The working state after the descriptors `seen`: for each interface of the
/// registry, nothing if it is not claimed yet, else a flag per required
/// instruction that is set while the instruction is still unmatched.
spec fn working_state(reg: Seq<InterfaceView>, seen: Seq<InstructionView>, state: Seq<Option<Vec<bool>>>) -> bool {
    &&& state.len() == reg.len()
    &&& forall|j: int|
        0 <= j < reg.len() ==> {
            &&& (#[trigger] state[j]).is_none() == !claimed(seen, reg[j].namespace)
            &&& state[j] matches Some(flags) ==> {
                &&& flags@.len() == reg[j].instructions.len()
                &&& forall|q: int|
                    0 <= q < flags@.len() ==> #[trigger] flags@[q] == !matched(
                        seen,
                        reg[j].instructions[q].key(),
                    )
            }
        }
}

fn all_unmatched(n: usize) -> (r: Vec<bool>)
    ensures
        r@.len() == n,
        forall|q: int| 0 <= q < n ==> r@[q],
{
    let mut r: Vec<bool> = Vec::new();
    while r.len() < n
        invariant
            r@.len() <= n,
            forall|q: int| 0 <= q < r@.len() ==> r@[q],
        decreases n - r@.len(),
    {
        r.push(true);
    }
    r
}

/// The flags of an interface claimed by the first time, before the claiming
/// descriptor is matched.
proof fn lemma_fresh_flags(iface: InterfaceView, seen: Seq<InstructionView>, q: int)
    requires
        !claimed(seen, iface.namespace),
        0 <= q < iface.instructions.len(),
        iface.instructions[q].interface_namespace == iface.namespace,
    ensures
        !matched(seen, iface.instructions[q].key()),
{
    if matched(seen, iface.instructions[q].key()) {
        let j = choose|j: int| 0 <= j < seen.len() && (#[trigger] seen[j]).key() == iface.instructions[q].key();
        assert(seen[j].interface_namespace == iface.namespace);
    }
}

/// Processes one declared descriptor: resolves its interface, claims the
/// interface's requirements on its first use, and marks the requirement it
/// matches; `seen` are the descriptors processed before it.
fn process_declared_instruction(
    registry: &Vec<InterfaceDefinition>,
    state: &mut Vec<Option<Vec<bool>>>,
    d: &InterfaceInstruction,
    Ghost(seen): Ghost<Seq<InstructionView>>,
) -> (r: Result<(), SplInterfaceError>)
    requires
        registry_wf(registry_view(registry@)),
        working_state(registry_view(registry@), seen, old(state)@),
    ensures
        r is Ok == (registered(registry_view(registry@), d@.interface_namespace) && accepted_after(
            registry_view(registry@),
            seen,
            d@,
        )),
        r is Ok ==> working_state(registry_view(registry@), seen.push(d@), final(state)@),
        r is Err ==> final(state)@ == old(state)@,
        r matches Err(e) ==> e@ == if !registered(registry_view(registry@), d@.interface_namespace) {
            InterfaceErrorView::InvalidInterfaceNamespace(d@.interface_namespace)
        } else {
            InterfaceErrorView::InstructionNotFound(d@.interface_namespace, d@.instruction_namespace)
        },
{
    let ghost reg = registry_view(registry@);
    let j = match lookup(registry, &d.interface_namespace) {
        None => {
            return Err(
                SplInterfaceError::InvalidInterfaceNamespace {
                    interface_namespace: d.interface_namespace.clone(),
                },
            );
        },
        Some(j) => j,
    };
    let ghost iface = reg[j as int];
    assert(iface.namespace == d@.interface_namespace);
    assert(interface_index(reg, d@.interface_namespace) == j);
    let definition = &registry[j];
    assert(definition@ == iface);
    let ghost before = state@;
    let was_claimed = state[j].is_some();
    let mut flags = match state[j].take() {
        Some(flags) => flags,
        None => {
            let fresh = all_unmatched(definition.instructions.len());
            proof {
                assert forall|q: int| 0 <= q < fresh@.len() implies #[trigger] fresh@[q] == !matched(
                    seen,
                    iface.instructions[q].key(),
                ) by {
                    lemma_fresh_flags(iface, seen, q);
                }
            }
            fresh
        },
    };
    let mut q: usize = 0;
    let mut found = false;
    while q < definition.instructions.len() && !found
        invariant
            definition@ == iface,
            flags@.len() == iface.instructions.len(),
            q <= flags@.len(),
            found ==> q < flags@.len() && flags@[q as int] && iface.instructions[q as int].key() == d@.key(),
            !found ==> forall|p: int|
                0 <= p < q ==> !(flags@[p] && (#[trigger] iface.instructions[p]).key() == d@.key()),
        decreases flags@.len() - q + if found { 0int } else { 1int },
    {
        if flags[q] && definition.instructions[q].same_key(d) {
            found = true;
        } else {
            q += 1;
        }
    }
    if !found {
        proof {
            if accepted_after(reg, seen, d@) {
                let p = choose|p: int|
                    0 <= p < iface.instructions.len() && (#[trigger] iface.instructions[p]).key() == d@.key();
                assert(flags@[p]);
            }
        }
        if was_claimed {
            state.set(j, Some(flags));
        }
        assert(state@ =~= before);
        return Err(
            SplInterfaceError::InstructionNotFound {
                interface_namespace: d.interface_namespace.clone(),
                instruction_namespace: d.instruction_namespace.clone(),
            },
        );
    }
    proof {
        assert(requires_key(iface, d@.key()));
        assert(accepted_after(reg, seen, d@));
    }
    flags.set(q, false);
    state.set(j, Some(flags));
    proof {
        lemma_step(reg, seen, d@, j as int, q as int, state@);
    }
    Ok(())
}

/// The requirements still unmatched once all of `decl` is processed, for
/// every claimed interface in registry order.
fn remaining_interface_instructions(
    registry: &Vec<InterfaceDefinition>,
    state: &Vec<Option<Vec<bool>>>,
    Ghost(decl): Ghost<Seq<InstructionView>>,
) -> (r: Vec<(String, String)>)
    requires
        working_state(registry_view(registry@), decl, state@),
    ensures
        pair_views(r@) == missing(registry_view(registry@), decl),
{
    let ghost reg = registry_view(registry@);
    let mut missing: Vec<(String, String)> = Vec::new();
    let mut j: usize = 0;
    while j < registry.len()
        invariant
            reg == registry_view(registry@),
            working_state(reg, decl, state@),
            j <= registry@.len(),
            pair_views(missing@) == missing_upto(reg, decl, j as int),
        decreases registry@.len() - j,
    {
        let definition = &registry[j];
        let ghost iface = reg[j as int];
        let ghost before = missing_upto(reg, decl, j as int);
        assert(definition@ == iface);
        match &state[j] {
            Some(flags) => {
                let mut q: usize = 0;
                assert(iface.instructions.take(0) =~= Seq::<InstructionView>::empty());
                assert(pair_views(missing@) =~= before + unmatched_among(iface.instructions.take(0), decl));
                while q < definition.instructions.len()
                    invariant
                        definition@ == iface,
                        flags@.len() == iface.instructions.len(),
                        forall|p: int|
                            0 <= p < flags@.len() ==> #[trigger] flags@[p] == !matched(
                                decl,
                                iface.instructions[p].key(),
                            ),
                        q <= flags@.len(),
                        pair_views(missing@) == before + unmatched_among(iface.instructions.take(q as int), decl),
                    decreases flags@.len() - q,
                {
                    let ghost prev = missing@;
                    assert(iface.instructions.take(q as int + 1).drop_last() =~= iface.instructions.take(q as int));
                    if flags[q] {
                        let item = &definition.instructions[q];
                        missing.push((item.interface_namespace.clone(), item.instruction_namespace.clone()));
                        assert(pair_views(missing@) =~= pair_views(prev).push(
                            (iface.instructions[q as int].interface_namespace, iface.instructions[q as int].instruction_namespace),
                        ));
                    }
                    q += 1;
                }
                assert(iface.instructions.take(q as int) =~= iface.instructions);
            },
            None => {
                assert(missing_upto(reg, decl, j as int + 1) =~= before);
            },
        }
        j += 1;
    }
    missing
}

/// Evaluates the declared descriptors against the interfaces of `registry`.
pub fn evaluate_against(registry: &Vec<InterfaceDefinition>, declared: &Vec<InterfaceInstruction>) -> (r: Result<
    (),
    SplInterfaceError,
>)
    requires
        registry_wf(registry_view(registry@)),
    ensures
        outcome(r) == verdict(registry_view(registry@), instruction_views(declared@)),
{
    let ghost reg = registry_view(registry@);
    let ghost decl = instruction_views(declared@);
    let mut state: Vec<Option<Vec<bool>>> = Vec::new();
    while state.len() < registry.len()
        invariant
            reg == registry_view(registry@),
            state@.len() <= registry@.len(),
            forall|j: int| 0 <= j < state@.len() ==> (#[trigger] state@[j]).is_none(),
        decreases registry@.len() - state@.len(),
    {
        state.push(None);
    }
    assert(decl.take(0) =~= Seq::<InstructionView>::empty());
    let mut i: usize = 0;
    while i < declared.len()
        invariant
            reg == registry_view(registry@),
            decl == instruction_views(declared@),
            registry_wf(reg),
            i <= declared@.len(),
            working_state(reg, decl.take(i as int), state@),
            verdict(reg, decl) == verdict_from(reg, decl, i as int),
        decreases declared@.len() - i,
    {
        let ghost seen = decl.take(i as int);
        assert(decl.take(i as int + 1) =~= seen.push(decl[i as int]));
        match process_declared_instruction(registry, &mut state, &declared[i], Ghost(seen)) {
            Ok(()) => {},
            Err(e) => {
                return Err(e);
            },
        }
        i += 1;
    }
    assert(decl.take(i as int) =~= decl);
    let missing = remaining_interface_instructions(registry, &state, Ghost(decl));
    if missing.len() == 0 {
        Ok(())
    } else {
        Err(SplInterfaceError::InstructionMissing { missing })
    }
}

/// Evaluates a program's interface instructions against the built-in
/// interfaces they claim.
pub fn evaluate_interface_instructions(declared_instructions: Vec<InterfaceInstruction>) -> (r: Result<
    (),
    SplInterfaceError,
>)
    ensures
        outcome(r) == verdict(builtin_registry(), instruction_views(declared_instructions@)),
{
    let registry = builtin_interfaces();
    evaluate_against(&registry, &declared_instructions)
}

/// One accepted descriptor keeps the working state: its interface's flag at
/// `q` is cleared, and nothing else changes.
proof fn lemma_step(
    reg: Seq<InterfaceView>,
    seen: Seq<InstructionView>,
    d: InstructionView,
    j: int,
    q: int,
    state: Seq<Option<Vec<bool>>>,
)
    requires
        registry_wf(reg),
        0 <= j < reg.len(),
        reg[j].namespace == d.interface_namespace,
        0 <= q < reg[j].instructions.len(),
        reg[j].instructions[q].key() == d.key(),
        state.len() == reg.len(),
        state[j] matches Some(flags) && flags@.len() == reg[j].instructions.len() && forall|p: int|
            0 <= p < flags@.len() ==> #[trigger] flags@[p] == (p != q && !matched(
                seen,
                reg[j].instructions[p].key(),
            )),
        forall|k: int|
            0 <= k < reg.len() && k != j ==> {
                &&& (#[trigger] state[k]).is_none() == !claimed(seen, reg[k].namespace)
                &&& state[k] matches Some(flags) ==> {
                    &&& flags@.len() == reg[k].instructions.len()
                    &&& forall|p: int|
                        0 <= p < flags@.len() ==> #[trigger] flags@[p] == !matched(
                            seen,
                            reg[k].instructions[p].key(),
                        )
                }
            },
    ensures
        working_state(reg, seen.push(d), state),
{
    let next = seen.push(d);
    assert forall|k: InstructionKey| #[trigger] matched(next, k) == (matched(seen, k) || d.key() == k) by {
        if matched(seen, k) {
            let w = choose|w: int| 0 <= w < seen.len() && (#[trigger] seen[w]).key() == k;
            assert(next[w] == seen[w]);
        }
        if matched(next, k) && !matched(seen, k) {
            let w = choose|w: int| 0 <= w < next.len() && (#[trigger] next[w]).key() == k;
            if w < seen.len() {
                assert(next[w] == seen[w]);
            }
        }
        if d.key() == k {
            assert(next[seen.len() as int] == d);
        }
    }
    assert forall|ns: Seq<char>| #[trigger] claimed(next, ns) == (claimed(seen, ns) || d.interface_namespace == ns) by {
        if claimed(seen, ns) {
            let w = choose|w: int| 0 <= w < seen.len() && (#[trigger] seen[w]).interface_namespace == ns;
            assert(next[w] == seen[w]);
        }
        if claimed(next, ns) && !claimed(seen, ns) {
            let w = choose|w: int| 0 <= w < next.len() && (#[trigger] next[w]).interface_namespace == ns;
            if w < seen.len() {
                assert(next[w] == seen[w]);
            }
        }
        if d.interface_namespace == ns {
            assert(next[seen.len() as int] == d);
        }
    }
    assert forall|k: int| 0 <= k < reg.len() implies {
        &&& (#[trigger] state[k]).is_none() == !claimed(next, reg[k].namespace)
        &&& state[k] matches Some(flags) ==> {
            &&& flags@.len() == reg[k].instructions.len()
            &&& forall|p: int|
                0 <= p < flags@.len() ==> #[trigger] flags@[p] == !matched(next, reg[k].instructions[p].key())
        }
    } by {
        assert(interface_wf(reg[k]));
        if k != j {
            assert(reg[k].namespace != reg[j].namespace);
            assert forall|p: int| 0 <= p < reg[k].instructions.len() implies #[trigger] reg[k].instructions[p].key()
                != d.key() by {
                assert(reg[k].instructions[p].interface_namespace == reg[k].namespace);
            }
        } else {
            assert forall|p: int| 0 <= p < reg[k].instructions.len() && p != q implies #[trigger] reg[k].instructions[p].key()
                != d.key() by {
                assert(reg[k].instructions[p].instruction_namespace != reg[k].instructions[q].instruction_namespace);
            }
        }
    }
}

} // verus!
