//! Routing an incoming instruction buffer by its 8-byte discriminator
//! prefix to the required instruction it was built for.
use vstd::prelude::*;

use crate::discriminator::discriminator_of;
use crate::registry::{registry_view, InterfaceDefinition, InterfaceView};

verus! {

/// The buffer starts with the discriminator of instruction `q` of interface
/// `j`.
pub open spec fn routes_to(reg: Seq<InterfaceView>, data: Seq<u8>, j: int, q: int) -> bool {
    &&& 0 <= j < reg.len()
    &&& 0 <= q < reg[j].instructions.len()
    &&& data.len() >= 8
    &&& discriminator_of(
        reg[j].instructions[q].interface_namespace,
        reg[j].instructions[q].instruction_namespace,
    ) == data.take(8)
}

/// Position `(j, q)` comes before `(j2, q2)` in registry order.
pub open spec fn before(j: int, q: int, j2: int, q2: int) -> bool {
    j < j2 || (j == j2 && q < q2)
}

fn prefix_is(data: &[u8], disc: &[u8; 8]) -> (r: bool)
    requires
        data@.len() >= 8,
    ensures
        r == (disc@ == data@.take(8)),
{
    let mut i: usize = 0;
    while i < 8
        invariant
            data@.len() >= 8,
            i <= 8,
            forall|k: int| 0 <= k < i ==> disc@[k] == data@[k],
        decreases 8 - i,
    {
        if disc[i] != data[i] {
            assert(disc@[i as int] != data@.take(8)[i as int]);
            return false;
        }
        i += 1;
    }
    assert(disc@ =~= data@.take(8));
    true
}

/// Finds the first required instruction, in registry order, whose
/// discriminator the buffer starts with, as (interface position,
/// instruction position); `None` when the buffer is shorter than a
/// discriminator or starts with none of them.
pub fn find_instruction(registry: &Vec<InterfaceDefinition>, data: &[u8]) -> (r: Option<(usize, usize)>)
    ensures
        r matches Some(p) ==> routes_to(registry_view(registry@), data@, p.0 as int, p.1 as int)
            && forall|j: int, q: int|
            before(j, q, p.0 as int, p.1 as int) ==> !#[trigger] routes_to(registry_view(registry@), data@, j, q),
        r is None ==> forall|j: int, q: int| !#[trigger] routes_to(registry_view(registry@), data@, j, q),
{
    let ghost reg = registry_view(registry@);
    if data.len() < 8 {
        return None;
    }
    let mut j: usize = 0;
    while j < registry.len()
        invariant
            reg == registry_view(registry@),
            data@.len() >= 8,
            j <= registry@.len(),
            forall|j2: int, q2: int| 0 <= j2 < j ==> !#[trigger] routes_to(reg, data@, j2, q2),
        decreases registry@.len() - j,
    {
        let definition = &registry[j];
        assert(definition@ == reg[j as int]);
        let mut q: usize = 0;
        while q < definition.instructions.len()
            invariant
                reg == registry_view(registry@),
                definition@ == reg[j as int],
                j < registry@.len(),
                data@.len() >= 8,
                q <= definition.instructions@.len(),
                forall|j2: int, q2: int| 0 <= j2 < j ==> !#[trigger] routes_to(reg, data@, j2, q2),
                forall|q2: int| 0 <= q2 < q ==> !#[trigger] routes_to(reg, data@, j as int, q2),
            decreases definition.instructions@.len() - q,
        {
            let disc = definition.instructions[q].discriminator();
            assert(reg[j as int].instructions[q as int] == definition.instructions@[q as int]@);
            if prefix_is(data, &disc) {
                return Some((j, q));
            }
            q += 1;
        }
        j += 1;
    }
    None
}

} // verus!
