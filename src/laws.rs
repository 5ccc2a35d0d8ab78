//! What validation guarantees, stated over the engine's mathematical
//! definition and proved for every well-formed registry.
use vstd::prelude::*;

use crate::discriminator::{lemma_preimage_injective, preimage};
use crate::error::InterfaceErrorView;
use crate::evaluate::{
    accepted, claimed, matched, missing, missing_upto, requires_key, unmatched, unmatched_among, verdict,
    verdict_from,
};
use crate::interface::{InstructionKey, InstructionView};
use crate::registry::{interface_index, interface_wf, registered, registry_wf, InterfaceView};

verus! {

/// The descriptor at position `k` names a registered interface and is
/// accepted by it.
pub open spec fn passes(reg: Seq<InterfaceView>, decl: Seq<InstructionView>, k: int) -> bool {
    registered(reg, decl[k].interface_namespace) && accepted(reg, decl, k)
}

/// Every descriptor before position `i` passes.
pub open spec fn passes_before(reg: Seq<InterfaceView>, decl: Seq<InstructionView>, i: int) -> bool {
    forall|k: int| 0 <= k < i ==> #[trigger] passes(reg, decl, k)
}

/// Every requirement of every claimed interface is matched.
pub open spec fn all_matched(reg: Seq<InterfaceView>, decl: Seq<InstructionView>) -> bool {
    forall|j: int, q: int|
        0 <= j < reg.len() && 0 <= q < reg[j].instructions.len() && #[trigger] claimed(decl, reg[j].namespace)
            ==> matched(decl, #[trigger] reg[j].instructions[q].key())
}

proof fn lemma_verdict_skip(reg: Seq<InterfaceView>, decl: Seq<InstructionView>, i: int)
    requires
        0 <= i <= decl.len(),
        passes_before(reg, decl, i),
    ensures
        verdict(reg, decl) == verdict_from(reg, decl, i),
    decreases i,
{
    if i > 0 {
        lemma_verdict_skip(reg, decl, i - 1);
        assert(passes(reg, decl, i - 1));
    }
}

proof fn lemma_unmatched_empty(s: Seq<InstructionView>, decl: Seq<InstructionView>)
    ensures
        (unmatched_among(s, decl).len() == 0) == (forall|p: int|
            0 <= p < s.len() ==> matched(decl, #[trigger] s[p].key())),
    decreases s.len(),
{
    if s.len() > 0 {
        let init = s.drop_last();
        lemma_unmatched_empty(init, decl);
        assert forall|p: int| 0 <= p < init.len() implies init[p] == s[p] by {}
        if matched(decl, s.last().key()) {
            assert(unmatched_among(s, decl) == unmatched_among(init, decl));
            assert forall|p: int| 0 <= p < s.len() && (forall|p: int| 0 <= p < init.len() ==> matched(decl, #[trigger] init[p].key())) implies matched(decl, #[trigger] s[p].key()) by {
                if p < init.len() {
                    assert(init[p] == s[p]);
                }
            }
        } else {
            assert(unmatched_among(s, decl).len() > 0);
            assert(!matched(decl, s[s.len() - 1].key()));
        }
    }
}

proof fn lemma_unmatched_contains(s: Seq<InstructionView>, decl: Seq<InstructionView>, p: int)
    requires
        0 <= p < s.len(),
        !matched(decl, s[p].key()),
    ensures
        unmatched_among(s, decl).contains((s[p].interface_namespace, s[p].instruction_namespace)),
    decreases s.len(),
{
    let init = s.drop_last();
    let u = unmatched_among(s, decl);
    if p < s.len() - 1 {
        lemma_unmatched_contains(init, decl, p);
        let w = choose|w: int|
            0 <= w < unmatched_among(init, decl).len() && unmatched_among(init, decl)[w] == (
            s[p].interface_namespace,
            s[p].instruction_namespace,
        );
        assert(init[p] == s[p]);
        assert(u[w] == unmatched_among(init, decl)[w]);
    } else {
        assert(u[u.len() - 1] == (s[p].interface_namespace, s[p].instruction_namespace));
    }
}

proof fn lemma_missing_empty(reg: Seq<InterfaceView>, decl: Seq<InstructionView>, n: int)
    requires
        0 <= n <= reg.len(),
    ensures
        (missing_upto(reg, decl, n).len() == 0) == (forall|j: int, q: int|
            0 <= j < n && 0 <= q < reg[j].instructions.len() && #[trigger] claimed(decl, reg[j].namespace)
                ==> matched(decl, #[trigger] reg[j].instructions[q].key())),
    decreases n,
{
    if n > 0 {
        lemma_missing_empty(reg, decl, n - 1);
        lemma_unmatched_empty(reg[n - 1].instructions, decl);
    }
}

proof fn lemma_missing_contains(reg: Seq<InterfaceView>, decl: Seq<InstructionView>, n: int, j: int, q: int)
    requires
        0 <= j < n <= reg.len(),
        0 <= q < reg[j].instructions.len(),
        claimed(decl, reg[j].namespace),
        !matched(decl, reg[j].instructions[q].key()),
    ensures
        missing_upto(reg, decl, n).contains(
            (reg[j].instructions[q].interface_namespace, reg[j].instructions[q].instruction_namespace),
        ),
    decreases n,
{
    let pair = (reg[j].instructions[q].interface_namespace, reg[j].instructions[q].instruction_namespace);
    let before = missing_upto(reg, decl, n - 1);
    if j < n - 1 {
        lemma_missing_contains(reg, decl, n - 1, j, q);
        let w = choose|w: int| 0 <= w < before.len() && before[w] == pair;
        assert(missing_upto(reg, decl, n)[w] == pair);
    } else {
        lemma_unmatched_contains(reg[j].instructions, decl, q);
        let u = unmatched(reg[j], decl);
        let w = choose|w: int| 0 <= w < u.len() && u[w] == pair;
        assert(missing_upto(reg, decl, n)[before.len() + w] == pair);
    }
}

proof fn lemma_from_ok(reg: Seq<InterfaceView>, decl: Seq<InstructionView>, i: int)
    requires
        0 <= i <= decl.len(),
    ensures
        (verdict_from(reg, decl, i) == Ok::<(), InterfaceErrorView>(())) == ((forall|k: int|
            i <= k < decl.len() ==> #[trigger] passes(reg, decl, k)) && missing(reg, decl).len() == 0),
    decreases decl.len() - i,
{
    if i < decl.len() {
        lemma_from_ok(reg, decl, i + 1);
        if !passes(reg, decl, i) {
            assert(verdict_from(reg, decl, i) != Ok::<(), InterfaceErrorView>(()));
        }
    }
}

/// Validation succeeds exactly when every descriptor passes and every
/// requirement of every claimed interface is matched.
pub proof fn lemma_success_iff(reg: Seq<InterfaceView>, decl: Seq<InstructionView>)
    ensures
        (verdict(reg, decl) == Ok::<(), InterfaceErrorView>(())) == (passes_before(reg, decl, decl.len() as int)
            && all_matched(reg, decl)),
{
    lemma_from_ok(reg, decl, 0);
    lemma_missing_empty(reg, decl, reg.len() as int);
}

/// A program that declares, once each, exactly the required instructions of
/// one registered interface (in any order) passes validation.
pub proof fn lemma_complete_implementation(reg: Seq<InterfaceView>, j: int, decl: Seq<InstructionView>)
    requires
        registry_wf(reg),
        0 <= j < reg.len(),
        forall|i: int|
            0 <= i < decl.len() ==> (#[trigger] decl[i]).interface_namespace == reg[j].namespace && requires_key(
                reg[j],
                decl[i].key(),
            ),
        forall|i1: int, i2: int| 0 <= i1 < i2 < decl.len() ==> (#[trigger] decl[i1]).key() != (#[trigger] decl[i2]).key(),
        forall|q: int| 0 <= q < reg[j].instructions.len() ==> matched(decl, #[trigger] reg[j].instructions[q].key()),
    ensures
        verdict(reg, decl) == Ok::<(), InterfaceErrorView>(()),
{
    assert forall|k: int| 0 <= k < decl.len() implies #[trigger] passes(reg, decl, k) by {
        assert(reg[j].namespace == decl[k].interface_namespace);
        assert(interface_index(reg, decl[k].interface_namespace) == j);
        if matched(decl.take(k), decl[k].key()) {
            let w = choose|w: int| 0 <= w < decl.take(k).len() && (#[trigger] decl.take(k)[w]).key() == decl[k].key();
            assert(decl.take(k)[w] == decl[w]);
        }
    }
    assert forall|j2: int, q: int|
        0 <= j2 < reg.len() && 0 <= q < reg[j2].instructions.len() && #[trigger] claimed(decl, reg[j2].namespace)
            implies matched(decl, #[trigger] reg[j2].instructions[q].key()) by {
        let w = choose|w: int| 0 <= w < decl.len() && (#[trigger] decl[w]).interface_namespace == reg[j2].namespace;
        assert(decl[w].interface_namespace == reg[j].namespace);
    }
    lemma_success_iff(reg, decl);
}

/// When every descriptor passes but a claimed interface keeps a requirement
/// that none matches, validation fails with `InstructionMissing`, and the
/// missing list names that requirement.
pub proof fn lemma_missing_instruction_detected(reg: Seq<InterfaceView>, decl: Seq<InstructionView>, j: int, q: int)
    requires
        passes_before(reg, decl, decl.len() as int),
        0 <= j < reg.len(),
        0 <= q < reg[j].instructions.len(),
        claimed(decl, reg[j].namespace),
        !matched(decl, reg[j].instructions[q].key()),
    ensures
        verdict(reg, decl) matches Err(InterfaceErrorView::InstructionMissing(m)) && m.contains(
            (reg[j].instructions[q].interface_namespace, reg[j].instructions[q].instruction_namespace),
        ),
{
    lemma_verdict_skip(reg, decl, decl.len() as int);
    lemma_missing_contains(reg, decl, reg.len() as int, j, q);
}

/// A descriptor whose instruction name is required by its interface but
/// whose argument kinds differ fails with `InstructionNotFound`, once the
/// descriptors before it have passed.
pub proof fn lemma_wrong_signature_not_found(reg: Seq<InterfaceView>, decl: Seq<InstructionView>, i: int, q: int)
    requires
        registry_wf(reg),
        0 <= i < decl.len(),
        passes_before(reg, decl, i),
        registered(reg, decl[i].interface_namespace),
        0 <= q < reg[interface_index(reg, decl[i].interface_namespace)].instructions.len(),
        reg[interface_index(reg, decl[i].interface_namespace)].instructions[q].instruction_namespace
            == decl[i].instruction_namespace,
        reg[interface_index(reg, decl[i].interface_namespace)].instructions[q].arg_types() != decl[i].arg_types(),
    ensures
        verdict(reg, decl) == Err::<(), InterfaceErrorView>(
            InterfaceErrorView::InstructionNotFound(decl[i].interface_namespace, decl[i].instruction_namespace),
        ),
{
    let iface = reg[interface_index(reg, decl[i].interface_namespace)];
    assert(interface_wf(iface));
    if requires_key(iface, decl[i].key()) {
        let p = choose|p: int| 0 <= p < iface.instructions.len() && (#[trigger] iface.instructions[p]).key() == decl[i].key();
        assert(iface.instructions[p].instruction_namespace == iface.instructions[q].instruction_namespace);
    }
    lemma_verdict_skip(reg, decl, i);
}

/// Declaring an instruction a second time fails at the second occurrence
/// with `InstructionNotFound`, once the descriptors before it have passed.
pub proof fn lemma_duplicate_claim_not_found(reg: Seq<InterfaceView>, decl: Seq<InstructionView>, i1: int, i2: int)
    requires
        0 <= i1 < i2 < decl.len(),
        decl[i1].key() == decl[i2].key(),
        passes_before(reg, decl, i2),
    ensures
        verdict(reg, decl) == Err::<(), InterfaceErrorView>(
            InterfaceErrorView::InstructionNotFound(decl[i2].interface_namespace, decl[i2].instruction_namespace),
        ),
{
    assert(passes(reg, decl, i1));
    assert(decl.take(i2)[i1] == decl[i1]);
    assert(matched(decl.take(i2), decl[i2].key()));
    lemma_verdict_skip(reg, decl, i2);
}

/// A descriptor that names an interface absent from the registry fails with
/// `InvalidInterfaceNamespace` as soon as it is reached, whatever follows it.
pub proof fn lemma_unknown_namespace(reg: Seq<InterfaceView>, decl: Seq<InstructionView>, i: int)
    requires
        0 <= i < decl.len(),
        passes_before(reg, decl, i),
        !registered(reg, decl[i].interface_namespace),
    ensures
        verdict(reg, decl) == Err::<(), InterfaceErrorView>(
            InterfaceErrorView::InvalidInterfaceNamespace(decl[i].interface_namespace),
        ),
{
    lemma_verdict_skip(reg, decl, i);
}

/// Descriptors of disjoint sets of interfaces are validated independently:
/// the program that declares both passes exactly when each part passes on
/// its own.
pub proof fn lemma_interfaces_independent(reg: Seq<InterfaceView>, a: Seq<InstructionView>, b: Seq<InstructionView>)
    requires
        registry_wf(reg),
        forall|x: int, y: int|
            0 <= x < a.len() && 0 <= y < b.len() ==> (#[trigger] a[x]).interface_namespace != (#[trigger] b[
                y
            ]).interface_namespace,
    ensures
        (verdict(reg, a + b) == Ok::<(), InterfaceErrorView>(())) == (verdict(reg, a) == Ok::<
            (),
            InterfaceErrorView,
        >(()) && verdict(reg, b) == Ok::<(), InterfaceErrorView>(())),
{
    let ab = a + b;
    lemma_success_iff(reg, ab);
    lemma_success_iff(reg, a);
    lemma_success_iff(reg, b);
    assert forall|k: InstructionKey| #[trigger] matched(ab, k) == (matched(a, k) || matched(b, k)) by {
        lemma_matched_concat(a, b, k);
    }
    assert forall|ns: Seq<char>| #[trigger] claimed(ab, ns) == (claimed(a, ns) || claimed(b, ns)) by {
        lemma_claimed_concat(a, b, ns);
    }
    // the descriptors of `a` keep their verdicts
    assert forall|k: int| 0 <= k < a.len() implies passes(reg, ab, k) == passes(reg, a, k) by {
        assert(ab[k] == a[k]);
        assert(ab.take(k) =~= a.take(k));
    }
    // so do those of `b`, as nothing in `a` shares their interface
    assert forall|m: int| 0 <= m < b.len() implies passes(reg, ab, a.len() + m) == passes(reg, b, m) by {
        let k = a.len() + m;
        assert(ab[k] == b[m]);
        assert(ab.take(k) =~= a + b.take(m));
        lemma_matched_concat(a, b.take(m), b[m].key());
        if matched(a, b[m].key()) {
            let w = choose|w: int| 0 <= w < a.len() && (#[trigger] a[w]).key() == b[m].key();
            assert(a[w].interface_namespace == b[m].interface_namespace);
        }
    }
    if passes_before(reg, a, a.len() as int) && passes_before(reg, b, b.len() as int) {
        assert forall|k: int| 0 <= k < ab.len() implies #[trigger] passes(reg, ab, k) by {
            if k >= a.len() {
                assert(passes(reg, b, k - a.len()));
            }
        }
    }
    if passes_before(reg, ab, ab.len() as int) {
        assert forall|m: int| 0 <= m < b.len() implies #[trigger] passes(reg, b, m) by {
            assert(passes(reg, ab, a.len() + m));
        }
    }
    // a requirement of an interface claimed by one part is never matched by the other
    assert forall|j: int, q: int|
        0 <= j < reg.len() && 0 <= q < reg[j].instructions.len() implies {
        &&& claimed(a, reg[j].namespace) ==> (matched(ab, reg[j].instructions[q].key()) == matched(
            a,
            reg[j].instructions[q].key(),
        ))
        &&& claimed(b, reg[j].namespace) ==> (matched(ab, reg[j].instructions[q].key()) == matched(
            b,
            reg[j].instructions[q].key(),
        ))
    } by {
        assert(interface_wf(reg[j]));
        let k = reg[j].instructions[q].key();
        assert(k.0 == reg[j].namespace);
        if claimed(a, reg[j].namespace) && matched(b, k) {
            let x = choose|x: int| 0 <= x < a.len() && (#[trigger] a[x]).interface_namespace == reg[j].namespace;
            let y = choose|y: int| 0 <= y < b.len() && (#[trigger] b[y]).key() == k;
            assert(a[x].interface_namespace != b[y].interface_namespace);
        }
        if claimed(b, reg[j].namespace) && matched(a, k) {
            let y = choose|y: int| 0 <= y < b.len() && (#[trigger] b[y]).interface_namespace == reg[j].namespace;
            let x = choose|x: int| 0 <= x < a.len() && (#[trigger] a[x]).key() == k;
            assert(a[x].interface_namespace != b[y].interface_namespace);
        }
    }
    if passes_before(reg, ab, ab.len() as int) {
        assert forall|k: int| 0 <= k < a.len() implies #[trigger] passes(reg, a, k) by {
            assert(passes(reg, ab, k));
        }
    }
    if all_matched(reg, ab) {
        assert forall|j: int, q: int|
            0 <= j < reg.len() && 0 <= q < reg[j].instructions.len() && #[trigger] claimed(a, reg[j].namespace)
                implies matched(a, #[trigger] reg[j].instructions[q].key()) by {
            assert(claimed(ab, reg[j].namespace));
        }
        assert forall|j: int, q: int|
            0 <= j < reg.len() && 0 <= q < reg[j].instructions.len() && #[trigger] claimed(b, reg[j].namespace)
                implies matched(b, #[trigger] reg[j].instructions[q].key()) by {
            assert(claimed(ab, reg[j].namespace));
        }
    }
    if all_matched(reg, a) && all_matched(reg, b) {
        assert forall|j: int, q: int|
            0 <= j < reg.len() && 0 <= q < reg[j].instructions.len() && #[trigger] claimed(ab, reg[j].namespace)
                implies matched(ab, #[trigger] reg[j].instructions[q].key()) by {
            if claimed(a, reg[j].namespace) {
                assert(matched(a, reg[j].instructions[q].key()));
            } else {
                assert(matched(b, reg[j].instructions[q].key()));
            }
        }
    }
}

proof fn lemma_matched_concat(a: Seq<InstructionView>, b: Seq<InstructionView>, k: InstructionKey)
    ensures
        matched(a + b, k) == (matched(a, k) || matched(b, k)),
{
    let ab = a + b;
    if matched(a, k) {
        let w = choose|w: int| 0 <= w < a.len() && (#[trigger] a[w]).key() == k;
        assert(ab[w] == a[w]);
    }
    if matched(b, k) {
        let w = choose|w: int| 0 <= w < b.len() && (#[trigger] b[w]).key() == k;
        assert(ab[a.len() + w] == b[w]);
    }
    if matched(ab, k) {
        let w = choose|w: int| 0 <= w < ab.len() && (#[trigger] ab[w]).key() == k;
        if w < a.len() {
            assert(ab[w] == a[w]);
        } else {
            assert(ab[w] == b[w - a.len()]);
        }
    }
}

proof fn lemma_claimed_concat(a: Seq<InstructionView>, b: Seq<InstructionView>, ns: Seq<char>)
    ensures
        claimed(a + b, ns) == (claimed(a, ns) || claimed(b, ns)),
{
    let ab = a + b;
    if claimed(a, ns) {
        let w = choose|w: int| 0 <= w < a.len() && (#[trigger] a[w]).interface_namespace == ns;
        assert(ab[w] == a[w]);
    }
    if claimed(b, ns) {
        let w = choose|w: int| 0 <= w < b.len() && (#[trigger] b[w]).interface_namespace == ns;
        assert(ab[a.len() + w] == b[w]);
    }
    if claimed(ab, ns) {
        let w = choose|w: int| 0 <= w < ab.len() && (#[trigger] ab[w]).interface_namespace == ns;
        if w < a.len() {
            assert(ab[w] == a[w]);
        } else {
            assert(ab[w] == b[w - a.len()]);
        }
    }
}

/// In a well-formed registry, two different required instructions never
/// share the hashed text of their discriminators: distinct positions give
/// distinct (interface, instruction) pairs of separator-free namespaces.
pub proof fn lemma_registry_preimages_distinct(reg: Seq<InterfaceView>, j1: int, q1: int, j2: int, q2: int)
    requires
        registry_wf(reg),
        0 <= j1 < reg.len(),
        0 <= j2 < reg.len(),
        0 <= q1 < reg[j1].instructions.len(),
        0 <= q2 < reg[j2].instructions.len(),
        j1 != j2 || q1 != q2,
    ensures
        preimage(reg[j1].instructions[q1].interface_namespace, reg[j1].instructions[q1].instruction_namespace)
            != preimage(reg[j2].instructions[q2].interface_namespace, reg[j2].instructions[q2].instruction_namespace),
{
    let a = reg[j1].instructions[q1];
    let b = reg[j2].instructions[q2];
    assert(interface_wf(reg[j1]));
    assert(interface_wf(reg[j2]));
    lemma_preimage_injective(a.interface_namespace, a.instruction_namespace, b.interface_namespace, b.instruction_namespace);
    if j1 != j2 {
        assert(reg[j1].namespace != reg[j2].namespace);
    }
}

/// The descriptor names a registered interface that requires it.
pub open spec fn declarable(reg: Seq<InterfaceView>, d: InstructionView) -> bool {
    registered(reg, d.interface_namespace) && requires_key(reg[interface_index(reg, d.interface_namespace)], d.key())
}

/// Every descriptor of `decl` is declarable.
pub open spec fn all_declarable(reg: Seq<InterfaceView>, decl: Seq<InstructionView>) -> bool {
    forall|i: int| 0 <= i < decl.len() ==> declarable(reg, #[trigger] decl[i])
}

/// No two descriptors of `decl` have the same key.
pub open spec fn distinct_keys(decl: Seq<InstructionView>) -> bool {
    forall|i1: int, i2: int| 0 <= i1 < i2 < decl.len() ==> (#[trigger] decl[i1]).key() != (#[trigger] decl[i2]).key()
}

/// Every descriptor passes exactly when each is declarable and none is
/// repeated: the order of the descriptors plays no part.
pub proof fn lemma_all_pass_iff(reg: Seq<InterfaceView>, decl: Seq<InstructionView>)
    ensures
        passes_before(reg, decl, decl.len() as int) == (all_declarable(reg, decl) && distinct_keys(decl)),
{
    if passes_before(reg, decl, decl.len() as int) {
        assert forall|i: int| 0 <= i < decl.len() implies declarable(reg, #[trigger] decl[i]) by {
            assert(passes(reg, decl, i));
        }
        assert forall|i1: int, i2: int| 0 <= i1 < i2 < decl.len() implies (#[trigger] decl[i1]).key() != (
        #[trigger] decl[i2]).key() by {
            assert(passes(reg, decl, i2));
            assert(decl.take(i2)[i1] == decl[i1]);
        }
    }
    if all_declarable(reg, decl) && distinct_keys(decl) {
        assert forall|k: int| 0 <= k < decl.len() implies #[trigger] passes(reg, decl, k) by {
            assert(declarable(reg, decl[k]));
            if matched(decl.take(k), decl[k].key()) {
                let w = choose|w: int| 0 <= w < decl.take(k).len() && (#[trigger] decl.take(k)[w]).key() == decl[k].key();
                assert(decl.take(k)[w] == decl[w]);
            }
        }
    }
}

/// A program that implements several registered interfaces passes: when
/// every descriptor is a requirement of its (registered) interface, none is
/// repeated, and every requirement of every claimed interface is declared,
/// validation succeeds, whatever the order. Any permutation of the
/// concatenated requirement lists of distinct registered interfaces is such
/// a declaration.
pub proof fn lemma_complete_implementations(reg: Seq<InterfaceView>, decl: Seq<InstructionView>)
    requires
        all_declarable(reg, decl),
        distinct_keys(decl),
        all_matched(reg, decl),
    ensures
        verdict(reg, decl) == Ok::<(), InterfaceErrorView>(()),
{
    lemma_all_pass_iff(reg, decl);
    lemma_success_iff(reg, decl);
}

/// `s` interleaves `a` and `b`: it is made of the descriptors of both, each
/// part keeping its own order.
pub open spec fn interleaves(s: Seq<InstructionView>, a: Seq<InstructionView>, b: Seq<InstructionView>) -> bool
    decreases s.len(),
{
    if s.len() == 0 {
        a.len() == 0 && b.len() == 0
    } else {
        ||| a.len() > 0 && s.last() == a.last() && interleaves(s.drop_last(), a.drop_last(), b)
        ||| b.len() > 0 && s.last() == b.last() && interleaves(s.drop_last(), a, b.drop_last())
    }
}

/// No descriptor of `a` claims an interface that a descriptor of `b` claims.
pub open spec fn disjoint_interfaces(a: Seq<InstructionView>, b: Seq<InstructionView>) -> bool {
    forall|x: int, y: int|
        0 <= x < a.len() && 0 <= y < b.len() ==> (#[trigger] a[x]).interface_namespace != (#[trigger] b[
            y
        ]).interface_namespace
}

/// Validation ends in success or in `InstructionMissing`: no descriptor
/// was rejected on its own.
pub open spec fn completes(v: Result<(), InterfaceErrorView>) -> bool {
    v matches Ok(()) || v matches Err(InterfaceErrorView::InstructionMissing(_))
}

/// Requirement `q` of interface `j` is reported as missing for `decl`.
pub open spec fn reported_missing(reg: Seq<InterfaceView>, decl: Seq<InstructionView>, p: (Seq<char>, Seq<char>)) -> bool {
    exists|j: int, q: int|
        0 <= j < reg.len() && 0 <= q < reg[j].instructions.len() && claimed(decl, reg[j].namespace) && !matched(
            decl,
            #[trigger] reg[j].instructions[q].key(),
        ) && p == (reg[j].instructions[q].interface_namespace, reg[j].instructions[q].instruction_namespace)
}

proof fn lemma_push_facts(s: Seq<InstructionView>, e: InstructionView)
    ensures
        forall|k: InstructionKey| #[trigger] matched(s.push(e), k) == (matched(s, k) || e.key() == k),
        forall|ns: Seq<char>| #[trigger] claimed(s.push(e), ns) == (claimed(s, ns) || e.interface_namespace == ns),
{
    let t = s.push(e);
    assert forall|k: InstructionKey| #[trigger] matched(t, k) == (matched(s, k) || e.key() == k) by {
        if matched(s, k) {
            let w = choose|w: int| 0 <= w < s.len() && (#[trigger] s[w]).key() == k;
            assert(t[w] == s[w]);
        }
        if matched(t, k) && !matched(s, k) {
            let w = choose|w: int| 0 <= w < t.len() && (#[trigger] t[w]).key() == k;
            if w < s.len() {
                assert(t[w] == s[w]);
            }
        }
        if e.key() == k {
            assert(t[s.len() as int] == e);
        }
    }
    assert forall|ns: Seq<char>| #[trigger] claimed(t, ns) == (claimed(s, ns) || e.interface_namespace == ns) by {
        if claimed(s, ns) {
            let w = choose|w: int| 0 <= w < s.len() && (#[trigger] s[w]).interface_namespace == ns;
            assert(t[w] == s[w]);
        }
        if claimed(t, ns) && !claimed(s, ns) {
            let w = choose|w: int| 0 <= w < t.len() && (#[trigger] t[w]).interface_namespace == ns;
            if w < s.len() {
                assert(t[w] == s[w]);
            }
        }
        if e.interface_namespace == ns {
            assert(t[s.len() as int] == e);
        }
    }
}

proof fn lemma_push_all_declarable(reg: Seq<InterfaceView>, s: Seq<InstructionView>, e: InstructionView)
    ensures
        all_declarable(reg, s.push(e)) == (all_declarable(reg, s) && declarable(reg, e)),
        distinct_keys(s.push(e)) == (distinct_keys(s) && !matched(s, e.key())),
{
    let t = s.push(e);
    assert(t[s.len() as int] == e);
    assert forall|i: int| 0 <= i < s.len() implies t[i] == s[i] by {}
    if all_declarable(reg, s) && declarable(reg, e) {
        assert forall|i: int| 0 <= i < t.len() implies declarable(reg, #[trigger] t[i]) by {
            if i < s.len() {
                assert(declarable(reg, s[i]));
            }
        }
    }
    if all_declarable(reg, t) {
        assert forall|i: int| 0 <= i < s.len() implies declarable(reg, #[trigger] s[i]) by {
            assert(declarable(reg, t[i]));
        }
        assert(declarable(reg, t[s.len() as int]));
    }
    if distinct_keys(s) && !matched(s, e.key()) {
        assert forall|i1: int, i2: int| 0 <= i1 < i2 < t.len() implies (#[trigger] t[i1]).key() != (
        #[trigger] t[i2]).key() by {
            if i2 == s.len() {
                assert(t[i1] == s[i1]);
            } else {
                assert(t[i1] == s[i1] && t[i2] == s[i2]);
            }
        }
    }
    if distinct_keys(t) {
        assert forall|i1: int, i2: int| 0 <= i1 < i2 < s.len() implies (#[trigger] s[i1]).key() != (
        #[trigger] s[i2]).key() by {
            assert(t[i1] == s[i1] && t[i2] == s[i2]);
        }
        if matched(s, e.key()) {
            let w = choose|w: int| 0 <= w < s.len() && (#[trigger] s[w]).key() == e.key();
            assert(t[w] == s[w]);
        }
    }
}

/// What an interleaving keeps of its two parts.
proof fn lemma_interleave_facts(reg: Seq<InterfaceView>, s: Seq<InstructionView>, a: Seq<InstructionView>, b: Seq<InstructionView>)
    requires
        interleaves(s, a, b),
        disjoint_interfaces(a, b),
    ensures
        forall|k: InstructionKey| #[trigger] matched(s, k) == (matched(a, k) || matched(b, k)),
        forall|ns: Seq<char>| #[trigger] claimed(s, ns) == (claimed(a, ns) || claimed(b, ns)),
        all_declarable(reg, s) == (all_declarable(reg, a) && all_declarable(reg, b)),
        distinct_keys(s) == (distinct_keys(a) && distinct_keys(b)),
    decreases s.len(),
{
    if s.len() == 0 {
        assert(a =~= Seq::<InstructionView>::empty());
        assert(b =~= Seq::<InstructionView>::empty());
        assert(!exists|w: int| 0 <= w < s.len() && (#[trigger] s[w]).key() == s[w].key());
    } else {
        let s0 = s.drop_last();
        let e = s.last();
        assert(s =~= s0.push(e));
        lemma_push_facts(s0, e);
        lemma_push_all_declarable(reg, s0, e);
        if a.len() > 0 && e == a.last() && interleaves(s0, a.drop_last(), b) {
            let a0 = a.drop_last();
            assert(a =~= a0.push(e));
            assert(disjoint_interfaces(a0, b)) by {
                assert forall|x: int, y: int| 0 <= x < a0.len() && 0 <= y < b.len() implies (#[trigger] a0[x]).interface_namespace
                    != (#[trigger] b[y]).interface_namespace by {
                    assert(a0[x] == a[x]);
                }
            }
            lemma_interleave_facts(reg, s0, a0, b);
            lemma_push_facts(a0, e);
            lemma_push_all_declarable(reg, a0, e);
            if matched(b, e.key()) {
                let y = choose|y: int| 0 <= y < b.len() && (#[trigger] b[y]).key() == e.key();
                assert(a[a.len() - 1].interface_namespace != b[y].interface_namespace);
            }
        } else {
            let b0 = b.drop_last();
            assert(b =~= b0.push(e));
            assert(disjoint_interfaces(a, b0)) by {
                assert forall|x: int, y: int| 0 <= x < a.len() && 0 <= y < b0.len() implies (#[trigger] a[x]).interface_namespace
                    != (#[trigger] b0[y]).interface_namespace by {
                    assert(b0[y] == b[y]);
                }
            }
            lemma_interleave_facts(reg, s0, a, b0);
            lemma_push_facts(b0, e);
            lemma_push_all_declarable(reg, b0, e);
            if matched(a, e.key()) {
                let x = choose|x: int| 0 <= x < a.len() && (#[trigger] a[x]).key() == e.key();
                assert(a[x].interface_namespace != b[b.len() - 1].interface_namespace);
            }
        }
    }
}

proof fn lemma_from_completes(reg: Seq<InterfaceView>, decl: Seq<InstructionView>, i: int)
    requires
        0 <= i <= decl.len(),
    ensures
        completes(verdict_from(reg, decl, i)) == (forall|k: int| i <= k < decl.len() ==> #[trigger] passes(reg, decl, k)),
    decreases decl.len() - i,
{
    if i < decl.len() {
        lemma_from_completes(reg, decl, i + 1);
        if passes(reg, decl, i) {
            assert(verdict_from(reg, decl, i) == verdict_from(reg, decl, i + 1));
        } else {
            assert(!completes(verdict_from(reg, decl, i)));
        }
    } else {
        assert(completes(verdict_from(reg, decl, i)));
    }
}

/// Validation ends in success or `InstructionMissing` exactly when every
/// descriptor passes; the result is then success when nothing is missing,
/// and else the list of what is missing.
pub proof fn lemma_completed_verdict(reg: Seq<InterfaceView>, decl: Seq<InstructionView>)
    ensures
        completes(verdict(reg, decl)) == passes_before(reg, decl, decl.len() as int),
        completes(verdict(reg, decl)) ==> verdict(reg, decl) == if missing(reg, decl).len() == 0 {
            Ok::<(), InterfaceErrorView>(())
        } else {
            Err(InterfaceErrorView::InstructionMissing(missing(reg, decl)))
        },
{
    lemma_from_completes(reg, decl, 0);
    if passes_before(reg, decl, decl.len() as int) {
        lemma_verdict_skip(reg, decl, decl.len() as int);
    }
}

proof fn lemma_unmatched_reported(s: Seq<InstructionView>, decl: Seq<InstructionView>, p: (Seq<char>, Seq<char>))
    requires
        unmatched_among(s, decl).contains(p),
    ensures
        exists|q: int|
            0 <= q < s.len() && !matched(decl, #[trigger] s[q].key()) && p == (
            s[q].interface_namespace,
            s[q].instruction_namespace,
        ),
    decreases s.len(),
{
    let init = s.drop_last();
    let u = unmatched_among(s, decl);
    let w = choose|w: int| 0 <= w < u.len() && u[w] == p;
    if w < unmatched_among(init, decl).len() {
        assert(unmatched_among(init, decl)[w] == p);
        lemma_unmatched_reported(init, decl, p);
        let q = choose|q: int|
            0 <= q < init.len() && !matched(decl, #[trigger] init[q].key()) && p == (
            init[q].interface_namespace,
            init[q].instruction_namespace,
        );
        assert(init[q] == s[q]);
    } else {
        assert(!matched(decl, s[s.len() - 1].key()));
    }
}

proof fn lemma_missing_upto_reported(reg: Seq<InterfaceView>, decl: Seq<InstructionView>, n: int, p: (Seq<char>, Seq<char>))
    requires
        0 <= n <= reg.len(),
        missing_upto(reg, decl, n).contains(p),
    ensures
        reported_missing(reg, decl, p),
    decreases n,
{
    let before = missing_upto(reg, decl, n - 1);
    let m = missing_upto(reg, decl, n);
    let w = choose|w: int| 0 <= w < m.len() && m[w] == p;
    if w < before.len() {
        assert(before[w] == p);
        lemma_missing_upto_reported(reg, decl, n - 1, p);
    } else {
        let j = n - 1;
        assert(claimed(decl, reg[j].namespace));
        assert(unmatched(reg[j], decl)[w - before.len()] == p);
        lemma_unmatched_reported(reg[j].instructions, decl, p);
        let q = choose|q: int|
            0 <= q < reg[j].instructions.len() && !matched(decl, #[trigger] reg[j].instructions[q].key()) && p == (
            reg[j].instructions[q].interface_namespace,
            reg[j].instructions[q].instruction_namespace,
        );
        assert(0 <= j < reg.len() && 0 <= q < reg[j].instructions.len() && claimed(decl, reg[j].namespace) && !matched(
            decl,
            reg[j].instructions[q].key(),
        ));
    }
}

/// A pair is in the missing list exactly when it names an unmatched
/// requirement of a claimed interface.
pub proof fn lemma_missing_iff(reg: Seq<InterfaceView>, decl: Seq<InstructionView>, p: (Seq<char>, Seq<char>))
    ensures
        missing(reg, decl).contains(p) == reported_missing(reg, decl, p),
{
    if missing(reg, decl).contains(p) {
        lemma_missing_upto_reported(reg, decl, reg.len() as int, p);
    }
    if reported_missing(reg, decl, p) {
        let (j, q) = choose|j: int, q: int|
            0 <= j < reg.len() && 0 <= q < reg[j].instructions.len() && claimed(decl, reg[j].namespace) && !matched(
                decl,
                #[trigger] reg[j].instructions[q].key(),
            ) && p == (reg[j].instructions[q].interface_namespace, reg[j].instructions[q].instruction_namespace);
        lemma_missing_contains(reg, decl, reg.len() as int, j, q);
    }
}

/// A program that interleaves the descriptors of two parts claiming
/// disjoint sets of interfaces is validated against each part
/// independently: it succeeds exactly when both parts succeed; it ends in
/// success or `InstructionMissing` exactly when both parts do; and what it
/// reports missing is the union of what the two parts report.
pub proof fn lemma_interleaved_interfaces_independent(
    reg: Seq<InterfaceView>,
    s: Seq<InstructionView>,
    a: Seq<InstructionView>,
    b: Seq<InstructionView>,
)
    requires
        registry_wf(reg),
        interleaves(s, a, b),
        disjoint_interfaces(a, b),
    ensures
        (verdict(reg, s) == Ok::<(), InterfaceErrorView>(())) == (verdict(reg, a) == Ok::<(), InterfaceErrorView>(())
            && verdict(reg, b) == Ok::<(), InterfaceErrorView>(())),
        completes(verdict(reg, s)) == (completes(verdict(reg, a)) && completes(verdict(reg, b))),
        forall|p: (Seq<char>, Seq<char>)|
            #[trigger] missing(reg, s).contains(p) == (missing(reg, a).contains(p) || missing(reg, b).contains(p)),
{
    lemma_interleave_facts(reg, s, a, b);
    lemma_success_iff(reg, s);
    lemma_success_iff(reg, a);
    lemma_success_iff(reg, b);
    lemma_all_pass_iff(reg, s);
    lemma_all_pass_iff(reg, a);
    lemma_all_pass_iff(reg, b);
    lemma_completed_verdict(reg, s);
    lemma_completed_verdict(reg, a);
    lemma_completed_verdict(reg, b);
    // a requirement of an interface claimed by one part is never matched by the other
    assert forall|j: int, q: int| 0 <= j < reg.len() && 0 <= q < reg[j].instructions.len() implies {
        &&& claimed(a, reg[j].namespace) ==> (matched(s, #[trigger] reg[j].instructions[q].key()) == matched(
            a,
            reg[j].instructions[q].key(),
        ))
        &&& claimed(b, reg[j].namespace) ==> (matched(s, reg[j].instructions[q].key()) == matched(
            b,
            reg[j].instructions[q].key(),
        ))
    } by {
        assert(interface_wf(reg[j]));
        let k = reg[j].instructions[q].key();
        assert(k.0 == reg[j].namespace);
        if claimed(a, reg[j].namespace) && matched(b, k) {
            let x = choose|x: int| 0 <= x < a.len() && (#[trigger] a[x]).interface_namespace == reg[j].namespace;
            let y = choose|y: int| 0 <= y < b.len() && (#[trigger] b[y]).key() == k;
            assert(a[x].interface_namespace != b[y].interface_namespace);
        }
        if claimed(b, reg[j].namespace) && matched(a, k) {
            let y = choose|y: int| 0 <= y < b.len() && (#[trigger] b[y]).interface_namespace == reg[j].namespace;
            let x = choose|x: int| 0 <= x < a.len() && (#[trigger] a[x]).key() == k;
            assert(a[x].interface_namespace != b[y].interface_namespace);
        }
    }
    if all_matched(reg, s) {
        assert forall|j: int, q: int|
            0 <= j < reg.len() && 0 <= q < reg[j].instructions.len() && #[trigger] claimed(a, reg[j].namespace)
                implies matched(a, #[trigger] reg[j].instructions[q].key()) by {
            assert(claimed(s, reg[j].namespace));
        }
        assert forall|j: int, q: int|
            0 <= j < reg.len() && 0 <= q < reg[j].instructions.len() && #[trigger] claimed(b, reg[j].namespace)
                implies matched(b, #[trigger] reg[j].instructions[q].key()) by {
            assert(claimed(s, reg[j].namespace));
        }
    }
    if all_matched(reg, a) && all_matched(reg, b) {
        assert forall|j: int, q: int|
            0 <= j < reg.len() && 0 <= q < reg[j].instructions.len() && #[trigger] claimed(s, reg[j].namespace)
                implies matched(s, #[trigger] reg[j].instructions[q].key()) by {
            if claimed(a, reg[j].namespace) {
                assert(matched(a, reg[j].instructions[q].key()));
            } else {
                assert(matched(b, reg[j].instructions[q].key()));
            }
        }
    }
    assert forall|p: (Seq<char>, Seq<char>)|
        #[trigger] missing(reg, s).contains(p) == (missing(reg, a).contains(p) || missing(reg, b).contains(p)) by {
        lemma_missing_iff(reg, s, p);
        lemma_missing_iff(reg, a, p);
        lemma_missing_iff(reg, b, p);
        if reported_missing(reg, s, p) {
            let (j, q) = choose|j: int, q: int|
                0 <= j < reg.len() && 0 <= q < reg[j].instructions.len() && claimed(s, reg[j].namespace) && !matched(
                    s,
                    #[trigger] reg[j].instructions[q].key(),
                ) && p == (reg[j].instructions[q].interface_namespace, reg[j].instructions[q].instruction_namespace);
            if claimed(a, reg[j].namespace) {
                assert(reported_missing(reg, a, p));
            } else {
                assert(reported_missing(reg, b, p));
            }
        }
        if reported_missing(reg, a, p) {
            let (j, q) = choose|j: int, q: int|
                0 <= j < reg.len() && 0 <= q < reg[j].instructions.len() && claimed(a, reg[j].namespace) && !matched(
                    a,
                    #[trigger] reg[j].instructions[q].key(),
                ) && p == (reg[j].instructions[q].interface_namespace, reg[j].instructions[q].instruction_namespace);
            assert(claimed(s, reg[j].namespace));
            assert(reported_missing(reg, s, p));
        }
        if reported_missing(reg, b, p) {
            let (j, q) = choose|j: int, q: int|
                0 <= j < reg.len() && 0 <= q < reg[j].instructions.len() && claimed(b, reg[j].namespace) && !matched(
                    b,
                    #[trigger] reg[j].instructions[q].key(),
                ) && p == (reg[j].instructions[q].interface_namespace, reg[j].instructions[q].instruction_namespace);
            assert(claimed(s, reg[j].namespace));
            assert(reported_missing(reg, s, p));
        }
    }
}

} // verus!
