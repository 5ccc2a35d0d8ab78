//! The 8-byte discriminator of an (interface, instruction) pair: the first
//! eight bytes of the SHA-256 digest of `interface ++ ":" ++ instruction`.
use vstd::prelude::*;
use vstd::string::*;
use vstd::utf8::*;

use crate::interface::InterfaceInstruction;

verus! {

/// The SHA-256 digest of a byte string.
pub uninterp spec fn sha256_of(data: Seq<u8>) -> Seq<u8>;

/// Relies on `solana_program::hash::hash`: the SHA-256 digest of `data`,
/// which depends on `data` alone.
#[verifier::external_body]
fn sha256(data: &[u8]) -> (r: [u8; 32])
    ensures
        r@ == sha256_of(data@),
{
    solana_program::hash::hash(data).to_bytes()
}

/// The separator between the two namespaces in the hashed text.
pub open spec fn separator() -> char {
    ':'
}

/// The text that is hashed: the UTF-8 encoding of `interface:instruction`.
pub open spec fn preimage(interface_namespace: Seq<char>, instruction_namespace: Seq<char>) -> Seq<u8> {
    encode_utf8(interface_namespace + seq![separator()] + instruction_namespace)
}

/// The discriminator of an instruction of an interface.
pub open spec fn discriminator_of(interface_namespace: Seq<char>, instruction_namespace: Seq<char>) -> Seq<u8> {
    sha256_of(preimage(interface_namespace, instruction_namespace)).take(8)
}

/// Returns the 8-byte discriminator of `instruction_namespace` within
/// `interface_namespace`.
pub fn discriminator(interface_namespace: &str, instruction_namespace: &str) -> (r: [u8; 8])
    ensures
        r@ == discriminator_of(interface_namespace@, instruction_namespace@),
{
    let text = interface_namespace.to_owned().concat(":").concat(instruction_namespace);
    proof {
        reveal_strlit(":");
        assert(text@ =~= interface_namespace@ + seq![separator()] + instruction_namespace@);
    }
    let digest = sha256(text.as_str().as_bytes());
    let r = [
        digest[0],
        digest[1],
        digest[2],
        digest[3],
        digest[4],
        digest[5],
        digest[6],
        digest[7],
    ];
    assert(r@ =~= digest@.take(8));
    r
}

/// A namespace as the registry and the discriminator expect it: non-empty,
/// ASCII, and free of the separator.
pub open spec fn valid_namespace(s: Seq<char>) -> bool {
    &&& s.len() > 0
    &&& forall|i: int| 0 <= i < s.len() ==> (s[i] as u32) < 128 && s[i] != separator()
}

/// Whether `s` is a valid namespace: non-empty, ASCII, without the
/// separator.
pub fn is_valid_namespace(s: &String) -> (r: bool)
    ensures
        r == valid_namespace(s@),
{
    let text = s.as_str();
    let n = text.unicode_len();
    if n == 0 {
        return false;
    }
    let mut i: usize = 0;
    while i < n
        invariant
            n == text@.len(),
            text@ == s@,
            i <= n,
            forall|k: int| 0 <= k < i ==> (text@[k] as u32) < 128 && text@[k] != separator(),
        decreases n - i,
    {
        let c = text.get_char(i);
        if !((c as u32) < 128 && c != ':') {
            return false;
        }
        i += 1;
    }
    true
}

/// The characters of `s` from position `k` on are ASCII and not the
/// separator; stated by recursion, so that it unfolds on a literal.
pub open spec fn namespace_chars_from(s: Seq<char>, k: int) -> bool
    decreases s.len() - k,
{
    if k < 0 || k >= s.len() {
        true
    } else {
        (s[k] as u32) < 128 && s[k] != separator() && namespace_chars_from(s, k + 1)
    }
}

/// A non-empty sequence whose characters pass `namespace_chars_from` is a
/// valid namespace.
pub proof fn lemma_valid_namespace(s: Seq<char>)
    requires
        s.len() > 0,
        namespace_chars_from(s, 0),
    ensures
        valid_namespace(s),
{
    lemma_namespace_chars_from(s, 0);
}

proof fn lemma_namespace_chars_from(s: Seq<char>, k: int)
    requires
        0 <= k,
        namespace_chars_from(s, k),
    ensures
        forall|i: int| k <= i < s.len() ==> (s[i] as u32) < 128 && s[i] != separator(),
    decreases s.len() - k,
{
    if k < s.len() {
        lemma_namespace_chars_from(s, k + 1);
    }
}

/// Two (interface, instruction) pairs of separator-free namespaces have the
/// same hashed text exactly when they are the same pair: distinct pairs are
/// never made to collide by the way the text is formed.
pub proof fn lemma_preimage_injective(a1: Seq<char>, b1: Seq<char>, a2: Seq<char>, b2: Seq<char>)
    requires
        valid_namespace(a1),
        valid_namespace(b1),
        valid_namespace(a2),
        valid_namespace(b2),
    ensures
        preimage(a1, b1) == preimage(a2, b2) <==> (a1 == a2 && b1 == b2),
{
    let c1 = a1 + seq![separator()] + b1;
    let c2 = a2 + seq![separator()] + b2;
    if preimage(a1, b1) == preimage(a2, b2) {
        encode_utf8_decode_utf8(c1);
        encode_utf8_decode_utf8(c2);
        assert(c1 == c2);
        if a1.len() < a2.len() {
            assert(c1[a1.len() as int] == separator());
            assert(c2[a1.len() as int] == a2[a1.len() as int]);
        } else if a2.len() < a1.len() {
            assert(c2[a2.len() as int] == separator());
            assert(c1[a2.len() as int] == a1[a2.len() as int]);
        }
        assert(a1 =~= c1.take(a1.len() as int));
        assert(a2 =~= c2.take(a2.len() as int));
        assert(b1 =~= c1.skip(a1.len() as int + 1));
        assert(b2 =~= c2.skip(a2.len() as int + 1));
    }
}

impl InterfaceInstruction {
    /// Returns the 8-byte discriminator for the instruction
    pub fn discriminator(&self) -> (r: [u8; 8])
        ensures
            r@ == discriminator_of(self@.interface_namespace, self@.instruction_namespace),
    {
        discriminator(self.interface_namespace.as_str(), self.instruction_namespace.as_str())
    }
}

} // verus!
