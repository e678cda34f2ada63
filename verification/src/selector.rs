use vstd::prelude::*;

verus! {

/// The Keccak-256 digest of the UTF-8 bytes of a string, as a sequence of
/// 32 bytes. The digest is far too long to state here, so it only gets a
/// name; contracts speak of selectors through it.
pub uninterp spec fn keccak_of(s: Seq<char>) -> Seq<u8>;

/// The 4-byte function selector of a textual signature: the first 4 bytes
/// of its Keccak-256 digest.
pub open spec fn selector_of(s: Seq<char>) -> Seq<u8> {
    keccak_of(s).take(4)
}

/// Relies on ethers_core::utils::keccak256: the Keccak-256 digest of the
/// input bytes, a pure function of its argument alone.
#[verifier::external_body]
fn keccak256_digest(data: &str) -> (r: [u8; 32])
    ensures
        r@ == keccak_of(data@),
{
    ethers_core::utils::keccak256(data.as_bytes())
}

/// Derives the 4-byte selector from a full textual function signature:
/// the first 4 bytes of the Keccak-256 hash of its UTF-8 bytes.
/// Pure and deterministic; never fails.
pub fn selector_from_signature(signature: &str) -> (r: [u8; 4])
    ensures
        r@ == selector_of(signature@),
{
    let hash = keccak256_digest(signature);
    let r: [u8; 4] = [hash[0], hash[1], hash[2], hash[3]];
    proof {
        assert(r@ =~= keccak_of(signature@).take(4));
    }
    r
}

/// Two calls of `selector_from_signature` on the same signature string
/// yield identical 4-byte output: the selector is a function of the
/// signature's characters alone.
pub proof fn lemma_selector_deterministic(s1: Seq<char>, s2: Seq<char>)
    requires
        s1 == s2,
    ensures
        selector_of(s1) == selector_of(s2),
{
}

} // verus!
