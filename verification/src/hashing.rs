//! The digest that commitments are checked against, and byte-level equality.

use vstd::prelude::*;

verus! {

/// The SHA-256 digest of a byte sequence. The digest is a pure function of
/// its input, so it can be given a name; what the name denotes on concrete
/// bytes is only ever learned by calling `sha2_256`.
pub uninterp spec fn digest_of(preimage: Seq<u8>) -> Seq<u8>;

/// Relies on `sha2::Sha256::digest`: the SHA-256 digest of the input bytes,
/// a 32-byte value determined by the input alone.
#[verifier::external_body]
pub(crate) fn sha2_256(preimage: &Vec<u8>) -> (r: [u8; 32])
    ensures
        r@ == digest_of(preimage@),
{
    let digest = <sha2::Sha256 as sha2::Digest>::digest(preimage.as_slice());
    digest.into()
}

/// Exact byte-for-byte comparison of two 32-byte values.
pub fn bytes32_eq(a: &[u8; 32], b: &[u8; 32]) -> (r: bool)
    ensures
        r == (a@ == b@),
{
    let mut i: usize = 0;
    while i < 32
        invariant
            0 <= i <= 32,
            forall|j: int| 0 <= j < i ==> a@[j] == b@[j],
        decreases 32 - i,
    {
        if a[i] != b[i] {
            return false;
        }
        i = i + 1;
    }
    proof {
        assert(a@ =~= b@);
    }
    true
}

} // verus!
