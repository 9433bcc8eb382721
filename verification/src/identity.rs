//! The hashed identity triple.

use vstd::prelude::*;

verus! {

/// Width of one digest, in bytes.
pub const DIGEST_LEN: usize = 32;

/// The SHA-256 digest of a byte string.
pub uninterp spec fn sha256_digest(data: Seq<u8>) -> [u8; 32];

/// Calls `solana_program::hash::hash` and unwraps the `Hash` it returns.
///
/// Trusted: the 32 bytes returned are the SHA-256 digest of `data`, a function
/// of `data` alone.
#[verifier::external_body]
fn sha256(data: &[u8]) -> (digest: [u8; 32])
    ensures
        digest == sha256_digest(data@),
{
    solana_program::hash::hash(data).to_bytes()
}

/// The digests of a person's name, date of birth and gender.
///
/// Two identities are the same person exactly when all three digests agree.
#[derive(Clone, Copy, Debug, PartialEq, Eq)]
pub struct HashedIdentity {
    pub hashed_name: [u8; 32],
    pub hashed_dob: [u8; 32],
    pub hashed_gender: [u8; 32],
}

/// The triple of a person: each raw field is hashed as its UTF-8 bytes.
pub open spec fn hashed_identity(name: Seq<char>, dob: Seq<char>, gender: Seq<char>) -> HashedIdentity {
    HashedIdentity {
        hashed_name: sha256_digest(vstd::utf8::encode_utf8(name)),
        hashed_dob: sha256_digest(vstd::utf8::encode_utf8(dob)),
        hashed_gender: sha256_digest(vstd::utf8::encode_utf8(gender)),
    }
}

/// Whether two digests hold the same bytes.
pub fn digest_eq(a: &[u8; 32], b: &[u8; 32]) -> (same: bool)
    ensures
        same == (*a == *b),
{
    let mut i: usize = 0;
    while i < 32
        invariant
            i <= 32,
            forall|j: int| 0 <= j < i ==> a[j] == b[j],
        decreases 32 - i,
    {
        if a[i] != b[i] {
            return false;
        }
        i += 1;
    }
    assert(*a =~= *b);
    true
}

impl HashedIdentity {
    /// Hashes the three raw fields, each as its UTF-8 bytes.
    pub fn from_raw(name: &str, dob: &str, gender: &str) -> (id: HashedIdentity)
        ensures
            id == hashed_identity(name@, dob@, gender@),
    {
        HashedIdentity {
            hashed_name: sha256(name.as_bytes()),
            hashed_dob: sha256(dob.as_bytes()),
            hashed_gender: sha256(gender.as_bytes()),
        }
    }

    /// Whether `self` and `other` are the same triple.
    pub fn matches(&self, other: &HashedIdentity) -> (same: bool)
        ensures
            same == (*self == *other),
    {
        digest_eq(&self.hashed_name, &other.hashed_name)
            && digest_eq(&self.hashed_dob, &other.hashed_dob)
            && digest_eq(&self.hashed_gender, &other.hashed_gender)
    }
}

} // verus!
