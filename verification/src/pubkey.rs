//! Identifiers of accounts and signers.

use vstd::prelude::*;

verus! {

/// The number of bytes in an identifier.
pub const KEY_BYTES: usize = 32;

/// The identifier of an account or of a signer. A lookup key and nothing
/// more: holding one gives no access to what it names.
#[derive(Clone, Copy, Debug, PartialEq, Eq, Hash)]
pub struct PublicKeyId {
    pub bytes: [u8; 32],
}

impl PublicKeyId {
    /// The identifier made of `bytes`.
    pub fn new(bytes: [u8; 32]) -> (key: PublicKeyId)
        ensures
            key.bytes == bytes,
    {
        PublicKeyId { bytes }
    }

    /// Whether the two identifiers are the same.
    pub fn same(&self, other: &PublicKeyId) -> (equal: bool)
        ensures
            equal == (*self == *other),
    {
        let mut i: usize = 0;
        while i < KEY_BYTES
            invariant
                i <= KEY_BYTES,
                forall|j: int| 0 <= j < i ==> self.bytes[j] == other.bytes[j],
            decreases KEY_BYTES - i,
        {
            if self.bytes[i] != other.bytes[i] {
                return false;
            }
            i += 1;
        }
        assert(self.bytes =~= other.bytes);
        true
    }
}

/// Whether `key` is among `signers`.
pub open spec fn signed_by(signers: Seq<PublicKeyId>, key: PublicKeyId) -> bool {
    signers.contains(key)
}

/// Whether `key` signed the transaction.
pub fn has_signed(signers: &[PublicKeyId], key: &PublicKeyId) -> (signed: bool)
    ensures
        signed == signed_by(signers@, *key),
{
    let mut i: usize = 0;
    while i < signers.len()
        invariant
            i <= signers.len(),
            forall|j: int| 0 <= j < i ==> signers@[j] != *key,
        decreases signers.len() - i,
    {
        if signers[i].same(key) {
            return true;
        }
        i += 1;
    }
    false
}

} // verus!
