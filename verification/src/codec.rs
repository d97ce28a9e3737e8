//! Reading and writing the fixed-width fields of the persisted layouts:
//! 64-bit integers, little-endian, and 32-byte identifiers.

use crate::pubkey::{PublicKeyId, KEY_BYTES};
use vstd::bytes::{
    lemma_auto_spec_u64_to_from_le_bytes, spec_u64_from_le_bytes, spec_u64_to_le_bytes, u64_from_le_bytes,
    u64_to_le_bytes,
};
use vstd::prelude::*;
use vstd::slice::slice_subrange;

verus! {

/// The number of bytes of an encoded 64-bit integer.
pub const U64_BYTES: usize = 8;

/// The identifier whose bytes are `bytes`.
pub open spec fn key_of(bytes: Seq<u8>) -> PublicKeyId {
    choose|key: PublicKeyId| key.bytes@ == bytes
}

/// The 64-bit integer encoded in the eight bytes of `data` from `at` on.
pub open spec fn u64_at(data: Seq<u8>, at: int) -> u64 {
    spec_u64_from_le_bytes(data.subrange(at, at + U64_BYTES))
}

/// The identifier held in the 32 bytes of `data` from `at` on.
pub open spec fn key_at(data: Seq<u8>, at: int) -> PublicKeyId {
    key_of(data.subrange(at, at + KEY_BYTES))
}

/// An identifier is determined by its bytes.
pub proof fn lemma_key_of_bytes(key: PublicKeyId)
    ensures
        key_of(key.bytes@) == key,
        key.bytes@.len() == KEY_BYTES,
{
    let found = key_of(key.bytes@);
    assert(found.bytes@ == key.bytes@);
    assert(found.bytes =~= key.bytes);
}

/// An array whose first `filled` bytes are those of `bytes`.
pub open spec fn array_of(bytes: Seq<u8>, filled: nat) -> [u8; 32]
    decreases filled,
{
    if filled == 0 {
        vstd::array::spec_array_fill_for_copy_type::<u8, 32>(0u8)
    } else {
        vstd::array::spec_array_update(array_of(bytes, (filled - 1) as nat), filled - 1, bytes[filled - 1])
    }
}

/// The array is filled as far as it says.
proof fn lemma_array_of(bytes: Seq<u8>, filled: nat)
    requires
        filled <= KEY_BYTES,
    ensures
        forall|i: int| 0 <= i < filled ==> array_of(bytes, filled)@[i] == bytes[i],
    decreases filled,
{
    broadcast use vstd::array::group_array_axioms;

    if filled > 0 {
        lemma_array_of(bytes, (filled - 1) as nat);
    }
}

/// Every 32 bytes are the bytes of an identifier.
pub proof fn lemma_bytes_of_key(bytes: Seq<u8>)
    requires
        bytes.len() == KEY_BYTES,
    ensures
        key_of(bytes).bytes@ == bytes,
{
    broadcast use vstd::array::group_array_axioms;

    let witness = PublicKeyId { bytes: array_of(bytes, KEY_BYTES as nat) };
    lemma_array_of(bytes, KEY_BYTES as nat);
    assert(witness.bytes@ =~= bytes);
}

/// Writing the 64-bit integer read at `at` gives the bytes at `at` back.
pub proof fn lemma_u64_read_written(data: Seq<u8>, at: int)
    requires
        0 <= at,
        at + U64_BYTES <= data.len(),
    ensures
        spec_u64_to_le_bytes(u64_at(data, at)) == data.subrange(at, at + U64_BYTES),
{
    lemma_auto_spec_u64_to_from_le_bytes();
}

/// The bytes of the identifier read at `at` are the bytes at `at`.
pub proof fn lemma_key_read_written(data: Seq<u8>, at: int)
    requires
        0 <= at,
        at + KEY_BYTES <= data.len(),
    ensures
        key_at(data, at).bytes@ == data.subrange(at, at + KEY_BYTES),
{
    lemma_bytes_of_key(data.subrange(at, at + KEY_BYTES));
}

/// Reading back a 64-bit integer that stands between `before` and `after`.
pub proof fn lemma_u64_at_written(before: Seq<u8>, value: u64, after: Seq<u8>)
    ensures
        spec_u64_to_le_bytes(value).len() == U64_BYTES,
        u64_at(before + spec_u64_to_le_bytes(value) + after, before.len() as int) == value,
{
    lemma_auto_spec_u64_to_from_le_bytes();
    let data = before + spec_u64_to_le_bytes(value) + after;
    assert(data.subrange(before.len() as int, before.len() + U64_BYTES) =~= spec_u64_to_le_bytes(value));
}

/// Reading back an identifier that stands between `before` and `after`.
pub proof fn lemma_key_at_written(before: Seq<u8>, key: PublicKeyId, after: Seq<u8>)
    ensures
        key_at(before + key.bytes@ + after, before.len() as int) == key,
{
    lemma_key_of_bytes(key);
    let data = before + key.bytes@ + after;
    assert(data.subrange(before.len() as int, before.len() + KEY_BYTES) =~= key.bytes@);
}

/// Appends `bytes` to `out`.
pub fn put_bytes(out: &mut Vec<u8>, bytes: &[u8])
    ensures
        final(out)@ == old(out)@ + bytes@,
{
    let mut i: usize = 0;
    while i < bytes.len()
        invariant
            i <= bytes.len(),
            out@ == old(out)@ + bytes@.subrange(0, i as int),
        decreases bytes.len() - i,
    {
        out.push(bytes[i]);
        i += 1;
    }
    assert(bytes@.subrange(0, i as int) =~= bytes@);
}

/// Appends the little-endian encoding of `value` to `out`.
pub fn put_u64(out: &mut Vec<u8>, value: u64)
    ensures
        final(out)@ == old(out)@ + spec_u64_to_le_bytes(value),
{
    let encoded = u64_to_le_bytes(value);
    put_bytes(out, encoded.as_slice());
}

/// Appends the bytes of `key` to `out`.
pub fn put_key(out: &mut Vec<u8>, key: &PublicKeyId)
    ensures
        final(out)@ == old(out)@ + key.bytes@,
{
    put_bytes(out, key.bytes.as_slice());
}

/// Reads the 64-bit integer that starts at `at`.
pub fn read_u64(data: &[u8], at: usize) -> (value: u64)
    requires
        at + U64_BYTES <= data@.len(),
    ensures
        value == u64_at(data@, at as int),
{
    let len = data.len();
    assert(at + U64_BYTES <= len);
    u64_from_le_bytes(slice_subrange(data, at, at + U64_BYTES))
}

/// Reads the identifier that starts at `at`.
pub fn read_key(data: &[u8], at: usize) -> (key: PublicKeyId)
    requires
        at + KEY_BYTES <= data@.len(),
    ensures
        key == key_at(data@, at as int),
{
    let len = data.len();
    let mut bytes: [u8; 32] = [0u8; 32];
    let mut i: usize = 0;
    while i < KEY_BYTES
        invariant
            i <= KEY_BYTES,
            at + KEY_BYTES <= len == data@.len(),
            forall|j: int| 0 <= j < i ==> bytes@[j] == data@[at + j],
        decreases KEY_BYTES - i,
    {
        bytes[i] = data[at + i];
        i += 1;
    }
    let key = PublicKeyId { bytes };
    proof {
        assert(key.bytes@ =~= data@.subrange(at as int, at + KEY_BYTES));
        lemma_key_of_bytes(key);
    }
    key
}

} // verus!
