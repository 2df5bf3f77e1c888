//! Principals: the fixed-size identities of accounts and authorities.

use pinocchio::pubkey::Pubkey;
use vstd::array::{axiom_spec_array_update, spec_array_fill_for_copy_type, spec_array_update};
use vstd::prelude::*;

verus! {

/// The mint whose accounts wrap the native asset.
pub const NATIVE_MINT: Pubkey = [
    6u8, 155u8, 136u8, 87u8, 254u8, 171u8, 129u8, 132u8, 251u8, 104u8, 127u8, 99u8, 70u8, 24u8,
    192u8, 53u8, 218u8, 196u8, 57u8, 220u8, 26u8, 235u8, 59u8, 85u8, 152u8, 160u8, 240u8, 0u8,
    0u8, 0u8, 0u8, 1u8,
];

/// The principal whose bytes are `bytes`, where `bytes` has the length of a principal.
pub open spec fn key_of(bytes: Seq<u8>) -> Pubkey {
    choose|key: Pubkey| key@ == bytes
}

/// The principal whose bytes are all zero: the filler of an empty slot.
pub open spec fn zero_key() -> Pubkey {
    key_of(Seq::new(32, |i: int| 0u8))
}

/// A principal is the one that its own bytes stand for.
pub proof fn lemma_key_of_bytes(key: Pubkey)
    ensures
        key_of(key@) == key,
{
    assert(key_of(key@)@ == key@);
    assert(key_of(key@) =~= key);
}

/// A principal whose first `count` bytes are those of `bytes`.
pub open spec fn key_with_prefix(bytes: Seq<u8>, count: nat) -> Pubkey
    decreases count,
{
    if count == 0 {
        spec_array_fill_for_copy_type(0u8)
    } else {
        spec_array_update(key_with_prefix(bytes, (count - 1) as nat), count - 1, bytes[count - 1])
    }
}

/// The first `count` bytes of `key_with_prefix(bytes, count)` are those of
/// `bytes`.
pub proof fn lemma_key_with_prefix(bytes: Seq<u8>, count: nat)
    requires
        count <= 32,
    ensures
        forall|i: int| 0 <= i < count ==> #[trigger] key_with_prefix(bytes, count)@[i] == bytes[i],
    decreases count,
{
    if count > 0 {
        let shorter = key_with_prefix(bytes, (count - 1) as nat);
        lemma_key_with_prefix(bytes, (count - 1) as nat);
        axiom_spec_array_update(shorter, count - 1, bytes[count - 1]);
        assert(key_with_prefix(bytes, count)@ == shorter@.update(count - 1, bytes[count - 1]));
    }
}

/// Every 32 bytes are the bytes of a principal: the one that they stand for.
pub proof fn lemma_key_of(bytes: Seq<u8>)
    requires
        bytes.len() == 32,
    ensures
        key_of(bytes)@ == bytes,
{
    let key = key_with_prefix(bytes, 32);
    lemma_key_with_prefix(bytes, 32);
    assert(key@ =~= bytes);
}

/// Whether two principals are the same.
pub fn keys_equal(a: &Pubkey, b: &Pubkey) -> (same: bool)
    ensures
        same == (*a == *b),
{
    let mut i: usize = 0;
    while i < 32
        invariant
            i <= 32,
            forall|k: int| 0 <= k < i ==> a[k] == b[k],
        decreases 32 - i,
    {
        if a[i] != b[i] {
            return false;
        }
        i += 1;
    }
    assert(*a =~= *b);
    true
}

/// The principal whose bytes are all zero.
pub fn new_zero_key() -> (key: Pubkey)
    ensures
        key == zero_key(),
{
    let key: Pubkey = [0u8; 32];
    assert(key@ =~= Seq::new(32, |i: int| 0u8));
    proof {
        lemma_key_of_bytes(key);
    }
    key
}

/// Reads the principal that occupies the 32 bytes of `data` from `offset` on.
pub(crate) fn read_key(data: &[u8], offset: usize) -> (key: Pubkey)
    requires
        offset + 32 <= data@.len(),
    ensures
        key@ == data@.subrange(offset as int, offset + 32),
        key == key_of(data@.subrange(offset as int, offset + 32)),
{
    let mut key: Pubkey = [0u8; 32];
    let mut i: usize = 0;
    while i < 32
        invariant
            i <= 32,
            offset + 32 <= data.len(),
            forall|k: int| 0 <= k < i ==> key[k] == data@[offset + k],
        decreases 32 - i,
    {
        key[i] = data[offset + i];
        i += 1;
    }
    assert(key@ =~= data@.subrange(offset as int, offset + 32));
    proof {
        lemma_key_of_bytes(key);
    }
    key
}

} // verus!
