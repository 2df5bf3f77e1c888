//! The encodings of single fields, shared by the three record layouts.
//!
//! Every field has a fixed width. An optional field keeps its width when it is
//! absent: a four-byte tag says whether a value follows, and the bytes of an
//! absent value are zero.

use pinocchio::pubkey::Pubkey;
use vstd::bytes::{
    lemma_auto_spec_u64_to_from_le_bytes, spec_u64_from_le_bytes, spec_u64_to_le_bytes,
    u64_from_le_bytes, u64_to_le_bytes,
};
use vstd::prelude::*;
use vstd::slice::slice_subrange;

use crate::pubkey::{key_of, lemma_key_of_bytes, read_key};

verus! {

/// `n` bytes that are all zero.
pub open spec fn zero_bytes(n: nat) -> Seq<u8> {
    Seq::new(n, |i: int| 0u8)
}

/// The byte that stands for a boolean.
pub open spec fn flag_byte(flag: bool) -> u8 {
    if flag {
        1u8
    } else {
        0u8
    }
}

/// The boolean that a byte stands for, if it stands for one.
pub open spec fn parse_flag(byte: u8) -> Option<bool> {
    if byte == 0 {
        Some(false)
    } else if byte == 1 {
        Some(true)
    } else {
        None
    }
}

/// The four-byte tag in front of an optional value.
pub open spec fn tag_bytes(present: bool) -> Seq<u8> {
    seq![flag_byte(present), 0u8, 0u8, 0u8]
}

/// Whether a value follows the four-byte tag at the start of `bytes`, if the
/// tag is one of the two that are written.
pub open spec fn parse_tag(bytes: Seq<u8>) -> Option<bool> {
    if bytes[1] != 0 || bytes[2] != 0 || bytes[3] != 0 {
        None
    } else {
        parse_flag(bytes[0])
    }
}

/// The 36 bytes of an optional principal.
pub open spec fn key_option_bytes(key: Option<Pubkey>) -> Seq<u8> {
    match key {
        Some(k) => tag_bytes(true) + k@,
        None => zero_bytes(36),
    }
}

/// The optional principal that 36 bytes stand for, if the tag is well formed.
/// The bytes behind the tag of an absent principal are not looked at.
pub open spec fn parse_key_option(bytes: Seq<u8>) -> Option<Option<Pubkey>> {
    match parse_tag(bytes) {
        Some(true) => Some(Some(key_of(bytes.subrange(4, 36)))),
        Some(false) => Some(None),
        None => None,
    }
}

/// The 12 bytes of an optional amount.
pub open spec fn amount_option_bytes(amount: Option<u64>) -> Seq<u8> {
    match amount {
        Some(a) => tag_bytes(true) + spec_u64_to_le_bytes(a),
        None => zero_bytes(12),
    }
}

/// The optional amount that 12 bytes stand for, if the tag is well formed.
pub open spec fn parse_amount_option(bytes: Seq<u8>) -> Option<Option<u64>> {
    match parse_tag(bytes) {
        Some(true) => Some(Some(spec_u64_from_le_bytes(bytes.subrange(4, 12)))),
        Some(false) => Some(None),
        None => None,
    }
}

/// An optional principal is read back from its own bytes.
pub proof fn lemma_key_option_round_trip(key: Option<Pubkey>)
    ensures
        key_option_bytes(key).len() == 36,
        parse_key_option(key_option_bytes(key)) == Some(key),
{
    match key {
        Some(k) => {
            assert(key_option_bytes(key).subrange(4, 36) =~= k@);
            lemma_key_of_bytes(k);
        },
        None => {},
    }
}

/// An optional amount is read back from its own bytes.
pub proof fn lemma_amount_option_round_trip(amount: Option<u64>)
    ensures
        amount_option_bytes(amount).len() == 12,
        parse_amount_option(amount_option_bytes(amount)) == Some(amount),
{
    lemma_auto_spec_u64_to_from_le_bytes();
    match amount {
        Some(a) => {
            assert(amount_option_bytes(amount).subrange(4, 12) =~= spec_u64_to_le_bytes(a));
        },
        None => {},
    }
}

/// Reads the boolean in one byte.
pub(crate) fn read_flag(byte: u8) -> (flag: Option<bool>)
    ensures
        flag == parse_flag(byte),
{
    if byte == 0 {
        Some(false)
    } else if byte == 1 {
        Some(true)
    } else {
        None
    }
}

/// Reads the amount in the 8 bytes of `data` from `offset` on.
pub(crate) fn read_amount(data: &[u8], offset: usize) -> (amount: u64)
    requires
        offset + 8 <= data.len(),
    ensures
        amount == spec_u64_from_le_bytes(data@.subrange(offset as int, offset + 8)),
{
    u64_from_le_bytes(slice_subrange(data, offset, offset + 8))
}

/// Reads the tag in the 4 bytes of `data` from `offset` on.
pub(crate) fn read_tag(data: &[u8], offset: usize) -> (present: Option<bool>)
    requires
        offset + 4 <= data.len(),
    ensures
        present == parse_tag(data@.subrange(offset as int, offset + 4)),
{
    if data[offset + 1] != 0 || data[offset + 2] != 0 || data[offset + 3] != 0 {
        None
    } else {
        read_flag(data[offset])
    }
}

/// Reads the optional principal in the 36 bytes of `data` from `offset` on.
pub(crate) fn read_key_option(data: &[u8], offset: usize) -> (key: Option<Option<Pubkey>>)
    requires
        offset + 36 <= data.len(),
    ensures
        key == parse_key_option(data@.subrange(offset as int, offset + 36)),
{
    let ghost field = data@.subrange(offset as int, offset + 36);
    assert(data@.subrange(offset as int, offset + 4) =~= field.subrange(0, 4));
    assert(data@.subrange(offset + 4, offset + 36) =~= field.subrange(4, 36));
    match read_tag(data, offset) {
        Some(true) => Some(Some(read_key(data, offset + 4))),
        Some(false) => Some(None),
        None => None,
    }
}

/// Reads the optional amount in the 12 bytes of `data` from `offset` on.
pub(crate) fn read_amount_option(data: &[u8], offset: usize) -> (amount: Option<Option<u64>>)
    requires
        offset + 12 <= data.len(),
    ensures
        amount == parse_amount_option(data@.subrange(offset as int, offset + 12)),
{
    let ghost field = data@.subrange(offset as int, offset + 12);
    assert(data@.subrange(offset as int, offset + 4) =~= field.subrange(0, 4));
    assert(data@.subrange(offset + 4, offset + 12) =~= field.subrange(4, 12));
    match read_tag(data, offset) {
        Some(true) => Some(Some(read_amount(data, offset + 4))),
        Some(false) => Some(None),
        None => None,
    }
}

/// Appends `n` zero bytes.
pub(crate) fn push_zeros(out: &mut Vec<u8>, n: usize)
    ensures
        final(out)@ == old(out)@ + zero_bytes(n as nat),
{
    let mut i: usize = 0;
    while i < n
        invariant
            i <= n,
            out@ == old(out)@ + zero_bytes(i as nat),
        decreases n - i,
    {
        out.push(0u8);
        i += 1;
        assert(out@ =~= old(out)@ + zero_bytes(i as nat));
    }
}

/// Appends the bytes of `bytes`.
pub(crate) fn push_bytes(out: &mut Vec<u8>, bytes: &[u8])
    ensures
        final(out)@ == old(out)@ + bytes@,
{
    let mut i: usize = 0;
    while i < bytes.len()
        invariant
            i <= bytes.len(),
            out@ == old(out)@ + bytes@.subrange(0, i as int),
        decreases bytes.len() - i,
    {
        out.push(bytes[i]);
        i += 1;
        assert(out@ =~= old(out)@ + bytes@.subrange(0, i as int));
    }
    assert(bytes@.subrange(0, bytes.len() as int) =~= bytes@);
}

/// Appends the 32 bytes of a principal.
pub(crate) fn push_key(out: &mut Vec<u8>, key: &Pubkey)
    ensures
        final(out)@ == old(out)@ + key@,
{
    push_bytes(out, key.as_slice());
}

/// Appends the 8 bytes of an amount.
pub(crate) fn push_amount(out: &mut Vec<u8>, amount: u64)
    ensures
        final(out)@ == old(out)@ + spec_u64_to_le_bytes(amount),
{
    let bytes = u64_to_le_bytes(amount);
    push_bytes(out, bytes.as_slice());
}

/// Appends the 36 bytes of an optional principal.
pub(crate) fn push_key_option(out: &mut Vec<u8>, key: &Option<Pubkey>)
    ensures
        final(out)@ == old(out)@ + key_option_bytes(*key),
{
    match key {
        Some(k) => {
            out.push(1u8);
            out.push(0u8);
            out.push(0u8);
            out.push(0u8);
            push_key(out, k);
            assert(out@ =~= old(out)@ + key_option_bytes(*key));
        },
        None => {
            push_zeros(out, 36);
        },
    }
}

/// Appends the 12 bytes of an optional amount.
pub(crate) fn push_amount_option(out: &mut Vec<u8>, amount: &Option<u64>)
    ensures
        final(out)@ == old(out)@ + amount_option_bytes(*amount),
{
    match amount {
        Some(a) => {
            out.push(1u8);
            out.push(0u8);
            out.push(0u8);
            out.push(0u8);
            push_amount(out, *a);
            assert(out@ =~= old(out)@ + amount_option_bytes(*amount));
        },
        None => {
            push_zeros(out, 12);
        },
    }
}

} // verus!
