//! The multisig record: an authority that is satisfied by `m` of `n` signers.

use pinocchio::pubkey::Pubkey;
use vstd::array::{
    axiom_spec_array_fill_for_copy_type, axiom_spec_array_update, spec_array_fill_for_copy_type,
    spec_array_update,
};
use vstd::prelude::*;

use crate::error::TokenError;
use crate::layout::{flag_byte, parse_flag, push_key, read_flag};
use crate::pubkey::{key_of, lemma_key_of_bytes, read_key, zero_key};

verus! {

/// Number of bytes of a multisig record.
pub const MULTISIG_LEN: usize = 355;

/// The most signers that a multisig can register.
pub const MAX_SIGNERS: usize = 11;

/// An authority that is satisfied once `m` of its `n` registered signers
/// have signed.
#[derive(Clone, Copy, Debug, PartialEq, Eq)]
pub struct Multisig {
    /// How many registered signers must sign.
    pub m: u8,
    /// How many signers are registered: the first `n` of `signers`.
    pub n: u8,
    /// Whether the record has been created.
    pub is_initialized: bool,
    /// The registered signers, in the order in which they were given.
    pub signers: [Pubkey; 11],
}

impl Multisig {
    /// The signers that are registered: the first `n` slots, and all of them
    /// where `n` exceeds their number.
    pub open spec fn registered(self) -> Seq<Pubkey> {
        self.signers@.subrange(0, if self.n <= MAX_SIGNERS { self.n as int } else { 11 })
    }

    /// The counts of a created record are in range.
    pub open spec fn counts_in_range(self) -> bool {
        1 <= self.m <= self.n <= MAX_SIGNERS
    }

    /// What holds of every record that the engine creates: the counts are in
    /// range and no signer is registered twice.
    pub open spec fn well_formed(self) -> bool {
        &&& self.is_initialized
        &&& self.counts_in_range()
        &&& self.registered().no_duplicates()
    }
}

/// The 352 bytes of the eleven signer slots.
pub open spec fn signers_bytes(signers: [Pubkey; 11]) -> Seq<u8> {
    Seq::new(352, |j: int| signers[j / 32][j % 32])
}

/// The 355 bytes of a multisig record: `m` (1), `n` (1), initialized flag
/// (1), eleven signer slots (32 each).
pub open spec fn multisig_bytes(multisig: Multisig) -> Seq<u8> {
    seq![multisig.m, multisig.n, flag_byte(multisig.is_initialized)] + signers_bytes(
        multisig.signers,
    )
}

/// The principal in signer slot `i` of a multisig buffer.
pub open spec fn signer_slot(bytes: Seq<u8>, i: int) -> Pubkey {
    key_of(bytes.subrange(3 + 32 * i, 35 + 32 * i))
}

/// Whether `signers` are the principals in the eleven signer slots of a
/// multisig buffer.
pub open spec fn fills_slots(signers: [Pubkey; 11], bytes: Seq<u8>) -> bool {
    forall|i: int| 0 <= i < 11 ==> signers[i] == #[trigger] signer_slot(bytes, i)
}

/// The eleven signer slots of a multisig buffer.
pub open spec fn parse_signers(bytes: Seq<u8>) -> [Pubkey; 11] {
    choose|signers: [Pubkey; 11]| #[trigger] fills_slots(signers, bytes)
}

/// The multisig record that a buffer holds, created or not. A buffer of
/// another size, with a flag that is never written, or created with counts
/// out of range, holds none.
pub open spec fn parse_multisig(bytes: Seq<u8>) -> Result<Multisig, TokenError> {
    if bytes.len() != MULTISIG_LEN {
        Err(TokenError::InvalidAccountData)
    } else {
        match parse_flag(bytes[2]) {
            Some(is_initialized) => {
                let multisig = Multisig {
                    m: bytes[0],
                    n: bytes[1],
                    is_initialized,
                    signers: parse_signers(bytes),
                };
                if is_initialized && !multisig.counts_in_range() {
                    Err(TokenError::InvalidAccountData)
                } else {
                    Ok(multisig)
                }
            },
            None => Err(TokenError::InvalidAccountData),
        }
    }
}

/// The created multisig that a buffer holds.
pub open spec fn created_multisig(bytes: Seq<u8>) -> Result<Multisig, TokenError> {
    match parse_multisig(bytes) {
        Ok(multisig) => if multisig.is_initialized {
            Ok(multisig)
        } else {
            Err(TokenError::UninitializedAccount)
        },
        Err(e) => Err(e),
    }
}

/// Eleven slots of which the first `count` hold the principals of `keys` in
/// their order, as far as there are any, and the others the zero principal.
pub open spec fn filled_slots(keys: Seq<Pubkey>, count: nat) -> [Pubkey; 11]
    decreases count,
{
    if count == 0 {
        spec_array_fill_for_copy_type(zero_key())
    } else {
        spec_array_update(
            filled_slots(keys, (count - 1) as nat),
            count - 1,
            if count - 1 < keys.len() {
                keys[count - 1]
            } else {
                zero_key()
            },
        )
    }
}

/// What the first `count` fillings leave in the slots.
pub proof fn lemma_filled_slots(keys: Seq<Pubkey>, count: nat)
    requires
        count <= 11,
    ensures
        forall|i: int|
            0 <= i < 11 ==> #[trigger] filled_slots(keys, count)[i] == if i < count && i
                < keys.len() {
                keys[i]
            } else {
                zero_key()
            },
    decreases count,
{
    let slots = filled_slots(keys, count);
    if count == 0 {
        axiom_spec_array_fill_for_copy_type::<Pubkey, 11>(zero_key());
        assert forall|i: int| 0 <= i < 11 implies #[trigger] slots[i] == zero_key() by {
            assert(slots@[i] == zero_key());
        }
    } else {
        let earlier = filled_slots(keys, (count - 1) as nat);
        let value = if count - 1 < keys.len() {
            keys[count - 1]
        } else {
            zero_key()
        };
        lemma_filled_slots(keys, (count - 1) as nat);
        axiom_spec_array_update(earlier, count - 1, value);
        assert(slots@ == earlier@.update(count - 1, value));
        assert forall|i: int| 0 <= i < 11 implies #[trigger] slots[i] == if i < count && i
            < keys.len() {
            keys[i]
        } else {
            zero_key()
        } by {
            assert(slots[i] == slots@[i]);
            assert(earlier[i] == earlier@[i]);
        }
    }
}

/// The signer slots of a buffer are filled with the principals that stand in
/// it, whatever the buffer holds.
pub proof fn lemma_signers_parse(bytes: Seq<u8>)
    ensures
        fills_slots(parse_signers(bytes), bytes),
{
    let keys = Seq::new(11, |i: int| signer_slot(bytes, i));
    lemma_filled_slots(keys, 11);
    assert(fills_slots(filled_slots(keys, 11), bytes));
}

/// Eleven principals that agree with the signer slots of a buffer are the
/// slots of that buffer.
pub proof fn lemma_parse_signers(bytes: Seq<u8>, signers: [Pubkey; 11])
    requires
        fills_slots(signers, bytes),
    ensures
        parse_signers(bytes) == signers,
{
    let parsed = parse_signers(bytes);
    assert(fills_slots(parsed, bytes));
    assert forall|i: int| 0 <= i < 11 implies parsed[i] == signers[i] by {
        assert(parsed[i] == signer_slot(bytes, i));
    }
    assert(parsed =~= signers);
}

/// A multisig whose counts are in range, or which is not created, is read
/// back from its own bytes, which fill a multisig buffer exactly.
pub proof fn lemma_multisig_round_trip(multisig: Multisig)
    requires
        multisig.is_initialized ==> multisig.counts_in_range(),
    ensures
        multisig_bytes(multisig).len() == MULTISIG_LEN,
        parse_multisig(multisig_bytes(multisig)) == Ok::<Multisig, TokenError>(multisig),
{
    let bytes = multisig_bytes(multisig);
    assert forall|i: int| 0 <= i < 11 implies multisig.signers[i] == #[trigger] signer_slot(
        bytes,
        i,
    ) by {
        let slot = bytes.subrange(3 + 32 * i, 35 + 32 * i);
        assert forall|k: int| 0 <= k < 32 implies slot[k] == multisig.signers[i][k] by {
            assert((32 * i + k) / 32 == i);
            assert((32 * i + k) % 32 == k);
        }
        assert(slot =~= multisig.signers[i]@);
        lemma_key_of_bytes(multisig.signers[i]);
    }
    lemma_parse_signers(bytes, multisig.signers);
}

impl Multisig {
    /// Reads the record that `data` holds, created or not.
    pub fn unpack(data: &[u8]) -> (multisig: Result<Multisig, TokenError>)
        ensures
            multisig == parse_multisig(data@),
    {
        if data.len() != MULTISIG_LEN {
            return Err(TokenError::InvalidAccountData);
        }
        let m = data[0];
        let n = data[1];
        let is_initialized = match read_flag(data[2]) {
            Some(flag) => flag,
            None => {
                return Err(TokenError::InvalidAccountData);
            },
        };
        let mut signers: [Pubkey; 11] = [[0u8; 32]; 11];
        let mut i: usize = 0;
        while i < 11
            invariant
                i <= 11,
                data.len() == MULTISIG_LEN,
                forall|k: int| 0 <= k < i ==> signers[k] == #[trigger] signer_slot(data@, k),
            decreases 11 - i,
        {
            signers[i] = read_key(data, 3 + 32 * i);
            i += 1;
        }
        proof {
            lemma_parse_signers(data@, signers);
        }
        if is_initialized && !(1 <= m && m <= n && n <= 11) {
            return Err(TokenError::InvalidAccountData);
        }
        Ok(Multisig { m, n, is_initialized, signers })
    }

    /// The bytes of the record.
    pub fn pack(&self) -> (bytes: Vec<u8>)
        ensures
            bytes@ == multisig_bytes(*self),
            bytes@.len() == MULTISIG_LEN,
    {
        let mut out: Vec<u8> = Vec::new();
        out.push(self.m);
        out.push(self.n);
        out.push(if self.is_initialized { 1u8 } else { 0u8 });
        let ghost head = out@;
        let mut i: usize = 0;
        while i < 11
            invariant
                i <= 11,
                head == seq![self.m, self.n, flag_byte(self.is_initialized)],
                out@ == head + Seq::new((32 * i) as nat, |j: int| self.signers[j / 32][j % 32]),
            decreases 11 - i,
        {
            let ghost before = out@;
            push_key(&mut out, &self.signers[i]);
            i += 1;
            proof {
                let after = head + Seq::new(
                    (32 * i) as nat,
                    |j: int| self.signers[j / 32][j % 32],
                );
                assert(out@.len() == after.len());
                assert forall|j: int| 0 <= j < after.len() implies out@[j] == after[j] by {
                    if j >= before.len() {
                        let k = j - before.len();
                        assert((32 * (i - 1) + k) / 32 == i - 1);
                        assert((32 * (i - 1) + k) % 32 == k);
                    }
                }
                assert(out@ =~= after);
            }
        }
        assert(out@ =~= multisig_bytes(*self));
        out
    }
}

/// Reads the created multisig in `buffer`. Fails with `InvalidAccountData`
/// where the buffer holds no multisig record, and with `UninitializedAccount`
/// where the record has not been created.
pub fn read_multisig(buffer: &[u8]) -> (multisig: Result<Multisig, TokenError>)
    ensures
        multisig == created_multisig(buffer@),
{
    match Multisig::unpack(buffer) {
        Ok(multisig) => if multisig.is_initialized {
            Ok(multisig)
        } else {
            Err(TokenError::UninitializedAccount)
        },
        Err(e) => Err(e),
    }
}

/// Writes `multisig` over the whole of `buffer`, or fails with
/// `InvalidAccountData` and leaves every byte as it was where the buffer has
/// not the size of a multisig record.
pub fn write_multisig(buffer: &mut Vec<u8>, multisig: &Multisig) -> (done: Result<(), TokenError>)
    ensures
        old(buffer)@.len() == MULTISIG_LEN ==> done is Ok && final(buffer)@ == multisig_bytes(
            *multisig,
        ),
        old(buffer)@.len() != MULTISIG_LEN ==> done == Err::<(), TokenError>(
            TokenError::InvalidAccountData,
        ) && final(buffer)@ == old(buffer)@,
{
    if buffer.len() != MULTISIG_LEN {
        return Err(TokenError::InvalidAccountData);
    }
    *buffer = multisig.pack();
    Ok(())
}

} // verus!
