//! The mint record: the descriptor of one token type.

use pinocchio::pubkey::Pubkey;
use vstd::bytes::{
    lemma_auto_spec_u64_to_from_le_bytes, spec_u64_from_le_bytes, spec_u64_to_le_bytes,
};
use vstd::prelude::*;

use crate::error::TokenError;
use crate::layout::{
    flag_byte, key_option_bytes, lemma_key_option_round_trip, parse_flag, parse_key_option,
    push_amount, push_key_option, read_amount, read_flag, read_key_option,
};

verus! {

/// Number of bytes of a mint record.
pub const MINT_LEN: usize = 82;

/// A token type: who may mint and freeze, how much is outstanding, and the
/// scale of its amounts.
#[derive(Clone, Copy, Debug, PartialEq, Eq)]
pub struct Mint {
    /// Who may mint. Once absent it stays absent.
    pub mint_authority: Option<Pubkey>,
    /// The amount outstanding over all accounts of this mint.
    pub supply: u64,
    /// Number of digits behind the decimal point of a displayed amount.
    pub decimals: u8,
    /// Whether the record has been created.
    pub is_initialized: bool,
    /// Who may freeze and thaw accounts of this mint.
    pub freeze_authority: Option<Pubkey>,
}

/// The 82 bytes of a mint record: authority (36), supply (8), decimals (1),
/// initialized flag (1), freeze authority (36).
pub open spec fn mint_bytes(mint: Mint) -> Seq<u8> {
    key_option_bytes(mint.mint_authority) + spec_u64_to_le_bytes(mint.supply) + seq![
        mint.decimals,
        flag_byte(mint.is_initialized),
    ] + key_option_bytes(mint.freeze_authority)
}

/// The mint record that a buffer holds, created or not. A buffer of another
/// size, or with a tag or flag that is never written, holds none.
pub open spec fn parse_mint(bytes: Seq<u8>) -> Result<Mint, TokenError> {
    if bytes.len() != MINT_LEN {
        Err(TokenError::InvalidAccountData)
    } else {
        match (
            parse_key_option(bytes.subrange(0, 36)),
            parse_flag(bytes[45]),
            parse_key_option(bytes.subrange(46, 82)),
        ) {
            (Some(mint_authority), Some(is_initialized), Some(freeze_authority)) => Ok(
                Mint {
                    mint_authority,
                    supply: spec_u64_from_le_bytes(bytes.subrange(36, 44)),
                    decimals: bytes[44],
                    is_initialized,
                    freeze_authority,
                },
            ),
            _ => Err(TokenError::InvalidAccountData),
        }
    }
}

/// The created mint that a buffer holds.
pub open spec fn created_mint(bytes: Seq<u8>) -> Result<Mint, TokenError> {
    match parse_mint(bytes) {
        Ok(mint) => if mint.is_initialized {
            Ok(mint)
        } else {
            Err(TokenError::UninitializedAccount)
        },
        Err(e) => Err(e),
    }
}

/// A mint is read back from its own bytes, which fill a mint buffer exactly.
pub proof fn lemma_mint_round_trip(mint: Mint)
    ensures
        mint_bytes(mint).len() == MINT_LEN,
        parse_mint(mint_bytes(mint)) == Ok::<Mint, TokenError>(mint),
{
    lemma_auto_spec_u64_to_from_le_bytes();
    lemma_key_option_round_trip(mint.mint_authority);
    lemma_key_option_round_trip(mint.freeze_authority);
    let bytes = mint_bytes(mint);
    assert(bytes.subrange(0, 36) =~= key_option_bytes(mint.mint_authority));
    assert(bytes.subrange(36, 44) =~= spec_u64_to_le_bytes(mint.supply));
    assert(bytes.subrange(46, 82) =~= key_option_bytes(mint.freeze_authority));
}

impl Mint {
    /// Reads the record that `data` holds, created or not.
    pub fn unpack(data: &[u8]) -> (mint: Result<Mint, TokenError>)
        ensures
            mint == parse_mint(data@),
    {
        if data.len() != MINT_LEN {
            return Err(TokenError::InvalidAccountData);
        }
        let mint_authority = read_key_option(data, 0);
        let supply = read_amount(data, 36);
        let decimals = data[44];
        let is_initialized = read_flag(data[45]);
        let freeze_authority = read_key_option(data, 46);
        match (mint_authority, is_initialized, freeze_authority) {
            (Some(mint_authority), Some(is_initialized), Some(freeze_authority)) => Ok(
                Mint { mint_authority, supply, decimals, is_initialized, freeze_authority },
            ),
            _ => Err(TokenError::InvalidAccountData),
        }
    }

    /// The bytes of the record.
    pub fn pack(&self) -> (bytes: Vec<u8>)
        ensures
            bytes@ == mint_bytes(*self),
            bytes@.len() == MINT_LEN,
    {
        let mut out: Vec<u8> = Vec::new();
        push_key_option(&mut out, &self.mint_authority);
        push_amount(&mut out, self.supply);
        out.push(self.decimals);
        out.push(if self.is_initialized { 1u8 } else { 0u8 });
        push_key_option(&mut out, &self.freeze_authority);
        assert(out@ =~= mint_bytes(*self));
        proof {
            lemma_mint_round_trip(*self);
        }
        out
    }
}

/// Reads the created mint in `buffer`. Fails with `InvalidAccountData` where
/// the buffer holds no mint record, and with `UninitializedAccount` where the
/// record has not been created.
pub fn read_mint(buffer: &[u8]) -> (mint: Result<Mint, TokenError>)
    ensures
        mint == created_mint(buffer@),
{
    match Mint::unpack(buffer) {
        Ok(mint) => if mint.is_initialized {
            Ok(mint)
        } else {
            Err(TokenError::UninitializedAccount)
        },
        Err(e) => Err(e),
    }
}

/// Writes `mint` over the whole of `buffer`, or fails with
/// `InvalidAccountData` and leaves every byte as it was where the buffer has
/// not the size of a mint record.
pub fn write_mint(buffer: &mut Vec<u8>, mint: &Mint) -> (done: Result<(), TokenError>)
    ensures
        old(buffer)@.len() == MINT_LEN ==> done is Ok && final(buffer)@ == mint_bytes(*mint),
        old(buffer)@.len() != MINT_LEN ==> done == Err::<(), TokenError>(
            TokenError::InvalidAccountData,
        ) && final(buffer)@ == old(buffer)@,
{
    if buffer.len() != MINT_LEN {
        return Err(TokenError::InvalidAccountData);
    }
    *buffer = mint.pack();
    Ok(())
}

} // verus!
