//! The token account record: one holding of one mint by one owner.

use pinocchio::pubkey::Pubkey;
use vstd::bytes::{
    lemma_auto_spec_u64_to_from_le_bytes, spec_u64_from_le_bytes, spec_u64_to_le_bytes,
};
use vstd::prelude::*;

use crate::error::TokenError;
use crate::layout::{
    amount_option_bytes, key_option_bytes, lemma_amount_option_round_trip,
    lemma_key_option_round_trip, parse_amount_option, parse_key_option, push_amount,
    push_amount_option, push_key, push_key_option, read_amount, read_amount_option,
    read_key_option, zero_bytes,
};
use crate::pubkey::{key_of, lemma_key_of_bytes, read_key};

verus! {

/// Number of bytes of a token account record.
pub const ACCOUNT_LEN: usize = 165;

/// Where a token account stands in its life.
#[derive(Clone, Copy, Debug, PartialEq, Eq, Structural)]
pub enum AccountState {
    /// Not created yet, or closed.
    Uninitialized,
    /// Created and usable.
    Initialized,
    /// Created, but held by the freeze authority of its mint.
    Frozen,
}

/// A holding of one mint by one owner.
#[derive(Clone, Copy, Debug, PartialEq, Eq)]
pub struct TokenAccount {
    /// The mint that the balance is denominated in.
    pub mint: Pubkey,
    /// Who may transfer, burn, approve and close.
    pub owner: Pubkey,
    /// The balance.
    pub amount: u64,
    /// Who may spend up to `delegated_amount` without owning the account.
    pub delegate: Option<Pubkey>,
    /// Where the account stands in its life.
    pub state: AccountState,
    /// Present where the account wraps the native asset: the lamports that
    /// stay in the account and are no part of the balance.
    pub is_native: Option<u64>,
    /// What is left of the delegate's allowance.
    pub delegated_amount: u64,
    /// Who may close the account besides the owner.
    pub close_authority: Option<Pubkey>,
}

impl TokenAccount {
    /// What holds of every record that the engine writes: an account that was
    /// never created holds nothing, and an allowance has someone to use it.
    pub open spec fn well_formed(self) -> bool {
        &&& self.amount > 0 ==> self.state != AccountState::Uninitialized
        &&& self.delegated_amount > 0 ==> self.delegate is Some
    }
}

/// The byte that stands for a state.
pub open spec fn state_byte(state: AccountState) -> u8 {
    match state {
        AccountState::Uninitialized => 0u8,
        AccountState::Initialized => 1u8,
        AccountState::Frozen => 2u8,
    }
}

/// The state that a byte stands for, if it stands for one.
pub open spec fn parse_state(byte: u8) -> Option<AccountState> {
    if byte == 0 {
        Some(AccountState::Uninitialized)
    } else if byte == 1 {
        Some(AccountState::Initialized)
    } else if byte == 2 {
        Some(AccountState::Frozen)
    } else {
        None
    }
}

/// The 165 bytes of a token account record: mint (32), owner (32), amount
/// (8), delegate (36), state (1), native reserve (12), delegated amount (8),
/// close authority (36).
pub open spec fn token_account_bytes(account: TokenAccount) -> Seq<u8> {
    account.mint@ + account.owner@ + spec_u64_to_le_bytes(account.amount) + key_option_bytes(
        account.delegate,
    ) + seq![state_byte(account.state)] + amount_option_bytes(account.is_native)
        + spec_u64_to_le_bytes(account.delegated_amount) + key_option_bytes(
        account.close_authority,
    )
}

/// The token account record that a buffer holds, created or not. A buffer of
/// another size, or with a tag or state that is never written, holds none.
pub open spec fn parse_token_account(bytes: Seq<u8>) -> Result<TokenAccount, TokenError> {
    if bytes.len() != ACCOUNT_LEN {
        Err(TokenError::InvalidAccountData)
    } else {
        match (
            parse_key_option(bytes.subrange(72, 108)),
            parse_state(bytes[108]),
            parse_amount_option(bytes.subrange(109, 121)),
            parse_key_option(bytes.subrange(129, 165)),
        ) {
            (Some(delegate), Some(state), Some(is_native), Some(close_authority)) => Ok(
                TokenAccount {
                    mint: key_of(bytes.subrange(0, 32)),
                    owner: key_of(bytes.subrange(32, 64)),
                    amount: spec_u64_from_le_bytes(bytes.subrange(64, 72)),
                    delegate,
                    state,
                    is_native,
                    delegated_amount: spec_u64_from_le_bytes(bytes.subrange(121, 129)),
                    close_authority,
                },
            ),
            _ => Err(TokenError::InvalidAccountData),
        }
    }
}

/// The created token account that a buffer holds.
pub open spec fn created_token_account(bytes: Seq<u8>) -> Result<TokenAccount, TokenError> {
    match parse_token_account(bytes) {
        Ok(account) => if account.state == AccountState::Uninitialized {
            Err(TokenError::UninitializedAccount)
        } else {
            Ok(account)
        },
        Err(e) => Err(e),
    }
}

/// A token account is read back from its own bytes, which fill an account
/// buffer exactly.
pub proof fn lemma_token_account_round_trip(account: TokenAccount)
    ensures
        token_account_bytes(account).len() == ACCOUNT_LEN,
        parse_token_account(token_account_bytes(account)) == Ok::<TokenAccount, TokenError>(
            account,
        ),
{
    lemma_auto_spec_u64_to_from_le_bytes();
    lemma_key_option_round_trip(account.delegate);
    lemma_key_option_round_trip(account.close_authority);
    lemma_amount_option_round_trip(account.is_native);
    lemma_key_of_bytes(account.mint);
    lemma_key_of_bytes(account.owner);
    let bytes = token_account_bytes(account);
    assert(bytes.subrange(0, 32) =~= account.mint@);
    assert(bytes.subrange(32, 64) =~= account.owner@);
    assert(bytes.subrange(64, 72) =~= spec_u64_to_le_bytes(account.amount));
    assert(bytes.subrange(72, 108) =~= key_option_bytes(account.delegate));
    assert(bytes.subrange(109, 121) =~= amount_option_bytes(account.is_native));
    assert(bytes.subrange(121, 129) =~= spec_u64_to_le_bytes(account.delegated_amount));
    assert(bytes.subrange(129, 165) =~= key_option_bytes(account.close_authority));
}

/// A buffer of zeros of the size of a token account holds an account that was
/// never created.
pub proof fn lemma_zeroed_account_is_uninitialized()
    ensures
        parse_token_account(zero_bytes(ACCOUNT_LEN as nat)) is Ok,
        parse_token_account(zero_bytes(ACCOUNT_LEN as nat))->Ok_0.state
            == AccountState::Uninitialized,
        created_token_account(zero_bytes(ACCOUNT_LEN as nat)) == Err::<TokenAccount, TokenError>(
            TokenError::UninitializedAccount,
        ),
{
}

/// Reads the state in one byte.
pub(crate) fn read_state(byte: u8) -> (state: Option<AccountState>)
    ensures
        state == parse_state(byte),
{
    if byte == 0 {
        Some(AccountState::Uninitialized)
    } else if byte == 1 {
        Some(AccountState::Initialized)
    } else if byte == 2 {
        Some(AccountState::Frozen)
    } else {
        None
    }
}

impl TokenAccount {
    /// Reads the record that `data` holds, created or not.
    pub fn unpack(data: &[u8]) -> (account: Result<TokenAccount, TokenError>)
        ensures
            account == parse_token_account(data@),
    {
        if data.len() != ACCOUNT_LEN {
            return Err(TokenError::InvalidAccountData);
        }
        let mint = read_key(data, 0);
        let owner = read_key(data, 32);
        let amount = read_amount(data, 64);
        let delegate = read_key_option(data, 72);
        let state = read_state(data[108]);
        let is_native = read_amount_option(data, 109);
        let delegated_amount = read_amount(data, 121);
        let close_authority = read_key_option(data, 129);
        match (delegate, state, is_native, close_authority) {
            (Some(delegate), Some(state), Some(is_native), Some(close_authority)) => Ok(
                TokenAccount {
                    mint,
                    owner,
                    amount,
                    delegate,
                    state,
                    is_native,
                    delegated_amount,
                    close_authority,
                },
            ),
            _ => Err(TokenError::InvalidAccountData),
        }
    }

    /// The bytes of the record.
    pub fn pack(&self) -> (bytes: Vec<u8>)
        ensures
            bytes@ == token_account_bytes(*self),
            bytes@.len() == ACCOUNT_LEN,
    {
        let mut out: Vec<u8> = Vec::new();
        push_key(&mut out, &self.mint);
        push_key(&mut out, &self.owner);
        push_amount(&mut out, self.amount);
        push_key_option(&mut out, &self.delegate);
        out.push(
            match self.state {
                AccountState::Uninitialized => 0u8,
                AccountState::Initialized => 1u8,
                AccountState::Frozen => 2u8,
            },
        );
        push_amount_option(&mut out, &self.is_native);
        push_amount(&mut out, self.delegated_amount);
        push_key_option(&mut out, &self.close_authority);
        assert(out@ =~= token_account_bytes(*self));
        proof {
            lemma_token_account_round_trip(*self);
        }
        out
    }
}

/// Reads the created token account in `buffer`. Fails with
/// `InvalidAccountData` where the buffer holds no token account record, and
/// with `UninitializedAccount` where the record has not been created.
pub fn read_token_account(buffer: &[u8]) -> (account: Result<TokenAccount, TokenError>)
    ensures
        account == created_token_account(buffer@),
{
    match TokenAccount::unpack(buffer) {
        Ok(account) => match account.state {
            AccountState::Uninitialized => Err(TokenError::UninitializedAccount),
            _ => Ok(account),
        },
        Err(e) => Err(e),
    }
}

/// Writes `account` over the whole of `buffer`, or fails with
/// `InvalidAccountData` and leaves every byte as it was where the buffer has
/// not the size of a token account record.
pub fn write_token_account(buffer: &mut Vec<u8>, account: &TokenAccount) -> (done: Result<
    (),
    TokenError,
>)
    ensures
        old(buffer)@.len() == ACCOUNT_LEN ==> done is Ok && final(buffer)@ == token_account_bytes(
            *account,
        ),
        old(buffer)@.len() != ACCOUNT_LEN ==> done == Err::<(), TokenError>(
            TokenError::InvalidAccountData,
        ) && final(buffer)@ == old(buffer)@,
{
    if buffer.len() != ACCOUNT_LEN {
        return Err(TokenError::InvalidAccountData);
    }
    *buffer = account.pack();
    Ok(())
}

} // verus!
