//! What the handlers share: loading and storing records, the decimals check,
//! and the check of who may spend from an account.

use pinocchio::pubkey::Pubkey;
use vstd::prelude::*;

use crate::account::{set_data, views, with_data, Account, AccountView};
use crate::authority::{authorized, validate_authority};
use crate::error::TokenError;
use crate::mint::{created_mint, mint_bytes, read_mint, Mint};
use crate::pubkey::keys_equal;
use crate::token_account::{
    created_token_account, read_token_account, token_account_bytes, AccountState, TokenAccount,
};

verus! {

/// Whether a handler that returned `done` and turned `before` into `after`
/// did what `expected` says: on success the accounts are those expected, and
/// on failure the error is the expected one and no account has changed.
pub open spec fn outcome_is(
    done: Result<(), TokenError>,
    before: Seq<Account>,
    after: Seq<Account>,
    expected: Result<Seq<AccountView>, TokenError>,
) -> bool {
    match expected {
        Ok(accounts) => done is Ok && views(after) == accounts,
        Err(e) => done == Err::<(), TokenError>(e) && after == before,
    }
}

/// The created token account in the buffer of account `index`.
pub open spec fn token_account_at(accounts: Seq<AccountView>, index: int) -> Result<
    TokenAccount,
    TokenError,
> {
    created_token_account(accounts[index].data)
}

/// The created mint in the buffer of account `index`.
pub open spec fn mint_at(accounts: Seq<AccountView>, index: int) -> Result<Mint, TokenError> {
    created_mint(accounts[index].data)
}

/// `accounts` with `record` written to the buffer of account `index`.
pub open spec fn with_token_account(
    accounts: Seq<AccountView>,
    index: int,
    record: TokenAccount,
) -> Seq<AccountView> {
    with_data(accounts, index, token_account_bytes(record))
}

/// `accounts` with `mint` written to the buffer of account `index`.
pub open spec fn with_mint(accounts: Seq<AccountView>, index: int, mint: Mint) -> Seq<
    AccountView,
> {
    with_data(accounts, index, mint_bytes(mint))
}

/// The mint of an operation, presented as account `index`: it is the mint
/// `expected`, it has been created, and where the caller states decimals
/// they are those of the mint.
pub open spec fn stated_mint(
    accounts: Seq<AccountView>,
    index: int,
    expected: Pubkey,
    decimals: Option<u8>,
) -> Result<Mint, TokenError> {
    if accounts[index].key != expected {
        Err(TokenError::MintMismatch)
    } else {
        match mint_at(accounts, index) {
            Ok(mint) => if decimals is Some && decimals != Some(mint.decimals) {
                Err(TokenError::DecimalMismatch)
            } else {
                Ok(mint)
            },
            Err(e) => Err(e),
        }
    }
}

/// Whether the authority presented as account `index` may take `amount` out
/// of `account`: as its owner, or else as its delegate within the allowance.
/// The result says whether the allowance is spent.
pub open spec fn spender(
    program_id: Pubkey,
    accounts: Seq<AccountView>,
    index: int,
    account: TokenAccount,
    amount: u64,
) -> Result<bool, TokenError> {
    let presented = accounts[index].key;
    if presented != account.owner && account.delegate == Some(presented) {
        match authorized(program_id, presented, accounts, index) {
            Ok(_) => if account.delegated_amount < amount {
                Err(TokenError::InsufficientFunds)
            } else {
                Ok(true)
            },
            Err(e) => Err(e),
        }
    } else {
        match authorized(program_id, account.owner, accounts, index) {
            Ok(_) => Ok(false),
            Err(e) => Err(e),
        }
    }
}

/// `account` after `amount` has left it, out of the allowance or not.
pub open spec fn debited(account: TokenAccount, amount: u64, by_delegate: bool) -> TokenAccount {
    TokenAccount {
        amount: (account.amount - amount) as u64,
        delegated_amount: if by_delegate {
            (account.delegated_amount - amount) as u64
        } else {
            account.delegated_amount
        },
        ..account
    }
}

/// `account` after `amount` has come in.
pub open spec fn credited(account: TokenAccount, amount: u64) -> TokenAccount {
    TokenAccount { amount: (account.amount + amount) as u64, ..account }
}

/// Loads the created token account of account `index`.
pub(crate) fn load_token_account(accounts: &Vec<Account>, index: usize) -> (record: Result<
    TokenAccount,
    TokenError,
>)
    requires
        index < accounts@.len(),
    ensures
        record == token_account_at(views(accounts@), index as int),
{
    read_token_account(accounts[index].data.as_slice())
}

/// Loads the created mint of account `index`.
pub(crate) fn load_mint(accounts: &Vec<Account>, index: usize) -> (mint: Result<Mint, TokenError>)
    requires
        index < accounts@.len(),
    ensures
        mint == mint_at(views(accounts@), index as int),
{
    read_mint(accounts[index].data.as_slice())
}

/// Writes `record` to the buffer of account `index`.
pub(crate) fn store_token_account(accounts: &mut Vec<Account>, index: usize, record: &TokenAccount)
    requires
        index < old(accounts)@.len(),
    ensures
        views(final(accounts)@) == with_token_account(
            views(old(accounts)@),
            index as int,
            *record,
        ),
        final(accounts)@.len() == old(accounts)@.len(),
{
    set_data(accounts, index, record.pack());
}

/// Writes `mint` to the buffer of account `index`.
pub(crate) fn store_mint(accounts: &mut Vec<Account>, index: usize, mint: &Mint)
    requires
        index < old(accounts)@.len(),
    ensures
        views(final(accounts)@) == with_mint(views(old(accounts)@), index as int, *mint),
        final(accounts)@.len() == old(accounts)@.len(),
{
    set_data(accounts, index, mint.pack());
}

/// Loads the mint of an operation and holds it to what the caller states.
pub(crate) fn load_stated_mint(
    accounts: &Vec<Account>,
    index: usize,
    expected: &Pubkey,
    decimals: Option<u8>,
) -> (mint: Result<Mint, TokenError>)
    requires
        index < accounts@.len(),
    ensures
        mint == stated_mint(views(accounts@), index as int, *expected, decimals),
{
    if !keys_equal(&accounts[index].key, expected) {
        return Err(TokenError::MintMismatch);
    }
    let mint = load_mint(accounts, index)?;
    match decimals {
        Some(stated) => if stated != mint.decimals {
            Err(TokenError::DecimalMismatch)
        } else {
            Ok(mint)
        },
        None => Ok(mint),
    }
}

/// Decides whether the authority presented as account `index` may take
/// `amount` out of `account`, and whether it does so out of the allowance.
pub(crate) fn check_spender(
    program_id: &Pubkey,
    accounts: &Vec<Account>,
    index: usize,
    account: &TokenAccount,
    amount: u64,
) -> (by_delegate: Result<bool, TokenError>)
    requires
        index < accounts@.len(),
    ensures
        by_delegate == spender(*program_id, views(accounts@), index as int, *account, amount),
{
    let presented = accounts[index].key;
    let is_delegate = match account.delegate {
        Some(delegate) => keys_equal(&delegate, &presented),
        None => false,
    };
    if !keys_equal(&presented, &account.owner) && is_delegate {
        validate_authority(program_id, &presented, accounts, index)?;
        if account.delegated_amount < amount {
            Err(TokenError::InsufficientFunds)
        } else {
            Ok(true)
        }
    } else {
        validate_authority(program_id, &account.owner, accounts, index)?;
        Ok(false)
    }
}

/// Whether a token account is frozen.
pub(crate) fn is_frozen(account: &TokenAccount) -> (frozen: bool)
    ensures
        frozen == (account.state == AccountState::Frozen),
{
    match account.state {
        AccountState::Frozen => true,
        _ => false,
    }
}

} // verus!
