//! CloseAccount: giving up an account and reclaiming its native balance.

use pinocchio::pubkey::Pubkey;
use vstd::prelude::*;

use crate::account::{set_data, set_lamports, views, with_data, with_lamports, Account, AccountView};
use crate::authority::{authorized, validate_authority};
use crate::error::TokenError;
use crate::layout::{push_zeros, zero_bytes};
use crate::processor::shared::{load_token_account, outcome_is, token_account_at};
use crate::pubkey::keys_equal;
use crate::token_account::{TokenAccount, ACCOUNT_LEN};

verus! {

/// The authority that must sign for `presented` to close `account`: the
/// close authority where `presented` is it, else the owner.
pub open spec fn closer(account: TokenAccount, presented: Pubkey) -> Pubkey {
    if account.close_authority == Some(presented) {
        presented
    } else {
        account.owner
    }
}

/// What closing does to the accounts of the call: account, destination and
/// authority, in this order.
///
/// Account and destination are two different accounts. The account is
/// created, frozen or not, and holds no tokens unless it wraps the native
/// asset (`NonZeroBalance`). Its owner or its close authority has authorised
/// the call. Then the native balance of the account moves to the
/// destination and the buffer of the account is zeroed.
pub open spec fn close_account(program_id: Pubkey, accounts: Seq<AccountView>) -> Result<
    Seq<AccountView>,
    TokenError,
> {
    if accounts.len() < 3 {
        Err(TokenError::NotEnoughAccountKeys)
    } else if accounts[0].key == accounts[1].key {
        Err(TokenError::InvalidAccountData)
    } else {
        match token_account_at(accounts, 0) {
            Err(e) => Err(e),
            Ok(account) => if account.is_native is None && account.amount != 0 {
                Err(TokenError::NonZeroBalance)
            } else {
                match authorized(program_id, closer(account, accounts[2].key), accounts, 2) {
                    Err(e) => Err(e),
                    Ok(_) => if accounts[1].lamports + accounts[0].lamports > u64::MAX {
                        Err(TokenError::Overflow)
                    } else {
                        Ok(
                            with_data(
                                with_lamports(
                                    with_lamports(
                                        accounts,
                                        1,
                                        (accounts[1].lamports + accounts[0].lamports) as u64,
                                    ),
                                    0,
                                    0,
                                ),
                                0,
                                zero_bytes(ACCOUNT_LEN as nat),
                            ),
                        )
                    },
                }
            },
        }
    }
}

/// Closes the account of the call, as `close_account` says.
pub fn process_close_account(program_id: &Pubkey, accounts: &mut Vec<Account>) -> (done: Result<
    (),
    TokenError,
>)
    ensures
        outcome_is(
            done,
            old(accounts)@,
            final(accounts)@,
            close_account(*program_id, views(old(accounts)@)),
        ),
{
    if accounts.len() < 3 {
        return Err(TokenError::NotEnoughAccountKeys);
    }
    if keys_equal(&accounts[0].key, &accounts[1].key) {
        return Err(TokenError::InvalidAccountData);
    }
    let account = load_token_account(accounts, 0)?;
    if account.is_native.is_none() && account.amount != 0 {
        return Err(TokenError::NonZeroBalance);
    }
    let presented = accounts[2].key;
    let by_close_authority = match account.close_authority {
        Some(authority) => keys_equal(&authority, &presented),
        None => false,
    };
    let expected = if by_close_authority {
        presented
    } else {
        account.owner
    };
    validate_authority(program_id, &expected, accounts, 2)?;
    let reclaimed = accounts[0].lamports;
    let held = accounts[1].lamports;
    if reclaimed > u64::MAX - held {
        return Err(TokenError::Overflow);
    }
    let mut zeroed: Vec<u8> = Vec::new();
    push_zeros(&mut zeroed, ACCOUNT_LEN);
    assert(zeroed@ =~= zero_bytes(ACCOUNT_LEN as nat));
    set_lamports(accounts, 1, held + reclaimed);
    set_lamports(accounts, 0, 0);
    set_data(accounts, 0, zeroed);
    Ok(())
}

} // verus!
