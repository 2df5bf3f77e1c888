//! FreezeAccount and ThawAccount: holding an account and releasing it.

use pinocchio::pubkey::Pubkey;
use vstd::prelude::*;

use crate::account::{views, Account, AccountView};
use crate::authority::{authorized, validate_authority};
use crate::error::TokenError;
use crate::processor::shared::{
    is_frozen, load_stated_mint, load_token_account, outcome_is, stated_mint,
    store_token_account, token_account_at, with_token_account,
};
use crate::token_account::{AccountState, TokenAccount};

verus! {

/// `account` in another state.
pub open spec fn in_state(account: TokenAccount, state: AccountState) -> TokenAccount {
    TokenAccount { state, ..account }
}

/// What freezing (`freeze`) or thawing (otherwise) does to the accounts of
/// the call: account, mint and freeze authority, in this order.
///
/// The account is created; to be frozen it is not frozen yet
/// (`AccountFrozen`), to be thawed it is frozen (`InvalidArgument`). The
/// mint is the created mint of the account. It has a freeze authority
/// (`NoFreezeAuthority`), which has authorised the call. Then the account
/// changes to the other of the two states.
pub open spec fn set_frozen(program_id: Pubkey, accounts: Seq<AccountView>, freeze: bool) -> Result<
    Seq<AccountView>,
    TokenError,
> {
    if accounts.len() < 3 {
        Err(TokenError::NotEnoughAccountKeys)
    } else {
        match token_account_at(accounts, 0) {
            Err(e) => Err(e),
            Ok(account) => if freeze && account.state == AccountState::Frozen {
                Err(TokenError::AccountFrozen)
            } else if !freeze && account.state != AccountState::Frozen {
                Err(TokenError::InvalidArgument)
            } else {
                match stated_mint(accounts, 1, account.mint, None) {
                    Err(e) => Err(e),
                    Ok(mint) => match mint.freeze_authority {
                        None => Err(TokenError::NoFreezeAuthority),
                        Some(authority) => match authorized(program_id, authority, accounts, 2) {
                            Err(e) => Err(e),
                            Ok(_) => Ok(
                                with_token_account(
                                    accounts,
                                    0,
                                    in_state(
                                        account,
                                        if freeze {
                                            AccountState::Frozen
                                        } else {
                                            AccountState::Initialized
                                        },
                                    ),
                                ),
                            ),
                        },
                    },
                }
            },
        }
    }
}

/// Freezes (`freeze`) or thaws (otherwise) the account of the call, as
/// `set_frozen` says.
pub fn process_set_frozen(program_id: &Pubkey, accounts: &mut Vec<Account>, freeze: bool) -> (done:
    Result<(), TokenError>)
    ensures
        outcome_is(
            done,
            old(accounts)@,
            final(accounts)@,
            set_frozen(*program_id, views(old(accounts)@), freeze),
        ),
{
    if accounts.len() < 3 {
        return Err(TokenError::NotEnoughAccountKeys);
    }
    let account = load_token_account(accounts, 0)?;
    let frozen = is_frozen(&account);
    if freeze && frozen {
        return Err(TokenError::AccountFrozen);
    }
    if !freeze && !frozen {
        return Err(TokenError::InvalidArgument);
    }
    let mint = load_stated_mint(accounts, 1, &account.mint, None)?;
    let authority = match mint.freeze_authority {
        Some(authority) => authority,
        None => {
            return Err(TokenError::NoFreezeAuthority);
        },
    };
    validate_authority(program_id, &authority, accounts, 2)?;
    let after = TokenAccount {
        mint: account.mint,
        owner: account.owner,
        amount: account.amount,
        delegate: account.delegate,
        state: if freeze {
            AccountState::Frozen
        } else {
            AccountState::Initialized
        },
        is_native: account.is_native,
        delegated_amount: account.delegated_amount,
        close_authority: account.close_authority,
    };
    store_token_account(accounts, 0, &after);
    Ok(())
}

/// Freezes the account of the call.
pub fn process_freeze_account(program_id: &Pubkey, accounts: &mut Vec<Account>) -> (done: Result<
    (),
    TokenError,
>)
    ensures
        outcome_is(
            done,
            old(accounts)@,
            final(accounts)@,
            set_frozen(*program_id, views(old(accounts)@), true),
        ),
{
    process_set_frozen(program_id, accounts, true)
}

/// Thaws the account of the call.
pub fn process_thaw_account(program_id: &Pubkey, accounts: &mut Vec<Account>) -> (done: Result<
    (),
    TokenError,
>)
    ensures
        outcome_is(
            done,
            old(accounts)@,
            final(accounts)@,
            set_frozen(*program_id, views(old(accounts)@), false),
        ),
{
    process_set_frozen(program_id, accounts, false)
}

} // verus!
