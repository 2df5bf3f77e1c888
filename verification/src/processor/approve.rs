//! Approve, ApproveChecked and Revoke: granting and withdrawing a spending
//! allowance.

use pinocchio::pubkey::Pubkey;
use vstd::prelude::*;

use crate::account::{views, Account, AccountView};
use crate::authority::{authorized, validate_authority};
use crate::error::TokenError;
use crate::processor::shared::{
    is_frozen, load_stated_mint, load_token_account, outcome_is, stated_mint,
    store_token_account, token_account_at, with_token_account,
};
use crate::token_account::{AccountState, TokenAccount};

verus! {

/// Where the accounts of an approval stand in the call: source, delegate and
/// owner, with the mint behind the source where the caller states decimals.
pub open spec fn approve_roles(decimals: Option<u8>) -> (int, int, int) {
    if decimals is Some {
        (0, 2, 3)
    } else {
        (0, 1, 2)
    }
}

/// `account` with `delegate` allowed to spend `amount`.
pub open spec fn delegated(account: TokenAccount, delegate: Pubkey, amount: u64) -> TokenAccount {
    TokenAccount { delegate: Some(delegate), delegated_amount: amount, ..account }
}

/// `account` with no delegate and no allowance.
pub open spec fn undelegated(account: TokenAccount) -> TokenAccount {
    TokenAccount { delegate: None, delegated_amount: 0, ..account }
}

/// What an approval of `amount` does to the accounts of the call.
///
/// The source is created and not frozen. Where the caller states decimals,
/// the mint is presented and its decimals are those stated. The owner of the
/// source has authorised the call. Then the delegate of the call becomes the
/// delegate of the source, with `amount` as its allowance.
pub open spec fn approve(
    program_id: Pubkey,
    accounts: Seq<AccountView>,
    amount: u64,
    decimals: Option<u8>,
) -> Result<Seq<AccountView>, TokenError> {
    let (source, delegate, owner) = approve_roles(decimals);
    if accounts.len() <= owner {
        Err(TokenError::NotEnoughAccountKeys)
    } else {
        match token_account_at(accounts, source) {
            Err(e) => Err(e),
            Ok(from) => if from.state == AccountState::Frozen {
                Err(TokenError::AccountFrozen)
            } else if decimals is Some && stated_mint(accounts, 1, from.mint, decimals) is Err {
                Err(stated_mint(accounts, 1, from.mint, decimals)->Err_0)
            } else {
                match authorized(program_id, from.owner, accounts, owner) {
                    Err(e) => Err(e),
                    Ok(_) => Ok(
                        with_token_account(
                            accounts,
                            source,
                            delegated(from, accounts[delegate].key, amount),
                        ),
                    ),
                }
            },
        }
    }
}

/// What a revocation does to the accounts of the call: the source is
/// created, its owner has authorised the call, and the source is left with no
/// delegate and no allowance, whoever the delegate was.
pub open spec fn revoke(program_id: Pubkey, accounts: Seq<AccountView>) -> Result<
    Seq<AccountView>,
    TokenError,
> {
    if accounts.len() < 2 {
        Err(TokenError::NotEnoughAccountKeys)
    } else {
        match token_account_at(accounts, 0) {
            Err(e) => Err(e),
            Ok(from) => match authorized(program_id, from.owner, accounts, 1) {
                Err(e) => Err(e),
                Ok(_) => Ok(with_token_account(accounts, 0, undelegated(from))),
            },
        }
    }
}

/// Grants the delegate of the call an allowance of `amount` over the source,
/// as `approve` says; with `decimals` stated this is the checked form.
pub fn process_approve(
    program_id: &Pubkey,
    accounts: &mut Vec<Account>,
    amount: u64,
    decimals: Option<u8>,
) -> (done: Result<(), TokenError>)
    ensures
        outcome_is(
            done,
            old(accounts)@,
            final(accounts)@,
            approve(*program_id, views(old(accounts)@), amount, decimals),
        ),
{
    let (source, delegate, owner): (usize, usize, usize) = match decimals {
        Some(_) => (0, 2, 3),
        None => (0, 1, 2),
    };
    if accounts.len() <= owner {
        return Err(TokenError::NotEnoughAccountKeys);
    }
    let from = load_token_account(accounts, source)?;
    if is_frozen(&from) {
        return Err(TokenError::AccountFrozen);
    }
    if decimals.is_some() {
        load_stated_mint(accounts, 1, &from.mint, decimals)?;
    }
    validate_authority(program_id, &from.owner, accounts, owner)?;
    let after = TokenAccount {
        mint: from.mint,
        owner: from.owner,
        amount: from.amount,
        delegate: Some(accounts[delegate].key),
        state: from.state,
        is_native: from.is_native,
        delegated_amount: amount,
        close_authority: from.close_authority,
    };
    store_token_account(accounts, source, &after);
    Ok(())
}

/// Withdraws the allowance over the source of the call, as `revoke` says.
pub fn process_revoke(program_id: &Pubkey, accounts: &mut Vec<Account>) -> (done: Result<
    (),
    TokenError,
>)
    ensures
        outcome_is(
            done,
            old(accounts)@,
            final(accounts)@,
            revoke(*program_id, views(old(accounts)@)),
        ),
{
    if accounts.len() < 2 {
        return Err(TokenError::NotEnoughAccountKeys);
    }
    let from = load_token_account(accounts, 0)?;
    validate_authority(program_id, &from.owner, accounts, 1)?;
    let after = TokenAccount {
        mint: from.mint,
        owner: from.owner,
        amount: from.amount,
        delegate: None,
        state: from.state,
        is_native: from.is_native,
        delegated_amount: 0,
        close_authority: from.close_authority,
    };
    store_token_account(accounts, 0, &after);
    Ok(())
}

} // verus!
