//! Transfer and TransferChecked: moving an amount between two accounts of
//! one mint.

use pinocchio::pubkey::Pubkey;
use vstd::prelude::*;

use crate::account::{set_lamports, views, with_lamports, Account, AccountView};
use crate::error::TokenError;
use crate::processor::shared::{
    check_spender, credited, debited, is_frozen, load_stated_mint, load_token_account,
    outcome_is, spender, stated_mint, store_token_account, token_account_at,
    with_token_account,
};
use crate::pubkey::keys_equal;
use crate::token_account::{AccountState, TokenAccount};

verus! {

/// Where the accounts of a transfer stand in the call: source, destination
/// and authority, with the mint between source and destination where the
/// caller states decimals.
pub open spec fn transfer_roles(decimals: Option<u8>) -> (int, int, int) {
    if decimals is Some {
        (0, 2, 3)
    } else {
        (0, 1, 2)
    }
}

/// The lamports that back `amount` tokens follow them where the source wraps
/// the native asset.
pub open spec fn native_moved(
    accounts: Seq<AccountView>,
    source: int,
    destination: int,
    from: TokenAccount,
    amount: u64,
) -> Result<Seq<AccountView>, TokenError> {
    if from.is_native is None {
        Ok(accounts)
    } else if accounts[source].lamports < amount {
        Err(TokenError::Underflow)
    } else if accounts[destination].lamports + amount > u64::MAX {
        Err(TokenError::Overflow)
    } else {
        Ok(
            with_lamports(
                with_lamports(
                    accounts,
                    source,
                    (accounts[source].lamports - amount) as u64,
                ),
                destination,
                (accounts[destination].lamports + amount) as u64,
            ),
        )
    }
}

/// What a transfer of `amount` does to the accounts of the call.
///
/// Source and destination are two different accounts, both created, neither
/// frozen, and of one mint. Where the caller states decimals, the mint is
/// presented and its decimals are those stated. The source holds the amount,
/// and its owner, or its delegate within the allowance, has authorised the
/// call. Then the amount leaves the source, and the allowance where the
/// delegate spent, and reaches the destination.
pub open spec fn transfer(
    program_id: Pubkey,
    accounts: Seq<AccountView>,
    amount: u64,
    decimals: Option<u8>,
) -> Result<Seq<AccountView>, TokenError> {
    let (source, destination, authority) = transfer_roles(decimals);
    if accounts.len() <= authority {
        Err(TokenError::NotEnoughAccountKeys)
    } else if accounts[source].key == accounts[destination].key {
        Err(TokenError::InvalidAccountData)
    } else {
        match (token_account_at(accounts, source), token_account_at(accounts, destination)) {
            (Err(e), _) => Err(e),
            (Ok(_), Err(e)) => Err(e),
            (Ok(from), Ok(to)) => if from.state == AccountState::Frozen || to.state
                == AccountState::Frozen {
                Err(TokenError::AccountFrozen)
            } else if from.mint != to.mint {
                Err(TokenError::MintMismatch)
            } else if decimals is Some && stated_mint(accounts, 1, from.mint, decimals) is Err {
                Err(stated_mint(accounts, 1, from.mint, decimals)->Err_0)
            } else if from.amount < amount {
                Err(TokenError::InsufficientFunds)
            } else {
                match spender(program_id, accounts, authority, from, amount) {
                    Err(e) => Err(e),
                    Ok(by_delegate) => if to.amount + amount > u64::MAX {
                        Err(TokenError::Overflow)
                    } else {
                        match native_moved(accounts, source, destination, from, amount) {
                            Err(e) => Err(e),
                            Ok(moved) => Ok(
                                with_token_account(
                                    with_token_account(
                                        moved,
                                        source,
                                        debited(from, amount, by_delegate),
                                    ),
                                    destination,
                                    credited(to, amount),
                                ),
                            ),
                        }
                    },
                }
            },
        }
    }
}

/// Moves `amount` from the source to the destination of the call, as
/// `transfer` says; with `decimals` stated this is the checked form.
pub fn process_transfer(
    program_id: &Pubkey,
    accounts: &mut Vec<Account>,
    amount: u64,
    decimals: Option<u8>,
) -> (done: Result<(), TokenError>)
    ensures
        outcome_is(
            done,
            old(accounts)@,
            final(accounts)@,
            transfer(*program_id, views(old(accounts)@), amount, decimals),
        ),
{
    let (source, destination, authority): (usize, usize, usize) = match decimals {
        Some(_) => (0, 2, 3),
        None => (0, 1, 2),
    };
    if accounts.len() <= authority {
        return Err(TokenError::NotEnoughAccountKeys);
    }
    if keys_equal(&accounts[source].key, &accounts[destination].key) {
        return Err(TokenError::InvalidAccountData);
    }
    let from = load_token_account(accounts, source)?;
    let to = load_token_account(accounts, destination)?;
    if is_frozen(&from) || is_frozen(&to) {
        return Err(TokenError::AccountFrozen);
    }
    if !keys_equal(&from.mint, &to.mint) {
        return Err(TokenError::MintMismatch);
    }
    if decimals.is_some() {
        load_stated_mint(accounts, 1, &from.mint, decimals)?;
    }
    if from.amount < amount {
        return Err(TokenError::InsufficientFunds);
    }
    let by_delegate = check_spender(program_id, accounts, authority, &from, amount)?;
    if amount > u64::MAX - to.amount {
        return Err(TokenError::Overflow);
    }
    if from.is_native.is_some() {
        let source_lamports = accounts[source].lamports;
        let destination_lamports = accounts[destination].lamports;
        if source_lamports < amount {
            return Err(TokenError::Underflow);
        }
        if amount > u64::MAX - destination_lamports {
            return Err(TokenError::Overflow);
        }
        set_lamports(accounts, source, source_lamports - amount);
        set_lamports(accounts, destination, destination_lamports + amount);
    }
    let from_after = TokenAccount {
        mint: from.mint,
        owner: from.owner,
        amount: from.amount - amount,
        delegate: from.delegate,
        state: from.state,
        is_native: from.is_native,
        delegated_amount: if by_delegate {
            from.delegated_amount - amount
        } else {
            from.delegated_amount
        },
        close_authority: from.close_authority,
    };
    let to_after = TokenAccount {
        mint: to.mint,
        owner: to.owner,
        amount: to.amount + amount,
        delegate: to.delegate,
        state: to.state,
        is_native: to.is_native,
        delegated_amount: to.delegated_amount,
        close_authority: to.close_authority,
    };
    store_token_account(accounts, source, &from_after);
    store_token_account(accounts, destination, &to_after);
    Ok(())
}

} // verus!
