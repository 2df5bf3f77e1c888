//! MintTo and Burn, plain and checked: the two operations that change the
//! supply of a mint.

use pinocchio::pubkey::Pubkey;
use vstd::prelude::*;

use crate::account::{views, Account, AccountView};
use crate::authority::{authorized, validate_authority};
use crate::error::TokenError;
use crate::mint::Mint;
use crate::processor::shared::{
    check_spender, credited, debited, is_frozen, load_stated_mint, load_token_account,
    outcome_is, spender, stated_mint, store_mint, store_token_account, token_account_at,
    with_mint, with_token_account,
};
use crate::token_account::{AccountState, TokenAccount};

verus! {

/// `mint` with its supply replaced.
pub open spec fn with_supply(mint: Mint, supply: u64) -> Mint {
    Mint { supply, ..mint }
}

/// What minting `amount` does to the accounts of the call: mint, destination
/// and mint authority, in this order.
///
/// The destination is created, not frozen, and an account of the mint. The
/// mint is created, and its decimals are those that the caller states, if
/// any. The mint has a mint authority, which has authorised the call. Neither
/// the balance nor the supply leaves the range of a `u64`. Then both grow by
/// `amount`.
pub open spec fn mint_to(
    program_id: Pubkey,
    accounts: Seq<AccountView>,
    amount: u64,
    decimals: Option<u8>,
) -> Result<Seq<AccountView>, TokenError> {
    if accounts.len() < 3 {
        Err(TokenError::NotEnoughAccountKeys)
    } else {
        match token_account_at(accounts, 1) {
            Err(e) => Err(e),
            Ok(to) => if to.state == AccountState::Frozen {
                Err(TokenError::AccountFrozen)
            } else {
                match stated_mint(accounts, 0, to.mint, decimals) {
                    Err(e) => Err(e),
                    Ok(mint) => match mint.mint_authority {
                        None => Err(TokenError::NotSignerOrOwner),
                        Some(authority) => match authorized(program_id, authority, accounts, 2) {
                            Err(e) => Err(e),
                            Ok(_) => if to.amount + amount > u64::MAX || mint.supply + amount
                                > u64::MAX {
                                Err(TokenError::Overflow)
                            } else {
                                Ok(
                                    with_mint(
                                        with_token_account(accounts, 1, credited(to, amount)),
                                        0,
                                        with_supply(mint, (mint.supply + amount) as u64),
                                    ),
                                )
                            },
                        },
                    },
                }
            },
        }
    }
}

/// What burning `amount` does to the accounts of the call: account, mint and
/// authority, in this order.
///
/// The account is created, not frozen, and an account of the mint. The mint
/// is created, and its decimals are those that the caller states, if any.
/// The account holds the amount, and its owner, or its delegate within the
/// allowance, has authorised the call. The supply covers the amount. Then
/// balance and supply shrink by `amount`, and the allowance where the
/// delegate spent.
pub open spec fn burn(
    program_id: Pubkey,
    accounts: Seq<AccountView>,
    amount: u64,
    decimals: Option<u8>,
) -> Result<Seq<AccountView>, TokenError> {
    if accounts.len() < 3 {
        Err(TokenError::NotEnoughAccountKeys)
    } else {
        match token_account_at(accounts, 0) {
            Err(e) => Err(e),
            Ok(from) => if from.state == AccountState::Frozen {
                Err(TokenError::AccountFrozen)
            } else {
                match stated_mint(accounts, 1, from.mint, decimals) {
                    Err(e) => Err(e),
                    Ok(mint) => if from.amount < amount {
                        Err(TokenError::InsufficientFunds)
                    } else {
                        match spender(program_id, accounts, 2, from, amount) {
                            Err(e) => Err(e),
                            Ok(by_delegate) => if mint.supply < amount {
                                Err(TokenError::Underflow)
                            } else {
                                Ok(
                                    with_mint(
                                        with_token_account(
                                            accounts,
                                            0,
                                            debited(from, amount, by_delegate),
                                        ),
                                        1,
                                        with_supply(mint, (mint.supply - amount) as u64),
                                    ),
                                )
                            },
                        }
                    },
                }
            },
        }
    }
}

/// Creates `amount` new tokens in the destination of the call, as `mint_to`
/// says; with `decimals` stated this is the checked form.
pub fn process_mint_to(
    program_id: &Pubkey,
    accounts: &mut Vec<Account>,
    amount: u64,
    decimals: Option<u8>,
) -> (done: Result<(), TokenError>)
    ensures
        outcome_is(
            done,
            old(accounts)@,
            final(accounts)@,
            mint_to(*program_id, views(old(accounts)@), amount, decimals),
        ),
{
    if accounts.len() < 3 {
        return Err(TokenError::NotEnoughAccountKeys);
    }
    let to = load_token_account(accounts, 1)?;
    if is_frozen(&to) {
        return Err(TokenError::AccountFrozen);
    }
    let mint = load_stated_mint(accounts, 0, &to.mint, decimals)?;
    let authority = match mint.mint_authority {
        Some(authority) => authority,
        None => {
            return Err(TokenError::NotSignerOrOwner);
        },
    };
    validate_authority(program_id, &authority, accounts, 2)?;
    if amount > u64::MAX - to.amount || amount > u64::MAX - mint.supply {
        return Err(TokenError::Overflow);
    }
    let to_after = TokenAccount {
        mint: to.mint,
        owner: to.owner,
        amount: to.amount + amount,
        delegate: to.delegate,
        state: to.state,
        is_native: to.is_native,
        delegated_amount: to.delegated_amount,
        close_authority: to.close_authority,
    };
    let mint_after = Mint {
        mint_authority: mint.mint_authority,
        supply: mint.supply + amount,
        decimals: mint.decimals,
        is_initialized: mint.is_initialized,
        freeze_authority: mint.freeze_authority,
    };
    store_token_account(accounts, 1, &to_after);
    store_mint(accounts, 0, &mint_after);
    Ok(())
}

/// Destroys `amount` tokens of the account of the call, as `burn` says; with
/// `decimals` stated this is the checked form.
pub fn process_burn(
    program_id: &Pubkey,
    accounts: &mut Vec<Account>,
    amount: u64,
    decimals: Option<u8>,
) -> (done: Result<(), TokenError>)
    ensures
        outcome_is(
            done,
            old(accounts)@,
            final(accounts)@,
            burn(*program_id, views(old(accounts)@), amount, decimals),
        ),
{
    if accounts.len() < 3 {
        return Err(TokenError::NotEnoughAccountKeys);
    }
    let from = load_token_account(accounts, 0)?;
    if is_frozen(&from) {
        return Err(TokenError::AccountFrozen);
    }
    let mint = load_stated_mint(accounts, 1, &from.mint, decimals)?;
    if from.amount < amount {
        return Err(TokenError::InsufficientFunds);
    }
    let by_delegate = check_spender(program_id, accounts, 2, &from, amount)?;
    if mint.supply < amount {
        return Err(TokenError::Underflow);
    }
    let from_after = TokenAccount {
        mint: from.mint,
        owner: from.owner,
        amount: from.amount - amount,
        delegate: from.delegate,
        state: from.state,
        is_native: from.is_native,
        delegated_amount: if by_delegate {
            from.delegated_amount - amount
        } else {
            from.delegated_amount
        },
        close_authority: from.close_authority,
    };
    let mint_after = Mint {
        mint_authority: mint.mint_authority,
        supply: mint.supply - amount,
        decimals: mint.decimals,
        is_initialized: mint.is_initialized,
        freeze_authority: mint.freeze_authority,
    };
    store_token_account(accounts, 0, &from_after);
    store_mint(accounts, 1, &mint_after);
    Ok(())
}

} // verus!
