//! SetAuthority: replacing or removing one authority of a mint or of an
//! account.

use pinocchio::pubkey::Pubkey;
use vstd::prelude::*;

use crate::account::{views, Account, AccountView};
use crate::authority::{authorized, validate_authority};
use crate::error::TokenError;
use crate::mint::{Mint, MINT_LEN};
use crate::processor::shared::{
    load_mint, load_token_account, mint_at, outcome_is, store_mint, store_token_account,
    token_account_at, with_mint, with_token_account,
};
use crate::token_account::{TokenAccount, ACCOUNT_LEN};

verus! {

/// Which authority an instruction replaces.
#[derive(Clone, Copy, Debug, PartialEq, Eq, Structural)]
pub enum AuthorityType {
    /// Who may mint: a field of a mint.
    MintTokens,
    /// Who may freeze and thaw: a field of a mint.
    FreezeAccount,
    /// Who owns: a field of an account.
    AccountOwner,
    /// Who may close besides the owner: a field of an account.
    CloseAccount,
}

/// What replacing an authority of the token account in account 0 does.
///
/// The owner is replaced once the owner has authorised the call, and only by
/// another owner (`InvalidArgument`). The close authority is replaced or
/// removed once it, or the owner where there is none, has authorised the
/// call. An account has no other authority (`InvalidArgument`).
pub open spec fn set_account_authority(
    program_id: Pubkey,
    accounts: Seq<AccountView>,
    authority_type: AuthorityType,
    new_authority: Option<Pubkey>,
) -> Result<Seq<AccountView>, TokenError> {
    match token_account_at(accounts, 0) {
        Err(e) => Err(e),
        Ok(account) => match authority_type {
            AuthorityType::AccountOwner => match authorized(
                program_id,
                account.owner,
                accounts,
                1,
            ) {
                Err(e) => Err(e),
                Ok(_) => match new_authority {
                    None => Err(TokenError::InvalidArgument),
                    Some(owner) => Ok(
                        with_token_account(accounts, 0, TokenAccount { owner, ..account }),
                    ),
                },
            },
            AuthorityType::CloseAccount => match authorized(
                program_id,
                match account.close_authority {
                    Some(authority) => authority,
                    None => account.owner,
                },
                accounts,
                1,
            ) {
                Err(e) => Err(e),
                Ok(_) => Ok(
                    with_token_account(
                        accounts,
                        0,
                        TokenAccount { close_authority: new_authority, ..account },
                    ),
                ),
            },
            _ => Err(TokenError::InvalidArgument),
        },
    }
}

/// What replacing an authority of the mint in account 0 does.
///
/// The mint authority is replaced or removed once it has authorised the
/// call; a mint without one keeps none (`NotSignerOrOwner`). The freeze
/// authority likewise (`NoFreezeAuthority`). A mint has no other authority
/// (`InvalidArgument`).
pub open spec fn set_mint_authority(
    program_id: Pubkey,
    accounts: Seq<AccountView>,
    authority_type: AuthorityType,
    new_authority: Option<Pubkey>,
) -> Result<Seq<AccountView>, TokenError> {
    match mint_at(accounts, 0) {
        Err(e) => Err(e),
        Ok(mint) => match authority_type {
            AuthorityType::MintTokens => match mint.mint_authority {
                None => Err(TokenError::NotSignerOrOwner),
                Some(current) => match authorized(program_id, current, accounts, 1) {
                    Err(e) => Err(e),
                    Ok(_) => Ok(
                        with_mint(accounts, 0, Mint { mint_authority: new_authority, ..mint }),
                    ),
                },
            },
            AuthorityType::FreezeAccount => match mint.freeze_authority {
                None => Err(TokenError::NoFreezeAuthority),
                Some(current) => match authorized(program_id, current, accounts, 1) {
                    Err(e) => Err(e),
                    Ok(_) => Ok(
                        with_mint(accounts, 0, Mint { freeze_authority: new_authority, ..mint }),
                    ),
                },
            },
            _ => Err(TokenError::InvalidArgument),
        },
    }
}

/// What replacing an authority does to the accounts of the call: target and
/// current authority, in this order. The size of the target's buffer says
/// whether it is an account or a mint; a buffer of another size is neither
/// (`InvalidAccountData`).
pub open spec fn set_authority(
    program_id: Pubkey,
    accounts: Seq<AccountView>,
    authority_type: AuthorityType,
    new_authority: Option<Pubkey>,
) -> Result<Seq<AccountView>, TokenError> {
    if accounts.len() < 2 {
        Err(TokenError::NotEnoughAccountKeys)
    } else if accounts[0].data.len() == ACCOUNT_LEN {
        set_account_authority(program_id, accounts, authority_type, new_authority)
    } else if accounts[0].data.len() == MINT_LEN {
        set_mint_authority(program_id, accounts, authority_type, new_authority)
    } else {
        Err(TokenError::InvalidAccountData)
    }
}

/// Replaces an authority of the token account in account 0.
fn replace_account_authority(
    program_id: &Pubkey,
    accounts: &mut Vec<Account>,
    authority_type: AuthorityType,
    new_authority: Option<Pubkey>,
) -> (done: Result<(), TokenError>)
    requires
        old(accounts)@.len() >= 2,
    ensures
        outcome_is(
            done,
            old(accounts)@,
            final(accounts)@,
            set_account_authority(
                *program_id,
                views(old(accounts)@),
                authority_type,
                new_authority,
            ),
        ),
{
    let account = load_token_account(accounts, 0)?;
    match authority_type {
        AuthorityType::AccountOwner => {
            validate_authority(program_id, &account.owner, accounts, 1)?;
            let owner = match new_authority {
                Some(owner) => owner,
                None => {
                    return Err(TokenError::InvalidArgument);
                },
            };
            let after = TokenAccount {
                mint: account.mint,
                owner,
                amount: account.amount,
                delegate: account.delegate,
                state: account.state,
                is_native: account.is_native,
                delegated_amount: account.delegated_amount,
                close_authority: account.close_authority,
            };
            store_token_account(accounts, 0, &after);
            Ok(())
        },
        AuthorityType::CloseAccount => {
            let current = match account.close_authority {
                Some(authority) => authority,
                None => account.owner,
            };
            validate_authority(program_id, &current, accounts, 1)?;
            let after = TokenAccount {
                mint: account.mint,
                owner: account.owner,
                amount: account.amount,
                delegate: account.delegate,
                state: account.state,
                is_native: account.is_native,
                delegated_amount: account.delegated_amount,
                close_authority: new_authority,
            };
            store_token_account(accounts, 0, &after);
            Ok(())
        },
        _ => Err(TokenError::InvalidArgument),
    }
}

/// Replaces an authority of the mint in account 0.
fn replace_mint_authority(
    program_id: &Pubkey,
    accounts: &mut Vec<Account>,
    authority_type: AuthorityType,
    new_authority: Option<Pubkey>,
) -> (done: Result<(), TokenError>)
    requires
        old(accounts)@.len() >= 2,
    ensures
        outcome_is(
            done,
            old(accounts)@,
            final(accounts)@,
            set_mint_authority(*program_id, views(old(accounts)@), authority_type, new_authority),
        ),
{
    let mint = load_mint(accounts, 0)?;
    match authority_type {
        AuthorityType::MintTokens => {
            let current = match mint.mint_authority {
                Some(current) => current,
                None => {
                    return Err(TokenError::NotSignerOrOwner);
                },
            };
            validate_authority(program_id, &current, accounts, 1)?;
            let after = Mint {
                mint_authority: new_authority,
                supply: mint.supply,
                decimals: mint.decimals,
                is_initialized: mint.is_initialized,
                freeze_authority: mint.freeze_authority,
            };
            store_mint(accounts, 0, &after);
            Ok(())
        },
        AuthorityType::FreezeAccount => {
            let current = match mint.freeze_authority {
                Some(current) => current,
                None => {
                    return Err(TokenError::NoFreezeAuthority);
                },
            };
            validate_authority(program_id, &current, accounts, 1)?;
            let after = Mint {
                mint_authority: mint.mint_authority,
                supply: mint.supply,
                decimals: mint.decimals,
                is_initialized: mint.is_initialized,
                freeze_authority: new_authority,
            };
            store_mint(accounts, 0, &after);
            Ok(())
        },
        _ => Err(TokenError::InvalidArgument),
    }
}

/// Replaces or removes an authority of the target of the call, as
/// `set_authority` says.
pub fn process_set_authority(
    program_id: &Pubkey,
    accounts: &mut Vec<Account>,
    authority_type: AuthorityType,
    new_authority: Option<Pubkey>,
) -> (done: Result<(), TokenError>)
    ensures
        outcome_is(
            done,
            old(accounts)@,
            final(accounts)@,
            set_authority(*program_id, views(old(accounts)@), authority_type, new_authority),
        ),
{
    if accounts.len() < 2 {
        return Err(TokenError::NotEnoughAccountKeys);
    }
    let size = accounts[0].data.len();
    if size == ACCOUNT_LEN {
        replace_account_authority(program_id, accounts, authority_type, new_authority)
    } else if size == MINT_LEN {
        replace_mint_authority(program_id, accounts, authority_type, new_authority)
    } else {
        Err(TokenError::InvalidAccountData)
    }
}

} // verus!
