//! SyncNative: bringing the balance of a native-wrapping account up to the
//! lamports that it holds.

use vstd::prelude::*;

use crate::account::{views, Account, AccountView};
use crate::error::TokenError;
use crate::processor::shared::{
    is_frozen, load_token_account, outcome_is, store_token_account, token_account_at,
    with_token_account,
};
use crate::token_account::{AccountState, TokenAccount};

verus! {

/// `account` with its balance replaced.
pub open spec fn with_amount(account: TokenAccount, amount: u64) -> TokenAccount {
    TokenAccount { amount, ..account }
}

/// What synchronising does to the one account of the call.
///
/// The account is created, not frozen, and wraps the native asset
/// (`InvalidAccountData`). Its lamports cover the reserve (`Underflow`), and
/// what they hold above it is no less than the balance
/// (`InvalidAccountData`): the balance never shrinks. Then the balance is
/// the lamports above the reserve.
pub open spec fn sync_native(accounts: Seq<AccountView>) -> Result<Seq<AccountView>, TokenError> {
    if accounts.len() < 1 {
        Err(TokenError::NotEnoughAccountKeys)
    } else {
        match token_account_at(accounts, 0) {
            Err(e) => Err(e),
            Ok(account) => if account.state == AccountState::Frozen {
                Err(TokenError::AccountFrozen)
            } else {
                match account.is_native {
                    None => Err(TokenError::InvalidAccountData),
                    Some(reserve) => if accounts[0].lamports < reserve {
                        Err(TokenError::Underflow)
                    } else if accounts[0].lamports - reserve < account.amount {
                        Err(TokenError::InvalidAccountData)
                    } else {
                        Ok(
                            with_token_account(
                                accounts,
                                0,
                                with_amount(account, (accounts[0].lamports - reserve) as u64),
                            ),
                        )
                    },
                }
            },
        }
    }
}

/// Synchronises the account of the call, as `sync_native` says.
pub fn process_sync_native(accounts: &mut Vec<Account>) -> (done: Result<(), TokenError>)
    ensures
        outcome_is(done, old(accounts)@, final(accounts)@, sync_native(views(old(accounts)@))),
{
    if accounts.len() < 1 {
        return Err(TokenError::NotEnoughAccountKeys);
    }
    let account = load_token_account(accounts, 0)?;
    if is_frozen(&account) {
        return Err(TokenError::AccountFrozen);
    }
    let reserve = match account.is_native {
        Some(reserve) => reserve,
        None => {
            return Err(TokenError::InvalidAccountData);
        },
    };
    let lamports = accounts[0].lamports;
    if lamports < reserve {
        return Err(TokenError::Underflow);
    }
    if lamports - reserve < account.amount {
        return Err(TokenError::InvalidAccountData);
    }
    let after = TokenAccount {
        mint: account.mint,
        owner: account.owner,
        amount: lamports - reserve,
        delegate: account.delegate,
        state: account.state,
        is_native: account.is_native,
        delegated_amount: account.delegated_amount,
        close_authority: account.close_authority,
    };
    store_token_account(accounts, 0, &after);
    Ok(())
}

} // verus!
