//! What stops an operation: a balance that does not cover the amount,
//! decimals that are not those of the mint, and a frozen account.

use pinocchio::pubkey::Pubkey;
use vstd::prelude::*;

use crate::account::AccountView;
use crate::authority::authorized;
use crate::error::TokenError;
use crate::mint::lemma_mint_round_trip;
use crate::processor::approve::{approve, approve_roles};
use crate::processor::close_account::{close_account, closer};
use crate::processor::freeze::{in_state, set_frozen};
use crate::processor::shared::{credited, debited, mint_at, spender, stated_mint, token_account_at};
use crate::processor::supply::{burn, mint_to, with_supply};
use crate::processor::transfer::{transfer, transfer_roles};
use crate::token_account::{lemma_token_account_round_trip, AccountState};

verus! {

/// Whether source and destination of a transfer are two accounts that hold
/// created token accounts.
pub open spec fn parties_load(accounts: Seq<AccountView>, decimals: Option<u8>) -> bool {
    let (source, destination, authority) = transfer_roles(decimals);
    &&& accounts.len() > authority
    &&& accounts[source].key != accounts[destination].key
    &&& token_account_at(accounts, source) is Ok
    &&& token_account_at(accounts, destination) is Ok
}

/// Whether a transfer gets as far as looking at the balance: the parties
/// load, neither is frozen, they share a mint, and the decimals that the
/// caller states, if any, are those of that mint.
pub open spec fn parties_agree(accounts: Seq<AccountView>, decimals: Option<u8>) -> bool {
    let (source, destination, authority) = transfer_roles(decimals);
    let from = token_account_at(accounts, source)->Ok_0;
    let to = token_account_at(accounts, destination)->Ok_0;
    &&& parties_load(accounts, decimals)
    &&& from.state != AccountState::Frozen
    &&& to.state != AccountState::Frozen
    &&& from.mint == to.mint
    &&& decimals is Some ==> stated_mint(accounts, 1, from.mint, decimals) is Ok
}

/// No balance falls below zero: a transfer of more than the source holds
/// fails with `InsufficientFunds`, whoever has signed.
pub proof fn lemma_transfer_beyond_balance_fails(
    program_id: Pubkey,
    accounts: Seq<AccountView>,
    amount: u64,
    decimals: Option<u8>,
)
    requires
        parties_agree(accounts, decimals),
        amount > token_account_at(accounts, transfer_roles(decimals).0)->Ok_0.amount,
    ensures
        transfer(program_id, accounts, amount, decimals) == Err::<Seq<AccountView>, TokenError>(
            TokenError::InsufficientFunds,
        ),
{
}

/// No allowance falls below zero: a transfer by the delegate of more than
/// the allowance fails with `InsufficientFunds`.
pub proof fn lemma_transfer_beyond_allowance_fails(
    program_id: Pubkey,
    accounts: Seq<AccountView>,
    amount: u64,
    decimals: Option<u8>,
)
    requires
        parties_agree(accounts, decimals),
        ({
            let (source, destination, authority) = transfer_roles(decimals);
            let from = token_account_at(accounts, source)->Ok_0;
            &&& amount <= from.amount
            &&& accounts[authority].key != from.owner
            &&& from.delegate == Some(accounts[authority].key)
            &&& authorized(program_id, accounts[authority].key, accounts, authority) is Ok
            &&& amount > from.delegated_amount
        }),
    ensures
        transfer(program_id, accounts, amount, decimals) == Err::<Seq<AccountView>, TokenError>(
            TokenError::InsufficientFunds,
        ),
{
}

/// A transfer that succeeds takes exactly `amount` out of the source, and
/// out of the allowance where the delegate spent, and puts exactly `amount`
/// into the destination: nothing wraps around.
pub proof fn lemma_transfer_moves_amount(
    program_id: Pubkey,
    accounts: Seq<AccountView>,
    amount: u64,
    decimals: Option<u8>,
)
    requires
        transfer(program_id, accounts, amount, decimals) is Ok,
    ensures
        ({
            let (source, destination, authority) = transfer_roles(decimals);
            let after = transfer(program_id, accounts, amount, decimals)->Ok_0;
            let from = token_account_at(accounts, source)->Ok_0;
            let to = token_account_at(accounts, destination)->Ok_0;
            let from_after = token_account_at(after, source);
            let to_after = token_account_at(after, destination);
            &&& from_after is Ok
            &&& to_after is Ok
            &&& from_after->Ok_0.amount == from.amount - amount
            &&& to_after->Ok_0.amount == to.amount + amount
            &&& from_after->Ok_0.delegated_amount == from.delegated_amount
                || from_after->Ok_0.delegated_amount == from.delegated_amount - amount
        }),
{
    let (source, destination, authority) = transfer_roles(decimals);
    let from = token_account_at(accounts, source)->Ok_0;
    let to = token_account_at(accounts, destination)->Ok_0;
    let by_delegate = spender(program_id, accounts, authority, from, amount)->Ok_0;
    lemma_token_account_round_trip(debited(from, amount, by_delegate));
    lemma_token_account_round_trip(credited(to, amount));
}

/// A mint that succeeds puts exactly `amount` into the destination and into
/// the supply: nothing wraps around.
pub proof fn lemma_mint_to_adds_amount(
    program_id: Pubkey,
    accounts: Seq<AccountView>,
    amount: u64,
    decimals: Option<u8>,
)
    requires
        mint_to(program_id, accounts, amount, decimals) is Ok,
    ensures
        ({
            let after = mint_to(program_id, accounts, amount, decimals)->Ok_0;
            &&& token_account_at(after, 1) is Ok
            &&& mint_at(after, 0) is Ok
            &&& token_account_at(after, 1)->Ok_0.amount == token_account_at(
                accounts,
                1,
            )->Ok_0.amount + amount
            &&& mint_at(after, 0)->Ok_0.supply == mint_at(accounts, 0)->Ok_0.supply + amount
        }),
{
    let to = token_account_at(accounts, 1)->Ok_0;
    let record = mint_at(accounts, 0)->Ok_0;
    lemma_token_account_round_trip(credited(to, amount));
    lemma_mint_round_trip(with_supply(record, (record.supply + amount) as u64));
}

/// A burn that succeeds takes exactly `amount` out of the account and out of
/// the supply: nothing wraps around.
pub proof fn lemma_burn_takes_amount(
    program_id: Pubkey,
    accounts: Seq<AccountView>,
    amount: u64,
    decimals: Option<u8>,
)
    requires
        burn(program_id, accounts, amount, decimals) is Ok,
    ensures
        ({
            let after = burn(program_id, accounts, amount, decimals)->Ok_0;
            &&& token_account_at(after, 0) is Ok
            &&& mint_at(after, 1) is Ok
            &&& token_account_at(after, 0)->Ok_0.amount == token_account_at(
                accounts,
                0,
            )->Ok_0.amount - amount
            &&& mint_at(after, 1)->Ok_0.supply == mint_at(accounts, 1)->Ok_0.supply - amount
        }),
{
    let from = token_account_at(accounts, 0)->Ok_0;
    let record = mint_at(accounts, 1)->Ok_0;
    let by_delegate = spender(program_id, accounts, 2, from, amount)->Ok_0;
    lemma_token_account_round_trip(debited(from, amount, by_delegate));
    lemma_mint_round_trip(with_supply(record, (record.supply - amount) as u64));
}

/// A burn of more than the account holds fails with `InsufficientFunds`,
/// whoever has signed.
pub proof fn lemma_burn_beyond_balance_fails(
    program_id: Pubkey,
    accounts: Seq<AccountView>,
    amount: u64,
    decimals: Option<u8>,
)
    requires
        accounts.len() >= 3,
        token_account_at(accounts, 0) is Ok,
        token_account_at(accounts, 0)->Ok_0.state != AccountState::Frozen,
        stated_mint(accounts, 1, token_account_at(accounts, 0)->Ok_0.mint, decimals) is Ok,
        amount > token_account_at(accounts, 0)->Ok_0.amount,
    ensures
        burn(program_id, accounts, amount, decimals) == Err::<Seq<AccountView>, TokenError>(
            TokenError::InsufficientFunds,
        ),
{
}

/// A checked transfer that states other decimals than the mint has fails
/// with `DecimalMismatch`, whatever the amount, the balances and the
/// signers are.
pub proof fn lemma_stated_decimals_must_match(
    program_id: Pubkey,
    accounts: Seq<AccountView>,
    amount: u64,
    decimals: u8,
)
    requires
        parties_load(accounts, Some(decimals)),
        ({
            let from = token_account_at(accounts, 0)->Ok_0;
            let to = token_account_at(accounts, 2)->Ok_0;
            &&& from.state != AccountState::Frozen
            &&& to.state != AccountState::Frozen
            &&& from.mint == to.mint
            &&& accounts[1].key == from.mint
            &&& mint_at(accounts, 1) is Ok
            &&& mint_at(accounts, 1)->Ok_0.decimals != decimals
        }),
    ensures
        transfer(program_id, accounts, amount, Some(decimals)) == Err::<
            Seq<AccountView>,
            TokenError,
        >(TokenError::DecimalMismatch),
{
}

/// A freeze that succeeds leaves the account frozen.
pub proof fn lemma_freeze_leaves_frozen(program_id: Pubkey, accounts: Seq<AccountView>)
    requires
        set_frozen(program_id, accounts, true) is Ok,
    ensures
        token_account_at(set_frozen(program_id, accounts, true)->Ok_0, 0) is Ok,
        token_account_at(set_frozen(program_id, accounts, true)->Ok_0, 0)->Ok_0.state
            == AccountState::Frozen,
{
    let account = token_account_at(accounts, 0)->Ok_0;
    lemma_token_account_round_trip(in_state(account, AccountState::Frozen));
}

/// A thaw that succeeds leaves the account usable again.
pub proof fn lemma_thaw_leaves_initialized(program_id: Pubkey, accounts: Seq<AccountView>)
    requires
        set_frozen(program_id, accounts, false) is Ok,
    ensures
        token_account_at(set_frozen(program_id, accounts, false)->Ok_0, 0) is Ok,
        token_account_at(set_frozen(program_id, accounts, false)->Ok_0, 0)->Ok_0.state
            == AccountState::Initialized,
{
    let account = token_account_at(accounts, 0)->Ok_0;
    lemma_token_account_round_trip(in_state(account, AccountState::Initialized));
}

/// A transfer from or to a frozen account fails with `AccountFrozen`,
/// whatever the amount, the mint and the signers are.
pub proof fn lemma_frozen_rejects_transfer(
    program_id: Pubkey,
    accounts: Seq<AccountView>,
    amount: u64,
    decimals: Option<u8>,
)
    requires
        parties_load(accounts, decimals),
        token_account_at(accounts, transfer_roles(decimals).0)->Ok_0.state
            == AccountState::Frozen || token_account_at(
            accounts,
            transfer_roles(decimals).1,
        )->Ok_0.state == AccountState::Frozen,
    ensures
        transfer(program_id, accounts, amount, decimals) == Err::<Seq<AccountView>, TokenError>(
            TokenError::AccountFrozen,
        ),
{
}

/// An approval over a frozen account fails with `AccountFrozen`.
pub proof fn lemma_frozen_rejects_approve(
    program_id: Pubkey,
    accounts: Seq<AccountView>,
    amount: u64,
    decimals: Option<u8>,
)
    requires
        accounts.len() > approve_roles(decimals).2,
        token_account_at(accounts, 0) is Ok,
        token_account_at(accounts, 0)->Ok_0.state == AccountState::Frozen,
    ensures
        approve(program_id, accounts, amount, decimals) == Err::<Seq<AccountView>, TokenError>(
            TokenError::AccountFrozen,
        ),
{
}

/// Minting into a frozen account fails with `AccountFrozen`.
pub proof fn lemma_frozen_rejects_mint_to(
    program_id: Pubkey,
    accounts: Seq<AccountView>,
    amount: u64,
    decimals: Option<u8>,
)
    requires
        accounts.len() >= 3,
        token_account_at(accounts, 1) is Ok,
        token_account_at(accounts, 1)->Ok_0.state == AccountState::Frozen,
    ensures
        mint_to(program_id, accounts, amount, decimals) == Err::<Seq<AccountView>, TokenError>(
            TokenError::AccountFrozen,
        ),
{
}

/// Burning from a frozen account fails with `AccountFrozen`.
pub proof fn lemma_frozen_rejects_burn(
    program_id: Pubkey,
    accounts: Seq<AccountView>,
    amount: u64,
    decimals: Option<u8>,
)
    requires
        accounts.len() >= 3,
        token_account_at(accounts, 0) is Ok,
        token_account_at(accounts, 0)->Ok_0.state == AccountState::Frozen,
    ensures
        burn(program_id, accounts, amount, decimals) == Err::<Seq<AccountView>, TokenError>(
            TokenError::AccountFrozen,
        ),
{
}

/// A frozen account that holds nothing can still be closed: closing looks at
/// the balance and at the authority, not at the state.
pub proof fn lemma_frozen_account_closes(program_id: Pubkey, accounts: Seq<AccountView>)
    requires
        accounts.len() >= 3,
        accounts[0].key != accounts[1].key,
        token_account_at(accounts, 0) is Ok,
        token_account_at(accounts, 0)->Ok_0.state == AccountState::Frozen,
        token_account_at(accounts, 0)->Ok_0.amount == 0,
        authorized(
            program_id,
            closer(token_account_at(accounts, 0)->Ok_0, accounts[2].key),
            accounts,
            2,
        ) is Ok,
        accounts[0].lamports + accounts[1].lamports <= u64::MAX,
    ensures
        close_account(program_id, accounts) is Ok,
{
}

} // verus!
