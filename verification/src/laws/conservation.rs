//! Conservation of value: transfers, mints and burns keep the balances of
//! every mint in step with its supply.

use pinocchio::pubkey::Pubkey;
use vstd::prelude::*;

use crate::account::{with_lamports, AccountView};
use crate::entrypoint::{executed, instruction_outcome};
use crate::error::TokenError;
use crate::instruction::{arguments, parse_instruction, Instruction};
use crate::mint::{created_mint, lemma_mint_round_trip, mint_bytes, Mint};
use crate::processor::shared::{
    credited, debited, mint_at, spender, stated_mint, token_account_at, with_mint,
    with_token_account,
};
use crate::processor::supply::{burn, mint_to, with_supply};
use crate::processor::transfer::{native_moved, transfer, transfer_roles};
use crate::token_account::{
    created_token_account, lemma_token_account_round_trip, token_account_bytes, AccountState,
    TokenAccount,
};

verus! {

/// What `account` holds of the mint `mint`: the balance of the created token
/// account in its buffer, if that is an account of `mint`.
pub open spec fn held(account: AccountView, mint: Pubkey) -> int {
    match created_token_account(account.data) {
        Ok(record) => if record.mint == mint {
            record.amount as int
        } else {
            0
        },
        Err(_) => 0,
    }
}

/// What `account` has issued of the mint `mint`: the supply of the created
/// mint in its buffer, if the account is `mint`.
pub open spec fn issued(account: AccountView, mint: Pubkey) -> int {
    if account.key == mint {
        match created_mint(account.data) {
            Ok(record) => record.supply as int,
            Err(_) => 0,
        }
    } else {
        0
    }
}

/// By how much the balances of `mint` among `accounts` exceed the supply
/// that the mints among `accounts` record for it.
pub open spec fn surplus(accounts: Seq<AccountView>, mint: Pubkey) -> int
    decreases accounts.len(),
{
    if accounts.len() == 0 {
        0
    } else {
        surplus(accounts.drop_last(), mint) + held(accounts.last(), mint) - issued(
            accounts.last(),
            mint,
        )
    }
}

/// Whether among `accounts` the balances of every mint add up to its supply.
pub open spec fn conserved(accounts: Seq<AccountView>) -> bool {
    forall|mint: Pubkey| surplus(accounts, mint) == 0
}

/// Whether an instruction is a transfer, a mint or a burn, plain or checked.
pub open spec fn moves_value(instruction: Instruction) -> bool {
    match instruction {
        Instruction::Transfer { .. }
        | Instruction::TransferChecked { .. }
        | Instruction::MintTo { .. }
        | Instruction::MintToChecked { .. }
        | Instruction::Burn { .. }
        | Instruction::BurnChecked { .. } => true,
        _ => false,
    }
}

/// Replacing one account changes the surplus by what the new account holds
/// and has issued beyond the old one.
pub proof fn lemma_surplus_update(
    accounts: Seq<AccountView>,
    index: int,
    account: AccountView,
    mint: Pubkey,
)
    requires
        0 <= index < accounts.len(),
    ensures
        surplus(accounts.update(index, account), mint) == surplus(accounts, mint) + (held(
            account,
            mint,
        ) - issued(account, mint)) - (held(accounts[index], mint) - issued(
            accounts[index],
            mint,
        )),
    decreases accounts.len(),
{
    let updated = accounts.update(index, account);
    if index == accounts.len() - 1 {
        assert(updated.drop_last() =~= accounts.drop_last());
    } else {
        assert(updated.drop_last() =~= accounts.drop_last().update(index, account));
        lemma_surplus_update(accounts.drop_last(), index, account, mint);
    }
}

/// Lamports are no part of the surplus.
pub proof fn lemma_surplus_ignores_lamports(
    accounts: Seq<AccountView>,
    index: int,
    lamports: u64,
    mint: Pubkey,
)
    requires
        0 <= index < accounts.len(),
    ensures
        surplus(with_lamports(accounts, index, lamports), mint) == surplus(accounts, mint),
{
    lemma_surplus_update(
        accounts,
        index,
        AccountView { lamports, ..accounts[index] },
        mint,
    );
}

/// Writing a created token account over a created token account changes the
/// surplus by the difference of what the two hold.
pub proof fn lemma_surplus_with_token_account(
    accounts: Seq<AccountView>,
    index: int,
    before: TokenAccount,
    after: TokenAccount,
    mint: Pubkey,
)
    requires
        0 <= index < accounts.len(),
        token_account_at(accounts, index) == Ok::<TokenAccount, TokenError>(before),
        after.state != AccountState::Uninitialized,
        after.mint == before.mint,
    ensures
        surplus(with_token_account(accounts, index, after), mint) == surplus(accounts, mint)
            + if before.mint == mint {
            after.amount - before.amount
        } else {
            0
        },
{
    lemma_token_account_round_trip(after);
    lemma_surplus_update(
        accounts,
        index,
        AccountView { data: token_account_bytes(after), ..accounts[index] },
        mint,
    );
}

/// Writing a created mint over a created mint changes the surplus by the
/// difference of the two supplies, the other way round.
pub proof fn lemma_surplus_with_mint(
    accounts: Seq<AccountView>,
    index: int,
    before: Mint,
    after: Mint,
    mint: Pubkey,
)
    requires
        0 <= index < accounts.len(),
        mint_at(accounts, index) == Ok::<Mint, TokenError>(before),
        after.is_initialized,
    ensures
        surplus(with_mint(accounts, index, after), mint) == surplus(accounts, mint)
            - if accounts[index].key == mint {
            after.supply - before.supply
        } else {
            0
        },
{
    lemma_mint_round_trip(after);
    lemma_surplus_update(
        accounts,
        index,
        AccountView { data: mint_bytes(after), ..accounts[index] },
        mint,
    );
}

/// A transfer that succeeds leaves the surplus of every mint as it was.
pub proof fn lemma_transfer_conserves(
    program_id: Pubkey,
    accounts: Seq<AccountView>,
    amount: u64,
    decimals: Option<u8>,
    mint: Pubkey,
)
    requires
        transfer(program_id, accounts, amount, decimals) is Ok,
    ensures
        surplus(transfer(program_id, accounts, amount, decimals)->Ok_0, mint) == surplus(
            accounts,
            mint,
        ),
{
    let (source, destination, authority) = transfer_roles(decimals);
    let from = token_account_at(accounts, source)->Ok_0;
    let to = token_account_at(accounts, destination)->Ok_0;
    let by_delegate = spender(program_id, accounts, authority, from, amount)->Ok_0;
    let moved = native_moved(accounts, source, destination, from, amount)->Ok_0;
    if from.is_native is Some {
        let first = with_lamports(accounts, source, (accounts[source].lamports - amount) as u64);
        lemma_surplus_ignores_lamports(
            accounts,
            source,
            (accounts[source].lamports - amount) as u64,
            mint,
        );
        lemma_surplus_ignores_lamports(
            first,
            destination,
            (accounts[destination].lamports + amount) as u64,
            mint,
        );
    }
    assert(moved[source].data == accounts[source].data);
    assert(moved[destination].data == accounts[destination].data);
    let debit = with_token_account(moved, source, debited(from, amount, by_delegate));
    lemma_surplus_with_token_account(moved, source, from, debited(from, amount, by_delegate), mint);
    assert(debit[destination].data == accounts[destination].data);
    lemma_surplus_with_token_account(debit, destination, to, credited(to, amount), mint);
}

/// A mint that succeeds leaves the surplus of every mint as it was.
pub proof fn lemma_mint_to_conserves(
    program_id: Pubkey,
    accounts: Seq<AccountView>,
    amount: u64,
    decimals: Option<u8>,
    mint: Pubkey,
)
    requires
        mint_to(program_id, accounts, amount, decimals) is Ok,
    ensures
        surplus(mint_to(program_id, accounts, amount, decimals)->Ok_0, mint) == surplus(
            accounts,
            mint,
        ),
{
    let to = token_account_at(accounts, 1)->Ok_0;
    let record = stated_mint(accounts, 0, to.mint, decimals)->Ok_0;
    let credit = with_token_account(accounts, 1, credited(to, amount));
    lemma_surplus_with_token_account(accounts, 1, to, credited(to, amount), mint);
    assert(credit[0] == accounts[0]);
    lemma_surplus_with_mint(
        credit,
        0,
        record,
        with_supply(record, (record.supply + amount) as u64),
        mint,
    );
}

/// A burn that succeeds leaves the surplus of every mint as it was.
pub proof fn lemma_burn_conserves(
    program_id: Pubkey,
    accounts: Seq<AccountView>,
    amount: u64,
    decimals: Option<u8>,
    mint: Pubkey,
)
    requires
        burn(program_id, accounts, amount, decimals) is Ok,
    ensures
        surplus(burn(program_id, accounts, amount, decimals)->Ok_0, mint) == surplus(
            accounts,
            mint,
        ),
{
    let from = token_account_at(accounts, 0)->Ok_0;
    let record = stated_mint(accounts, 1, from.mint, decimals)->Ok_0;
    let by_delegate = spender(program_id, accounts, 2, from, amount)->Ok_0;
    let debit = with_token_account(accounts, 0, debited(from, amount, by_delegate));
    lemma_surplus_with_token_account(accounts, 0, from, debited(from, amount, by_delegate), mint);
    assert(debit[1] == accounts[1]);
    lemma_surplus_with_mint(
        debit,
        1,
        record,
        with_supply(record, (record.supply - amount) as u64),
        mint,
    );
}

/// Conservation, for one call: a transfer, a mint or a burn, plain or
/// checked, that succeeds leaves the surplus of every mint as it was. So
/// where the balances of a mint added up to its supply before the call, they
/// do after it.
pub proof fn lemma_call_conserves(
    program_id: Pubkey,
    accounts: Seq<AccountView>,
    instruction: Instruction,
    args: Seq<u8>,
    mint: Pubkey,
)
    requires
        moves_value(instruction),
        executed(program_id, accounts, instruction, args) is Ok,
    ensures
        surplus(executed(program_id, accounts, instruction, args)->Ok_0.0, mint) == surplus(
            accounts,
            mint,
        ),
{
    match instruction {
        Instruction::Transfer { amount } => {
            lemma_transfer_conserves(program_id, accounts, amount, None, mint);
        },
        Instruction::TransferChecked { amount, decimals } => {
            lemma_transfer_conserves(program_id, accounts, amount, Some(decimals), mint);
        },
        Instruction::MintTo { amount } => {
            lemma_mint_to_conserves(program_id, accounts, amount, None, mint);
        },
        Instruction::MintToChecked { amount, decimals } => {
            lemma_mint_to_conserves(program_id, accounts, amount, Some(decimals), mint);
        },
        Instruction::Burn { amount } => {
            lemma_burn_conserves(program_id, accounts, amount, None, mint);
        },
        Instruction::BurnChecked { amount, decimals } => {
            lemma_burn_conserves(program_id, accounts, amount, Some(decimals), mint);
        },
        _ => {},
    }
}

/// The accounts after a sequence of calls, each given by its instruction
/// bytes: a call that fails leaves them as they were.
pub open spec fn after_calls(
    program_id: Pubkey,
    accounts: Seq<AccountView>,
    calls: Seq<Seq<u8>>,
) -> Seq<AccountView>
    decreases calls.len(),
{
    if calls.len() == 0 {
        accounts
    } else {
        let before = after_calls(program_id, accounts, calls.drop_last());
        match instruction_outcome(program_id, before, calls.last()) {
            Ok((after, _)) => after,
            Err(_) => before,
        }
    }
}

/// Whether every call of a sequence that can be decoded is a transfer, a
/// mint or a burn, plain or checked.
pub open spec fn all_move_value(calls: Seq<Seq<u8>>) -> bool {
    forall|i: int|
        0 <= i < calls.len() ==> match parse_instruction(#[trigger] calls[i]) {
            Ok(instruction) => moves_value(instruction),
            Err(_) => true,
        }
}

/// Conservation, for every sequence of calls: whatever transfers, mints and
/// burns are made, and whether they succeed or fail, the surplus of every
/// mint stays what it was; balances that added up to the supply still do.
pub proof fn lemma_calls_conserve(
    program_id: Pubkey,
    accounts: Seq<AccountView>,
    calls: Seq<Seq<u8>>,
    mint: Pubkey,
)
    requires
        all_move_value(calls),
    ensures
        surplus(after_calls(program_id, accounts, calls), mint) == surplus(accounts, mint),
        conserved(accounts) ==> surplus(after_calls(program_id, accounts, calls), mint) == 0,
    decreases calls.len(),
{
    if calls.len() > 0 {
        let earlier = calls.drop_last();
        assert forall|i: int| 0 <= i < earlier.len() implies match parse_instruction(
            #[trigger] earlier[i],
        ) {
            Ok(instruction) => moves_value(instruction),
            Err(_) => true,
        } by {
            assert(earlier[i] == calls[i]);
        }
        lemma_calls_conserve(program_id, accounts, earlier, mint);
        let before = after_calls(program_id, accounts, earlier);
        let last = calls[calls.len() - 1];
        if let Ok(instruction) = parse_instruction(last) {
            if executed(program_id, before, instruction, arguments(last)) is Ok {
                lemma_call_conserves(program_id, before, instruction, arguments(last), mint);
            }
        }
    }
}

} // verus!
