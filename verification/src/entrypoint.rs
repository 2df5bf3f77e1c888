//! The dispatcher: from the bytes of an instruction to the handler that
//! carries it out.

use pinocchio::pubkey::Pubkey;
use vstd::prelude::*;
use vstd::slice::slice_subrange;

use crate::account::{views, Account, AccountView};
use crate::error::TokenError;
use crate::instruction::{arguments, parse_instruction, unpack_instruction, Instruction};
use crate::processor::approve::{approve, process_approve, process_revoke, revoke};
use crate::processor::close_account::{close_account, process_close_account};
use crate::processor::freeze::{process_freeze_account, process_thaw_account, set_frozen};
use crate::processor::initialize::{
    initialize_account, initialize_mint, initialize_multisig, process_initialize_account,
    process_initialize_account2, process_initialize_account3, process_initialize_mint,
    process_initialize_multisig,
};
use crate::processor::queries::{
    account_data_size, immutable_owner, process_amount_to_ui_amount, process_get_account_data_size,
    process_initialize_immutable_owner, process_ui_amount_to_amount, raw_amount, shown_amount,
};
use crate::processor::set_authority::{process_set_authority, set_authority};

use crate::processor::supply::{burn, mint_to, process_burn, process_mint_to};
use crate::processor::sync_native::{process_sync_native, sync_native};
use crate::processor::transfer::{process_transfer, transfer};
use crate::text::text_of;

verus! {

/// What a call leaves behind: the accounts after it, and the data that it
/// returns to the caller.
pub type Outcome = Result<(Seq<AccountView>, Seq<u8>), TokenError>;

/// The outcome of an operation that changes accounts and returns no data.
pub open spec fn changing(accounts: Result<Seq<AccountView>, TokenError>) -> Outcome {
    match accounts {
        Ok(after) => Ok((after, Seq::empty())),
        Err(e) => Err(e),
    }
}

/// The outcome of an operation that returns data and changes no account.
pub open spec fn answering(
    accounts: Seq<AccountView>,
    data: Result<Seq<u8>, TokenError>,
) -> Outcome {
    match data {
        Ok(bytes) => Ok((accounts, bytes)),
        Err(e) => Err(e),
    }
}

/// What carrying out `instruction` does, where `args` are the bytes behind
/// its opcode.
pub open spec fn executed(
    program_id: Pubkey,
    accounts: Seq<AccountView>,
    instruction: Instruction,
    args: Seq<u8>,
) -> Outcome {
    match instruction {
        Instruction::InitializeMint { decimals, mint_authority, freeze_authority } => changing(
            initialize_mint(accounts, 2, decimals, mint_authority, freeze_authority),
        ),
        Instruction::InitializeMint2 { decimals, mint_authority, freeze_authority } => changing(
            initialize_mint(accounts, 1, decimals, mint_authority, freeze_authority),
        ),
        Instruction::InitializeAccount => if accounts.len() < 4 {
            Err(TokenError::NotEnoughAccountKeys)
        } else {
            changing(initialize_account(accounts, 4, accounts[2].key))
        },
        Instruction::InitializeAccount2 { owner } => changing(
            initialize_account(accounts, 3, owner),
        ),
        Instruction::InitializeAccount3 { owner } => changing(
            initialize_account(accounts, 2, owner),
        ),
        Instruction::InitializeMultisig { m } => changing(initialize_multisig(accounts, 2, m)),
        Instruction::InitializeMultisig2 { m } => changing(initialize_multisig(accounts, 1, m)),
        Instruction::Transfer { amount } => changing(
            transfer(program_id, accounts, amount, None),
        ),
        Instruction::TransferChecked { amount, decimals } => changing(
            transfer(program_id, accounts, amount, Some(decimals)),
        ),
        Instruction::Approve { amount } => changing(approve(program_id, accounts, amount, None)),
        Instruction::ApproveChecked { amount, decimals } => changing(
            approve(program_id, accounts, amount, Some(decimals)),
        ),
        Instruction::Revoke => changing(revoke(program_id, accounts)),
        Instruction::SetAuthority { authority_type, new_authority } => changing(
            set_authority(program_id, accounts, authority_type, new_authority),
        ),
        Instruction::MintTo { amount } => changing(mint_to(program_id, accounts, amount, None)),
        Instruction::MintToChecked { amount, decimals } => changing(
            mint_to(program_id, accounts, amount, Some(decimals)),
        ),
        Instruction::Burn { amount } => changing(burn(program_id, accounts, amount, None)),
        Instruction::BurnChecked { amount, decimals } => changing(
            burn(program_id, accounts, amount, Some(decimals)),
        ),
        Instruction::CloseAccount => changing(close_account(program_id, accounts)),
        Instruction::FreezeAccount => changing(set_frozen(program_id, accounts, true)),
        Instruction::ThawAccount => changing(set_frozen(program_id, accounts, false)),
        Instruction::SyncNative => changing(sync_native(accounts)),
        Instruction::GetAccountDataSize => answering(accounts, account_data_size(accounts)),
        Instruction::InitializeImmutableOwner => match immutable_owner(accounts) {
            Ok(_) => Ok((accounts, Seq::empty())),
            Err(e) => Err(e),
        },
        Instruction::AmountToUiAmount { amount } => answering(
            accounts,
            shown_amount(accounts, amount),
        ),
        Instruction::UiAmountToAmount => answering(accounts, raw_amount(accounts, args)),
    }
}

/// What the call with the instruction bytes `data` does to `accounts`.
pub open spec fn instruction_outcome(
    program_id: Pubkey,
    accounts: Seq<AccountView>,
    data: Seq<u8>,
) -> Outcome {
    match parse_instruction(data) {
        Ok(instruction) => executed(program_id, accounts, instruction, arguments(data)),
        Err(e) => Err(e),
    }
}

/// Whether a call that returned `returned` and turned `before` into `after`
/// did what `expected` says: on success accounts and return data are those
/// expected, and on failure the error is the expected one and no account has
/// changed.
pub open spec fn call_outcome_is(
    returned: Result<Vec<u8>, TokenError>,
    before: Seq<Account>,
    after: Seq<Account>,
    expected: Outcome,
) -> bool {
    match expected {
        Ok((accounts, data)) => returned is Ok && returned->Ok_0@ == data && views(after)
            == accounts,
        Err(e) => returned == Err::<Vec<u8>, TokenError>(e) && after == before,
    }
}

/// The result of an operation that returns no data.
fn no_data(done: Result<(), TokenError>) -> (returned: Result<Vec<u8>, TokenError>)
    ensures
        done is Ok ==> returned is Ok && returned->Ok_0@ == Seq::<u8>::empty(),
        done matches Err(e) ==> returned == Err::<Vec<u8>, TokenError>(e),
{
    match done {
        Ok(_) => Ok(Vec::new()),
        Err(e) => Err(e),
    }
}

/// Carries out one instruction on the accounts of the call.
///
/// `instruction_data` is decoded and handed to the handler of its opcode. On
/// success the accounts are what the handler made of them and the result is
/// the data that the operation returns to the caller, empty for most. On
/// failure no account has changed.
pub fn process_instruction(
    program_id: &Pubkey,
    accounts: &mut Vec<Account>,
    instruction_data: &[u8],
) -> (returned: Result<Vec<u8>, TokenError>)
    ensures
        call_outcome_is(
            returned,
            old(accounts)@,
            final(accounts)@,
            instruction_outcome(*program_id, views(old(accounts)@), instruction_data@),
        ),
{
    let instruction = unpack_instruction(instruction_data)?;
    match instruction {
        Instruction::InitializeMint { decimals, mint_authority, freeze_authority } => no_data(
            process_initialize_mint(accounts, true, decimals, &mint_authority, freeze_authority),
        ),
        Instruction::InitializeMint2 { decimals, mint_authority, freeze_authority } => no_data(
            process_initialize_mint(accounts, false, decimals, &mint_authority, freeze_authority),
        ),
        Instruction::InitializeAccount => no_data(process_initialize_account(accounts)),
        Instruction::InitializeAccount2 { owner } => no_data(
            process_initialize_account2(accounts, &owner),
        ),
        Instruction::InitializeAccount3 { owner } => no_data(
            process_initialize_account3(accounts, &owner),
        ),
        Instruction::InitializeMultisig { m } => no_data(
            process_initialize_multisig(accounts, m, true),
        ),
        Instruction::InitializeMultisig2 { m } => no_data(
            process_initialize_multisig(accounts, m, false),
        ),
        Instruction::Transfer { amount } => no_data(
            process_transfer(program_id, accounts, amount, None),
        ),
        Instruction::TransferChecked { amount, decimals } => no_data(
            process_transfer(program_id, accounts, amount, Some(decimals)),
        ),
        Instruction::Approve { amount } => no_data(
            process_approve(program_id, accounts, amount, None),
        ),
        Instruction::ApproveChecked { amount, decimals } => no_data(
            process_approve(program_id, accounts, amount, Some(decimals)),
        ),
        Instruction::Revoke => no_data(process_revoke(program_id, accounts)),
        Instruction::SetAuthority { authority_type, new_authority } => no_data(
            process_set_authority(program_id, accounts, authority_type, new_authority),
        ),
        Instruction::MintTo { amount } => no_data(
            process_mint_to(program_id, accounts, amount, None),
        ),
        Instruction::MintToChecked { amount, decimals } => no_data(
            process_mint_to(program_id, accounts, amount, Some(decimals)),
        ),
        Instruction::Burn { amount } => no_data(process_burn(program_id, accounts, amount, None)),
        Instruction::BurnChecked { amount, decimals } => no_data(
            process_burn(program_id, accounts, amount, Some(decimals)),
        ),
        Instruction::CloseAccount => no_data(process_close_account(program_id, accounts)),
        Instruction::FreezeAccount => no_data(process_freeze_account(program_id, accounts)),
        Instruction::ThawAccount => no_data(process_thaw_account(program_id, accounts)),
        Instruction::SyncNative => no_data(process_sync_native(accounts)),
        Instruction::GetAccountDataSize => process_get_account_data_size(accounts),
        Instruction::InitializeImmutableOwner => no_data(
            process_initialize_immutable_owner(accounts),
        ),
        Instruction::AmountToUiAmount { amount } => process_amount_to_ui_amount(accounts, amount),
        Instruction::UiAmountToAmount => {
            let args = slice_subrange(instruction_data, 1, instruction_data.len());
            match text_of(args) {
                Some(ui_amount) => process_ui_amount_to_amount(accounts, ui_amount),
                None => Err(TokenError::InvalidInstructionData),
            }
        },
    }
}

} // verus!
