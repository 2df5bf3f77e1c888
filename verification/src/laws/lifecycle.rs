//! The life of the records: what every instruction keeps of the accounts
//! that it is handed.
//!
//! A mint is never deleted, keeps its decimals, and gets no authority back
//! that it has given up. A token account keeps its mint and whether it wraps
//! the native asset, until it is closed. A multisig never changes. And every
//! record that is written is well formed.

use pinocchio::pubkey::Pubkey;
use vstd::prelude::*;

use crate::account::AccountView;
use crate::entrypoint::executed;
use crate::error::TokenError;
use crate::instruction::{arguments, parse_instruction, Instruction};
use crate::laws::conservation::after_calls;
use crate::layout::zero_bytes;
use crate::mint::{created_mint, lemma_mint_round_trip, mint_bytes, Mint};
use crate::multisig::{
    created_multisig, filled_slots, lemma_filled_slots, lemma_multisig_round_trip,
};
use crate::processor::approve::{approve, approve_roles, delegated, revoke, undelegated};
use crate::processor::close_account::close_account;
use crate::processor::freeze::{in_state, set_frozen};
use crate::processor::initialize::{
    initialize_account, initialize_mint, initialize_multisig, new_mint, new_multisig,
    new_token_account, signer_accounts, slots_hold, slots_of,
};
use crate::processor::set_authority::{set_authority, AuthorityType};
use crate::processor::shared::{credited, debited, mint_at, spender, stated_mint, token_account_at};
use crate::processor::supply::{burn, mint_to, with_supply};
use crate::processor::sync_native::{sync_native, with_amount};
use crate::processor::transfer::{transfer, transfer_roles};
use crate::token_account::{
    created_token_account, lemma_token_account_round_trip, lemma_zeroed_account_is_uninitialized,
    token_account_bytes, AccountState, TokenAccount, ACCOUNT_LEN,
};

verus! {

/// A created mint stays a created mint of the same decimals, and an
/// authority that it has given up stays away.
pub open spec fn mint_kept(before: Seq<u8>, after: Seq<u8>) -> bool {
    match created_mint(before) {
        Ok(old) => match created_mint(after) {
            Ok(new) => {
                &&& new.decimals == old.decimals
                &&& old.mint_authority is None ==> new.mint_authority is None
                &&& old.freeze_authority is None ==> new.freeze_authority is None
            },
            Err(_) => false,
        },
        Err(_) => true,
    }
}

/// A created token account is closed, with its buffer zeroed, or stays a
/// created account of the same mint that wraps the native asset as before.
pub open spec fn token_account_kept(before: Seq<u8>, after: Seq<u8>) -> bool {
    match created_token_account(before) {
        Ok(old) => after == zero_bytes(ACCOUNT_LEN as nat) || match created_token_account(after) {
            Ok(new) => new.mint == old.mint && new.is_native == old.is_native,
            Err(_) => false,
        },
        Err(_) => true,
    }
}

/// A created multisig never changes.
pub open spec fn multisig_kept(before: Seq<u8>, after: Seq<u8>) -> bool {
    created_multisig(before) is Ok ==> after == before
}

/// What an instruction may do to one account: address, owning program,
/// signer flag and size of the buffer stay, and the record in the buffer
/// goes on with its life.
pub open spec fn evolves(before: AccountView, after: AccountView) -> bool {
    &&& after.key == before.key
    &&& after.owner == before.owner
    &&& after.is_signer == before.is_signer
    &&& after.data.len() == before.data.len()
    &&& mint_kept(before.data, after.data)
    &&& token_account_kept(before.data, after.data)
    &&& multisig_kept(before.data, after.data)
}

/// Whether every account has evolved from the one in its place.
pub open spec fn all_evolve(before: Seq<AccountView>, after: Seq<AccountView>) -> bool {
    &&& after.len() == before.len()
    &&& forall|i: int| 0 <= i < before.len() ==> evolves(before[i], #[trigger] after[i])
}

/// Whether the record in an account is well formed, if it is a created
/// token account or a created multisig.
pub open spec fn sound(account: AccountView) -> bool {
    &&& match created_token_account(account.data) {
        Ok(record) => record.well_formed(),
        Err(_) => true,
    }
    &&& match created_multisig(account.data) {
        Ok(record) => record.well_formed(),
        Err(_) => true,
    }
}

/// Whether the records in all accounts are well formed.
pub open spec fn all_sound(accounts: Seq<AccountView>) -> bool {
    forall|i: int| 0 <= i < accounts.len() ==> sound(#[trigger] accounts[i])
}

/// Whether `after` is `before` with another buffer and other lamports.
pub open spec fn same_account(before: AccountView, after: AccountView) -> bool {
    &&& after.key == before.key
    &&& after.owner == before.owner
    &&& after.is_signer == before.is_signer
}

/// An account whose buffer stays is a step in its life, well formed as before.
pub proof fn lemma_untouched(before: AccountView, after: AccountView)
    requires
        same_account(before, after),
        after.data == before.data,
    ensures
        evolves(before, after),
        sound(before) ==> sound(after),
{
}

/// Writing a created token account over a created one of the same mint is a
/// step in its life.
pub proof fn lemma_token_account_step(
    before: AccountView,
    after: AccountView,
    old: TokenAccount,
    new: TokenAccount,
)
    requires
        same_account(before, after),
        created_token_account(before.data) == Ok::<TokenAccount, TokenError>(old),
        after.data == token_account_bytes(new),
        new.mint == old.mint,
        new.is_native == old.is_native,
        new.state != AccountState::Uninitialized,
        old.well_formed() ==> new.well_formed(),
    ensures
        evolves(before, after),
        sound(before) ==> sound(after),
{
    lemma_token_account_round_trip(new);
}

/// Writing a created mint over a created one is a step in its life, where it
/// keeps the decimals and brings no authority back.
pub proof fn lemma_mint_step(before: AccountView, after: AccountView, old: Mint, new: Mint)
    requires
        same_account(before, after),
        created_mint(before.data) == Ok::<Mint, TokenError>(old),
        after.data == mint_bytes(new),
        new.is_initialized,
        new.decimals == old.decimals,
        old.mint_authority is None ==> new.mint_authority is None,
        old.freeze_authority is None ==> new.freeze_authority is None,
    ensures
        evolves(before, after),
        sound(after),
{
    lemma_mint_round_trip(new);
}

/// Writing into a buffer that holds no created record is a step in the life
/// of the account, whatever is written, as long as the size stays.
pub proof fn lemma_first_step(before: AccountView, after: AccountView)
    requires
        same_account(before, after),
        after.data.len() == before.data.len(),
        created_mint(before.data) is Err,
        created_token_account(before.data) is Err,
        created_multisig(before.data) is Err,
    ensures
        evolves(before, after),
{
}

/// A transfer that succeeds lets every account go on with its life.
pub proof fn lemma_transfer_evolves(
    program_id: Pubkey,
    accounts: Seq<AccountView>,
    amount: u64,
    decimals: Option<u8>,
)
    requires
        transfer(program_id, accounts, amount, decimals) is Ok,
    ensures
        all_evolve(accounts, transfer(program_id, accounts, amount, decimals)->Ok_0),
        all_sound(accounts) ==> all_sound(
            transfer(program_id, accounts, amount, decimals)->Ok_0,
        ),
{
    let after = transfer(program_id, accounts, amount, decimals)->Ok_0;
    let (source, destination, authority) = transfer_roles(decimals);
    let from = token_account_at(accounts, source)->Ok_0;
    let to = token_account_at(accounts, destination)->Ok_0;
    let by_delegate = spender(program_id, accounts, authority, from, amount)->Ok_0;
    assert forall|i: int| 0 <= i < accounts.len() implies evolves(accounts[i], #[trigger] after[i])
        && (sound(accounts[i]) ==> sound(after[i])) by {
        if i == source {
            lemma_token_account_step(
                accounts[i],
                after[i],
                from,
                debited(from, amount, by_delegate),
            );
        } else if i == destination {
            lemma_token_account_step(accounts[i], after[i], to, credited(to, amount));
        } else {
            lemma_untouched(accounts[i], after[i]);
        }
    }
}

/// An approval that succeeds lets every account go on with its life.
pub proof fn lemma_approve_evolves(
    program_id: Pubkey,
    accounts: Seq<AccountView>,
    amount: u64,
    decimals: Option<u8>,
)
    requires
        approve(program_id, accounts, amount, decimals) is Ok,
    ensures
        all_evolve(accounts, approve(program_id, accounts, amount, decimals)->Ok_0),
        all_sound(accounts) ==> all_sound(approve(program_id, accounts, amount, decimals)->Ok_0),
{
    let after = approve(program_id, accounts, amount, decimals)->Ok_0;
    let (source, delegate, owner) = approve_roles(decimals);
    let from = token_account_at(accounts, source)->Ok_0;
    assert forall|i: int| 0 <= i < accounts.len() implies evolves(accounts[i], #[trigger] after[i])
        && (sound(accounts[i]) ==> sound(after[i])) by {
        if i == source {
            lemma_token_account_step(
                accounts[i],
                after[i],
                from,
                delegated(from, accounts[delegate].key, amount),
            );
        } else {
            lemma_untouched(accounts[i], after[i]);
        }
    }
}

/// A revocation that succeeds lets every account go on with its life.
pub proof fn lemma_revoke_evolves(program_id: Pubkey, accounts: Seq<AccountView>)
    requires
        revoke(program_id, accounts) is Ok,
    ensures
        all_evolve(accounts, revoke(program_id, accounts)->Ok_0),
        all_sound(accounts) ==> all_sound(revoke(program_id, accounts)->Ok_0),
{
    let after = revoke(program_id, accounts)->Ok_0;
    let from = token_account_at(accounts, 0)->Ok_0;
    assert forall|i: int| 0 <= i < accounts.len() implies evolves(accounts[i], #[trigger] after[i])
        && (sound(accounts[i]) ==> sound(after[i])) by {
        if i == 0 {
            lemma_token_account_step(accounts[i], after[i], from, undelegated(from));
        } else {
            lemma_untouched(accounts[i], after[i]);
        }
    }
}

/// A mint that succeeds lets every account go on with its life.
pub proof fn lemma_mint_to_evolves(
    program_id: Pubkey,
    accounts: Seq<AccountView>,
    amount: u64,
    decimals: Option<u8>,
)
    requires
        mint_to(program_id, accounts, amount, decimals) is Ok,
    ensures
        all_evolve(accounts, mint_to(program_id, accounts, amount, decimals)->Ok_0),
        all_sound(accounts) ==> all_sound(mint_to(program_id, accounts, amount, decimals)->Ok_0),
{
    let after = mint_to(program_id, accounts, amount, decimals)->Ok_0;
    let to = token_account_at(accounts, 1)->Ok_0;
    let record = stated_mint(accounts, 0, to.mint, decimals)->Ok_0;
    assert forall|i: int| 0 <= i < accounts.len() implies evolves(accounts[i], #[trigger] after[i])
        && (sound(accounts[i]) ==> sound(after[i])) by {
        if i == 0 {
            lemma_mint_step(
                accounts[i],
                after[i],
                record,
                with_supply(record, (record.supply + amount) as u64),
            );
        } else if i == 1 {
            lemma_token_account_step(accounts[i], after[i], to, credited(to, amount));
        } else {
            lemma_untouched(accounts[i], after[i]);
        }
    }
}

/// A burn that succeeds lets every account go on with its life.
pub proof fn lemma_burn_evolves(
    program_id: Pubkey,
    accounts: Seq<AccountView>,
    amount: u64,
    decimals: Option<u8>,
)
    requires
        burn(program_id, accounts, amount, decimals) is Ok,
    ensures
        all_evolve(accounts, burn(program_id, accounts, amount, decimals)->Ok_0),
        all_sound(accounts) ==> all_sound(burn(program_id, accounts, amount, decimals)->Ok_0),
{
    let after = burn(program_id, accounts, amount, decimals)->Ok_0;
    let from = token_account_at(accounts, 0)->Ok_0;
    let record = stated_mint(accounts, 1, from.mint, decimals)->Ok_0;
    let by_delegate = spender(program_id, accounts, 2, from, amount)->Ok_0;
    assert forall|i: int| 0 <= i < accounts.len() implies evolves(accounts[i], #[trigger] after[i])
        && (sound(accounts[i]) ==> sound(after[i])) by {
        if i == 0 {
            lemma_token_account_step(
                accounts[i],
                after[i],
                from,
                debited(from, amount, by_delegate),
            );
        } else if i == 1 {
            lemma_mint_step(
                accounts[i],
                after[i],
                record,
                with_supply(record, (record.supply - amount) as u64),
            );
        } else {
            lemma_untouched(accounts[i], after[i]);
        }
    }
}

/// A freeze or a thaw that succeeds lets every account go on with its life.
pub proof fn lemma_set_frozen_evolves(program_id: Pubkey, accounts: Seq<AccountView>, freeze: bool)
    requires
        set_frozen(program_id, accounts, freeze) is Ok,
    ensures
        all_evolve(accounts, set_frozen(program_id, accounts, freeze)->Ok_0),
        all_sound(accounts) ==> all_sound(set_frozen(program_id, accounts, freeze)->Ok_0),
{
    let after = set_frozen(program_id, accounts, freeze)->Ok_0;
    let account = token_account_at(accounts, 0)->Ok_0;
    let state = if freeze {
        AccountState::Frozen
    } else {
        AccountState::Initialized
    };
    assert forall|i: int| 0 <= i < accounts.len() implies evolves(accounts[i], #[trigger] after[i])
        && (sound(accounts[i]) ==> sound(after[i])) by {
        if i == 0 {
            lemma_token_account_step(accounts[i], after[i], account, in_state(account, state));
        } else {
            lemma_untouched(accounts[i], after[i]);
        }
    }
}

/// A close that succeeds lets every account go on with its life: the closed
/// account ends it.
pub proof fn lemma_close_account_evolves(program_id: Pubkey, accounts: Seq<AccountView>)
    requires
        close_account(program_id, accounts) is Ok,
    ensures
        all_evolve(accounts, close_account(program_id, accounts)->Ok_0),
        all_sound(accounts) ==> all_sound(close_account(program_id, accounts)->Ok_0),
{
    let after = close_account(program_id, accounts)->Ok_0;
    lemma_zeroed_account_is_uninitialized();
    assert forall|i: int| 0 <= i < accounts.len() implies evolves(accounts[i], #[trigger] after[i])
        && (sound(accounts[i]) ==> sound(after[i])) by {
        if i == 0 {
            assert(after[i].data == zero_bytes(ACCOUNT_LEN as nat));
        } else {
            lemma_untouched(accounts[i], after[i]);
        }
    }
}

/// A change of authority that succeeds lets every account go on with its life.
pub proof fn lemma_set_authority_evolves(
    program_id: Pubkey,
    accounts: Seq<AccountView>,
    authority_type: AuthorityType,
    new_authority: Option<Pubkey>,
)
    requires
        set_authority(program_id, accounts, authority_type, new_authority) is Ok,
    ensures
        all_evolve(
            accounts,
            set_authority(program_id, accounts, authority_type, new_authority)->Ok_0,
        ),
        all_sound(accounts) ==> all_sound(
            set_authority(program_id, accounts, authority_type, new_authority)->Ok_0,
        ),
{
    let after = set_authority(program_id, accounts, authority_type, new_authority)->Ok_0;
    assert forall|i: int| 0 <= i < accounts.len() implies evolves(accounts[i], #[trigger] after[i])
        && (sound(accounts[i]) ==> sound(after[i])) by {
        if i != 0 {
            lemma_untouched(accounts[i], after[i]);
        } else if accounts[0].data.len() == ACCOUNT_LEN {
            let account = token_account_at(accounts, 0)->Ok_0;
            let changed = match authority_type {
                AuthorityType::AccountOwner => TokenAccount {
                    owner: new_authority->Some_0,
                    ..account
                },
                _ => TokenAccount { close_authority: new_authority, ..account },
            };
            lemma_token_account_step(accounts[i], after[i], account, changed);
        } else {
            let record = mint_at(accounts, 0)->Ok_0;
            let changed = match authority_type {
                AuthorityType::MintTokens => Mint { mint_authority: new_authority, ..record },
                _ => Mint { freeze_authority: new_authority, ..record },
            };
            lemma_mint_step(accounts[i], after[i], record, changed);
        }
    }
}

/// A synchronisation that succeeds lets every account go on with its life.
pub proof fn lemma_sync_native_evolves(accounts: Seq<AccountView>)
    requires
        sync_native(accounts) is Ok,
    ensures
        all_evolve(accounts, sync_native(accounts)->Ok_0),
        all_sound(accounts) ==> all_sound(sync_native(accounts)->Ok_0),
{
    let after = sync_native(accounts)->Ok_0;
    let account = token_account_at(accounts, 0)->Ok_0;
    let reserve = account.is_native->Some_0;
    assert forall|i: int| 0 <= i < accounts.len() implies evolves(accounts[i], #[trigger] after[i])
        && (sound(accounts[i]) ==> sound(after[i])) by {
        if i == 0 {
            lemma_token_account_step(
                accounts[i],
                after[i],
                account,
                with_amount(account, (accounts[0].lamports - reserve) as u64),
            );
        } else {
            lemma_untouched(accounts[i], after[i]);
        }
    }
}

/// The creation of a mint lets every account go on with its life.
pub proof fn lemma_initialize_mint_evolves(
    accounts: Seq<AccountView>,
    required: nat,
    decimals: u8,
    mint_authority: Pubkey,
    freeze_authority: Option<Pubkey>,
)
    requires
        initialize_mint(accounts, required, decimals, mint_authority, freeze_authority) is Ok,
    ensures
        all_evolve(
            accounts,
            initialize_mint(accounts, required, decimals, mint_authority, freeze_authority)->Ok_0,
        ),
        all_sound(accounts) ==> all_sound(
            initialize_mint(accounts, required, decimals, mint_authority, freeze_authority)->Ok_0,
        ),
{
    let after = initialize_mint(
        accounts,
        required,
        decimals,
        mint_authority,
        freeze_authority,
    )->Ok_0;
    lemma_mint_round_trip(new_mint(decimals, mint_authority, freeze_authority));
    assert forall|i: int| 0 <= i < accounts.len() implies evolves(accounts[i], #[trigger] after[i])
        && (sound(accounts[i]) ==> sound(after[i])) by {
        if i == 0 {
            lemma_first_step(accounts[i], after[i]);
        } else {
            lemma_untouched(accounts[i], after[i]);
        }
    }
}

/// The creation of a token account lets every account go on with its life,
/// and the account that it creates is well formed.
pub proof fn lemma_initialize_account_evolves(
    accounts: Seq<AccountView>,
    required: nat,
    owner: Pubkey,
)
    requires
        initialize_account(accounts, required, owner) is Ok,
    ensures
        all_evolve(accounts, initialize_account(accounts, required, owner)->Ok_0),
        all_sound(accounts) ==> all_sound(initialize_account(accounts, required, owner)->Ok_0),
{
    let after = initialize_account(accounts, required, owner)->Ok_0;
    lemma_token_account_round_trip(
        new_token_account(accounts[1].key, owner, accounts[0].lamports),
    );
    assert forall|i: int| 0 <= i < accounts.len() implies evolves(accounts[i], #[trigger] after[i])
        && (sound(accounts[i]) ==> sound(after[i])) by {
        if i == 0 {
            lemma_first_step(accounts[i], after[i]);
        } else {
            lemma_untouched(accounts[i], after[i]);
        }
    }
}

/// The slots that register `keys` hold them in their order, and the zero
/// principal behind them.
pub proof fn lemma_slots_of_hold(keys: Seq<Pubkey>)
    ensures
        slots_hold(slots_of(keys), keys),
{
    lemma_filled_slots(keys, 11);
    assert(slots_hold(filled_slots(keys, 11), keys));
}

/// The creation of a multisig lets every account go on with its life, and
/// the multisig that it creates is well formed and registers the signers of
/// the call.
pub proof fn lemma_initialize_multisig_evolves(accounts: Seq<AccountView>, first: int, m: u8)
    requires
        0 < first,
        initialize_multisig(accounts, first, m) is Ok,
    ensures
        all_evolve(accounts, initialize_multisig(accounts, first, m)->Ok_0),
        all_sound(accounts) ==> all_sound(initialize_multisig(accounts, first, m)->Ok_0),
        created_multisig(initialize_multisig(accounts, first, m)->Ok_0[0].data) is Ok,
        created_multisig(
            initialize_multisig(accounts, first, m)->Ok_0[0].data,
        )->Ok_0.registered() == signer_accounts(accounts, first),
{
    let after = initialize_multisig(accounts, first, m)->Ok_0;
    let keys = signer_accounts(accounts, first);
    let created = new_multisig(m, keys);
    lemma_slots_of_hold(keys);
    lemma_multisig_round_trip(created);
    assert(created.registered() =~= keys);
    assert forall|i: int| 0 <= i < accounts.len() implies evolves(accounts[i], #[trigger] after[i])
        && (sound(accounts[i]) ==> sound(after[i])) by {
        if i == 0 {
            lemma_first_step(accounts[i], after[i]);
        } else {
            lemma_untouched(accounts[i], after[i]);
        }
    }
}

/// The life of the records, for one call: whatever instruction succeeds,
/// every account keeps its address, its owning program and the size of its
/// buffer; a mint stays a mint of the same decimals and gets no authority
/// back; a token account keeps its mint until it is closed; a multisig stays
/// as it is. And where every record was well formed before the call, every
/// record is after it.
pub proof fn lemma_call_evolves(
    program_id: Pubkey,
    accounts: Seq<AccountView>,
    instruction: Instruction,
    args: Seq<u8>,
)
    requires
        executed(program_id, accounts, instruction, args) is Ok,
    ensures
        all_evolve(accounts, executed(program_id, accounts, instruction, args)->Ok_0.0),
        all_sound(accounts) ==> all_sound(
            executed(program_id, accounts, instruction, args)->Ok_0.0,
        ),
{
    let after = executed(program_id, accounts, instruction, args)->Ok_0.0;
    match instruction {
        Instruction::InitializeMint { decimals, mint_authority, freeze_authority } => {
            lemma_initialize_mint_evolves(accounts, 2, decimals, mint_authority, freeze_authority);
        },
        Instruction::InitializeMint2 { decimals, mint_authority, freeze_authority } => {
            lemma_initialize_mint_evolves(accounts, 1, decimals, mint_authority, freeze_authority);
        },
        Instruction::InitializeAccount => {
            lemma_initialize_account_evolves(accounts, 4, accounts[2].key);
        },
        Instruction::InitializeAccount2 { owner } => {
            lemma_initialize_account_evolves(accounts, 3, owner);
        },
        Instruction::InitializeAccount3 { owner } => {
            lemma_initialize_account_evolves(accounts, 2, owner);
        },
        Instruction::InitializeMultisig { m } => {
            lemma_initialize_multisig_evolves(accounts, 2, m);
        },
        Instruction::InitializeMultisig2 { m } => {
            lemma_initialize_multisig_evolves(accounts, 1, m);
        },
        Instruction::Transfer { amount } => {
            lemma_transfer_evolves(program_id, accounts, amount, None);
        },
        Instruction::TransferChecked { amount, decimals } => {
            lemma_transfer_evolves(program_id, accounts, amount, Some(decimals));
        },
        Instruction::Approve { amount } => {
            lemma_approve_evolves(program_id, accounts, amount, None);
        },
        Instruction::ApproveChecked { amount, decimals } => {
            lemma_approve_evolves(program_id, accounts, amount, Some(decimals));
        },
        Instruction::Revoke => {
            lemma_revoke_evolves(program_id, accounts);
        },
        Instruction::SetAuthority { authority_type, new_authority } => {
            lemma_set_authority_evolves(program_id, accounts, authority_type, new_authority);
        },
        Instruction::MintTo { amount } => {
            lemma_mint_to_evolves(program_id, accounts, amount, None);
        },
        Instruction::MintToChecked { amount, decimals } => {
            lemma_mint_to_evolves(program_id, accounts, amount, Some(decimals));
        },
        Instruction::Burn { amount } => {
            lemma_burn_evolves(program_id, accounts, amount, None);
        },
        Instruction::BurnChecked { amount, decimals } => {
            lemma_burn_evolves(program_id, accounts, amount, Some(decimals));
        },
        Instruction::CloseAccount => {
            lemma_close_account_evolves(program_id, accounts);
        },
        Instruction::FreezeAccount => {
            lemma_set_frozen_evolves(program_id, accounts, true);
        },
        Instruction::ThawAccount => {
            lemma_set_frozen_evolves(program_id, accounts, false);
        },
        Instruction::SyncNative => {
            lemma_sync_native_evolves(accounts);
        },
        _ => {
            assert(after == accounts);
            assert forall|i: int| 0 <= i < accounts.len() implies evolves(
                accounts[i],
                #[trigger] after[i],
            ) by {
                lemma_untouched(accounts[i], after[i]);
            }
        },
    }
}

/// The life of the records, for every sequence of calls: whatever
/// instructions are carried out, and whether they succeed or fail, every
/// account keeps its address and the size of its buffer, and records that
/// were well formed at the start are well formed at the end.
pub proof fn lemma_calls_keep_sound(
    program_id: Pubkey,
    accounts: Seq<AccountView>,
    calls: Seq<Seq<u8>>,
)
    ensures
        after_calls(program_id, accounts, calls).len() == accounts.len(),
        forall|i: int|
            0 <= i < accounts.len() ==> (#[trigger] after_calls(
                program_id,
                accounts,
                calls,
            )[i]).key == accounts[i].key && after_calls(program_id, accounts, calls)[i].data.len()
                == accounts[i].data.len(),
        all_sound(accounts) ==> all_sound(after_calls(program_id, accounts, calls)),
    decreases calls.len(),
{
    if calls.len() > 0 {
        lemma_calls_keep_sound(program_id, accounts, calls.drop_last());
        let before = after_calls(program_id, accounts, calls.drop_last());
        let last = calls[calls.len() - 1];
        if let Ok(instruction) = parse_instruction(last) {
            if executed(program_id, before, instruction, arguments(last)) is Ok {
                lemma_call_evolves(program_id, before, instruction, arguments(last));
            }
        }
    }
}

} // verus!
