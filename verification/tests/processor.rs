use token_program::account::Account;
use token_program::error::TokenError;
use token_program::mint::{read_mint, Mint};
use token_program::multisig::{read_multisig, Multisig};
use token_program::processor::approve::{process_approve, process_revoke};
use token_program::processor::close_account::process_close_account;
use token_program::processor::freeze::{
    process_freeze_account, process_set_frozen, process_thaw_account,
};
use token_program::processor::initialize::{
    process_initialize_account, process_initialize_account2, process_initialize_account3,
    process_initialize_mint, process_initialize_multisig,
};
use token_program::processor::queries::{
    process_amount_to_ui_amount, process_get_account_data_size,
    process_initialize_immutable_owner, process_ui_amount_to_amount,
};
use token_program::processor::set_authority::{process_set_authority, AuthorityType};
use token_program::processor::supply::{process_burn, process_mint_to};
use token_program::processor::sync_native::process_sync_native;
use token_program::processor::transfer::process_transfer;
use token_program::pubkey::NATIVE_MINT;
use token_program::token_account::{read_token_account, AccountState, TokenAccount};

const PROGRAM: [u8; 32] = [99; 32];
const MINT: [u8; 32] = [1; 32];
const OTHER_MINT: [u8; 32] = [2; 32];
const ALICE: [u8; 32] = [10; 32];
const BOB: [u8; 32] = [11; 32];
const CAROL: [u8; 32] = [12; 32];
const MINTER: [u8; 32] = [20; 32];
const FREEZER: [u8; 32] = [21; 32];
const ALICE_TOKENS: [u8; 32] = [30; 32];
const BOB_TOKENS: [u8; 32] = [31; 32];
const RENT: [u8; 32] = [40; 32];

fn wallet(key: [u8; 32], is_signer: bool) -> Account {
    Account { key, owner: [0; 32], lamports: 5, data: Vec::new(), is_signer }
}

fn held(key: [u8; 32], lamports: u64, data: Vec<u8>) -> Account {
    Account { key, owner: PROGRAM, lamports, data, is_signer: false }
}

fn mint_record(supply: u64) -> Mint {
    Mint {
        mint_authority: Some(MINTER),
        supply,
        decimals: 2,
        is_initialized: true,
        freeze_authority: Some(FREEZER),
    }
}

fn record(owner: [u8; 32], amount: u64) -> TokenAccount {
    TokenAccount {
        mint: MINT,
        owner,
        amount,
        delegate: None,
        state: AccountState::Initialized,
        is_native: None,
        delegated_amount: 0,
        close_authority: None,
    }
}

fn mint_account(supply: u64) -> Account {
    held(MINT, 100, mint_record(supply).pack())
}

fn tokens(key: [u8; 32], account: TokenAccount) -> Account {
    held(key, 100, account.pack())
}

fn record_at(accounts: &[Account], index: usize) -> TokenAccount {
    read_token_account(&accounts[index].data).unwrap()
}

fn mint_at(accounts: &[Account], index: usize) -> Mint {
    read_mint(&accounts[index].data).unwrap()
}

fn transfer_call(from: TokenAccount, to: TokenAccount, authority: Account) -> Vec<Account> {
    vec![tokens(ALICE_TOKENS, from), tokens(BOB_TOKENS, to), authority]
}

fn checked_transfer_call(from: TokenAccount, to: TokenAccount, authority: Account) -> Vec<Account> {
    vec![tokens(ALICE_TOKENS, from), mint_account(1_000), tokens(BOB_TOKENS, to), authority]
}

#[test]
fn mint_is_created_once() {
    let mut accounts = vec![held(MINT, 100, vec![0; 82]), wallet(RENT, false)];
    assert_eq!(process_initialize_mint(&mut accounts, true, 6, &MINTER, Some(FREEZER)), Ok(()));
    assert_eq!(
        mint_at(&accounts, 0),
        Mint {
            mint_authority: Some(MINTER),
            supply: 0,
            decimals: 6,
            is_initialized: true,
            freeze_authority: Some(FREEZER),
        }
    );
    let snapshot = accounts.clone();
    assert_eq!(
        process_initialize_mint(&mut accounts, true, 9, &ALICE, None),
        Err(TokenError::AccountAlreadyInitialized)
    );
    assert_eq!(accounts, snapshot);
}

#[test]
fn mint_creation_checks_its_accounts() {
    let mut only_mint = vec![held(MINT, 100, vec![0; 82])];
    assert_eq!(
        process_initialize_mint(&mut only_mint, true, 6, &MINTER, None),
        Err(TokenError::NotEnoughAccountKeys)
    );
    assert_eq!(process_initialize_mint(&mut only_mint, false, 6, &MINTER, None), Ok(()));
    assert_eq!(mint_at(&only_mint, 0).freeze_authority, None);
    let mut none: Vec<Account> = Vec::new();
    assert_eq!(
        process_initialize_mint(&mut none, false, 6, &MINTER, None),
        Err(TokenError::NotEnoughAccountKeys)
    );
    let mut wrong_size = vec![held(MINT, 100, vec![0; 165])];
    assert_eq!(
        process_initialize_mint(&mut wrong_size, false, 6, &MINTER, None),
        Err(TokenError::InvalidAccountData)
    );
}

#[test]
fn account_is_created_in_three_ways() {
    let blank = held(ALICE_TOKENS, 100, vec![0; 165]);
    let expected = record(ALICE, 0);

    let mut first = vec![blank.clone(), mint_account(0), wallet(ALICE, false), wallet(RENT, false)];
    assert_eq!(process_initialize_account(&mut first), Ok(()));
    assert_eq!(record_at(&first, 0), expected);

    let mut second = vec![blank.clone(), mint_account(0), wallet(RENT, false)];
    assert_eq!(process_initialize_account2(&mut second, &ALICE), Ok(()));
    assert_eq!(record_at(&second, 0), expected);

    let mut third = vec![blank, mint_account(0)];
    assert_eq!(process_initialize_account3(&mut third, &ALICE), Ok(()));
    assert_eq!(record_at(&third, 0), expected);
}

#[test]
fn account_creation_needs_its_accounts() {
    let blank = held(ALICE_TOKENS, 100, vec![0; 165]);
    let mut three = vec![blank.clone(), mint_account(0), wallet(ALICE, false)];
    let snapshot = three.clone();
    assert_eq!(process_initialize_account(&mut three), Err(TokenError::NotEnoughAccountKeys));
    assert_eq!(three, snapshot);
    let mut two = vec![blank.clone(), mint_account(0)];
    assert_eq!(
        process_initialize_account2(&mut two, &ALICE),
        Err(TokenError::NotEnoughAccountKeys)
    );
    let mut one = vec![blank];
    assert_eq!(
        process_initialize_account3(&mut one, &ALICE),
        Err(TokenError::NotEnoughAccountKeys)
    );
}

#[test]
fn account_creation_needs_a_created_mint_and_a_fresh_buffer() {
    let blank = held(ALICE_TOKENS, 100, vec![0; 165]);
    let mut no_mint = vec![blank.clone(), held(MINT, 100, vec![0; 82])];
    assert_eq!(
        process_initialize_account3(&mut no_mint, &ALICE),
        Err(TokenError::UninitializedAccount)
    );
    let mut not_a_mint = vec![blank.clone(), wallet(MINT, false)];
    assert_eq!(
        process_initialize_account3(&mut not_a_mint, &ALICE),
        Err(TokenError::InvalidAccountData)
    );
    let mut taken = vec![tokens(ALICE_TOKENS, record(BOB, 7)), mint_account(7)];
    let snapshot = taken.clone();
    assert_eq!(
        process_initialize_account3(&mut taken, &ALICE),
        Err(TokenError::AccountAlreadyInitialized)
    );
    assert_eq!(taken, snapshot);
}

#[test]
fn account_of_the_native_mint_wraps_its_lamports() {
    let native_mint = held(NATIVE_MINT, 1, mint_record(0).pack());
    let mut accounts = vec![held(ALICE_TOKENS, 2_039_280, vec![0; 165]), native_mint];
    assert_eq!(process_initialize_account3(&mut accounts, &ALICE), Ok(()));
    let created = record_at(&accounts, 0);
    assert_eq!(created.is_native, Some(2_039_280));
    assert_eq!(created.amount, 0);
    assert_eq!(created.mint, NATIVE_MINT);
    assert_eq!(NATIVE_MINT[0], 6);
    assert_eq!(NATIVE_MINT[31], 1);
}

#[test]
fn multisig_registers_its_signers_in_order() {
    let mut accounts = vec![
        held(CAROL, 100, vec![0; 355]),
        wallet(RENT, false),
        wallet(ALICE, false),
        wallet(BOB, false),
    ];
    assert_eq!(process_initialize_multisig(&mut accounts, 2, true), Ok(()));
    let created = read_multisig(&accounts[0].data).unwrap();
    let mut signers = [[0u8; 32]; 11];
    signers[0] = ALICE;
    signers[1] = BOB;
    assert_eq!(created, Multisig { m: 2, n: 2, is_initialized: true, signers });

    let mut without_rent = vec![held(CAROL, 100, vec![0; 355]), wallet(ALICE, false)];
    assert_eq!(process_initialize_multisig(&mut without_rent, 1, false), Ok(()));
    assert_eq!(read_multisig(&without_rent[0].data).unwrap().n, 1);
}

#[test]
fn multisig_creation_checks_counts_and_signers() {
    let blank = held(CAROL, 100, vec![0; 355]);
    let call = |signers: &[[u8; 32]]| {
        let mut accounts = vec![blank.clone()];
        accounts.extend(signers.iter().map(|key| wallet(*key, false)));
        accounts
    };
    let mut none = call(&[]);
    assert_eq!(process_initialize_multisig(&mut none, 1, false), Err(TokenError::InvalidArgument));
    let mut m_zero = call(&[ALICE, BOB]);
    assert_eq!(process_initialize_multisig(&mut m_zero, 0, false), Err(TokenError::InvalidArgument));
    let mut m_high = call(&[ALICE, BOB]);
    let snapshot = m_high.clone();
    assert_eq!(process_initialize_multisig(&mut m_high, 3, false), Err(TokenError::InvalidArgument));
    assert_eq!(m_high, snapshot);
    let mut twice = call(&[ALICE, BOB, ALICE]);
    assert_eq!(process_initialize_multisig(&mut twice, 2, false), Err(TokenError::InvalidArgument));
    let twelve: Vec<[u8; 32]> = (0..12u8).map(|i| [100 + i; 32]).collect();
    let mut too_many = call(&twelve);
    assert_eq!(
        process_initialize_multisig(&mut too_many, 2, false),
        Err(TokenError::InvalidArgument)
    );
    let mut eleven = call(&twelve[..11]);
    assert_eq!(process_initialize_multisig(&mut eleven, 11, false), Ok(()));
    let mut again = eleven.clone();
    assert_eq!(
        process_initialize_multisig(&mut again, 1, false),
        Err(TokenError::AccountAlreadyInitialized)
    );
    let mut missing_rent = vec![blank.clone()];
    assert_eq!(
        process_initialize_multisig(&mut missing_rent, 1, true),
        Err(TokenError::NotEnoughAccountKeys)
    );
}

#[test]
fn transfer_moves_the_amount() {
    let mut accounts = transfer_call(record(ALICE, 500), record(BOB, 20), wallet(ALICE, true));
    assert_eq!(process_transfer(&PROGRAM, &mut accounts, 120, None), Ok(()));
    assert_eq!(record_at(&accounts, 0), record(ALICE, 380));
    assert_eq!(record_at(&accounts, 1), record(BOB, 140));
    assert_eq!(accounts[0].lamports, 100);
    assert_eq!(accounts[1].lamports, 100);
}

#[test]
fn transfer_of_all_and_of_nothing() {
    let mut all = transfer_call(record(ALICE, 500), record(BOB, 0), wallet(ALICE, true));
    assert_eq!(process_transfer(&PROGRAM, &mut all, 500, None), Ok(()));
    assert_eq!(record_at(&all, 0).amount, 0);
    assert_eq!(record_at(&all, 1).amount, 500);
    let mut nothing = transfer_call(record(ALICE, 500), record(BOB, 0), wallet(ALICE, true));
    assert_eq!(process_transfer(&PROGRAM, &mut nothing, 0, None), Ok(()));
    assert_eq!(record_at(&nothing, 0).amount, 500);
    assert_eq!(record_at(&nothing, 1).amount, 0);
}

#[test]
fn transfer_beyond_balance_fails_and_changes_nothing() {
    let mut accounts = transfer_call(record(ALICE, 500), record(BOB, 20), wallet(ALICE, true));
    let snapshot = accounts.clone();
    assert_eq!(
        process_transfer(&PROGRAM, &mut accounts, 501, None),
        Err(TokenError::InsufficientFunds)
    );
    assert_eq!(accounts, snapshot);
}

#[test]
fn transfer_needs_the_owner_to_sign() {
    let mut unsigned = transfer_call(record(ALICE, 500), record(BOB, 20), wallet(ALICE, false));
    let snapshot = unsigned.clone();
    assert_eq!(
        process_transfer(&PROGRAM, &mut unsigned, 1, None),
        Err(TokenError::NotSignerOrOwner)
    );
    assert_eq!(unsigned, snapshot);
    let mut stranger = transfer_call(record(ALICE, 500), record(BOB, 20), wallet(CAROL, true));
    assert_eq!(
        process_transfer(&PROGRAM, &mut stranger, 1, None),
        Err(TokenError::NotSignerOrOwner)
    );
}

#[test]
fn transfer_checks_accounts_before_anything_else() {
    let mut short = vec![tokens(ALICE_TOKENS, record(ALICE, 5)), tokens(BOB_TOKENS, record(BOB, 5))];
    assert_eq!(
        process_transfer(&PROGRAM, &mut short, 1, None),
        Err(TokenError::NotEnoughAccountKeys)
    );
    let mut to_itself = vec![
        tokens(ALICE_TOKENS, record(ALICE, 5)),
        tokens(ALICE_TOKENS, record(ALICE, 5)),
        wallet(ALICE, true),
    ];
    let snapshot = to_itself.clone();
    assert_eq!(
        process_transfer(&PROGRAM, &mut to_itself, 1, None),
        Err(TokenError::InvalidAccountData)
    );
    assert_eq!(to_itself, snapshot);
    let mut uncreated = vec![
        tokens(ALICE_TOKENS, record(ALICE, 5)),
        held(BOB_TOKENS, 1, vec![0; 165]),
        wallet(ALICE, true),
    ];
    assert_eq!(
        process_transfer(&PROGRAM, &mut uncreated, 1, None),
        Err(TokenError::UninitializedAccount)
    );
    let mut truncated = vec![
        held(ALICE_TOKENS, 1, record(ALICE, 5).pack()[..100].to_vec()),
        tokens(BOB_TOKENS, record(BOB, 5)),
        wallet(ALICE, true),
    ];
    assert_eq!(
        process_transfer(&PROGRAM, &mut truncated, 1, None),
        Err(TokenError::InvalidAccountData)
    );
}

#[test]
fn transfer_between_mints_is_a_mismatch() {
    let foreign = TokenAccount { mint: OTHER_MINT, ..record(BOB, 20) };
    let mut accounts = transfer_call(record(ALICE, 500), foreign, wallet(ALICE, true));
    let snapshot = accounts.clone();
    assert_eq!(process_transfer(&PROGRAM, &mut accounts, 1, None), Err(TokenError::MintMismatch));
    assert_eq!(accounts, snapshot);
}

#[test]
fn transfer_that_would_overflow_fails() {
    let mut accounts =
        transfer_call(record(ALICE, 500), record(BOB, u64::MAX - 10), wallet(ALICE, true));
    let snapshot = accounts.clone();
    assert_eq!(process_transfer(&PROGRAM, &mut accounts, 11, None), Err(TokenError::Overflow));
    assert_eq!(accounts, snapshot);
    assert_eq!(process_transfer(&PROGRAM, &mut accounts, 10, None), Ok(()));
    assert_eq!(record_at(&accounts, 1).amount, u64::MAX);
}

#[test]
fn delegate_spends_within_the_allowance() {
    let from = TokenAccount { delegate: Some(CAROL), delegated_amount: 50, ..record(ALICE, 500) };
    let mut accounts = transfer_call(from, record(BOB, 0), wallet(CAROL, true));
    assert_eq!(process_transfer(&PROGRAM, &mut accounts, 30, None), Ok(()));
    let after = record_at(&accounts, 0);
    assert_eq!(after.amount, 470);
    assert_eq!(after.delegated_amount, 20);
    assert_eq!(after.delegate, Some(CAROL));
    let snapshot = accounts.clone();
    assert_eq!(
        process_transfer(&PROGRAM, &mut accounts, 21, None),
        Err(TokenError::InsufficientFunds)
    );
    assert_eq!(accounts, snapshot);
    assert_eq!(process_transfer(&PROGRAM, &mut accounts, 20, None), Ok(()));
    assert_eq!(record_at(&accounts, 0).delegated_amount, 0);
    assert_eq!(record_at(&accounts, 1).amount, 50);
}

#[test]
fn owner_is_not_bound_by_the_allowance() {
    let from = TokenAccount { delegate: Some(CAROL), delegated_amount: 50, ..record(ALICE, 500) };
    let mut accounts = transfer_call(from, record(BOB, 0), wallet(ALICE, true));
    assert_eq!(process_transfer(&PROGRAM, &mut accounts, 400, None), Ok(()));
    let after = record_at(&accounts, 0);
    assert_eq!(after.amount, 100);
    assert_eq!(after.delegated_amount, 50);
}

#[test]
fn checked_transfer_needs_the_decimals_of_the_mint() {
    let mut accounts =
        checked_transfer_call(record(ALICE, 500), record(BOB, 20), wallet(ALICE, true));
    let snapshot = accounts.clone();
    assert_eq!(
        process_transfer(&PROGRAM, &mut accounts, 100, Some(3)),
        Err(TokenError::DecimalMismatch)
    );
    assert_eq!(accounts, snapshot);
    assert_eq!(process_transfer(&PROGRAM, &mut accounts, 100, Some(2)), Ok(()));
    assert_eq!(record_at(&accounts, 0).amount, 400);
    assert_eq!(record_at(&accounts, 2).amount, 120);
    assert_eq!(accounts[1], snapshot[1]);
}

#[test]
fn checked_transfer_needs_the_mint_of_the_accounts() {
    let mut accounts =
        checked_transfer_call(record(ALICE, 500), record(BOB, 20), wallet(ALICE, true));
    accounts[1].key = OTHER_MINT;
    assert_eq!(
        process_transfer(&PROGRAM, &mut accounts, 100, Some(2)),
        Err(TokenError::MintMismatch)
    );
    accounts[1] = held(MINT, 1, vec![0; 82]);
    assert_eq!(
        process_transfer(&PROGRAM, &mut accounts, 100, Some(2)),
        Err(TokenError::UninitializedAccount)
    );
}

#[test]
fn native_transfer_moves_the_lamports_too() {
    let native = |owner, amount| TokenAccount {
        mint: NATIVE_MINT,
        is_native: Some(100),
        ..record(owner, amount)
    };
    let mut accounts = vec![
        held(ALICE_TOKENS, 600, native(ALICE, 500).pack()),
        held(BOB_TOKENS, 100, native(BOB, 0).pack()),
        wallet(ALICE, true),
    ];
    assert_eq!(process_transfer(&PROGRAM, &mut accounts, 200, None), Ok(()));
    assert_eq!(accounts[0].lamports, 400);
    assert_eq!(accounts[1].lamports, 300);
    assert_eq!(record_at(&accounts, 0).amount, 300);
    assert_eq!(record_at(&accounts, 1).amount, 200);

    let mut starved = vec![
        held(ALICE_TOKENS, 50, native(ALICE, 500).pack()),
        held(BOB_TOKENS, 100, native(BOB, 0).pack()),
        wallet(ALICE, true),
    ];
    let snapshot = starved.clone();
    assert_eq!(process_transfer(&PROGRAM, &mut starved, 200, None), Err(TokenError::Underflow));
    assert_eq!(starved, snapshot);

    let mut brimming = vec![
        held(ALICE_TOKENS, 600, native(ALICE, 500).pack()),
        held(BOB_TOKENS, u64::MAX - 5, native(BOB, 0).pack()),
        wallet(ALICE, true),
    ];
    let snapshot = brimming.clone();
    assert_eq!(process_transfer(&PROGRAM, &mut brimming, 200, None), Err(TokenError::Overflow));
    assert_eq!(brimming, snapshot);
}

#[test]
fn multisig_owner_authorises_a_transfer() {
    let mut signers = [[0u8; 32]; 11];
    signers[0] = ALICE;
    signers[1] = BOB;
    signers[2] = CAROL;
    let multisig = Multisig { m: 2, n: 3, is_initialized: true, signers };
    let authority = held(MINTER, 1, multisig.pack());
    let call = |signed: &[[u8; 32]]| {
        let mut accounts =
            transfer_call(record(MINTER, 500), record(BOB, 0), authority.clone());
        accounts.extend(signed.iter().map(|key| wallet(*key, true)));
        accounts
    };
    let mut one = call(&[ALICE]);
    let snapshot = one.clone();
    assert_eq!(process_transfer(&PROGRAM, &mut one, 5, None), Err(TokenError::NotEnoughSigners));
    assert_eq!(one, snapshot);
    let mut two = call(&[ALICE, BOB]);
    assert_eq!(process_transfer(&PROGRAM, &mut two, 5, None), Ok(()));
    assert_eq!(record_at(&two, 1).amount, 5);
    let mut stranger = call(&[ALICE, FREEZER]);
    assert_eq!(
        process_transfer(&PROGRAM, &mut stranger, 5, None),
        Err(TokenError::NotEnoughSigners)
    );
}

#[test]
fn approve_sets_delegate_and_allowance() {
    let mut accounts =
        vec![tokens(ALICE_TOKENS, record(ALICE, 500)), wallet(CAROL, false), wallet(ALICE, true)];
    assert_eq!(process_approve(&PROGRAM, &mut accounts, 70, None), Ok(()));
    let after = record_at(&accounts, 0);
    assert_eq!(after.delegate, Some(CAROL));
    assert_eq!(after.delegated_amount, 70);
    assert_eq!(after.amount, 500);

    let mut checked = vec![
        tokens(ALICE_TOKENS, record(ALICE, 500)),
        mint_account(500),
        wallet(CAROL, false),
        wallet(ALICE, true),
    ];
    let snapshot = checked.clone();
    assert_eq!(
        process_approve(&PROGRAM, &mut checked, 70, Some(9)),
        Err(TokenError::DecimalMismatch)
    );
    assert_eq!(checked, snapshot);
    assert_eq!(process_approve(&PROGRAM, &mut checked, 70, Some(2)), Ok(()));
    assert_eq!(record_at(&checked, 0).delegate, Some(CAROL));
}

#[test]
fn approve_needs_the_owner() {
    let mut accounts =
        vec![tokens(ALICE_TOKENS, record(ALICE, 500)), wallet(CAROL, true), wallet(BOB, true)];
    let snapshot = accounts.clone();
    assert_eq!(
        process_approve(&PROGRAM, &mut accounts, 70, None),
        Err(TokenError::NotSignerOrOwner)
    );
    assert_eq!(accounts, snapshot);
    accounts.pop();
    assert_eq!(
        process_approve(&PROGRAM, &mut accounts, 70, None),
        Err(TokenError::NotEnoughAccountKeys)
    );
}

#[test]
fn revoke_clears_delegate_and_allowance() {
    let from = TokenAccount { delegate: Some(CAROL), delegated_amount: 50, ..record(ALICE, 500) };
    let mut accounts = vec![tokens(ALICE_TOKENS, from), wallet(ALICE, true)];
    assert_eq!(process_revoke(&PROGRAM, &mut accounts), Ok(()));
    assert_eq!(record_at(&accounts, 0), record(ALICE, 500));
    assert_eq!(process_revoke(&PROGRAM, &mut accounts), Ok(()));
    assert_eq!(record_at(&accounts, 0), record(ALICE, 500));

    let mut by_delegate = vec![tokens(ALICE_TOKENS, from), wallet(CAROL, true)];
    let snapshot = by_delegate.clone();
    assert_eq!(process_revoke(&PROGRAM, &mut by_delegate), Err(TokenError::NotSignerOrOwner));
    assert_eq!(by_delegate, snapshot);

    let frozen = TokenAccount { state: AccountState::Frozen, ..from };
    let mut held_back = vec![tokens(ALICE_TOKENS, frozen), wallet(ALICE, true)];
    assert_eq!(process_revoke(&PROGRAM, &mut held_back), Ok(()));
    assert_eq!(record_at(&held_back, 0).delegate, None);
}

#[test]
fn mint_to_grows_balance_and_supply() {
    let mut accounts =
        vec![mint_account(1_000), tokens(ALICE_TOKENS, record(ALICE, 300)), wallet(MINTER, true)];
    assert_eq!(process_mint_to(&PROGRAM, &mut accounts, 250, None), Ok(()));
    assert_eq!(mint_at(&accounts, 0), mint_record(1_250));
    assert_eq!(record_at(&accounts, 1), record(ALICE, 550));
    assert_eq!(process_mint_to(&PROGRAM, &mut accounts, 50, Some(2)), Ok(()));
    assert_eq!(mint_at(&accounts, 0).supply, 1_300);
    let snapshot = accounts.clone();
    assert_eq!(
        process_mint_to(&PROGRAM, &mut accounts, 50, Some(6)),
        Err(TokenError::DecimalMismatch)
    );
    assert_eq!(accounts, snapshot);
}

#[test]
fn mint_to_needs_the_mint_authority() {
    let mut by_owner =
        vec![mint_account(1_000), tokens(ALICE_TOKENS, record(ALICE, 300)), wallet(ALICE, true)];
    let snapshot = by_owner.clone();
    assert_eq!(
        process_mint_to(&PROGRAM, &mut by_owner, 1, None),
        Err(TokenError::NotSignerOrOwner)
    );
    assert_eq!(by_owner, snapshot);
    let fixed = Mint { mint_authority: None, ..mint_record(1_000) };
    let mut fixed_supply = vec![
        held(MINT, 1, fixed.pack()),
        tokens(ALICE_TOKENS, record(ALICE, 300)),
        wallet(MINTER, true),
    ];
    assert_eq!(
        process_mint_to(&PROGRAM, &mut fixed_supply, 1, None),
        Err(TokenError::NotSignerOrOwner)
    );
}

#[test]
fn mint_to_checks_mint_and_range() {
    let foreign = TokenAccount { mint: OTHER_MINT, ..record(ALICE, 300) };
    let mut mismatch = vec![mint_account(1_000), tokens(ALICE_TOKENS, foreign), wallet(MINTER, true)];
    assert_eq!(process_mint_to(&PROGRAM, &mut mismatch, 1, None), Err(TokenError::MintMismatch));
    let mut full = vec![
        mint_account(u64::MAX - 1),
        tokens(ALICE_TOKENS, record(ALICE, 300)),
        wallet(MINTER, true),
    ];
    let snapshot = full.clone();
    assert_eq!(process_mint_to(&PROGRAM, &mut full, 2, None), Err(TokenError::Overflow));
    assert_eq!(full, snapshot);
    assert_eq!(process_mint_to(&PROGRAM, &mut full, 1, None), Ok(()));
    assert_eq!(mint_at(&full, 0).supply, u64::MAX);
}

#[test]
fn burn_shrinks_balance_and_supply() {
    let mut accounts =
        vec![tokens(ALICE_TOKENS, record(ALICE, 300)), mint_account(1_000), wallet(ALICE, true)];
    assert_eq!(process_burn(&PROGRAM, &mut accounts, 120, None), Ok(()));
    assert_eq!(record_at(&accounts, 0), record(ALICE, 180));
    assert_eq!(mint_at(&accounts, 1), mint_record(880));
    assert_eq!(process_burn(&PROGRAM, &mut accounts, 80, Some(2)), Ok(()));
    assert_eq!(record_at(&accounts, 0).amount, 100);
    assert_eq!(mint_at(&accounts, 1).supply, 800);
    let snapshot = accounts.clone();
    assert_eq!(
        process_burn(&PROGRAM, &mut accounts, 101, None),
        Err(TokenError::InsufficientFunds)
    );
    assert_eq!(accounts, snapshot);
    assert_eq!(
        process_burn(&PROGRAM, &mut accounts, 1, Some(0)),
        Err(TokenError::DecimalMismatch)
    );
    assert_eq!(accounts, snapshot);
}

#[test]
fn burn_needs_owner_or_delegate_not_the_mint_authority() {
    let mut by_minter =
        vec![tokens(ALICE_TOKENS, record(ALICE, 300)), mint_account(1_000), wallet(MINTER, true)];
    assert_eq!(
        process_burn(&PROGRAM, &mut by_minter, 1, None),
        Err(TokenError::NotSignerOrOwner)
    );
    let from = TokenAccount { delegate: Some(CAROL), delegated_amount: 10, ..record(ALICE, 300) };
    let mut by_delegate = vec![tokens(ALICE_TOKENS, from), mint_account(1_000), wallet(CAROL, true)];
    assert_eq!(process_burn(&PROGRAM, &mut by_delegate, 4, None), Ok(()));
    assert_eq!(record_at(&by_delegate, 0).delegated_amount, 6);
    assert_eq!(record_at(&by_delegate, 0).amount, 296);
    assert_eq!(
        process_burn(&PROGRAM, &mut by_delegate, 7, None),
        Err(TokenError::InsufficientFunds)
    );
}

#[test]
fn burn_beyond_the_supply_underflows() {
    let mut accounts =
        vec![tokens(ALICE_TOKENS, record(ALICE, 300)), mint_account(100), wallet(ALICE, true)];
    let snapshot = accounts.clone();
    assert_eq!(process_burn(&PROGRAM, &mut accounts, 200, None), Err(TokenError::Underflow));
    assert_eq!(accounts, snapshot);
}

#[test]
fn balances_add_up_to_the_supply_after_every_call() {
    let mut mint = vec![held(MINT, 1, vec![0; 82])];
    process_initialize_mint(&mut mint, false, 2, &MINTER, None).unwrap();
    let mut alice = vec![held(ALICE_TOKENS, 1, vec![0; 165]), mint[0].clone()];
    process_initialize_account3(&mut alice, &ALICE).unwrap();
    let mut bob = vec![held(BOB_TOKENS, 1, vec![0; 165]), mint[0].clone()];
    process_initialize_account3(&mut bob, &BOB).unwrap();
    let mut ledger = vec![mint[0].clone(), alice[0].clone(), bob[0].clone()];
    let total = |ledger: &[Account]| {
        (record_at(ledger, 1).amount + record_at(ledger, 2).amount, mint_at(ledger, 0).supply)
    };
    assert_eq!(total(&ledger), (0, 0));

    let mut call = vec![ledger[0].clone(), ledger[1].clone(), wallet(MINTER, true)];
    process_mint_to(&PROGRAM, &mut call, 1_000, None).unwrap();
    ledger[0] = call[0].clone();
    ledger[1] = call[1].clone();
    assert_eq!(total(&ledger), (1_000, 1_000));

    let mut call = vec![ledger[1].clone(), ledger[2].clone(), wallet(ALICE, true)];
    process_transfer(&PROGRAM, &mut call, 400, None).unwrap();
    ledger[1] = call[0].clone();
    ledger[2] = call[1].clone();
    assert_eq!(total(&ledger), (1_000, 1_000));
    assert_eq!(record_at(&ledger, 1).amount, 600);

    let mut call = vec![ledger[2].clone(), ledger[0].clone(), wallet(BOB, true)];
    process_burn(&PROGRAM, &mut call, 150, None).unwrap();
    ledger[2] = call[0].clone();
    ledger[0] = call[1].clone();
    assert_eq!(total(&ledger), (850, 850));

    let mut call = vec![ledger[1].clone(), ledger[2].clone(), wallet(ALICE, true)];
    assert!(process_transfer(&PROGRAM, &mut call, 601, None).is_err());
    assert_eq!(call[0], ledger[1]);
    assert_eq!(call[1], ledger[2]);
    assert_eq!(total(&ledger), (850, 850));
}

#[test]
fn freeze_and_thaw_toggle_the_state() {
    let mut accounts =
        vec![tokens(ALICE_TOKENS, record(ALICE, 300)), mint_account(300), wallet(FREEZER, true)];
    assert_eq!(process_freeze_account(&PROGRAM, &mut accounts), Ok(()));
    assert_eq!(record_at(&accounts, 0).state, AccountState::Frozen);
    assert_eq!(record_at(&accounts, 0).amount, 300);
    let snapshot = accounts.clone();
    assert_eq!(process_freeze_account(&PROGRAM, &mut accounts), Err(TokenError::AccountFrozen));
    assert_eq!(accounts, snapshot);
    assert_eq!(process_thaw_account(&PROGRAM, &mut accounts), Ok(()));
    assert_eq!(record_at(&accounts, 0), record(ALICE, 300));
    assert_eq!(process_thaw_account(&PROGRAM, &mut accounts), Err(TokenError::InvalidArgument));
    assert_eq!(process_set_frozen(&PROGRAM, &mut accounts, true), Ok(()));
    assert_eq!(record_at(&accounts, 0).state, AccountState::Frozen);
}

#[test]
fn freeze_needs_the_freeze_authority() {
    let mut by_owner =
        vec![tokens(ALICE_TOKENS, record(ALICE, 300)), mint_account(300), wallet(ALICE, true)];
    assert_eq!(
        process_freeze_account(&PROGRAM, &mut by_owner),
        Err(TokenError::NotSignerOrOwner)
    );
    let unfreezable = Mint { freeze_authority: None, ..mint_record(300) };
    let mut none = vec![
        tokens(ALICE_TOKENS, record(ALICE, 300)),
        held(MINT, 1, unfreezable.pack()),
        wallet(FREEZER, true),
    ];
    let snapshot = none.clone();
    assert_eq!(process_freeze_account(&PROGRAM, &mut none), Err(TokenError::NoFreezeAuthority));
    assert_eq!(none, snapshot);
    let mut wrong_mint = vec![
        tokens(ALICE_TOKENS, record(ALICE, 300)),
        held(OTHER_MINT, 1, mint_record(300).pack()),
        wallet(FREEZER, true),
    ];
    assert_eq!(process_freeze_account(&PROGRAM, &mut wrong_mint), Err(TokenError::MintMismatch));
}

#[test]
fn frozen_account_rejects_value_operations() {
    let mut freeze =
        vec![tokens(ALICE_TOKENS, record(ALICE, 300)), mint_account(300), wallet(FREEZER, true)];
    process_freeze_account(&PROGRAM, &mut freeze).unwrap();
    let frozen = freeze[0].clone();

    let mut as_source = vec![frozen.clone(), tokens(BOB_TOKENS, record(BOB, 0)), wallet(ALICE, true)];
    let snapshot = as_source.clone();
    assert_eq!(
        process_transfer(&PROGRAM, &mut as_source, 1, None),
        Err(TokenError::AccountFrozen)
    );
    assert_eq!(as_source, snapshot);

    let mut as_destination =
        vec![tokens(BOB_TOKENS, record(BOB, 9)), frozen.clone(), wallet(BOB, true)];
    assert_eq!(
        process_transfer(&PROGRAM, &mut as_destination, 1, None),
        Err(TokenError::AccountFrozen)
    );

    let mut checked = vec![
        frozen.clone(),
        mint_account(300),
        tokens(BOB_TOKENS, record(BOB, 0)),
        wallet(ALICE, true),
    ];
    assert_eq!(
        process_transfer(&PROGRAM, &mut checked, 1, Some(7)),
        Err(TokenError::AccountFrozen)
    );

    let mut approve = vec![frozen.clone(), wallet(CAROL, false), wallet(ALICE, true)];
    assert_eq!(process_approve(&PROGRAM, &mut approve, 1, None), Err(TokenError::AccountFrozen));

    let mut mint_to = vec![mint_account(300), frozen.clone(), wallet(MINTER, true)];
    let snapshot = mint_to.clone();
    assert_eq!(process_mint_to(&PROGRAM, &mut mint_to, 1, None), Err(TokenError::AccountFrozen));
    assert_eq!(mint_to, snapshot);

    let mut burn = vec![frozen.clone(), mint_account(300), wallet(ALICE, true)];
    assert_eq!(process_burn(&PROGRAM, &mut burn, 1, None), Err(TokenError::AccountFrozen));
}

#[test]
fn frozen_account_without_balance_can_be_closed() {
    let frozen = TokenAccount { state: AccountState::Frozen, ..record(ALICE, 0) };
    let mut accounts =
        vec![held(ALICE_TOKENS, 700, frozen.pack()), wallet(BOB, false), wallet(ALICE, true)];
    assert_eq!(process_close_account(&PROGRAM, &mut accounts), Ok(()));
    assert_eq!(accounts[0].lamports, 0);
    assert_eq!(accounts[0].data, vec![0u8; 165]);
    assert_eq!(accounts[1].lamports, 705);
    assert_eq!(read_token_account(&accounts[0].data), Err(TokenError::UninitializedAccount));
}

#[test]
fn account_with_balance_cannot_be_closed() {
    let mut accounts =
        vec![tokens(ALICE_TOKENS, record(ALICE, 1)), wallet(BOB, false), wallet(ALICE, true)];
    let snapshot = accounts.clone();
    assert_eq!(process_close_account(&PROGRAM, &mut accounts), Err(TokenError::NonZeroBalance));
    assert_eq!(accounts, snapshot);
}

#[test]
fn native_account_is_closed_with_its_balance() {
    let native = TokenAccount { mint: NATIVE_MINT, is_native: Some(100), ..record(ALICE, 400) };
    let mut accounts =
        vec![held(ALICE_TOKENS, 500, native.pack()), wallet(BOB, false), wallet(ALICE, true)];
    assert_eq!(process_close_account(&PROGRAM, &mut accounts), Ok(()));
    assert_eq!(accounts[0].lamports, 0);
    assert_eq!(accounts[1].lamports, 505);
}

#[test]
fn close_needs_owner_or_close_authority() {
    let closable = TokenAccount { close_authority: Some(CAROL), ..record(ALICE, 0) };
    let call = |authority: Account| vec![tokens(ALICE_TOKENS, closable), wallet(BOB, false), authority];
    let mut by_closer = call(wallet(CAROL, true));
    assert_eq!(process_close_account(&PROGRAM, &mut by_closer), Ok(()));
    let mut by_owner = call(wallet(ALICE, true));
    assert_eq!(process_close_account(&PROGRAM, &mut by_owner), Ok(()));
    let mut by_stranger = call(wallet(BOB, true));
    let snapshot = by_stranger.clone();
    assert_eq!(
        process_close_account(&PROGRAM, &mut by_stranger),
        Err(TokenError::NotSignerOrOwner)
    );
    assert_eq!(by_stranger, snapshot);
    let mut unsigned = call(wallet(CAROL, false));
    assert_eq!(process_close_account(&PROGRAM, &mut unsigned), Err(TokenError::NotSignerOrOwner));
}

#[test]
fn close_checks_accounts_and_lamports() {
    let mut into_itself = vec![
        tokens(ALICE_TOKENS, record(ALICE, 0)),
        tokens(ALICE_TOKENS, record(ALICE, 0)),
        wallet(ALICE, true),
    ];
    assert_eq!(
        process_close_account(&PROGRAM, &mut into_itself),
        Err(TokenError::InvalidAccountData)
    );
    let mut rich = wallet(BOB, false);
    rich.lamports = u64::MAX;
    let mut overflow = vec![tokens(ALICE_TOKENS, record(ALICE, 0)), rich, wallet(ALICE, true)];
    let snapshot = overflow.clone();
    assert_eq!(process_close_account(&PROGRAM, &mut overflow), Err(TokenError::Overflow));
    assert_eq!(overflow, snapshot);
    let mut short = vec![tokens(ALICE_TOKENS, record(ALICE, 0)), wallet(BOB, false)];
    assert_eq!(process_close_account(&PROGRAM, &mut short), Err(TokenError::NotEnoughAccountKeys));
}

#[test]
fn owner_of_an_account_is_reassigned() {
    let mut accounts = vec![tokens(ALICE_TOKENS, record(ALICE, 5)), wallet(ALICE, true)];
    assert_eq!(
        process_set_authority(&PROGRAM, &mut accounts, AuthorityType::AccountOwner, Some(BOB)),
        Ok(())
    );
    assert_eq!(record_at(&accounts, 0), record(BOB, 5));
    let snapshot = accounts.clone();
    assert_eq!(
        process_set_authority(&PROGRAM, &mut accounts, AuthorityType::AccountOwner, Some(CAROL)),
        Err(TokenError::NotSignerOrOwner)
    );
    assert_eq!(accounts, snapshot);
    accounts[1] = wallet(BOB, true);
    assert_eq!(
        process_set_authority(&PROGRAM, &mut accounts, AuthorityType::AccountOwner, None),
        Err(TokenError::InvalidArgument)
    );
    assert_eq!(record_at(&accounts, 0).owner, BOB);
}

#[test]
fn close_authority_is_set_and_removed() {
    let mut accounts = vec![tokens(ALICE_TOKENS, record(ALICE, 5)), wallet(ALICE, true)];
    assert_eq!(
        process_set_authority(&PROGRAM, &mut accounts, AuthorityType::CloseAccount, Some(CAROL)),
        Ok(())
    );
    assert_eq!(record_at(&accounts, 0).close_authority, Some(CAROL));
    assert_eq!(
        process_set_authority(&PROGRAM, &mut accounts, AuthorityType::CloseAccount, None),
        Err(TokenError::NotSignerOrOwner)
    );
    accounts[1] = wallet(CAROL, true);
    assert_eq!(
        process_set_authority(&PROGRAM, &mut accounts, AuthorityType::CloseAccount, None),
        Ok(())
    );
    assert_eq!(record_at(&accounts, 0), record(ALICE, 5));
}

#[test]
fn authorities_of_a_mint_are_removed_for_good() {
    let mut accounts = vec![mint_account(10), wallet(MINTER, true)];
    assert_eq!(
        process_set_authority(&PROGRAM, &mut accounts, AuthorityType::MintTokens, Some(ALICE)),
        Ok(())
    );
    assert_eq!(mint_at(&accounts, 0).mint_authority, Some(ALICE));
    accounts[1] = wallet(ALICE, true);
    assert_eq!(
        process_set_authority(&PROGRAM, &mut accounts, AuthorityType::MintTokens, None),
        Ok(())
    );
    assert_eq!(mint_at(&accounts, 0).mint_authority, None);
    let snapshot = accounts.clone();
    assert_eq!(
        process_set_authority(&PROGRAM, &mut accounts, AuthorityType::MintTokens, Some(ALICE)),
        Err(TokenError::NotSignerOrOwner)
    );
    assert_eq!(accounts, snapshot);

    accounts[1] = wallet(FREEZER, true);
    assert_eq!(
        process_set_authority(&PROGRAM, &mut accounts, AuthorityType::FreezeAccount, None),
        Ok(())
    );
    assert_eq!(mint_at(&accounts, 0).freeze_authority, None);
    assert_eq!(
        process_set_authority(&PROGRAM, &mut accounts, AuthorityType::FreezeAccount, Some(FREEZER)),
        Err(TokenError::NoFreezeAuthority)
    );
    assert_eq!(mint_at(&accounts, 0).supply, 10);
}

#[test]
fn authority_must_fit_its_target() {
    let mut account = vec![tokens(ALICE_TOKENS, record(ALICE, 5)), wallet(ALICE, true)];
    assert_eq!(
        process_set_authority(&PROGRAM, &mut account, AuthorityType::MintTokens, Some(BOB)),
        Err(TokenError::InvalidArgument)
    );
    assert_eq!(
        process_set_authority(&PROGRAM, &mut account, AuthorityType::FreezeAccount, Some(BOB)),
        Err(TokenError::InvalidArgument)
    );
    let mut mint = vec![mint_account(10), wallet(MINTER, true)];
    assert_eq!(
        process_set_authority(&PROGRAM, &mut mint, AuthorityType::AccountOwner, Some(BOB)),
        Err(TokenError::InvalidArgument)
    );
    assert_eq!(
        process_set_authority(&PROGRAM, &mut mint, AuthorityType::CloseAccount, Some(BOB)),
        Err(TokenError::InvalidArgument)
    );
    let mut neither = vec![held(CAROL, 1, vec![0; 355]), wallet(ALICE, true)];
    assert_eq!(
        process_set_authority(&PROGRAM, &mut neither, AuthorityType::AccountOwner, Some(BOB)),
        Err(TokenError::InvalidAccountData)
    );
    let mut short = vec![mint_account(10)];
    assert_eq!(
        process_set_authority(&PROGRAM, &mut short, AuthorityType::MintTokens, None),
        Err(TokenError::NotEnoughAccountKeys)
    );
}

#[test]
fn sync_native_raises_the_balance_to_the_lamports() {
    let native = TokenAccount { mint: NATIVE_MINT, is_native: Some(100), ..record(ALICE, 50) };
    let mut accounts = vec![held(ALICE_TOKENS, 400, native.pack())];
    assert_eq!(process_sync_native(&mut accounts), Ok(()));
    assert_eq!(record_at(&accounts, 0).amount, 300);
    assert_eq!(accounts[0].lamports, 400);
    assert_eq!(process_sync_native(&mut accounts), Ok(()));
    assert_eq!(record_at(&accounts, 0).amount, 300);
}

#[test]
fn sync_native_never_lowers_the_balance() {
    let native = TokenAccount { mint: NATIVE_MINT, is_native: Some(100), ..record(ALICE, 350) };
    let mut lower = vec![held(ALICE_TOKENS, 400, native.pack())];
    let snapshot = lower.clone();
    assert_eq!(process_sync_native(&mut lower), Err(TokenError::InvalidAccountData));
    assert_eq!(lower, snapshot);
    let mut below_reserve = vec![held(ALICE_TOKENS, 99, native.pack())];
    assert_eq!(process_sync_native(&mut below_reserve), Err(TokenError::Underflow));
}

#[test]
fn sync_native_is_for_usable_native_accounts() {
    let mut plain = vec![tokens(ALICE_TOKENS, record(ALICE, 5))];
    let snapshot = plain.clone();
    assert_eq!(process_sync_native(&mut plain), Err(TokenError::InvalidAccountData));
    assert_eq!(plain, snapshot);
    let frozen = TokenAccount {
        mint: NATIVE_MINT,
        is_native: Some(100),
        state: AccountState::Frozen,
        ..record(ALICE, 5)
    };
    let mut held_back = vec![held(ALICE_TOKENS, 400, frozen.pack())];
    assert_eq!(process_sync_native(&mut held_back), Err(TokenError::AccountFrozen));
    let mut none: Vec<Account> = Vec::new();
    assert_eq!(process_sync_native(&mut none), Err(TokenError::NotEnoughAccountKeys));
}

#[test]
fn size_of_an_account_is_told_for_a_created_mint() {
    let accounts = vec![mint_account(0)];
    assert_eq!(process_get_account_data_size(&accounts), Ok(165u64.to_le_bytes().to_vec()));
    let blank = vec![held(MINT, 1, vec![0; 82])];
    assert_eq!(process_get_account_data_size(&blank), Err(TokenError::UninitializedAccount));
    assert_eq!(process_get_account_data_size(&Vec::new()), Err(TokenError::NotEnoughAccountKeys));
}

#[test]
fn immutable_owner_is_for_fresh_accounts() {
    let fresh = vec![held(ALICE_TOKENS, 1, vec![0; 165])];
    assert_eq!(process_initialize_immutable_owner(&fresh), Ok(()));
    let taken = vec![tokens(ALICE_TOKENS, record(ALICE, 0))];
    assert_eq!(
        process_initialize_immutable_owner(&taken),
        Err(TokenError::AccountAlreadyInitialized)
    );
    let wrong = vec![mint_account(0)];
    assert_eq!(process_initialize_immutable_owner(&wrong), Err(TokenError::InvalidAccountData));
    assert_eq!(
        process_initialize_immutable_owner(&Vec::new()),
        Err(TokenError::NotEnoughAccountKeys)
    );
}

#[test]
fn amounts_are_converted_at_the_decimals_of_the_mint() {
    let accounts = vec![mint_account(0)];
    assert_eq!(process_amount_to_ui_amount(&accounts, 12_345), Ok(b"123.45".to_vec()));
    assert_eq!(process_amount_to_ui_amount(&accounts, 12_300), Ok(b"123".to_vec()));
    assert_eq!(process_ui_amount_to_amount(&accounts, "123.45"), Ok(12_345u64.to_le_bytes().to_vec()));
    assert_eq!(process_ui_amount_to_amount(&accounts, "123.456"), Err(TokenError::InvalidArgument));
    assert_eq!(
        process_ui_amount_to_amount(&accounts, "184467440737095516.16"),
        Err(TokenError::Overflow)
    );
    let blank = vec![held(MINT, 1, vec![0; 82])];
    assert_eq!(process_amount_to_ui_amount(&blank, 1), Err(TokenError::UninitializedAccount));
    assert_eq!(process_ui_amount_to_amount(&blank, "1"), Err(TokenError::UninitializedAccount));
    assert_eq!(process_amount_to_ui_amount(&Vec::new(), 1), Err(TokenError::NotEnoughAccountKeys));
    assert_eq!(process_ui_amount_to_amount(&Vec::new(), "1"), Err(TokenError::NotEnoughAccountKeys));
}
