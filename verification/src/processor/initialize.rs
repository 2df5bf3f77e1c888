//! InitializeMint, InitializeAccount and InitializeMultisig, in all their
//! variants: creating the three kinds of record.

use pinocchio::pubkey::Pubkey;
use vstd::prelude::*;

use crate::account::{set_data, views, with_data, Account, AccountView};
use crate::error::TokenError;
use crate::mint::{parse_mint, Mint};
use crate::multisig::{multisig_bytes, parse_multisig, Multisig, MAX_SIGNERS};
use crate::processor::shared::{
    load_mint, mint_at, outcome_is, store_mint, store_token_account, with_mint,
    with_token_account,
};
use crate::pubkey::{keys_equal, new_zero_key, zero_key, NATIVE_MINT};
use crate::token_account::{parse_token_account, AccountState, TokenAccount};

verus! {

/// The mint that an initialisation writes.
pub open spec fn new_mint(
    decimals: u8,
    mint_authority: Pubkey,
    freeze_authority: Option<Pubkey>,
) -> Mint {
    Mint {
        mint_authority: Some(mint_authority),
        supply: 0,
        decimals,
        is_initialized: true,
        freeze_authority,
    }
}

/// What creating a mint does to the accounts of the call, of which
/// `required` must be present: the first holds the mint.
///
/// The buffer holds a mint record that has not been created
/// (`AccountAlreadyInitialized`). Then it holds a created mint with the
/// given decimals and authorities and no supply.
pub open spec fn initialize_mint(
    accounts: Seq<AccountView>,
    required: nat,
    decimals: u8,
    mint_authority: Pubkey,
    freeze_authority: Option<Pubkey>,
) -> Result<Seq<AccountView>, TokenError> {
    if accounts.len() < required || accounts.len() < 1 {
        Err(TokenError::NotEnoughAccountKeys)
    } else {
        match parse_mint(accounts[0].data) {
            Err(e) => Err(e),
            Ok(mint) => if mint.is_initialized {
                Err(TokenError::AccountAlreadyInitialized)
            } else {
                Ok(with_mint(accounts, 0, new_mint(decimals, mint_authority, freeze_authority)))
            },
        }
    }
}

/// The token account that an initialisation writes for `owner` and the mint
/// `mint`, into an account that holds `lamports`. An account of the native
/// mint wraps the native asset, with all that it holds as its reserve.
pub open spec fn new_token_account(mint: Pubkey, owner: Pubkey, lamports: u64) -> TokenAccount {
    TokenAccount {
        mint,
        owner,
        amount: 0,
        delegate: None,
        state: AccountState::Initialized,
        is_native: if mint == NATIVE_MINT {
            Some(lamports)
        } else {
            None
        },
        delegated_amount: 0,
        close_authority: None,
    }
}

/// What creating a token account for `owner` does to the accounts of the
/// call, of which `required` must be present: the first holds the account,
/// the second is its mint.
///
/// The buffer holds a token account record that has not been created
/// (`AccountAlreadyInitialized`), and the mint is created. Then the buffer
/// holds a created account of that mint with no balance.
pub open spec fn initialize_account(
    accounts: Seq<AccountView>,
    required: nat,
    owner: Pubkey,
) -> Result<Seq<AccountView>, TokenError> {
    if accounts.len() < required || accounts.len() < 2 {
        Err(TokenError::NotEnoughAccountKeys)
    } else {
        match parse_token_account(accounts[0].data) {
            Err(e) => Err(e),
            Ok(account) => if account.state != AccountState::Uninitialized {
                Err(TokenError::AccountAlreadyInitialized)
            } else {
                match mint_at(accounts, 1) {
                    Err(e) => Err(e),
                    Ok(_) => Ok(
                        with_token_account(
                            accounts,
                            0,
                            new_token_account(accounts[1].key, owner, accounts[0].lamports),
                        ),
                    ),
                }
            },
        }
    }
}

/// The addresses of the accounts of the call from `first` on: the signers
/// that a multisig is to register.
pub open spec fn signer_accounts(accounts: Seq<AccountView>, first: int) -> Seq<Pubkey> {
    Seq::new((accounts.len() - first) as nat, |i: int| accounts[first + i].key)
}

/// Whether `slots` hold `keys` in their order, and the zero principal behind
/// them.
pub open spec fn slots_hold(slots: [Pubkey; 11], keys: Seq<Pubkey>) -> bool {
    forall|i: int|
        0 <= i < 11 ==> #[trigger] slots[i] == if i < keys.len() {
            keys[i]
        } else {
            zero_key()
        }
}

/// The eleven signer slots that register `keys`.
pub open spec fn slots_of(keys: Seq<Pubkey>) -> [Pubkey; 11] {
    choose|slots: [Pubkey; 11]| #[trigger] slots_hold(slots, keys)
}

/// The multisig that an initialisation writes.
pub open spec fn new_multisig(m: u8, keys: Seq<Pubkey>) -> Multisig {
    Multisig { m, n: keys.len() as u8, is_initialized: true, signers: slots_of(keys) }
}

/// What creating a multisig that requires `m` signers does to the accounts
/// of the call: the first holds the multisig, and those from `first` on are
/// the signers to register.
///
/// The buffer holds a multisig record that has not been created
/// (`AccountAlreadyInitialized`). Between 1 and 11 signers are given, no one
/// twice, and `m` is between 1 and their number (`InvalidArgument`). Then the
/// buffer holds a created multisig that registers them in their order.
pub open spec fn initialize_multisig(accounts: Seq<AccountView>, first: int, m: u8) -> Result<
    Seq<AccountView>,
    TokenError,
> {
    if accounts.len() < first {
        Err(TokenError::NotEnoughAccountKeys)
    } else {
        let keys = signer_accounts(accounts, first);
        match parse_multisig(accounts[0].data) {
            Err(e) => Err(e),
            Ok(multisig) => if multisig.is_initialized {
                Err(TokenError::AccountAlreadyInitialized)
            } else if keys.len() < 1 || keys.len() > MAX_SIGNERS {
                Err(TokenError::InvalidArgument)
            } else if m < 1 || m > keys.len() {
                Err(TokenError::InvalidArgument)
            } else if !keys.no_duplicates() {
                Err(TokenError::InvalidArgument)
            } else {
                Ok(with_data(accounts, 0, multisig_bytes(new_multisig(m, keys))))
            },
        }
    }
}

/// Eleven slots that hold `keys` are the slots that register `keys`.
pub proof fn lemma_slots_of(slots: [Pubkey; 11], keys: Seq<Pubkey>)
    requires
        slots_hold(slots, keys),
    ensures
        slots_of(keys) == slots,
{
    let chosen = slots_of(keys);
    assert(slots_hold(chosen, keys));
    assert forall|i: int| 0 <= i < 11 implies chosen[i] == slots[i] by {
        assert(chosen[i] == if i < keys.len() {
            keys[i]
        } else {
            zero_key()
        });
    }
    assert(chosen =~= slots);
}

/// Creates the mint of the call, as `initialize_mint` says. The variant that
/// goes back to the rent sysvar (`with_rent`) needs that account to be present.
pub fn process_initialize_mint(
    accounts: &mut Vec<Account>,
    with_rent: bool,
    decimals: u8,
    mint_authority: &Pubkey,
    freeze_authority: Option<Pubkey>,
) -> (done: Result<(), TokenError>)
    ensures
        outcome_is(
            done,
            old(accounts)@,
            final(accounts)@,
            initialize_mint(
                views(old(accounts)@),
                if with_rent {
                    2
                } else {
                    1
                },
                decimals,
                *mint_authority,
                freeze_authority,
            ),
        ),
{
    let required: usize = if with_rent {
        2
    } else {
        1
    };
    if accounts.len() < required {
        return Err(TokenError::NotEnoughAccountKeys);
    }
    let current = Mint::unpack(accounts[0].data.as_slice())?;
    if current.is_initialized {
        return Err(TokenError::AccountAlreadyInitialized);
    }
    let mint = Mint {
        mint_authority: Some(*mint_authority),
        supply: 0,
        decimals,
        is_initialized: true,
        freeze_authority,
    };
    store_mint(accounts, 0, &mint);
    Ok(())
}

/// Creates the token account of the call for `owner`, as
/// `initialize_account` says, where the call must name `required` accounts.
pub fn process_initialize_account_for(
    accounts: &mut Vec<Account>,
    required: usize,
    owner: &Pubkey,
) -> (done: Result<(), TokenError>)
    ensures
        outcome_is(
            done,
            old(accounts)@,
            final(accounts)@,
            initialize_account(views(old(accounts)@), required as nat, *owner),
        ),
{
    if accounts.len() < required || accounts.len() < 2 {
        return Err(TokenError::NotEnoughAccountKeys);
    }
    let current = TokenAccount::unpack(accounts[0].data.as_slice())?;
    match current.state {
        AccountState::Uninitialized => {},
        _ => {
            return Err(TokenError::AccountAlreadyInitialized);
        },
    }
    load_mint(accounts, 1)?;
    let mint = accounts[1].key;
    let is_native = if keys_equal(&mint, &NATIVE_MINT) {
        Some(accounts[0].lamports)
    } else {
        None
    };
    let account = TokenAccount {
        mint,
        owner: *owner,
        amount: 0,
        delegate: None,
        state: AccountState::Initialized,
        is_native,
        delegated_amount: 0,
        close_authority: None,
    };
    store_token_account(accounts, 0, &account);
    Ok(())
}

/// Creates the token account of the call for the owner that the call names
/// as its third account, behind account and mint and before the rent sysvar.
pub fn process_initialize_account(accounts: &mut Vec<Account>) -> (done: Result<(), TokenError>)
    ensures
        old(accounts)@.len() < 4 ==> done == Err::<(), TokenError>(
            TokenError::NotEnoughAccountKeys,
        ) && final(accounts)@ == old(accounts)@,
        old(accounts)@.len() >= 4 ==> outcome_is(
            done,
            old(accounts)@,
            final(accounts)@,
            initialize_account(views(old(accounts)@), 4, old(accounts)@[2].key),
        ),
{
    if accounts.len() < 4 {
        return Err(TokenError::NotEnoughAccountKeys);
    }
    let owner = accounts[2].key;
    process_initialize_account_for(accounts, 4, &owner)
}

/// Creates the token account of the call for `owner`; the call names
/// account, mint and the rent sysvar.
pub fn process_initialize_account2(accounts: &mut Vec<Account>, owner: &Pubkey) -> (done: Result<
    (),
    TokenError,
>)
    ensures
        outcome_is(
            done,
            old(accounts)@,
            final(accounts)@,
            initialize_account(views(old(accounts)@), 3, *owner),
        ),
{
    process_initialize_account_for(accounts, 3, owner)
}

/// Creates the token account of the call for `owner`; the call names account
/// and mint.
pub fn process_initialize_account3(accounts: &mut Vec<Account>, owner: &Pubkey) -> (done: Result<
    (),
    TokenError,
>)
    ensures
        outcome_is(
            done,
            old(accounts)@,
            final(accounts)@,
            initialize_account(views(old(accounts)@), 2, *owner),
        ),
{
    process_initialize_account_for(accounts, 2, owner)
}

/// Whether no two of the accounts from `first` on have one address.
fn signers_distinct(accounts: &Vec<Account>, first: usize) -> (distinct: bool)
    requires
        first <= accounts@.len(),
    ensures
        distinct == signer_accounts(views(accounts@), first as int).no_duplicates(),
{
    let ghost keys = signer_accounts(views(accounts@), first as int);
    let mut i: usize = first;
    while i < accounts.len()
        invariant
            first <= i <= accounts.len(),
            keys == signer_accounts(views(accounts@), first as int),
            forall|a: int, b: int|
                0 <= a < b < i - first ==> #[trigger] keys[a] != #[trigger] keys[b],
        decreases accounts.len() - i,
    {
        let mut j: usize = first;
        while j < i
            invariant
                first <= j <= i < accounts.len(),
                keys == signer_accounts(views(accounts@), first as int),
                forall|a: int| 0 <= a < j - first ==> #[trigger] keys[a] != keys[i - first],
            decreases i - j,
        {
            if keys_equal(&accounts[j].key, &accounts[i].key) {
                assert(keys[j - first] == keys[i - first]);
                return false;
            }
            j += 1;
        }
        i += 1;
    }
    true
}

/// Creates the multisig of the call, requiring `m` of the signers that the
/// call names, as `initialize_multisig` says. The variant that goes back to
/// the rent sysvar (`with_rent`) names it before the signers.
pub fn process_initialize_multisig(accounts: &mut Vec<Account>, m: u8, with_rent: bool) -> (done:
    Result<(), TokenError>)
    ensures
        outcome_is(
            done,
            old(accounts)@,
            final(accounts)@,
            initialize_multisig(
                views(old(accounts)@),
                if with_rent {
                    2
                } else {
                    1
                },
                m,
            ),
        ),
{
    let first: usize = if with_rent {
        2
    } else {
        1
    };
    if accounts.len() < first {
        return Err(TokenError::NotEnoughAccountKeys);
    }
    let ghost keys = signer_accounts(views(accounts@), first as int);
    let current = Multisig::unpack(accounts[0].data.as_slice())?;
    if current.is_initialized {
        return Err(TokenError::AccountAlreadyInitialized);
    }
    let n = accounts.len() - first;
    if n < 1 || n > MAX_SIGNERS {
        return Err(TokenError::InvalidArgument);
    }
    if m < 1 || m as usize > n {
        return Err(TokenError::InvalidArgument);
    }
    if !signers_distinct(accounts, first) {
        return Err(TokenError::InvalidArgument);
    }
    let mut signers: [Pubkey; 11] = [new_zero_key(); 11];
    let mut i: usize = 0;
    while i < n
        invariant
            i <= n <= 11,
            n == accounts.len() - first,
            keys == signer_accounts(views(accounts@), first as int),
            forall|k: int|
                0 <= k < 11 ==> #[trigger] signers[k] == if k < i {
                    keys[k]
                } else {
                    zero_key()
                },
        decreases n - i,
    {
        signers[i] = accounts[first + i].key;
        i += 1;
    }
    proof {
        lemma_slots_of(signers, keys);
    }
    let multisig = Multisig { m, n: n as u8, is_initialized: true, signers };
    set_data(accounts, 0, multisig.pack());
    Ok(())
}

} // verus!
