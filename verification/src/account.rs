//! The accounts that a call works on, as the engine sees them.

use pinocchio::pubkey::Pubkey;
use vstd::prelude::*;

use crate::pubkey::keys_equal;

verus! {

/// One account of a call: its address, what the hosting runtime says of it,
/// and the storage buffer that holds its record.
#[derive(Clone, Debug, PartialEq, Eq)]
pub struct Account {
    /// The address of the account.
    pub key: Pubkey,
    /// The program that owns the account.
    pub owner: Pubkey,
    /// The native balance of the account.
    pub lamports: u64,
    /// The storage buffer.
    pub data: Vec<u8>,
    /// Whether the runtime has authenticated the account as a signer of the call.
    pub is_signer: bool,
}

/// An account as a value: the buffer is the sequence of its bytes.
pub struct AccountView {
    /// The address of the account.
    pub key: Pubkey,
    /// The program that owns the account.
    pub owner: Pubkey,
    /// The native balance of the account.
    pub lamports: u64,
    /// The bytes of the storage buffer.
    pub data: Seq<u8>,
    /// Whether the account has signed the call.
    pub is_signer: bool,
}

impl View for Account {
    type V = AccountView;

    open spec fn view(&self) -> AccountView {
        AccountView {
            key: self.key,
            owner: self.owner,
            lamports: self.lamports,
            data: self.data@,
            is_signer: self.is_signer,
        }
    }
}

/// The accounts of a call as values, in the order of the call.
pub open spec fn views(accounts: Seq<Account>) -> Seq<AccountView> {
    Seq::new(accounts.len(), |i: int| accounts[i]@)
}

/// The principals that have signed the call.
pub open spec fn signer_keys(accounts: Seq<AccountView>) -> Set<Pubkey> {
    Set::new(
        |key: Pubkey|
            exists|i: int|
                0 <= i < accounts.len() && (#[trigger] accounts[i]).is_signer && accounts[i].key
                    == key,
    )
}

/// `accounts` with the buffer of account `index` replaced by `data`.
pub open spec fn with_data(accounts: Seq<AccountView>, index: int, data: Seq<u8>) -> Seq<
    AccountView,
> {
    accounts.update(index, AccountView { data, ..accounts[index] })
}

/// `accounts` with the native balance of account `index` replaced by `lamports`.
pub open spec fn with_lamports(accounts: Seq<AccountView>, index: int, lamports: u64) -> Seq<
    AccountView,
> {
    accounts.update(index, AccountView { lamports, ..accounts[index] })
}

/// Whether `key` has signed the call.
pub fn has_signed(accounts: &Vec<Account>, key: &Pubkey) -> (signed: bool)
    ensures
        signed == signer_keys(views(accounts@)).contains(*key),
{
    let mut i: usize = 0;
    while i < accounts.len()
        invariant
            i <= accounts.len(),
            forall|k: int|
                0 <= k < i ==> !((#[trigger] views(accounts@)[k]).is_signer && views(
                    accounts@,
                )[k].key == *key),
        decreases accounts.len() - i,
    {
        if accounts[i].is_signer && keys_equal(&accounts[i].key, key) {
            assert(views(accounts@)[i as int].is_signer && views(accounts@)[i as int].key == *key);
            return true;
        }
        i += 1;
    }
    false
}

/// Replaces the buffer of account `index`.
pub(crate) fn set_data(accounts: &mut Vec<Account>, index: usize, data: Vec<u8>)
    requires
        index < old(accounts)@.len(),
    ensures
        views(final(accounts)@) == with_data(views(old(accounts)@), index as int, data@),
        final(accounts)@.len() == old(accounts)@.len(),
{
    let account = Account {
        key: accounts[index].key,
        owner: accounts[index].owner,
        lamports: accounts[index].lamports,
        data,
        is_signer: accounts[index].is_signer,
    };
    accounts[index] = account;
    assert(views(accounts@) =~= with_data(views(old(accounts)@), index as int, data@));
}

/// Replaces the native balance of account `index`.
pub(crate) fn set_lamports(accounts: &mut Vec<Account>, index: usize, lamports: u64)
    requires
        index < old(accounts)@.len(),
    ensures
        views(final(accounts)@) == with_lamports(views(old(accounts)@), index as int, lamports),
        final(accounts)@.len() == old(accounts)@.len(),
{
    accounts[index].lamports = lamports;
    assert(views(accounts@) =~= with_lamports(views(old(accounts)@), index as int, lamports));
}

} // verus!
