//! The authority validator: the one place that decides whether the signers of
//! a call satisfy a claimed authority.

use pinocchio::pubkey::Pubkey;
use vstd::prelude::*;

use crate::account::{has_signed, signer_keys, views, Account, AccountView};
use crate::error::TokenError;
use crate::multisig::{parse_multisig, Multisig, MAX_SIGNERS, MULTISIG_LEN};
use crate::pubkey::keys_equal;

verus! {

/// An authority as it is resolved for one call.
#[derive(Clone, Copy, Debug, PartialEq, Eq)]
pub enum Authority {
    /// One principal, who must sign.
    Single(Pubkey),
    /// A multisig record, of whose registered signers enough must sign.
    Multisig(Multisig),
}

/// How many registered signers of `multisig` are among `signers`. A signer
/// counts once, however often it was registered or has signed.
pub open spec fn signatures(multisig: Multisig, signers: Set<Pubkey>) -> nat {
    multisig.registered().to_set().intersect(signers).len()
}

/// Whether `signers` satisfy `authority`, and the error if they do not.
pub open spec fn authority_satisfied(authority: Authority, signers: Set<Pubkey>) -> Result<
    (),
    TokenError,
> {
    match authority {
        Authority::Single(key) => if signers.contains(key) {
            Ok(())
        } else {
            Err(TokenError::NotSignerOrOwner)
        },
        Authority::Multisig(multisig) => if !multisig.is_initialized {
            Err(TokenError::InvalidArgument)
        } else if signatures(multisig, signers) < multisig.m {
            Err(TokenError::NotEnoughSigners)
        } else {
            Ok(())
        },
    }
}

/// Whether an account holds a multisig record: it belongs to the program and
/// its buffer has the size of one.
pub open spec fn holds_multisig(program_id: Pubkey, account: AccountView) -> bool {
    account.owner == program_id && account.data.len() == MULTISIG_LEN
}

/// The authority that `account` stands for: the multisig in its buffer where
/// it holds one, else its own address.
pub open spec fn resolved_authority(program_id: Pubkey, account: AccountView) -> Result<
    Authority,
    TokenError,
> {
    if holds_multisig(program_id, account) {
        match parse_multisig(account.data) {
            Ok(multisig) => Ok(Authority::Multisig(multisig)),
            Err(e) => Err(e),
        }
    } else {
        Ok(Authority::Single(account.key))
    }
}

/// Whether the call is authorised by `expected`, presented as account
/// `index`: the call names that account, it is `expected`, and the signers of
/// the call satisfy the authority that it stands for.
pub open spec fn authorized(
    program_id: Pubkey,
    expected: Pubkey,
    accounts: Seq<AccountView>,
    index: int,
) -> Result<(), TokenError> {
    if !(0 <= index < accounts.len()) {
        Err(TokenError::NotEnoughAccountKeys)
    } else if accounts[index].key != expected {
        Err(TokenError::NotSignerOrOwner)
    } else {
        match resolved_authority(program_id, accounts[index]) {
            Ok(authority) => authority_satisfied(authority, signer_keys(accounts)),
            Err(e) => Err(e),
        }
    }
}

/// The registered signers among the first `i` that have signed.
pub open spec fn signed_prefix(registered: Seq<Pubkey>, i: int, signers: Set<Pubkey>) -> Set<
    Pubkey,
> {
    registered.subrange(0, i).to_set().intersect(signers)
}

/// Looking at one more registered signer adds one signature where that
/// signer has signed and was not registered before, and none otherwise.
pub proof fn lemma_signed_prefix_step(registered: Seq<Pubkey>, i: int, signers: Set<Pubkey>)
    requires
        0 <= i < registered.len(),
    ensures
        signed_prefix(registered, i, signers).finite(),
        signed_prefix(registered, i + 1, signers).finite(),
        signed_prefix(registered, i + 1, signers).len() == signed_prefix(
            registered,
            i,
            signers,
        ).len() + if signers.contains(registered[i]) && !registered.subrange(0, i).contains(
            registered[i],
        ) {
            1nat
        } else {
            0nat
        },
{
    broadcast use vstd::seq_lib::seq_to_set_is_finite;
    broadcast use vstd::set::group_set_axioms;

    let before = registered.subrange(0, i);
    let after = registered.subrange(0, i + 1);
    let key = registered[i];
    assert(after =~= before.push(key));
    assert forall|k: Pubkey| after.to_set().contains(k) <==> (before.to_set().contains(k) || k
        == key) by {
        if before.contains(k) {
            let j = choose|j: int| 0 <= j < before.len() && before[j] == k;
            assert(after[j] == k);
        }
        if k == key {
            assert(after[i] == k);
        }
        if after.contains(k) {
            let j = choose|j: int| 0 <= j < after.len() && after[j] == k;
            if j < i {
                assert(before[j] == k);
            }
        }
    }
    if signers.contains(key) {
        assert(signed_prefix(registered, i + 1, signers) =~= signed_prefix(
            registered,
            i,
            signers,
        ).insert(key));
        assert(signed_prefix(registered, i, signers).contains(key) <==> before.contains(key));
    } else {
        assert(signed_prefix(registered, i + 1, signers) =~= signed_prefix(
            registered,
            i,
            signers,
        ));
    }
}

/// Whether `key` stands in one of the first `i` signer slots.
fn registered_before(multisig: &Multisig, i: usize, key: &Pubkey) -> (found: bool)
    requires
        i <= multisig.registered().len(),
    ensures
        found == multisig.registered().subrange(0, i as int).contains(*key),
{
    let ghost prefix = multisig.registered().subrange(0, i as int);
    let mut j: usize = 0;
    while j < i
        invariant
            j <= i <= multisig.registered().len() <= 11,
            prefix == multisig.registered().subrange(0, i as int),
            forall|k: int| 0 <= k < j ==> prefix[k] != *key,
        decreases i - j,
    {
        if keys_equal(&multisig.signers[j], key) {
            assert(prefix[j as int] == *key);
            return true;
        }
        j += 1;
    }
    false
}

/// Counts the registered signers of `multisig` that have signed the call.
pub fn count_signatures(multisig: &Multisig, accounts: &Vec<Account>) -> (count: u8)
    ensures
        count == signatures(*multisig, signer_keys(views(accounts@))),
        count <= multisig.registered().len(),
{
    let n: usize = if multisig.n as usize <= MAX_SIGNERS {
        multisig.n as usize
    } else {
        MAX_SIGNERS
    };
    let ghost registered = multisig.registered();
    let ghost signers = signer_keys(views(accounts@));
    let mut count: u8 = 0;
    let mut i: usize = 0;
    proof {
        assert(signed_prefix(registered, 0, signers) =~= Set::<Pubkey>::empty());
    }
    while i < n
        invariant
            i <= n <= 11,
            n == multisig.registered().len(),
            registered == multisig.registered(),
            signers == signer_keys(views(accounts@)),
            count <= i,
            count == signed_prefix(registered, i as int, signers).len(),
        decreases n - i,
    {
        let key = multisig.signers[i];
        proof {
            lemma_signed_prefix_step(registered, i as int, signers);
        }
        if !registered_before(multisig, i, &key) && has_signed(accounts, &key) {
            count += 1;
        }
        i += 1;
    }
    assert(registered.subrange(0, n as int) =~= registered);
    count
}

/// Decides whether the signers of the call satisfy `authority`.
///
/// A single principal must have signed. Of a multisig, at least `m` distinct
/// registered signers must have signed: a multisig that was never created
/// fails with `InvalidArgument`, too few signatures with `NotEnoughSigners`.
pub fn require_authority(authority: &Authority, accounts: &Vec<Account>) -> (verdict: Result<
    (),
    TokenError,
>)
    ensures
        verdict == authority_satisfied(*authority, signer_keys(views(accounts@))),
{
    match authority {
        Authority::Single(key) => {
            if has_signed(accounts, key) {
                Ok(())
            } else {
                Err(TokenError::NotSignerOrOwner)
            }
        },
        Authority::Multisig(multisig) => {
            if !multisig.is_initialized {
                Err(TokenError::InvalidArgument)
            } else if count_signatures(multisig, accounts) < multisig.m {
                Err(TokenError::NotEnoughSigners)
            } else {
                Ok(())
            }
        },
    }
}

/// Resolves the authority that `account` stands for.
pub fn resolve_authority(program_id: &Pubkey, account: &Account) -> (authority: Result<
    Authority,
    TokenError,
>)
    ensures
        authority == resolved_authority(*program_id, account@),
{
    if keys_equal(&account.owner, program_id) && account.data.len() == MULTISIG_LEN {
        match Multisig::unpack(account.data.as_slice()) {
            Ok(multisig) => Ok(Authority::Multisig(multisig)),
            Err(e) => Err(e),
        }
    } else {
        Ok(Authority::Single(account.key))
    }
}

/// Decides whether the call is authorised by `expected`, which the caller
/// presents as account `index`. Fails with `NotEnoughAccountKeys` where the
/// call names no such account, and with `NotSignerOrOwner` where that account
/// is not `expected`; otherwise as `require_authority` does for the authority
/// that the account stands for.
pub fn validate_authority(
    program_id: &Pubkey,
    expected: &Pubkey,
    accounts: &Vec<Account>,
    index: usize,
) -> (verdict: Result<(), TokenError>)
    ensures
        verdict == authorized(*program_id, *expected, views(accounts@), index as int),
{
    if index >= accounts.len() {
        return Err(TokenError::NotEnoughAccountKeys);
    }
    if !keys_equal(&accounts[index].key, expected) {
        return Err(TokenError::NotSignerOrOwner);
    }
    match resolve_authority(program_id, &accounts[index]) {
        Ok(authority) => require_authority(&authority, accounts),
        Err(e) => Err(e),
    }
}

} // verus!
