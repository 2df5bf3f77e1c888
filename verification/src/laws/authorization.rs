//! What the validator makes of the signers: more signers never hurt, and
//! signers that a multisig has not registered never help.

use pinocchio::pubkey::Pubkey;
use vstd::prelude::*;
use vstd::set_lib::lemma_len_subset;

use crate::authority::{authority_satisfied, signatures, Authority};
use crate::error::TokenError;
use crate::multisig::Multisig;

verus! {

/// The registered signers that have signed are finitely many, and no more
/// than are registered.
pub proof fn lemma_signatures_bounded(multisig: Multisig, signers: Set<Pubkey>)
    ensures
        multisig.registered().to_set().intersect(signers).finite(),
        signatures(multisig, signers) <= multisig.registered().len(),
        signatures(multisig, signers) <= 11,
{
    broadcast use vstd::seq_lib::seq_to_set_is_finite;
    broadcast use vstd::set::group_set_axioms;

    let registered = multisig.registered().to_set();
    lemma_len_subset(registered.intersect(signers), registered);
    multisig.registered().lemma_cardinality_of_set();
}

/// With more signers, no fewer registered signers have signed.
pub proof fn lemma_signatures_grow(multisig: Multisig, fewer: Set<Pubkey>, more: Set<Pubkey>)
    requires
        fewer.subset_of(more),
    ensures
        signatures(multisig, fewer) <= signatures(multisig, more),
{
    let registered = multisig.registered().to_set();
    lemma_signatures_bounded(multisig, more);
    lemma_len_subset(registered.intersect(fewer), registered.intersect(more));
}

/// An authority that some signers satisfy is satisfied by every set of
/// signers that holds them all.
pub proof fn lemma_more_signers_suffice(
    authority: Authority,
    fewer: Set<Pubkey>,
    more: Set<Pubkey>,
)
    requires
        fewer.subset_of(more),
        authority_satisfied(authority, fewer) is Ok,
    ensures
        authority_satisfied(authority, more) is Ok,
{
    if let Authority::Multisig(multisig) = authority {
        lemma_signatures_grow(multisig, fewer, more);
    }
}

/// A signer that a multisig has not registered adds no signature: with or
/// without it the multisig is satisfied alike.
pub proof fn lemma_unregistered_signer_adds_nothing(
    multisig: Multisig,
    signers: Set<Pubkey>,
    stranger: Pubkey,
)
    requires
        !multisig.registered().contains(stranger),
    ensures
        signatures(multisig, signers.insert(stranger)) == signatures(multisig, signers),
        authority_satisfied(Authority::Multisig(multisig), signers.insert(stranger))
            == authority_satisfied(Authority::Multisig(multisig), signers),
{
    let registered = multisig.registered().to_set();
    assert(registered.intersect(signers.insert(stranger)) =~= registered.intersect(signers));
}

/// A multisig that requires more signers than have signed is not satisfied,
/// whoever the signers are: below the threshold nothing is authorised.
pub proof fn lemma_threshold_is_required(multisig: Multisig, signers: Set<Pubkey>)
    requires
        multisig.is_initialized,
        signers.finite(),
        signers.len() < multisig.m,
    ensures
        authority_satisfied(Authority::Multisig(multisig), signers) == Err::<(), TokenError>(
            TokenError::NotEnoughSigners,
        ),
{
    let registered = multisig.registered().to_set();
    lemma_len_subset(registered.intersect(signers), signers);
}

} // verus!
