//! A fungible-token ledger engine.
//!
//! The crate keeps balances, ownership, delegation and freeze status of token
//! accounts that belong to a mint, and lets every change through only after
//! an authority check. Records live as fixed-layout bytes inside the account
//! buffers that a caller hands in; every operation either completes or leaves
//! all buffers as they were.
//!
//! The modules, leaves first:
//!
//! - `pubkey`, `layout`, `mint`, `token_account`, `multisig`: the account
//!   codec, which reads and writes the three kinds of record;
//! - `account`: the accounts of a call and who has signed it;
//! - `authority`: the validator, which decides whether the signers satisfy a
//!   single or a multisig authority;
//! - `ui_amount`, `text`: the converter between raw amounts and decimal text;
//! - `processor`: one handler per operation, each stated as a function from
//!   the accounts before the call to the accounts after it;
//! - `instruction`, `entrypoint`: the decoder of instruction bytes and the
//!   dispatcher;
//! - `error`: the errors, and how the hosting runtime is told of them;
//! - `laws`: what holds of the engine as a whole.

pub mod account;
pub mod authority;
pub mod entrypoint;
pub mod error;
pub mod instruction;
pub mod laws;
pub mod layout;
pub mod mint;
pub mod multisig;
pub mod processor;
pub mod pubkey;
pub mod text;
pub mod token_account;
pub mod ui_amount;
