//! The processor: one handler per operation.
//!
//! Every handler loads and checks the accounts that it reads, validates the
//! authority that the operation needs, and only then writes. What a handler
//! does is stated as a function from the accounts before the call to the
//! accounts after it, or to the error that ends the call.

pub mod approve;
pub mod close_account;
pub mod freeze;
pub mod initialize;
pub mod queries;
pub mod set_authority;
pub mod shared;
pub mod supply;
pub mod sync_native;
pub mod transfer;
