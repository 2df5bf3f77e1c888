//! The operations that change no balance: GetAccountDataSize,
//! InitializeImmutableOwner, AmountToUiAmount and UiAmountToAmount. What
//! they find out goes back to the caller as return data.

use vstd::bytes::{spec_u64_to_le_bytes, u64_to_le_bytes};
use vstd::prelude::*;
use vstd::string::StringSliceAdditionalSpecFns;

use crate::account::{views, Account, AccountView};
use crate::error::TokenError;
use crate::processor::shared::{load_mint, mint_at};
use crate::text::ui_amount_to_amount;
use crate::token_account::{parse_token_account, AccountState, TokenAccount, ACCOUNT_LEN};
use crate::ui_amount::{amount_to_ui_amount_bytes, parse_ui_amount, ui_amount};

verus! {

/// Whether a handler that returned `data` did what `expected` says: the
/// bytes are those expected, or the error is.
pub open spec fn returns_bytes(
    data: Result<Vec<u8>, TokenError>,
    expected: Result<Seq<u8>, TokenError>,
) -> bool {
    match expected {
        Ok(bytes) => data is Ok && data->Ok_0@ == bytes,
        Err(e) => data == Err::<Vec<u8>, TokenError>(e),
    }
}

/// The size of a token account of the created mint that the call names, as
/// the eight bytes of a `u64`.
pub open spec fn account_data_size(accounts: Seq<AccountView>) -> Result<Seq<u8>, TokenError> {
    if accounts.len() < 1 {
        Err(TokenError::NotEnoughAccountKeys)
    } else {
        match mint_at(accounts, 0) {
            Err(e) => Err(e),
            Ok(_) => Ok(spec_u64_to_le_bytes(ACCOUNT_LEN as u64)),
        }
    }
}

/// Whether the owner of the account that the call names can be marked
/// immutable: the buffer holds a token account that has not been created
/// (`AccountAlreadyInitialized`). Every owner is immutable but by
/// `SetAuthority`, so that nothing is written.
pub open spec fn immutable_owner(accounts: Seq<AccountView>) -> Result<(), TokenError> {
    if accounts.len() < 1 {
        Err(TokenError::NotEnoughAccountKeys)
    } else {
        match parse_token_account(accounts[0].data) {
            Err(e) => Err(e),
            Ok(account) => if account.state != AccountState::Uninitialized {
                Err(TokenError::AccountAlreadyInitialized)
            } else {
                Ok(())
            },
        }
    }
}

/// The text of `amount` at the decimals of the created mint that the call
/// names.
pub open spec fn shown_amount(accounts: Seq<AccountView>, amount: u64) -> Result<
    Seq<u8>,
    TokenError,
> {
    if accounts.len() < 1 {
        Err(TokenError::NotEnoughAccountKeys)
    } else {
        match mint_at(accounts, 0) {
            Err(e) => Err(e),
            Ok(mint) => Ok(ui_amount(amount, mint.decimals)),
        }
    }
}

/// The raw amount that `text` denotes at the decimals of the created mint
/// that the call names, as the eight bytes of a `u64`.
pub open spec fn raw_amount(accounts: Seq<AccountView>, text: Seq<u8>) -> Result<
    Seq<u8>,
    TokenError,
> {
    if accounts.len() < 1 {
        Err(TokenError::NotEnoughAccountKeys)
    } else {
        match mint_at(accounts, 0) {
            Err(e) => Err(e),
            Ok(mint) => match parse_ui_amount(text, mint.decimals) {
                Err(e) => Err(e),
                Ok(amount) => Ok(spec_u64_to_le_bytes(amount)),
            },
        }
    }
}

/// Tells the size of a token account, as `account_data_size` says.
pub fn process_get_account_data_size(accounts: &Vec<Account>) -> (data: Result<
    Vec<u8>,
    TokenError,
>)
    ensures
        returns_bytes(data, account_data_size(views(accounts@))),
{
    if accounts.len() < 1 {
        return Err(TokenError::NotEnoughAccountKeys);
    }
    load_mint(accounts, 0)?;
    Ok(u64_to_le_bytes(ACCOUNT_LEN as u64))
}

/// Checks that the account of the call can still have its owner marked
/// immutable, as `immutable_owner` says.
pub fn process_initialize_immutable_owner(accounts: &Vec<Account>) -> (done: Result<
    (),
    TokenError,
>)
    ensures
        done == immutable_owner(views(accounts@)),
{
    if accounts.len() < 1 {
        return Err(TokenError::NotEnoughAccountKeys);
    }
    let account = TokenAccount::unpack(accounts[0].data.as_slice())?;
    match account.state {
        AccountState::Uninitialized => Ok(()),
        _ => Err(TokenError::AccountAlreadyInitialized),
    }
}

/// Shows `amount` as text, as `shown_amount` says.
pub fn process_amount_to_ui_amount(accounts: &Vec<Account>, amount: u64) -> (data: Result<
    Vec<u8>,
    TokenError,
>)
    ensures
        returns_bytes(data, shown_amount(views(accounts@), amount)),
{
    if accounts.len() < 1 {
        return Err(TokenError::NotEnoughAccountKeys);
    }
    let mint = load_mint(accounts, 0)?;
    Ok(amount_to_ui_amount_bytes(amount, mint.decimals))
}

/// Reads the raw amount of `ui_amount`, as `raw_amount` says.
pub fn process_ui_amount_to_amount(accounts: &Vec<Account>, ui_amount: &str) -> (data: Result<
    Vec<u8>,
    TokenError,
>)
    ensures
        returns_bytes(data, raw_amount(views(accounts@), ui_amount.spec_bytes())),
{
    if accounts.len() < 1 {
        return Err(TokenError::NotEnoughAccountKeys);
    }
    let mint = load_mint(accounts, 0)?;
    let amount = ui_amount_to_amount(ui_amount, mint.decimals)?;
    Ok(u64_to_le_bytes(amount))
}

} // verus!
