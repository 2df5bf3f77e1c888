//! The instructions: an opcode in the first byte, and behind it the
//! arguments in a fixed layout.

use pinocchio::pubkey::Pubkey;
use vstd::bytes::spec_u64_from_le_bytes;
use vstd::prelude::*;
use vstd::slice::slice_subrange;
use vstd::utf8::valid_utf8;

use crate::error::TokenError;
use crate::layout::read_amount;
use crate::processor::set_authority::AuthorityType;
use crate::pubkey::{key_of, read_key};
use crate::text::text_of;

verus! {

/// One instruction with its arguments.
#[derive(Clone, Copy, Debug, PartialEq, Eq)]
pub enum Instruction {
    /// Opcode 0: create a mint; the call names the rent sysvar.
    InitializeMint { decimals: u8, mint_authority: Pubkey, freeze_authority: Option<Pubkey> },
    /// Opcode 1: create a token account for the owner that the call names.
    InitializeAccount,
    /// Opcode 2: create a multisig; the call names the rent sysvar.
    InitializeMultisig { m: u8 },
    /// Opcode 3: move an amount between two accounts.
    Transfer { amount: u64 },
    /// Opcode 4: grant an allowance.
    Approve { amount: u64 },
    /// Opcode 5: withdraw the allowance.
    Revoke,
    /// Opcode 6: replace or remove an authority.
    SetAuthority { authority_type: AuthorityType, new_authority: Option<Pubkey> },
    /// Opcode 7: create new tokens.
    MintTo { amount: u64 },
    /// Opcode 8: destroy tokens.
    Burn { amount: u64 },
    /// Opcode 9: close an account.
    CloseAccount,
    /// Opcode 10: freeze an account.
    FreezeAccount,
    /// Opcode 11: thaw an account.
    ThawAccount,
    /// Opcode 12: move an amount, stating the decimals of the mint.
    TransferChecked { amount: u64, decimals: u8 },
    /// Opcode 13: grant an allowance, stating the decimals of the mint.
    ApproveChecked { amount: u64, decimals: u8 },
    /// Opcode 14: create new tokens, stating the decimals of the mint.
    MintToChecked { amount: u64, decimals: u8 },
    /// Opcode 15: destroy tokens, stating the decimals of the mint.
    BurnChecked { amount: u64, decimals: u8 },
    /// Opcode 16: create a token account for `owner`; the call names the rent sysvar.
    InitializeAccount2 { owner: Pubkey },
    /// Opcode 17: bring a native-wrapping account up to its lamports.
    SyncNative,
    /// Opcode 18: create a token account for `owner`.
    InitializeAccount3 { owner: Pubkey },
    /// Opcode 19: create a multisig.
    InitializeMultisig2 { m: u8 },
    /// Opcode 20: create a mint.
    InitializeMint2 { decimals: u8, mint_authority: Pubkey, freeze_authority: Option<Pubkey> },
    /// Opcode 21: tell the size of a token account.
    GetAccountDataSize,
    /// Opcode 22: check that an account has not been created.
    InitializeImmutableOwner,
    /// Opcode 23: show an amount as text.
    AmountToUiAmount { amount: u64 },
    /// Opcode 24: read the amount of a text, which is all that follows the opcode.
    UiAmountToAmount,
}

/// The amount that is the whole of `args`: exactly eight bytes.
pub open spec fn parse_amount_args(args: Seq<u8>) -> Option<u64> {
    if args.len() == 8 {
        Some(spec_u64_from_le_bytes(args))
    } else {
        None
    }
}

/// The amount and the decimals that are the whole of `args`: exactly nine bytes.
pub open spec fn parse_checked_args(args: Seq<u8>) -> Option<(u64, u8)> {
    if args.len() == 9 {
        Some((spec_u64_from_le_bytes(args.subrange(0, 8)), args[8]))
    } else {
        None
    }
}

/// The principal at the start of `args`.
pub open spec fn parse_key_arg(args: Seq<u8>) -> Option<Pubkey> {
    if args.len() >= 32 {
        Some(key_of(args.subrange(0, 32)))
    } else {
        None
    }
}

/// The optional principal at the start of `args`: a zero byte for none, or a
/// one and the principal. An argument that is not there is no request to
/// remove anything: it is malformed, like every other byte in front.
pub open spec fn parse_optional_key_arg(args: Seq<u8>) -> Option<Option<Pubkey>> {
    if args.len() >= 1 && args[0] == 0 {
        Some(None)
    } else if args.len() >= 33 && args[0] == 1 {
        Some(Some(key_of(args.subrange(1, 33))))
    } else {
        None
    }
}

/// The decimals, the mint authority and the optional freeze authority at the
/// start of `args`.
pub open spec fn parse_mint_args(args: Seq<u8>) -> Option<(u8, Pubkey, Option<Pubkey>)> {
    if args.len() < 34 {
        None
    } else {
        match parse_optional_key_arg(args.subrange(33, args.len() as int)) {
            Some(freeze_authority) => Some(
                (args[0], key_of(args.subrange(1, 33)), freeze_authority),
            ),
            None => None,
        }
    }
}

/// The kind of authority that a byte selects.
pub open spec fn parse_authority_type(byte: u8) -> Option<AuthorityType> {
    if byte == 0 {
        Some(AuthorityType::MintTokens)
    } else if byte == 1 {
        Some(AuthorityType::FreezeAccount)
    } else if byte == 2 {
        Some(AuthorityType::AccountOwner)
    } else if byte == 3 {
        Some(AuthorityType::CloseAccount)
    } else {
        None
    }
}

/// The kind of authority and the optional new authority at the start of `args`.
pub open spec fn parse_authority_args(args: Seq<u8>) -> Option<(AuthorityType, Option<Pubkey>)> {
    if args.len() < 2 {
        None
    } else {
        match (
            parse_authority_type(args[0]),
            parse_optional_key_arg(args.subrange(1, args.len() as int)),
        ) {
            (Some(authority_type), Some(new_authority)) => Some((authority_type, new_authority)),
            _ => None,
        }
    }
}

/// The instruction with opcode `opcode` and the arguments `args`, if there
/// is one.
pub open spec fn parse_arguments(opcode: u8, args: Seq<u8>) -> Option<Instruction> {
    if opcode == 0 || opcode == 20 {
        match parse_mint_args(args) {
            Some((decimals, mint_authority, freeze_authority)) => Some(
                if opcode == 0 {
                    Instruction::InitializeMint { decimals, mint_authority, freeze_authority }
                } else {
                    Instruction::InitializeMint2 { decimals, mint_authority, freeze_authority }
                },
            ),
            None => None,
        }
    } else if opcode == 2 || opcode == 19 {
        if args.len() >= 1 {
            Some(
                if opcode == 2 {
                    Instruction::InitializeMultisig { m: args[0] }
                } else {
                    Instruction::InitializeMultisig2 { m: args[0] }
                },
            )
        } else {
            None
        }
    } else if opcode == 3 || opcode == 4 || opcode == 7 || opcode == 8 || opcode == 23 {
        match parse_amount_args(args) {
            Some(amount) => Some(
                if opcode == 3 {
                    Instruction::Transfer { amount }
                } else if opcode == 4 {
                    Instruction::Approve { amount }
                } else if opcode == 7 {
                    Instruction::MintTo { amount }
                } else if opcode == 8 {
                    Instruction::Burn { amount }
                } else {
                    Instruction::AmountToUiAmount { amount }
                },
            ),
            None => None,
        }
    } else if 12 <= opcode <= 15 {
        match parse_checked_args(args) {
            Some((amount, decimals)) => Some(
                if opcode == 12 {
                    Instruction::TransferChecked { amount, decimals }
                } else if opcode == 13 {
                    Instruction::ApproveChecked { amount, decimals }
                } else if opcode == 14 {
                    Instruction::MintToChecked { amount, decimals }
                } else {
                    Instruction::BurnChecked { amount, decimals }
                },
            ),
            None => None,
        }
    } else if opcode == 16 || opcode == 18 {
        match parse_key_arg(args) {
            Some(owner) => Some(
                if opcode == 16 {
                    Instruction::InitializeAccount2 { owner }
                } else {
                    Instruction::InitializeAccount3 { owner }
                },
            ),
            None => None,
        }
    } else if opcode == 6 {
        match parse_authority_args(args) {
            Some((authority_type, new_authority)) => Some(
                Instruction::SetAuthority { authority_type, new_authority },
            ),
            None => None,
        }
    } else if opcode == 24 {
        if valid_utf8(args) {
            Some(Instruction::UiAmountToAmount)
        } else {
            None
        }
    } else if opcode == 1 {
        Some(Instruction::InitializeAccount)
    } else if opcode == 5 {
        Some(Instruction::Revoke)
    } else if opcode == 9 {
        Some(Instruction::CloseAccount)
    } else if opcode == 10 {
        Some(Instruction::FreezeAccount)
    } else if opcode == 11 {
        Some(Instruction::ThawAccount)
    } else if opcode == 17 {
        Some(Instruction::SyncNative)
    } else if opcode == 21 {
        Some(Instruction::GetAccountDataSize)
    } else if opcode == 22 {
        Some(Instruction::InitializeImmutableOwner)
    } else {
        None
    }
}

/// What stands behind the opcode of an instruction.
pub open spec fn arguments(data: Seq<u8>) -> Seq<u8> {
    data.subrange(1, data.len() as int)
}

/// The instruction that `data` encodes. Empty data, an unknown opcode, and
/// arguments of the wrong shape fail with `InvalidInstructionData`.
pub open spec fn parse_instruction(data: Seq<u8>) -> Result<Instruction, TokenError> {
    if data.len() == 0 {
        Err(TokenError::InvalidInstructionData)
    } else {
        match parse_arguments(data[0], arguments(data)) {
            Some(instruction) => Ok(instruction),
            None => Err(TokenError::InvalidInstructionData),
        }
    }
}

/// Reads the amount that is the whole of `args`.
fn read_amount_args(args: &[u8]) -> (amount: Option<u64>)
    ensures
        amount == parse_amount_args(args@),
{
    if args.len() == 8 {
        assert(args@.subrange(0, 8) =~= args@);
        Some(read_amount(args, 0))
    } else {
        None
    }
}

/// Reads the amount and the decimals that are the whole of `args`.
fn read_checked_args(args: &[u8]) -> (both: Option<(u64, u8)>)
    ensures
        both == parse_checked_args(args@),
{
    if args.len() == 9 {
        Some((read_amount(args, 0), args[8]))
    } else {
        None
    }
}

/// Reads the principal at the start of `args`.
fn read_key_arg(args: &[u8]) -> (key: Option<Pubkey>)
    ensures
        key == parse_key_arg(args@),
{
    if args.len() >= 32 {
        Some(read_key(args, 0))
    } else {
        None
    }
}

/// Reads the optional principal that starts at `offset` in `args`.
fn read_optional_key_arg(args: &[u8], offset: usize) -> (key: Option<Option<Pubkey>>)
    requires
        offset <= args.len(),
    ensures
        key == parse_optional_key_arg(args@.subrange(offset as int, args@.len() as int)),
{
    let ghost rest = args@.subrange(offset as int, args@.len() as int);
    if args.len() - offset >= 1 && args[offset] == 0 {
        Some(None)
    } else if args.len() - offset >= 33 && args[offset] == 1 {
        assert(rest.subrange(1, 33) =~= args@.subrange(offset + 1, offset + 33));
        Some(Some(read_key(args, offset + 1)))
    } else {
        None
    }
}

/// Reads the arguments of the creation of a mint.
fn read_mint_args(args: &[u8]) -> (all: Option<(u8, Pubkey, Option<Pubkey>)>)
    ensures
        all == parse_mint_args(args@),
{
    if args.len() < 34 {
        return None;
    }
    match read_optional_key_arg(args, 33) {
        Some(freeze_authority) => Some((args[0], read_key(args, 1), freeze_authority)),
        None => None,
    }
}

/// Reads the kind of authority that a byte selects.
fn read_authority_type(byte: u8) -> (authority_type: Option<AuthorityType>)
    ensures
        authority_type == parse_authority_type(byte),
{
    if byte == 0 {
        Some(AuthorityType::MintTokens)
    } else if byte == 1 {
        Some(AuthorityType::FreezeAccount)
    } else if byte == 2 {
        Some(AuthorityType::AccountOwner)
    } else if byte == 3 {
        Some(AuthorityType::CloseAccount)
    } else {
        None
    }
}

/// Reads the arguments of the replacement of an authority.
fn read_authority_args(args: &[u8]) -> (both: Option<(AuthorityType, Option<Pubkey>)>)
    ensures
        both == parse_authority_args(args@),
{
    if args.len() < 2 {
        return None;
    }
    match (read_authority_type(args[0]), read_optional_key_arg(args, 1)) {
        (Some(authority_type), Some(new_authority)) => Some((authority_type, new_authority)),
        _ => None,
    }
}

/// Reads the instruction with opcode `opcode` and the arguments `args`.
fn read_arguments(opcode: u8, args: &[u8]) -> (instruction: Option<Instruction>)
    ensures
        instruction == parse_arguments(opcode, args@),
{
    match opcode {
        0 | 20 => match read_mint_args(args) {
            Some((decimals, mint_authority, freeze_authority)) => Some(
                if opcode == 0 {
                    Instruction::InitializeMint { decimals, mint_authority, freeze_authority }
                } else {
                    Instruction::InitializeMint2 { decimals, mint_authority, freeze_authority }
                },
            ),
            None => None,
        },
        2 | 19 => if args.len() >= 1 {
            Some(
                if opcode == 2 {
                    Instruction::InitializeMultisig { m: args[0] }
                } else {
                    Instruction::InitializeMultisig2 { m: args[0] }
                },
            )
        } else {
            None
        },
        3 | 4 | 7 | 8 | 23 => match read_amount_args(args) {
            Some(amount) => Some(
                if opcode == 3 {
                    Instruction::Transfer { amount }
                } else if opcode == 4 {
                    Instruction::Approve { amount }
                } else if opcode == 7 {
                    Instruction::MintTo { amount }
                } else if opcode == 8 {
                    Instruction::Burn { amount }
                } else {
                    Instruction::AmountToUiAmount { amount }
                },
            ),
            None => None,
        },
        12 | 13 | 14 | 15 => match read_checked_args(args) {
            Some((amount, decimals)) => Some(
                if opcode == 12 {
                    Instruction::TransferChecked { amount, decimals }
                } else if opcode == 13 {
                    Instruction::ApproveChecked { amount, decimals }
                } else if opcode == 14 {
                    Instruction::MintToChecked { amount, decimals }
                } else {
                    Instruction::BurnChecked { amount, decimals }
                },
            ),
            None => None,
        },
        16 | 18 => match read_key_arg(args) {
            Some(owner) => Some(
                if opcode == 16 {
                    Instruction::InitializeAccount2 { owner }
                } else {
                    Instruction::InitializeAccount3 { owner }
                },
            ),
            None => None,
        },
        6 => match read_authority_args(args) {
            Some((authority_type, new_authority)) => Some(
                Instruction::SetAuthority { authority_type, new_authority },
            ),
            None => None,
        },
        24 => if text_of(args).is_some() {
            Some(Instruction::UiAmountToAmount)
        } else {
            None
        },
        1 => Some(Instruction::InitializeAccount),
        5 => Some(Instruction::Revoke),
        9 => Some(Instruction::CloseAccount),
        10 => Some(Instruction::FreezeAccount),
        11 => Some(Instruction::ThawAccount),
        17 => Some(Instruction::SyncNative),
        21 => Some(Instruction::GetAccountDataSize),
        22 => Some(Instruction::InitializeImmutableOwner),
        _ => None,
    }
}

/// Reads the instruction that `data` encodes.
pub fn unpack_instruction(data: &[u8]) -> (instruction: Result<Instruction, TokenError>)
    ensures
        instruction == parse_instruction(data@),
{
    if data.len() == 0 {
        return Err(TokenError::InvalidInstructionData);
    }
    match read_arguments(data[0], slice_subrange(data, 1, data.len())) {
        Some(instruction) => Ok(instruction),
        None => Err(TokenError::InvalidInstructionData),
    }
}

} // verus!
