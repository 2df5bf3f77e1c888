use token_program::error::TokenError;
use token_program::mint::{read_mint, write_mint, Mint, MINT_LEN};
use token_program::multisig::{read_multisig, write_multisig, Multisig, MULTISIG_LEN};
use token_program::token_account::{
    read_token_account, write_token_account, AccountState, TokenAccount, ACCOUNT_LEN,
};

fn codec_key(byte: u8) -> [u8; 32] {
    [byte; 32]
}

fn codec_mint() -> Mint {
    Mint {
        mint_authority: Some(codec_key(7)),
        supply: 0x0102_0304_0506_0708,
        decimals: 6,
        is_initialized: true,
        freeze_authority: None,
    }
}

fn codec_account() -> TokenAccount {
    TokenAccount {
        mint: codec_key(1),
        owner: codec_key(2),
        amount: 500,
        delegate: Some(codec_key(3)),
        state: AccountState::Frozen,
        is_native: Some(2_039_280),
        delegated_amount: 40,
        close_authority: None,
    }
}

fn codec_multisig() -> Multisig {
    let mut signers = [[0u8; 32]; 11];
    signers[0] = codec_key(10);
    signers[1] = codec_key(11);
    signers[2] = codec_key(12);
    Multisig { m: 2, n: 3, is_initialized: true, signers }
}

#[test]
fn sizes_of_the_three_records() {
    assert_eq!(MINT_LEN, 82);
    assert_eq!(ACCOUNT_LEN, 165);
    assert_eq!(MULTISIG_LEN, 355);
    assert_eq!(codec_mint().pack().len(), 82);
    assert_eq!(codec_account().pack().len(), 165);
    assert_eq!(codec_multisig().pack().len(), 355);
}

#[test]
fn mint_layout_is_fixed() {
    let bytes = codec_mint().pack();
    assert_eq!(&bytes[0..4], &[1, 0, 0, 0]);
    assert_eq!(&bytes[4..36], &[7u8; 32]);
    assert_eq!(&bytes[36..44], &[8, 7, 6, 5, 4, 3, 2, 1]);
    assert_eq!(bytes[44], 6);
    assert_eq!(bytes[45], 1);
    assert_eq!(&bytes[46..82], &[0u8; 36]);
}

#[test]
fn mint_round_trip() {
    let mint = codec_mint();
    assert_eq!(Mint::unpack(&mint.pack()), Ok(mint));
    let with_freeze = Mint { freeze_authority: Some(codec_key(9)), ..mint };
    assert_eq!(Mint::unpack(&with_freeze.pack()), Ok(with_freeze));
    assert_eq!(read_mint(&with_freeze.pack()), Ok(with_freeze));
}

#[test]
fn mint_of_wrong_size_is_rejected() {
    let bytes = codec_mint().pack();
    assert_eq!(Mint::unpack(&bytes[..81]), Err(TokenError::InvalidAccountData));
    let mut longer = bytes.clone();
    longer.push(0);
    assert_eq!(Mint::unpack(&longer), Err(TokenError::InvalidAccountData));
    assert_eq!(read_mint(&[]), Err(TokenError::InvalidAccountData));
}

#[test]
fn mint_with_unknown_tag_or_flag_is_rejected() {
    let bytes = codec_mint().pack();
    let mut bad_tag = bytes.clone();
    bad_tag[0] = 2;
    assert_eq!(Mint::unpack(&bad_tag), Err(TokenError::InvalidAccountData));
    let mut bad_tag_high = bytes.clone();
    bad_tag_high[3] = 1;
    assert_eq!(Mint::unpack(&bad_tag_high), Err(TokenError::InvalidAccountData));
    let mut bad_flag = bytes.clone();
    bad_flag[45] = 2;
    assert_eq!(Mint::unpack(&bad_flag), Err(TokenError::InvalidAccountData));
    let mut bad_freeze = bytes;
    bad_freeze[46] = 7;
    assert_eq!(Mint::unpack(&bad_freeze), Err(TokenError::InvalidAccountData));
}

#[test]
fn mint_that_was_not_created_is_not_read() {
    let zeroed = vec![0u8; MINT_LEN];
    assert_eq!(read_mint(&zeroed), Err(TokenError::UninitializedAccount));
    let raw = Mint::unpack(&zeroed).unwrap();
    assert!(!raw.is_initialized);
    assert_eq!(raw.supply, 0);
    assert_eq!(raw.mint_authority, None);
}

#[test]
fn absent_authority_ignores_the_bytes_behind_the_tag() {
    let mut bytes = codec_mint().pack();
    bytes[50] = 0xAA;
    assert_eq!(Mint::unpack(&bytes), Ok(codec_mint()));
}

#[test]
fn write_mint_replaces_the_whole_buffer() {
    let mut buffer = vec![0xFFu8; MINT_LEN];
    assert_eq!(write_mint(&mut buffer, &codec_mint()), Ok(()));
    assert_eq!(buffer, codec_mint().pack());
}

#[test]
fn write_mint_into_wrong_size_touches_nothing() {
    let mut buffer = vec![0xFFu8; 80];
    assert_eq!(write_mint(&mut buffer, &codec_mint()), Err(TokenError::InvalidAccountData));
    assert_eq!(buffer, vec![0xFFu8; 80]);
}

#[test]
fn token_account_layout_is_fixed() {
    let bytes = codec_account().pack();
    assert_eq!(&bytes[0..32], &[1u8; 32]);
    assert_eq!(&bytes[32..64], &[2u8; 32]);
    assert_eq!(&bytes[64..72], &500u64.to_le_bytes());
    assert_eq!(&bytes[72..76], &[1, 0, 0, 0]);
    assert_eq!(&bytes[76..108], &[3u8; 32]);
    assert_eq!(bytes[108], 2);
    assert_eq!(&bytes[109..113], &[1, 0, 0, 0]);
    assert_eq!(&bytes[113..121], &2_039_280u64.to_le_bytes());
    assert_eq!(&bytes[121..129], &40u64.to_le_bytes());
    assert_eq!(&bytes[129..165], &[0u8; 36]);
}

#[test]
fn token_account_round_trip() {
    let account = codec_account();
    assert_eq!(TokenAccount::unpack(&account.pack()), Ok(account));
    assert_eq!(read_token_account(&account.pack()), Ok(account));
    let plain = TokenAccount {
        delegate: None,
        state: AccountState::Initialized,
        is_native: None,
        delegated_amount: 0,
        close_authority: Some(codec_key(4)),
        ..account
    };
    assert_eq!(TokenAccount::unpack(&plain.pack()), Ok(plain));
}

#[test]
fn token_account_of_wrong_size_or_state_is_rejected() {
    let bytes = codec_account().pack();
    assert_eq!(TokenAccount::unpack(&bytes[..164]), Err(TokenError::InvalidAccountData));
    assert_eq!(TokenAccount::unpack(&[0u8; 82]), Err(TokenError::InvalidAccountData));
    let mut bad_state = bytes.clone();
    bad_state[108] = 3;
    assert_eq!(TokenAccount::unpack(&bad_state), Err(TokenError::InvalidAccountData));
    let mut bad_native = bytes.clone();
    bad_native[109] = 2;
    assert_eq!(TokenAccount::unpack(&bad_native), Err(TokenError::InvalidAccountData));
    let mut bad_close = bytes;
    bad_close[130] = 1;
    assert_eq!(TokenAccount::unpack(&bad_close), Err(TokenError::InvalidAccountData));
}

#[test]
fn zeroed_account_reads_as_uninitialized() {
    let zeroed = vec![0u8; ACCOUNT_LEN];
    assert_eq!(read_token_account(&zeroed), Err(TokenError::UninitializedAccount));
    assert_eq!(TokenAccount::unpack(&zeroed).unwrap().state, AccountState::Uninitialized);
}

#[test]
fn write_token_account_is_all_or_nothing() {
    let mut buffer = vec![9u8; ACCOUNT_LEN];
    assert_eq!(write_token_account(&mut buffer, &codec_account()), Ok(()));
    assert_eq!(buffer, codec_account().pack());
    let mut short = vec![9u8; 100];
    assert_eq!(
        write_token_account(&mut short, &codec_account()),
        Err(TokenError::InvalidAccountData)
    );
    assert_eq!(short, vec![9u8; 100]);
}

#[test]
fn multisig_layout_and_round_trip() {
    let multisig = codec_multisig();
    let bytes = multisig.pack();
    assert_eq!(&bytes[0..3], &[2, 3, 1]);
    assert_eq!(&bytes[3..35], &[10u8; 32]);
    assert_eq!(&bytes[35..67], &[11u8; 32]);
    assert_eq!(&bytes[67..99], &[12u8; 32]);
    assert_eq!(&bytes[99..355], &[0u8; 256]);
    assert_eq!(Multisig::unpack(&bytes), Ok(multisig));
    assert_eq!(read_multisig(&bytes), Ok(multisig));
}

#[test]
fn multisig_with_counts_out_of_range_is_rejected() {
    let good = codec_multisig().pack();
    let mut m_zero = good.clone();
    m_zero[0] = 0;
    assert_eq!(Multisig::unpack(&m_zero), Err(TokenError::InvalidAccountData));
    let mut m_above_n = good.clone();
    m_above_n[0] = 4;
    assert_eq!(Multisig::unpack(&m_above_n), Err(TokenError::InvalidAccountData));
    let mut n_above_max = good.clone();
    n_above_max[1] = 12;
    assert_eq!(Multisig::unpack(&n_above_max), Err(TokenError::InvalidAccountData));
    let mut bad_flag = good.clone();
    bad_flag[2] = 5;
    assert_eq!(Multisig::unpack(&bad_flag), Err(TokenError::InvalidAccountData));
    assert_eq!(Multisig::unpack(&good[..354]), Err(TokenError::InvalidAccountData));
}

#[test]
fn multisig_that_was_not_created_is_not_read() {
    let zeroed = vec![0u8; MULTISIG_LEN];
    assert_eq!(read_multisig(&zeroed), Err(TokenError::UninitializedAccount));
    assert!(Multisig::unpack(&zeroed).is_ok());
}

#[test]
fn write_multisig_is_all_or_nothing() {
    let mut buffer = vec![1u8; MULTISIG_LEN];
    assert_eq!(write_multisig(&mut buffer, &codec_multisig()), Ok(()));
    assert_eq!(buffer, codec_multisig().pack());
    let mut wrong = vec![1u8; ACCOUNT_LEN];
    assert_eq!(write_multisig(&mut wrong, &codec_multisig()), Err(TokenError::InvalidAccountData));
    assert_eq!(wrong, vec![1u8; ACCOUNT_LEN]);
}
