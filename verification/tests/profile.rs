//! Profile registration: the check sequence, the display-name boundary, and
//! the record a success writes.

use order_tracker::account::AccountView;
use order_tracker::error::{ProcessError, ProtocolError};
use order_tracker::processor::process_initialize_profile;
use order_tracker::profile::{decode_profile, Profile};
use order_tracker::soulbound::{MintAuthority, Soulbound};
use order_tracker::ProtocolConfig;
use solana_program::program_option::COption;
use solana_program::program_pack::Pack;
use solana_program::pubkey::Pubkey;
use spl_token_2022::state::{Account as TokenAccount, AccountState};
use spl_transfer_hook_interface::instruction::TransferHookInstruction;

const PROGRAM_ID: [u8; 32] = [7u8; 32];
const WALLET: [u8; 32] = [21u8; 32];

fn config() -> ProtocolConfig {
    let execute = TransferHookInstruction::Execute { amount: 0 }.pack();
    ProtocolConfig {
        program_id: PROGRAM_ID.to_vec(),
        token_program_id: spl_token_2022::id().to_bytes().to_vec(),
        ata_program_id: spl_associated_token_account::id().to_bytes().to_vec(),
        execute_tag: execute[..8].to_vec(),
    }
}

fn base_token_account(mint: &[u8], owner: &[u8], amount: u64) -> Vec<u8> {
    let account = TokenAccount {
        mint: Pubkey::try_from(mint).unwrap(),
        owner: Pubkey::try_from(owner).unwrap(),
        amount,
        delegate: COption::None,
        state: AccountState::Initialized,
        is_native: COption::None,
        delegated_amount: 0,
        close_authority: COption::None,
    };
    let mut data = vec![0u8; TokenAccount::LEN];
    TokenAccount::pack(account, &mut data).unwrap();
    data
}

fn account(key: Vec<u8>, lamports: u64, data: Vec<u8>) -> AccountView {
    AccountView { key, lamports, data, is_signer: false, is_writable: false }
}

/// The seven accounts of a valid registration: the wallet signs, its
/// soulbound token account is empty, its profile does not exist yet.
fn profile_accounts(cfg: &ProtocolConfig) -> Vec<AccountView> {
    let soulbound = Soulbound::address(&cfg.program_id).unwrap();
    vec![
        account(soulbound.clone(), 1, vec![]),
        account(
            Soulbound::token_account(&WALLET.to_vec(), cfg).unwrap(),
            1,
            base_token_account(&soulbound, &WALLET, 0),
        ),
        account(Profile::address(&WALLET.to_vec(), &cfg.program_id).unwrap(), 0, vec![]),
        AccountView {
            key: WALLET.to_vec(),
            lamports: 1,
            data: vec![],
            is_signer: true,
            is_writable: false,
        },
        account(MintAuthority::address(&cfg.program_id).unwrap(), 1, vec![]),
        account(cfg.token_program_id.clone(), 1, vec![]),
        account(vec![0u8; 32], 1, vec![]),
    ]
}

#[test]
fn profile_success() {
    let cfg = config();
    let accounts = profile_accounts(&cfg);
    let effects =
        process_initialize_profile(&cfg, &accounts, &b"alice".to_vec()).unwrap();
    assert_eq!(effects.mint_amount, 1);
    let profile = decode_profile(&effects.profile_data).unwrap();
    assert_eq!(profile.wallet_address, WALLET.to_vec());
    assert_eq!(profile.username, b"alice".to_vec());
    assert_eq!(profile.order_volume, 0);
}

#[test]
fn profile_fail_incorrect_soulbound_mint() {
    let cfg = config();
    let mut accounts = profile_accounts(&cfg);
    accounts[0].key = vec![99u8; 32];
    assert!(matches!(
        process_initialize_profile(&cfg, &accounts, &b"alice".to_vec()),
        Err(ProcessError::Protocol(ProtocolError::IncorrectSoulboundMint)),
    ));
}

#[test]
fn fail_incorrect_soulbound_token_account() {
    let cfg = config();
    let mut accounts = profile_accounts(&cfg);
    accounts[1].key = Soulbound::token_account(&vec![33u8; 32], &cfg).unwrap();
    assert!(matches!(
        process_initialize_profile(&cfg, &accounts, &b"alice".to_vec()),
        Err(ProcessError::Protocol(ProtocolError::IncorrectSoulboundTokenAccount)),
    ));
}

#[test]
fn fail_soulbound_token_account_has_tokens() {
    let cfg = config();
    let soulbound = Soulbound::address(&cfg.program_id).unwrap();
    let mut accounts = profile_accounts(&cfg);
    accounts[1].data = base_token_account(&soulbound, &WALLET, 1);
    assert!(matches!(
        process_initialize_profile(&cfg, &accounts, &b"alice".to_vec()),
        Err(ProcessError::Protocol(ProtocolError::SoulboundTokenAccountHasTokens)),
    ));
}

#[test]
fn fail_profile_exists() {
    let cfg = config();
    let mut accounts = profile_accounts(&cfg);
    accounts[2].lamports = 1000000000;
    assert!(matches!(
        process_initialize_profile(&cfg, &accounts, &b"alice".to_vec()),
        Err(ProcessError::Protocol(ProtocolError::ProfileAlreadyInitialized)),
    ));
}

#[test]
fn fail_wallet_not_signer() {
    let cfg = config();
    let mut accounts = profile_accounts(&cfg);
    accounts[3].is_signer = false;
    assert!(matches!(
        process_initialize_profile(&cfg, &accounts, &b"alice".to_vec()),
        Err(ProcessError::MissingRequiredSignature),
    ));
}

#[test]
fn username_boundary() {
    let cfg = config();
    let accounts = profile_accounts(&cfg);
    let at_limit = vec![b'a'; 140];
    let effects = process_initialize_profile(&cfg, &accounts, &at_limit).unwrap();
    let profile = decode_profile(&effects.profile_data).unwrap();
    assert_eq!(profile.username.len(), 140);
    let over_limit = vec![b'a'; 141];
    assert!(matches!(
        process_initialize_profile(&cfg, &accounts, &over_limit),
        Err(ProcessError::Protocol(ProtocolError::UsernameTooLong)),
    ));
}
