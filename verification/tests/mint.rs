//! Mint creation: the validation-account check, the signature check, and the
//! store a success writes.

use order_tracker::account::AccountView;
use order_tracker::error::{ProcessError, ProtocolError};
use order_tracker::processor::{process_create_mint, process_init};
use order_tracker::validation::ValidationData;
use order_tracker::ProtocolConfig;
use spl_transfer_hook_interface::instruction::TransferHookInstruction;

const PROGRAM_ID: [u8; 32] = [7u8; 32];
const MINT: [u8; 32] = [3u8; 32];

fn config() -> ProtocolConfig {
    let execute = TransferHookInstruction::Execute { amount: 0 }.pack();
    ProtocolConfig {
        program_id: PROGRAM_ID.to_vec(),
        token_program_id: spl_token_2022::id().to_bytes().to_vec(),
        ata_program_id: spl_associated_token_account::id().to_bytes().to_vec(),
        execute_tag: execute[..8].to_vec(),
    }
}

fn account(key: Vec<u8>, lamports: u64, data: Vec<u8>) -> AccountView {
    AccountView { key, lamports, data, is_signer: false, is_writable: false }
}

/// The four accounts of a valid mint creation: the validation account is the
/// derived one, allocated with the store's exact size, and the authority
/// signs.
fn mint_accounts(cfg: &ProtocolConfig) -> Vec<AccountView> {
    vec![
        account(MINT.to_vec(), 1, vec![]),
        account(
            ValidationData::address(&MINT.to_vec(), &cfg.program_id).unwrap(),
            1,
            vec![0u8; ValidationData::get_len()],
        ),
        AccountView {
            key: vec![44u8; 32],
            lamports: 1,
            data: vec![],
            is_signer: true,
            is_writable: false,
        },
        account(cfg.token_program_id.clone(), 1, vec![]),
    ]
}

#[test]
fn mint_success() {
    let cfg = config();
    let accounts = mint_accounts(&cfg);
    let effects = process_create_mint(&cfg, &accounts).unwrap();
    assert_eq!(effects.validation_data.len(), ValidationData::get_len());
    assert_eq!(&effects.validation_data[..8], cfg.execute_tag.as_slice());
    assert_eq!(&effects.validation_data[12..16], &8u32.to_le_bytes());
}

#[test]
fn fail_incorrect_validation_account() {
    let cfg = config();
    let mut accounts = mint_accounts(&cfg);
    accounts[1].key = vec![99u8; 32];
    assert!(matches!(
        process_create_mint(&cfg, &accounts),
        Err(ProcessError::Protocol(ProtocolError::IncorrectValidationAccount)),
    ));
}

#[test]
fn fail_payer_not_signer() {
    let cfg = config();
    let mut accounts = mint_accounts(&cfg);
    accounts[2].is_signer = false;
    assert!(matches!(
        process_create_mint(&cfg, &accounts),
        Err(ProcessError::MissingRequiredSignature),
    ));
}

#[test]
fn fail_validation_buffer_too_small() {
    let cfg = config();
    let mut accounts = mint_accounts(&cfg);
    accounts[1].data = vec![0u8; ValidationData::get_len() - 1];
    assert!(matches!(
        process_create_mint(&cfg, &accounts),
        Err(ProcessError::BufferTooSmall),
    ));
}

#[test]
fn init_writes_empty_tracker_and_checks_signer() {
    let cfg = config();
    let mut accounts = vec![
        account(vec![1u8; 32], 1, vec![]),
        account(vec![2u8; 32], 1, vec![0u8; 4]),
        AccountView {
            key: vec![3u8; 32],
            lamports: 1,
            data: vec![],
            is_signer: true,
            is_writable: false,
        },
        account(cfg.token_program_id.clone(), 1, vec![]),
    ];
    let effects = process_init(&accounts).unwrap();
    assert_eq!(effects.tracker_data, vec![0u8; 4]);
    accounts[2].is_signer = false;
    assert!(matches!(process_init(&accounts), Err(ProcessError::MissingRequiredSignature)));
}
