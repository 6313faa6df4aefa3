//! Address derivation: determinism, and agreement with the host SDK's own
//! derivation helpers.

use order_tracker::profile::Profile;
use order_tracker::soulbound::{MintAuthority, Soulbound};
use order_tracker::order_tracker::OrderTracker;
use order_tracker::validation::ValidationData;
use order_tracker::ProtocolConfig;
use solana_program::pubkey::Pubkey;
use spl_transfer_hook_interface::instruction::TransferHookInstruction;

const PROGRAM_ID: [u8; 32] = [7u8; 32];

fn config() -> ProtocolConfig {
    let execute = TransferHookInstruction::Execute { amount: 0 }.pack();
    ProtocolConfig {
        program_id: PROGRAM_ID.to_vec(),
        token_program_id: spl_token_2022::id().to_bytes().to_vec(),
        ata_program_id: spl_associated_token_account::id().to_bytes().to_vec(),
        execute_tag: execute[..8].to_vec(),
    }
}

#[test]
fn derivation_is_deterministic() {
    let wallet = vec![9u8; 32];
    let pid = PROGRAM_ID.to_vec();
    let first = Profile::address_with_bump(&wallet, &pid).unwrap();
    let second = Profile::address_with_bump(&wallet, &pid).unwrap();
    assert_eq!(first.0, second.0);
    assert_eq!(first.1, second.1);
    let a = Soulbound::address(&pid).unwrap();
    let b = Soulbound::address(&pid).unwrap();
    assert_eq!(a, b);
}

#[test]
fn profile_address_matches_sdk() {
    let wallet = vec![9u8; 32];
    let pid = PROGRAM_ID.to_vec();
    let ours = Profile::address_with_bump(&wallet, &pid).unwrap();
    let theirs = Pubkey::find_program_address(
        &[b"profile", wallet.as_slice()],
        &Pubkey::new_from_array(PROGRAM_ID),
    );
    assert_eq!(ours.0, theirs.0.to_bytes().to_vec());
    assert_eq!(ours.1, theirs.1);
}

#[test]
fn singleton_addresses_match_sdk() {
    let pid = PROGRAM_ID.to_vec();
    let program = Pubkey::new_from_array(PROGRAM_ID);
    assert_eq!(
        Soulbound::address(&pid).unwrap(),
        Pubkey::find_program_address(&[b"soulbound"], &program).0.to_bytes().to_vec(),
    );
    assert_eq!(
        MintAuthority::address(&pid).unwrap(),
        Pubkey::find_program_address(&[b"mint_authority"], &program).0.to_bytes().to_vec(),
    );
    assert_eq!(
        OrderTracker::address(&pid).unwrap(),
        Pubkey::find_program_address(&[b"order_tracker"], &program).0.to_bytes().to_vec(),
    );
    assert_eq!(MintAuthority::seed(), b"mint_authority".to_vec());
    assert_eq!(Profile::seed(), b"profile".to_vec());
    assert_eq!(OrderTracker::seed(), b"order_tracker".to_vec());
}

#[test]
fn token_account_matches_associated_token_program() {
    let cfg = config();
    let wallet = vec![9u8; 32];
    let ours = Soulbound::token_account(&wallet, &cfg).unwrap();
    let mint = Pubkey::try_from(Soulbound::address(&cfg.program_id).unwrap().as_slice()).unwrap();
    let theirs = spl_associated_token_account::get_associated_token_address_with_program_id(
        &Pubkey::new_from_array([9u8; 32]),
        &mint,
        &spl_token_2022::id(),
    );
    assert_eq!(ours, theirs.to_bytes().to_vec());
}

#[test]
fn validation_address_matches_hook_interface() {
    let pid = PROGRAM_ID.to_vec();
    let mint = vec![3u8; 32];
    let ours = ValidationData::address(&mint, &pid).unwrap();
    let theirs = spl_transfer_hook_interface::get_extra_account_metas_address(
        &Pubkey::new_from_array([3u8; 32]),
        &Pubkey::new_from_array(PROGRAM_ID),
    );
    assert_eq!(ours, theirs.to_bytes().to_vec());
}
