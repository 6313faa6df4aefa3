//! Account resolution: declared order always resolves, forward references
//! fail as unresolved, and slices past an account's content are out of
//! bounds.

use order_tracker::account::AccountView;
use order_tracker::error::ResolveError;
use order_tracker::profile::Profile;
use order_tracker::order_tracker::OrderTracker;
use order_tracker::resolve::{resolve_all, resolve_descriptor, resolve_seed};
use order_tracker::soulbound::Soulbound;
use order_tracker::validation::{SeedSpec, ValidationData, ValidationDescriptor};
use order_tracker::ProtocolConfig;
use spl_transfer_hook_interface::instruction::TransferHookInstruction;

const PROGRAM_ID: [u8; 32] = [7u8; 32];

fn config() -> ProtocolConfig {
    let execute = TransferHookInstruction::Execute { amount: 0 }.pack();
    ProtocolConfig {
        program_id: PROGRAM_ID.to_vec(),
        token_program_id: spl_token_2022::id().to_bytes().to_vec(),
        ata_program_id: spl_associated_token_account::id().to_bytes().to_vec(),
        execute_tag: execute[..8].to_vec(),
    }
}

fn account(key: Vec<u8>, data: Vec<u8>) -> AccountView {
    AccountView { key, lamports: 1, data, is_signer: false, is_writable: false }
}

/// The five accounts a transfer execution starts from: source, mint,
/// destination, source owner, validation account. The destination's content
/// carries its owner at bytes 32 to 64, as the token layout prescribes.
fn base_accounts(cfg: &ProtocolConfig, source_owner: &[u8], destination_owner: &[u8]) -> Vec<AccountView> {
    let mint = vec![3u8; 32];
    let mut destination_data = vec![0u8; 165];
    destination_data[32..64].copy_from_slice(destination_owner);
    vec![
        account(vec![10u8; 32], vec![0u8; 165]),
        account(mint.clone(), vec![]),
        account(vec![11u8; 32], destination_data),
        account(source_owner.to_vec(), vec![]),
        account(ValidationData::address(&mint, &cfg.program_id).unwrap(), vec![]),
    ]
}

#[test]
fn canonical_list_resolves_in_declared_order() {
    let cfg = config();
    let source_owner = vec![21u8; 32];
    let destination_owner = vec![22u8; 32];
    let accounts = base_accounts(&cfg, &source_owner, &destination_owner);
    let descriptors = ValidationData::extra_metas(&cfg).unwrap();
    let resolved = resolve_all(&descriptors, &accounts, &cfg.program_id).unwrap();
    assert_eq!(resolved.len(), 13);
    assert_eq!(resolved[5].key, cfg.token_program_id);
    assert_eq!(resolved[6].key, cfg.ata_program_id);
    assert_eq!(resolved[7].key, Soulbound::address(&cfg.program_id).unwrap());
    assert_eq!(resolved[8].key, Soulbound::token_account(&source_owner, &cfg).unwrap());
    assert_eq!(resolved[9].key, Profile::address(&source_owner, &cfg.program_id).unwrap());
    assert_eq!(resolved[10].key, Soulbound::token_account(&destination_owner, &cfg).unwrap());
    assert_eq!(
        resolved[11].key,
        Profile::address(&destination_owner, &cfg.program_id).unwrap(),
    );
    assert_eq!(resolved[12].key, OrderTracker::address(&cfg.program_id).unwrap());
    assert!(!resolved[8].is_writable);
    assert!(resolved[9].is_writable);
    assert!(resolved[12].is_writable);
}

#[test]
fn forward_reference_is_unresolved() {
    let cfg = config();
    let accounts = base_accounts(&cfg, &[21u8; 32], &[22u8; 32]);
    let forward = ValidationDescriptor::AccountKeyRef { index: 9 };
    assert_eq!(
        resolve_descriptor(&forward, &accounts, &cfg.program_id),
        Err(ResolveError::UnresolvedReference),
    );
    let forward_authority = ValidationDescriptor::ExternalPda {
        authority_index: 9,
        seeds: vec![SeedSpec::AccountKey { index: 0 }],
        writable: false,
    };
    assert_eq!(
        resolve_descriptor(&forward_authority, &accounts, &cfg.program_id),
        Err(ResolveError::UnresolvedReference),
    );
    let forward_seed = ValidationDescriptor::PdaFromSeeds {
        seeds: vec![SeedSpec::AccountKey { index: 9 }],
        writable: false,
    };
    assert_eq!(
        resolve_descriptor(&forward_seed, &accounts, &cfg.program_id),
        Err(ResolveError::UnresolvedReference),
    );
}

#[test]
fn slice_past_account_content_is_out_of_bounds() {
    let cfg = config();
    let accounts = base_accounts(&cfg, &[21u8; 32], &[22u8; 32]);
    let seed = SeedSpec::AccountDataSlice { account_index: 1, offset: 0, length: 1 };
    assert_eq!(resolve_seed(&seed, &accounts), Err(ResolveError::OutOfBounds));
    let seed = SeedSpec::AccountDataSlice { account_index: 2, offset: 160, length: 32 };
    assert_eq!(resolve_seed(&seed, &accounts), Err(ResolveError::OutOfBounds));
    let in_range = SeedSpec::AccountDataSlice { account_index: 2, offset: 32, length: 32 };
    assert_eq!(resolve_seed(&in_range, &accounts), Ok(vec![22u8; 32]));
}
