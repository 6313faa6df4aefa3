//! The hook execution: the full check sequence, its error surface, and the
//! accounting effects of a successful transfer.

use order_tracker::account::AccountView;
use order_tracker::error::{ProcessError, ProtocolError};
use order_tracker::order_tracker::{decode_tracker, encode_tracker, OrderTracker};
use order_tracker::processor::{process, process_execute, ProcessEffects};
use order_tracker::profile::{decode_profile, encode_profile, Profile};
use order_tracker::soulbound::Soulbound;
use order_tracker::validation::ValidationData;
use order_tracker::ProtocolConfig;
use solana_program::program_option::COption;
use solana_program::program_pack::Pack;
use solana_program::pubkey::Pubkey;
use spl_token_2022::extension::transfer_hook::TransferHookAccount;
use spl_token_2022::extension::{BaseStateWithExtensionsMut, ExtensionType, StateWithExtensionsMut};
use spl_token_2022::state::{Account as TokenAccount, AccountState};
use spl_transfer_hook_interface::instruction::TransferHookInstruction;

const PROGRAM_ID: [u8; 32] = [7u8; 32];
const SOURCE_OWNER: [u8; 32] = [21u8; 32];
const DESTINATION_OWNER: [u8; 32] = [22u8; 32];
const MINT: [u8; 32] = [3u8; 32];

fn config() -> ProtocolConfig {
    let execute = TransferHookInstruction::Execute { amount: 0 }.pack();
    ProtocolConfig {
        program_id: PROGRAM_ID.to_vec(),
        token_program_id: spl_token_2022::id().to_bytes().to_vec(),
        ata_program_id: spl_associated_token_account::id().to_bytes().to_vec(),
        execute_tag: execute[..8].to_vec(),
    }
}

fn base_token_account(mint: &[u8], owner: &[u8], amount: u64) -> Vec<u8> {
    let account = TokenAccount {
        mint: Pubkey::try_from(mint).unwrap(),
        owner: Pubkey::try_from(owner).unwrap(),
        amount,
        delegate: COption::None,
        state: AccountState::Initialized,
        is_native: COption::None,
        delegated_amount: 0,
        close_authority: COption::None,
    };
    let mut data = vec![0u8; TokenAccount::LEN];
    TokenAccount::pack(account, &mut data).unwrap();
    data
}

fn hook_token_account(mint: &[u8], owner: &[u8], amount: u64, transferring: bool) -> Vec<u8> {
    let len = ExtensionType::try_calculate_account_len::<TokenAccount>(&[
        ExtensionType::TransferHookAccount,
    ])
    .unwrap();
    let mut data = vec![0u8; len];
    let mut state =
        StateWithExtensionsMut::<TokenAccount>::unpack_uninitialized(&mut data).unwrap();
    let extension = state.init_extension::<TransferHookAccount>(true).unwrap();
    extension.transferring = transferring.into();
    state.base = TokenAccount {
        mint: Pubkey::try_from(mint).unwrap(),
        owner: Pubkey::try_from(owner).unwrap(),
        amount,
        delegate: COption::None,
        state: AccountState::Initialized,
        is_native: COption::None,
        delegated_amount: 0,
        close_authority: COption::None,
    };
    state.pack_base();
    state.init_account_type().unwrap();
    data
}

fn account(key: Vec<u8>, lamports: u64, data: Vec<u8>) -> AccountView {
    AccountView { key, lamports, data, is_signer: false, is_writable: false }
}

fn profile_data(owner: &[u8], volume: u64) -> Vec<u8> {
    encode_profile(&Profile {
        wallet_address: owner.to_vec(),
        username: b"user".to_vec(),
        order_volume: volume,
    })
}

/// The thirteen accounts of a valid execution, both parties registered and
/// both token accounts flagged mid-transfer.
fn execute_accounts(cfg: &ProtocolConfig, transferring: bool) -> Vec<AccountView> {
    let soulbound = Soulbound::address(&cfg.program_id).unwrap();
    let tracker = OrderTracker { volume: vec![] };
    vec![
        account(vec![10u8; 32], 1, hook_token_account(&MINT, &SOURCE_OWNER, 100, transferring)),
        account(MINT.to_vec(), 1, vec![]),
        account(
            vec![11u8; 32],
            1,
            hook_token_account(&MINT, &DESTINATION_OWNER, 0, transferring),
        ),
        account(SOURCE_OWNER.to_vec(), 1, vec![]),
        account(ValidationData::address(&MINT.to_vec(), &cfg.program_id).unwrap(), 1, vec![]),
        account(cfg.token_program_id.clone(), 1, vec![]),
        account(cfg.ata_program_id.clone(), 1, vec![]),
        account(soulbound.clone(), 1, vec![]),
        account(
            Soulbound::token_account(&SOURCE_OWNER.to_vec(), cfg).unwrap(),
            1,
            base_token_account(&soulbound, &SOURCE_OWNER, 1),
        ),
        account(
            Profile::address(&SOURCE_OWNER.to_vec(), &cfg.program_id).unwrap(),
            1,
            profile_data(&SOURCE_OWNER, 0),
        ),
        account(
            Soulbound::token_account(&DESTINATION_OWNER.to_vec(), cfg).unwrap(),
            1,
            base_token_account(&soulbound, &DESTINATION_OWNER, 1),
        ),
        account(
            Profile::address(&DESTINATION_OWNER.to_vec(), &cfg.program_id).unwrap(),
            1,
            profile_data(&DESTINATION_OWNER, 0),
        ),
        account(
            order_tracker::order_tracker::OrderTracker::address(&cfg.program_id).unwrap(),
            1,
            encode_tracker(&tracker),
        ),
    ]
}

#[test]
fn execute_success() {
    let cfg = config();
    let accounts = execute_accounts(&cfg, true);
    let effects = process_execute(&cfg, &accounts, 10).unwrap();
    let profile = decode_profile(&effects.source_profile_data).unwrap();
    assert_eq!(profile.order_volume, 10);
    assert_eq!(profile.wallet_address, SOURCE_OWNER.to_vec());
    assert_eq!(effects.tracker_size, 4 + 40);
    assert_eq!(effects.tracker_data.len(), effects.tracker_size);
    let tracker = decode_tracker(&effects.tracker_data).unwrap();
    assert_eq!(tracker.volume.len(), 1);
    assert_eq!(tracker.volume[0].mint, MINT.to_vec());
    assert_eq!(tracker.volume[0].amount, 10);
}

#[test]
fn execute_through_hook_instruction() {
    let cfg = config();
    let accounts = execute_accounts(&cfg, true);
    let input = TransferHookInstruction::Execute { amount: 10 }.pack();
    match process(&cfg, &accounts, &input).unwrap() {
        ProcessEffects::Execute(effects) => {
            let profile = decode_profile(&effects.source_profile_data).unwrap();
            assert_eq!(profile.order_volume, 10);
        },
        _ => panic!("wrong effects"),
    }
}

#[test]
fn execute_accumulates_volume() {
    let cfg = config();
    let mut accounts = execute_accounts(&cfg, true);
    let first = process_execute(&cfg, &accounts, 10).unwrap();
    accounts[9].data = first.source_profile_data.clone();
    accounts[12].data = first.tracker_data.clone();
    let second = process_execute(&cfg, &accounts, 32).unwrap();
    let profile = decode_profile(&second.source_profile_data).unwrap();
    assert_eq!(profile.order_volume, 42);
    let tracker = decode_tracker(&second.tracker_data).unwrap();
    assert_eq!(tracker.volume.len(), 1);
    assert_eq!(tracker.volume[0].amount, 42);
    assert_eq!(second.tracker_size, first.tracker_size);
}

#[test]
fn execute_fail_incorrect_soulbound_mint() {
    let cfg = config();
    let mut accounts = execute_accounts(&cfg, true);
    accounts[7].key = vec![99u8; 32];
    assert!(matches!(
        process_execute(&cfg, &accounts, 10),
        Err(ProcessError::Protocol(ProtocolError::IncorrectSoulboundMint)),
    ));
}

#[test]
fn fail_incorrect_validation_account_on_execute() {
    let cfg = config();
    let mut accounts = execute_accounts(&cfg, true);
    accounts[4].key = vec![99u8; 32];
    assert!(matches!(
        process_execute(&cfg, &accounts, 10),
        Err(ProcessError::Protocol(ProtocolError::IncorrectValidationAccount)),
    ));
}

#[test]
fn fail_incorrect_source_soulbound_token_account() {
    let cfg = config();
    let mut accounts = execute_accounts(&cfg, true);
    let third_party = vec![33u8; 32];
    accounts[8].key = Soulbound::token_account(&third_party, &cfg).unwrap();
    assert!(matches!(
        process_execute(&cfg, &accounts, 10),
        Err(ProcessError::Protocol(ProtocolError::IncorrectSoulboundTokenAccount)),
    ));
}

#[test]
fn fail_source_soulbound_token_account_has_no_tokens() {
    let cfg = config();
    let soulbound = Soulbound::address(&config().program_id).unwrap();
    let mut accounts = execute_accounts(&cfg, true);
    accounts[8].data = base_token_account(&soulbound, &SOURCE_OWNER, 0);
    assert!(matches!(
        process_execute(&cfg, &accounts, 10),
        Err(ProcessError::Protocol(ProtocolError::SoulboundTokenAccountIsEmpty)),
    ));
}

#[test]
fn fail_incorrect_destination_soulbound_token_account() {
    let cfg = config();
    let mut accounts = execute_accounts(&cfg, true);
    let third_party = vec![33u8; 32];
    accounts[10].key = Soulbound::token_account(&third_party, &cfg).unwrap();
    assert!(matches!(
        process_execute(&cfg, &accounts, 10),
        Err(ProcessError::Protocol(ProtocolError::IncorrectSoulboundTokenAccount)),
    ));
}

#[test]
fn fail_destination_soulbound_token_account_has_no_tokens() {
    let cfg = config();
    let soulbound = Soulbound::address(&config().program_id).unwrap();
    let mut accounts = execute_accounts(&cfg, true);
    accounts[10].data = base_token_account(&soulbound, &DESTINATION_OWNER, 0);
    assert!(matches!(
        process_execute(&cfg, &accounts, 10),
        Err(ProcessError::Protocol(ProtocolError::SoulboundTokenAccountIsEmpty)),
    ));
}

#[test]
fn fail_source_profile_does_not_exist() {
    let cfg = config();
    let mut accounts = execute_accounts(&cfg, true);
    accounts[9].lamports = 0;
    let before_tracker = accounts[12].data.clone();
    assert!(matches!(
        process_execute(&cfg, &accounts, 10),
        Err(ProcessError::Protocol(ProtocolError::ProfileNotInitialized)),
    ));
    assert_eq!(accounts[12].data, before_tracker);
}

#[test]
fn fail_destination_profile_does_not_exist() {
    let cfg = config();
    let mut accounts = execute_accounts(&cfg, true);
    accounts[11].lamports = 0;
    assert!(matches!(
        process_execute(&cfg, &accounts, 10),
        Err(ProcessError::Protocol(ProtocolError::ProfileNotInitialized)),
    ));
}

#[test]
fn fail_cannot_invoke_directly() {
    let cfg = config();
    let accounts = execute_accounts(&cfg, false);
    assert!(matches!(
        process_execute(&cfg, &accounts, 10),
        Err(ProcessError::CalledOutsideOfTransfer),
    ));
}

/// Both parties register, a mint is created, then one transfer of ten units
/// runs through the hook: the source profile and the mint's tracker entry
/// both grow by ten.
#[test]
fn full_flow_updates_both_counters() {
    let cfg = config();
    let soulbound = Soulbound::address(&cfg.program_id).unwrap();

    let init_accounts = vec![
        account(soulbound.clone(), 1, vec![]),
        account(
            order_tracker::order_tracker::OrderTracker::address(&cfg.program_id).unwrap(),
            1,
            vec![0u8; 4],
        ),
        AccountView {
            key: vec![50u8; 32],
            lamports: 1,
            data: vec![],
            is_signer: true,
            is_writable: false,
        },
        account(cfg.token_program_id.clone(), 1, vec![]),
    ];
    let init = order_tracker::processor::process_init(&init_accounts).unwrap();

    let mut register = |owner: &[u8; 32]| -> Vec<u8> {
        let accounts = vec![
            account(soulbound.clone(), 1, vec![]),
            account(
                Soulbound::token_account(&owner.to_vec(), &cfg).unwrap(),
                1,
                base_token_account(&soulbound, owner, 0),
            ),
            account(Profile::address(&owner.to_vec(), &cfg.program_id).unwrap(), 0, vec![]),
            AccountView {
                key: owner.to_vec(),
                lamports: 1,
                data: vec![],
                is_signer: true,
                is_writable: false,
            },
            account(vec![60u8; 32], 1, vec![]),
            account(cfg.token_program_id.clone(), 1, vec![]),
            account(vec![0u8; 32], 1, vec![]),
        ];
        order_tracker::processor::process_initialize_profile(&cfg, &accounts, &b"user".to_vec())
            .unwrap()
            .profile_data
    };
    let source_profile = register(&SOURCE_OWNER);
    let destination_profile = register(&DESTINATION_OWNER);

    let mut accounts = execute_accounts(&cfg, true);
    accounts[9].data = source_profile;
    accounts[11].data = destination_profile;
    accounts[12].data = init.tracker_data;
    let effects = process_execute(&cfg, &accounts, 10).unwrap();
    let profile = decode_profile(&effects.source_profile_data).unwrap();
    assert_eq!(profile.order_volume, 10);
    let tracker = decode_tracker(&effects.tracker_data).unwrap();
    assert_eq!(tracker.volume.len(), 1);
    assert_eq!(tracker.volume[0].mint, MINT.to_vec());
    assert_eq!(tracker.volume[0].amount, 10);
}
