//! The validation descriptor store: exact size, byte-for-byte agreement with
//! the host interface's own encoder, and the buffer guard.

use order_tracker::error::ProcessError;
use order_tracker::soulbound::Soulbound;
use order_tracker::validation::ValidationData;
use order_tracker::ProtocolConfig;
use solana_program::pubkey::Pubkey;
use spl_tlv_account_resolution::account::ExtraAccountMeta;
use spl_tlv_account_resolution::seeds::Seed;
use spl_tlv_account_resolution::state::ExtraAccountMetaList;
use spl_transfer_hook_interface::instruction::{ExecuteInstruction, TransferHookInstruction};

const PROGRAM_ID: [u8; 32] = [7u8; 32];

fn config() -> ProtocolConfig {
    let execute = TransferHookInstruction::Execute { amount: 0 }.pack();
    ProtocolConfig {
        program_id: PROGRAM_ID.to_vec(),
        token_program_id: spl_token_2022::id().to_bytes().to_vec(),
        ata_program_id: spl_associated_token_account::id().to_bytes().to_vec(),
        execute_tag: execute[..8].to_vec(),
    }
}

fn reference_metas(soulbound_mint: &Pubkey) -> [ExtraAccountMeta; 8] {
    [
        ExtraAccountMeta::new_with_pubkey(&spl_token_2022::id(), false, false).unwrap(),
        ExtraAccountMeta::new_with_pubkey(&spl_associated_token_account::id(), false, false)
            .unwrap(),
        ExtraAccountMeta::new_with_pubkey(soulbound_mint, false, false).unwrap(),
        ExtraAccountMeta::new_external_pda_with_seeds(
            6,
            &[
                Seed::AccountKey { index: 3 },
                Seed::AccountKey { index: 5 },
                Seed::AccountKey { index: 7 },
            ],
            false,
            false,
        )
        .unwrap(),
        ExtraAccountMeta::new_with_seeds(
            &[Seed::Literal { bytes: b"profile".to_vec() }, Seed::AccountKey { index: 3 }],
            false,
            true,
        )
        .unwrap(),
        ExtraAccountMeta::new_external_pda_with_seeds(
            6,
            &[
                Seed::AccountData { account_index: 2, data_index: 32, length: 32 },
                Seed::AccountKey { index: 5 },
                Seed::AccountKey { index: 7 },
            ],
            false,
            false,
        )
        .unwrap(),
        ExtraAccountMeta::new_with_seeds(
            &[
                Seed::Literal { bytes: b"profile".to_vec() },
                Seed::AccountData { account_index: 2, data_index: 32, length: 32 },
            ],
            false,
            true,
        )
        .unwrap(),
        ExtraAccountMeta::new_with_seeds(
            &[Seed::Literal { bytes: b"order_tracker".to_vec() }],
            false,
            true,
        )
        .unwrap(),
    ]
}

#[test]
fn store_size_matches_interface() {
    assert_eq!(ValidationData::get_len(), ExtraAccountMetaList::size_of(8).unwrap());
}

#[test]
fn store_bytes_match_interface_encoder() {
    let cfg = config();
    let mut ours = vec![0u8; ValidationData::get_len()];
    ValidationData::write_validation_data(&mut ours, &cfg).unwrap();

    let mint =
        Pubkey::try_from(Soulbound::address(&cfg.program_id).unwrap().as_slice()).unwrap();
    let mut theirs = vec![0u8; ExtraAccountMetaList::size_of(8).unwrap()];
    ExtraAccountMetaList::init::<ExecuteInstruction>(&mut theirs, &reference_metas(&mint))
        .unwrap();
    assert_eq!(ours, theirs);
}

#[test]
fn store_rejects_short_buffer() {
    let cfg = config();
    let mut short = vec![0u8; ValidationData::get_len() - 1];
    let before = short.clone();
    assert_eq!(
        ValidationData::write_validation_data(&mut short, &cfg),
        Err(ProcessError::BufferTooSmall),
    );
    assert_eq!(short, before);
}

#[test]
fn store_leaves_trailing_bytes_alone() {
    let cfg = config();
    let mut data = vec![9u8; ValidationData::get_len() + 3];
    ValidationData::write_validation_data(&mut data, &cfg).unwrap();
    assert_eq!(&data[ValidationData::get_len()..], &[9u8, 9, 9]);
}
