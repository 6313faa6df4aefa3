//! Persisted layouts: profile and tracker records, instruction packing, and
//! the resize-before-write accounting of the tracker.

use order_tracker::instruction::{CreateMintInstruction, InitializeProfileInstruction,
    ProtocolInstruction};
use order_tracker::order_tracker::{encode_tracker, decode_tracker, OrderTracker, VolumeEntry};
use order_tracker::profile::{decode_profile, encode_profile, Profile};

#[test]
fn profile_round_trip() {
    let profile = Profile {
        wallet_address: vec![9u8; 32],
        username: b"alice".to_vec(),
        order_volume: 1234,
    };
    let data = encode_profile(&profile);
    assert_eq!(data.len(), 32 + 4 + 5 + 8);
    let back = decode_profile(&data).unwrap();
    assert_eq!(back.wallet_address, profile.wallet_address);
    assert_eq!(back.username, profile.username);
    assert_eq!(back.order_volume, profile.order_volume);
}

#[test]
fn profile_layout_matches_borsh() {
    let wallet = [9u8; 32];
    let profile = Profile {
        wallet_address: wallet.to_vec(),
        username: b"alice".to_vec(),
        order_volume: 1234,
    };
    let ours = encode_profile(&profile);
    let theirs = borsh::to_vec(&(wallet, "alice".to_string(), 1234u64)).unwrap();
    assert_eq!(ours, theirs);
}

#[test]
fn profile_rejects_truncation_and_bad_length() {
    let profile = Profile {
        wallet_address: vec![9u8; 32],
        username: b"alice".to_vec(),
        order_volume: 1,
    };
    let data = encode_profile(&profile);
    assert!(decode_profile(&data[..data.len() - 1].to_vec()).is_none());
    let mut grown = data.clone();
    grown.push(0);
    assert!(decode_profile(&grown).is_none());
    let mut wrong_len = data.clone();
    wrong_len[32] = 6;
    assert!(decode_profile(&wrong_len).is_none());
}

#[test]
fn tracker_round_trip_and_layout() {
    let mut tracker = OrderTracker { volume: vec![] };
    tracker.increment(&vec![1u8; 32], 10);
    tracker.increment(&vec![2u8; 32], 20);
    tracker.increment(&vec![1u8; 32], 5);
    let data = encode_tracker(&tracker);
    assert_eq!(data.len(), 4 + 2 * 40);
    assert_eq!(&data[..4], &[2, 0, 0, 0]);
    assert_eq!(&data[4..36], &[1u8; 32]);
    assert_eq!(&data[36..44], &15u64.to_le_bytes());
    assert_eq!(&data[44..76], &[2u8; 32]);
    assert_eq!(&data[76..84], &20u64.to_le_bytes());
    let back = decode_tracker(&data).unwrap();
    assert_eq!(back.volume.len(), 2);
    assert_eq!(back.volume[0].amount, 15);
    assert_eq!(back.volume[1].amount, 20);
}

#[test]
fn tracker_resize_keeps_prior_entries_intact() {
    let mut tracker = OrderTracker { volume: vec![] };
    let mut sizes = vec![];
    for i in 0..5u8 {
        tracker.increment(&vec![i + 1; 32], (i as u64 + 1) * 100);
        sizes.push(encode_tracker(&tracker).len());
    }
    for (i, size) in sizes.iter().enumerate() {
        assert_eq!(*size, 4 + 40 * (i + 1));
    }
    let four = encode_tracker(&OrderTracker {
        volume: tracker.volume.iter().take(4).map(|e| VolumeEntry {
            mint: e.mint.clone(),
            amount: e.amount,
        }).collect(),
    });
    let five = encode_tracker(&tracker);
    assert_eq!(&five[4..4 + 4 * 40], &four[4..]);
}

#[test]
fn tracker_rejects_bad_count() {
    let mut tracker = OrderTracker { volume: vec![] };
    tracker.increment(&vec![1u8; 32], 10);
    let mut data = encode_tracker(&tracker);
    data[0] = 2;
    assert!(decode_tracker(&data).is_none());
    assert!(decode_tracker(&vec![1, 2, 3]).is_none());
}

#[test]
fn empty_tracker_is_borsh_compatible() {
    let tracker = OrderTracker { volume: vec![] };
    let ours = encode_tracker(&tracker);
    let theirs =
        borsh::to_vec(&std::collections::HashMap::<[u8; 32], u64>::new()).unwrap();
    assert_eq!(ours, theirs);
}

#[test]
fn instruction_round_trip() {
    let ix = ProtocolInstruction::CreateMint(CreateMintInstruction {
        decimals: 6,
        name: b"Example".to_vec(),
        symbol: b"EXM".to_vec(),
        uri: b"https://example.test/meta.json".to_vec(),
    });
    let data = ix.pack();
    assert_eq!(data[0], 1);
    assert_eq!(data[1], 6);
    assert_eq!(&data[2..6], &7u32.to_le_bytes());
    match ProtocolInstruction::unpack(&data).unwrap() {
        ProtocolInstruction::CreateMint(c) => {
            assert_eq!(c.decimals, 6);
            assert_eq!(c.name, b"Example".to_vec());
            assert_eq!(c.symbol, b"EXM".to_vec());
            assert_eq!(c.uri, b"https://example.test/meta.json".to_vec());
        },
        _ => panic!("wrong variant"),
    }
    let ix = ProtocolInstruction::InitializeProfile(InitializeProfileInstruction {
        username: b"alice".to_vec(),
    });
    let data = ix.pack();
    assert_eq!(data, borsh::to_vec(&(2u8, "alice".to_string())).unwrap());
    match ProtocolInstruction::unpack(&data).unwrap() {
        ProtocolInstruction::InitializeProfile(p) => assert_eq!(p.username, b"alice".to_vec()),
        _ => panic!("wrong variant"),
    }
    assert_eq!(ProtocolInstruction::InitializeProtocol.pack(), vec![0u8]);
}

#[test]
fn instruction_unpack_rejects_junk() {
    assert!(ProtocolInstruction::unpack(&vec![]).is_err());
    assert!(ProtocolInstruction::unpack(&vec![5]).is_err());
    assert!(ProtocolInstruction::unpack(&vec![1, 6, 255, 255, 255, 255]).is_err());
    assert!(ProtocolInstruction::unpack(&vec![2, 1, 0, 0, 0]).is_err());
    let mut data = ProtocolInstruction::InitializeProfile(InitializeProfileInstruction {
        username: b"alice".to_vec(),
    })
    .pack();
    data.push(0);
    assert!(ProtocolInstruction::unpack(&data).is_err());
}
