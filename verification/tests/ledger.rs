use rollup_core::account::{AccountId, L2Account};
use rollup_core::codec::{decode_record, encode_record};
use rollup_core::state_manager::StateManager;

fn id(n: u64) -> AccountId {
    AccountId { w0: n, w1: n, w2: 0, w3: n }
}

fn account(lamports: u64, data: Vec<u8>) -> L2Account {
    L2Account {
        lamports,
        data,
        owner: id(77),
        executable: true,
        rent_epoch: 3,
    }
}

#[test]
fn codec_round_trip() {
    let a = account(123456789, vec![1, 2, 3, 4, 5]);
    let bytes = encode_record(&a);
    let back = decode_record(&bytes).unwrap();
    assert_eq!(back.lamports, a.lamports);
    assert_eq!(back.data, a.data);
    assert_eq!(back.owner, a.owner);
    assert_eq!(back.executable, a.executable);
    assert_eq!(back.rent_epoch, a.rent_epoch);
}

#[test]
fn codec_exact_bytes() {
    let a = L2Account {
        lamports: 0x0102030405060708,
        data: vec![0xaa, 0xbb],
        owner: AccountId { w0: 1, w1: 2, w2: 3, w3: 4 },
        executable: false,
        rent_epoch: 9,
    };
    let bytes = encode_record(&a);
    let mut expected = vec![1u8];
    expected.extend_from_slice(&0x0102030405060708u64.to_le_bytes());
    expected.extend_from_slice(&1u64.to_le_bytes());
    expected.extend_from_slice(&2u64.to_le_bytes());
    expected.extend_from_slice(&3u64.to_le_bytes());
    expected.extend_from_slice(&4u64.to_le_bytes());
    expected.push(0);
    expected.extend_from_slice(&9u64.to_le_bytes());
    expected.extend_from_slice(&2u64.to_le_bytes());
    expected.extend_from_slice(&[0xaa, 0xbb]);
    assert_eq!(bytes, expected);
}

#[test]
fn decode_rejects_malformed() {
    let a = account(5, vec![8, 8]);
    let good = encode_record(&a);

    // Too short.
    assert!(decode_record(&good[..40].to_vec()).is_none());
    // Wrong version byte.
    let mut wrong_version = good.clone();
    wrong_version[0] = 2;
    assert!(decode_record(&wrong_version).is_none());
    // Executable flag out of range.
    let mut bad_flag = good.clone();
    bad_flag[41] = 7;
    assert!(decode_record(&bad_flag).is_none());
    // Declared data length disagrees with the buffer.
    let mut bad_len = good.clone();
    bad_len[50] = 99;
    assert!(decode_record(&bad_len).is_none());
}

#[test]
fn read_through_and_absence() {
    let mut sm = StateManager::new();
    assert!(sm.get_account(&id(1)).is_none());
    sm.update_account(&id(1), account(42, vec![9]));
    let got = sm.get_account(&id(1)).unwrap();
    assert_eq!(got.lamports, 42);
    assert_eq!(got.data, vec![9]);
    // A second read is served from the cache and agrees.
    let again = sm.get_account(&id(1)).unwrap();
    assert_eq!(again.lamports, 42);
    assert!(sm.get_account(&id(2)).is_none());
}

#[test]
fn update_overwrites() {
    let mut sm = StateManager::new();
    sm.update_account(&id(1), account(42, vec![]));
    sm.update_account(&id(1), account(7, vec![1]));
    let got = sm.get_account(&id(1)).unwrap();
    assert_eq!(got.lamports, 7);
    assert_eq!(got.data, vec![1]);
}

#[test]
fn restore_installs_durable_records() {
    let mut sm = StateManager::new();
    let bytes = encode_record(&account(64, vec![4, 2]));
    assert!(sm.restore_account(&id(5), &bytes));
    let got = sm.get_account(&id(5)).unwrap();
    assert_eq!(got.lamports, 64);
    assert_eq!(got.data, vec![4, 2]);
    // Malformed bytes are rejected and install nothing.
    assert!(!sm.restore_account(&id(6), &vec![1, 2, 3]));
    assert!(sm.get_account(&id(6)).is_none());
}

#[test]
fn state_root_is_32_bytes() {
    let sm = StateManager::new();
    assert_eq!(sm.get_state_root().len(), 32);
}

#[test]
fn commitment_is_order_independent() {
    let records = [
        (id(1), account(10, vec![1])),
        (id(2), account(20, vec![2, 2])),
        (id(3), account(30, vec![])),
    ];
    let mut forward = StateManager::new();
    for (who, rec) in records.iter() {
        forward.update_account(who, rec.clone());
    }
    let mut backward = StateManager::new();
    for (who, rec) in records.iter().rev() {
        backward.update_account(who, rec.clone());
    }
    assert_eq!(forward.get_state_root(), backward.get_state_root());
}

#[test]
fn commitment_tracks_content() {
    let mut sm = StateManager::new();
    let empty_root = sm.get_state_root();
    sm.update_account(&id(1), account(10, vec![]));
    let after_one = sm.get_state_root();
    assert_ne!(empty_root, after_one);
    sm.update_account(&id(1), account(11, vec![]));
    let after_change = sm.get_state_root();
    assert_ne!(after_one, after_change);
    // Writing the same content back restores the same commitment.
    sm.update_account(&id(1), account(10, vec![]));
    assert_eq!(sm.get_state_root(), after_one);
}

#[test]
fn restore_rebuilds_the_same_commitment() {
    let mut direct = StateManager::new();
    direct.update_account(&id(1), account(10, vec![1]));
    direct.update_account(&id(2), account(20, vec![]));
    let mut restored = StateManager::new();
    assert!(restored.restore_account(&id(2), &encode_record(&account(20, vec![]))));
    assert!(restored.restore_account(&id(1), &encode_record(&account(10, vec![1]))));
    assert_eq!(direct.get_state_root(), restored.get_state_root());
}
