use guard_session::agreements::{
    agreement_storage_key, answer_for, decode_entry, encode_entry,
    peer_id_from_network, signing_order, sort_keys,
};
use guard_session::historical::{derive_key, identified_guardians};
use guard_session::session::{AgreementAction, AgreementEntry, AgreementState, Pallet};
use guard_session::IdMap;

#[test]
fn storage_key_is_the_blake2_256_digest() {
    assert_eq!(
        agreement_storage_key(&vec![]),
        [
            14, 87, 81, 192, 38, 229, 67, 178, 232, 171, 46, 176, 96, 153, 218, 161, 209, 229, 223, 71, 119,
            143, 119, 135, 250, 171, 69, 205, 241, 47, 227, 168
        ]
    );
    assert_eq!(
        agreement_storage_key(&b"abc".to_vec()),
        [
            189, 221, 129, 60, 99, 66, 57, 114, 49, 113, 239, 63, 238, 152, 87, 155, 148, 150, 78, 59, 177,
            203, 62, 66, 114, 98, 200, 192, 104, 213, 35, 25
        ]
    );
}

#[test]
fn entries_encode_and_decode() {
    let e = AgreementEntry(AgreementAction::Reject, AgreementState::Processed, [9u8; 32]);
    let bytes = encode_entry(&e);
    let mut expected = vec![2u8, 1];
    expected.extend_from_slice(&[9u8; 32]);
    assert_eq!(bytes, expected);
    assert_eq!(decode_entry(&bytes), Some(e));
    // Trailing bytes are ignored.
    let mut longer = bytes.clone();
    longer.push(77);
    assert_eq!(decode_entry(&longer), Some(e));
    // Too short, or an index out of range.
    assert_eq!(decode_entry(&bytes[..33]), None);
    let mut bad = bytes.clone();
    bad[0] = 3;
    assert_eq!(decode_entry(&bad), None);
    bad[0] = 0;
    bad[1] = 2;
    assert_eq!(decode_entry(&bad), None);
}

#[test]
fn only_pending_actions_call_for_an_answer() {
    let id = [1u8; 32];
    let accept = encode_entry(&AgreementEntry(AgreementAction::Accept, AgreementState::Pending, id));
    assert_eq!(answer_for(&accept), Some(AgreementEntry(AgreementAction::Accept, AgreementState::Pending, id)));
    let ignore = encode_entry(&AgreementEntry(AgreementAction::Ignore, AgreementState::Pending, id));
    assert_eq!(answer_for(&ignore), None);
    let done = encode_entry(&AgreementEntry(AgreementAction::Reject, AgreementState::Processed, id));
    assert_eq!(answer_for(&done), None);
    assert_eq!(answer_for(&vec![1u8, 0]), None);
}

#[test]
fn peer_id_is_the_last_32_bytes_right_aligned() {
    let long: Vec<u8> = (0u8..40).collect();
    let id = peer_id_from_network(&long);
    let expected: Vec<u8> = (8u8..40).collect();
    assert_eq!(id.to_vec(), expected);
    let short = vec![1u8, 2, 3];
    let id = peer_id_from_network(&short);
    let mut expected = vec![0u8; 29];
    expected.extend_from_slice(&[1, 2, 3]);
    assert_eq!(id.to_vec(), expected);
    assert_eq!(peer_id_from_network(&vec![]), [0u8; 32]);
}

#[test]
fn pending_agreements_are_answered_once() {
    let tx1 = b"first transaction".to_vec();
    let tx2 = b"second transaction".to_vec();
    let tx3 = b"third transaction".to_vec();
    let tx4 = b"fourth transaction".to_vec();
    let tx5 = b"fifth transaction".to_vec();
    let id1 = [11u8; 32];
    let id2 = [12u8; 32];
    let id4 = [14u8; 32];
    let mut store: IdMap<Vec<u8>> = IdMap::new();
    store.insert(agreement_storage_key(&tx1), encode_entry(&AgreementEntry(AgreementAction::Accept, AgreementState::Pending, id1)));
    store.insert(agreement_storage_key(&tx2), encode_entry(&AgreementEntry(AgreementAction::Ignore, AgreementState::Pending, id2)));
    store.insert(agreement_storage_key(&tx4), encode_entry(&AgreementEntry(AgreementAction::Reject, AgreementState::Pending, id4)));
    store.insert(agreement_storage_key(&tx5), vec![9u8, 9, 9]);
    let network: Vec<u8> = (100u8..140).collect();
    let peer = peer_id_from_network(&network);

    let items = vec![tx1.clone(), tx2.clone(), tx3.clone(), tx1.clone(), tx4.clone(), tx5.clone()];
    let votes = Pallet::accept_agreements(&mut store, &items, &network);
    assert_eq!(votes, vec![(id1, peer, true), (id4, peer, false)]);
    assert_eq!(
        store.get(&agreement_storage_key(&tx1)),
        Some(&encode_entry(&AgreementEntry(AgreementAction::Accept, AgreementState::Processed, id1)))
    );
    assert_eq!(
        store.get(&agreement_storage_key(&tx4)),
        Some(&encode_entry(&AgreementEntry(AgreementAction::Reject, AgreementState::Processed, id4)))
    );
    assert_eq!(
        store.get(&agreement_storage_key(&tx2)),
        Some(&encode_entry(&AgreementEntry(AgreementAction::Ignore, AgreementState::Pending, id2)))
    );
    assert_eq!(store.get(&agreement_storage_key(&tx3)), None);
    assert_eq!(store.get(&agreement_storage_key(&tx5)), Some(&vec![9u8, 9, 9]));

    // A second pass answers nothing.
    assert!(Pallet::accept_agreements(&mut store, &items, &network).is_empty());
}

#[test]
fn guardians_are_paired_with_their_identification() {
    let g = vec![[1u8; 32], [2u8; 32], [3u8; 32]];
    let r = identified_guardians(&g, vec![Some(10u64), None, Some(30u64)]);
    assert_eq!(r, vec![([1u8; 32], 10), ([3u8; 32], 30)]);
    let none: Vec<([u8; 32], u64)> = identified_guardians(&vec![], vec![]);
    assert!(none.is_empty());
}

#[test]
fn id_map_insert_get_remove() {
    let mut m: IdMap<u32> = IdMap::new();
    let k1 = [1u8; 32];
    let k2 = [2u8; 32];
    m.insert(k1, 10);
    m.insert(k2, 20);
    m.insert(k1, 11);
    assert_eq!(m.get(&k1), Some(&11));
    assert_eq!(m.remove(&k2), Some(20));
    assert_eq!(m.remove(&k2), None);
    assert!(!m.contains_key(&k2));
    assert_eq!(m.into_entries(), vec![(k1, 11)]);
}

#[test]
fn keys_sign_in_byte_order_each_answer_in_turn() {
    let k1 = [1u8; 32];
    let mut k2 = [1u8; 32];
    k2[31] = 0;
    let k3 = [0u8; 32];
    let v1 = ([7u8; 32], [8u8; 32], true);
    let v2 = ([9u8; 32], [8u8; 32], false);
    let order = signing_order(&vec![k1, k2, k3], &vec![v1, v2]);
    assert_eq!(order, vec![(k3, v1), (k3, v2), (k2, v1), (k2, v2), (k1, v1), (k1, v2)]);
    assert_eq!(sort_keys(&vec![k1, k3, k1, k2]), vec![k3, k2, k1, k1]);
    assert!(signing_order(&vec![], &vec![v1]).is_empty());
    assert!(signing_order(&vec![k1], &vec![]).is_empty());
}

#[test]
fn offchain_key_is_prefix_slash_and_encoded_index() {
    let mut expected = b"session_historical/".to_vec();
    expected.extend_from_slice(&[0x04, 0x03, 0x02, 0x01]);
    assert_eq!(derive_key(b"session_historical", 0x0102_0304), expected);
    assert_eq!(derive_key(b"", 0), vec![b'/', 0, 0, 0, 0]);
}
