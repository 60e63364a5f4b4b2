use fix_session::session::SessionID;
use fix_session::store::MemoryStore;
use fix_session::store::MemoryStoreFactory;
use fix_session::store::MessageStore;
use fix_session::store::MessageStoreFactory;
use fix_session::store::StoreError;

fn test_session_id() -> SessionID {
    SessionID {
        begin_string: "FIX.4.4".to_string(),
        sender_comp_id: "SENDER".to_string(),
        target_comp_id: "TARGET".to_string(),
        qualifier: String::new(),
    }
}

#[test]
fn factory_creates_a_freshly_reset_store() {
    let before = chrono::Utc::now().timestamp_millis();
    let factory = MemoryStoreFactory::new();
    let store = factory.create(test_session_id()).unwrap();
    assert_eq!(store.next_sender_msg_seq_num(), 1);
    assert_eq!(store.next_target_msg_seq_num(), 1);
    assert_eq!(store.get_messages(1, 100).unwrap(), Vec::<Vec<u8>>::new());
    assert!(store.creation_time().millis >= before);
}

#[test]
fn incr_advances_next_seq_num_by_one_each_time() {
    let mut store = MemoryStoreFactory::new().create(test_session_id()).unwrap();
    let k = 7;
    for _ in 0..k {
        store.incr_next_sender_msg_seq_num().unwrap();
    }
    assert_eq!(store.next_sender_msg_seq_num(), k + 1);
    // the target counter is independent and advances the same way
    assert_eq!(store.next_target_msg_seq_num(), 1);
    store.incr_next_target_msg_seq_num().unwrap();
    assert_eq!(store.next_target_msg_seq_num(), 2);
    assert_eq!(store.next_sender_msg_seq_num(), k + 1);
}

#[test]
fn set_next_seq_num_then_read_it_back() {
    let mut store = MemoryStore::default();
    for n in [1, 2, 17, 4096] {
        store.set_next_sender_msg_seq_num(n).unwrap();
        assert_eq!(store.next_sender_msg_seq_num(), n);
        store.set_next_target_msg_seq_num(n).unwrap();
        assert_eq!(store.next_target_msg_seq_num(), n);
    }
}

#[test]
fn set_next_seq_num_below_one_is_rejected_without_mutating() {
    let mut store = MemoryStore::default();
    store.set_next_sender_msg_seq_num(9).unwrap();
    for bad in [0, -1, -100] {
        assert!(matches!(
            store.set_next_sender_msg_seq_num(bad),
            Err(StoreError::SeqNumOutOfRange)
        ));
        assert!(matches!(
            store.set_next_target_msg_seq_num(bad),
            Err(StoreError::SeqNumOutOfRange)
        ));
    }
    assert_eq!(store.next_sender_msg_seq_num(), 9);
    assert_eq!(store.next_target_msg_seq_num(), 1);
}

#[test]
fn save_and_incr_is_read_back_by_get_messages() {
    let mut store = MemoryStore::default();
    let seq = store.next_sender_msg_seq_num();
    let bytes = b"8=FIX.4.4|35=D|".to_vec();
    store
        .save_message_and_incr_next_sender_msg_seq_num(seq, bytes.clone())
        .unwrap();
    assert_eq!(store.get_messages(seq, seq).unwrap(), vec![bytes]);
    assert_eq!(store.next_sender_msg_seq_num(), seq + 1);
}

#[test]
fn get_messages_skips_gaps_and_keeps_ascending_order() {
    let mut store = MemoryStore::default();
    store.save_message(5, b"five".to_vec()).unwrap();
    store.save_message(2, b"two".to_vec()).unwrap();
    store.save_message(9, b"nine".to_vec()).unwrap();
    let got = store.get_messages(1, 6).unwrap();
    assert_eq!(got, vec![b"two".to_vec(), b"five".to_vec()]);
    assert!(got.len() as isize <= 6 - 1 + 1);
    assert_eq!(store.get_messages(1, 9).unwrap(), vec![
        b"two".to_vec(),
        b"five".to_vec(),
        b"nine".to_vec()
    ]);
    // an empty or inverted range yields nothing
    assert_eq!(store.get_messages(3, 4).unwrap(), Vec::<Vec<u8>>::new());
    assert_eq!(store.get_messages(6, 1).unwrap(), Vec::<Vec<u8>>::new());
}

#[test]
fn save_message_overwrites_the_prior_entry() {
    let mut store = MemoryStore::default();
    store.save_message(3, b"first".to_vec()).unwrap();
    store.save_message(3, b"second".to_vec()).unwrap();
    assert_eq!(store.get_messages(3, 3).unwrap(), vec![b"second".to_vec()]);
}

#[test]
fn reset_zeroes_counters_clears_messages_and_restamps_creation_time() {
    let mut store = MemoryStoreFactory::new().create(test_session_id()).unwrap();
    store.set_next_sender_msg_seq_num(15).unwrap();
    store.set_next_target_msg_seq_num(27).unwrap();
    store.save_message(3, b"kept until reset".to_vec()).unwrap();
    let before = chrono::Utc::now().timestamp_millis();
    store.reset().unwrap();
    assert_eq!(store.next_sender_msg_seq_num(), 1);
    assert_eq!(store.next_target_msg_seq_num(), 1);
    assert_eq!(store.get_messages(1, 50).unwrap(), Vec::<Vec<u8>>::new());
    assert!(store.creation_time().millis >= before);
}

#[test]
fn refresh_and_close_are_no_ops_for_the_memory_store() {
    let mut store = MemoryStore::default();
    store.save_message(1, b"one".to_vec()).unwrap();
    store.refresh().unwrap();
    store.close().unwrap();
    assert_eq!(store.get_messages(1, 1).unwrap(), vec![b"one".to_vec()]);
}

#[test]
fn saves_under_distinct_keys_land_exactly_once_whatever_the_order() {
    let keys: [isize; 5] = [4, 1, 3, 5, 2];
    // deliver the same writes in two different interleavings
    let mut forward = MemoryStore::default();
    for k in keys {
        forward.save_message(k, format!("msg-{}", k).into_bytes()).unwrap();
    }
    let mut backward = MemoryStore::default();
    for k in keys.iter().rev() {
        backward
            .save_message(*k, format!("msg-{}", k).into_bytes())
            .unwrap();
    }
    let want: Vec<Vec<u8>> = (1..=5)
        .map(|k| format!("msg-{}", k).into_bytes())
        .collect();
    assert_eq!(forward.get_messages(1, 5).unwrap(), want);
    assert_eq!(backward.get_messages(1, 5).unwrap(), want);
}
