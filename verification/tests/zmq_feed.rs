use bitcoin_rpc_web::protocol::zmq_messages_response;
use bitcoin_rpc_web::rpc_client::parse_response;
use bitcoin_rpc_web::zmq::{
    clamp_wait_ms, hash_from_notification, hex_encode, mark_disconnected, ZmqState,
};

fn push_plain(state: &mut ZmqState, topic: &str) {
    state.push(topic.to_string(), String::new(), 0, 0, 0, None);
}

fn cursors(state: &ZmqState) -> Vec<u64> {
    state.messages.iter().map(|m| m.cursor).collect()
}

#[test]
fn disconnect_clears_connection_address() {
    let mut state = ZmqState {
        connected: true,
        address: "tcp://127.0.0.1:29000".to_string(),
        ..ZmqState::default()
    };
    mark_disconnected(&mut state);
    assert!(!state.connected);
    assert!(state.address.is_empty());
}

#[test]
fn connecting_records_the_address() {
    let mut state = ZmqState::new();
    assert!(!state.connected);
    assert_eq!(state.next_cursor, 1);
    assert_eq!(state.buffer_limit, 5000);
    state.mark_connected("tcp://127.0.0.1:28332");
    assert!(state.connected);
    assert_eq!(state.address, "tcp://127.0.0.1:28332");
}

#[test]
fn buffer_keeps_the_most_recent_messages() {
    let mut state = ZmqState::new();
    state.set_buffer_limit(100);
    for _ in 0..150 {
        push_plain(&mut state, "hashtx");
    }
    assert_eq!(state.messages.len(), 100);
    assert_eq!(cursors(&state), (51..=150).collect::<Vec<u64>>());
    assert_eq!(state.next_cursor, 151);
    assert_eq!(state.latest_cursor(), 150);
}

#[test]
fn buffer_below_its_limit_keeps_everything() {
    let mut state = ZmqState::new();
    state.set_buffer_limit(50);
    for _ in 0..50 {
        push_plain(&mut state, "hashtx");
    }
    assert_eq!(cursors(&state), (1..=50).collect::<Vec<u64>>());
    push_plain(&mut state, "hashtx");
    assert_eq!(cursors(&state), (2..=51).collect::<Vec<u64>>());
}

#[test]
fn a_smaller_limit_drops_the_oldest_and_is_clamped() {
    let mut state = ZmqState::new();
    for _ in 0..120 {
        push_plain(&mut state, "hashblock");
    }
    state.set_buffer_limit(60);
    assert_eq!(state.buffer_limit, 60);
    assert_eq!(cursors(&state), (61..=120).collect::<Vec<u64>>());
    state.set_buffer_limit(1);
    assert_eq!(state.buffer_limit, 50);
    assert_eq!(cursors(&state), (71..=120).collect::<Vec<u64>>());
    state.set_buffer_limit(usize::MAX);
    assert_eq!(state.buffer_limit, 100000);
    assert_eq!(state.messages.len(), 50);
}

#[test]
fn the_last_cursor_is_not_passed() {
    let mut state = ZmqState::new();
    state.next_cursor = u64::MAX;
    push_plain(&mut state, "hashtx");
    assert_eq!(state.messages[0].cursor, u64::MAX);
    assert_eq!(state.next_cursor, u64::MAX);
}

#[test]
fn notifications_are_decoded() {
    let mut state = ZmqState::new();
    let body: Vec<u8> = (0u8..100).collect();
    let parts = vec![b"hashblock".to_vec(), body.clone(), vec![0x78, 0x56, 0x34, 0x12, 0xff]];
    assert!(state.record(&parts, 1700000000));
    let message = &state.messages[0];
    assert_eq!(message.cursor, 1);
    assert_eq!(message.topic, "hashblock");
    assert_eq!(message.body_size, 100);
    assert_eq!(message.body_hex.len(), 160);
    assert_eq!(message.body_hex, hex_encode(&body[..80]));
    assert_eq!(message.sequence, 0x12345678);
    assert_eq!(message.timestamp, 1700000000);
    assert_eq!(message.event_hash.as_deref(), Some(hex_encode(&body[..32]).as_str()));
}

#[test]
fn short_notifications_are_handled() {
    let mut state = ZmqState::new();
    assert!(!state.record(&vec![b"hashtx".to_vec(), vec![1, 2, 3]], 5));
    assert!(!state.record(&Vec::new(), 5));
    assert!(state.messages.is_empty());
    assert_eq!(state.next_cursor, 1);

    assert!(state.record(&vec![vec![0xff, b'a'], vec![0xab; 31], vec![1, 2, 3]], 6));
    let message = &state.messages[0];
    assert_eq!(message.topic, "\u{fffd}a");
    assert_eq!(message.body_hex, "ab".repeat(31));
    assert_eq!(message.event_hash, None);
    assert_eq!(message.sequence, 0);

    assert!(state.record(&vec![Vec::new(), vec![7; 32], vec![255, 255, 255, 255]], 7));
    let message = &state.messages[1];
    assert_eq!(message.topic, "");
    assert_eq!(message.event_hash.as_deref(), Some("07".repeat(32).as_str()));
    assert_eq!(message.sequence, u32::MAX);
    assert_eq!(message.cursor, 2);
}

#[test]
fn hex_is_lower_case_two_digits_a_byte() {
    assert_eq!(hex_encode(&[]), "");
    assert_eq!(hex_encode(&[0x00, 0x0f, 0xa0, 0xff]), "000fa0ff");
    let bytes: Vec<u8> = (0u8..40).collect();
    assert_eq!(hash_from_notification(&bytes), hex_encode(&bytes[..32]));
    assert_eq!(hash_from_notification(&bytes[..32]).len(), 64);
}

#[test]
fn wait_is_capped_at_thirty_seconds() {
    assert_eq!(clamp_wait_ms(0), 0);
    assert_eq!(clamp_wait_ms(29999), 29999);
    assert_eq!(clamp_wait_ms(30000), 30000);
    assert_eq!(clamp_wait_ms(30001), 30000);
    assert_eq!(clamp_wait_ms(u64::MAX), 30000);
}

#[test]
fn long_poll_returns_what_is_newer_than_the_cursor() {
    let mut state = ZmqState::new();
    state.mark_connected("tcp://a");
    for topic in ["hashtx", "hashblock", "hashtx"] {
        push_plain(&mut state, topic);
    }
    assert!(state.has_newer(2));
    assert!(!state.has_newer(3));

    let page = state.messages_since(1);
    assert!(page.connected);
    assert_eq!(page.address, "tcp://a");
    assert_eq!(page.buffer_limit, 5000);
    assert_eq!(page.cursor, 3);
    assert!(!page.truncated);
    assert_eq!(page.messages.iter().map(|m| m.cursor).collect::<Vec<_>>(), vec![2, 3]);
    assert_eq!(page.messages[0].topic, "hashblock");

    let all = state.messages_since(0);
    assert_eq!(all.messages.len(), 3);
    assert!(!all.truncated);

    let none = state.messages_since(3);
    assert!(none.messages.is_empty());
    assert!(!none.truncated);
    assert_eq!(none.cursor, 3);

    let empty = ZmqState::new().messages_since(0);
    assert_eq!(empty.cursor, 0);
    assert!(!empty.truncated && empty.messages.is_empty());
    assert!(!ZmqState::new().has_newer(0));
}

#[test]
fn long_poll_flags_a_gap_after_eviction() {
    let mut state = ZmqState::new();
    state.set_buffer_limit(50);
    for _ in 0..60 {
        push_plain(&mut state, "hashtx");
    }
    let page = state.messages_since(5);
    assert!(page.truncated);
    assert_eq!(page.messages[0].cursor, 11);
    assert_eq!(page.messages.len(), 50);
    assert!(!state.messages_since(10).truncated);
    assert!(state.messages_since(0).truncated);
    assert!(!state.messages_since(u64::MAX).truncated);
}

#[test]
fn a_page_is_written_as_json() {
    let mut state = ZmqState::new();
    state.mark_connected("tcp://a");
    let parts = vec![b"hashtx".to_vec(), vec![0xcd; 32], vec![9, 0, 0, 0]];
    state.record(&parts, 42);
    state.record(&vec![b"rawtx".to_vec(), vec![1], vec![]], 43);
    let text = zmq_messages_response(&state.messages_since(0));
    let doc = parse_response(&text).expect("page should be JSON");
    assert_eq!(doc.get("connected").unwrap().as_bool(), Some(true));
    assert_eq!(doc.get("address").unwrap().as_str(), Some("tcp://a"));
    assert_eq!(doc.get("buffer_limit").unwrap().as_u64(), Some(5000));
    assert_eq!(doc.get("cursor").unwrap().as_u64(), Some(2));
    assert_eq!(doc.get("truncated").unwrap().as_bool(), Some(false));
    let messages = doc.get("messages").unwrap().as_array().unwrap();
    assert_eq!(messages.len(), 2);
    assert_eq!(messages[0].get("cursor").unwrap().as_u64(), Some(1));
    assert_eq!(messages[0].get("topic").unwrap().as_str(), Some("hashtx"));
    assert_eq!(messages[0].get("body_size").unwrap().as_u64(), Some(32));
    assert_eq!(messages[0].get("sequence").unwrap().as_u64(), Some(9));
    assert_eq!(messages[0].get("timestamp").unwrap().as_u64(), Some(42));
    assert_eq!(
        messages[0].get("event_hash").unwrap().as_str(),
        Some("cd".repeat(32).as_str())
    );
    assert_eq!(messages[1].get("body_hex").unwrap().as_str(), Some("01"));
    assert!(messages[1].get("event_hash").unwrap().is_null());
}
