use chat_chain::api::{register_response, user_response};
use chat_chain::block::{starts_with_zeros, Block};
use chat_chain::blockchain::Blockchain;
use chat_chain::chat_blockchain::ChatBlockchain;
use chat_chain::chat_data::{ChatReward, ChatTransaction, ConnectionRecord, OnlineStatus, UserProfile};
use chat_chain::codec::{decode_transaction, encode_transaction, split_fields};
use chat_chain::text::{hex_encode, parse_hex16, push_decimal, push_hex};

fn balance(ledger: &ChatBlockchain, address: &str) -> u64 {
    ledger.get_user(address).expect("user is registered").token_balance
}

#[test]
fn digest_of_known_fields() {
    let b = Block::with_timestamp(0, "ts-1".to_string(), "data".to_string(), "0".to_string());
    assert_eq!(b.hash, "177cb335bc8c9f543a93fe7b9893ba75223c84294962499c3841db257d08d183");
    assert_eq!(b.calculate_hash(), b.hash);
    assert_eq!(b.nonce, 0);
}

#[test]
fn hex_and_decimal_rendering() {
    assert_eq!(hex_encode(&vec![0x00, 0xab, 0x0f, 0xff]), "00ab0fff");
    let mut s = String::new();
    push_decimal(&mut s, 1234567890);
    assert_eq!(s, "1234567890");
    let mut z = String::new();
    push_decimal(&mut z, 0);
    assert_eq!(z, "0");
    let mut h = String::new();
    push_hex(&mut h, 255, 4);
    assert_eq!(h, "00ff");
    assert_eq!(parse_hex16("00000000000000ff"), Some(255));
    assert_eq!(parse_hex16("ffffffffffffffff"), Some(u64::MAX));
    assert_eq!(parse_hex16("00ff"), None);
    assert_eq!(parse_hex16("000000000000000g"), None);
}

#[test]
fn sealed_block_has_zero_prefix() {
    for difficulty in 0..3usize {
        let mut b = Block::with_timestamp(5, "2024-01-01T00:00:00+00:00".to_string(), "payload".to_string(), "abc".to_string());
        b.mine_block(difficulty);
        assert!(starts_with_zeros(&b.hash, difficulty));
        assert!(b.hash.starts_with(&"0".repeat(difficulty)));
        assert_eq!(b.calculate_hash(), b.hash);
    }
}

#[test]
fn mining_difficulty_zero_keeps_block() {
    let mut b = Block::with_timestamp(1, "t".to_string(), "d".to_string(), "p".to_string());
    let before = b.hash.clone();
    b.mine_block(0);
    assert_eq!(b.nonce, 0);
    assert_eq!(b.hash, before);
}

#[test]
fn plain_chain_appends_and_validates() {
    let mut chain = Blockchain::new(1);
    assert_eq!(chain.chain.len(), 1);
    assert_eq!(chain.chain[0].data, "Genesis Block");
    chain.add_block("first".to_string());
    chain.add_block("second".to_string());
    assert_eq!(chain.chain.len(), 3);
    assert_eq!(chain.get_latest_block().data, "second");
    assert_eq!(chain.get_latest_block().index, 2);
    assert_eq!(chain.chain[2].previous_hash, chain.chain[1].hash);
    assert!(chain.chain[2].hash.starts_with('0'));
    assert!(chain.is_valid());
    chain.chain[1].data = "changed".to_string();
    assert!(!chain.is_valid());
}

#[test]
fn broken_link_is_invalid() {
    let mut chain = Blockchain::new(0);
    chain.add_block("a".to_string());
    chain.add_block("b".to_string());
    chain.chain[2].previous_hash = "ffff".to_string();
    chain.chain[2].hash = chain.chain[2].calculate_hash();
    assert!(!chain.is_valid());
}

#[test]
fn genesis_only_chain_is_valid() {
    let ledger = ChatBlockchain::new(1);
    assert!(ledger.is_valid());
    assert_eq!(ledger.chain.len(), 1);
    assert_eq!(ledger.chain[0].previous_hash, "0");
    assert_eq!(ledger.total_rewards, 1_000_000);
    assert_eq!(balance(&ledger, "genesis"), 1_000_000);
    assert_eq!(ledger.get_user("genesis").unwrap().username, "Genesis User");
}

#[test]
fn transaction_round_trip() {
    let txs = vec![
        ChatTransaction::UserRegister(UserProfile {
            address: "alice".to_string(),
            username: "Alice|:0000".to_string(),
            public_key: "".to_string(),
            last_seen: "2024-05-01T10:00:00+00:00".to_string(),
            reputation: 7,
            token_balance: u64::MAX,
        }),
        ChatTransaction::StatusUpdate(OnlineStatus {
            address: "bob".to_string(),
            username: "Bób".to_string(),
            status: "busy".to_string(),
            node_id: "node-1".to_string(),
            timestamp: "t".to_string(),
        }),
        ChatTransaction::ConnectionEstablished(ConnectionRecord {
            from_address: "a".to_string(),
            to_address: "b".to_string(),
            connection_type: "relay".to_string(),
            timestamp: "t".to_string(),
            duration: Some(42),
            message_count: 3,
        }),
        ChatTransaction::ConnectionEstablished(ConnectionRecord {
            from_address: "a".to_string(),
            to_address: "b".to_string(),
            connection_type: "p2p".to_string(),
            timestamp: "t".to_string(),
            duration: None,
            message_count: 0,
        }),
        ChatTransaction::RewardIssued(ChatReward {
            user_address: "alice".to_string(),
            action: "connect".to_string(),
            reward_amount: 20,
            timestamp: "t".to_string(),
        }),
    ];
    for tx in txs {
        let payload = encode_transaction(&tx);
        assert_eq!(decode_transaction(&payload), Some(tx));
    }
}

#[test]
fn payload_format_is_tagged_fields() {
    let tx = ChatTransaction::RewardIssued(ChatReward {
        user_address: "al".to_string(),
        action: "x".to_string(),
        reward_amount: 10,
        timestamp: "".to_string(),
    });
    assert_eq!(
        encode_transaction(&tx),
        "R0000000000000002al0000000000000001x0000000000000010000000000000000a0000000000000000"
    );
    assert_eq!(split_fields("0000000000000002ab0000000000000000"), Some(vec!["ab".to_string(), "".to_string()]));
    assert_eq!(split_fields("0000000000000005ab"), None);
}

#[test]
fn malformed_payloads_do_not_decode() {
    assert_eq!(decode_transaction(""), None);
    assert_eq!(decode_transaction("Genesis Block"), None);
    assert_eq!(decode_transaction("X"), None);
    assert_eq!(decode_transaction("R0000000000000002al"), None);
}

#[test]
fn register_twice() {
    let mut ledger = ChatBlockchain::new(1);
    assert!(ledger.register_user("alice".to_string(), "Alice".to_string(), "key-a".to_string()));
    // the profile starts at 100 and the registration reward adds another 100
    assert_eq!(balance(&ledger, "alice"), 200);
    assert_eq!(ledger.chain.len(), 3);
    assert_eq!(ledger.total_rewards, 1_000_000 - 100);
    let users_before = ledger.users.clone();
    assert!(!ledger.register_user("alice".to_string(), "Other".to_string(), "key-b".to_string()));
    assert_eq!(ledger.chain.len(), 3);
    assert_eq!(ledger.users, users_before);
    assert_eq!(ledger.get_user("alice").unwrap().username, "Alice");
    let r = register_response(false, "alice".to_string());
    assert!(!r.success);
    assert_eq!(r.message, "User already exists");
    let ok = register_response(true, "alice".to_string());
    assert_eq!(ok.data, Some("alice".to_string()));
    assert_eq!(ok.message, "User registered successfully");
}

#[test]
fn record_connection_between_registered_users() {
    let mut ledger = ChatBlockchain::new(1);
    ledger.register_user("a".to_string(), "A".to_string(), "ka".to_string());
    ledger.register_user("b".to_string(), "B".to_string(), "kb".to_string());
    let blocks = ledger.chain.len();
    ledger.record_connection("a".to_string(), "b".to_string(), "p2p".to_string());
    assert_eq!(ledger.chain.len(), blocks + 3);
    assert_eq!(ledger.connections.len(), 1);
    for who in ["a", "b"] {
        let cs = ledger.get_user_connections(who);
        assert_eq!(cs.len(), 1);
        assert_eq!(cs[0].from_address, "a");
        assert_eq!(cs[0].to_address, "b");
        assert_eq!(cs[0].connection_type, "p2p");
        assert_eq!(cs[0].duration, None);
        assert_eq!(cs[0].message_count, 0);
        assert_eq!(balance(&ledger, who), 220);
    }
    assert!(ledger.get_user_connections("c").is_empty());
    assert!(ledger.is_valid());
}

#[test]
fn reward_above_pool_is_skipped() {
    let mut ledger = ChatBlockchain::new(0);
    ledger.register_user("alice".to_string(), "Alice".to_string(), "k".to_string());
    let blocks = ledger.chain.len();
    let pool = ledger.total_rewards;
    let before = balance(&ledger, "alice");
    ledger.issue_reward("alice".to_string(), "bonus".to_string(), pool + 1);
    assert_eq!(ledger.total_rewards, pool);
    assert_eq!(ledger.chain.len(), blocks);
    assert_eq!(balance(&ledger, "alice"), before);
    ledger.issue_reward("alice".to_string(), "bonus".to_string(), pool);
    assert_eq!(ledger.total_rewards, 0);
    assert_eq!(balance(&ledger, "alice"), before + pool);
    // an empty pool pays no registration reward
    assert!(ledger.register_user("bob".to_string(), "Bob".to_string(), "k".to_string()));
    assert_eq!(balance(&ledger, "bob"), 100);
    assert_eq!(ledger.chain.len(), blocks + 2);
}

#[test]
fn reward_to_unknown_address_is_recorded_but_credits_nobody() {
    let mut ledger = ChatBlockchain::new(0);
    let users = ledger.users.clone();
    ledger.issue_reward("nobody".to_string(), "x".to_string(), 5);
    assert_eq!(ledger.chain.len(), 2);
    assert_eq!(ledger.total_rewards, 1_000_000 - 5);
    assert_eq!(ledger.users, users);
}

#[test]
fn status_updates_move_users_in_and_out_of_online() {
    let mut ledger = ChatBlockchain::new(0);
    ledger.register_user("a".to_string(), "A".to_string(), "k".to_string());
    ledger.update_user_status("a".to_string(), "A".to_string(), "online".to_string(), "n1".to_string());
    assert_eq!(ledger.get_online_users().len(), 1);
    assert_eq!(ledger.get_online_users()[0].node_id, "n1");
    assert_eq!(balance(&ledger, "a"), 210);
    ledger.update_user_status("a".to_string(), "A".to_string(), "online".to_string(), "n2".to_string());
    assert_eq!(ledger.get_online_users().len(), 1);
    assert_eq!(ledger.get_online_users()[0].node_id, "n2");
    let blocks = ledger.chain.len();
    ledger.update_user_status("a".to_string(), "A".to_string(), "away".to_string(), "n2".to_string());
    assert!(ledger.get_online_users().is_empty());
    assert_eq!(ledger.chain.len(), blocks + 1);
    assert_eq!(balance(&ledger, "a"), 220);
}

fn busy_ledger() -> ChatBlockchain {
    let mut ledger = ChatBlockchain::new(1);
    ledger.register_user("a".to_string(), "A".to_string(), "ka".to_string());
    ledger.register_user("b".to_string(), "B".to_string(), "kb".to_string());
    ledger.update_user_status("a".to_string(), "A".to_string(), "online".to_string(), "n".to_string());
    ledger.update_user_status("b".to_string(), "B".to_string(), "online".to_string(), "n".to_string());
    ledger.update_user_status("b".to_string(), "B".to_string(), "offline".to_string(), "n".to_string());
    ledger.record_connection("a".to_string(), "b".to_string(), "relay".to_string());
    ledger.issue_reward("ghost".to_string(), "x".to_string(), 3);
    ledger
}

#[test]
fn rebuild_matches_incremental_state() {
    let mut ledger = busy_ledger();
    assert!(ledger.is_valid());
    let users = ledger.users.clone();
    let online = ledger.online_users.clone();
    let connections = ledger.connections.clone();
    let pool = ledger.total_rewards;
    let blocks = ledger.chain.len();
    ledger.rebuild_state();
    assert_eq!(ledger.users, users);
    assert_eq!(ledger.online_users, online);
    assert_eq!(ledger.connections, connections);
    assert_eq!(ledger.total_rewards, pool);
    assert_eq!(ledger.chain.len(), blocks);
}

#[test]
fn rebuild_twice_is_idempotent() {
    let mut ledger = busy_ledger();
    ledger.users.clear();
    ledger.rebuild_state();
    let users = ledger.users.clone();
    let online = ledger.online_users.clone();
    let connections = ledger.connections.clone();
    ledger.rebuild_state();
    assert_eq!(ledger.users, users);
    assert_eq!(ledger.online_users, online);
    assert_eq!(ledger.connections, connections);
    assert_eq!(balance(&ledger, "a"), 230);
}

#[test]
fn rebuild_skips_undecodable_blocks() {
    let mut ledger = busy_ledger();
    ledger.chain[3].data = "not a transaction".to_string();
    ledger.rebuild_state();
    // block 3 was b's registration; its reward block still lands on nobody
    assert!(ledger.get_user("b").is_none());
    assert!(ledger.get_user("a").is_some());
    assert_eq!(ledger.connections.len(), 1);
    assert!(!ledger.is_valid());
}

#[test]
fn tampering_with_a_block_is_detected() {
    let mut ledger = busy_ledger();
    ledger.chain[2].nonce += 1;
    assert!(!ledger.is_valid());
    let mut other = busy_ledger();
    other.chain[4].timestamp = "1970-01-01T00:00:00+00:00".to_string();
    assert!(!other.is_valid());
    let mut third = busy_ledger();
    third.chain[1].index = 99;
    assert!(!third.is_valid());
}

#[test]
fn stats_and_lookup_responses() {
    let ledger = busy_ledger();
    let s = ledger.stats();
    assert_eq!(s.block_count, ledger.chain.len());
    assert_eq!(s.user_count, 3);
    assert_eq!(s.online_count, 1);
    assert_eq!(s.connection_count, 1);
    assert_eq!(s.total_rewards, ledger.total_rewards);
    assert!(s.is_valid);
    let found = user_response(ledger.get_user("a"));
    assert!(found.success);
    assert_eq!(found.message, "User found");
    let missing = user_response(ledger.get_user("zz"));
    assert!(!missing.success);
    assert_eq!(missing.message, "User not found");
}
