use signum_node_rs::models::datastore::Datastore;
use signum_node_rs::models::p2p::PeerAddress;
use signum_node_rs::models::p2p::PeerInfo;
use signum_node_rs::peers::get_blocks_request_body;
use signum_node_rs::peers::get_cumulative_difficulty_request_body;
use signum_node_rs::peers::get_peers_request_body;
use signum_node_rs::peers::register_peer_addresses;
use signum_node_rs::peers::resolve_announced_address;
use signum_node_rs::peers::update_db_peer_info;
use signum_node_rs::peers::PeerCommunicationError;
use signum_node_rs::peers::PeerInfoOutcome;
use signum_node_rs::wire::WireValue;

fn parse_addr(s: &str) -> PeerAddress {
    PeerAddress::parse(s).unwrap()
}

fn info_from(host: &str) -> PeerInfo {
    PeerInfo {
        announced_address: Some(parse_addr(host)),
        application: "BRS".to_string(),
        version: "3.8.0".to_string(),
        platform: Some("linux".to_string()),
        share_address: true,
        network_name: "Signum".to_string(),
    }
}

#[test]
fn successful_refresh_merges_info_without_deblacklisting() {
    let now = 1_000_000u64;
    let mut db = Datastore::new();
    let a = parse_addr("1.2.3.4:8123");
    db.create_new_peer(&a);
    db.blacklist_peer(&a, now);

    let outcome = PeerInfoOutcome::Received {
        info: info_from("1.2.3.4:8123"),
        resolved_ip: "1.2.3.4".to_string(),
    };
    update_db_peer_info(&mut db, &a, outcome, now);
    assert_eq!(db.peers[0].last_seen, Some(now));
    assert_eq!(db.peers[0].attempts_since_last_seen, 0);
    // A peer that serves info but bad blocks must stay blacklisted:
    // success deliberately does not deblacklist.
    assert_eq!(db.peers[0].blacklist_count, 1);
    assert!(db.peers[0].blacklist_until.is_some());
}

#[test]
fn connection_error_counts_an_attempt_and_blacklists() {
    let now = 1_000_000u64;
    let mut db = Datastore::new();
    let a = parse_addr("1.2.3.4:8123");
    db.create_new_peer(&a);

    let outcome =
        PeerInfoOutcome::Failed(PeerCommunicationError::ConnectionError("refused".to_string()));
    update_db_peer_info(&mut db, &a, outcome, now);
    assert_eq!(db.peers[0].attempts_since_last_seen, 1);
    assert_eq!(db.peers[0].blacklist_count, 1);
    assert_eq!(db.peers[0].blacklist_until, Some(now + 600));
}

#[test]
fn timeout_counts_an_attempt_only() {
    let now = 1_000_000u64;
    let mut db = Datastore::new();
    let a = parse_addr("1.2.3.4:8123");
    db.create_new_peer(&a);

    let outcome =
        PeerInfoOutcome::Failed(PeerCommunicationError::ConnectionTimeout("slow".to_string()));
    update_db_peer_info(&mut db, &a, outcome, now);
    assert_eq!(db.peers[0].attempts_since_last_seen, 1);
    assert_eq!(db.peers[0].blacklist_count, 0);
    assert_eq!(db.peers[0].blacklist_until, None);
}

#[test]
fn malformed_body_blacklists_at_once() {
    let now = 1_000_000u64;
    let mut db = Datastore::new();
    let a = parse_addr("1.2.3.4:8123");
    db.create_new_peer(&a);

    let outcome = PeerInfoOutcome::Failed(PeerCommunicationError::ContentDecodeError(
        "not json".to_string(),
    ));
    update_db_peer_info(&mut db, &a, outcome, now);
    assert_eq!(db.peers[0].attempts_since_last_seen, 0);
    assert_eq!(db.peers[0].blacklist_count, 1);
    // First blacklist event: ten minutes.
    assert_eq!(db.peers[0].blacklist_until, Some(now + 600));
}

#[test]
fn unexpected_error_counts_an_attempt_only() {
    let now = 1_000_000u64;
    let mut db = Datastore::new();
    let a = parse_addr("1.2.3.4:8123");
    db.create_new_peer(&a);

    let outcome =
        PeerInfoOutcome::Failed(PeerCommunicationError::UnexpectedError("odd".to_string()));
    update_db_peer_info(&mut db, &a, outcome, now);
    assert_eq!(db.peers[0].attempts_since_last_seen, 1);
    assert_eq!(db.peers[0].blacklist_count, 0);
}

#[test]
fn register_peer_addresses_skips_bad_and_known_entries() {
    let mut db = Datastore::new();
    db.create_new_peer(&parse_addr("1.2.3.4:8123"));

    let reported = vec![
        "1.2.3.4".to_string(),          // already present once canonicalized
        "5.6.7.8:9000".to_string(),     // new
        "[:::1]".to_string(),           // does not parse
        "9.9.9.9".to_string(),          // new, default port
        "5.6.7.8:9000".to_string(),     // duplicate of the new one
    ];
    let new_peers = register_peer_addresses(&mut db, &reported);
    assert_eq!(new_peers.len(), 2);
    assert_eq!(new_peers[0], parse_addr("5.6.7.8:9000"));
    assert_eq!(new_peers[1], parse_addr("9.9.9.9:8123"));
    assert_eq!(db.peers.len(), 3);
}

#[test]
fn resolve_announced_address_substitutes_the_resolved_ip() {
    let with_address = info_from("1.2.3.4:8123");
    let kept = resolve_announced_address(with_address, "7.7.7.7").unwrap();
    assert_eq!(kept.announced_address, Some(parse_addr("1.2.3.4:8123")));

    let without = PeerInfo {
        announced_address: None,
        application: "BRS".to_string(),
        version: "3.8.0".to_string(),
        platform: None,
        share_address: false,
        network_name: "Signum".to_string(),
    };
    let filled = resolve_announced_address(without, "7.7.7.7").unwrap();
    assert_eq!(filled.announced_address, Some(parse_addr("7.7.7.7:8123")));

    let unresolvable = PeerInfo {
        announced_address: None,
        application: "BRS".to_string(),
        version: "3.8.0".to_string(),
        platform: None,
        share_address: false,
        network_name: "Signum".to_string(),
    };
    assert!(resolve_announced_address(unresolvable, "[:::1]").is_err());
}

#[test]
fn request_bodies_carry_the_b1_protocol_fields() {
    let body = get_peers_request_body();
    assert_eq!(body.len(), 2);
    assert_eq!(body[0].0, "protocol".to_string());
    match &body[0].1 {
        WireValue::Text(s) => assert_eq!(*s, "B1".to_string()),
        _ => panic!("protocol must be text"),
    }
    assert_eq!(body[1].0, "requestType".to_string());
    match &body[1].1 {
        WireValue::Text(s) => assert_eq!(*s, "getPeers".to_string()),
        _ => panic!("requestType must be text"),
    }

    let body = get_cumulative_difficulty_request_body();
    match &body[1].1 {
        WireValue::Text(s) => assert_eq!(*s, "getCumulativeDifficulty".to_string()),
        _ => panic!("requestType must be text"),
    }

    let body = get_blocks_request_body(12345, 10);
    assert_eq!(body.len(), 4);
    assert_eq!(body[2].0, "height".to_string());
    match &body[2].1 {
        WireValue::Number(h) => assert_eq!(*h, 12345),
        _ => panic!("height must be a number"),
    }
    match &body[3].1 {
        WireValue::Number(n) => assert_eq!(*n, 10),
        _ => panic!("numBlocks must be a number"),
    }
}
