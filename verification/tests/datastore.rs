use signum_node_rs::models::datastore::blacklist_duration_minutes;
use signum_node_rs::models::datastore::Datastore;
use signum_node_rs::models::p2p::PeerAddress;
use signum_node_rs::models::p2p::PeerInfo;
use signum_node_rs::peers::register_peer_addresses;
use signum_node_rs::peers::update_db_peer_info;
use signum_node_rs::peers::PeerInfoOutcome;
use signum_node_rs::workers::peer_finder::choose_discovery_peer;
use signum_node_rs::workers::peer_info_trader::peer_info_trader;

fn addr(s: &str) -> PeerAddress {
    PeerAddress::parse(s).unwrap()
}

fn sample_info() -> PeerInfo {
    PeerInfo {
        announced_address: Some(addr("1.2.3.4:8123")),
        application: "BRS".to_string(),
        version: "3.8.0".to_string(),
        platform: Some("linux".to_string()),
        share_address: true,
        network_name: "Signum".to_string(),
    }
}

#[test]
fn create_new_peer_is_idempotent() {
    let mut db = Datastore::new();
    assert!(db.create_new_peer(&addr("1.2.3.4:8123")));
    assert!(!db.create_new_peer(&addr("1.2.3.4:8123")));
    assert!(db.create_new_peer(&addr("5.6.7.8:9000")));
    assert_eq!(db.peers.len(), 2);
    assert_eq!(db.peers[0].blacklist_count, 0);
    assert_eq!(db.peers[0].blacklist_until, None);
    assert_eq!(db.peers[0].last_seen, None);
    assert_eq!(db.peers[0].attempts_since_last_seen, 0);
}

#[test]
fn update_peer_info_sets_last_seen_and_resets_attempts() {
    let now = 1_000_000u64;
    let mut db = Datastore::new();
    let a = addr("1.2.3.4:8123");
    db.create_new_peer(&a);
    db.increment_attempts_since_last_seen(&a);
    db.increment_attempts_since_last_seen(&a);
    assert_eq!(db.peers[0].attempts_since_last_seen, 2);

    let updated = db.update_peer_info(&a, "1.2.3.4".to_string(), sample_info(), now);
    assert!(updated);
    assert_eq!(db.peers[0].attempts_since_last_seen, 0);
    assert_eq!(db.peers[0].last_seen, Some(now));
    assert_eq!(db.peers[0].ip_address, Some("1.2.3.4".to_string()));
    assert_eq!(db.peers[0].application, Some("BRS".to_string()));
    assert_eq!(db.peers[0].network_name, Some("Signum".to_string()));

    let missing = db.update_peer_info(&addr("9.9.9.9"), "9.9.9.9".to_string(), sample_info(), now);
    assert!(!missing);
}

#[test]
fn blacklist_increments_count_and_sets_future_until() {
    let now = 1_000_000u64;
    let mut db = Datastore::new();
    let a = addr("1.2.3.4:8123");
    db.create_new_peer(&a);

    assert!(db.blacklist_peer(&a, now));
    assert_eq!(db.peers[0].blacklist_count, 1);
    // First event: 10 minutes.
    assert_eq!(db.peers[0].blacklist_until, Some(now + 600));
    assert!(db.peers[0].blacklist_until.unwrap() > now);

    assert!(db.blacklist_peer(&a, now));
    assert_eq!(db.peers[0].blacklist_count, 2);
    // Second event: 20 minutes.
    assert_eq!(db.peers[0].blacklist_until, Some(now + 1200));
}

#[test]
fn blacklist_duration_saturates_at_1440_minutes() {
    // The k-th event applies min(10 * k, 1440) minutes.
    assert_eq!(blacklist_duration_minutes(0), 10);
    assert_eq!(blacklist_duration_minutes(1), 20);
    assert_eq!(blacklist_duration_minutes(143), 1440);
    assert_eq!(blacklist_duration_minutes(144), 1440);
    assert_eq!(blacklist_duration_minutes(1000), 1440);

    let now = 1_000_000u64;
    let mut db = Datastore::new();
    let a = addr("1.2.3.4:8123");
    db.create_new_peer(&a);
    let mut k = 0u32;
    while k < 144 {
        db.blacklist_peer(&a, now);
        k += 1;
    }
    assert_eq!(db.peers[0].blacklist_count, 144);
    // The 144th event saturates: 1440 minutes = 24 hours.
    assert_eq!(db.peers[0].blacklist_until, Some(now + 86_400));
    db.blacklist_peer(&a, now);
    assert_eq!(db.peers[0].blacklist_until, Some(now + 86_400));
}

#[test]
fn deblacklist_clears_count_and_until() {
    let now = 1_000_000u64;
    let mut db = Datastore::new();
    let a = addr("1.2.3.4:8123");
    db.create_new_peer(&a);
    db.blacklist_peer(&a, now);
    assert!(db.deblacklist_peer(&a));
    assert_eq!(db.peers[0].blacklist_count, 0);
    assert_eq!(db.peers[0].blacklist_until, None);
}

#[test]
fn random_peers_never_return_blacklisted_peers() {
    let now = 1_000_000u64;
    let mut db = Datastore::new();
    let good_one = addr("1.1.1.1:8123");
    let good_two = addr("2.2.2.2:8123");
    let bad = addr("3.3.3.3:8123");
    db.create_new_peer(&good_one);
    db.create_new_peer(&bad);
    db.create_new_peer(&good_two);
    db.blacklist_peer(&bad, now);

    let mut round = 0;
    while round < 50 {
        let one = db.get_random_peer(now).unwrap();
        assert_ne!(one, bad);
        let many = db.get_n_random_peers(3, now).unwrap();
        assert_eq!(many.len(), 2);
        for p in many.iter() {
            assert_ne!(*p, bad);
        }
        round += 1;
    }

    // A peer whose blacklist has lapsed is eligible again.
    let later = now + 700;
    let mut seen_bad = false;
    let mut tries = 0;
    while tries < 200 {
        if db.get_random_peer(later).unwrap() == bad {
            seen_bad = true;
            break;
        }
        tries += 1;
    }
    assert!(seen_bad);
}

#[test]
fn random_peer_fails_when_all_are_blacklisted() {
    let now = 1_000_000u64;
    let mut db = Datastore::new();
    let a = addr("1.1.1.1:8123");
    db.create_new_peer(&a);
    db.blacklist_peer(&a, now);
    assert!(db.get_random_peer(now).is_err());
    assert!(db.get_n_random_peers(5, now).is_err());
    assert!(db.get_n_random_peers(0, now).is_err());
}

#[test]
fn peers_last_seen_before_selects_stale_rows() {
    let now = 1_000_000u64;
    let mut db = Datastore::new();
    let never_seen = addr("1.1.1.1:8123");
    let fresh = addr("2.2.2.2:8123");
    let stale = addr("3.3.3.3:8123");
    let excluded = addr("4.4.4.4:8123");
    db.create_new_peer(&never_seen);
    db.create_new_peer(&fresh);
    db.create_new_peer(&stale);
    db.create_new_peer(&excluded);
    db.update_peer_info(&fresh, "2.2.2.2".to_string(), sample_info(), now - 10);
    db.update_peer_info(&stale, "3.3.3.3".to_string(), sample_info(), now - 120);
    db.blacklist_peer(&excluded, now);

    let selected = peer_info_trader(&db, now);
    assert_eq!(selected.len(), 2);
    assert!(selected.contains(&never_seen));
    assert!(selected.contains(&stale));
}

#[test]
fn discovery_falls_back_to_bootstrap_and_fails_when_both_are_empty() {
    let now = 1_000_000u64;
    let db = Datastore::new();
    let empty: Vec<PeerAddress> = vec![];
    // An empty registry with an empty bootstrap list cannot start.
    assert!(choose_discovery_peer(&db, &empty, now).is_err());

    let bootstrap = vec![addr("p2p.signumoasis.xyz:80")];
    let chosen = choose_discovery_peer(&db, &bootstrap, now).unwrap();
    assert_eq!(chosen, bootstrap[0]);

    let mut filled = Datastore::new();
    filled.create_new_peer(&addr("1.1.1.1:8123"));
    let from_registry = choose_discovery_peer(&filled, &empty, now).unwrap();
    assert_eq!(from_registry, addr("1.1.1.1:8123"));
}

#[test]
fn first_contact_bootstrap_fills_the_registry() {
    // An empty registry falls back to the bootstrap list; the peer list
    // that comes back is registered, and a refresh marks a peer seen.
    let now = 1_000_000u64;
    let mut db = Datastore::new();
    let bootstrap = vec![addr("p2p.signumoasis.xyz:80")];
    let chosen = choose_discovery_peer(&db, &bootstrap, now).unwrap();
    assert_eq!(chosen, bootstrap[0]);
    db.create_new_peer(&chosen);

    let reported = vec!["1.2.3.4".to_string(), "5.6.7.8:9000".to_string()];
    let new_peers = register_peer_addresses(&mut db, &reported);
    assert_eq!(new_peers.len(), 2);
    assert_eq!(db.peers.len(), 3);

    let first = addr("1.2.3.4:8123");
    let outcome = PeerInfoOutcome::Received {
        info: PeerInfo {
            announced_address: Some(first.clone()),
            application: "BRS".to_string(),
            version: "3.8.0".to_string(),
            platform: Some("linux".to_string()),
            share_address: true,
            network_name: "Signum".to_string(),
        },
        resolved_ip: "1.2.3.4".to_string(),
    };
    update_db_peer_info(&mut db, &first, outcome, now);
    assert_eq!(db.peers[1].announced_address, first);
    assert_eq!(db.peers[1].last_seen, Some(now));
    assert_eq!(db.peers[1].attempts_since_last_seen, 0);
}
