use signum_node_rs::configuration::PeerToPeerSettings;
use signum_node_rs::models::datastore::Datastore;
use signum_node_rs::models::p2p::PeerAddress;
use signum_node_rs::srs_api::request_models::parse_request;
use signum_node_rs::srs_api::request_models::RequestParseError;
use signum_node_rs::srs_api::request_models::RequestType;
use signum_node_rs::srs_api::signum_api_handler;
use signum_node_rs::srs_api::ApiResponse;
use signum_node_rs::srs_api::OutgoingJsonBuiler;
use signum_node_rs::wire::WireValue;

fn test_settings() -> PeerToPeerSettings {
    PeerToPeerSettings {
        bootstrap_peers: vec![PeerAddress::parse("p2p.signumoasis.xyz:80").unwrap()],
        my_address: "my.node.example:8123".to_string(),
        platform: "Test".to_string(),
        share_address: true,
        network_name: "Signum-TEST".to_string(),
        snr_reward_address: "".to_string(),
    }
}

fn text_field(name: &str, value: &str) -> (String, WireValue) {
    (name.to_string(), WireValue::Text(value.to_string()))
}

#[test]
fn outgoing_get_info_round_trips_through_the_parser() {
    let settings = test_settings();
    let body = OutgoingJsonBuiler::new(&settings).get_info().to_wire_fields();
    assert_eq!(body.len(), 8);

    let parsed = parse_request(&body).unwrap();
    match parsed {
        RequestType::GetInfo(model) => {
            assert_eq!(model.announced_address, Some("my.node.example:8123".to_string()));
            assert_eq!(model.application, Some("SignumRust".to_string()));
            assert_eq!(model.version, Some("0.1.0".to_string()));
            assert_eq!(model.platform, Some("Test".to_string()));
            assert_eq!(model.share_address, Some(true));
            assert_eq!(model.network_name, "Signum-TEST".to_string());
        }
        _ => panic!("an outgoing getInfo body must parse as a getInfo request"),
    }
}

#[test]
fn parse_request_dispatches_on_request_type() {
    let get_peers = vec![text_field("protocol", "B1"), text_field("requestType", "getPeers")];
    match parse_request(&get_peers).unwrap() {
        RequestType::GetPeers {} => {}
        _ => panic!("getPeers must parse as GetPeers"),
    }

    let add_peers = vec![
        text_field("requestType", "addPeers"),
        (
            "peers".to_string(),
            WireValue::List(vec!["1.2.3.4".to_string(), "5.6.7.8:9000".to_string()]),
        ),
    ];
    match parse_request(&add_peers).unwrap() {
        RequestType::AddPeers { peers } => assert_eq!(peers.len(), 2),
        _ => panic!("addPeers must parse as AddPeers"),
    }

    let unknown = vec![text_field("requestType", "getMilestoneBlockIds")];
    assert_eq!(parse_request(&unknown).unwrap_err(), RequestParseError::UnknownRequestType);

    let missing: Vec<(String, WireValue)> = vec![text_field("protocol", "B1")];
    assert_eq!(parse_request(&missing).unwrap_err(), RequestParseError::MissingRequestType);

    let info_without_network = vec![text_field("requestType", "getInfo")];
    assert_eq!(
        parse_request(&info_without_network).unwrap_err(),
        RequestParseError::MissingNetworkName
    );

    let add_without_peers = vec![text_field("requestType", "addPeers")];
    assert_eq!(parse_request(&add_without_peers).unwrap_err(), RequestParseError::MissingPeers);
}

#[test]
fn handler_answers_get_info_with_own_settings() {
    let now = 1_000_000u64;
    let settings = test_settings();
    let mut db = Datastore::new();
    let request = vec![
        text_field("requestType", "getInfo"),
        text_field("application", "SignumRust"),
        text_field("version", "0.1.0"),
        text_field("platform", "Test"),
        ("shareAddress".to_string(), WireValue::Flag(false)),
        text_field("networkName", "Signum-TEST"),
    ];
    match signum_api_handler(&request, &settings, &mut db, now) {
        ApiResponse::Info(fields) => {
            assert_eq!(fields.len(), 8);
            assert_eq!(fields[2].0, "announcedAddress".to_string());
            match &fields[2].1 {
                WireValue::Text(s) => assert_eq!(*s, "my.node.example:8123".to_string()),
                _ => panic!("announcedAddress must be text"),
            }
            match &fields[7].1 {
                WireValue::Text(s) => assert_eq!(*s, "Signum-TEST".to_string()),
                _ => panic!("networkName must be text"),
            }
        }
        _ => panic!("getInfo must be answered with this node's info"),
    }
}

#[test]
fn handler_routes_add_peers_into_the_registry() {
    let now = 1_000_000u64;
    let settings = test_settings();
    let mut db = Datastore::new();
    let request = vec![
        text_field("requestType", "addPeers"),
        (
            "peers".to_string(),
            WireValue::List(vec!["1.2.3.4".to_string(), "[:::1]".to_string()]),
        ),
    ];
    match signum_api_handler(&request, &settings, &mut db, now) {
        ApiResponse::PeersAdded(n) => assert_eq!(n, 1),
        _ => panic!("addPeers must be accepted"),
    }
    assert_eq!(db.peers.len(), 1);
    assert_eq!(db.peers[0].announced_address, PeerAddress::parse("1.2.3.4").unwrap());
}

#[test]
fn handler_answers_get_peers_with_known_addresses() {
    let now = 1_000_000u64;
    let settings = test_settings();
    let mut db = Datastore::new();
    db.create_new_peer(&PeerAddress::parse("1.2.3.4").unwrap());
    let request = vec![text_field("requestType", "getPeers")];
    match signum_api_handler(&request, &settings, &mut db, now) {
        ApiResponse::PeerList(v) => {
            assert_eq!(v.len(), 1);
            assert_eq!(v[0], "1.2.3.4:8123".to_string());
        }
        _ => panic!("getPeers must be answered with a peer list"),
    }
}

#[test]
fn handler_rejects_unknown_request_types() {
    let now = 1_000_000u64;
    let settings = test_settings();
    let mut db = Datastore::new();
    let request = vec![text_field("requestType", "processBlock")];
    match signum_api_handler(&request, &settings, &mut db, now) {
        ApiResponse::Rejected(e) => assert_eq!(e, RequestParseError::UnknownRequestType),
        _ => panic!("an unknown requestType must be rejected"),
    }
}
