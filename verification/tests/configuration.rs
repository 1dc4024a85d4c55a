use signum_node_rs::configuration::default_value_bootstrap_peers;
use signum_node_rs::configuration::default_value_my_address;
use signum_node_rs::configuration::default_value_network_name;
use signum_node_rs::configuration::default_value_platform;
use signum_node_rs::configuration::default_value_share_address;
use signum_node_rs::configuration::default_value_snr_reward_address;
use signum_node_rs::configuration::HistoricalMoments as HistoricalMomentOverrides;
use signum_node_rs::flux_capacitor::Flux;
use signum_node_rs::flux_capacitor::FluxChangeValue;
use signum_node_rs::historical_moments::initialize_historical_moments;
use signum_node_rs::models::p2p::PeerAddress;

#[test]
fn default_bootstrap_peers_are_twelve_network_nodes() {
    let peers = default_value_bootstrap_peers();
    assert_eq!(peers.len(), 12);
    assert_eq!(peers[0], PeerAddress::parse("australia.signum.network:8123").unwrap());
    assert_eq!(peers[11], PeerAddress::parse("us-east.signum.network:8123").unwrap());
}

#[test]
fn default_settings_values() {
    assert_eq!(default_value_my_address(), "".to_string());
    assert_eq!(default_value_platform(), "".to_string());
    assert!(default_value_share_address());
    assert_eq!(default_value_network_name(), "Signum".to_string());
    assert_eq!(default_value_snr_reward_address(), "".to_string());
}

#[test]
fn historical_moments_resolve_defaults_and_overrides() {
    let table = initialize_historical_moments(&HistoricalMomentOverrides::empty());
    assert_eq!(table.genesis(), 0);
    assert_eq!(table.reward_recipient_enable(), 6_500);
    assert_eq!(table.digital_goods_store_enable(), 11_800);
    assert_eq!(table.automated_transaction_enable(), 49_200);
    assert_eq!(table.pre_poc2(), 500_000);
    assert_eq!(table.poc2_enable(), 502_000);
    assert_eq!(table.sodium_enable(), 765_000);
    assert_eq!(table.signum_name_change(), 875_000);
    assert_eq!(table.poc_plus_enable(), 878_000);
    assert_eq!(table.speedway_enable(), 941_100);
    assert_eq!(table.smart_token_enable(), 1_029_000);
    assert_eq!(table.smart_fees_enable(), 1_029_000);
    assert_eq!(table.smart_ats_enable(), 1_029_000);
    assert_eq!(table.automated_transaction_fix_4(), 1_051_900);
    assert_eq!(table.distribution_fix_enable(), 1_051_900);
    assert_eq!(table.pk_freeze(), 1_099_400);
    assert_eq!(table.pk_freeze_2(), 1_150_000);
    assert_eq!(table.smart_alias_enable(), 1_150_000);
    assert_eq!(table.next_fork(), u32::MAX);

    let mut overrides = HistoricalMomentOverrides::empty();
    overrides.speedway_enable = Some(7);
    let table = initialize_historical_moments(&overrides);
    assert_eq!(table.speedway_enable(), 7);
    assert_eq!(table.sodium_enable(), 765_000);
}

#[test]
fn flux_values_switch_at_their_fork_heights() {
    let changes = vec![FluxChangeValue::new(100, 2u64), FluxChangeValue::new(200, 3u64)];
    let flux = Flux::new(1u64, changes);
    assert_eq!(*flux.get_flux_value(0), 1);
    assert_eq!(*flux.get_flux_value(99), 1);
    assert_eq!(*flux.get_flux_value(100), 2);
    assert_eq!(*flux.get_flux_value(199), 2);
    assert_eq!(*flux.get_flux_value(200), 3);
    assert_eq!(*flux.get_flux_value(5000), 3);
}
