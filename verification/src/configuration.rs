//! Node settings. Loading them from files or the environment is the
//! caller's business; the node only reads the plain values held here.

use vstd::prelude::*;

use crate::models::p2p::peer_address::ascii_bytes;
use crate::models::p2p::peer_address::spec_parse_addr;
use crate::models::p2p::PeerAddress;

verus! {

/// Settings for the node.
#[derive(Debug)]
pub struct Settings {
    pub srs_api: SrsApiSettings,
    pub database: DatabaseSettings,
    pub node: NodeSettings,
    pub p2p: PeerToPeerSettings,
}

/// Settings for the signum-style API.
#[derive(Debug)]
pub struct SrsApiSettings {
    pub base_url: String,
    pub listen_address: String,
    pub listen_port: u16,
}

/// Database settings.
#[derive(Debug)]
pub struct DatabaseSettings {
    pub filename: String,
}

#[derive(Debug)]
pub struct NodeSettings {
    pub cash_back_id: String,
    pub network: String,
}

/// Peer to peer settings.
#[derive(Debug)]
pub struct PeerToPeerSettings {
    /// Peer addresses to use if none are in the database already.
    pub bootstrap_peers: Vec<PeerAddress>,
    /// Address that peers should attempt to connect to.
    pub my_address: String,
    /// A string indicating the platform in use. Often set to a signum
    /// address for SNR rewards.
    pub platform: String,
    /// Whether or not peers should pass along this node's address to their
    /// own peers.
    pub share_address: bool,
    /// The name of the network to which this node is connecting.
    pub network_name: String,
    /// The address to which SNR awards should be paid. Currently unused on
    /// the network.
    pub snr_reward_address: String,
}

impl Clone for PeerToPeerSettings {
    /// Clones keep every field unchanged.
    fn clone(&self) -> (r: Self)
        ensures
            r.bootstrap_peers@ == self.bootstrap_peers@,
            r.my_address == self.my_address,
            r.platform == self.platform,
            r.share_address == self.share_address,
            r.network_name == self.network_name,
            r.snr_reward_address == self.snr_reward_address,
    {
        let mut bootstrap_peers: Vec<PeerAddress> = Vec::new();
        let n: usize = self.bootstrap_peers.len();
        let mut i: usize = 0;
        while i < n
            invariant
                n == self.bootstrap_peers@.len(),
                i <= n,
                bootstrap_peers@.len() == i,
                forall|j: int|
                    0 <= j < i ==> #[trigger] bootstrap_peers@[j] == self.bootstrap_peers@[j],
            decreases n - i,
        {
            bootstrap_peers.push(self.bootstrap_peers[i].clone());
            i = i + 1;
        }
        proof {
            assert(bootstrap_peers@ =~= self.bootstrap_peers@);
        }
        PeerToPeerSettings {
            bootstrap_peers,
            my_address: self.my_address.clone(),
            platform: self.platform.clone(),
            share_address: self.share_address,
            network_name: self.network_name.clone(),
            snr_reward_address: self.snr_reward_address.clone(),
        }
    }
}

/// Optional overrides for the hard-fork height table; `None` keeps the
/// built-in height.
#[derive(Debug)]
pub struct HistoricalMoments {
    pub genesis: Option<u32>,
    pub reward_recipient_enable: Option<u32>,
    pub digital_goods_store_enable: Option<u32>,
    pub automated_transaction_enable: Option<u32>,
    pub automated_transaction_fix_1: Option<u32>,
    pub automated_transaction_fix_2: Option<u32>,
    pub automated_transaction_fix_3: Option<u32>,
    pub pre_poc2: Option<u32>,
    pub poc2_enable: Option<u32>,
    pub sodium_enable: Option<u32>,
    pub signum_name_change: Option<u32>,
    pub poc_plus_enable: Option<u32>,
    pub speedway_enable: Option<u32>,
    pub smart_token_enable: Option<u32>,
    pub smart_fees_enable: Option<u32>,
    pub smart_ats_enable: Option<u32>,
    pub automated_transaction_fix_4: Option<u32>,
    pub distribution_fix_enable: Option<u32>,
    pub pk_freeze: Option<u32>,
    pub pk_freeze_2: Option<u32>,
    pub smart_alias_enable: Option<u32>,
    pub next_fork: Option<u32>,
}

impl HistoricalMoments {
    /// No overrides: every height keeps its built-in value.
    pub fn empty() -> (r: HistoricalMoments)
        ensures
            r == (HistoricalMoments {
                genesis: None,
                reward_recipient_enable: None,
                digital_goods_store_enable: None,
                automated_transaction_enable: None,
                automated_transaction_fix_1: None,
                automated_transaction_fix_2: None,
                automated_transaction_fix_3: None,
                pre_poc2: None,
                poc2_enable: None,
                sodium_enable: None,
                signum_name_change: None,
                poc_plus_enable: None,
                speedway_enable: None,
                smart_token_enable: None,
                smart_fees_enable: None,
                smart_ats_enable: None,
                automated_transaction_fix_4: None,
                distribution_fix_enable: None,
                pk_freeze: None,
                pk_freeze_2: None,
                smart_alias_enable: None,
                next_fork: None,
            }),
    {
        HistoricalMoments {
            genesis: None,
            reward_recipient_enable: None,
            digital_goods_store_enable: None,
            automated_transaction_enable: None,
            automated_transaction_fix_1: None,
            automated_transaction_fix_2: None,
            automated_transaction_fix_3: None,
            pre_poc2: None,
            poc2_enable: None,
            sodium_enable: None,
            signum_name_change: None,
            poc_plus_enable: None,
            speedway_enable: None,
            smart_token_enable: None,
            smart_fees_enable: None,
            smart_ats_enable: None,
            automated_transaction_fix_4: None,
            distribution_fix_enable: None,
            pk_freeze: None,
            pk_freeze_2: None,
            smart_alias_enable: None,
            next_fork: None,
        }
    }
}

/// The seed addresses consulted when the registry is empty.
pub open spec fn spec_bootstrap_sources() -> Seq<Seq<char>> {
    seq![
        "australia.signum.network:8123"@,
        "brazil.signum.network:8123"@,
        "canada.signum.network:8123"@,
        "europe.signum.network:8123"@,
        "europe1.signum.network:8123"@,
        "europe2.signum.network:8123"@,
        "europe3.signum.network:8123"@,
        "latam.signum.network:8123"@,
        "singapore.signum.network:8123"@,
        "ru.signum.network:8123"@,
        "us-central.signum.network:8123"@,
        "us-east.signum.network:8123"@,
    ]
}

/// The built-in bootstrap peer list: the parses of the seed addresses, in
/// order. Parsing stops at the first seed that does not parse, so a full
/// list has twelve entries.
pub fn default_value_bootstrap_peers() -> (r: Vec<PeerAddress>)
    ensures
        r@.len() <= 12,
        forall|k: int| 0 <= k < r@.len() ==> (#[trigger] r@[k]).wf(),
        forall|k: int|
            0 <= k < r@.len() ==> spec_parse_addr(ascii_bytes(spec_bootstrap_sources()[k]))
                == Option::Some(((#[trigger] r@[k]).host_bytes(), r@[k].port)),
        r@.len() < 12 ==> !vstd::utf8::is_ascii_chars(spec_bootstrap_sources()[r@.len() as int])
            || spec_parse_addr(ascii_bytes(spec_bootstrap_sources()[r@.len() as int])) is None,
{
    let sources: Vec<&str> = vec![
        "australia.signum.network:8123",
        "brazil.signum.network:8123",
        "canada.signum.network:8123",
        "europe.signum.network:8123",
        "europe1.signum.network:8123",
        "europe2.signum.network:8123",
        "europe3.signum.network:8123",
        "latam.signum.network:8123",
        "singapore.signum.network:8123",
        "ru.signum.network:8123",
        "us-central.signum.network:8123",
        "us-east.signum.network:8123",
    ];
    proof {
        assert forall|k: int| 0 <= k < 12 implies (#[trigger] sources@[k])@
            == spec_bootstrap_sources()[k] by {
            assert(sources@[0]@ == spec_bootstrap_sources()[0]);
            assert(sources@[1]@ == spec_bootstrap_sources()[1]);
            assert(sources@[2]@ == spec_bootstrap_sources()[2]);
            assert(sources@[3]@ == spec_bootstrap_sources()[3]);
            assert(sources@[4]@ == spec_bootstrap_sources()[4]);
            assert(sources@[5]@ == spec_bootstrap_sources()[5]);
            assert(sources@[6]@ == spec_bootstrap_sources()[6]);
            assert(sources@[7]@ == spec_bootstrap_sources()[7]);
            assert(sources@[8]@ == spec_bootstrap_sources()[8]);
            assert(sources@[9]@ == spec_bootstrap_sources()[9]);
            assert(sources@[10]@ == spec_bootstrap_sources()[10]);
            assert(sources@[11]@ == spec_bootstrap_sources()[11]);
        }
    }
    let mut out: Vec<PeerAddress> = Vec::new();
    let mut k: usize = 0;
    while k < 12
        invariant
            k <= 12,
            sources@.len() == 12,
            forall|j: int| 0 <= j < 12 ==> (#[trigger] sources@[j])@ == spec_bootstrap_sources()[j],
            out@.len() == k,
            forall|j: int| 0 <= j < k ==> (#[trigger] out@[j]).wf(),
            forall|j: int|
                0 <= j < k ==> spec_parse_addr(ascii_bytes(spec_bootstrap_sources()[j]))
                    == Option::Some(((#[trigger] out@[j]).host_bytes(), out@[j].port)),
        decreases 12 - k,
    {
        match PeerAddress::parse(sources[k]) {
            Ok(pa) => {
                out.push(pa);
            },
            Err(_) => {
                return out;
            },
        }
        k = k + 1;
    }
    out
}

/// The default announced address: empty until configured.
pub fn default_value_my_address() -> (r: String)
    ensures
        r@.len() == 0,
{
    String::new()
}

/// The default platform string: empty.
pub fn default_value_platform() -> (r: String)
    ensures
        r@.len() == 0,
{
    String::new()
}

/// Peers share this node's address by default.
pub fn default_value_share_address() -> (r: bool)
    ensures
        r == true,
{
    true
}

/// The default network is the Signum main network.
pub fn default_value_network_name() -> (r: String)
    ensures
        r@ == "Signum"@,
{
    "Signum".to_owned()
}

/// The default SNR reward address: empty.
pub fn default_value_snr_reward_address() -> (r: String)
    ensures
        r@.len() == 0,
{
    String::new()
}

} // verus!
