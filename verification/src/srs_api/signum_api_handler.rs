//! The inbound dispatcher of the signum-style peer-to-peer API.

use vstd::prelude::*;

use crate::configuration::PeerToPeerSettings;
use crate::models::datastore::count_eligible;
use crate::models::datastore::Datastore;
use crate::models::p2p::peer_address::ascii_bytes;
use crate::models::p2p::peer_address::canonical_addr_bytes;
use crate::models::p2p::PeerAddress;
use crate::peers::register_peer_addresses;
use crate::peers::registry_covers;
use crate::srs_api::outgoing_json::OutgoingJsonBuiler;
use crate::srs_api::request_models::parse_request;
use crate::srs_api::request_models::RequestParseError;
use crate::srs_api::request_models::RequestType;
use crate::wire::field_is_flag;
use crate::wire::field_is_text;
use crate::wire::spec_lookup;
use crate::wire::WireValue;

verus! {

/// What the node answers to one inbound request body.
#[derive(Debug)]
pub enum ApiResponse {
    /// This node's own `getInfo` body.
    Info(Vec<(String, WireValue)>),
    /// A sample of known peer addresses, in canonical form.
    PeerList(Vec<String>),
    /// How many of the submitted peers were new.
    PeersAdded(u64),
    /// The request body was not a well-formed B1 request.
    Rejected(RequestParseError),
}

/// `fs` is the `getInfo` body this node assembles from its settings.
pub open spec fn spec_node_info_fields(
    settings: PeerToPeerSettings,
    fs: Seq<(String, WireValue)>,
) -> bool {
    &&& fs.len() == 8
    &&& field_is_text(fs[0], "protocol"@, "B1"@)
    &&& field_is_text(fs[1], "requestType"@, "getInfo"@)
    &&& field_is_text(fs[2], "announcedAddress"@, settings.my_address@)
    &&& field_is_text(fs[3], "application"@, "SignumRust"@)
    &&& field_is_text(fs[4], "version"@, "0.1.0"@)
    &&& field_is_text(fs[5], "platform"@, settings.platform@)
    &&& field_is_flag(fs[6], "shareAddress"@, settings.share_address)
    &&& field_is_text(fs[7], "networkName"@, settings.network_name@)
}

/// `s` is the canonical form of the address of some registry row whose
/// blacklist is inactive at `now`.
pub open spec fn names_eligible_peer(d: Datastore, s: String, now: u64) -> bool {
    exists|i: int|
        #![trigger d.peers@[i]]
        0 <= i < d.peers@.len() && !d.peers@[i].blacklist_active(now) && ascii_bytes(s@)
            == canonical_addr_bytes(
            ascii_bytes(d.peers@[i].announced_address.host@),
            d.peers@[i].announced_address.port,
        )
}

/// How many peers the `getPeers` answer samples.
pub const GET_PEERS_SAMPLE: u32 = 10;

/// Dispatches one inbound request body: `getInfo` is answered with this
/// node's own info, `getPeers` with a sample of known peers, and
/// `addPeers` routes the submitted addresses into the registry. A body
/// that parses to no known request is rejected.
pub fn signum_api_handler(
    request_fields: &Vec<(String, WireValue)>,
    settings: &PeerToPeerSettings,
    database: &mut Datastore,
    now: u64,
) -> (r: ApiResponse)
    requires
        old(database).wf(),
    ensures
        final(database).wf(),
        match spec_lookup(request_fields@, "requestType"@) {
            Option::Some(WireValue::Text(t)) => {
                if t@ == "getInfo"@ {
                    &&& (spec_lookup(request_fields@, "networkName"@) matches Option::Some(
                        WireValue::Text(_),
                    ) ==> (r matches ApiResponse::Info(fs) && spec_node_info_fields(
                        *settings,
                        fs@,
                    )))
                    &&& (!(spec_lookup(request_fields@, "networkName"@) matches Option::Some(
                        WireValue::Text(_),
                    )) ==> (r matches ApiResponse::Rejected(e) && e
                        == RequestParseError::MissingNetworkName))
                    &&& final(database).peers@ == old(database).peers@
                } else if t@ == "addPeers"@ {
                    match spec_lookup(request_fields@, "peers"@) {
                        Option::Some(WireValue::List(submitted)) => r matches
                            ApiResponse::PeersAdded(n) && n == final(database).peers@.len() - old(
                            database,
                        ).peers@.len() && forall|j: int|
                            0 <= j < submitted@.len() ==> registry_covers(
                                *final(database),
                                #[trigger] submitted@[j],
                            ),
                        _ => r matches ApiResponse::Rejected(RequestParseError::MissingPeers)
                            && final(database).peers@ == old(database).peers@,
                    }
                } else if t@ == "getPeers"@ {
                    &&& r matches ApiResponse::PeerList(v) && (count_eligible(
                        final(database).peers@,
                        now,
                    ) > 0 ==> v@.len() > 0) && (forall|k: int|
                        0 <= k < v@.len() ==> names_eligible_peer(
                            *final(database),
                            #[trigger] v@[k],
                            now,
                        ))
                    &&& final(database).peers@ == old(database).peers@
                } else {
                    r matches ApiResponse::Rejected(RequestParseError::UnknownRequestType)
                        && final(database).peers@ == old(database).peers@
                }
            },
            _ => {
                &&& r matches ApiResponse::Rejected(RequestParseError::MissingRequestType)
                &&& final(database).peers@ == old(database).peers@
            },
        },
{
    let parsed = parse_request(request_fields);
    match parsed {
        Err(e) => ApiResponse::Rejected(e),
        Ok(req) => match req {
            RequestType::GetInfo(_) => {
                let body = OutgoingJsonBuiler::new(settings).get_info().to_wire_fields();
                ApiResponse::Info(body)
            },
            RequestType::GetPeers {  } => {
                let mut names: Vec<String> = Vec::new();
                match database.get_n_random_peers(GET_PEERS_SAMPLE, now) {
                    Ok(sample) => {
                        let n: usize = sample.len();
                        let mut i: usize = 0;
                        while i < n
                            invariant
                                database.wf(),
                                n == sample@.len(),
                                i <= n,
                                names@.len() == i,
                                forall|k: int|
                                    0 <= k < n ==> database.is_eligible_address(
                                        #[trigger] sample@[k],
                                        now,
                                    ) && sample@[k].wf(),
                                forall|k: int|
                                    0 <= k < i ==> names_eligible_peer(
                                        *database,
                                        #[trigger] names@[k],
                                        now,
                                    ),
                            decreases n - i,
                        {
                            let s = sample[i].to_address_string();
                            proof {
                                assert(database.is_eligible_address(sample@[i as int], now));
                                let x = choose|x: int|
                                    #![trigger database.peers@[x]]
                                    0 <= x < database.peers@.len() && sample@[i as int]
                                        == database.peers@[x].announced_address
                                        && !database.peers@[x].blacklist_active(now);
                                assert(ascii_bytes(s@) == canonical_addr_bytes(
                                    ascii_bytes(database.peers@[x].announced_address.host@),
                                    database.peers@[x].announced_address.port,
                                ));
                            }
                            names.push(s);
                            i = i + 1;
                        }
                        proof {
                            assert forall|k: int| 0 <= k < names@.len() implies names_eligible_peer(
                                *database,
                                #[trigger] names@[k],
                                now,
                            ) by {
                                let ghost picked = names@[k];
                            }
                        }
                        ApiResponse::PeerList(names)
                    },
                    Err(_) => ApiResponse::PeerList(names),
                }
            },
            RequestType::AddPeers { peers } => {
                let added = register_peer_addresses(database, &peers);
                let count = added.len();
                ApiResponse::PeersAdded(count as u64)
            },
        },
    }
}

} // verus!
