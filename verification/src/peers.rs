//! The verified half of the outbound peer client: the request bodies the
//! node sends, the classification of what came back, and the registry
//! policy applied to each refresh outcome. The transport itself — HTTP,
//! timeouts, JSON — lives at the caller's edge and hands plain values in.

use vstd::prelude::*;

use crate::models::datastore::blacklisted_record;
use crate::models::datastore::fresh_peer_record;
use crate::models::datastore::bumped_attempts_record;
use crate::models::datastore::lemma_contains_after_update;
use crate::models::datastore::merged_peer_record;
use crate::models::datastore::Datastore;
use crate::models::p2p::b1_block::B1Block;
use crate::models::p2p::peer_address::ascii_bytes;
use crate::models::p2p::peer_address::spec_parse_addr;
use crate::models::p2p::PeerAddress;
use crate::models::p2p::PeerAddressParseError;
use crate::models::p2p::PeerInfo;
use crate::wire::field_is_number;
use crate::wire::field_is_text;
use crate::wire::WireValue;
use vstd::utf8::is_ascii_chars;

verus! {

/// How an outbound call to a peer failed. The transport edge classifies
/// its own error into one of these; the message is carried for logging.
#[derive(Debug)]
pub enum PeerCommunicationError {
    /// The body was received but did not have the expected shape.
    ContentDecodeError(String),
    /// The connection itself failed.
    ConnectionError(String),
    /// The request exceeded its deadline.
    ConnectionTimeout(String),
    /// Anything else.
    UnexpectedError(String),
}

/// A downloaded set of blocks.
#[derive(Debug)]
pub struct DownloadResult {
    pub blocks: Vec<B1Block>,
    pub peer: PeerAddress,
    pub start_height: u64,
    pub number_of_blocks: u32,
}

/// The body of a `getPeers` request.
pub fn get_peers_request_body() -> (r: Vec<(String, WireValue)>)
    ensures
        r@.len() == 2,
        field_is_text(r@[0], "protocol"@, "B1"@),
        field_is_text(r@[1], "requestType"@, "getPeers"@),
{
    let mut out: Vec<(String, WireValue)> = Vec::new();
    out.push(("protocol".to_owned(), WireValue::Text("B1".to_owned())));
    out.push(("requestType".to_owned(), WireValue::Text("getPeers".to_owned())));
    out
}

/// The body of a `getCumulativeDifficulty` request.
pub fn get_cumulative_difficulty_request_body() -> (r: Vec<(String, WireValue)>)
    ensures
        r@.len() == 2,
        field_is_text(r@[0], "protocol"@, "B1"@),
        field_is_text(r@[1], "requestType"@, "getCumulativeDifficulty"@),
{
    let mut out: Vec<(String, WireValue)> = Vec::new();
    out.push(("protocol".to_owned(), WireValue::Text("B1".to_owned())));
    out.push(("requestType".to_owned(), WireValue::Text("getCumulativeDifficulty".to_owned())));
    out
}

/// The body of a `getBlocksFromHeight` request.
pub fn get_blocks_request_body(height: u64, num_blocks: u32) -> (r: Vec<(String, WireValue)>)
    ensures
        r@.len() == 4,
        field_is_text(r@[0], "protocol"@, "B1"@),
        field_is_text(r@[1], "requestType"@, "getBlocksFromHeight"@),
        field_is_number(r@[2], "height"@, height),
        field_is_number(r@[3], "numBlocks"@, num_blocks as u64),
{
    let mut out: Vec<(String, WireValue)> = Vec::new();
    out.push(("protocol".to_owned(), WireValue::Text("B1".to_owned())));
    out.push(("requestType".to_owned(), WireValue::Text("getBlocksFromHeight".to_owned())));
    out.push(("height".to_owned(), WireValue::Number(height)));
    out.push(("numBlocks".to_owned(), WireValue::Number(num_blocks as u64)));
    out
}

/// A peer that does not announce an address is keyed by the address the
/// transport resolved for it: fills `announced_address` from
/// `resolved_ip` when the peer named none. Fails exactly when the address
/// was missing and the resolved IP does not parse.
pub fn resolve_announced_address(info: PeerInfo, resolved_ip: &str) -> (r: Result<
    PeerInfo,
    PeerAddressParseError,
>)
    ensures
        match r {
            Ok(out) => {
                &&& out.application == info.application
                &&& out.version == info.version
                &&& out.platform == info.platform
                &&& out.share_address == info.share_address
                &&& out.network_name == info.network_name
                &&& (info.announced_address is Some ==> out.announced_address
                    == info.announced_address)
                &&& (info.announced_address is None ==> (out.announced_address matches Some(pa)
                    && pa.wf() && spec_parse_addr(ascii_bytes(resolved_ip@)) == Option::Some(
                    (pa.host_bytes(), pa.port),
                )))
            },
            Err(_) => info.announced_address is None && (!is_ascii_chars(resolved_ip@)
                || spec_parse_addr(ascii_bytes(resolved_ip@)) is None),
        },
{
    match info.announced_address {
        Some(a) => Ok(
            PeerInfo {
                announced_address: Some(a),
                application: info.application,
                version: info.version,
                platform: info.platform,
                share_address: info.share_address,
                network_name: info.network_name,
            },
        ),
        None => {
            match PeerAddress::parse(resolved_ip) {
                Ok(pa) => Ok(
                    PeerInfo {
                        announced_address: Some(pa),
                        application: info.application,
                        version: info.version,
                        platform: info.platform,
                        share_address: info.share_address,
                        network_name: info.network_name,
                    },
                ),
                Err(e) => Err(e),
            }
        },
    }
}

/// What one `getInfo` refresh call produced, as handed in by the
/// transport edge.
#[derive(Debug)]
pub enum PeerInfoOutcome {
    /// The peer answered; its info and the transport-resolved IP.
    Received { info: PeerInfo, resolved_ip: String },
    /// The call failed, classified.
    Failed(PeerCommunicationError),
}

/// Applies the refresh policy for one peer to the registry:
/// on success the info is merged; a connection error counts an attempt
/// and blacklists; a timeout or an unexpected error only counts an
/// attempt; a malformed body blacklists at once.
pub fn update_db_peer_info(
    database: &mut Datastore,
    peer: &PeerAddress,
    outcome: PeerInfoOutcome,
    now: u64,
)
    requires
        old(database).wf(),
        now <= u64::MAX - 86_400,
    ensures
        final(database).wf(),
        !old(database).contains_addr(*peer) ==> final(database).peers@ == old(database).peers@,
        old(database).contains_addr(*peer) ==> ({
            let i = old(database).index_of_addr(*peer);
            let rec = old(database).peers@[i];
            match outcome {
                PeerInfoOutcome::Received { info, resolved_ip } => final(database).peers@ == old(
                    database,
                ).peers@.update(i, merged_peer_record(rec, resolved_ip, info, now)),
                PeerInfoOutcome::Failed(e) => match e {
                    PeerCommunicationError::ConnectionError(_) => final(database).peers@ == old(
                        database,
                    ).peers@.update(i, blacklisted_record(bumped_attempts_record(rec), now)),
                    PeerCommunicationError::ConnectionTimeout(_) => final(database).peers@ == old(
                        database,
                    ).peers@.update(i, bumped_attempts_record(rec)),
                    PeerCommunicationError::ContentDecodeError(_) => final(database).peers@ == old(
                        database,
                    ).peers@.update(i, blacklisted_record(rec, now)),
                    PeerCommunicationError::UnexpectedError(_) => final(database).peers@ == old(
                        database,
                    ).peers@.update(i, bumped_attempts_record(rec)),
                },
            }
        }),
{
    match outcome {
        PeerInfoOutcome::Received { info, resolved_ip } => {
            database.update_peer_info(peer, resolved_ip, info, now);
        },
        PeerInfoOutcome::Failed(e) => {
            match e {
                PeerCommunicationError::ConnectionError(_) => {
                    let ghost pre = *database;
                    let had = database.increment_attempts_since_last_seen(peer);
                    let ghost mid = *database;
                    proof {
                        if had {
                            let i = pre.index_of_addr(*peer);
                            lemma_contains_after_update(
                                pre,
                                mid,
                                *peer,
                                i,
                                bumped_attempts_record(pre.peers@[i]),
                            );
                        } else {
                            assert(mid.peers@ == pre.peers@);
                            assert(!mid.contains_addr(*peer));
                        }
                    }
                    database.blacklist_peer(peer, now);
                    proof {
                        if had {
                            let i = pre.index_of_addr(*peer);
                            assert(database.peers@ =~= pre.peers@.update(
                                i,
                                blacklisted_record(bumped_attempts_record(pre.peers@[i]), now),
                            ));
                        }
                    }
                },
                PeerCommunicationError::ConnectionTimeout(_) => {
                    database.increment_attempts_since_last_seen(peer);
                },
                PeerCommunicationError::ContentDecodeError(_) => {
                    database.blacklist_peer(peer, now);
                },
                PeerCommunicationError::UnexpectedError(_) => {
                    database.increment_attempts_since_last_seen(peer);
                },
            }
        },
    }
}
/// `a` is what some entry of `addrs` parses to.
pub open spec fn parsed_from_one_of(addrs: Seq<String>, a: PeerAddress) -> bool {
    exists|j: int|
        #![trigger addrs[j]]
        0 <= j < addrs.len() && spec_parse_addr(ascii_bytes(addrs[j]@)) == Option::Some(
            (a.host_bytes(), a.port),
        )
}

/// A row keyed like the parse of `s` stands in `d`.
pub open spec fn registry_covers(d: Datastore, s: String) -> bool {
    !is_ascii_chars(s@) || spec_parse_addr(ascii_bytes(s@)) is None || exists|i: int|
        #![trigger d.peers@[i]]
        0 <= i < d.peers@.len() && {
            let parsed = spec_parse_addr(ascii_bytes(s@))->0;
            &&& is_ascii_chars(d.peers@[i].announced_address.host@)
            &&& ascii_bytes(d.peers@[i].announced_address.host@) == parsed.0
            &&& d.peers@[i].announced_address.port == parsed.1
        }
}

/// Parses each announced address and inserts the new ones into the
/// registry; addresses that do not parse are skipped, and known ones are
/// left untouched. Returns the newly created peers, in insertion order.
pub fn register_peer_addresses(database: &mut Datastore, addrs: &Vec<String>) -> (new_peers: Vec<
    PeerAddress,
>)
    requires
        old(database).wf(),
    ensures
        final(database).wf(),
        final(database).peers@.len() == old(database).peers@.len() + new_peers@.len(),
        forall|i: int|
            0 <= i < old(database).peers@.len() ==> final(database).peers@[i] == old(
                database,
            ).peers@[i],
        forall|k: int|
            #![trigger new_peers@[k]]
            0 <= k < new_peers@.len() ==> {
                &&& final(database).peers@[old(database).peers@.len() + k] == fresh_peer_record(
                    new_peers@[k],
                )
                &&& new_peers@[k].wf()
                &&& parsed_from_one_of(addrs@, new_peers@[k])
            },
        forall|j: int| 0 <= j < addrs@.len() ==> registry_covers(*final(database), #[trigger] addrs@[j]),
{
    let mut new_peers: Vec<PeerAddress> = Vec::new();
    let n: usize = addrs.len();
    let mut j: usize = 0;
    while j < n
        invariant
            old(database).wf(),
            database.wf(),
            n == addrs@.len(),
            j <= n,
            database.peers@.len() == old(database).peers@.len() + new_peers@.len(),
            forall|i: int|
                0 <= i < old(database).peers@.len() ==> database.peers@[i] == old(
                    database,
                ).peers@[i],
            forall|k: int|
                #![trigger new_peers@[k]]
                0 <= k < new_peers@.len() ==> {
                    &&& database.peers@[old(database).peers@.len() + k] == fresh_peer_record(
                        new_peers@[k],
                    )
                    &&& new_peers@[k].wf()
                    &&& parsed_from_one_of(addrs@, new_peers@[k])
                },
            forall|x: int| 0 <= x < j ==> registry_covers(*database, #[trigger] addrs@[x]),
        decreases n - j,
    {
        let ghost pre_loop = *database;
        match PeerAddress::parse(addrs[j].as_str()) {
            Ok(pa) => {
                let ghost pa_snapshot = pa;
                let created = database.create_new_peer(&pa);
                proof {
                    if created {
                        assert(database.peers@.last() == fresh_peer_record(pa));
                    }
                }
                if created {
                    new_peers.push(pa);
                }
                proof {
                    assert(database.contains_addr(pa_snapshot));
                    let i = choose|i: int|
                        0 <= i < database.peers@.len() && (
                        #[trigger] database.peers@[i]).announced_address.key()
                            == pa_snapshot.key();
                    assert(database.peers@[i].announced_address.host@ == pa_snapshot.host@);
                    assert(ascii_bytes(database.peers@[i].announced_address.host@)
                        == pa_snapshot.host_bytes());
                    assert(registry_covers(*database, addrs@[j as int]));
                    assert forall|x: int| 0 <= x < j + 1 implies registry_covers(
                        *database,
                        #[trigger] addrs@[x],
                    ) by {
                        if x < j {
                            assert(registry_covers(pre_loop, addrs@[x]));
                            if is_ascii_chars(addrs@[x]@) && spec_parse_addr(
                                ascii_bytes(addrs@[x]@),
                            ) is Some {
                                let i0 = choose|i0: int|
                                    #![trigger pre_loop.peers@[i0]]
                                    0 <= i0 < pre_loop.peers@.len() && {
                                        let parsed = spec_parse_addr(ascii_bytes(addrs@[x]@))->0;
                                        &&& is_ascii_chars(
                                            pre_loop.peers@[i0].announced_address.host@,
                                        )
                                        &&& ascii_bytes(pre_loop.peers@[i0].announced_address.host@)
                                            == parsed.0
                                        &&& pre_loop.peers@[i0].announced_address.port == parsed.1
                                    };
                                assert(database.peers@[i0] == pre_loop.peers@[i0]);
                            }
                        }
                    }
                }
            },
            Err(_) => {
                proof {
                    assert(registry_covers(*database, addrs@[j as int]));
                }
            },
        }
        j = j + 1;
    }
    new_peers
}

} // verus!
