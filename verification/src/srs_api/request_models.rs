//! The request shapes of the signum-style peer-to-peer API. The protocol
//! field is ignored: it has always been `B1` on this network.

use vstd::prelude::*;

use crate::srs_api::outgoing_json::spec_get_info_wire_fields;
use crate::srs_api::outgoing_json::OutgoingGetInfoRequest;
use crate::wire::field_is_text;
use crate::wire::lookup_field;
use crate::wire::spec_lookup;
use crate::wire::str_eq;
use crate::wire::WireValue;

verus! {

/// Each of the request types a peer may send.
#[derive(Debug)]
pub enum RequestType {
    AddPeers { peers: Vec<String> },
    GetInfo(GetInfoRequestModel),
    GetPeers {},
}

/// What a peer says about itself in a `getInfo` request.
#[derive(Debug)]
pub struct GetInfoRequestModel {
    pub announced_address: Option<String>,
    pub application: Option<String>,
    pub version: Option<String>,
    pub platform: Option<String>,
    pub share_address: Option<bool>,
    pub network_name: String,
}

/// Why a request body was rejected.
#[derive(Clone, Copy, Debug, PartialEq, Eq, Structural)]
pub enum RequestParseError {
    /// No `requestType` text field.
    MissingRequestType,
    /// A `requestType` this dialect does not know.
    UnknownRequestType,
    /// An `addPeers` request without a `peers` list.
    MissingPeers,
    /// A `getInfo` request without a `networkName` text field.
    MissingNetworkName,
}

/// The optional text field `name` of `fs` landed in `o`.
pub open spec fn opt_text_matches(
    fs: Seq<(String, WireValue)>,
    name: Seq<char>,
    o: Option<String>,
) -> bool {
    match spec_lookup(fs, name) {
        Option::Some(WireValue::Text(s)) => o == Option::Some(s),
        _ => o is None,
    }
}

/// The optional boolean field `name` of `fs` landed in `o`.
pub open spec fn opt_flag_matches(
    fs: Seq<(String, WireValue)>,
    name: Seq<char>,
    o: Option<bool>,
) -> bool {
    match spec_lookup(fs, name) {
        Option::Some(WireValue::Flag(b)) => o == Option::Some(b),
        _ => o is None,
    }
}

/// `m` is the `getInfo` model read from the fields `fs`.
pub open spec fn spec_get_info_model(fs: Seq<(String, WireValue)>, m: GetInfoRequestModel) -> bool {
    &&& opt_text_matches(fs, "announcedAddress"@, m.announced_address)
    &&& opt_text_matches(fs, "application"@, m.application)
    &&& opt_text_matches(fs, "version"@, m.version)
    &&& opt_text_matches(fs, "platform"@, m.platform)
    &&& opt_flag_matches(fs, "shareAddress"@, m.share_address)
    &&& (spec_lookup(fs, "networkName"@) matches Option::Some(WireValue::Text(s))
        && m.network_name == s)
}

/// `r` is the parse of the request body `fs`: dispatch on `requestType`,
/// with exactly one rejection reason per malformed shape.
pub open spec fn spec_request_parse(
    fs: Seq<(String, WireValue)>,
    r: Result<RequestType, RequestParseError>,
) -> bool {
    match spec_lookup(fs, "requestType"@) {
        Option::Some(WireValue::Text(t)) => {
            if t@ == "getInfo"@ {
                match r {
                    Ok(req) => req matches RequestType::GetInfo(m) && spec_get_info_model(fs, m),
                    Err(e) => e == RequestParseError::MissingNetworkName && !(spec_lookup(
                        fs,
                        "networkName"@,
                    ) matches Option::Some(WireValue::Text(_))),
                }
            } else if t@ == "addPeers"@ {
                match r {
                    Ok(req) => req matches RequestType::AddPeers { peers } && (spec_lookup(
                        fs,
                        "peers"@,
                    ) matches Option::Some(WireValue::List(v)) && peers@ == v@),
                    Err(e) => e == RequestParseError::MissingPeers && !(spec_lookup(
                        fs,
                        "peers"@,
                    ) matches Option::Some(WireValue::List(_))),
                }
            } else if t@ == "getPeers"@ {
                r matches Ok(req) && req is GetPeers
            } else {
                r matches Err(e) && e == RequestParseError::UnknownRequestType
            }
        },
        _ => r matches Err(e) && e == RequestParseError::MissingRequestType,
    }
}

fn get_opt_text(fields: &Vec<(String, WireValue)>, name: &str) -> (o: Option<String>)
    ensures
        opt_text_matches(fields@, name@, o),
{
    match lookup_field(fields, name) {
        Some(v) => match v {
            WireValue::Text(s) => Some(s.clone()),
            _ => None,
        },
        None => None,
    }
}

fn get_opt_flag(fields: &Vec<(String, WireValue)>, name: &str) -> (o: Option<bool>)
    ensures
        opt_flag_matches(fields@, name@, o),
{
    match lookup_field(fields, name) {
        Some(v) => match v {
            WireValue::Flag(b) => Some(*b),
            _ => None,
        },
        None => None,
    }
}

fn clone_string_vec(v: &Vec<String>) -> (r: Vec<String>)
    ensures
        r@ == v@,
{
    let mut out: Vec<String> = Vec::new();
    let n: usize = v.len();
    let mut i: usize = 0;
    while i < n
        invariant
            n == v@.len(),
            i <= n,
            out@.len() == i,
            forall|j: int| 0 <= j < i ==> #[trigger] out@[j] == v@[j],
        decreases n - i,
    {
        out.push(v[i].clone());
        i = i + 1;
    }
    proof {
        assert(out@ =~= v@);
    }
    out
}

/// Parses a request body: dispatches on `requestType` and reads the
/// fields the named request carries.
pub fn parse_request(fields: &Vec<(String, WireValue)>) -> (r: Result<
    RequestType,
    RequestParseError,
>)
    ensures
        spec_request_parse(fields@, r),
{
    let looked = lookup_field(fields, "requestType");
    let rt: &String = match looked {
        Some(v) => match v {
            WireValue::Text(t) => t,
            _ => {
                return Err(RequestParseError::MissingRequestType);
            },
        },
        None => {
            return Err(RequestParseError::MissingRequestType);
        },
    };
    if str_eq(rt.as_str(), "getInfo") {
        let announced_address = get_opt_text(fields, "announcedAddress");
        let application = get_opt_text(fields, "application");
        let version = get_opt_text(fields, "version");
        let platform = get_opt_text(fields, "platform");
        let share_address = get_opt_flag(fields, "shareAddress");
        let network_name = match lookup_field(fields, "networkName") {
            Some(v) => match v {
                WireValue::Text(s) => s.clone(),
                _ => {
                    return Err(RequestParseError::MissingNetworkName);
                },
            },
            None => {
                return Err(RequestParseError::MissingNetworkName);
            },
        };
        Ok(
            RequestType::GetInfo(
                GetInfoRequestModel {
                    announced_address,
                    application,
                    version,
                    platform,
                    share_address,
                    network_name,
                },
            ),
        )
    } else if str_eq(rt.as_str(), "addPeers") {
        let peers = match lookup_field(fields, "peers") {
            Some(v) => match v {
                WireValue::List(items) => clone_string_vec(items),
                _ => {
                    return Err(RequestParseError::MissingPeers);
                },
            },
            None => {
                return Err(RequestParseError::MissingPeers);
            },
        };
        Ok(RequestType::AddPeers { peers })
    } else if str_eq(rt.as_str(), "getPeers") {
        Ok(RequestType::GetPeers {  })
    } else {
        Err(RequestParseError::UnknownRequestType)
    }
}

/// Looking a name up walks past a first field under another name.
proof fn lemma_lookup_skip_one(fs: Seq<(String, WireValue)>, name: Seq<char>)
    requires
        fs.len() > 0,
        fs[0].0@ != name,
    ensures
        spec_lookup(fs, name) == spec_lookup(fs.drop_first(), name),
{
}

/// The first field under `name` decides the lookup.
proof fn lemma_lookup_at(fs: Seq<(String, WireValue)>, name: Seq<char>, k: int)
    requires
        0 <= k < fs.len(),
        fs[k].0@ == name,
        forall|j: int| 0 <= j < k ==> (#[trigger] fs[j]).0@ != name,
    ensures
        spec_lookup(fs, name) == Option::Some(fs[k].1),
    decreases k,
{
    if k == 0 {
    } else {
        lemma_lookup_skip_one(fs, name);
        let rest = fs.drop_first();
        assert(rest[k - 1] == fs[k]);
        assert(forall|j: int| 0 <= j < k - 1 ==> (#[trigger] rest[j]) == fs[j + 1]);
        lemma_lookup_at(rest, name, k - 1);
    }
}

/// A `getInfo` request that this node itself produced parses back to the
/// same data: every field of the outgoing body lands in the parsed model.
pub proof fn lemma_get_info_round_trip(
    o: OutgoingGetInfoRequest,
    fs: Seq<(String, WireValue)>,
    r: Result<RequestType, RequestParseError>,
)
    requires
        o.request_type@ == "getInfo"@,
        spec_get_info_wire_fields(o, fs),
        spec_request_parse(fs, r),
    ensures
        r matches Ok(req) && req matches RequestType::GetInfo(m) && {
            &&& m.announced_address matches Some(s) && s@ == o.announced_address@
            &&& m.application matches Some(s) && s@ == o.application@
            &&& m.version matches Some(s) && s@ == o.version@
            &&& m.platform matches Some(s) && s@ == o.platform@
            &&& m.share_address == Option::Some(o.share_address)
            &&& m.network_name@ == o.network_name@
        },
{
    broadcast use vstd::string::group_string_axioms;

    reveal_strlit("protocol");
    reveal_strlit("requestType");
    reveal_strlit("announcedAddress");
    reveal_strlit("application");
    reveal_strlit("version");
    reveal_strlit("platform");
    reveal_strlit("shareAddress");
    reveal_strlit("networkName");
    reveal_strlit("getInfo");
    assert("protocol"@.len() == 8);
    assert("requestType"@.len() == 11);
    assert("announcedAddress"@.len() == 16);
    assert("application"@.len() == 11);
    assert("version"@.len() == 7);
    assert("platform"@.len() == 8);
    assert("shareAddress"@.len() == 12);
    assert("networkName"@.len() == 11);
    assert("requestType"@[0] == 'r' && "application"@[0] == 'a' && "networkName"@[0] == 'n');
    assert("protocol"@[1] == 'r' && "platform"@[1] == 'l');
    assert(fs[0].0@ != "requestType"@);
    lemma_lookup_at(fs, "requestType"@, 1);
    assert(fs[0].0@ != "announcedAddress"@ && fs[1].0@ != "announcedAddress"@);
    lemma_lookup_at(fs, "announcedAddress"@, 2);
    assert(fs[0].0@ != "application"@ && fs[1].0@ != "application"@ && fs[2].0@
        != "application"@);
    lemma_lookup_at(fs, "application"@, 3);
    assert(fs[0].0@ != "version"@ && fs[1].0@ != "version"@ && fs[2].0@ != "version"@ && fs[3].0@
        != "version"@);
    lemma_lookup_at(fs, "version"@, 4);
    assert(fs[0].0@ != "platform"@ && fs[1].0@ != "platform"@ && fs[2].0@ != "platform"@
        && fs[3].0@ != "platform"@ && fs[4].0@ != "platform"@);
    lemma_lookup_at(fs, "platform"@, 5);
    assert(fs[0].0@ != "shareAddress"@ && fs[1].0@ != "shareAddress"@ && fs[2].0@
        != "shareAddress"@ && fs[3].0@ != "shareAddress"@ && fs[4].0@ != "shareAddress"@
        && fs[5].0@ != "shareAddress"@);
    lemma_lookup_at(fs, "shareAddress"@, 6);
    assert(fs[0].0@ != "networkName"@ && fs[1].0@ != "networkName"@ && fs[2].0@ != "networkName"@
        && fs[3].0@ != "networkName"@ && fs[4].0@ != "networkName"@ && fs[5].0@ != "networkName"@
        && fs[6].0@ != "networkName"@);
    lemma_lookup_at(fs, "networkName"@, 7);
}

} // verus!
