//! The bodies this node sends to other peers.

use vstd::prelude::*;

use crate::configuration::PeerToPeerSettings;
use crate::wire::field_is_flag;
use crate::wire::field_is_text;
use crate::wire::WireValue;

verus! {

/// Builds outgoing request bodies from the local peer-to-peer settings.
pub struct OutgoingJsonBuiler {
    pub protocol: String,
    pub settings: PeerToPeerSettings,
}

impl OutgoingJsonBuiler {
    pub fn new(settings: &PeerToPeerSettings) -> (r: Self)
        ensures
            r.protocol@ == "B1"@,
            r.settings.bootstrap_peers@ == settings.bootstrap_peers@,
            r.settings.my_address == settings.my_address,
            r.settings.platform == settings.platform,
            r.settings.share_address == settings.share_address,
            r.settings.network_name == settings.network_name,
            r.settings.snr_reward_address == settings.snr_reward_address,
    {
        OutgoingJsonBuiler { protocol: "B1".to_owned(), settings: settings.clone() }
    }

    /// The `getInfo` request announcing this node.
    pub fn get_info(&self) -> (r: OutgoingGetInfoRequest)
        ensures
            r.protocol@ == self.protocol@,
            r.request_type@ == "getInfo"@,
            r.announced_address == self.settings.my_address,
            r.application@ == "SignumRust"@,
            r.version@ == "0.1.0"@,
            r.platform == self.settings.platform,
            r.share_address == self.settings.share_address,
            r.network_name == self.settings.network_name,
    {
        OutgoingGetInfoRequest::new(self.protocol.clone(), &self.settings)
    }
}

/// The `getInfo` body this node announces itself with.
#[derive(Debug)]
pub struct OutgoingGetInfoRequest {
    pub protocol: String,
    pub request_type: String,
    pub announced_address: String,
    pub application: String,
    pub version: String,
    pub platform: String,
    pub share_address: bool,
    pub network_name: String,
}

/// `fs` is exactly the wire form of the outgoing request `o`.
pub open spec fn spec_get_info_wire_fields(
    o: OutgoingGetInfoRequest,
    fs: Seq<(String, WireValue)>,
) -> bool {
    &&& fs.len() == 8
    &&& field_is_text(fs[0], "protocol"@, o.protocol@)
    &&& field_is_text(fs[1], "requestType"@, o.request_type@)
    &&& field_is_text(fs[2], "announcedAddress"@, o.announced_address@)
    &&& field_is_text(fs[3], "application"@, o.application@)
    &&& field_is_text(fs[4], "version"@, o.version@)
    &&& field_is_text(fs[5], "platform"@, o.platform@)
    &&& field_is_flag(fs[6], "shareAddress"@, o.share_address)
    &&& field_is_text(fs[7], "networkName"@, o.network_name@)
}

impl OutgoingGetInfoRequest {
    pub fn new(protocol: String, settings: &PeerToPeerSettings) -> (r: Self)
        ensures
            r.protocol == protocol,
            r.request_type@ == "getInfo"@,
            r.announced_address == settings.my_address,
            r.application@ == "SignumRust"@,
            r.version@ == "0.1.0"@,
            r.platform == settings.platform,
            r.share_address == settings.share_address,
            r.network_name == settings.network_name,
    {
        OutgoingGetInfoRequest {
            protocol,
            request_type: "getInfo".to_owned(),
            announced_address: settings.my_address.clone(),
            application: "SignumRust".to_owned(),
            version: "0.1.0".to_owned(),
            platform: settings.platform.clone(),
            share_address: settings.share_address,
            network_name: settings.network_name.clone(),
        }
    }

    /// The wire form of this request, in field order.
    pub fn to_wire_fields(&self) -> (r: Vec<(String, WireValue)>)
        ensures
            spec_get_info_wire_fields(*self, r@),
    {
        let mut out: Vec<(String, WireValue)> = Vec::new();
        out.push(("protocol".to_owned(), WireValue::Text(self.protocol.clone())));
        out.push(("requestType".to_owned(), WireValue::Text(self.request_type.clone())));
        out.push(("announcedAddress".to_owned(), WireValue::Text(self.announced_address.clone())));
        out.push(("application".to_owned(), WireValue::Text(self.application.clone())));
        out.push(("version".to_owned(), WireValue::Text(self.version.clone())));
        out.push(("platform".to_owned(), WireValue::Text(self.platform.clone())));
        out.push(("shareAddress".to_owned(), WireValue::Flag(self.share_address)));
        out.push(("networkName".to_owned(), WireValue::Text(self.network_name.clone())));
        out
    }
}

} // verus!
