//! Peer discovery over UDP multicast.
//!
//! A receiver advertises itself by sending a [`PortalBeacon`] to a fixed
//! multicast group once a second; a sender listens on the same group and
//! resolves a username to an address, a session id and a TCP port. The
//! datagram handling lives outside the library; this module builds the
//! beacon bytes and decides, per datagram, whether it answers the search.

use vstd::prelude::*;
use vstd::string::StringExecFns;
use vstd::utf8::encode_utf8;

use crate::codec::{decode_beacon, encode_beacon, spec_decode_beacon, spec_encode_beacon,
    str_encodable};
use crate::errors::TransferError;

verus! {

/// The protocol tag every beacon of this application carries.
pub open spec fn spec_protocol_tag() -> Seq<char> {
    "portal"@
}

/// The fixed multicast group address beacons are sent to.
pub open spec fn spec_multicast_group() -> Seq<char> {
    "224.0.0.123"@
}

/// The well-known UDP port of the discovery service, distinct from the
/// transfer TCP port.
pub const DISCOVERY_PORT: u16 = 5005;

/// The seconds between two beacon datagrams of one receive session.
pub const BEACON_INTERVAL_SECS: u64 = 1;

/// The multicast group address, as the socket layer wants it.
pub fn multicast_group() -> (r: String)
    ensures
        r@ == spec_multicast_group(),
{
    proof {
        reveal_strlit("224.0.0.123");
    }
    String::from_str("224.0.0.123")
}

/// The protocol tag as a value.
pub fn protocol_tag() -> (r: String)
    ensures
        r@ == spec_protocol_tag(),
{
    proof {
        reveal_strlit("portal");
    }
    String::from_str("portal")
}

/// A receiver's periodic advertisement: who is listening, under which
/// session id, on which TCP port.
pub struct PortalBeacon {
    pub protocol: String,
    pub node_id: String,
    pub username: String,
    pub port: u16,
}

/// Model of a beacon.
pub struct BeaconView {
    pub protocol: Seq<char>,
    pub node_id: Seq<char>,
    pub username: Seq<char>,
    pub port: u16,
}

impl View for PortalBeacon {
    type V = BeaconView;

    open spec fn view(&self) -> BeaconView {
        BeaconView {
            protocol: self.protocol@,
            node_id: self.node_id@,
            username: self.username@,
            port: self.port,
        }
    }
}

/// What a sender learns from a matching beacon: the receiver's session id
/// and TCP port. The address comes from the datagram's source, outside the
/// library.
pub struct BeaconMatch {
    pub node_id: String,
    pub port: u16,
}

/// Whether a datagram answers a search for `target`: it decodes as a beacon
/// whose protocol tag is this application's and whose username is `target`.
pub open spec fn spec_beacon_matches(data: Seq<u8>, target: Seq<char>) -> bool {
    match spec_decode_beacon(data) {
        Some(b) => b.protocol == spec_protocol_tag() && b.username == target,
        None => false,
    }
}

/// Builds the datagram a receive session broadcasts: a beacon carrying this
/// application's protocol tag, the session id, the username, and the TCP
/// port senders should connect to.
pub fn beacon_datagram(username: &String, node_id: &String, tcp_port: u16) -> (r: Vec<u8>)
    requires
        str_encodable(username@),
        str_encodable(node_id@),
    ensures
        r@ == spec_encode_beacon(
            BeaconView {
                protocol: spec_protocol_tag(),
                node_id: node_id@,
                username: username@,
                port: tcp_port,
            },
        ),
{
    proof {
        reveal_strlit("portal");
        lemma_protocol_tag_encodable();
    }
    let beacon = PortalBeacon {
        protocol: protocol_tag(),
        node_id: node_id.clone(),
        username: username.clone(),
        port: tcp_port,
    };
    encode_beacon(&beacon)
}

/// The protocol tag fits the wire format.
pub proof fn lemma_protocol_tag_encodable()
    ensures
        str_encodable(spec_protocol_tag()),
{
    reveal_strlit("portal");
    lemma_short_str_encodable(spec_protocol_tag());
}

/// A short string always fits the wire format: each character takes at most
/// four UTF-8 bytes.
pub proof fn lemma_short_str_encodable(s: Seq<char>)
    requires
        4 * s.len() <= u32::MAX,
    ensures
        str_encodable(s),
{
    lemma_encode_utf8_len(s);
}

/// The UTF-8 encoding of `s` takes between `s.len()` and `4 * s.len()` bytes.
pub proof fn lemma_encode_utf8_len(s: Seq<char>)
    ensures
        s.len() <= encode_utf8(s).len() <= 4 * s.len(),
    decreases s.len(),
{
    if s.len() > 0 {
        lemma_encode_utf8_len(s.drop_first());
    }
}

/// The sender's verdict on a bounded discovery wait: what the listener found
/// in time, or the timeout error that tells the user to check that the
/// receiver is active and on the same network.
pub fn discovery_outcome(found: Option<BeaconMatch>) -> (r: Result<BeaconMatch, TransferError>)
    ensures
        match found {
            Some(m) => r matches Ok(v) && v.node_id@ == m.node_id@ && v.port == m.port,
            None => r == Err::<BeaconMatch, TransferError>(TransferError::DiscoveryTimeout),
        },
{
    match found {
        Some(m) => Ok(m),
        None => Err(TransferError::DiscoveryTimeout),
    }
}

/// Decides whether one received datagram answers the search for
/// `target_username`, and if so hands back the receiver's session id and
/// port. Datagrams that fail to decode, carry another protocol's tag, or
/// name another user are discarded.
pub fn match_beacon(datagram: &Vec<u8>, target_username: &String) -> (r: Option<BeaconMatch>)
    ensures
        r is Some <==> spec_beacon_matches(datagram@, target_username@),
        r matches Some(m) ==> spec_decode_beacon(datagram@) == Some(
            BeaconView {
                protocol: spec_protocol_tag(),
                node_id: m.node_id@,
                username: target_username@,
                port: m.port,
            },
        ),
{
    let beacon = match decode_beacon(datagram) {
        Some(b) => b,
        None => {
            return None;
        },
    };
    let tag = protocol_tag();
    if beacon.protocol == tag && beacon.username == *target_username {
        Some(BeaconMatch { node_id: beacon.node_id, port: beacon.port })
    } else {
        None
    }
}

} // verus!
