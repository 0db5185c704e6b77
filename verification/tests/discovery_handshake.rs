use hiverra_portal::discovery::{beacon_datagram, discovery_outcome, match_beacon,
    multicast_group, protocol_tag, BeaconMatch, DISCOVERY_PORT};
use hiverra_portal::errors::TransferError;
use hiverra_portal::handshake::{identity_frame, new_session_id, outcome_proceeds, parse_identity,
    require_verified, verify_identity, IdentityOutcome};

#[test]
fn discovery_constants() {
    assert_eq!(multicast_group(), "224.0.0.123");
    assert_eq!(DISCOVERY_PORT, 5005);
    assert_eq!(protocol_tag(), "portal");
}

#[test]
fn matching_beacon_is_found() {
    let datagram = beacon_datagram(&"kai@portal".to_string(), &"session-1".to_string(), 7878);
    let found = match_beacon(&datagram, &"kai@portal".to_string()).expect("must match");
    assert_eq!(found.node_id, "session-1");
    assert_eq!(found.port, 7878);
}

#[test]
fn beacon_for_another_user_is_discarded() {
    let datagram = beacon_datagram(&"kai@portal".to_string(), &"session-1".to_string(), 7878);
    assert!(match_beacon(&datagram, &"someone_else@portal".to_string()).is_none());
}

#[test]
fn undecodable_datagram_is_discarded() {
    let noise: Vec<u8> = vec![0x13, 0x37, 0x00];
    assert!(match_beacon(&noise, &"kai@portal".to_string()).is_none());
}

#[test]
fn identity_check_proceeds_iff_ids_match() {
    let x = "discovery-learned-id".to_string();
    let same = "discovery-learned-id".to_string();
    let other = "another-id".to_string();

    let verified = verify_identity(&Some(x.clone()), &same);
    assert_eq!(verified, IdentityOutcome::Verified);
    assert!(outcome_proceeds(verified));

    let rejected = verify_identity(&Some(x.clone()), &other);
    assert_eq!(rejected, IdentityOutcome::Rejected);
    assert!(!outcome_proceeds(rejected));
}

#[test]
fn identity_check_skipped_without_discovery() {
    for claimed in ["anything", "discovery-learned-id", ""] {
        let outcome = verify_identity(&None, &claimed.to_string());
        assert_eq!(outcome, IdentityOutcome::Skipped);
        assert!(outcome_proceeds(outcome));
    }
}

#[test]
fn rejected_identity_aborts_with_the_security_error() {
    assert!(require_verified(IdentityOutcome::Verified).is_ok());
    assert!(require_verified(IdentityOutcome::Skipped).is_ok());
    assert!(matches!(
        require_verified(IdentityOutcome::Rejected),
        Err(TransferError::IdentityMismatch)
    ));
}

#[test]
fn identity_frame_round_trip() {
    let id = new_session_id();
    assert_eq!(id.chars().count(), 36);
    let mut wire = identity_frame(&id);
    wire.extend_from_slice(b"next frames follow");
    let (claimed, next) = parse_identity(&wire, 0).expect("identity must parse");
    assert_eq!(claimed, id);
    assert_eq!(next, 4 + id.len());
}

#[test]
fn session_ids_are_fresh_per_session() {
    let a = new_session_id();
    let b = new_session_id();
    assert_ne!(a, b);
}

#[test]
fn identity_frame_short_read_fails() {
    let id = "some-session-id".to_string();
    let mut wire = identity_frame(&id);
    wire.truncate(wire.len() - 1);
    assert!(matches!(parse_identity(&wire, 0), Err(TransferError::ShortRead)));
}

#[test]
fn discovery_timeout_is_reported() {
    assert!(matches!(discovery_outcome(None), Err(TransferError::DiscoveryTimeout)));
    let found = discovery_outcome(Some(BeaconMatch { node_id: "n".to_string(), port: 1 }));
    let m = found.expect("a found beacon passes through");
    assert_eq!(m.node_id, "n");
    assert_eq!(m.port, 1);
}
