//! Connection bring-up and identity verification.
//!
//! After accepting a connection the receiver mints a fresh session id and
//! sends it as the first frame. The sender reads that frame and, when the
//! target was found through discovery, compares the claimed id against the
//! id the beacon carried: a mismatch aborts the session before any data
//! moves. With a direct address there is nothing to compare against and the
//! check is skipped.

use vstd::prelude::*;
use vstd::utf8::{decode_utf8, encode_utf8, encode_utf8_decode_utf8, encode_utf8_valid_utf8,
    valid_utf8};

use crate::codec::{bytes_to_string, str_encodable};
use crate::errors::TransferError;
use crate::frame::{lemma_read_frame_at, read_frame, spec_frame, spec_read_frame, write_frame};

verus! {

/// Where the identity check of a freshly connected session stands.
#[derive(Clone, Copy, Debug, PartialEq, Eq, Structural)]
pub enum IdentityOutcome {
    /// Discovery named an id and the claimed id equals it.
    Verified,
    /// Discovery named an id and the claimed id differs: a fatal security
    /// error, the session never reaches the manifest phase.
    Rejected,
    /// The target came as a direct address; the claimed id is ignored.
    Skipped,
}

/// The decision the sender takes on a claimed session id.
pub open spec fn spec_verify_identity(expected: Option<Seq<char>>, claimed: Seq<char>) -> IdentityOutcome {
    match expected {
        None => IdentityOutcome::Skipped,
        Some(x) => if x == claimed {
            IdentityOutcome::Verified
        } else {
            IdentityOutcome::Rejected
        },
    }
}

/// Only a verified or skipped check lets the session proceed to the
/// manifest phase.
pub open spec fn spec_outcome_proceeds(o: IdentityOutcome) -> bool {
    o is Verified || o is Skipped
}

/// The model of an optional id: the characters, when one is there.
pub open spec fn opt_str_view(o: Option<String>) -> Option<Seq<char>> {
    match o {
        Some(x) => Some(x@),
        None => None,
    }
}

/// Decides the identity check: `expected` is the id learned from discovery,
/// if discovery was used; `claimed` is the id the peer sent after connecting.
pub fn verify_identity(expected: &Option<String>, claimed: &String) -> (r: IdentityOutcome)
    ensures
        r == spec_verify_identity(opt_str_view(*expected), claimed@),
{
    match expected {
        None => IdentityOutcome::Skipped,
        Some(x) => if x.eq(claimed) {
            IdentityOutcome::Verified
        } else {
            IdentityOutcome::Rejected
        },
    }
}

/// Whether an outcome lets the session proceed.
pub fn outcome_proceeds(o: IdentityOutcome) -> (r: bool)
    ensures
        r == spec_outcome_proceeds(o),
{
    match o {
        IdentityOutcome::Verified => true,
        IdentityOutcome::Skipped => true,
        IdentityOutcome::Rejected => false,
    }
}

/// Identity law: with a discovery-learned id `x` the sender proceeds exactly
/// when the claimed id equals `x`; with a direct address (no discovery) it
/// proceeds whatever id the peer claims.
pub proof fn lemma_identity_decision(expected: Option<Seq<char>>, claimed: Seq<char>)
    ensures
        expected matches Some(x) ==> (spec_outcome_proceeds(spec_verify_identity(expected, claimed))
            <==> x == claimed),
        expected is None ==> spec_outcome_proceeds(spec_verify_identity(expected, claimed))
            && spec_verify_identity(expected, claimed) is Skipped,
{
}

/// The sender's gate to the data exchange: a verified or skipped check
/// proceeds, a rejected one aborts with the security error before any data
/// moves.
pub fn require_verified(o: IdentityOutcome) -> (r: Result<(), TransferError>)
    ensures
        r is Ok <==> spec_outcome_proceeds(o),
        !spec_outcome_proceeds(o) ==> r == Err::<(), TransferError>(TransferError::IdentityMismatch),
{
    match o {
        IdentityOutcome::Verified => Ok(()),
        IdentityOutcome::Skipped => Ok(()),
        IdentityOutcome::Rejected => Err(TransferError::IdentityMismatch),
    }
}

/// Relies on uuid's `Uuid::new_v4` and `Uuid::to_string`: a freshly generated
/// id rendered in the hyphenated format, which is 36 ASCII characters.
#[verifier::external_body]
fn fresh_uuid_string() -> (r: String)
    ensures
        r@.len() == 36,
        str_encodable(r@),
{
    uuid::Uuid::new_v4().to_string()
}

/// Mints the opaque session id a receiver presents for one receive session.
pub fn new_session_id() -> (r: String)
    ensures
        r@.len() == 36,
        str_encodable(r@),
{
    fresh_uuid_string()
}

/// The identity frame a receiver sends first: the session id's UTF-8 bytes
/// behind the framing primitive.
pub open spec fn spec_identity_frame(node_id: Seq<char>) -> Seq<u8>
    recommends
        str_encodable(node_id),
{
    spec_frame(encode_utf8(node_id))
}

/// The claimed id read from a frame at `pos`: the frame's payload taken as
/// UTF-8 text.
pub open spec fn spec_parse_identity(b: Seq<u8>, pos: int) -> Option<(Seq<char>, int)> {
    match spec_read_frame(b, pos) {
        None => None,
        Some((payload, next)) => if valid_utf8(payload) {
            Some((decode_utf8(payload), next))
        } else {
            None
        },
    }
}

/// Builds the identity frame for `node_id`.
pub fn identity_frame(node_id: &String) -> (r: Vec<u8>)
    requires
        str_encodable(node_id@),
    ensures
        r@ == spec_identity_frame(node_id@),
{
    let bytes = vstd::slice::slice_to_vec(node_id.as_str().as_bytes());
    let mut out: Vec<u8> = Vec::new();
    write_frame(&mut out, &bytes);
    proof {
        assert(out@ =~= spec_identity_frame(node_id@));
    }
    out
}

/// Reads the claimed session id from the first frame of `buf` at `pos`.
pub fn parse_identity(buf: &Vec<u8>, pos: usize) -> (r: Result<(String, usize), TransferError>)
    requires
        pos <= buf@.len(),
    ensures
        match r {
            Ok(p) => {
                &&& spec_parse_identity(buf@, pos as int) == Some((p.0@, p.1 as int))
                &&& pos < p.1 <= buf@.len()
            },
            Err(e) => {
                &&& spec_parse_identity(buf@, pos as int) is None
                &&& (e == (TransferError::ShortRead) || e == (TransferError::MalformedMessage))
            },
        },
{
    let (payload, next) = match read_frame(buf, pos) {
        Ok(v) => v,
        Err(e) => {
            return Err(e);
        },
    };
    match bytes_to_string(payload.as_slice()) {
        Some(s) => {
            proof {
                encode_utf8_decode_utf8(s@);
            }
            Ok((s, next))
        },
        None => Err(TransferError::MalformedMessage),
    }
}

/// Handshake round trip: the identity frame a receiver writes for its id
/// reads back as exactly that id, whatever bytes follow on the stream.
pub proof fn lemma_identity_round_trip(node_id: Seq<char>, rest: Seq<u8>)
    requires
        str_encodable(node_id),
    ensures
        spec_parse_identity(spec_identity_frame(node_id) + rest, 0) == Some(
            (node_id, 4 + encode_utf8(node_id).len() as int),
        ),
{
    let payload = encode_utf8(node_id);
    let b = spec_identity_frame(node_id) + rest;
    assert(b.subrange(0, 4 + payload.len() as int) =~= spec_frame(payload));
    lemma_read_frame_at(b, 0, payload);
    encode_utf8_valid_utf8(node_id);
    encode_utf8_decode_utf8(node_id);
}

} // verus!
