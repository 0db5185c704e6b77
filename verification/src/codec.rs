//! The compact binary wire codec for structured messages.
//!
//! Multi-byte integers are big-endian. A string is its UTF-8 byte length as
//! a 4-byte big-endian `u32`, then its UTF-8 bytes. An optional value is a
//! tag byte (0 absent, 1 present) then the value. A list is its element
//! count as a `u32`, then the elements. Decoding a message demands that the
//! buffer holds exactly one encoded value and nothing more.

use vstd::prelude::*;
use vstd::slice::slice_subrange;
use vstd::string::StringSliceAdditionalSpecFns;
use vstd::string::StringExecFns;
use vstd::utf8::{decode_utf8, encode_utf8, encode_utf8_decode_utf8, encode_utf8_valid_utf8,
    valid_utf8};

use crate::discovery::{BeaconView, PortalBeacon};
use crate::frame::{lemma_u32_be_bytes_round_trip, spec_u32_from_be_bytes, spec_u32_to_be_bytes,
    u32_from_be_bytes, u32_to_be_bytes};
use crate::metadata::{DirectoryMetadata, DirectoryMetadataView, FileMetadata, FileMetadataView,
    GlobalTransferManifest, ItemKind, ManifestView, TransferHeader};

verus! {

// ---------------------------------------------------------------------------
// Big-endian u16 and u64
// ---------------------------------------------------------------------------
/// Big-endian encoding of a `u16` as two bytes.
pub open spec fn spec_u16_to_be_bytes(x: u16) -> Seq<u8> {
    seq![((x >> 8) & 0xff) as u8, (x & 0xff) as u8]
}

/// The `u16` read from two bytes in big-endian order.
pub open spec fn spec_u16_from_be_bytes(s: Seq<u8>) -> u16
    recommends
        s.len() == 2,
{
    (((s[0] as u16) << 8) | (s[1] as u16)) as u16
}

pub proof fn lemma_u16_be_bytes_round_trip(x: u16)
    ensures
        spec_u16_to_be_bytes(x).len() == 2,
        spec_u16_from_be_bytes(spec_u16_to_be_bytes(x)) == x,
{
    assert(((((((x >> 8) & 0xff) as u8) as u16) << 8) | (((x & 0xff) as u8) as u16)) as u16 == x)
        by (bit_vector);
}

/// Encodes `x` as two big-endian bytes.
pub fn u16_to_be_bytes(x: u16) -> (r: Vec<u8>)
    ensures
        r@ == spec_u16_to_be_bytes(x),
{
    proof {
        assert(((x >> 8) & 0xff) < 256 && (x & 0xff) < 256) by (bit_vector);
    }
    let mut r: Vec<u8> = Vec::new();
    r.push(((x >> 8) & 0xff) as u8);
    r.push((x & 0xff) as u8);
    proof {
        assert(r@ =~= spec_u16_to_be_bytes(x));
    }
    r
}

/// Big-endian encoding of a `u64` as eight bytes.
pub open spec fn spec_u64_to_be_bytes(x: u64) -> Seq<u8> {
    seq![
        ((x >> 56) & 0xff) as u8,
        ((x >> 48) & 0xff) as u8,
        ((x >> 40) & 0xff) as u8,
        ((x >> 32) & 0xff) as u8,
        ((x >> 24) & 0xff) as u8,
        ((x >> 16) & 0xff) as u8,
        ((x >> 8) & 0xff) as u8,
        (x & 0xff) as u8,
    ]
}

/// The `u64` read from eight bytes in big-endian order.
pub open spec fn spec_u64_from_be_bytes(s: Seq<u8>) -> u64
    recommends
        s.len() == 8,
{
    ((s[0] as u64) << 56) | ((s[1] as u64) << 48) | ((s[2] as u64) << 40) | ((s[3] as u64) << 32)
        | ((s[4] as u64) << 24) | ((s[5] as u64) << 16) | ((s[6] as u64) << 8) | (s[7] as u64)
}

pub proof fn lemma_u64_be_bytes_round_trip(x: u64)
    ensures
        spec_u64_to_be_bytes(x).len() == 8,
        spec_u64_from_be_bytes(spec_u64_to_be_bytes(x)) == x,
{
    assert((((((x >> 56) & 0xff) as u8) as u64) << 56) | (((((x >> 48) & 0xff) as u8) as u64)
        << 48) | (((((x >> 40) & 0xff) as u8) as u64) << 40) | (((((x >> 32) & 0xff) as u8) as u64)
        << 32) | (((((x >> 24) & 0xff) as u8) as u64) << 24) | (((((x >> 16) & 0xff) as u8) as u64)
        << 16) | (((((x >> 8) & 0xff) as u8) as u64) << 8) | (((x & 0xff) as u8) as u64) == x)
        by (bit_vector);
}

/// Encodes `x` as eight big-endian bytes.
pub fn u64_to_be_bytes(x: u64) -> (r: Vec<u8>)
    ensures
        r@ == spec_u64_to_be_bytes(x),
{
    proof {
        assert(((x >> 56) & 0xff) < 256 && ((x >> 48) & 0xff) < 256 && ((x >> 40) & 0xff) < 256 && (
        (x >> 32) & 0xff) < 256 && ((x >> 24) & 0xff) < 256 && ((x >> 16) & 0xff) < 256 && ((x >> 8)
            & 0xff) < 256 && (x & 0xff) < 256) by (bit_vector);
    }
    let mut r: Vec<u8> = Vec::new();
    r.push(((x >> 56) & 0xff) as u8);
    r.push(((x >> 48) & 0xff) as u8);
    r.push(((x >> 40) & 0xff) as u8);
    r.push(((x >> 32) & 0xff) as u8);
    r.push(((x >> 24) & 0xff) as u8);
    r.push(((x >> 16) & 0xff) as u8);
    r.push(((x >> 8) & 0xff) as u8);
    r.push((x & 0xff) as u8);
    proof {
        assert(r@ =~= spec_u64_to_be_bytes(x));
    }
    r
}

// ---------------------------------------------------------------------------
// Parsing primitives over a byte buffer and a position
// ---------------------------------------------------------------------------
/// One byte at `pos`, or nothing at the buffer's end.
pub open spec fn spec_parse_u8(b: Seq<u8>, pos: int) -> Option<(u8, int)> {
    if pos + 1 <= b.len() {
        Some((b[pos], pos + 1))
    } else {
        None
    }
}

/// A big-endian `u16` at `pos`.
pub open spec fn spec_parse_u16(b: Seq<u8>, pos: int) -> Option<(u16, int)> {
    if pos + 2 <= b.len() {
        Some((spec_u16_from_be_bytes(b.subrange(pos, pos + 2)), pos + 2))
    } else {
        None
    }
}

/// A big-endian `u32` at `pos`.
pub open spec fn spec_parse_u32(b: Seq<u8>, pos: int) -> Option<(u32, int)> {
    if pos + 4 <= b.len() {
        Some((spec_u32_from_be_bytes(b.subrange(pos, pos + 4)), pos + 4))
    } else {
        None
    }
}

/// A big-endian `u64` at `pos`.
pub open spec fn spec_parse_u64(b: Seq<u8>, pos: int) -> Option<(u64, int)> {
    if pos + 8 <= b.len() {
        Some((spec_u64_from_be_bytes(b.subrange(pos, pos + 8)), pos + 8))
    } else {
        None
    }
}

pub fn parse_u8(buf: &Vec<u8>, pos: usize) -> (r: Option<(u8, usize)>)
    requires
        pos <= buf@.len(),
    ensures
        match r {
            Some(p) => {
                &&& spec_parse_u8(buf@, pos as int) == Some((p.0, p.1 as int))
                &&& pos < p.1 <= buf@.len()
            },
            None => spec_parse_u8(buf@, pos as int) is None,
        },
{
    if buf.len() - pos < 1 {
        return None;
    }
    Some((buf[pos], pos + 1))
}

pub fn parse_u16(buf: &Vec<u8>, pos: usize) -> (r: Option<(u16, usize)>)
    requires
        pos <= buf@.len(),
    ensures
        match r {
            Some(p) => {
                &&& spec_parse_u16(buf@, pos as int) == Some((p.0, p.1 as int))
                &&& pos < p.1 <= buf@.len()
            },
            None => spec_parse_u16(buf@, pos as int) is None,
        },
{
    if buf.len() - pos < 2 {
        return None;
    }
    let x = (((buf[pos] as u16) << 8) | (buf[pos + 1] as u16)) as u16;
    proof {
        assert(buf@.subrange(pos as int, pos as int + 2) =~= seq![
            buf@[pos as int],
            buf@[pos as int + 1],
        ]);
    }
    Some((x, pos + 2))
}

pub fn parse_u32(buf: &Vec<u8>, pos: usize) -> (r: Option<(u32, usize)>)
    requires
        pos <= buf@.len(),
    ensures
        match r {
            Some(p) => {
                &&& spec_parse_u32(buf@, pos as int) == Some((p.0, p.1 as int))
                &&& pos < p.1 <= buf@.len()
            },
            None => spec_parse_u32(buf@, pos as int) is None,
        },
{
    if buf.len() - pos < 4 {
        return None;
    }
    let x = u32_from_be_bytes(buf[pos], buf[pos + 1], buf[pos + 2], buf[pos + 3]);
    proof {
        assert(buf@.subrange(pos as int, pos as int + 4) =~= seq![
            buf@[pos as int],
            buf@[pos as int + 1],
            buf@[pos as int + 2],
            buf@[pos as int + 3],
        ]);
    }
    Some((x, pos + 4))
}

pub fn parse_u64(buf: &Vec<u8>, pos: usize) -> (r: Option<(u64, usize)>)
    requires
        pos <= buf@.len(),
    ensures
        match r {
            Some(p) => {
                &&& spec_parse_u64(buf@, pos as int) == Some((p.0, p.1 as int))
                &&& pos < p.1 <= buf@.len()
            },
            None => spec_parse_u64(buf@, pos as int) is None,
        },
{
    if buf.len() - pos < 8 {
        return None;
    }
    let x = ((buf[pos] as u64) << 56) | ((buf[pos + 1] as u64) << 48) | ((buf[pos + 2] as u64)
        << 40) | ((buf[pos + 3] as u64) << 32) | ((buf[pos + 4] as u64) << 24) | ((buf[pos
        + 5] as u64) << 16) | ((buf[pos + 6] as u64) << 8) | (buf[pos + 7] as u64);
    proof {
        assert(buf@.subrange(pos as int, pos as int + 8) =~= seq![
            buf@[pos as int],
            buf@[pos as int + 1],
            buf@[pos as int + 2],
            buf@[pos as int + 3],
            buf@[pos as int + 4],
            buf@[pos as int + 5],
            buf@[pos as int + 6],
            buf@[pos as int + 7],
        ]);
    }
    Some((x, pos + 8))
}

// ---------------------------------------------------------------------------
// Strings
// ---------------------------------------------------------------------------
/// A string fits the wire format when its UTF-8 byte length fits the 4-byte
/// length prefix.
pub open spec fn str_encodable(s: Seq<char>) -> bool {
    encode_utf8(s).len() <= u32::MAX
}

/// A string on the wire: its UTF-8 byte length, then its UTF-8 bytes.
pub open spec fn spec_encode_str(s: Seq<char>) -> Seq<u8>
    recommends
        str_encodable(s),
{
    spec_u32_to_be_bytes(encode_utf8(s).len() as u32) + encode_utf8(s)
}

/// A string parsed at `pos`: a byte length, that many bytes, valid UTF-8.
pub open spec fn spec_parse_str(b: Seq<u8>, pos: int) -> Option<(Seq<char>, int)> {
    match spec_parse_u32(b, pos) {
        None => None,
        Some((n, p)) => if p + n <= b.len() {
            if valid_utf8(b.subrange(p, p + n)) {
                Some((decode_utf8(b.subrange(p, p + n)), p + n))
            } else {
                None
            }
        } else {
            None
        },
    }
}

/// Relies on std's `str::from_utf8`: it succeeds exactly on valid UTF-8, and
/// the returned string's bytes are the input bytes unchanged.
#[verifier::external_body]
pub(crate) fn bytes_to_string(bytes: &[u8]) -> (r: Option<String>)
    ensures
        r is Some <==> valid_utf8(bytes@),
        r matches Some(s) ==> encode_utf8(s@) == bytes@,
{
    match core::str::from_utf8(bytes) {
        Ok(s) => Some(s.to_owned()),
        Err(_) => None,
    }
}

/// Appends the wire form of `s` to `out`.
pub fn encode_str(out: &mut Vec<u8>, s: &String)
    requires
        str_encodable(s@),
    ensures
        final(out)@ == old(out)@ + spec_encode_str(s@),
{
    let bytes: &[u8] = s.as_str().as_bytes();
    let lb = u32_to_be_bytes(bytes.len() as u32);
    out.extend_from_slice(lb.as_slice());
    out.extend_from_slice(bytes);
    proof {
        assert(out@ =~= old(out)@ + spec_encode_str(s@));
    }
}

/// Parses a string at `pos`.
pub fn parse_string(buf: &Vec<u8>, pos: usize) -> (r: Option<(String, usize)>)
    requires
        pos <= buf@.len(),
    ensures
        match r {
            Some(p) => {
                &&& spec_parse_str(buf@, pos as int) == Some((p.0@, p.1 as int))
                &&& pos < p.1 <= buf@.len()
            },
            None => spec_parse_str(buf@, pos as int) is None,
        },
{
    let (n32, p) = match parse_u32(buf, pos) {
        Some(v) => v,
        None => {
            return None;
        },
    };
    let n = n32 as usize;
    if buf.len() - p < n {
        return None;
    }
    let bytes = slice_subrange(buf.as_slice(), p, p + n);
    match bytes_to_string(bytes) {
        Some(s) => {
            proof {
                encode_utf8_decode_utf8(s@);
            }
            Some((s, p + n))
        },
        None => None,
    }
}

// ---------------------------------------------------------------------------
// Parse-at lemmas: an encoded value embedded in a stream parses back
// ---------------------------------------------------------------------------
pub proof fn lemma_parse_u8_at(b: Seq<u8>, pos: int, x: u8)
    requires
        0 <= pos,
        pos + 1 <= b.len(),
        b[pos] == x,
    ensures
        spec_parse_u8(b, pos) == Some((x, pos + 1)),
{
}

pub proof fn lemma_parse_u16_at(b: Seq<u8>, pos: int, x: u16)
    requires
        0 <= pos,
        pos + 2 <= b.len(),
        b.subrange(pos, pos + 2) == spec_u16_to_be_bytes(x),
    ensures
        spec_parse_u16(b, pos) == Some((x, pos + 2)),
{
    lemma_u16_be_bytes_round_trip(x);
}

pub proof fn lemma_parse_u32_at(b: Seq<u8>, pos: int, x: u32)
    requires
        0 <= pos,
        pos + 4 <= b.len(),
        b.subrange(pos, pos + 4) == spec_u32_to_be_bytes(x),
    ensures
        spec_parse_u32(b, pos) == Some((x, pos + 4)),
{
    lemma_u32_be_bytes_round_trip(x);
}

pub proof fn lemma_parse_u64_at(b: Seq<u8>, pos: int, x: u64)
    requires
        0 <= pos,
        pos + 8 <= b.len(),
        b.subrange(pos, pos + 8) == spec_u64_to_be_bytes(x),
    ensures
        spec_parse_u64(b, pos) == Some((x, pos + 8)),
{
    lemma_u64_be_bytes_round_trip(x);
}

// ---------------------------------------------------------------------------
// File metadata
// ---------------------------------------------------------------------------
/// A file metadata value fits the wire format.
pub open spec fn file_meta_encodable(m: FileMetadataView) -> bool {
    str_encodable(m.filename)
}

/// File metadata on the wire: the name, then the size.
pub open spec fn spec_encode_file_meta(m: FileMetadataView) -> Seq<u8>
    recommends
        file_meta_encodable(m),
{
    spec_encode_str(m.filename) + spec_u64_to_be_bytes(m.file_size)
}

/// File metadata parsed at `pos`.
pub open spec fn spec_parse_file_meta(b: Seq<u8>, pos: int) -> Option<(FileMetadataView, int)> {
    match spec_parse_str(b, pos) {
        None => None,
        Some((name, p2)) => match spec_parse_u64(b, p2) {
            None => None,
            Some((size, p3)) => Some((FileMetadataView { filename: name, file_size: size }, p3)),
        },
    }
}

/// Exactly one file metadata value, filling the whole buffer.
pub open spec fn spec_decode_file_meta(b: Seq<u8>) -> Option<FileMetadataView> {
    match spec_parse_file_meta(b, 0) {
        Some((m, p)) => if p == b.len() {
            Some(m)
        } else {
            None
        },
        None => None,
    }
}

/// Appends the wire form of `m` to `out`.
pub fn encode_file_meta_into(out: &mut Vec<u8>, m: &FileMetadata)
    requires
        file_meta_encodable(m@),
    ensures
        final(out)@ == old(out)@ + spec_encode_file_meta(m@),
{
    encode_str(out, &m.filename);
    let sb = u64_to_be_bytes(m.file_size);
    out.extend_from_slice(sb.as_slice());
    proof {
        assert(out@ =~= old(out)@ + spec_encode_file_meta(m@));
    }
}

/// Encodes one file metadata message.
pub fn encode_file_meta(m: &FileMetadata) -> (r: Vec<u8>)
    requires
        file_meta_encodable(m@),
    ensures
        r@ == spec_encode_file_meta(m@),
{
    let mut out: Vec<u8> = Vec::new();
    encode_file_meta_into(&mut out, m);
    out
}

/// Parses one file metadata value at `pos`.
pub fn parse_file_meta(buf: &Vec<u8>, pos: usize) -> (r: Option<(FileMetadata, usize)>)
    requires
        pos <= buf@.len(),
    ensures
        match r {
            Some(p) => {
                &&& spec_parse_file_meta(buf@, pos as int) == Some((p.0@, p.1 as int))
                &&& pos < p.1 <= buf@.len()
            },
            None => spec_parse_file_meta(buf@, pos as int) is None,
        },
{
    let (name, p2) = match parse_string(buf, pos) {
        Some(v) => v,
        None => {
            return None;
        },
    };
    let (size, p3) = match parse_u64(buf, p2) {
        Some(v) => v,
        None => {
            return None;
        },
    };
    Some((FileMetadata { filename: name, file_size: size }, p3))
}

/// Decodes a frame payload as exactly one file metadata message.
pub fn decode_file_meta(buf: &Vec<u8>) -> (r: Option<FileMetadata>)
    ensures
        match r {
            Some(m) => spec_decode_file_meta(buf@) == Some(m@),
            None => spec_decode_file_meta(buf@) is None,
        },
{
    match parse_file_meta(buf, 0) {
        Some((m, p)) => if p == buf.len() {
            Some(m)
        } else {
            None
        },
        None => None,
    }
}

pub proof fn lemma_parse_file_meta_at(b: Seq<u8>, pos: int, m: FileMetadataView)
    requires
        0 <= pos,
        file_meta_encodable(m),
        pos + spec_encode_file_meta(m).len() <= b.len(),
        b.subrange(pos, pos + spec_encode_file_meta(m).len() as int) == spec_encode_file_meta(m),
    ensures
        spec_parse_file_meta(b, pos) == Some((m, pos + spec_encode_file_meta(m).len() as int)),
{
    let sname = spec_encode_str(m.filename);
    let ssize = spec_u64_to_be_bytes(m.file_size);
    let n1 = sname.len() as int;
    let n2 = ssize.len() as int;
    let window = b.subrange(pos, pos + n1 + n2);
    assert(b.subrange(pos, pos + n1) =~= window.subrange(0, n1));
    assert(window.subrange(0, n1) =~= sname);
    lemma_parse_str_at(b, pos, m.filename);
    assert(b.subrange(pos + n1, pos + n1 + 8) =~= window.subrange(n1, n1 + 8));
    assert(window.subrange(n1, n1 + 8) =~= ssize);
    lemma_parse_u64_at(b, pos + n1, m.file_size);
}

/// Round trip for file metadata: decoding an encoding yields the value.
pub proof fn lemma_file_meta_round_trip(m: FileMetadataView)
    requires
        file_meta_encodable(m),
    ensures
        spec_decode_file_meta(spec_encode_file_meta(m)) == Some(m),
{
    let b = spec_encode_file_meta(m);
    assert(b.subrange(0, b.len() as int) =~= b);
    lemma_parse_file_meta_at(b, 0, m);
}

// ---------------------------------------------------------------------------
// Lists of file metadata
// ---------------------------------------------------------------------------
/// A list of file metadata values on the wire, first to last.
pub open spec fn spec_encode_file_list(ms: Seq<FileMetadataView>) -> Seq<u8>
    decreases ms.len(),
{
    if ms.len() == 0 {
        Seq::empty()
    } else {
        spec_encode_file_meta(ms[0]) + spec_encode_file_list(ms.drop_first())
    }
}

pub proof fn lemma_encode_file_list_push(ms: Seq<FileMetadataView>, m: FileMetadataView)
    ensures
        spec_encode_file_list(ms.push(m)) == spec_encode_file_list(ms) + spec_encode_file_meta(m),
    decreases ms.len(),
{
    if ms.len() == 0 {
        assert(ms.push(m)[0] == m);
        assert(ms.push(m).drop_first() =~= Seq::<FileMetadataView>::empty());
        assert(spec_encode_file_list(Seq::<FileMetadataView>::empty()) == Seq::<u8>::empty());
        assert(spec_encode_file_list(ms.push(m)) == spec_encode_file_meta(m) + Seq::<u8>::empty());
        assert(spec_encode_file_meta(m) + Seq::<u8>::empty() =~= spec_encode_file_meta(m));
        assert(Seq::<u8>::empty() + spec_encode_file_meta(m) =~= spec_encode_file_meta(m));
    } else {
        assert(ms.push(m).drop_first() =~= ms.drop_first().push(m));
        lemma_encode_file_list_push(ms.drop_first(), m);
        assert(spec_encode_file_list(ms.push(m)) =~= spec_encode_file_list(ms)
            + spec_encode_file_meta(m));
    }
}

/// `count` file metadata values parsed in sequence from `pos`.
pub open spec fn spec_parse_file_list(b: Seq<u8>, pos: int, count: int) -> Option<
    (Seq<FileMetadataView>, int),
>
    decreases count,
{
    if count <= 0 {
        Some((Seq::empty(), pos))
    } else {
        match spec_parse_file_meta(b, pos) {
            None => None,
            Some((m, p2)) => match spec_parse_file_list(b, p2, count - 1) {
                None => None,
                Some((ms, p3)) => Some((seq![m] + ms, p3)),
            },
        }
    }
}

pub proof fn lemma_parse_file_list_at(b: Seq<u8>, pos: int, ms: Seq<FileMetadataView>)
    requires
        0 <= pos,
        forall|i: int| 0 <= i < ms.len() ==> file_meta_encodable(#[trigger] ms[i]),
        pos + spec_encode_file_list(ms).len() <= b.len(),
        b.subrange(pos, pos + spec_encode_file_list(ms).len() as int) == spec_encode_file_list(ms),
    ensures
        spec_parse_file_list(b, pos, ms.len() as int) == Some(
            (ms, pos + spec_encode_file_list(ms).len() as int),
        ),
    decreases ms.len(),
{
    if ms.len() == 0 {
    } else {
        let head = spec_encode_file_meta(ms[0]);
        let tail = spec_encode_file_list(ms.drop_first());
        let n1 = head.len() as int;
        let n2 = tail.len() as int;
        let window = b.subrange(pos, pos + n1 + n2);
        assert(b.subrange(pos, pos + n1) =~= window.subrange(0, n1));
        assert(window.subrange(0, n1) =~= head);
        lemma_parse_file_meta_at(b, pos, ms[0]);
        assert(b.subrange(pos + n1, pos + n1 + n2) =~= window.subrange(n1, n1 + n2));
        assert(window.subrange(n1, n1 + n2) =~= tail);
        lemma_parse_file_list_at(b, pos + n1, ms.drop_first());
        assert(seq![ms[0]] + ms.drop_first() =~= ms);
    }
}

// ---------------------------------------------------------------------------
// Directory metadata
// ---------------------------------------------------------------------------
/// A directory metadata value fits the wire format.
pub open spec fn dir_meta_encodable(d: DirectoryMetadataView) -> bool {
    &&& str_encodable(d.dirname)
    &&& d.files.len() <= u32::MAX
    &&& forall|i: int| 0 <= i < d.files.len() ==> file_meta_encodable(#[trigger] d.files[i])
}

/// Directory metadata on the wire: name, aggregate size, file count, files.
pub open spec fn spec_encode_dir_meta(d: DirectoryMetadataView) -> Seq<u8>
    recommends
        dir_meta_encodable(d),
{
    spec_encode_str(d.dirname) + spec_u64_to_be_bytes(d.total_size) + spec_u32_to_be_bytes(
        d.files.len() as u32,
    ) + spec_encode_file_list(d.files)
}

/// Directory metadata parsed at `pos`.
pub open spec fn spec_parse_dir_meta(b: Seq<u8>, pos: int) -> Option<(DirectoryMetadataView, int)> {
    match spec_parse_str(b, pos) {
        None => None,
        Some((name, p2)) => match spec_parse_u64(b, p2) {
            None => None,
            Some((total, p3)) => match spec_parse_u32(b, p3) {
                None => None,
                Some((count, p4)) => match spec_parse_file_list(b, p4, count as int) {
                    None => None,
                    Some((ms, p5)) => Some(
                        (DirectoryMetadataView { dirname: name, total_size: total, files: ms }, p5),
                    ),
                },
            },
        },
    }
}

/// Exactly one directory metadata value, filling the whole buffer.
pub open spec fn spec_decode_dir_meta(b: Seq<u8>) -> Option<DirectoryMetadataView> {
    match spec_parse_dir_meta(b, 0) {
        Some((d, p)) => if p == b.len() {
            Some(d)
        } else {
            None
        },
        None => None,
    }
}

/// Encodes one directory metadata message.
pub fn encode_dir_meta(d: &DirectoryMetadata) -> (r: Vec<u8>)
    requires
        dir_meta_encodable(d@),
    ensures
        r@ == spec_encode_dir_meta(d@),
{
    let mut out: Vec<u8> = Vec::new();
    encode_str(&mut out, &d.dirname);
    let sb = u64_to_be_bytes(d.total_size);
    out.extend_from_slice(sb.as_slice());
    let cb = u32_to_be_bytes(d.files.len() as u32);
    out.extend_from_slice(cb.as_slice());
    let ghost base = out@;
    let mut i: usize = 0;
    while i < d.files.len()
        invariant
            i <= d.files@.len(),
            dir_meta_encodable(d@),
            d@.files.len() == d.files@.len(),
            out@ == base + spec_encode_file_list(d@.files.take(i as int)),
        decreases d.files@.len() - i,
    {
        assert(d@.files[i as int] == d.files@[i as int]@);
        encode_file_meta_into(&mut out, &d.files[i]);
        proof {
            lemma_encode_file_list_push(d@.files.take(i as int), d@.files[i as int]);
            assert(d@.files.take(i as int).push(d@.files[i as int]) =~= d@.files.take(
                i as int + 1,
            ));
        }
        i += 1;
    }
    proof {
        assert(d@.files.take(d.files@.len() as int) =~= d@.files);
        assert(out@ =~= spec_encode_dir_meta(d@));
    }
    out
}

/// Decodes a frame payload as exactly one directory metadata message.
#[verifier::loop_isolation(false)]
pub fn decode_dir_meta(buf: &Vec<u8>) -> (r: Option<DirectoryMetadata>)
    ensures
        match r {
            Some(d) => spec_decode_dir_meta(buf@) == Some(d@),
            None => spec_decode_dir_meta(buf@) is None,
        },
{
    let (name, p2) = match parse_string(buf, 0) {
        Some(v) => v,
        None => {
            return None;
        },
    };
    let (total, p3) = match parse_u64(buf, p2) {
        Some(v) => v,
        None => {
            return None;
        },
    };
    let (count32, p4) = match parse_u32(buf, p3) {
        Some(v) => v,
        None => {
            return None;
        },
    };
    let count = count32 as usize;
    let mut files: Vec<FileMetadata> = Vec::new();
    let mut cur: usize = p4;
    let mut i: usize = 0;
    while i < count
        invariant
            i <= count,
            cur <= buf@.len(),
            files@.len() == i,
            match spec_parse_file_list(buf@, cur as int, (count - i) as int) {
                None => spec_parse_file_list(buf@, p4 as int, count as int) is None,
                Some((ms, p)) => spec_parse_file_list(buf@, p4 as int, count as int) == Some(
                    (files@.map_values(|f: FileMetadata| f@) + ms, p),
                ),
            },
        decreases count - i,
    {
        let ghost done = files@.map_values(|f: FileMetadata| f@);
        match parse_file_meta(buf, cur) {
            Some((m, p)) => {
                proof {
                    let (ms_tail, p_end) = spec_parse_file_list(
                        buf@,
                        p as int,
                        (count - i - 1) as int,
                    )->Some_0;
                    if spec_parse_file_list(buf@, p as int, (count - i - 1) as int) is Some {
                        assert(done.push(m@) + ms_tail =~= done + (seq![m@] + ms_tail));
                    }
                }
                files.push(m);
                proof {
                    assert(files@.map_values(|f: FileMetadata| f@) =~= done.push(m@));
                }
                cur = p;
            },
            None => {
                return None;
            },
        }
        i += 1;
    }
    proof {
        assert(files@.map_values(|f: FileMetadata| f@) + Seq::<FileMetadataView>::empty()
            =~= files@.map_values(|f: FileMetadata| f@));
    }
    if cur != buf.len() {
        return None;
    }
    Some(DirectoryMetadata { dirname: name, total_size: total, files })
}

pub proof fn lemma_parse_dir_meta_at(b: Seq<u8>, pos: int, d: DirectoryMetadataView)
    requires
        0 <= pos,
        dir_meta_encodable(d),
        pos + spec_encode_dir_meta(d).len() <= b.len(),
        b.subrange(pos, pos + spec_encode_dir_meta(d).len() as int) == spec_encode_dir_meta(d),
    ensures
        spec_parse_dir_meta(b, pos) == Some((d, pos + spec_encode_dir_meta(d).len() as int)),
{
    let sname = spec_encode_str(d.dirname);
    let stotal = spec_u64_to_be_bytes(d.total_size);
    let scount = spec_u32_to_be_bytes(d.files.len() as u32);
    let slist = spec_encode_file_list(d.files);
    let n1 = sname.len() as int;
    let n2 = stotal.len() as int;
    let n3 = scount.len() as int;
    let n4 = slist.len() as int;
    let window = b.subrange(pos, pos + n1 + n2 + n3 + n4);
    assert(b.subrange(pos, pos + n1) =~= window.subrange(0, n1));
    assert(window.subrange(0, n1) =~= sname);
    lemma_parse_str_at(b, pos, d.dirname);
    assert(b.subrange(pos + n1, pos + n1 + 8) =~= window.subrange(n1, n1 + 8));
    assert(window.subrange(n1, n1 + 8) =~= stotal);
    lemma_parse_u64_at(b, pos + n1, d.total_size);
    assert(b.subrange(pos + n1 + 8, pos + n1 + 12) =~= window.subrange(n1 + 8, n1 + 12));
    assert(window.subrange(n1 + 8, n1 + 12) =~= scount);
    lemma_parse_u32_at(b, pos + n1 + 8, d.files.len() as u32);
    assert(b.subrange(pos + n1 + 12, pos + n1 + 12 + n4) =~= window.subrange(
        n1 + 12,
        n1 + 12 + n4,
    ));
    assert(window.subrange(n1 + 12, n1 + 12 + n4) =~= slist);
    lemma_parse_file_list_at(b, pos + n1 + 12, d.files);
}

/// Round trip for directory metadata.
pub proof fn lemma_dir_meta_round_trip(d: DirectoryMetadataView)
    requires
        dir_meta_encodable(d),
    ensures
        spec_decode_dir_meta(spec_encode_dir_meta(d)) == Some(d),
{
    let b = spec_encode_dir_meta(d);
    assert(b.subrange(0, b.len() as int) =~= b);
    lemma_parse_dir_meta_at(b, 0, d);
}

// ---------------------------------------------------------------------------
// Transfer headers
// ---------------------------------------------------------------------------
/// The byte that stands for an item kind on the wire.
pub open spec fn spec_kind_byte(k: ItemKind) -> u8 {
    match k {
        ItemKind::File => 0,
        ItemKind::Directory => 1,
    }
}

/// A header on the wire: one kind byte.
pub open spec fn spec_encode_header(h: TransferHeader) -> Seq<u8> {
    seq![spec_kind_byte(h.kind)]
}

/// Exactly one header, filling the whole buffer.
pub open spec fn spec_decode_header(b: Seq<u8>) -> Option<TransferHeader> {
    if b.len() == 1 && b[0] == 0 {
        Some(TransferHeader { kind: ItemKind::File })
    } else if b.len() == 1 && b[0] == 1 {
        Some(TransferHeader { kind: ItemKind::Directory })
    } else {
        None
    }
}

/// Encodes one transfer header message.
pub fn encode_header(h: &TransferHeader) -> (r: Vec<u8>)
    ensures
        r@ == spec_encode_header(*h),
{
    let mut out: Vec<u8> = Vec::new();
    let byte: u8 = match h.kind {
        ItemKind::File => 0,
        ItemKind::Directory => 1,
    };
    out.push(byte);
    proof {
        assert(out@ =~= spec_encode_header(*h));
    }
    out
}

/// Decodes a frame payload as exactly one transfer header message.
pub fn decode_header(buf: &Vec<u8>) -> (r: Option<TransferHeader>)
    ensures
        match r {
            Some(h) => spec_decode_header(buf@) == Some(h),
            None => spec_decode_header(buf@) is None,
        },
{
    if buf.len() != 1 {
        return None;
    }
    if buf[0] == 0 {
        Some(TransferHeader { kind: ItemKind::File })
    } else if buf[0] == 1 {
        Some(TransferHeader { kind: ItemKind::Directory })
    } else {
        None
    }
}

/// Round trip for headers.
pub proof fn lemma_header_round_trip(h: TransferHeader)
    ensures
        spec_decode_header(spec_encode_header(h)) == Some(h),
{
}

// ---------------------------------------------------------------------------
// The global transfer manifest
// ---------------------------------------------------------------------------
/// A manifest fits the wire format.
pub open spec fn manifest_encodable(m: ManifestView) -> bool {
    match m.description {
        Some(d) => str_encodable(d),
        None => true,
    }
}

/// A manifest on the wire: both counts, then the optional description.
pub open spec fn spec_encode_manifest(m: ManifestView) -> Seq<u8>
    recommends
        manifest_encodable(m),
{
    spec_u32_to_be_bytes(m.total_files) + spec_u32_to_be_bytes(m.total_directories) + (
    match m.description {
        None => seq![0u8],
        Some(d) => seq![1u8] + spec_encode_str(d),
    })
}

/// A manifest parsed at `pos`.
pub open spec fn spec_parse_manifest(b: Seq<u8>, pos: int) -> Option<(ManifestView, int)> {
    match spec_parse_u32(b, pos) {
        None => None,
        Some((files, p2)) => match spec_parse_u32(b, p2) {
            None => None,
            Some((dirs, p3)) => match spec_parse_u8(b, p3) {
                None => None,
                Some((tag, p4)) => if tag == 0 {
                    Some(
                        (
                            ManifestView {
                                total_files: files,
                                total_directories: dirs,
                                description: None,
                            },
                            p4,
                        ),
                    )
                } else if tag == 1 {
                    match spec_parse_str(b, p4) {
                        None => None,
                        Some((desc, p5)) => Some(
                            (
                                ManifestView {
                                    total_files: files,
                                    total_directories: dirs,
                                    description: Some(desc),
                                },
                                p5,
                            ),
                        ),
                    }
                } else {
                    None
                },
            },
        },
    }
}

/// Exactly one manifest, filling the whole buffer.
pub open spec fn spec_decode_manifest(b: Seq<u8>) -> Option<ManifestView> {
    match spec_parse_manifest(b, 0) {
        Some((m, p)) => if p == b.len() {
            Some(m)
        } else {
            None
        },
        None => None,
    }
}

/// Encodes one manifest message.
pub fn encode_manifest(m: &GlobalTransferManifest) -> (r: Vec<u8>)
    requires
        manifest_encodable(m@),
    ensures
        r@ == spec_encode_manifest(m@),
{
    let mut out: Vec<u8> = Vec::new();
    let fb = u32_to_be_bytes(m.total_files);
    out.extend_from_slice(fb.as_slice());
    let db = u32_to_be_bytes(m.total_directories);
    out.extend_from_slice(db.as_slice());
    match &m.description {
        None => {
            out.push(0);
        },
        Some(d) => {
            out.push(1);
            encode_str(&mut out, d);
        },
    }
    proof {
        assert(out@ =~= spec_encode_manifest(m@));
    }
    out
}

/// Decodes a frame payload as exactly one manifest message.
pub fn decode_manifest(buf: &Vec<u8>) -> (r: Option<GlobalTransferManifest>)
    ensures
        match r {
            Some(m) => spec_decode_manifest(buf@) == Some(m@),
            None => spec_decode_manifest(buf@) is None,
        },
{
    let (files, p2) = match parse_u32(buf, 0) {
        Some(v) => v,
        None => {
            return None;
        },
    };
    let (dirs, p3) = match parse_u32(buf, p2) {
        Some(v) => v,
        None => {
            return None;
        },
    };
    let (tag, p4) = match parse_u8(buf, p3) {
        Some(v) => v,
        None => {
            return None;
        },
    };
    if tag == 0 {
        if p4 != buf.len() {
            return None;
        }
        Some(GlobalTransferManifest { total_files: files, total_directories: dirs, description: None })
    } else if tag == 1 {
        let (desc, p5) = match parse_string(buf, p4) {
            Some(v) => v,
            None => {
                return None;
            },
        };
        if p5 != buf.len() {
            return None;
        }
        Some(
            GlobalTransferManifest {
                total_files: files,
                total_directories: dirs,
                description: Some(desc),
            },
        )
    } else {
        None
    }
}

pub proof fn lemma_parse_manifest_at(b: Seq<u8>, pos: int, m: ManifestView)
    requires
        0 <= pos,
        manifest_encodable(m),
        pos + spec_encode_manifest(m).len() <= b.len(),
        b.subrange(pos, pos + spec_encode_manifest(m).len() as int) == spec_encode_manifest(m),
    ensures
        spec_parse_manifest(b, pos) == Some((m, pos + spec_encode_manifest(m).len() as int)),
{
    let tail = match m.description {
        None => seq![0u8],
        Some(d) => seq![1u8] + spec_encode_str(d),
    };
    let nt = tail.len() as int;
    let window = b.subrange(pos, pos + 8 + nt);
    assert(b.subrange(pos, pos + 4) =~= window.subrange(0, 4));
    assert(window.subrange(0, 4) =~= spec_u32_to_be_bytes(m.total_files));
    lemma_parse_u32_at(b, pos, m.total_files);
    assert(b.subrange(pos + 4, pos + 8) =~= window.subrange(4, 8));
    assert(window.subrange(4, 8) =~= spec_u32_to_be_bytes(m.total_directories));
    lemma_parse_u32_at(b, pos + 4, m.total_directories);
    assert(b[pos + 8] == window[8]);
    match m.description {
        None => {
            assert(window[8] == 0u8);
        },
        Some(d) => {
            assert(window[8] == 1u8);
            let sd = spec_encode_str(d);
            let nd = sd.len() as int;
            assert(b.subrange(pos + 9, pos + 9 + nd) =~= window.subrange(9, 9 + nd));
            assert(window.subrange(9, 9 + nd) =~= sd);
            lemma_parse_str_at(b, pos + 9, d);
        },
    }
}

/// Round trip for manifests.
pub proof fn lemma_manifest_round_trip(m: ManifestView)
    requires
        manifest_encodable(m),
    ensures
        spec_decode_manifest(spec_encode_manifest(m)) == Some(m),
{
    let b = spec_encode_manifest(m);
    assert(b.subrange(0, b.len() as int) =~= b);
    lemma_parse_manifest_at(b, 0, m);
}

// ---------------------------------------------------------------------------
// Discovery beacons
// ---------------------------------------------------------------------------
/// A beacon fits the wire format.
pub open spec fn beacon_encodable(b: BeaconView) -> bool {
    &&& str_encodable(b.protocol)
    &&& str_encodable(b.node_id)
    &&& str_encodable(b.username)
}

/// A beacon on the wire: protocol tag, session id, username, TCP port.
pub open spec fn spec_encode_beacon(b: BeaconView) -> Seq<u8>
    recommends
        beacon_encodable(b),
{
    spec_encode_str(b.protocol) + spec_encode_str(b.node_id) + spec_encode_str(b.username)
        + spec_u16_to_be_bytes(b.port)
}

/// A beacon parsed at `pos`.
pub open spec fn spec_parse_beacon(b: Seq<u8>, pos: int) -> Option<(BeaconView, int)> {
    match spec_parse_str(b, pos) {
        None => None,
        Some((protocol, p2)) => match spec_parse_str(b, p2) {
            None => None,
            Some((node_id, p3)) => match spec_parse_str(b, p3) {
                None => None,
                Some((username, p4)) => match spec_parse_u16(b, p4) {
                    None => None,
                    Some((port, p5)) => Some((BeaconView { protocol, node_id, username, port }, p5)),
                },
            },
        },
    }
}

/// Exactly one beacon, filling the whole datagram.
pub open spec fn spec_decode_beacon(b: Seq<u8>) -> Option<BeaconView> {
    match spec_parse_beacon(b, 0) {
        Some((v, p)) => if p == b.len() {
            Some(v)
        } else {
            None
        },
        None => None,
    }
}

/// Encodes one beacon datagram.
pub fn encode_beacon(b: &PortalBeacon) -> (r: Vec<u8>)
    requires
        beacon_encodable(b@),
    ensures
        r@ == spec_encode_beacon(b@),
{
    let mut out: Vec<u8> = Vec::new();
    encode_str(&mut out, &b.protocol);
    encode_str(&mut out, &b.node_id);
    encode_str(&mut out, &b.username);
    let pb = u16_to_be_bytes(b.port);
    out.extend_from_slice(pb.as_slice());
    proof {
        assert(out@ =~= spec_encode_beacon(b@));
    }
    out
}

/// Decodes a datagram as exactly one beacon.
pub fn decode_beacon(buf: &Vec<u8>) -> (r: Option<PortalBeacon>)
    ensures
        match r {
            Some(v) => spec_decode_beacon(buf@) == Some(v@),
            None => spec_decode_beacon(buf@) is None,
        },
{
    let (protocol, p2) = match parse_string(buf, 0) {
        Some(v) => v,
        None => {
            return None;
        },
    };
    let (node_id, p3) = match parse_string(buf, p2) {
        Some(v) => v,
        None => {
            return None;
        },
    };
    let (username, p4) = match parse_string(buf, p3) {
        Some(v) => v,
        None => {
            return None;
        },
    };
    let (port, p5) = match parse_u16(buf, p4) {
        Some(v) => v,
        None => {
            return None;
        },
    };
    if p5 != buf.len() {
        return None;
    }
    Some(PortalBeacon { protocol, node_id, username, port })
}

pub proof fn lemma_parse_beacon_at(b: Seq<u8>, pos: int, v: BeaconView)
    requires
        0 <= pos,
        beacon_encodable(v),
        pos + spec_encode_beacon(v).len() <= b.len(),
        b.subrange(pos, pos + spec_encode_beacon(v).len() as int) == spec_encode_beacon(v),
    ensures
        spec_parse_beacon(b, pos) == Some((v, pos + spec_encode_beacon(v).len() as int)),
{
    let s1 = spec_encode_str(v.protocol);
    let s2 = spec_encode_str(v.node_id);
    let s3 = spec_encode_str(v.username);
    let s4 = spec_u16_to_be_bytes(v.port);
    let n1 = s1.len() as int;
    let n2 = s2.len() as int;
    let n3 = s3.len() as int;
    let window = b.subrange(pos, pos + n1 + n2 + n3 + 2);
    assert(b.subrange(pos, pos + n1) =~= window.subrange(0, n1));
    assert(window.subrange(0, n1) =~= s1);
    lemma_parse_str_at(b, pos, v.protocol);
    assert(b.subrange(pos + n1, pos + n1 + n2) =~= window.subrange(n1, n1 + n2));
    assert(window.subrange(n1, n1 + n2) =~= s2);
    lemma_parse_str_at(b, pos + n1, v.node_id);
    assert(b.subrange(pos + n1 + n2, pos + n1 + n2 + n3) =~= window.subrange(
        n1 + n2,
        n1 + n2 + n3,
    ));
    assert(window.subrange(n1 + n2, n1 + n2 + n3) =~= s3);
    lemma_parse_str_at(b, pos + n1 + n2, v.username);
    assert(b.subrange(pos + n1 + n2 + n3, pos + n1 + n2 + n3 + 2) =~= window.subrange(
        n1 + n2 + n3,
        n1 + n2 + n3 + 2,
    ));
    assert(window.subrange(n1 + n2 + n3, n1 + n2 + n3 + 2) =~= s4);
    lemma_parse_u16_at(b, pos + n1 + n2 + n3, v.port);
}

/// Round trip for beacons.
pub proof fn lemma_beacon_round_trip(v: BeaconView)
    requires
        beacon_encodable(v),
    ensures
        spec_decode_beacon(spec_encode_beacon(v)) == Some(v),
{
    let b = spec_encode_beacon(v);
    assert(b.subrange(0, b.len() as int) =~= b);
    lemma_parse_beacon_at(b, 0, v);
}

pub proof fn lemma_parse_str_at(b: Seq<u8>, pos: int, s: Seq<char>)
    requires
        0 <= pos,
        str_encodable(s),
        pos + spec_encode_str(s).len() <= b.len(),
        b.subrange(pos, pos + spec_encode_str(s).len() as int) == spec_encode_str(s),
    ensures
        spec_parse_str(b, pos) == Some((s, pos + spec_encode_str(s).len() as int)),
{
    let eb = encode_utf8(s);
    let n = eb.len() as int;
    let window = b.subrange(pos, pos + 4 + n);
    assert(b.subrange(pos, pos + 4) =~= window.subrange(0, 4));
    assert(window.subrange(0, 4) =~= spec_u32_to_be_bytes(eb.len() as u32));
    lemma_parse_u32_at(b, pos, eb.len() as u32);
    assert(b.subrange(pos + 4, pos + 4 + n) =~= window.subrange(4, 4 + n));
    assert(window.subrange(4, 4 + n) =~= eb);
    encode_utf8_valid_utf8(s);
    encode_utf8_decode_utf8(s);
}

} // verus!
