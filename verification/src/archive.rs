//! Directory bodies: a tar archive inside one gzip member.
//!
//! A directory item's body is self-delimiting: no outer length prefix bounds
//! it, so the sender need not know the compressed size in advance. The
//! decoder consumes exactly the gzip member's bytes and leaves the
//! connection positioned at the next item; the protocol's integrity rests on
//! that boundary, which is why the codec stands behind this one narrow
//! module and the trusted contracts below.

use vstd::prelude::*;
use vstd::slice::slice_to_vec;
use vstd::utf8::encode_utf8;

use crate::errors::TransferError;

verus! {

/// The permission bits every regular file travels with.
pub const REGULAR_FILE_MODE: u32 = 0o644;

pub const SLASH_BYTE: u8 = 47;

pub const BACKSLASH_BYTE: u8 = 92;

pub const DOT_BYTE: u8 = 46;

/// One regular file inside a directory body: its path relative to the
/// directory root, and its bytes.
pub struct DirEntry {
    pub name: String,
    pub content: Vec<u8>,
}

impl Clone for DirEntry {
    fn clone(&self) -> (r: Self)
        ensures
            r.name@ == self.name@,
            r.content@ == self.content@,
    {
        DirEntry { name: self.name.clone(), content: self.content.clone() }
    }
}

/// Model of an entry list: each entry's characters and bytes, in order.
pub open spec fn entries_view(es: Seq<DirEntry>) -> Seq<(Seq<char>, Seq<u8>)> {
    es.map_values(|e: DirEntry| (e.name@, e.content@))
}

/// Byte `i` opens a path component.
pub open spec fn component_start(name: Seq<u8>, i: int) -> bool {
    i == 0 || name[i - 1] == SLASH_BYTE
}

/// The component at `i` is `.` or `..`.
pub open spec fn dot_component(name: Seq<u8>, i: int) -> bool {
    &&& name[i] == DOT_BYTE
    &&& (i + 1 == name.len() || name[i + 1] == SLASH_BYTE || (name[i + 1] == DOT_BYTE && (i + 2
        == name.len() || name[i + 2] == SLASH_BYTE)))
}

/// Byte `i` of a clean relative path: no NUL, no backslash, no empty
/// component opening there, and no `.` or `..` component opening there.
pub open spec fn name_byte_ok(name: Seq<u8>, i: int) -> bool {
    &&& name[i] != 0u8
    &&& name[i] != BACKSLASH_BYTE
    &&& !(0 < i && name[i - 1] == SLASH_BYTE && name[i] == SLASH_BYTE)
    &&& (component_start(name, i) ==> !dot_component(name, i))
}

/// A clean relative path for an archived file, over its UTF-8 bytes:
/// non-empty, relative, no empty or `.` or `..` component, no NUL and no
/// backslash. Archiving keeps such a name byte for byte.
pub open spec fn entry_name_bytes_ok(name: Seq<u8>) -> bool {
    &&& 1 <= name.len()
    &&& name[0] != SLASH_BYTE
    &&& name[name.len() - 1] != SLASH_BYTE
    &&& (forall|i: int| 0 <= i < name.len() ==> #[trigger] name_byte_ok(name, i))
}

/// The whole entry list can be archived: every name is a clean relative path.
pub open spec fn entries_packable(es: Seq<DirEntry>) -> bool {
    forall|i: int| 0 <= i < es.len() ==> entry_name_bytes_ok(encode_utf8(#[trigger] es[i].name@))
}

/// Checks that a file's relative name survives archiving unchanged.
pub fn entry_name_valid(name: &String) -> (r: bool)
    ensures
        r == entry_name_bytes_ok(encode_utf8(name@)),
{
    let bytes = slice_to_vec(name.as_str().as_bytes());
    let n = bytes.len();
    if n == 0 {
        return false;
    }
    if bytes[0] == SLASH_BYTE {
        return false;
    }
    if bytes[n - 1] == SLASH_BYTE {
        return false;
    }
    let ghost bs = encode_utf8(name@);
    let mut i: usize = 0;
    while i < n
        invariant
            0 <= i <= n,
            bs == encode_utf8(name@),
            n == bs.len(),
            bytes@ == bs,
            1 <= n,
            bs[0] != SLASH_BYTE,
            bs[n - 1] != SLASH_BYTE,
            forall|j: int| 0 <= j < i ==> #[trigger] name_byte_ok(bs, j),
        decreases n - i,
    {
        let b = bytes[i];
        proof {
            assert(bs[i as int] == b);
        }
        if b == 0 || b == BACKSLASH_BYTE {
            proof {
                assert(!name_byte_ok(bs, i as int));
            }
            return false;
        }
        if i > 0 && bytes[i - 1] == SLASH_BYTE && b == SLASH_BYTE {
            proof {
                assert(bs[i as int - 1] == SLASH_BYTE);
                assert(!name_byte_ok(bs, i as int));
            }
            return false;
        }
        if i == 0 || bytes[i - 1] == SLASH_BYTE {
            proof {
                assert(component_start(bs, i as int));
            }
            if b == DOT_BYTE {
                let lone = i + 1 == n || bytes[i + 1] == SLASH_BYTE;
                let double = i + 1 < n && bytes[i + 1] == DOT_BYTE && (i + 2 == n || bytes[i + 2]
                    == SLASH_BYTE);
                if lone || double {
                    proof {
                        assert(dot_component(bs, i as int));
                        assert(!name_byte_ok(bs, i as int));
                    }
                    return false;
                }
                proof {
                    assert(!dot_component(bs, i as int));
                    assert(name_byte_ok(bs, i as int));
                }
            } else {
                proof {
                    assert(!dot_component(bs, i as int));
                    assert(name_byte_ok(bs, i as int));
                }
            }
        } else {
            proof {
                assert(bs[i as int - 1] != SLASH_BYTE);
                assert(!component_start(bs, i as int));
                assert(name_byte_ok(bs, i as int));
            }
        }
        i += 1;
    }
    true
}

/// Checks every entry of a directory body.
pub fn entries_valid(es: &Vec<DirEntry>) -> (r: bool)
    ensures
        r == entries_packable(es@),
{
    let mut i: usize = 0;
    while i < es.len()
        invariant
            0 <= i <= es@.len(),
            forall|j: int|
                0 <= j < i ==> entry_name_bytes_ok(encode_utf8(#[trigger] es@[j].name@)),
        decreases es@.len() - i,
    {
        if !entry_name_valid(&es[i].name) {
            return false;
        }
        i += 1;
    }
    true
}

/// The tar archive tar's `Builder` writes for these entries: one regular
/// file per entry, in order, under its name, with its exact bytes, the
/// protocol's one file mode ([`REGULAR_FILE_MODE`]) and zeroed timestamps,
/// closed by the end-of-archive marker. The mode bytes stand in every
/// header, so this is the archive of the entries at that one mode only, and
/// the writer below admits no other.
pub uninterp spec fn tar_archive_of(entries: Seq<(Seq<char>, Seq<u8>)>) -> Seq<u8>;

/// The entry list tar's `Archive` reads out of a byte buffer: each entry's
/// name and bytes, in order. Nothing when the buffer is not one well-formed
/// archive, or an entry's name is not UTF-8.
pub uninterp spec fn untar_of(raw: Seq<u8>) -> Option<Seq<(Seq<char>, Seq<u8>)>>;

/// The gzip member flate2's `GzEncoder` writes for these bytes at the
/// default level: its header is fixed (zero mtime, fixed flags), so the
/// member is a function of the input bytes alone.
pub uninterp spec fn gzip_of(raw: Seq<u8>) -> Seq<u8>;

/// What flate2's streaming `GzDecoder` finds at the front of a byte
/// sequence: the decompressed bytes of the first gzip member and the exact
/// count of compressed bytes it occupies, or nothing when the front is not
/// one complete member.
pub uninterp spec fn gunzip_prefix_of(data: Seq<u8>) -> Option<(Seq<u8>, int)>;

/// Relies on tar's `Builder::append_data` into an in-memory buffer: it
/// writes exactly one archive holding these entries in order — names kept
/// byte for byte (long ones through the GNU extension), contents exact —
/// and `Archive` reads the same entries back out of it. With every name a
/// clean relative path, no call in the body fails. The mode goes into every
/// header, so `tar_archive_of` names the result only at the one mode this
/// wrapper admits.
#[verifier::external_body]
fn tar_pack(entries: &Vec<DirEntry>, mode: u32) -> (r: Vec<u8>)
    requires
        entries_packable(entries@),
        mode == REGULAR_FILE_MODE,
    ensures
        r@ == tar_archive_of(entries_view(entries@)),
        r@.len() > 0,
        untar_of(r@) == Some(entries_view(entries@)),
{
    let mut b = tar::Builder::new(Vec::new());
    for e in entries.iter() {
        let mut h = tar::Header::new_gnu();
        h.set_size(e.content.len() as u64);
        h.set_mode(mode);
        b.append_data(&mut h, &e.name, &e.content[..]).expect("archive entry");
    }
    b.into_inner().expect("archive finish")
}

/// Relies on tar's `Archive::entries`: the entries of the archive in `raw`,
/// each name and content exact, or an error when `raw` is not one
/// well-formed archive.
#[verifier::external_body]
fn untar_entries(raw: &Vec<u8>) -> (r: Result<Vec<DirEntry>, TransferError>)
    ensures
        match r {
            Ok(es) => untar_of(raw@) == Some(entries_view(es@)),
            Err(e) => {
                &&& untar_of(raw@) is None
                &&& e == (TransferError::ArchiveFailed)
            },
        },
{
    let mut ar = tar::Archive::new(raw.as_slice());
    let mut out: Vec<DirEntry> = Vec::new();
    for e in ar.entries().map_err(|_| TransferError::ArchiveFailed)? {
        let mut e = e.map_err(|_| TransferError::ArchiveFailed)?;
        let name = e
            .path()
            .ok()
            .and_then(|p| p.to_str().map(|s| s.to_owned()))
            .ok_or(TransferError::ArchiveFailed)?;
        let mut content: Vec<u8> = Vec::new();
        std::io::Read::read_to_end(&mut e, &mut content).map_err(|_| TransferError::ArchiveFailed)?;
        out.push(DirEntry { name, content });
    }
    Ok(out)
}

/// Relies on flate2's write `GzEncoder` at the default level: one complete
/// gzip member for the input bytes, with a fixed header (zero mtime, fixed
/// operating-system byte), and on its streaming decoder stopping exactly at
/// that member's trailer: decoding any byte sequence that starts with this
/// member yields the input bytes and consumes exactly the member.
#[verifier::external_body]
fn gzip_compress(raw: &Vec<u8>) -> (r: Vec<u8>)
    ensures
        r@ == gzip_of(raw@),
        r@.len() > 0,
        forall|rest: Seq<u8>|
            gunzip_prefix_of(#[trigger] (r@ + rest)) == Some((raw@, r@.len() as int)),
{
    let mut enc = flate2::write::GzEncoder::new(Vec::new(), flate2::Compression::default());
    std::io::Write::write_all(&mut enc, raw.as_slice()).expect("compress");
    enc.finish().expect("compress finish")
}

/// Relies on flate2's bufread `GzDecoder` over a cursor: it decodes the
/// gzip member at the front of `data[pos..]`, consuming exactly the member's
/// bytes from the cursor, and errs when no complete member starts there.
#[verifier::external_body]
fn gunzip_member_at(data: &Vec<u8>, pos: usize) -> (r: Result<(Vec<u8>, usize), TransferError>)
    requires
        pos <= data@.len(),
    ensures
        match r {
            Ok(p) => {
                &&& gunzip_prefix_of(data@.skip(pos as int)) == Some((p.0@, p.1 as int))
                &&& 0 < p.1 <= data@.len() - pos
            },
            Err(e) => {
                &&& gunzip_prefix_of(data@.skip(pos as int)) is None
                &&& e == (TransferError::ArchiveFailed)
            },
        },
{
    let mut cur = std::io::Cursor::new(&data[pos..]);
    let mut raw: Vec<u8> = Vec::new();
    let outcome = {
        let mut gz = flate2::bufread::GzDecoder::new(&mut cur);
        std::io::Read::read_to_end(&mut gz, &mut raw)
    };
    match outcome {
        Ok(_) => Ok((raw, cur.position() as usize)),
        Err(_) => Err(TransferError::ArchiveFailed),
    }
}

/// A directory body on the wire: the entries' tar archive inside one gzip
/// member.
pub open spec fn spec_dir_body(entries: Seq<(Seq<char>, Seq<u8>)>) -> Seq<u8> {
    gzip_of(tar_archive_of(entries))
}

/// A directory body read from `data` at `pos`: the entries of the gzip
/// member starting there, and the position just after the member.
pub open spec fn spec_unpack_dir_at(data: Seq<u8>, pos: int) -> Option<
    (Seq<(Seq<char>, Seq<u8>)>, int),
> {
    match gunzip_prefix_of(data.skip(pos)) {
        None => None,
        Some((raw, used)) => match untar_of(raw) {
            None => None,
            Some(es) => Some((es, pos + used)),
        },
    }
}

/// Packs a directory body: the files, in metadata order, as one
/// self-delimiting archive stream. Unpacking any stream that starts with
/// this body yields the same names and bytes and stops exactly at the body's
/// end, wherever the next item begins — the directory round trip.
pub fn pack_directory(entries: &Vec<DirEntry>) -> (r: Vec<u8>)
    requires
        entries_packable(entries@),
    ensures
        r@ == spec_dir_body(entries_view(entries@)),
        r@.len() > 0,
        forall|rest: Seq<u8>|
            spec_unpack_dir_at(#[trigger] (r@ + rest), 0) == Some(
                (entries_view(entries@), r@.len() as int),
            ),
{
    let raw = tar_pack(entries, REGULAR_FILE_MODE);
    let packed = gzip_compress(&raw);
    proof {
        assert forall|rest: Seq<u8>|
            spec_unpack_dir_at(#[trigger] (packed@ + rest), 0) == Some(
                (entries_view(entries@), packed@.len() as int),
            ) by {
            assert((packed@ + rest).skip(0) =~= packed@ + rest);
        }
    }
    packed
}

/// Receives a directory body: decodes the archive stream at `pos`, hands
/// back the files it carried and the position of the next item. The staging
/// and the atomic rename live with the caller, outside the library.
pub fn receive_directory(data: &Vec<u8>, pos: usize) -> (r: Result<
    (Vec<DirEntry>, usize),
    TransferError,
>)
    requires
        pos <= data@.len(),
    ensures
        match r {
            Ok(p) => {
                &&& spec_unpack_dir_at(data@, pos as int) == Some(
                    (entries_view(p.0@), p.1 as int),
                )
                &&& pos < p.1 <= data@.len()
            },
            Err(e) => {
                &&& spec_unpack_dir_at(data@, pos as int) is None
                &&& e == (TransferError::ArchiveFailed)
            },
        },
{
    let (raw, used) = match gunzip_member_at(data, pos) {
        Ok(v) => v,
        Err(e) => {
            return Err(e);
        },
    };
    let dlen = data.len();
    proof {
        assert(pos + used <= dlen);
    }
    match untar_entries(&raw) {
        Ok(es) => Ok((es, pos + used)),
        Err(e) => Err(e),
    }
}

} // verus!
