//! The receiving side as one whole: what a complete transfer stream means.
//!
//! [`receive_transfer`] reads a full in-memory stream the way the network
//! loop does piece by piece: the manifest frame, then per declared item a
//! header frame, a metadata frame and the body — a file's bytes by exact
//! count, a directory's by the archive's own end marker. The spec functions
//! here are the meaning of a stream; the sender's builder proves its output
//! reads back as exactly what was sent.

use vstd::prelude::*;
use vstd::slice::{slice_subrange, slice_to_vec};

use crate::archive::{receive_directory, spec_dir_body, spec_unpack_dir_at};
use crate::codec::{decode_dir_meta, decode_file_meta, decode_header, decode_manifest,
    dir_meta_encodable, file_meta_encodable, lemma_dir_meta_round_trip, lemma_file_meta_round_trip,
    lemma_header_round_trip, spec_decode_dir_meta, spec_decode_file_meta, spec_decode_header,
    spec_decode_manifest, spec_encode_dir_meta, spec_encode_file_meta, spec_encode_header};
use crate::errors::TransferError;
use crate::frame::{lemma_read_frame_at, read_frame, spec_frame, spec_read_frame};
use crate::metadata::{DirectoryMetadataView, FileMetadataView, GlobalTransferManifest, ItemKind,
    ManifestView, TransferHeader};
use crate::sender::{items_view, spec_encode_item, ItemPayload, ItemPayloadView};

verus! {

/// One item read from `b` at `pos`: its header frame, its metadata frame,
/// and its body — or nothing when any piece is short or malformed.
pub open spec fn spec_parse_item(b: Seq<u8>, pos: int) -> Option<(ItemPayloadView, int)> {
    match spec_read_frame(b, pos) {
        None => None,
        Some((hp, p1)) => match spec_decode_header(hp) {
            None => None,
            Some(h) => match h.kind {
                ItemKind::File => match spec_read_frame(b, p1) {
                    None => None,
                    Some((mp, p2)) => match spec_decode_file_meta(mp) {
                        None => None,
                        Some(m) => if p2 + m.file_size <= b.len() {
                            Some(
                                (
                                    ItemPayloadView::File {
                                        meta: m,
                                        content: b.subrange(p2, p2 + m.file_size),
                                    },
                                    p2 + m.file_size,
                                ),
                            )
                        } else {
                            None
                        },
                    },
                },
                ItemKind::Directory => match spec_read_frame(b, p1) {
                    None => None,
                    Some((mp, p2)) => match spec_decode_dir_meta(mp) {
                        None => None,
                        Some(d) => match spec_unpack_dir_at(b, p2) {
                            None => None,
                            Some((es, p3)) => Some(
                                (ItemPayloadView::Directory { meta: d, entries: es }, p3),
                            ),
                        },
                    },
                },
            },
        },
    }
}

/// `count` items read in sequence from `pos`.
pub open spec fn spec_parse_items(b: Seq<u8>, pos: int, count: int) -> Option<
    (Seq<ItemPayloadView>, int),
>
    decreases count,
{
    if count <= 0 {
        Some((Seq::empty(), pos))
    } else {
        match spec_parse_item(b, pos) {
            None => None,
            Some((it, p2)) => match spec_parse_items(b, p2, count - 1) {
                None => None,
                Some((its, p3)) => Some((seq![it] + its, p3)),
            },
        }
    }
}

/// A whole transfer stream: the manifest frame, then exactly
/// `total_files + total_directories` items, filling the stream exactly.
pub open spec fn spec_receive_transfer(b: Seq<u8>) -> Option<
    (ManifestView, Seq<ItemPayloadView>),
> {
    match spec_read_frame(b, 0) {
        None => None,
        Some((mf, p)) => match spec_decode_manifest(mf) {
            None => None,
            Some(m) => {
                match spec_parse_items(b, p, m.total_files + m.total_directories) {
                    None => None,
                    Some((items, q)) => if q == b.len() {
                        Some((m, items))
                    } else {
                        None
                    },
                }
            },
        },
    }
}

/// Reads one complete transfer out of an in-memory stream: the manifest,
/// then exactly the declared number of items, each with its body. Succeeds
/// exactly when the stream is one well-formed transfer and nothing more;
/// any short or malformed piece fails the whole transfer.
#[verifier::loop_isolation(false)]
pub fn receive_transfer(stream: &Vec<u8>) -> (r: Result<
    (GlobalTransferManifest, Vec<ItemPayload>),
    TransferError,
>)
    ensures
        r matches Ok(p) ==> spec_receive_transfer(stream@) == Some((p.0@, items_view(p.1@))),
        r is Ok <==> spec_receive_transfer(stream@) is Some,
{
    let (mf, p0) = match read_frame(stream, 0) {
        Ok(v) => v,
        Err(e) => {
            return Err(e);
        },
    };
    let manifest = match decode_manifest(&mf) {
        Some(m) => m,
        None => {
            return Err(TransferError::MalformedMessage);
        },
    };
    let count: u64 = manifest.total_files as u64 + manifest.total_directories as u64;
    let mut items: Vec<ItemPayload> = Vec::new();
    let mut pos: usize = p0;
    let mut i: u64 = 0;
    while i < count
        invariant
            0 <= i <= count,
            pos <= stream@.len(),
            items@.len() == i,
            match spec_parse_items(stream@, pos as int, count - i) {
                None => spec_parse_items(stream@, p0 as int, count as int) is None,
                Some((its, q)) => spec_parse_items(stream@, p0 as int, count as int) == Some(
                    (items_view(items@) + its, q),
                ),
            },
        decreases count - i,
    {
        let ghost done = items_view(items@);
        let (hp, p1) = match read_frame(stream, pos) {
            Ok(v) => v,
            Err(e) => {
                return Err(e);
            },
        };
        let header = match decode_header(&hp) {
            Some(h) => h,
            None => {
                return Err(TransferError::MalformedMessage);
            },
        };
        let (item, next) = match header.kind {
            ItemKind::File => {
                let (mp, p2) = match read_frame(stream, p1) {
                    Ok(v) => v,
                    Err(e) => {
                        return Err(e);
                    },
                };
                let meta = match decode_file_meta(&mp) {
                    Some(m) => m,
                    None => {
                        return Err(TransferError::MalformedMessage);
                    },
                };
                if meta.file_size > (stream.len() - p2) as u64 {
                    return Err(TransferError::ShortRead);
                }
                let size = meta.file_size as usize;
                let content = slice_to_vec(slice_subrange(stream.as_slice(), p2, p2 + size));
                let it = ItemPayload::File { meta, content };
                proof {
                    assert(spec_parse_item(stream@, pos as int) == Some(
                        (it@, p2 as int + size as int),
                    ));
                }
                (it, p2 + size)
            },
            ItemKind::Directory => {
                let (mp, p2) = match read_frame(stream, p1) {
                    Ok(v) => v,
                    Err(e) => {
                        return Err(e);
                    },
                };
                let meta = match decode_dir_meta(&mp) {
                    Some(d) => d,
                    None => {
                        return Err(TransferError::MalformedMessage);
                    },
                };
                let (entries, p3) = match receive_directory(stream, p2) {
                    Ok(v) => v,
                    Err(e) => {
                        return Err(e);
                    },
                };
                let it = ItemPayload::Directory { meta, entries };
                proof {
                    assert(spec_parse_item(stream@, pos as int) == Some((it@, p3 as int)));
                }
                (it, p3)
            },
        };
        proof {
            let remaining = count - i;
            let tail = spec_parse_items(stream@, next as int, remaining - 1);
            if tail is Some {
                let (its, q) = tail->Some_0;
                assert(done.push(item@) + its =~= done + (seq![item@] + its));
            }
        }
        items.push(item);
        proof {
            assert(items_view(items@) =~= done.push(item@));
        }
        pos = next;
        i = i + 1;
    }
    proof {
        assert(items_view(items@) + Seq::<ItemPayloadView>::empty() =~= items_view(items@));
    }
    if pos != stream.len() {
        return Err(TransferError::ProtocolViolation);
    }
    Ok((manifest, items))
}

/// A parsed item list of one is one parsed item.
pub proof fn lemma_parse_single_item(b: Seq<u8>, pos: int, it: ItemPayloadView, next: int)
    requires
        spec_parse_item(b, pos) == Some((it, next)),
    ensures
        spec_parse_items(b, pos, 1) == Some((seq![it], next)),
{
    assert(spec_parse_items(b, next, 0) == Some((Seq::<ItemPayloadView>::empty(), next)));
    assert(seq![it] + Seq::<ItemPayloadView>::empty() =~= seq![it]);
}

/// Reading a directory body at `pos` is reading it at the front of the
/// stream's tail, shifted.
pub proof fn lemma_unpack_dir_at_shift(b: Seq<u8>, pos: int, tail: Seq<u8>)
    requires
        0 <= pos,
        b.skip(pos) == tail,
    ensures
        spec_unpack_dir_at(b, pos) == (match spec_unpack_dir_at(tail, 0) {
            None => None,
            Some((es, p)) => Some((es, pos + p)),
        }),
{
    assert(tail.skip(0) =~= tail);
}

/// A window known to hold three pieces in a row holds each piece in its own
/// place.
proof fn lemma_window_split3(b: Seq<u8>, pos: int, x: Seq<u8>, y: Seq<u8>, z: Seq<u8>)
    requires
        0 <= pos,
        pos + x.len() + y.len() + z.len() <= b.len(),
        b.subrange(pos, pos + x.len() + y.len() + z.len()) == (x + y) + z,
    ensures
        b.subrange(pos, pos + x.len() as int) == x,
        b.subrange(pos + x.len(), pos + x.len() + y.len()) == y,
        b.subrange(pos + x.len() + y.len(), pos + x.len() + y.len() + z.len()) == z,
{
    let w = b.subrange(pos, pos + x.len() + y.len() + z.len());
    assert(b.subrange(pos, pos + x.len() as int) =~= x) by {
        assert forall|k: int| 0 <= k < x.len() implies b[pos + k] == x[k] by {
            assert(w[k] == ((x + y) + z)[k]);
            assert(((x + y) + z)[k] == (x + y)[k]);
            assert((x + y)[k] == x[k]);
        }
    }
    assert(b.subrange(pos + x.len(), pos + x.len() + y.len()) =~= y) by {
        assert forall|k: int| 0 <= k < y.len() implies b[pos + x.len() + k] == y[k] by {
            assert(w[x.len() + k] == ((x + y) + z)[x.len() + k]);
            assert(((x + y) + z)[x.len() + k] == (x + y)[x.len() + k]);
            assert((x + y)[x.len() + k] == y[k]);
        }
    }
    assert(b.subrange(pos + x.len() + y.len(), pos + x.len() + y.len() + z.len()) =~= z) by {
        assert forall|k: int| 0 <= k < z.len() implies b[pos + x.len() + y.len() + k] == z[k] by {
            assert(w[x.len() + y.len() + k] == ((x + y) + z)[x.len() + y.len() + k]);
            assert(((x + y) + z)[x.len() + y.len() + k] == z[k]);
        }
    }
}

/// A file item embedded in a stream parses back: where the bytes from `pos`
/// on hold the item's header frame, metadata frame and body, reading at
/// `pos` yields the metadata and the exact body bytes.
#[verifier::rlimit(100)]
pub proof fn lemma_parse_file_item_at(
    b: Seq<u8>,
    pos: int,
    meta: FileMetadataView,
    content: Seq<u8>,
)
    requires
        0 <= pos,
        file_meta_encodable(meta),
        spec_encode_file_meta(meta).len() <= u32::MAX,
        content.len() == meta.file_size,
        pos + spec_encode_item(ItemPayloadView::File { meta, content }).len() <= b.len(),
        b.subrange(
            pos,
            pos + spec_encode_item(ItemPayloadView::File { meta, content }).len() as int,
        ) == spec_encode_item(ItemPayloadView::File { meta, content }),
    ensures
        spec_parse_item(b, pos) == Some(
            (
                ItemPayloadView::File { meta, content },
                pos + spec_encode_item(ItemPayloadView::File { meta, content }).len() as int,
            ),
        ),
{
    let header = TransferHeader { kind: ItemKind::File };
    let hseg = spec_frame(spec_encode_header(header));
    let mseg = spec_frame(spec_encode_file_meta(meta));
    let seg = spec_encode_item(ItemPayloadView::File { meta, content });
    let n1 = hseg.len() as int;
    let n2 = mseg.len() as int;
    assert(spec_encode_header(header).len() == 1);
    assert(seg == (hseg + mseg) + content);
    lemma_window_split3(b, pos, hseg, mseg, content);
    lemma_read_frame_at(b, pos, spec_encode_header(header));
    lemma_header_round_trip(header);
    lemma_read_frame_at(b, pos + n1, spec_encode_file_meta(meta));
    lemma_file_meta_round_trip(meta);
}

/// A directory item embedded in a stream parses back, given the body's own
/// round trip: where the bytes from `pos` on hold the item's header frame,
/// metadata frame and archive body, reading at `pos` yields the metadata and
/// the archived entries, and stops exactly at the body's end.
#[verifier::rlimit(100)]
pub proof fn lemma_parse_dir_item_at(
    b: Seq<u8>,
    pos: int,
    meta: DirectoryMetadataView,
    entries: Seq<(Seq<char>, Seq<u8>)>,
)
    requires
        0 <= pos,
        dir_meta_encodable(meta),
        spec_encode_dir_meta(meta).len() <= u32::MAX,
        pos + spec_encode_item(ItemPayloadView::Directory { meta, entries }).len() <= b.len(),
        b.subrange(
            pos,
            pos + spec_encode_item(ItemPayloadView::Directory { meta, entries }).len() as int,
        ) == spec_encode_item(ItemPayloadView::Directory { meta, entries }),
        forall|rest: Seq<u8>|
            spec_unpack_dir_at(#[trigger] (spec_dir_body(entries) + rest), 0) == Some(
                (entries, spec_dir_body(entries).len() as int),
            ),
    ensures
        spec_parse_item(b, pos) == Some(
            (
                ItemPayloadView::Directory { meta, entries },
                pos + spec_encode_item(ItemPayloadView::Directory { meta, entries }).len() as int,
            ),
        ),
{
    let header = TransferHeader { kind: ItemKind::Directory };
    let hseg = spec_frame(spec_encode_header(header));
    let mseg = spec_frame(spec_encode_dir_meta(meta));
    let body = spec_dir_body(entries);
    let n1 = hseg.len() as int;
    let n2 = mseg.len() as int;
    let n3 = body.len() as int;
    assert(spec_encode_header(header).len() == 1);
    let seg = spec_encode_item(ItemPayloadView::Directory { meta, entries });
    assert(seg == (hseg + mseg) + body);
    lemma_window_split3(b, pos, hseg, mseg, body);
    lemma_read_frame_at(b, pos, spec_encode_header(header));
    lemma_header_round_trip(header);
    lemma_read_frame_at(b, pos + n1, spec_encode_dir_meta(meta));
    lemma_dir_meta_round_trip(meta);
    let p2 = pos + n1 + n2;
    let tail = b.skip(p2);
    let rest = b.skip(p2 + n3);
    assert(tail =~= body + rest) by {
        assert(b.subrange(p2, p2 + n3) == body);
    }
    assert(spec_unpack_dir_at(body + rest, 0) == Some((entries, n3)));
    lemma_unpack_dir_at_shift(b, p2, body + rest);
}

/// Concatenation associates.
proof fn lemma_concat_assoc(a: Seq<u8>, b: Seq<u8>, c: Seq<u8>)
    ensures
        (a + b) + c == a + (b + c),
{
    assert((a + b) + c =~= a + (b + c));
}

/// The middle piece of a three-part concatenation is its own window.
proof fn lemma_middle_window(front: Seq<u8>, mid: Seq<u8>, back: Seq<u8>)
    ensures
        ((front + mid) + back).subrange(
            front.len() as int,
            front.len() as int + mid.len(),
        ) == mid,
{
    assert(((front + mid) + back).subrange(front.len() as int, front.len() as int + mid.len()) =~= mid);
}

/// One item's wire bytes, standing after a prefix and before whatever
/// follows, parse back as that item: the step case of the stream round trip.
#[verifier::rlimit(100)]
pub proof fn lemma_stream_extend_one(
    before: Seq<u8>,
    mlen: int,
    i: int,
    views: Seq<ItemPayloadView>,
    it: ItemPayloadView,
    rest: Seq<u8>,
)
    requires
        0 <= i < views.len(),
        it == views[i],
        crate::sender::item_sendable(it),
        0 <= mlen <= before.len(),
        spec_parse_items(before + (spec_encode_item(it) + rest), mlen, i) == Some(
            (views.take(i), before.len() as int),
        ),
        it matches ItemPayloadView::Directory { meta, entries } ==> (forall|tail: Seq<u8>|
            spec_unpack_dir_at(#[trigger] (spec_dir_body(entries) + tail), 0) == Some(
                (entries, spec_dir_body(entries).len() as int),
            )),
    ensures
        spec_parse_items((before + spec_encode_item(it)) + rest, mlen, i + 1) == Some(
            (views.take(i + 1), (before + spec_encode_item(it)).len() as int),
        ),
{
    let seg = spec_encode_item(it);
    let b = (before + seg) + rest;
    lemma_concat_assoc(before, seg, rest);
    assert(spec_parse_items(b, mlen, i) == Some((views.take(i), before.len() as int)));
    let q = before.len() as int;
    lemma_middle_window(before, seg, rest);
    assert(b.subrange(q, q + seg.len() as int) == seg);
    match it {
        ItemPayloadView::File { meta, content } => {
            lemma_parse_file_item_at(b, q, meta, content);
        },
        ItemPayloadView::Directory { meta, entries } => {
            lemma_parse_dir_item_at(b, q, meta, entries);
        },
    }
    lemma_parse_single_item(b, q, it, q + seg.len() as int);
    lemma_parse_items_compose(b, mlen, i, 1, views.take(i), q, seq![it], q + seg.len() as int);
    assert(views.take(i) + seq![it] =~= views.take(i + 1));
}

/// Appending one item's wire bytes to a stream whose first `i` items parse
/// back extends the readable run by that item, wherever the stream may go
/// on afterwards.
pub proof fn lemma_stream_extend(
    before: Seq<u8>,
    mlen: int,
    i: int,
    views: Seq<ItemPayloadView>,
    it: ItemPayloadView,
)
    requires
        0 <= i < views.len(),
        it == views[i],
        crate::sender::item_sendable(it),
        0 <= mlen <= before.len(),
        forall|rest: Seq<u8>|
            spec_parse_items(#[trigger] (before + rest), mlen, i) == Some(
                (views.take(i), before.len() as int),
            ),
        it matches ItemPayloadView::Directory { meta, entries } ==> (forall|rest: Seq<u8>|
            spec_unpack_dir_at(#[trigger] (spec_dir_body(entries) + rest), 0) == Some(
                (entries, spec_dir_body(entries).len() as int),
            )),
    ensures
        forall|rest: Seq<u8>|
            spec_parse_items(#[trigger] ((before + spec_encode_item(it)) + rest), mlen, i + 1)
                == Some((views.take(i + 1), (before + spec_encode_item(it)).len() as int)),
{
    let seg = spec_encode_item(it);
    assert forall|rest: Seq<u8>|
        spec_parse_items(#[trigger] ((before + seg) + rest), mlen, i + 1) == Some(
            (views.take(i + 1), (before + seg).len() as int),
        ) by {
        assert(spec_parse_items(before + (seg + rest), mlen, i) == Some(
            (views.take(i), before.len() as int),
        ));
        lemma_stream_extend_one(before, mlen, i, views, it, rest);
    }
}

/// Two item runs read in sequence read as one longer run.
pub proof fn lemma_parse_items_compose(
    b: Seq<u8>,
    pos: int,
    i: int,
    j: int,
    v1: Seq<ItemPayloadView>,
    p: int,
    v2: Seq<ItemPayloadView>,
    q: int,
)
    requires
        i >= 0,
        j >= 0,
        spec_parse_items(b, pos, i) == Some((v1, p)),
        spec_parse_items(b, p, j) == Some((v2, q)),
    ensures
        spec_parse_items(b, pos, i + j) == Some((v1 + v2, q)),
    decreases i,
{
    if i == 0 {
        assert(v1 =~= Seq::<ItemPayloadView>::empty());
        assert(p == pos);
        assert(v1 + v2 =~= v2);
        if j == 0 {
            assert(v2 =~= Seq::<ItemPayloadView>::empty());
        }
    } else {
        let (it, p2) = spec_parse_item(b, pos)->Some_0;
        let (its, p3) = spec_parse_items(b, p2, i - 1)->Some_0;
        assert(spec_parse_items(b, pos, i) == Some((seq![it] + its, p3)));
        assert(v1 == seq![it] + its && p == p3);
        lemma_parse_items_compose(b, p2, i - 1, j, its, p, v2, q);
        assert(seq![it] + (its + v2) =~= (seq![it] + its) + v2);
    }
}

} // verus!
