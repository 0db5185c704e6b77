//! The sending side: metadata construction, the local precondition checks,
//! and the byte stream of a whole transfer.
//!
//! The sender resolves its targets, builds per-item metadata and the global
//! manifest, and then writes: the manifest frame, and per item a header
//! frame, a metadata frame and the item's body — a file's bytes verbatim, a
//! directory's as one self-delimiting archive stream.

use vstd::prelude::*;
use vstd::utf8::encode_utf8;

use crate::archive::{entries_packable, entries_view, entry_name_bytes_ok, pack_directory,
    spec_dir_body, spec_unpack_dir_at, DirEntry};
use crate::codec::{dir_meta_encodable, encode_dir_meta, encode_file_meta, encode_header,
    encode_manifest, file_meta_encodable, manifest_encodable, spec_encode_dir_meta,
    spec_encode_file_meta, spec_encode_header, spec_encode_manifest};
use crate::errors::TransferError;
use crate::frame::{spec_frame, write_frame};
use crate::metadata::{DirectoryMetadata, DirectoryMetadataView, FileMetadata, FileMetadataView,
    GlobalTransferManifest, ItemKind, ManifestView, TransferHeader, TransferItem};

verus! {

// ---------------------------------------------------------------------------
// Local precondition checks
// ---------------------------------------------------------------------------
/// What the sender knows of one requested path before any network activity.
#[derive(Clone, Copy, Debug, PartialEq, Eq, Structural)]
pub struct SendTarget {
    pub path_exists: bool,
    pub is_directory: bool,
}

/// A target may be sent: it exists, and a directory only in recursive mode.
pub open spec fn target_ok(t: SendTarget, recursive: bool) -> bool {
    t.path_exists && (t.is_directory ==> recursive)
}

/// The error a bad target is reported with.
pub open spec fn spec_target_error(t: SendTarget) -> TransferError {
    if !t.path_exists {
        TransferError::TargetMissing
    } else {
        TransferError::DirectoryNeedsRecursive
    }
}

/// Checks every requested path before any network activity: all must exist,
/// and directories are sent only in recursive mode. A failure names the
/// first offending target and creates no partial state.
pub fn check_send_targets(targets: &Vec<SendTarget>, recursive: bool) -> (r: Result<
    (),
    (usize, TransferError),
>)
    ensures
        r is Ok <==> (forall|i: int| 0 <= i < targets@.len() ==> target_ok(targets@[i], recursive)),
        r matches Err((i, e)) ==> {
            &&& i < targets@.len()
            &&& !target_ok(targets@[i as int], recursive)
            &&& (forall|j: int| 0 <= j < i ==> target_ok(targets@[j], recursive))
            &&& e == spec_target_error(targets@[i as int])
        },
{
    let mut i: usize = 0;
    while i < targets.len()
        invariant
            0 <= i <= targets@.len(),
            forall|j: int| 0 <= j < i ==> target_ok(targets@[j], recursive),
        decreases targets@.len() - i,
    {
        let t = targets[i];
        if !t.path_exists {
            return Err((i, TransferError::TargetMissing));
        }
        if t.is_directory && !recursive {
            return Err((i, TransferError::DirectoryNeedsRecursive));
        }
        i += 1;
    }
    Ok(())
}

// ---------------------------------------------------------------------------
// Metadata construction
// ---------------------------------------------------------------------------
/// Builds one file's metadata from its name and its exact size.
pub fn create_file_metadata(filename: String, file_size: u64) -> (r: FileMetadata)
    ensures
        r@ == (FileMetadataView { filename: filename@, file_size }),
{
    FileMetadata { filename, file_size }
}

/// The aggregate size of a directory's files.
pub open spec fn spec_total_size(files: Seq<FileMetadataView>) -> int
    decreases files.len(),
{
    if files.len() == 0 {
        0
    } else {
        spec_total_size(files.drop_last()) + files.last().file_size
    }
}

/// An aggregate of sizes is at least any prefix's aggregate.
pub proof fn lemma_total_size_prefix_le(files: Seq<FileMetadataView>, i: int)
    requires
        0 <= i <= files.len(),
    ensures
        spec_total_size(files.take(i)) <= spec_total_size(files),
    decreases files.len() - i,
{
    if i == files.len() {
        assert(files.take(i) =~= files);
    } else {
        assert(files.take(i + 1).drop_last() =~= files.take(i));
        assert(spec_total_size(files.take(i + 1)) == spec_total_size(files.take(i)) + files[i].file_size);
        lemma_total_size_prefix_le(files, i + 1);
    }
}

/// Builds a directory's metadata from its name and the fixed list of every
/// regular file under it, found by the full pre-scan of the subtree. The
/// aggregate size is the sum of the files' sizes; a sum beyond `u64` is
/// refused, and exactly then.
pub fn create_directory_metadata(dirname: String, files: Vec<FileMetadata>) -> (r: Result<
    DirectoryMetadata,
    TransferError,
>)
    ensures
        match r {
            Ok(d) => {
                &&& spec_total_size(files@.map_values(|f: FileMetadata| f@)) <= u64::MAX
                &&& d@ == (DirectoryMetadataView {
                    dirname: dirname@,
                    total_size: spec_total_size(files@.map_values(|f: FileMetadata| f@)) as u64,
                    files: files@.map_values(|f: FileMetadata| f@),
                })
            },
            Err(e) => {
                &&& spec_total_size(files@.map_values(|f: FileMetadata| f@)) > u64::MAX
                &&& e == (TransferError::SizeOverflow)
            },
        },
{
    let ghost fs = files@.map_values(|f: FileMetadata| f@);
    let mut total: u64 = 0;
    let mut i: usize = 0;
    while i < files.len()
        invariant
            0 <= i <= files@.len(),
            fs == files@.map_values(|f: FileMetadata| f@),
            fs.len() == files@.len(),
            total == spec_total_size(fs.take(i as int)),
        decreases files@.len() - i,
    {
        let size = files[i].file_size;
        proof {
            assert(fs[i as int] == files@[i as int]@);
            assert(fs.take(i as int + 1).drop_last() =~= fs.take(i as int));
            assert(fs.take(i as int + 1).last() == fs[i as int]);
        }
        if size > u64::MAX - total {
            proof {
                lemma_total_size_prefix_le(fs, i as int + 1);
            }
            return Err(TransferError::SizeOverflow);
        }
        total = total + size;
        i += 1;
    }
    proof {
        assert(fs.take(files@.len() as int) =~= fs);
    }
    Ok(DirectoryMetadata { dirname, total_size: total, files })
}

/// Assembles the global transfer manifest the sender announces first.
pub fn create_global_transfer_manifest(files: u32, dirs: u32, desc: Option<String>) -> (r:
    GlobalTransferManifest)
    ensures
        r.total_files == files,
        r.total_directories == dirs,
        r@.description == (match desc {
            Some(d) => Some(d@),
            None => None::<Seq<char>>,
        }),
{
    GlobalTransferManifest { total_files: files, total_directories: dirs, description: desc }
}

// ---------------------------------------------------------------------------
// Counting items
// ---------------------------------------------------------------------------
/// How many file items stand in the list.
pub open spec fn spec_count_files(items: Seq<TransferItem>) -> int
    decreases items.len(),
{
    if items.len() == 0 {
        0
    } else {
        spec_count_files(items.drop_last()) + (if items.last() is File {
            1int
        } else {
            0int
        })
    }
}

/// How many directory items stand in the list.
pub open spec fn spec_count_dirs(items: Seq<TransferItem>) -> int
    decreases items.len(),
{
    if items.len() == 0 {
        0
    } else {
        spec_count_dirs(items.drop_last()) + (if items.last() is Directory {
            1int
        } else {
            0int
        })
    }
}

/// Counts the file and directory items of a planned transfer; together they
/// are the item count the manifest declares.
pub fn count_items(items: &Vec<TransferItem>) -> (r: (u32, u32))
    requires
        items@.len() <= u32::MAX,
    ensures
        r.0 == spec_count_files(items@),
        r.1 == spec_count_dirs(items@),
        r.0 + r.1 == items@.len(),
{
    let mut files: u32 = 0;
    let mut dirs: u32 = 0;
    let mut i: usize = 0;
    while i < items.len()
        invariant
            0 <= i <= items@.len(),
            items@.len() <= u32::MAX,
            files == spec_count_files(items@.take(i as int)),
            dirs == spec_count_dirs(items@.take(i as int)),
            files + dirs == i,
        decreases items@.len() - i,
    {
        proof {
            assert(items@.take(i as int + 1).drop_last() =~= items@.take(i as int));
            assert(items@.take(i as int + 1).last() == items@[i as int]);
        }
        match &items[i] {
            TransferItem::File(_) => {
                files = files + 1;
            },
            TransferItem::Directory(_) => {
                dirs = dirs + 1;
            },
        }
        i += 1;
    }
    proof {
        assert(items@.take(items@.len() as int) =~= items@);
    }
    (files, dirs)
}

// ---------------------------------------------------------------------------
// The byte stream of a whole transfer
// ---------------------------------------------------------------------------
/// One item together with its body, as the sender streams it.
pub enum ItemPayload {
    File { meta: FileMetadata, content: Vec<u8> },
    Directory { meta: DirectoryMetadata, entries: Vec<DirEntry> },
}

/// Model of an item with its body.
pub enum ItemPayloadView {
    File { meta: FileMetadataView, content: Seq<u8> },
    Directory { meta: DirectoryMetadataView, entries: Seq<(Seq<char>, Seq<u8>)> },
}

impl View for ItemPayload {
    type V = ItemPayloadView;

    open spec fn view(&self) -> ItemPayloadView {
        match self {
            ItemPayload::File { meta, content } => ItemPayloadView::File {
                meta: meta@,
                content: content@,
            },
            ItemPayload::Directory { meta, entries } => ItemPayloadView::Directory {
                meta: meta@,
                entries: entries_view(entries@),
            },
        }
    }
}

/// The models of a list of items.
pub open spec fn items_view(items: Seq<ItemPayload>) -> Seq<ItemPayloadView> {
    items.map_values(|it: ItemPayload| it@)
}

/// How many file items a payload list holds.
pub open spec fn spec_count_file_payloads(items: Seq<ItemPayloadView>) -> int
    decreases items.len(),
{
    if items.len() == 0 {
        0
    } else {
        spec_count_file_payloads(items.drop_last()) + (if items.last() is File {
            1int
        } else {
            0int
        })
    }
}

/// How many directory items a payload list holds.
pub open spec fn spec_count_dir_payloads(items: Seq<ItemPayloadView>) -> int
    decreases items.len(),
{
    if items.len() == 0 {
        0
    } else {
        spec_count_dir_payloads(items.drop_last()) + (if items.last() is Directory {
            1int
        } else {
            0int
        })
    }
}

/// The manifest declares exactly the items that follow it.
pub open spec fn manifest_matches_items(m: ManifestView, items: Seq<ItemPayloadView>) -> bool {
    &&& m.total_files == spec_count_file_payloads(items)
    &&& m.total_directories == spec_count_dir_payloads(items)
}

/// Every item is a file or a directory: the two counts sum to the length.
pub proof fn lemma_payload_counts_sum(items: Seq<ItemPayloadView>)
    ensures
        spec_count_file_payloads(items) + spec_count_dir_payloads(items) == items.len(),
    decreases items.len(),
{
    if items.len() > 0 {
        lemma_payload_counts_sum(items.drop_last());
    }
}

/// The item can go on the wire: its metadata fits a frame, and its body is
/// exactly what the metadata declares — a file's bytes match its size, a
/// directory's entries match its file list name for name and size for size.
pub open spec fn item_sendable(it: ItemPayloadView) -> bool {
    match it {
        ItemPayloadView::File { meta, content } => {
            &&& file_meta_encodable(meta)
            &&& spec_encode_file_meta(meta).len() <= u32::MAX
            &&& content.len() == meta.file_size
        },
        ItemPayloadView::Directory { meta, entries } => {
            &&& dir_meta_encodable(meta)
            &&& spec_encode_dir_meta(meta).len() <= u32::MAX
            &&& entries.len() == meta.files.len()
            &&& (forall|i: int|
                0 <= i < entries.len() ==> (#[trigger] entries[i]).0 == meta.files[i].filename
                    && entries[i].1.len() == meta.files[i].file_size)
            &&& (forall|i: int|
                0 <= i < entries.len() ==> entry_name_bytes_ok(
                    encode_utf8((#[trigger] entries[i]).0),
                ))
        },
    }
}

/// An item on the wire: its header frame, its metadata frame, its body.
pub open spec fn spec_encode_item(it: ItemPayloadView) -> Seq<u8> {
    match it {
        ItemPayloadView::File { meta, content } => spec_frame(
            spec_encode_header(TransferHeader { kind: ItemKind::File }),
        ) + spec_frame(spec_encode_file_meta(meta)) + content,
        ItemPayloadView::Directory { meta, entries } => spec_frame(
            spec_encode_header(TransferHeader { kind: ItemKind::Directory }),
        ) + spec_frame(spec_encode_dir_meta(meta)) + spec_dir_body(entries),
    }
}

/// The items on the wire, in order.
pub open spec fn spec_encode_items(items: Seq<ItemPayloadView>) -> Seq<u8>
    decreases items.len(),
{
    if items.len() == 0 {
        Seq::empty()
    } else {
        spec_encode_item(items[0]) + spec_encode_items(items.drop_first())
    }
}

pub proof fn lemma_encode_items_push(items: Seq<ItemPayloadView>, it: ItemPayloadView)
    ensures
        spec_encode_items(items.push(it)) == spec_encode_items(items) + spec_encode_item(it),
    decreases items.len(),
{
    if items.len() == 0 {
        assert(items.push(it)[0] == it);
        assert(items.push(it).drop_first() =~= Seq::<ItemPayloadView>::empty());
        assert(spec_encode_items(Seq::<ItemPayloadView>::empty()) == Seq::<u8>::empty());
        assert(spec_encode_items(items.push(it)) == spec_encode_item(it) + Seq::<u8>::empty());
        assert(spec_encode_item(it) + Seq::<u8>::empty() =~= spec_encode_item(it));
        assert(Seq::<u8>::empty() + spec_encode_item(it) =~= spec_encode_item(it));
    } else {
        assert(items.push(it).drop_first() =~= items.drop_first().push(it));
        lemma_encode_items_push(items.drop_first(), it);
        assert(spec_encode_items(items.push(it)) =~= spec_encode_items(items)
            + spec_encode_item(it));
    }
}

/// A whole transfer on the wire: the manifest frame, then every item.
pub open spec fn spec_transfer_stream(m: ManifestView, items: Seq<ItemPayloadView>) -> Seq<
    u8,
> {
    spec_frame(spec_encode_manifest(m)) + spec_encode_items(items)
}

/// Appends one file item's metadata frame and its body: the bytes travel
/// verbatim, with no chunk framing — the receiver knows the exact size from
/// the metadata that precedes them.
pub fn send_file(out: &mut Vec<u8>, meta: &FileMetadata, content: &Vec<u8>)
    requires
        file_meta_encodable(meta@),
        spec_encode_file_meta(meta@).len() <= u32::MAX,
        content@.len() == meta@.file_size,
    ensures
        final(out)@ == old(out)@ + spec_frame(spec_encode_file_meta(meta@)) + content@,
{
    let encoded = encode_file_meta(meta);
    write_frame(out, &encoded);
    out.extend_from_slice(content.as_slice());
}

/// Appends one directory item's metadata frame and its body: the files, in
/// the metadata's order, as one self-delimiting archive stream, finalized
/// with its end marker but leaving the stream open for further items.
pub fn send_directory(out: &mut Vec<u8>, meta: &DirectoryMetadata, entries: &Vec<DirEntry>)
    requires
        dir_meta_encodable(meta@),
        spec_encode_dir_meta(meta@).len() <= u32::MAX,
        entries_packable(entries@),
    ensures
        final(out)@ == old(out)@ + spec_frame(spec_encode_dir_meta(meta@)) + spec_dir_body(
            entries_view(entries@),
        ),
        forall|rest: Seq<u8>|
            spec_unpack_dir_at(#[trigger] (spec_dir_body(entries_view(entries@)) + rest), 0)
                == Some(
                (entries_view(entries@), spec_dir_body(entries_view(entries@)).len() as int),
            ),
{
    let encoded = encode_dir_meta(meta);
    write_frame(out, &encoded);
    let body = pack_directory(entries);
    out.extend_from_slice(body.as_slice());
    proof {
        assert forall|rest: Seq<u8>|
            spec_unpack_dir_at(#[trigger] (spec_dir_body(entries_view(entries@)) + rest), 0)
                == Some(
                (entries_view(entries@), spec_dir_body(entries_view(entries@)).len() as int),
            ) by {
            assert(spec_dir_body(entries_view(entries@)) + rest == body@ + rest);
        }
    }
}

/// Builds the byte stream of a whole transfer: the manifest frame, then per
/// item its header frame, its metadata frame and its body, in order.
///
/// Transfer round trip: when the manifest declares exactly the items that
/// follow, receiving this stream yields back the manifest, every file's
/// metadata and exact bytes, and every directory's metadata and entries.
#[verifier::rlimit(100)]
pub fn build_transfer_stream(manifest: &GlobalTransferManifest, items: &Vec<ItemPayload>) -> (r:
    Vec<u8>)
    requires
        manifest_encodable(manifest@),
        spec_encode_manifest(manifest@).len() <= u32::MAX,
        forall|i: int| 0 <= i < items@.len() ==> item_sendable(#[trigger] items_view(items@)[i]),
    ensures
        r@ == spec_transfer_stream(manifest@, items_view(items@)),
        manifest_matches_items(manifest@, items_view(items@))
            ==> crate::receiver::spec_receive_transfer(r@) == Some(
            (manifest@, items_view(items@)),
        ),
{
    let mut out: Vec<u8> = Vec::new();
    let encoded = encode_manifest(manifest);
    write_frame(&mut out, &encoded);
    proof {
        assert(out@ =~= spec_frame(spec_encode_manifest(manifest@)));
    }
    let ghost base = out@;
    let ghost views = items_view(items@);
    proof {
        assert(views.take(0) =~= Seq::<ItemPayloadView>::empty());
    }
    let mut i: usize = 0;
    while i < items.len()
        invariant
            0 <= i <= items@.len(),
            views == items_view(items@),
            views.len() == items@.len(),
            forall|j: int| 0 <= j < items@.len() ==> item_sendable(#[trigger] views[j]),
            base == spec_frame(spec_encode_manifest(manifest@)),
            out@ == base + spec_encode_items(views.take(i as int)),
            forall|rest: Seq<u8>|
                crate::receiver::spec_parse_items(
                    #[trigger] (out@ + rest),
                    base.len() as int,
                    i as int,
                ) == Some((views.take(i as int), out@.len() as int)),
        decreases items@.len() - i,
    {
        proof {
            assert(views[i as int] == items@[i as int]@);
        }
        let ghost before = out@;
        match &items[i] {
            ItemPayload::File { meta, content } => {
                let header = encode_header(&TransferHeader { kind: ItemKind::File });
                write_frame(&mut out, &header);
                send_file(&mut out, meta, content);
            },
            ItemPayload::Directory { meta, entries } => {
                proof {
                    assert(entries_view(entries@) == views[i as int]->Directory_entries);
                    assert forall|k: int|
                        0 <= k < entries@.len() implies entry_name_bytes_ok(
                        encode_utf8(#[trigger] entries@[k].name@),
                    ) by {
                        assert(entries_view(entries@)[k].0 == entries@[k].name@);
                    }
                }
                let header = encode_header(&TransferHeader { kind: ItemKind::Directory });
                write_frame(&mut out, &header);
                send_directory(&mut out, meta, entries);
            },
        }
        proof {
            assert(out@ =~= before + spec_encode_item(views[i as int]));
            lemma_encode_items_push(views.take(i as int), views[i as int]);
            assert(views.take(i as int).push(views[i as int]) =~= views.take(i as int + 1));
            assert(out@ =~= base + spec_encode_items(views.take(i as int + 1)));
            crate::receiver::lemma_stream_extend(
                before,
                base.len() as int,
                i as int,
                views,
                views[i as int],
            );
            assert forall|rest: Seq<u8>|
                crate::receiver::spec_parse_items(
                    #[trigger] (out@ + rest),
                    base.len() as int,
                    i as int + 1,
                ) == Some((views.take(i as int + 1), out@.len() as int)) by {
                assert(out@ + rest == (before + spec_encode_item(views[i as int])) + rest);
            }
        }
        i += 1;
    }
    proof {
        assert(views.take(items@.len() as int) =~= views);
        assert(out@ =~= spec_transfer_stream(manifest@, views));
        if manifest_matches_items(manifest@, views) {
            lemma_payload_counts_sum(views);
            assert(out@.subrange(0, base.len() as int) =~= spec_frame(
                spec_encode_manifest(manifest@),
            ));
            crate::frame::lemma_read_frame_at(out@, 0, spec_encode_manifest(manifest@));
            crate::codec::lemma_manifest_round_trip(manifest@);
            assert(out@ + Seq::<u8>::empty() =~= out@);
            assert(crate::receiver::spec_parse_items(
                out@ + Seq::<u8>::empty(),
                base.len() as int,
                views.len() as int,
            ) == Some((views, out@.len() as int)));
            assert(manifest@.total_files + manifest@.total_directories == views.len());
            assert(crate::receiver::spec_receive_transfer(out@) == Some((manifest@, views)));
        }
    }
    out
}

} // verus!
