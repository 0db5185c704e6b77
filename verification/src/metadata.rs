//! The structured messages of the transfer protocol.
//!
//! A transfer opens with one [`GlobalTransferManifest`], then carries, per
//! item, one [`TransferHeader`] and one [`FileMetadata`] or
//! [`DirectoryMetadata`], each as one frame. The views below are the
//! mathematical models the wire codec's contracts speak of.

use vstd::prelude::*;

verus! {

/// The sender's upfront declaration of how many items, of what kinds, follow.
pub struct GlobalTransferManifest {
    pub total_files: u32,
    pub total_directories: u32,
    pub description: Option<String>,
}

/// Model of a manifest: counts and the description's characters.
pub struct ManifestView {
    pub total_files: u32,
    pub total_directories: u32,
    pub description: Option<Seq<char>>,
}

impl View for GlobalTransferManifest {
    type V = ManifestView;

    open spec fn view(&self) -> ManifestView {
        ManifestView {
            total_files: self.total_files,
            total_directories: self.total_directories,
            description: match self.description {
                Some(d) => Some(d@),
                None => None,
            },
        }
    }
}

/// One file item: its relative name and its exact size in bytes.
pub struct FileMetadata {
    pub filename: String,
    pub file_size: u64,
}

/// Model of a file's metadata.
pub struct FileMetadataView {
    pub filename: Seq<char>,
    pub file_size: u64,
}

impl View for FileMetadata {
    type V = FileMetadataView;

    open spec fn view(&self) -> FileMetadataView {
        FileMetadataView { filename: self.filename@, file_size: self.file_size }
    }
}

impl Clone for FileMetadata {
    fn clone(&self) -> (r: Self)
        ensures
            r@ == self@,
    {
        FileMetadata { filename: self.filename.clone(), file_size: self.file_size }
    }
}

/// One directory item: its name, the total size of its files, and the fixed
/// list of every regular file under it, with paths relative to its root.
pub struct DirectoryMetadata {
    pub dirname: String,
    pub total_size: u64,
    pub files: Vec<FileMetadata>,
}

/// Model of a directory's metadata.
pub struct DirectoryMetadataView {
    pub dirname: Seq<char>,
    pub total_size: u64,
    pub files: Seq<FileMetadataView>,
}

impl View for DirectoryMetadata {
    type V = DirectoryMetadataView;

    open spec fn view(&self) -> DirectoryMetadataView {
        DirectoryMetadataView {
            dirname: self.dirname@,
            total_size: self.total_size,
            files: self.files@.map_values(|f: FileMetadata| f@),
        }
    }
}

/// The kind of the item that follows a header.
#[derive(Clone, Copy, Debug, PartialEq, Eq, Structural)]
pub enum ItemKind {
    File,
    Directory,
}

/// One item of a transfer, as the sender plans it.
pub enum TransferItem {
    File(FileMetadata),
    Directory(DirectoryMetadata),
}

/// Model of a planned item.
pub enum TransferItemView {
    File(FileMetadataView),
    Directory(DirectoryMetadataView),
}

impl View for TransferItem {
    type V = TransferItemView;

    open spec fn view(&self) -> TransferItemView {
        match self {
            TransferItem::File(m) => TransferItemView::File(m@),
            TransferItem::Directory(d) => TransferItemView::Directory(d@),
        }
    }
}

/// The per-item header: the kind of the item whose metadata and body follow.
#[derive(Clone, Copy, Debug, PartialEq, Eq, Structural)]
pub struct TransferHeader {
    pub kind: ItemKind,
}

} // verus!
