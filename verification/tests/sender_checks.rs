use hiverra_portal::errors::TransferError;
use hiverra_portal::metadata::{DirectoryMetadata, FileMetadata, GlobalTransferManifest,
    TransferItem};
use hiverra_portal::sender::{build_transfer_stream, check_send_targets, count_items,
    create_directory_metadata, create_file_metadata, create_global_transfer_manifest, send_file,
    ItemPayload, SendTarget};

#[test]
fn targets_must_exist() {
    let targets = vec![
        SendTarget { path_exists: true, is_directory: false },
        SendTarget { path_exists: false, is_directory: false },
    ];
    let outcome = check_send_targets(&targets, false);
    assert!(matches!(outcome, Err((1, TransferError::TargetMissing))));
}

#[test]
fn directories_need_recursive_mode() {
    let targets = vec![SendTarget { path_exists: true, is_directory: true }];
    assert!(matches!(
        check_send_targets(&targets, false),
        Err((0, TransferError::DirectoryNeedsRecursive))
    ));
    assert!(check_send_targets(&targets, true).is_ok());
    assert!(check_send_targets(&Vec::new(), false).is_ok());
}

#[test]
fn item_counts_match_the_plan() {
    let items = vec![
        TransferItem::File(FileMetadata { filename: "a".to_string(), file_size: 1 }),
        TransferItem::Directory(DirectoryMetadata {
            dirname: "d".to_string(),
            total_size: 0,
            files: vec![],
        }),
        TransferItem::File(FileMetadata { filename: "b".to_string(), file_size: 2 }),
    ];
    let (files, dirs) = count_items(&items);
    assert_eq!(files, 2);
    assert_eq!(dirs, 1);

    let (files, dirs) = count_items(&Vec::new());
    assert_eq!((files, dirs), (0, 0));
}

#[test]
fn directory_metadata_sums_the_sizes() {
    let files = vec![
        FileMetadata { filename: "a".to_string(), file_size: 10 },
        FileMetadata { filename: "b".to_string(), file_size: 20 },
        FileMetadata { filename: "c".to_string(), file_size: 0 },
    ];
    let meta = create_directory_metadata("dir".to_string(), files).expect("sum fits");
    assert_eq!(meta.dirname, "dir");
    assert_eq!(meta.total_size, 30);
    assert_eq!(meta.files.len(), 3);
}

#[test]
fn directory_metadata_refuses_an_overflowing_sum() {
    let files = vec![
        FileMetadata { filename: "a".to_string(), file_size: u64::MAX },
        FileMetadata { filename: "b".to_string(), file_size: 1 },
    ];
    let outcome = create_directory_metadata("dir".to_string(), files);
    assert!(matches!(outcome, Err(TransferError::SizeOverflow)));
}

#[test]
fn metadata_builders_keep_their_inputs() {
    let meta = create_file_metadata("report.pdf".to_string(), 1000);
    assert_eq!(meta.filename, "report.pdf");
    assert_eq!(meta.file_size, 1000);

    let manifest = create_global_transfer_manifest(2, 1, Some("note".to_string()));
    assert_eq!(manifest.total_files, 2);
    assert_eq!(manifest.total_directories, 1);
    assert_eq!(manifest.description.as_deref(), Some("note"));
}

#[test]
fn file_items_travel_with_no_chunk_framing() {
    let meta = FileMetadata { filename: "x".to_string(), file_size: 3 };
    let content = vec![7u8, 8, 9];
    let mut out: Vec<u8> = Vec::new();
    send_file(&mut out, &meta, &content);
    // the metadata frame, then the body verbatim: the last bytes are the file
    assert_eq!(&out[out.len() - 3..], &[7, 8, 9]);
    let meta_frame_len = out.len() - 3;
    assert_eq!(&out[0..4], &[0u8, 0, 0, (meta_frame_len - 4) as u8]);
}

#[test]
fn transfer_stream_opens_with_the_manifest_frame() {
    let manifest = GlobalTransferManifest {
        total_files: 1,
        total_directories: 0,
        description: None,
    };
    let items = vec![ItemPayload::File {
        meta: FileMetadata { filename: "x".to_string(), file_size: 1 },
        content: vec![0xab],
    }];
    let stream = build_transfer_stream(&manifest, &items);
    let manifest_bytes = hiverra_portal::codec::encode_manifest(&manifest);
    assert_eq!(&stream[0..4], &[0u8, 0, 0, manifest_bytes.len() as u8]);
    assert_eq!(&stream[4..4 + manifest_bytes.len()], &manifest_bytes[..]);
    // header frame of the one file item: length 1, kind byte 0
    let h = 4 + manifest_bytes.len();
    assert_eq!(&stream[h..h + 5], &[0u8, 0, 0, 1, 0]);
    // the stream ends with the file's byte
    assert_eq!(stream[stream.len() - 1], 0xab);
}
