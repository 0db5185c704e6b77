use hiverra_portal::codec::{decode_beacon, decode_dir_meta, decode_file_meta, decode_header,
    decode_manifest, encode_beacon, encode_dir_meta, encode_file_meta, encode_header,
    encode_manifest};
use hiverra_portal::discovery::PortalBeacon;
use hiverra_portal::metadata::{DirectoryMetadata, FileMetadata, GlobalTransferManifest, ItemKind,
    TransferHeader};

#[test]
fn beacon_round_trip() {
    let beacon = PortalBeacon {
        protocol: "portal".to_string(),
        node_id: "4a1c-xyz".to_string(),
        username: "ren\u{e9}e@portal".to_string(),
        port: 7878,
    };
    let bytes = encode_beacon(&beacon);
    let back = decode_beacon(&bytes).expect("beacon must decode");
    assert_eq!(back.protocol, beacon.protocol);
    assert_eq!(back.node_id, beacon.node_id);
    assert_eq!(back.username, beacon.username);
    assert_eq!(back.port, beacon.port);
}

#[test]
fn manifest_round_trip_with_description() {
    let manifest = GlobalTransferManifest {
        total_files: 3,
        total_directories: 2,
        description: Some("holiday photos".to_string()),
    };
    let bytes = encode_manifest(&manifest);
    let back = decode_manifest(&bytes).expect("manifest must decode");
    assert_eq!(back.total_files, 3);
    assert_eq!(back.total_directories, 2);
    assert_eq!(back.description.as_deref(), Some("holiday photos"));
}

#[test]
fn manifest_round_trip_without_description() {
    let manifest = GlobalTransferManifest {
        total_files: 0,
        total_directories: 0,
        description: None,
    };
    let bytes = encode_manifest(&manifest);
    let back = decode_manifest(&bytes).expect("manifest must decode");
    assert_eq!(back.total_files, 0);
    assert_eq!(back.total_directories, 0);
    assert!(back.description.is_none());
}

#[test]
fn header_round_trip_both_kinds() {
    for kind in [ItemKind::File, ItemKind::Directory] {
        let bytes = encode_header(&TransferHeader { kind });
        assert_eq!(bytes.len(), 1);
        let back = decode_header(&bytes).expect("header must decode");
        assert_eq!(back.kind, kind);
    }
}

#[test]
fn file_metadata_round_trip() {
    let meta = FileMetadata { filename: "report.pdf".to_string(), file_size: 1000 };
    let bytes = encode_file_meta(&meta);
    let back = decode_file_meta(&bytes).expect("file metadata must decode");
    assert_eq!(back.filename, "report.pdf");
    assert_eq!(back.file_size, 1000);
}

#[test]
fn directory_metadata_round_trip() {
    let meta = DirectoryMetadata {
        dirname: "notes".to_string(),
        total_size: 30,
        files: vec![
            FileMetadata { filename: "a.txt".to_string(), file_size: 10 },
            FileMetadata { filename: "sub/b.txt".to_string(), file_size: 20 },
        ],
    };
    let bytes = encode_dir_meta(&meta);
    let back = decode_dir_meta(&bytes).expect("directory metadata must decode");
    assert_eq!(back.dirname, "notes");
    assert_eq!(back.total_size, 30);
    assert_eq!(back.files.len(), 2);
    assert_eq!(back.files[0].filename, "a.txt");
    assert_eq!(back.files[0].file_size, 10);
    assert_eq!(back.files[1].filename, "sub/b.txt");
    assert_eq!(back.files[1].file_size, 20);
}

#[test]
fn directory_metadata_round_trip_empty_list() {
    let meta = DirectoryMetadata { dirname: "empty".to_string(), total_size: 0, files: vec![] };
    let bytes = encode_dir_meta(&meta);
    let back = decode_dir_meta(&bytes).expect("directory metadata must decode");
    assert_eq!(back.dirname, "empty");
    assert_eq!(back.files.len(), 0);
}

#[test]
fn malformed_frames_are_rejected() {
    assert!(decode_manifest(&vec![1u8, 2, 3]).is_none());
    assert!(decode_header(&vec![2u8]).is_none());
    assert!(decode_header(&vec![0u8, 0]).is_none());
    assert!(decode_file_meta(&vec![0u8; 3]).is_none());
    assert!(decode_dir_meta(&vec![0xffu8; 9]).is_none());
    assert!(decode_beacon(&Vec::new()).is_none());
    // invalid UTF-8 inside a string field
    let bad_string = vec![0u8, 0, 0, 1, 0xff];
    assert!(decode_beacon(&bad_string).is_none());
}

#[test]
fn trailing_bytes_are_rejected() {
    let manifest = GlobalTransferManifest {
        total_files: 1,
        total_directories: 0,
        description: None,
    };
    let mut bytes = encode_manifest(&manifest);
    bytes.push(0);
    assert!(decode_manifest(&bytes).is_none());

    let meta = FileMetadata { filename: "x".to_string(), file_size: 1 };
    let mut fbytes = encode_file_meta(&meta);
    fbytes.push(7);
    assert!(decode_file_meta(&fbytes).is_none());
}
