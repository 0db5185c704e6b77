use hiverra_portal::archive::{entries_valid, entry_name_valid, pack_directory,
    receive_directory, DirEntry};
use hiverra_portal::errors::TransferError;
use hiverra_portal::frame::read_frame;
use hiverra_portal::metadata::{DirectoryMetadata, FileMetadata, GlobalTransferManifest};
use hiverra_portal::receiver::receive_transfer;
use hiverra_portal::sender::{build_transfer_stream, ItemPayload};
use hiverra_portal::session::{ReceiverAction, ReceiverEvent, ReceiverSession};

/// Everything a receive session reproduced, in arrival order.
struct Received {
    files: Vec<(String, Vec<u8>)>,
    dirs: Vec<(String, Vec<(String, Vec<u8>)>)>,
    headers: u64,
}

/// Drives a receive session over an in-memory stream, the way the network
/// loop does: each action of the session is performed on the buffer and the
/// outcome handed back as an event.
fn drive_receiver(stream: &Vec<u8>) -> Result<Received, TransferError> {
    let mut session = ReceiverSession::new();
    let mut pos: usize = 0;
    let mut action = ReceiverAction::ReadFrame;
    let mut current_file: Option<(String, Vec<u8>)> = None;
    let mut files: Vec<(String, Vec<u8>)> = Vec::new();
    let mut dirs: Vec<(String, Vec<(String, Vec<u8>)>)> = Vec::new();
    loop {
        action = match action {
            ReceiverAction::ReadFrame => match read_frame(stream, pos) {
                Ok((payload, next)) => {
                    pos = next;
                    session.step(ReceiverEvent::Frame(payload))
                }
                Err(_) => session.step(ReceiverEvent::Closed),
            },
            ReceiverAction::BeginFile(meta) => {
                current_file = Some((meta.filename.clone(), Vec::new()));
                session.step(ReceiverEvent::FileReady)
            }
            ReceiverAction::ReadFileBody { max } => {
                let avail = stream.len() - pos;
                let take = std::cmp::min(max as usize, avail);
                if take == 0 {
                    session.step(ReceiverEvent::Closed)
                } else {
                    let (_, buf) = current_file.as_mut().expect("a file is open");
                    buf.extend_from_slice(&stream[pos..pos + take]);
                    pos += take;
                    session.step(ReceiverEvent::BodyBytes(take))
                }
            }
            ReceiverAction::ReadDirectoryBody(meta) => match receive_directory(stream, pos) {
                Ok((entries, next)) => {
                    pos = next;
                    dirs.push((
                        meta.dirname.clone(),
                        entries.into_iter().map(|e| (e.name, e.content)).collect(),
                    ));
                    session.step(ReceiverEvent::DirectoryDone)
                }
                Err(_) => session.step(ReceiverEvent::DirectoryFailed),
            },
            ReceiverAction::Finished => {
                return Ok(Received { files, dirs, headers: session.headers_read });
            }
            ReceiverAction::Abort(e) => return Err(e),
        };
        if !matches!(action, ReceiverAction::ReadFileBody { .. }) {
            if let Some(done) = current_file.take() {
                files.push(done);
            }
        }
    }
}

fn patterned(n: usize) -> Vec<u8> {
    (0..n).map(|i| (i % 239) as u8).collect()
}

fn one_file_stream(name: &str, content: &[u8]) -> Vec<u8> {
    let manifest = GlobalTransferManifest {
        total_files: 1,
        total_directories: 0,
        description: None,
    };
    let items = vec![ItemPayload::File {
        meta: FileMetadata { filename: name.to_string(), file_size: content.len() as u64 },
        content: content.to_vec(),
    }];
    build_transfer_stream(&manifest, &items)
}

#[test]
fn file_transfer_is_byte_exact_across_sizes() {
    for n in [0usize, 1, 8191, 8192, 8193, 5_000_000] {
        let content = patterned(n);
        let stream = one_file_stream("data.bin", &content);
        let got = drive_receiver(&stream).expect("transfer must complete");
        assert_eq!(got.headers, 1);
        assert_eq!(got.files.len(), 1);
        assert_eq!(got.files[0].0, "data.bin");
        assert_eq!(got.files[0].1, content);
        assert!(got.dirs.is_empty());
    }
}

#[test]
fn truncated_file_body_reports_a_failure() {
    let content = patterned(1000);
    let mut stream = one_file_stream("data.bin", &content);
    // the connection closes after only half of the declared bytes
    stream.truncate(stream.len() - 500);
    let outcome = drive_receiver(&stream);
    assert!(matches!(outcome, Err(TransferError::ShortRead)));
}

#[test]
fn directory_body_round_trip_with_mixed_entries() {
    let entries = vec![
        DirEntry { name: "empty.txt".to_string(), content: vec![] },
        DirEntry { name: "sub/deep/inner.bin".to_string(), content: patterned(100_000) },
        DirEntry { name: "a.txt".to_string(), content: b"hello".to_vec() },
    ];
    assert!(entries_valid(&entries));
    let body = pack_directory(&entries);

    // the decoder stops exactly at the body's end, whatever follows
    let mut stream = body.clone();
    stream.extend_from_slice(b"the next item's header follows here");
    let (got, consumed) = receive_directory(&stream, 0).expect("archive must unpack");
    assert_eq!(consumed, body.len());
    assert_eq!(got.len(), entries.len());
    for (g, e) in got.iter().zip(entries.iter()) {
        assert_eq!(g.name, e.name);
        assert_eq!(g.content, e.content);
    }
}

#[test]
fn garbage_is_not_a_directory_body() {
    let noise: Vec<u8> = (0..64u8).collect();
    assert!(matches!(receive_directory(&noise, 0), Err(TransferError::ArchiveFailed)));
}

#[test]
fn entry_names_must_be_clean_relative_paths() {
    for good in ["a.txt", "sub/inner.bin", "deep/er/still.c", ".hidden", "..dots.txt"] {
        assert!(entry_name_valid(&good.to_string()), "{good} should be accepted");
    }
    for bad in ["", "/abs.txt", "a//b", "..", ".", "a/../b", "a/./b", "back\\slash", "dir/"] {
        assert!(!entry_name_valid(&bad.to_string()), "{bad} should be refused");
    }
}

#[test]
fn whole_stream_receive_matches_the_send() {
    let manifest = GlobalTransferManifest {
        total_files: 2,
        total_directories: 1,
        description: None,
    };
    let items = vec![
        ItemPayload::File {
            meta: FileMetadata { filename: "empty.bin".to_string(), file_size: 0 },
            content: vec![],
        },
        ItemPayload::Directory {
            meta: DirectoryMetadata {
                dirname: "d".to_string(),
                total_size: 4,
                files: vec![FileMetadata { filename: "x".to_string(), file_size: 4 }],
            },
            entries: vec![DirEntry { name: "x".to_string(), content: vec![9, 9, 9, 9] }],
        },
        ItemPayload::File {
            meta: FileMetadata { filename: "tail.bin".to_string(), file_size: 3 },
            content: vec![1, 2, 3],
        },
    ];
    let stream = build_transfer_stream(&manifest, &items);
    let (m, got) = receive_transfer(&stream).expect("the stream must read back");
    assert_eq!(m.total_files, 2);
    assert_eq!(m.total_directories, 1);
    assert_eq!(got.len(), 3);
    match &got[0] {
        ItemPayload::File { meta, content } => {
            assert_eq!(meta.filename, "empty.bin");
            assert!(content.is_empty());
        }
        _ => panic!("first item must be a file"),
    }
    match &got[1] {
        ItemPayload::Directory { meta, entries } => {
            assert_eq!(meta.dirname, "d");
            assert_eq!(entries.len(), 1);
            assert_eq!(entries[0].name, "x");
            assert_eq!(entries[0].content, vec![9, 9, 9, 9]);
        }
        _ => panic!("second item must be a directory"),
    }
    match &got[2] {
        ItemPayload::File { meta, content } => {
            assert_eq!(meta.filename, "tail.bin");
            assert_eq!(content, &vec![1, 2, 3]);
        }
        _ => panic!("third item must be a file"),
    }

    // a wrong declared count is a protocol violation, not a transfer
    let short_manifest = GlobalTransferManifest {
        total_files: 1,
        total_directories: 1,
        description: None,
    };
    let bad = build_transfer_stream(&short_manifest, &items);
    assert!(receive_transfer(&bad).is_err());
}

#[test]
fn end_to_end_scenario_one_file_one_directory() {
    let report = patterned(1000);
    let note_a = patterned(10);
    let note_b = patterned(20);
    let manifest = GlobalTransferManifest {
        total_files: 1,
        total_directories: 1,
        description: Some("two items".to_string()),
    };
    let items = vec![
        ItemPayload::File {
            meta: FileMetadata { filename: "report.pdf".to_string(), file_size: 1000 },
            content: report.clone(),
        },
        ItemPayload::Directory {
            meta: DirectoryMetadata {
                dirname: "notes".to_string(),
                total_size: 30,
                files: vec![
                    FileMetadata { filename: "first.txt".to_string(), file_size: 10 },
                    FileMetadata { filename: "inner/second.txt".to_string(), file_size: 20 },
                ],
            },
            entries: vec![
                DirEntry { name: "first.txt".to_string(), content: note_a.clone() },
                DirEntry { name: "inner/second.txt".to_string(), content: note_b.clone() },
            ],
        },
    ];
    let stream = build_transfer_stream(&manifest, &items);
    let got = drive_receiver(&stream).expect("transfer must complete");

    assert_eq!(got.headers, 2);
    assert_eq!(got.files.len(), 1);
    assert_eq!(got.files[0].0, "report.pdf");
    assert_eq!(got.files[0].1, report);
    assert_eq!(got.dirs.len(), 1);
    assert_eq!(got.dirs[0].0, "notes");
    let notes = &got.dirs[0].1;
    assert_eq!(notes.len(), 2);
    assert_eq!(notes[0], ("first.txt".to_string(), note_a));
    assert_eq!(notes[1], ("inner/second.txt".to_string(), note_b));
}
