use hiverra_portal::codec::{encode_file_meta, encode_header, encode_manifest};
use hiverra_portal::errors::TransferError;
use hiverra_portal::metadata::{FileMetadata, GlobalTransferManifest, ItemKind, TransferHeader};
use hiverra_portal::session::{ReceiverAction, ReceiverEvent, ReceiverPhase, ReceiverSession};

fn manifest_frame(files: u32, dirs: u32) -> Vec<u8> {
    encode_manifest(&GlobalTransferManifest {
        total_files: files,
        total_directories: dirs,
        description: None,
    })
}

fn header_frame(kind: ItemKind) -> Vec<u8> {
    encode_header(&TransferHeader { kind })
}

fn file_meta_frame(name: &str, size: u64) -> Vec<u8> {
    encode_file_meta(&FileMetadata { filename: name.to_string(), file_size: size })
}

#[test]
fn receiver_reads_exactly_the_declared_headers() {
    let mut session = ReceiverSession::new();

    let action = session.step(ReceiverEvent::Frame(manifest_frame(2, 0)));
    assert!(matches!(action, ReceiverAction::ReadFrame));
    assert_eq!(session.total_items, 2);

    for done_after in [false, true] {
        let action = session.step(ReceiverEvent::Frame(header_frame(ItemKind::File)));
        assert!(matches!(action, ReceiverAction::ReadFrame));

        let action = session.step(ReceiverEvent::Frame(file_meta_frame("f", 5)));
        assert!(matches!(action, ReceiverAction::BeginFile(_)));

        let action = session.step(ReceiverEvent::FileReady);
        assert!(matches!(action, ReceiverAction::ReadFileBody { max: 5 }));

        let action = session.step(ReceiverEvent::BodyBytes(5));
        if done_after {
            assert!(matches!(action, ReceiverAction::Finished));
        } else {
            assert!(matches!(action, ReceiverAction::ReadFrame));
        }
    }

    assert_eq!(session.phase, ReceiverPhase::Done);
    assert_eq!(session.headers_read, 2);
    assert_eq!(session.items_done, 2);

    // once done, the per-item loop has terminated: no event reads again
    let action = session.step(ReceiverEvent::Frame(header_frame(ItemKind::File)));
    assert!(matches!(action, ReceiverAction::Finished));
    assert_eq!(session.headers_read, 2);
}

#[test]
fn zero_item_manifest_finishes_immediately() {
    let mut session = ReceiverSession::new();
    let action = session.step(ReceiverEvent::Frame(manifest_frame(0, 0)));
    assert!(matches!(action, ReceiverAction::Finished));
    assert_eq!(session.phase, ReceiverPhase::Done);
    assert_eq!(session.headers_read, 0);
}

#[test]
fn early_hangup_fails_the_transfer() {
    let mut session = ReceiverSession::new();
    session.step(ReceiverEvent::Frame(manifest_frame(1, 0)));
    session.step(ReceiverEvent::Frame(header_frame(ItemKind::File)));
    session.step(ReceiverEvent::Frame(file_meta_frame("big", 1000)));
    session.step(ReceiverEvent::FileReady);
    // half the declared bytes arrive, then the peer hangs up
    session.step(ReceiverEvent::BodyBytes(500));
    let action = session.step(ReceiverEvent::Closed);
    assert!(matches!(action, ReceiverAction::Abort(TransferError::ShortRead)));
    assert_eq!(session.phase, ReceiverPhase::Failed);
    assert_ne!(session.phase, ReceiverPhase::Done);
}

#[test]
fn body_chunks_are_capped_at_the_chunk_size() {
    let mut session = ReceiverSession::new();
    session.step(ReceiverEvent::Frame(manifest_frame(1, 0)));
    session.step(ReceiverEvent::Frame(header_frame(ItemKind::File)));
    session.step(ReceiverEvent::Frame(file_meta_frame("big", 8193)));
    let action = session.step(ReceiverEvent::FileReady);
    assert!(matches!(action, ReceiverAction::ReadFileBody { max: 8192 }));
    let action = session.step(ReceiverEvent::BodyBytes(8192));
    assert!(matches!(action, ReceiverAction::ReadFileBody { max: 1 }));
    let action = session.step(ReceiverEvent::BodyBytes(1));
    assert!(matches!(action, ReceiverAction::Finished));
}

#[test]
fn zero_size_file_completes_on_creation() {
    let mut session = ReceiverSession::new();
    session.step(ReceiverEvent::Frame(manifest_frame(1, 0)));
    session.step(ReceiverEvent::Frame(header_frame(ItemKind::File)));
    let action = session.step(ReceiverEvent::Frame(file_meta_frame("empty", 0)));
    assert!(matches!(action, ReceiverAction::BeginFile(_)));
    let action = session.step(ReceiverEvent::FileReady);
    assert!(matches!(action, ReceiverAction::Finished));
    assert_eq!(session.phase, ReceiverPhase::Done);
}

#[test]
fn undecodable_manifest_is_fatal() {
    let mut session = ReceiverSession::new();
    let action = session.step(ReceiverEvent::Frame(vec![9, 9, 9]));
    assert!(matches!(action, ReceiverAction::Abort(TransferError::MalformedMessage)));
    assert_eq!(session.phase, ReceiverPhase::Failed);
}

#[test]
fn out_of_order_event_is_a_protocol_violation() {
    let mut session = ReceiverSession::new();
    let action = session.step(ReceiverEvent::BodyBytes(5));
    assert!(matches!(action, ReceiverAction::Abort(TransferError::ProtocolViolation)));
    assert_eq!(session.phase, ReceiverPhase::Failed);
}

#[test]
fn excess_body_bytes_are_a_protocol_violation() {
    let mut session = ReceiverSession::new();
    session.step(ReceiverEvent::Frame(manifest_frame(1, 0)));
    session.step(ReceiverEvent::Frame(header_frame(ItemKind::File)));
    session.step(ReceiverEvent::Frame(file_meta_frame("f", 3)));
    session.step(ReceiverEvent::FileReady);
    let action = session.step(ReceiverEvent::BodyBytes(4));
    assert!(matches!(action, ReceiverAction::Abort(TransferError::ProtocolViolation)));
}

#[test]
fn failed_archive_decode_is_fatal() {
    let mut session = ReceiverSession::new();
    session.step(ReceiverEvent::Frame(manifest_frame(0, 1)));
    let action = session.step(ReceiverEvent::Frame(header_frame(ItemKind::Directory)));
    assert!(matches!(action, ReceiverAction::ReadFrame));
    let dir_meta = hiverra_portal::codec::encode_dir_meta(
        &hiverra_portal::metadata::DirectoryMetadata {
            dirname: "d".to_string(),
            total_size: 0,
            files: vec![],
        },
    );
    let action = session.step(ReceiverEvent::Frame(dir_meta));
    assert!(matches!(action, ReceiverAction::ReadDirectoryBody(_)));
    let action = session.step(ReceiverEvent::DirectoryFailed);
    assert!(matches!(action, ReceiverAction::Abort(TransferError::ArchiveFailed)));
    assert_eq!(session.phase, ReceiverPhase::Failed);
}
