//! The receiver's per-item session state machine.
//!
//! The receiver drives one connection through: manifest, then per item one
//! header frame, one metadata frame and one body, until exactly
//! `total_files + total_directories` items arrived. The machine holds the
//! protocol decisions; its driver performs the reads and writes and hands
//! each outcome back as a [`ReceiverEvent`]. Every short read, undecodable
//! frame or out-of-order event fails the whole transfer: there is no
//! skip-and-continue across items.

use vstd::prelude::*;

use crate::codec::{decode_dir_meta, decode_file_meta, decode_header, decode_manifest,
    spec_decode_dir_meta, spec_decode_file_meta, spec_decode_header, spec_decode_manifest};
use crate::errors::TransferError;
use crate::metadata::{DirectoryMetadata, DirectoryMetadataView, FileMetadata, FileMetadataView,
    ItemKind};

verus! {

/// The fixed chunk size of the file body copy loops, in bytes.
pub const BODY_CHUNK_SIZE: u64 = 8192;

/// Where a receive session stands between two events.
#[derive(Clone, Copy, Debug, PartialEq, Eq, Structural)]
pub enum ReceiverPhase {
    /// Waiting for the global manifest frame.
    AwaitManifest,
    /// Waiting for the next item's header frame.
    AwaitHeader,
    /// Waiting for a file item's metadata frame.
    AwaitFileMetadata,
    /// Waiting for a directory item's metadata frame.
    AwaitDirectoryMetadata,
    /// Waiting for the driver to create the announced file on disk.
    StartingFile { remaining: u64 },
    /// A file body is streaming; this many bytes are still owed.
    ReceivingFileBody { remaining: u64 },
    /// The archive decoder is consuming a directory body.
    AwaitDirectoryBody,
    /// Every declared item arrived.
    Done,
    /// The transfer failed; the connection is not reused.
    Failed,
}

/// What the connection or the disk produced, handed in by the driver.
pub enum ReceiverEvent {
    /// One complete frame payload arrived.
    Frame(Vec<u8>),
    /// The announced file exists on disk and can take bytes.
    FileReady,
    /// This many body bytes arrived and were written to the open file.
    BodyBytes(usize),
    /// The archive decoder finished a directory body cleanly.
    DirectoryDone,
    /// The archive decoder failed before its end marker.
    DirectoryFailed,
    /// The connection closed.
    Closed,
}

/// Model of an event.
pub enum ReceiverEventView {
    Frame(Seq<u8>),
    FileReady,
    BodyBytes(usize),
    DirectoryDone,
    DirectoryFailed,
    Closed,
}

impl View for ReceiverEvent {
    type V = ReceiverEventView;

    open spec fn view(&self) -> ReceiverEventView {
        match self {
            ReceiverEvent::Frame(p) => ReceiverEventView::Frame(p@),
            ReceiverEvent::FileReady => ReceiverEventView::FileReady,
            ReceiverEvent::BodyBytes(n) => ReceiverEventView::BodyBytes(*n),
            ReceiverEvent::DirectoryDone => ReceiverEventView::DirectoryDone,
            ReceiverEvent::DirectoryFailed => ReceiverEventView::DirectoryFailed,
            ReceiverEvent::Closed => ReceiverEventView::Closed,
        }
    }
}

/// What the driver must do next.
pub enum ReceiverAction {
    /// Read one frame and hand its payload back.
    ReadFrame,
    /// Create the announced file, then report `FileReady`.
    BeginFile(FileMetadata),
    /// Read up to `max` body bytes, write them to the open file, and report
    /// the count; report `Closed` when the connection yields nothing.
    ReadFileBody { max: u64 },
    /// Run the archive decoder for this directory, then report its outcome.
    ReadDirectoryBody(DirectoryMetadata),
    /// The transfer is complete.
    Finished,
    /// The transfer failed for this reason; close the connection.
    Abort(TransferError),
}

/// Model of an action.
pub enum ReceiverActionView {
    ReadFrame,
    BeginFile(FileMetadataView),
    ReadFileBody { max: u64 },
    ReadDirectoryBody(DirectoryMetadataView),
    Finished,
    Abort(TransferError),
}

impl View for ReceiverAction {
    type V = ReceiverActionView;

    open spec fn view(&self) -> ReceiverActionView {
        match self {
            ReceiverAction::ReadFrame => ReceiverActionView::ReadFrame,
            ReceiverAction::BeginFile(m) => ReceiverActionView::BeginFile(m@),
            ReceiverAction::ReadFileBody { max } => ReceiverActionView::ReadFileBody { max: *max },
            ReceiverAction::ReadDirectoryBody(d) => ReceiverActionView::ReadDirectoryBody(d@),
            ReceiverAction::Finished => ReceiverActionView::Finished,
            ReceiverAction::Abort(e) => ReceiverActionView::Abort(*e),
        }
    }
}

/// One receive session's protocol state.
#[derive(Clone, Copy, Debug, PartialEq, Eq, Structural)]
pub struct ReceiverSession {
    pub phase: ReceiverPhase,
    /// `total_files + total_directories` of the manifest, once it arrived.
    pub total_items: u64,
    /// Items whose body completed.
    pub items_done: u64,
    /// Item headers consumed.
    pub headers_read: u64,
}

impl ReceiverSession {
    /// The session is inside one item: its header is read, its body not done.
    pub open spec fn mid_item(self) -> bool {
        ||| self.phase is AwaitFileMetadata
        ||| self.phase is AwaitDirectoryMetadata
        ||| self.phase is StartingFile
        ||| self.phase is ReceivingFileBody
        ||| self.phase is AwaitDirectoryBody
    }

    /// The session invariant every reachable state satisfies.
    pub open spec fn wf(self) -> bool {
        &&& self.items_done <= self.total_items
        &&& self.headers_read <= self.total_items
        &&& (self.phase is AwaitManifest ==> self.items_done == 0 && self.headers_read == 0
            && self.total_items == 0)
        &&& (self.phase is Done ==> self.items_done == self.total_items && self.headers_read
            == self.total_items)
        &&& (self.phase is AwaitHeader ==> self.headers_read == self.items_done && self.items_done
            < self.total_items)
        &&& (self.mid_item() ==> self.headers_read == self.items_done + 1 && self.items_done
            < self.total_items)
        &&& (self.phase matches ReceiverPhase::ReceivingFileBody { remaining } ==> remaining > 0)
    }
}

/// The state a session starts in, before the manifest frame.
pub open spec fn spec_initial_session() -> ReceiverSession {
    ReceiverSession {
        phase: ReceiverPhase::AwaitManifest,
        total_items: 0,
        items_done: 0,
        headers_read: 0,
    }
}

/// The bytes the driver should ask for next out of a body with `remaining`
/// bytes owed: a full chunk, or the exact tail.
pub open spec fn spec_chunk(remaining: u64) -> u64 {
    if remaining < BODY_CHUNK_SIZE {
        remaining
    } else {
        BODY_CHUNK_SIZE
    }
}

/// The step a session takes when an item's body completes: the item counts
/// as done, and the session either finishes or awaits the next header.
pub open spec fn spec_complete_item(s: ReceiverSession) -> (ReceiverSession, ReceiverActionView)
    recommends
        s.items_done < s.total_items,
{
    let done = (s.items_done + 1) as u64;
    if done == s.total_items {
        (
            ReceiverSession { phase: ReceiverPhase::Done, items_done: done, ..s },
            ReceiverActionView::Finished,
        )
    } else {
        (
            ReceiverSession { phase: ReceiverPhase::AwaitHeader, items_done: done, ..s },
            ReceiverActionView::ReadFrame,
        )
    }
}

/// The step a session takes when the protocol is violated or the connection
/// fails: the whole transfer fails, items after the current one included.
pub open spec fn spec_fail(s: ReceiverSession, e: TransferError) -> (
    ReceiverSession,
    ReceiverActionView,
) {
    (ReceiverSession { phase: ReceiverPhase::Failed, ..s }, ReceiverActionView::Abort(e))
}

/// The complete transition relation of the receive session: one event in,
/// the next state and the driver's next instruction out.
pub open spec fn spec_step(s: ReceiverSession, e: ReceiverEventView) -> (
    ReceiverSession,
    ReceiverActionView,
) {
    match (s.phase, e) {
        (ReceiverPhase::Done, _) => (s, ReceiverActionView::Finished),
        (ReceiverPhase::Failed, _) => (
            s,
            ReceiverActionView::Abort(TransferError::ProtocolViolation),
        ),
        (_, ReceiverEventView::Closed) => spec_fail(s, TransferError::ShortRead),
        (ReceiverPhase::AwaitManifest, ReceiverEventView::Frame(p)) => {
            match spec_decode_manifest(p) {
                Some(m) => {
                    let total = (m.total_files as u64 + m.total_directories as u64) as u64;
                    if total == 0 {
                        (
                            ReceiverSession {
                                phase: ReceiverPhase::Done,
                                total_items: total,
                                items_done: 0,
                                headers_read: 0,
                            },
                            ReceiverActionView::Finished,
                        )
                    } else {
                        (
                            ReceiverSession {
                                phase: ReceiverPhase::AwaitHeader,
                                total_items: total,
                                items_done: 0,
                                headers_read: 0,
                            },
                            ReceiverActionView::ReadFrame,
                        )
                    }
                },
                None => spec_fail(s, TransferError::MalformedMessage),
            }
        },
        (ReceiverPhase::AwaitHeader, ReceiverEventView::Frame(p)) => {
            match spec_decode_header(p) {
                Some(h) => (
                    ReceiverSession {
                        phase: match h.kind {
                            ItemKind::File => ReceiverPhase::AwaitFileMetadata,
                            ItemKind::Directory => ReceiverPhase::AwaitDirectoryMetadata,
                        },
                        headers_read: (s.headers_read + 1) as u64,
                        ..s
                    },
                    ReceiverActionView::ReadFrame,
                ),
                None => spec_fail(s, TransferError::MalformedMessage),
            }
        },
        (ReceiverPhase::AwaitFileMetadata, ReceiverEventView::Frame(p)) => {
            match spec_decode_file_meta(p) {
                Some(m) => (
                    ReceiverSession {
                        phase: ReceiverPhase::StartingFile { remaining: m.file_size },
                        ..s
                    },
                    ReceiverActionView::BeginFile(m),
                ),
                None => spec_fail(s, TransferError::MalformedMessage),
            }
        },
        (ReceiverPhase::StartingFile { remaining }, ReceiverEventView::FileReady) => {
            if remaining == 0 {
                spec_complete_item(s)
            } else {
                (
                    ReceiverSession { phase: ReceiverPhase::ReceivingFileBody { remaining }, ..s },
                    ReceiverActionView::ReadFileBody { max: spec_chunk(remaining) },
                )
            }
        },
        (ReceiverPhase::ReceivingFileBody { remaining }, ReceiverEventView::BodyBytes(n)) => {
            if n == 0 || n as u64 > remaining {
                spec_fail(s, TransferError::ProtocolViolation)
            } else {
                let left = (remaining - n as u64) as u64;
                if left == 0 {
                    spec_complete_item(s)
                } else {
                    (
                        ReceiverSession {
                            phase: ReceiverPhase::ReceivingFileBody { remaining: left },
                            ..s
                        },
                        ReceiverActionView::ReadFileBody { max: spec_chunk(left) },
                    )
                }
            }
        },
        (ReceiverPhase::AwaitDirectoryMetadata, ReceiverEventView::Frame(p)) => {
            match spec_decode_dir_meta(p) {
                Some(d) => (
                    ReceiverSession { phase: ReceiverPhase::AwaitDirectoryBody, ..s },
                    ReceiverActionView::ReadDirectoryBody(d),
                ),
                None => spec_fail(s, TransferError::MalformedMessage),
            }
        },
        (ReceiverPhase::AwaitDirectoryBody, ReceiverEventView::DirectoryDone) => {
            spec_complete_item(s)
        },
        (ReceiverPhase::AwaitDirectoryBody, ReceiverEventView::DirectoryFailed) => {
            spec_fail(s, TransferError::ArchiveFailed)
        },
        _ => spec_fail(s, TransferError::ProtocolViolation),
    }
}

impl ReceiverSession {
    /// A fresh session, waiting for the manifest.
    pub fn new() -> (s: ReceiverSession)
        ensures
            s == spec_initial_session(),
            s.wf(),
    {
        ReceiverSession {
            phase: ReceiverPhase::AwaitManifest,
            total_items: 0,
            items_done: 0,
            headers_read: 0,
        }
    }

    /// Takes one event and decides the next state and the driver's next
    /// instruction, exactly as [`spec_step`] says.
    pub fn step(&mut self, event: ReceiverEvent) -> (action: ReceiverAction)
        requires
            old(self).wf(),
        ensures
            ({
                let (s2, a) = spec_step(*old(self), event@);
                &&& *final(self) == s2
                &&& action@ == a
            }),
            final(self).wf(),
    {
        proof {
            lemma_step_preserves_wf(*old(self), event@);
        }
        let phase = self.phase;
        match (phase, event) {
            (ReceiverPhase::Done, _) => ReceiverAction::Finished,
            (ReceiverPhase::Failed, _) => ReceiverAction::Abort(TransferError::ProtocolViolation),
            (_, ReceiverEvent::Closed) => self.fail(TransferError::ShortRead),
            (ReceiverPhase::AwaitManifest, ReceiverEvent::Frame(p)) => {
                match decode_manifest(&p) {
                    Some(m) => {
                        let total = m.total_files as u64 + m.total_directories as u64;
                        self.total_items = total;
                        self.items_done = 0;
                        self.headers_read = 0;
                        if total == 0 {
                            self.phase = ReceiverPhase::Done;
                            ReceiverAction::Finished
                        } else {
                            self.phase = ReceiverPhase::AwaitHeader;
                            ReceiverAction::ReadFrame
                        }
                    },
                    None => self.fail(TransferError::MalformedMessage),
                }
            },
            (ReceiverPhase::AwaitHeader, ReceiverEvent::Frame(p)) => {
                match decode_header(&p) {
                    Some(h) => {
                        self.phase = match h.kind {
                            ItemKind::File => ReceiverPhase::AwaitFileMetadata,
                            ItemKind::Directory => ReceiverPhase::AwaitDirectoryMetadata,
                        };
                        self.headers_read = self.headers_read + 1;
                        ReceiverAction::ReadFrame
                    },
                    None => self.fail(TransferError::MalformedMessage),
                }
            },
            (ReceiverPhase::AwaitFileMetadata, ReceiverEvent::Frame(p)) => {
                match decode_file_meta(&p) {
                    Some(m) => {
                        self.phase = ReceiverPhase::StartingFile { remaining: m.file_size };
                        ReceiverAction::BeginFile(m)
                    },
                    None => self.fail(TransferError::MalformedMessage),
                }
            },
            (ReceiverPhase::StartingFile { remaining }, ReceiverEvent::FileReady) => {
                if remaining == 0 {
                    self.complete_item()
                } else {
                    self.phase = ReceiverPhase::ReceivingFileBody { remaining };
                    ReceiverAction::ReadFileBody { max: chunk(remaining) }
                }
            },
            (ReceiverPhase::ReceivingFileBody { remaining }, ReceiverEvent::BodyBytes(n)) => {
                if n == 0 || n as u64 > remaining {
                    self.fail(TransferError::ProtocolViolation)
                } else {
                    let left = remaining - n as u64;
                    if left == 0 {
                        self.complete_item()
                    } else {
                        self.phase = ReceiverPhase::ReceivingFileBody { remaining: left };
                        ReceiverAction::ReadFileBody { max: chunk(left) }
                    }
                }
            },
            (ReceiverPhase::AwaitDirectoryMetadata, ReceiverEvent::Frame(p)) => {
                match decode_dir_meta(&p) {
                    Some(d) => {
                        self.phase = ReceiverPhase::AwaitDirectoryBody;
                        ReceiverAction::ReadDirectoryBody(d)
                    },
                    None => self.fail(TransferError::MalformedMessage),
                }
            },
            (ReceiverPhase::AwaitDirectoryBody, ReceiverEvent::DirectoryDone) => {
                self.complete_item()
            },
            (ReceiverPhase::AwaitDirectoryBody, ReceiverEvent::DirectoryFailed) => {
                self.fail(TransferError::ArchiveFailed)
            },
            (_, _) => self.fail(TransferError::ProtocolViolation),
        }
    }

    /// Marks the transfer failed and instructs the driver to abort.
    fn fail(&mut self, e: TransferError) -> (action: ReceiverAction)
        ensures
            ({
                let (s2, a) = spec_fail(*old(self), e);
                &&& *final(self) == s2
                &&& action@ == a
            }),
    {
        self.phase = ReceiverPhase::Failed;
        ReceiverAction::Abort(e)
    }

    /// Counts the current item as done and moves on.
    fn complete_item(&mut self) -> (action: ReceiverAction)
        requires
            old(self).items_done < old(self).total_items,
        ensures
            ({
                let (s2, a) = spec_complete_item(*old(self));
                &&& *final(self) == s2
                &&& action@ == a
            }),
    {
        self.items_done = self.items_done + 1;
        if self.items_done == self.total_items {
            self.phase = ReceiverPhase::Done;
            ReceiverAction::Finished
        } else {
            self.phase = ReceiverPhase::AwaitHeader;
            ReceiverAction::ReadFrame
        }
    }
}

/// The next read out of a body with `remaining` bytes owed.
fn chunk(remaining: u64) -> (r: u64)
    ensures
        r == spec_chunk(remaining),
{
    if remaining < BODY_CHUNK_SIZE {
        remaining
    } else {
        BODY_CHUNK_SIZE
    }
}

/// Every step out of a well-formed session lands in a well-formed session.
pub proof fn lemma_step_preserves_wf(s: ReceiverSession, e: ReceiverEventView)
    requires
        s.wf(),
    ensures
        spec_step(s, e).0.wf(),
{
}

/// Sequential integrity: a well-formed session that reports `Done` has read
/// exactly `total_files + total_directories` item headers and completed
/// exactly that many items, regardless of the items' body sizes.
pub proof fn lemma_sequential_integrity(s: ReceiverSession)
    requires
        s.wf(),
        s.phase is Done,
    ensures
        s.headers_read == s.total_items,
        s.items_done == s.total_items,
{
}

/// Once done, the per-item loop has terminated: no further event changes the
/// session or makes it ask for another read.
pub proof fn lemma_done_stays_done(s: ReceiverSession, e: ReceiverEventView)
    requires
        s.wf(),
        s.phase is Done,
    ensures
        spec_step(s, e).0 == s,
        spec_step(s, e).1 is Finished,
{
}

/// Early hang-up: a connection that closes while a file body still owes
/// bytes fails the transfer; the truncated file never counts as complete.
pub proof fn lemma_early_hangup(s: ReceiverSession)
    requires
        s.wf(),
        s.phase is ReceivingFileBody,
    ensures
        spec_step(s, ReceiverEventView::Closed).0.phase is Failed,
        !(spec_step(s, ReceiverEventView::Closed).0.phase is Done),
        spec_step(s, ReceiverEventView::Closed).1 == ReceiverActionView::Abort(
            TransferError::ShortRead,
        ),
{
}

/// A session's whole run: the state after a driver has fed it these events.
pub open spec fn spec_run(s: ReceiverSession, events: Seq<ReceiverEventView>) -> ReceiverSession
    decreases events.len(),
{
    if events.len() == 0 {
        s
    } else {
        spec_run(spec_step(s, events[0]).0, events.drop_first())
    }
}

/// Runs keep the invariant.
pub proof fn lemma_run_wf(s: ReceiverSession, events: Seq<ReceiverEventView>)
    requires
        s.wf(),
    ensures
        spec_run(s, events).wf(),
    decreases events.len(),
{
    if events.len() > 0 {
        lemma_step_preserves_wf(s, events[0]);
        lemma_run_wf(spec_step(s, events[0]).0, events.drop_first());
    }
}

/// Sequential integrity over any driver: from a fresh session, whatever
/// events the connection produces, a session that reports `Done` has read
/// exactly as many headers as the manifest declared items.
pub proof fn lemma_run_sequential_integrity(events: Seq<ReceiverEventView>)
    ensures
        spec_run(spec_initial_session(), events).wf(),
        spec_run(spec_initial_session(), events).phase is Done ==> spec_run(
            spec_initial_session(),
            events,
        ).headers_read == spec_run(spec_initial_session(), events).total_items,
{
    lemma_run_wf(spec_initial_session(), events);
}

} // verus!
