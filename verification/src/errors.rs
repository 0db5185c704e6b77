//! Error taxonomy of the transfer core.
//!
//! Every failure a protocol function can report is a variant here, so a
//! caller can tell which phase of a session went wrong.

use vstd::prelude::*;
use vstd::string::StringExecFns;

verus! {

/// A failure of a transfer session, from the local precondition checks up to
/// the per-item streaming loop.
#[derive(Clone, Copy, Debug, PartialEq, Eq, Structural)]
pub enum TransferError {
    /// A requested path does not exist on the sending side.
    TargetMissing,
    /// A directory was requested without recursive mode enabled.
    DirectoryNeedsRecursive,
    /// Discovery found no matching receiver within the caller's timeout.
    DiscoveryTimeout,
    /// The handshake-claimed session id differs from the discovery-learned id.
    IdentityMismatch,
    /// A framed message or a declared body ended before its exact byte count.
    ShortRead,
    /// A frame's payload did not decode as the expected message.
    MalformedMessage,
    /// A message arrived in a phase where the protocol does not allow it.
    ProtocolViolation,
    /// A size or count in a message does not fit the machine's limits.
    SizeOverflow,
    /// A directory body did not decode as a complete archive stream.
    ArchiveFailed,
}

/// A failure of the configuration's key lookup or update.
#[derive(Clone, Copy, Debug, PartialEq, Eq, Structural)]
pub enum ConfigError {
    /// The key is not of the form `section.field`.
    InvalidKeyFormat,
    /// The section is none of `user`, `network`, `storage`.
    UnknownSection,
    /// The field does not exist in its section.
    UnknownField,
    /// The port value is not a decimal number a port can hold.
    InvalidPort,
    /// The field has no value yet.
    NotSet,
}

impl ConfigError {
    /// A short human-readable account of the failure.
    pub fn describe(&self) -> (r: String)
        ensures
            r@.len() > 0,
    {
        let r = match self {
            ConfigError::InvalidKeyFormat => "invalid format, use section.field",
            ConfigError::UnknownSection => "unknown section",
            ConfigError::UnknownField => "unknown field",
            ConfigError::InvalidPort => "the port must be a number",
            ConfigError::NotSet => "not set",
        };
        proof {
            reveal_strlit("invalid format, use section.field");
            reveal_strlit("unknown section");
            reveal_strlit("unknown field");
            reveal_strlit("the port must be a number");
            reveal_strlit("not set");
        }
        String::from_str(r)
    }
}

impl TransferError {
    /// A short human-readable account of the failure, naming the phase.
    pub fn describe(&self) -> (r: String)
        ensures
            r@.len() > 0,
    {
        let r = match self {
            TransferError::TargetMissing => "a requested file or directory does not exist",
            TransferError::DirectoryNeedsRecursive => "a directory was requested without recursive mode",
            TransferError::DiscoveryTimeout => "no matching receiver was found before the timeout",
            TransferError::IdentityMismatch => "the claimed session id does not match discovery",
            TransferError::ShortRead => "the connection closed before an exact byte count was read",
            TransferError::MalformedMessage => "a framed message did not decode",
            TransferError::ProtocolViolation => "a message arrived out of protocol order",
            TransferError::SizeOverflow => "a declared size or count exceeds the machine's limits",
            TransferError::ArchiveFailed => "a directory body did not decode as an archive",
        };
        proof {
            reveal_strlit("a requested file or directory does not exist");
            reveal_strlit("a directory was requested without recursive mode");
            reveal_strlit("no matching receiver was found before the timeout");
            reveal_strlit("the claimed session id does not match discovery");
            reveal_strlit("the connection closed before an exact byte count was read");
            reveal_strlit("a framed message did not decode");
            reveal_strlit("a message arrived out of protocol order");
            reveal_strlit("a declared size or count exceeds the machine's limits");
            reveal_strlit("a directory body did not decode as an archive");
        }
        String::from_str(r)
    }
}

} // verus!
