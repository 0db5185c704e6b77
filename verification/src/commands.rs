//! The command-line actions a user can ask for.
//!
//! The argument parsing and the dispatch that runs an action live outside
//! the library; the actions themselves are plain data.

use vstd::prelude::*;

verus! {

/// One invocation's action.
pub enum Commands {
    /// Send the file at this path.
    Send { file: String },
    /// Wait for an incoming transfer.
    Receive,
}

} // verus!
