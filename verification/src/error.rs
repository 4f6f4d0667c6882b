//! The single error taxonomy surfaced to callers of the transfer engine.

use vstd::prelude::*;

verus! {

/// Why a flash-transfer operation failed.  Every failure is immediately fatal
/// to the operation in progress: nothing is retried internally, and the caller
/// must re-establish the connection and restart from the beginning.
#[derive(Clone, Copy, Debug, PartialEq, Eq, Structural)]
pub enum FlashError {
    /// The serial transport failed to write or read.
    Transport,
    /// A command was not acknowledged within its timeout budget.
    Timeout,
    /// The device reported a non-success status in a response.
    Device,
    /// The compression or decompression stream reported an error.
    Codec,
}

} // verus!
