//! Error taxonomy of the networking core.

use vstd::prelude::*;

verus! {

/// Errors surfaced to users of the networking core.
///
/// Every I/O failure inside a channel is collapsed into `ChannelStopped`
/// for external observers; the detailed cause is not propagated.
#[derive(Clone, Copy, Debug, PartialEq, Eq, Structural)]
pub enum NetError {
    /// The channel is no longer usable: returned for sends after stop and
    /// broadcast to all subscribers on teardown.
    ChannelStopped,
    /// A higher-level precondition was violated (for example, seeding is
    /// required but no seeds are configured).
    OperationFailed,
    /// Synthetic outcome handed to a task's completion handler when the
    /// task was cancelled rather than finishing on its own.
    ServiceStopped,
}

/// Failures reported by the message encoding/decoding collaborator when it
/// reads from or writes to a stream half.  The core classifies them only
/// into "clean end of stream" and "anything else".
#[derive(Clone, Copy, Debug, PartialEq, Eq, Structural)]
pub enum CodecError {
    /// The stream ended cleanly: the peer disconnected.
    UnexpectedEof,
    /// Any other I/O failure.
    Io,
    /// The bytes on the wire did not form a valid message.
    Malformed,
}

} // verus!
