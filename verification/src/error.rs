//! The failures that the synchronisation core reports to its host.

use vstd::prelude::*;
use crate::state::FrameNumber;

verus! {

/// A failure of the synchronisation core. Every one of them is fatal for the
/// session, except `PeerUnavailable`, after which polling may go on.
#[derive(Clone, Copy, Debug, PartialEq, Eq, Structural)]
pub enum SyncError {
    /// The session was configured for a number of players other than two or
    /// for an input delay beyond the limit. The fields repeat what was asked
    /// for.
    ConfigurationError { num_players: usize, input_delay: u32 },
    /// Matchmaking timed out before the required peers were present.
    PeerUnavailable,
    /// The peers disagree on the checksum of a confirmed frame.
    DesyncDetected { frame: FrameNumber },
    /// A frame was asked for whose snapshot is not retained.
    SnapshotMiss { frame: FrameNumber },
    /// The connection to the peer was lost during the session.
    PeerDisconnected,
}

} // verus!
