//! What can go wrong on the control side.

use vstd::prelude::*;

verus! {

/// A failure that is reported to the caller that asked.
#[derive(Debug, Clone, PartialEq, Eq)]
pub enum AudioError {
    /// No group goes by this name.
    NoGroupWithName(String),
    /// No sub-track goes by this name.
    NoTrackWithName(String),
    /// The channel holds as many values as it can; nothing was sent.
    ChannelFull,
    /// The other end of the channel is gone; nothing was sent.
    ChannelDisconnected,
}

/// What an operation on the control side gives back.
pub type AudioResult<T> = Result<T, AudioError>;

} // verus!
