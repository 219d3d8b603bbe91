//! Messages that arrive over a messaging channel.

use vstd::prelude::*;

verus! {

/// One message received on a channel.
#[derive(Debug, Clone)]
pub struct ChannelMessage {
    pub id: String,
    pub sender: String,
    pub content: String,
    pub channel: String,
    /// Seconds since the Unix epoch.
    pub timestamp: u64,
}

} // verus!
