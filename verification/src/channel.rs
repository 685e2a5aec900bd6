use vstd::prelude::*;

verus! {

/// Connection status carried between the relay's threads.
#[derive(Debug, Clone, Copy, PartialEq, Eq, Structural)]
pub enum ChannelMessage {
    Connect,
    Disconnected,
}

impl Default for ChannelMessage {
    /// A channel starts out disconnected.
    fn default() -> (m: ChannelMessage)
        ensures
            m == ChannelMessage::Disconnected,
    {
        ChannelMessage::Disconnected
    }
}

} // verus!
