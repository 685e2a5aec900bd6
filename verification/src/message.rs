//! The messages that the relay's threads exchange.
use vstd::prelude::*;

verus! {

/// From the IPC thread, which listens to baton, to the GUI.
pub enum FromIpcThreadMessage {
    /// A telemetry payload from baton, to be relayed over TCP.
    BatonData(String),
    /// Baton is disconnecting from the relay.
    BatonShutdown,
}

/// From the GUI to the TCP thread, which talks to iMotions.
pub enum ToTcpThreadMessage {
    /// A payload to frame and send.
    Send(String),
}

/// From the TCP thread to the GUI.
pub enum FromTcpThreadMessage {
    /// The connection to iMotions is up.
    Connected,
    /// The connection to iMotions is down, and why.
    Disconnected(String),
    /// A packet of this many bytes was sent.
    Sent(usize),
    /// A send failed, and why.
    SendError(String),
}

} // verus!
