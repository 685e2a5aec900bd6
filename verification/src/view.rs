//! The texts that the relay's window shows.
use vstd::prelude::*;
use vstd::string::StringExecFns;

verus! {

pub open spec fn baton_connection_text(active: bool) -> Seq<char> {
    if active {
        ":) Baton Connected!"@
    } else {
        ":( No Baton Connection"@
    }
}

pub open spec fn baton_data_text(latest: Option<Seq<char>>) -> Seq<char> {
    match latest {
        Some(data) => "[BATON]: "@ + data,
        None => "No data from baton."@,
    }
}

pub open spec fn tcp_status_text(connected: bool) -> Seq<char> {
    "TCP Connection Status: "@ + (if connected {
        "true"@
    } else {
        "false"@
    })
}

pub open spec fn tcp_validation_text(error: Option<Seq<char>>) -> Seq<char> {
    match error {
        Some(e) => e,
        None => " "@,
    }
}

pub open spec fn error_banner_text(error: Seq<char>) -> Seq<char> {
    "⚠️ "@ + error
}

pub open spec fn send_packet_text(active: bool) -> Seq<char> {
    if active {
        "Send Packet"@
    } else {
        "Send Packet (No Baton Connection)"@
    }
}

/// Whether baton is connected, as the window says it.
pub fn baton_connection_label(active: bool) -> (s: String)
    ensures
        s@ == baton_connection_text(active),
{
    if active {
        String::from_str(":) Baton Connected!")
    } else {
        String::from_str(":( No Baton Connection")
    }
}

/// The last payload from baton, as the window shows it.
pub fn baton_data_label(latest: &Option<String>) -> (s: String)
    ensures
        s@ == baton_data_text(
            match latest {
                Some(d) => Some(d@),
                None => None,
            },
        ),
{
    match latest {
        Some(data) => {
            let mut s = String::from_str("[BATON]: ");
            s.append(data.as_str());
            s
        },
        None => String::from_str("No data from baton."),
    }
}

/// The state of the TCP link, as the window shows it.
pub fn tcp_status_label(connected: bool) -> (s: String)
    ensures
        s@ == tcp_status_text(connected),
{
    let mut s = String::from_str("TCP Connection Status: ");
    if connected {
        s.append("true");
    } else {
        s.append("false");
    }
    s
}

/// The refusal of the address field, or a blank that keeps its place.
pub fn tcp_validation_label(error: &Option<String>) -> (s: String)
    ensures
        s@ == tcp_validation_text(
            match error {
                Some(e) => Some(e@),
                None => None,
            },
        ),
{
    match error {
        Some(e) => e.clone(),
        None => String::from_str(" "),
    }
}

/// The banner that shows an error.
pub fn error_banner_label(error: &str) -> (s: String)
    ensures
        s@ == error_banner_text(error@),
{
    let mut s = String::from_str("⚠️ ");
    s.append(error);
    s
}

/// The send button's caption; the button works only while baton is
/// connected.
pub fn send_packet_label(active: bool) -> (s: String)
    ensures
        s@ == send_packet_text(active),
{
    if active {
        String::from_str("Send Packet")
    } else {
        String::from_str("Send Packet (No Baton Connection)")
    }
}

} // verus!
