//! The relay's GUI state and how each event changes it.
//!
//! The GUI loop, the threads and the files stay outside; they hand each event
//! to a method here and carry out what the method asks for.
use vstd::prelude::*;
use vstd::string::StringExecFns;

use crate::addrs::{
    addr_error_text, format_saved_tcp_addrs, insert_sorted, parse_saved_tcp_addrs, saved_addrs,
    saved_file, saved_list_body, strictly_sorted, valid_tcp_addr, validate_tcp_addr, AddrError,
};
use crate::logger::{timestamped, timestamped_entry};
use crate::message::{FromIpcThreadMessage, FromTcpThreadMessage};
use crate::metrics::{
    sample_times, stale_prefix, total_bytes, PacketMetrics, BYTE_WINDOW_MS, PACKET_WINDOW_MS,
};
use crate::text::{decimal, decimal_string, trim, trim_str};
use crate::xml::{event_source, event_source_xml, Selection};

verus! {

/// A baton packet keeps the baton connection shown as active for this long,
/// in milliseconds.
pub const LAST_SEEN_WINDOW_MS: u64 = 2000;

/// The time that passes between two ticks of the GUI, in milliseconds.
pub const TICK_MS: u64 = 10;

/// A moment, read from the monotonic clock and from the wall clock.
#[derive(Clone, Copy)]
pub struct Moment {
    /// Milliseconds on the monotonic clock.
    pub mono_ms: u64,
    /// Milliseconds since the Unix epoch (0 if the clock reads earlier).
    pub epoch_ms: u64,
}

/// Which flight parameters the generated `iMotions.xml` describes.
pub struct DatarefToggles {
    pub altitude: bool,
    pub airspeed: bool,
    pub vertical_airspeed: bool,
    pub heading: bool,
    pub roll: bool,
    pub pitch: bool,
    pub yaw: bool,
    pub gforce: bool,
}

impl DatarefToggles {
    /// The parameters whose toggle is on.
    pub open spec fn selection(self) -> Selection {
        Selection {
            altitude: self.altitude,
            airspeed: self.airspeed,
            vertical: self.vertical_airspeed,
            heading: self.heading,
            roll: self.roll,
            pitch: self.pitch,
            yaw: self.yaw,
            gforce: self.gforce,
        }
    }
}

/// A flight parameter with a toggle.
#[derive(Clone, Copy, PartialEq, Eq, Structural)]
pub enum Dataref {
    Altitude,
    Airspeed,
    VerticalAirspeed,
    Heading,
    Roll,
    Pitch,
    Yaw,
    GForce,
}

/// What the GUI knows of its two links.
pub struct LinkStatus {
    /// The TCP link to iMotions, as last checked.
    pub tcp_connected: bool,
    /// The last payload that baton sent.
    pub latest_baton_send: Option<String>,
    /// Whether baton is shown as connected.
    pub active_baton_connection: bool,
    /// When baton last sent a payload, on the monotonic clock.
    pub last_baton_instant: Option<u64>,
}

/// The address form of the TCP link.
pub struct TcpAddrForm {
    /// The text of the address field.
    pub tcp_addr_field: String,
    /// Why the last address was refused.
    pub tcp_addr_validation_error: Option<String>,
    /// The addresses used before, sorted, each once.
    pub saved_tcp_addrs: Vec<String>,
    /// The saved address chosen last.
    pub selected_tcp_addr: Option<String>,
    /// The address that the TCP thread was started for; it joins the saved
    /// ones once the thread reports that it connected.
    pub pending_tcp_addr: Option<String>,
}

/// An address that has just joined the saved ones: the new text of the file
/// that keeps them, to be written, and the address, which becomes the
/// selection once it is.
pub struct AddrSave {
    pub address: String,
    pub contents: String,
}

/// The state of the relay's GUI.
pub struct RelayState {
    /// Time since start, in milliseconds, counted in ticks.
    pub elapsed_ms: u64,
    /// The timestamped history of events.
    pub event_log: Vec<String>,
    pub link: LinkStatus,
    pub toggles: DatarefToggles,
    /// Whether the XML download card is open.
    pub card_open: bool,
    /// The error shown in the banner.
    pub error_message: Option<String>,
    /// When the send button was last pressed, in seconds since the epoch.
    pub last_send_timestamp: Option<String>,
    pub tcp_form: TcpAddrForm,
    pub metrics: PacketMetrics,
}

/// How writing `iMotions.xml` went.
pub enum XmlWrite {
    /// The file was created and written.
    Written,
    /// The file could not be created, and why.
    CreateFailed(String),
    /// The file was created but could not be written, and why.
    WriteFailed(String),
}

/// What the GUI does with a message from the IPC thread.
pub enum IpcReaction {
    /// Hand this payload to the TCP thread, if there is one.
    ForwardToTcp(String),
    /// Stop the TCP thread.
    DisconnectTcp,
}

/// Whether a baton packet seen at `last` is recent at `now`.
pub open spec fn recently_seen(last: Option<u64>, now: u64) -> bool {
    match last {
        Some(t) => now <= t || now - t <= LAST_SEEN_WINDOW_MS,
        None => false,
    }
}

/// `prefix` followed by `text`.
pub open spec fn prefixed(prefix: Seq<char>, text: Seq<char>) -> Seq<char> {
    prefix + text
}

impl RelayState {
    /// The saved addresses are sorted, each once.
    pub open spec fn wf(&self) -> bool {
        strictly_sorted(self.tcp_form.saved_tcp_addrs.deep_view())
    }

    /// The state at start: nothing connected, nothing logged, every toggle on.
    pub fn new() -> (s: RelayState)
        ensures
            s.wf(),
            s.elapsed_ms == 0,
            s.event_log@.len() == 0,
            !s.link.tcp_connected,
            s.link.latest_baton_send is None,
            !s.link.active_baton_connection,
            s.link.last_baton_instant is None,
            s.toggles == (DatarefToggles {
                altitude: true,
                airspeed: true,
                vertical_airspeed: true,
                heading: true,
                roll: true,
                pitch: true,
                yaw: true,
                gforce: true,
            }),
            !s.card_open,
            s.error_message is None,
            s.last_send_timestamp is None,
            s.tcp_form.tcp_addr_field@.len() == 0,
            s.tcp_form.tcp_addr_validation_error is None,
            s.tcp_form.saved_tcp_addrs@.len() == 0,
            s.tcp_form.selected_tcp_addr is None,
            s.tcp_form.pending_tcp_addr is None,
            s.metrics.sent_packet_times@.len() == 0,
            s.metrics.sent_samples@.len() == 0,
            s.metrics.packets_last_60s == 0,
            s.metrics.bytes_last_1s == 0,
            !s.metrics.show_metrics,
    {
        let s = RelayState {
            elapsed_ms: 0,
            event_log: Vec::new(),
            link: LinkStatus {
                tcp_connected: false,
                latest_baton_send: None,
                active_baton_connection: false,
                last_baton_instant: None,
            },
            toggles: DatarefToggles {
                altitude: true,
                airspeed: true,
                vertical_airspeed: true,
                heading: true,
                roll: true,
                pitch: true,
                yaw: true,
                gforce: true,
            },
            card_open: false,
            error_message: None,
            last_send_timestamp: None,
            tcp_form: TcpAddrForm {
                tcp_addr_field: String::new(),
                tcp_addr_validation_error: None,
                saved_tcp_addrs: Vec::new(),
                selected_tcp_addr: None,
                pending_tcp_addr: None,
            },
            metrics: PacketMetrics::new(),
        };
        assert(s.tcp_form.saved_tcp_addrs.deep_view() == Seq::<Seq<char>>::empty());
        s
    }

    /// Adds `event` to the history, behind the time `epoch_ms`.
    pub fn log_event(&mut self, event: &str, epoch_ms: u64)
        ensures
            after_log_event(*old(self), *final(self), event@, epoch_ms),
    {
        let entry = timestamped_entry(epoch_ms, event);
        let ghost before = self.event_log.deep_view();
        self.event_log.push(entry);
        assert(self.event_log.deep_view() == before.push(timestamped(epoch_ms, event@)));
    }

    /// Adds `prefix` followed by `detail` to the history.
    fn log_with_detail(&mut self, prefix: &str, detail: &str, epoch_ms: u64)
        ensures
            final(self).event_log.deep_view() == old(self).event_log.deep_view().push(
                timestamped(epoch_ms, prefixed(prefix@, detail@)),
            ),
            *final(self) == (RelayState { event_log: final(self).event_log, ..*old(self) }),
    {
        let mut text = String::from_str(prefix);
        text.append(detail);
        self.log_event(text.as_str(), epoch_ms);
    }

    /// A tick of the GUI: the elapsed time grows by a tick, and baton is shown
    /// as connected while the IPC thread has a connection or while its last
    /// packet is at most two seconds old.
    pub fn on_tick(&mut self, ipc_connected: bool, now: u64)
        requires
            old(self).elapsed_ms + TICK_MS <= u64::MAX,
        ensures
            after_tick(*old(self), *final(self), ipc_connected, now),
    {
        self.elapsed_ms = self.elapsed_ms + TICK_MS;
        let recent = match self.link.last_baton_instant {
            Some(t) => now <= t || now - t <= LAST_SEEN_WINDOW_MS,
            None => false,
        };
        self.link.active_baton_connection = ipc_connected || recent;
    }

    /// A message from the IPC thread. A payload is logged, kept as the latest,
    /// marks baton as seen now, and goes on to the TCP thread; a shutdown
    /// stops the TCP thread and shows baton as disconnected.
    pub fn on_ipc_message(&mut self, msg: FromIpcThreadMessage, now: Moment) -> (r: IpcReaction)
        ensures
            after_ipc_message(*old(self), *final(self), msg, now, r),
    {
        match msg {
            FromIpcThreadMessage::BatonData(data) => {
                self.log_with_detail("Baton packet: ", data.as_str(), now.epoch_ms);
                let forward = data.clone();
                self.link.latest_baton_send = Some(data);
                self.link.last_baton_instant = Some(now.mono_ms);
                self.link.active_baton_connection = true;
                IpcReaction::ForwardToTcp(forward)
            },
            FromIpcThreadMessage::BatonShutdown => {
                self.link.active_baton_connection = false;
                IpcReaction::DisconnectTcp
            },
        }
    }

    /// A message from the TCP thread. The link going up is logged, and the
    /// address that the thread was started for, if one waits, joins the saved
    /// ones: the new text of their file is returned, to be written. The link
    /// going down is logged, and the waiting address is dropped unsaved. A
    /// sent packet counts towards the metrics; a failed send is logged. None
    /// of them changes the status line, which only a check changes.
    pub fn on_tcp_message(&mut self, msg: FromTcpThreadMessage, now: Moment) -> (r: Option<
        AddrSave,
    >)
        requires
            old(self).wf(),
        ensures
            after_tcp_message(*old(self), *final(self), msg, now, r),
    {
        match msg {
            FromTcpThreadMessage::Connected => {
                self.log_event("TCP connected to iMotions", now.epoch_ms);
                match self.tcp_form.pending_tcp_addr.take() {
                    None => None,
                    Some(address) => {
                        let contents = self.save_tcp_addr_if_new(address.as_str());
                        Some(AddrSave { address, contents })
                    },
                }
            },
            FromTcpThreadMessage::Disconnected(reason) => {
                self.log_with_detail("TCP disconnected: ", reason.as_str(), now.epoch_ms);
                self.tcp_form.pending_tcp_addr = None;
                None
            },
            FromTcpThreadMessage::Sent(bytes) => {
                self.metrics.on_tcp_packet_sent(bytes, now.mono_ms);
                None
            },
            FromTcpThreadMessage::SendError(err) => {
                self.log_with_detail("TCP send error: ", err.as_str(), now.epoch_ms);
                None
            },
        }
    }

    /// The result of a check of the TCP link.
    pub fn on_check_tcp_status(&mut self, connected: bool)
        ensures
            after_check_tcp_status(*old(self), *final(self), connected),
    {
        self.link.tcp_connected = connected;
    }

    /// Turns the toggle of a flight parameter on or off.
    pub fn set_toggle(&mut self, which: Dataref, on: bool)
        ensures
            after_set_toggle(*old(self), *final(self), which, on),
    {
        match which {
            Dataref::Altitude => self.toggles.altitude = on,
            Dataref::Airspeed => self.toggles.airspeed = on,
            Dataref::VerticalAirspeed => self.toggles.vertical_airspeed = on,
            Dataref::Heading => self.toggles.heading = on,
            Dataref::Roll => self.toggles.roll = on,
            Dataref::Pitch => self.toggles.pitch = on,
            Dataref::Yaw => self.toggles.yaw = on,
            Dataref::GForce => self.toggles.gforce = on,
        }
    }

    /// Opens or closes the XML download card.
    pub fn set_card_open(&mut self, open: bool)
        ensures
            after_set_card_open(*old(self), *final(self), open),
    {
        self.card_open = open;
    }

    /// The user edited the address field: the text is kept and the last
    /// refusal is cleared.
    pub fn update_tcp_addr_field(&mut self, addr: String)
        ensures
            after_tcp_addr_field_update(*old(self), *final(self), addr),
    {
        self.tcp_form.tcp_addr_field = addr;
        self.tcp_form.tcp_addr_validation_error = None;
    }

    /// The send button was pressed at `epoch_secs`: the time is recorded.
    pub fn record_send_packet(&mut self, epoch_secs: u64)
        ensures
            after_send_packet(*old(self), *final(self), epoch_secs),
    {
        self.last_send_timestamp = Some(decimal_string(epoch_secs));
    }

    /// Applies the check of the trimmed address `trimmed`, which `valid`
    /// tells: a valid address replaces the field, clears the last refusal,
    /// and is returned, for the TCP thread to connect to it; an invalid one
    /// is refused with a message, and nothing is to be done.
    pub fn apply_tcp_addr_check(&mut self, trimmed: String, valid: bool) -> (target: Option<String>)
        ensures
            after_tcp_addr_check(*old(self), *final(self), trimmed, valid, target),
    {
        if valid {
            self.tcp_form.tcp_addr_validation_error = None;
            self.tcp_form.tcp_addr_field = trimmed.clone();
            Some(trimmed)
        } else {
            self.tcp_form.tcp_addr_validation_error = Some(AddrError::InvalidAddress.message());
            None
        }
    }

    /// Checks the address to connect to: it is trimmed, and the trimmed text
    /// must parse as a socket address. A valid address replaces the field,
    /// clears the last refusal, and is returned: the TCP thread is to connect
    /// to it, and it is saved only once that thread has connected (see
    /// `await_tcp_connection`). An invalid one is refused with a message and
    /// nothing is to be done.
    pub fn connect_tcp_with_validation_and_save(&mut self, address: String) -> (target: Option<
        String,
    >)
        ensures
            after_connect_tcp(*old(self), *final(self), address, target),
    {
        let trimmed = trim_str(address.as_str());
        let valid = validate_tcp_addr(trimmed.as_str()).is_ok();
        self.apply_tcp_addr_check(trimmed, valid)
    }

    /// A saved address was picked: it becomes the selection, and is then
    /// checked as in `connect_tcp_with_validation_and_save`.
    pub fn on_saved_tcp_addr_selected(&mut self, address: String) -> (target: Option<String>)
        ensures
            after_saved_tcp_addr_selected(*old(self), *final(self), address, target),
    {
        self.tcp_form.selected_tcp_addr = Some(address.clone());
        self.connect_tcp_with_validation_and_save(address)
    }

    /// The TCP thread was started for `address`: the address waits to be
    /// saved until the thread reports that it connected.
    pub fn await_tcp_connection(&mut self, address: String)
        ensures
            after_await_tcp_connection(*old(self), *final(self), address),
    {
        self.tcp_form.pending_tcp_addr = Some(address);
    }

    /// `address` joins the saved ones, unless it is there already, and the
    /// text of the file that keeps them is returned, to be written. The relay
    /// does this for an address once the TCP thread has connected to it (see
    /// `on_tcp_message`).
    pub fn save_tcp_addr_if_new(&mut self, address: &str) -> (contents: String)
        requires
            old(self).wf(),
        ensures
            after_save_tcp_addr(*old(self), *final(self), address@, contents),
    {
        insert_sorted(&mut self.tcp_form.saved_tcp_addrs, address);
        format_saved_tcp_addrs(self.tcp_form.saved_tcp_addrs.as_slice())
    }

    /// Starting the TCP thread for `target` went as `started` says: if it
    /// started, the address waits to be saved until the thread connects;
    /// if not, the failure is logged.
    pub fn on_tcp_start(&mut self, target: String, started: Result<(), String>, epoch_ms: u64)
        ensures
            after_tcp_start(*old(self), *final(self), target, started, epoch_ms),
    {
        match started {
            Ok(()) => self.await_tcp_connection(target),
            Err(e) => self.log_with_detail("TCP connect failed: ", e.as_str(), epoch_ms),
        }
    }

    /// Writing the saved addresses after `save` went as `written` says: if
    /// the file was written, the saved address becomes the selection; if not,
    /// the failure is logged and the selection stays.
    pub fn on_saved_addrs_written(
        &mut self,
        save: AddrSave,
        written: Result<(), String>,
        epoch_ms: u64,
    )
        ensures
            after_saved_addrs_written(*old(self), *final(self), save, written, epoch_ms),
    {
        match written {
            Ok(()) => self.finish_save_tcp_addr(save.address),
            Err(e) => self.log_with_detail("Saving TCP address failed: ", e.as_str(), epoch_ms),
        }
    }

    /// The saved addresses were written: `address` becomes the selection.
    pub fn finish_save_tcp_addr(&mut self, address: String)
        ensures
            after_finish_save_tcp_addr(*old(self), *final(self), address),
    {
        self.tcp_form.selected_tcp_addr = Some(address);
    }

    /// The text of the file that keeps the saved addresses.
    pub fn persisted_tcp_addrs(&self) -> (contents: String)
        ensures
            contents@ == saved_file(self.tcp_form.saved_tcp_addrs.deep_view()),
    {
        format_saved_tcp_addrs(self.tcp_form.saved_tcp_addrs.as_slice())
    }

    /// Loads the saved addresses from the text of their file. When there is
    /// no file to read, nothing changes; a file that is not a bracketed list
    /// is refused and nothing changes; otherwise the saved addresses become
    /// the valid ones that the file names, sorted.
    pub fn load_saved_tcp_addrs(&mut self, contents: Option<&str>) -> (r: Result<(), AddrError>)
        requires
            old(self).wf(),
        ensures
            after_load_saved_tcp_addrs(*old(self), *final(self), opt_chars(contents), r),
    {
        match contents {
            None => Ok(()),
            Some(c) => match parse_saved_tcp_addrs(c) {
                Ok(list) => {
                    self.tcp_form.saved_tcp_addrs = list;
                    Ok(())
                },
                Err(e) => Err(e),
            },
        }
    }

    /// Shows `msg` in the banner and logs it.
    pub fn report_failure(&mut self, msg: &str, epoch_ms: u64)
        ensures
            after_failure(*old(self), *final(self), msg@, epoch_ms),
    {
        self.error_message = Some(String::from_str(msg));
        self.log_event(msg, epoch_ms);
    }

    /// Writing `iMotions.xml` to `path` went as `outcome` says: a written
    /// file is logged; a failure to create or write it is reported.
    pub fn on_xml_written(&mut self, path: String, outcome: XmlWrite, epoch_ms: u64)
        ensures
            after_xml_written(*old(self), *final(self), path, outcome, epoch_ms),
    {
        match outcome {
            XmlWrite::Written => self.log_with_detail(
                "XML file written to ",
                path.as_str(),
                epoch_ms,
            ),
            XmlWrite::CreateFailed(e) => {
                let mut text = String::from_str("Creating XML file failed: ");
                text.append(e.as_str());
                self.report_failure(text.as_str(), epoch_ms);
            },
            XmlWrite::WriteFailed(e) => {
                let mut text = String::from_str("Writing XML file failed: ");
                text.append(e.as_str());
                self.report_failure(text.as_str(), epoch_ms);
            },
        }
    }

    /// The XML button was pressed. Without a downloads folder, that failure is
    /// reported; with no parameter selected, the banner asks for one;
    /// otherwise the banner is cleared and the text of `iMotions.xml` is
    /// returned, to be written.
    pub fn create_xml_file(&mut self, download_dir_found: bool, epoch_ms: u64) -> (contents:
        Option<String>)
        ensures
            after_xml_request(*old(self), *final(self), download_dir_found, epoch_ms, contents),
    {
        if !download_dir_found {
            self.report_failure("Could not determine Downloads directory", epoch_ms);
            return None;
        }
        let selection = Selection {
            altitude: self.toggles.altitude,
            airspeed: self.toggles.airspeed,
            vertical: self.toggles.vertical_airspeed,
            heading: self.toggles.heading,
            roll: self.toggles.roll,
            pitch: self.toggles.pitch,
            yaw: self.toggles.yaw,
            gforce: self.toggles.gforce,
        };
        match event_source_xml(selection) {
            None => {
                self.error_message = Some(
                    String::from_str("Please select at least one dataref toggle"),
                );
                None
            },
            Some(x) => {
                self.error_message = None;
                Some(x)
            },
        }
    }
}

/// The text of an optional string.
pub open spec fn opt_chars(c: Option<&str>) -> Option<Seq<char>> {
    match c {
        Some(x) => Some(x@),
        None => None,
    }
}

/// The contract of `RelayState::log_event`: `t` is the state `s` after the
/// call, with these arguments.
pub open spec fn after_log_event(s: RelayState, t: RelayState, event: Seq<char>, epoch_ms: u64) -> bool {
    &&& t.event_log.deep_view() == s.event_log.deep_view().push(
            timestamped(epoch_ms, event),
        )
    &&& t == (RelayState { event_log: t.event_log, ..s })
}

/// The contract of `RelayState::on_tick`: `t` is the state `s` after the
/// call, with these arguments.
pub open spec fn after_tick(s: RelayState, t: RelayState, ipc_connected: bool, now: u64) -> bool {
    &&& t == (RelayState {
            elapsed_ms: (s.elapsed_ms + TICK_MS) as u64,
            link: LinkStatus {
                active_baton_connection: ipc_connected || recently_seen(
                    s.link.last_baton_instant,
                    now,
                ),
                ..s.link
            },
            ..s
        })
}

/// The contract of `RelayState::on_ipc_message`: `t` is the state `s` after the
/// call, with these arguments, and the result last.
pub open spec fn after_ipc_message(s: RelayState, t: RelayState, msg: FromIpcThreadMessage, now: Moment, r: IpcReaction) -> bool {
    &&& msg matches FromIpcThreadMessage::BatonData(data) ==> {
            &&& r matches IpcReaction::ForwardToTcp(d) && d@ == data@
            &&& t.event_log.deep_view() == s.event_log.deep_view().push(
                timestamped(now.epoch_ms, prefixed("Baton packet: "@, data@)),
            )
            &&& t.link == (LinkStatus {
                latest_baton_send: Some(data),
                last_baton_instant: Some(now.mono_ms),
                active_baton_connection: true,
                ..s.link
            })
            &&& t == (RelayState {
                event_log: t.event_log,
                link: t.link,
                ..s
            })
        }
    &&& msg is BatonShutdown ==> {
            &&& r is DisconnectTcp
            &&& t == (RelayState {
                link: LinkStatus { active_baton_connection: false, ..s.link },
                ..s
            })
        }
}

/// The contract of `RelayState::on_tcp_message`: `t` is the state `s` after the
/// call, with these arguments, and the result last.
pub open spec fn after_tcp_message(s: RelayState, t: RelayState, msg: FromTcpThreadMessage, now: Moment, r: Option<AddrSave>) -> bool {
    &&& t.wf()
    &&& msg is Connected ==> t.event_log.deep_view()
            == s.event_log.deep_view().push(
            timestamped(now.epoch_ms, "TCP connected to iMotions"@),
        )
    &&& msg is Connected && s.tcp_form.pending_tcp_addr is None ==> {
            &&& r is None
            &&& t == (RelayState { event_log: t.event_log, ..s })
        }
    &&& msg is Connected ==> (s.tcp_form.pending_tcp_addr matches Some(a) ==> {
            &&& r matches Some(save) && save.address == a && save.contents@ == saved_file(
                t.tcp_form.saved_tcp_addrs.deep_view(),
            )
            &&& t.tcp_form.saved_tcp_addrs.deep_view().to_set()
                == s.tcp_form.saved_tcp_addrs.deep_view().to_set().insert(a@)
            &&& s.tcp_form.saved_tcp_addrs.deep_view().contains(a@)
                ==> t.tcp_form.saved_tcp_addrs.deep_view()
                == s.tcp_form.saved_tcp_addrs.deep_view()
            &&& t == (RelayState {
                event_log: t.event_log,
                tcp_form: TcpAddrForm {
                    saved_tcp_addrs: t.tcp_form.saved_tcp_addrs,
                    pending_tcp_addr: None,
                    ..s.tcp_form
                },
                ..s
            })
        })
    &&& msg matches FromTcpThreadMessage::Disconnected(reason) ==> {
            &&& r is None
            &&& t.event_log.deep_view() == s.event_log.deep_view().push(
                timestamped(now.epoch_ms, prefixed("TCP disconnected: "@, reason@)),
            )
            &&& t == (RelayState {
                event_log: t.event_log,
                tcp_form: TcpAddrForm { pending_tcp_addr: None, ..s.tcp_form },
                ..s
            })
        }
    &&& msg matches FromTcpThreadMessage::Sent(bytes) ==> {
            &&& r is None
            &&& t.metrics.sent_packet_times@
                == s.metrics.sent_packet_times@.push(now.mono_ms).skip(
                stale_prefix(
                    s.metrics.sent_packet_times@.push(now.mono_ms),
                    now.mono_ms,
                    PACKET_WINDOW_MS,
                ) as int,
            )
            &&& t.metrics.sent_samples@ == s.metrics.sent_samples@.push(
                (now.mono_ms, bytes),
            ).skip(
                stale_prefix(
                    sample_times(s.metrics.sent_samples@.push((now.mono_ms, bytes))),
                    now.mono_ms,
                    BYTE_WINDOW_MS,
                ) as int,
            )
            &&& t.metrics.packets_last_60s
                == t.metrics.sent_packet_times@.len()
            &&& t.metrics.bytes_last_1s == total_bytes(
                t.metrics.sent_samples@,
            )
            &&& t.metrics.show_metrics == (t.metrics.packets_last_60s > 0
                || t.metrics.bytes_last_1s > 0)
            &&& t == (RelayState { metrics: t.metrics, ..s })
        }
    &&& msg matches FromTcpThreadMessage::SendError(err) ==> {
            &&& r is None
            &&& t.event_log.deep_view() == s.event_log.deep_view().push(
                timestamped(now.epoch_ms, prefixed("TCP send error: "@, err@)),
            )
            &&& t == (RelayState { event_log: t.event_log, ..s })
        }
}

/// The contract of `RelayState::on_check_tcp_status`: `t` is the state `s` after the
/// call, with these arguments.
pub open spec fn after_check_tcp_status(s: RelayState, t: RelayState, connected: bool) -> bool {
    &&& t == (RelayState {
            link: LinkStatus { tcp_connected: connected, ..s.link },
            ..s
        })
}

/// The contract of `RelayState::set_toggle`: `t` is the state `s` after the
/// call, with these arguments.
pub open spec fn after_set_toggle(s: RelayState, t: RelayState, which: Dataref, on: bool) -> bool {
    &&& t == (RelayState { toggles: t.toggles, ..s })
    &&& t.toggles == (match which {
            Dataref::Altitude => DatarefToggles { altitude: on, ..s.toggles },
            Dataref::Airspeed => DatarefToggles { airspeed: on, ..s.toggles },
            Dataref::VerticalAirspeed => DatarefToggles {
                vertical_airspeed: on,
                ..s.toggles
            },
            Dataref::Heading => DatarefToggles { heading: on, ..s.toggles },
            Dataref::Roll => DatarefToggles { roll: on, ..s.toggles },
            Dataref::Pitch => DatarefToggles { pitch: on, ..s.toggles },
            Dataref::Yaw => DatarefToggles { yaw: on, ..s.toggles },
            Dataref::GForce => DatarefToggles { gforce: on, ..s.toggles },
        })
}

/// The contract of `RelayState::set_card_open`: `t` is the state `s` after the
/// call, with these arguments.
pub open spec fn after_set_card_open(s: RelayState, t: RelayState, open: bool) -> bool {
    &&& t == (RelayState { card_open: open, ..s })
}

/// The contract of `RelayState::update_tcp_addr_field`: `t` is the state `s` after the
/// call, with these arguments.
pub open spec fn after_tcp_addr_field_update(s: RelayState, t: RelayState, addr: String) -> bool {
    &&& t == (RelayState {
            tcp_form: TcpAddrForm {
                tcp_addr_field: addr,
                tcp_addr_validation_error: None,
                ..s.tcp_form
            },
            ..s
        })
}

/// The contract of `RelayState::record_send_packet`: `t` is the state `s` after the
/// call, with these arguments.
pub open spec fn after_send_packet(s: RelayState, t: RelayState, epoch_secs: u64) -> bool {
    &&& t.last_send_timestamp matches Some(t) && t@ == decimal(epoch_secs as nat)
    &&& t == (RelayState {
            last_send_timestamp: t.last_send_timestamp,
            ..s
        })
}

/// The contract of `RelayState::apply_tcp_addr_check`: `t` is the state `s` after the
/// call, with these arguments, and the result last.
pub open spec fn after_tcp_addr_check(s: RelayState, t: RelayState, trimmed: String, valid: bool, target: Option<String>) -> bool {
    &&& valid ==> {
            &&& target == Some(trimmed)
            &&& t == (RelayState {
                tcp_form: TcpAddrForm {
                    tcp_addr_field: trimmed,
                    tcp_addr_validation_error: None,
                    ..s.tcp_form
                },
                ..s
            })
        }
    &&& !valid ==> {
            &&& target is None
            &&& t.tcp_form.tcp_addr_validation_error matches Some(e) && e@
                == addr_error_text(AddrError::InvalidAddress)
            &&& t == (RelayState {
                tcp_form: TcpAddrForm {
                    tcp_addr_validation_error: t.tcp_form.tcp_addr_validation_error,
                    ..s.tcp_form
                },
                ..s
            })
        }
}

/// The contract of `RelayState::connect_tcp_with_validation_and_save`: `t` is the state `s` after the
/// call, with these arguments, and the result last.
pub open spec fn after_connect_tcp(s: RelayState, t: RelayState, address: String, target: Option<String>) -> bool {
    &&& valid_tcp_addr(trim(address@)) ==> {
            &&& target matches Some(t) && t@ == trim(address@)
            &&& t.tcp_form.tcp_addr_field@ == trim(address@)
            &&& t == (RelayState {
                tcp_form: TcpAddrForm {
                    tcp_addr_field: t.tcp_form.tcp_addr_field,
                    tcp_addr_validation_error: None,
                    ..s.tcp_form
                },
                ..s
            })
        }
    &&& !valid_tcp_addr(trim(address@)) ==> {
            &&& target is None
            &&& t.tcp_form.tcp_addr_validation_error matches Some(e) && e@
                == addr_error_text(AddrError::InvalidAddress)
            &&& t == (RelayState {
                tcp_form: TcpAddrForm {
                    tcp_addr_validation_error: t.tcp_form.tcp_addr_validation_error,
                    ..s.tcp_form
                },
                ..s
            })
        }
}

/// The contract of `RelayState::on_saved_tcp_addr_selected`: `t` is the state `s` after the
/// call, with these arguments, and the result last.
pub open spec fn after_saved_tcp_addr_selected(s: RelayState, t: RelayState, address: String, target: Option<String>) -> bool {
    &&& valid_tcp_addr(trim(address@)) ==> {
            &&& target matches Some(t) && t@ == trim(address@)
            &&& t.tcp_form.tcp_addr_field@ == trim(address@)
            &&& t == (RelayState {
                tcp_form: TcpAddrForm {
                    tcp_addr_field: t.tcp_form.tcp_addr_field,
                    tcp_addr_validation_error: None,
                    selected_tcp_addr: Some(address),
                    ..s.tcp_form
                },
                ..s
            })
        }
    &&& !valid_tcp_addr(trim(address@)) ==> {
            &&& target is None
            &&& t.tcp_form.tcp_addr_validation_error matches Some(e) && e@
                == addr_error_text(AddrError::InvalidAddress)
            &&& t == (RelayState {
                tcp_form: TcpAddrForm {
                    tcp_addr_validation_error: t.tcp_form.tcp_addr_validation_error,
                    selected_tcp_addr: Some(address),
                    ..s.tcp_form
                },
                ..s
            })
        }
}

/// The contract of `RelayState::await_tcp_connection`: `t` is the state `s` after the
/// call, with these arguments.
pub open spec fn after_await_tcp_connection(s: RelayState, t: RelayState, address: String) -> bool {
    &&& t == (RelayState {
            tcp_form: TcpAddrForm { pending_tcp_addr: Some(address), ..s.tcp_form },
            ..s
        })
}

/// The contract of `RelayState::save_tcp_addr_if_new`: `t` is the state `s` after the
/// call, with these arguments, and the result last.
pub open spec fn after_save_tcp_addr(s: RelayState, t: RelayState, address: Seq<char>, contents: String) -> bool {
    &&& t.wf()
    &&& t.tcp_form.saved_tcp_addrs.deep_view().to_set()
            == s.tcp_form.saved_tcp_addrs.deep_view().to_set().insert(address)
    &&& s.tcp_form.saved_tcp_addrs.deep_view().contains(address)
            ==> t.tcp_form.saved_tcp_addrs.deep_view()
            == s.tcp_form.saved_tcp_addrs.deep_view()
    &&& contents@ == saved_file(t.tcp_form.saved_tcp_addrs.deep_view())
    &&& t == (RelayState {
            tcp_form: TcpAddrForm {
                saved_tcp_addrs: t.tcp_form.saved_tcp_addrs,
                ..s.tcp_form
            },
            ..s
        })
}

/// The contract of `RelayState::finish_save_tcp_addr`: `t` is the state `s` after the
/// call, with these arguments.
pub open spec fn after_finish_save_tcp_addr(s: RelayState, t: RelayState, address: String) -> bool {
    &&& t == (RelayState {
            tcp_form: TcpAddrForm { selected_tcp_addr: Some(address), ..s.tcp_form },
            ..s
        })
}

/// The contract of `RelayState::load_saved_tcp_addrs`: `t` is the state `s` after the
/// call, with these arguments, and the result last.
pub open spec fn after_load_saved_tcp_addrs(s: RelayState, t: RelayState, contents: Option<Seq<char>>, r: Result<(), AddrError>) -> bool {
    &&& t.wf()
    &&& contents is None ==> r is Ok && t == s
    &&& contents matches Some(c) ==> (saved_list_body(c) is None ==> r == Err::<(), AddrError>(
            AddrError::MalformedList,
        ) && t == s)
    &&& contents matches Some(c) ==> (saved_list_body(c) is Some ==> {
            &&& r is Ok
            &&& t.tcp_form.saved_tcp_addrs.deep_view().to_set() == saved_addrs(
                saved_list_body(c)->0,
            )
            &&& t == (RelayState {
                tcp_form: TcpAddrForm {
                    saved_tcp_addrs: t.tcp_form.saved_tcp_addrs,
                    ..s.tcp_form
                },
                ..s
            })
        })
}

/// The contract of `RelayState::report_failure`: `t` is the state `s` after the
/// call, with these arguments.
pub open spec fn after_failure(s: RelayState, t: RelayState, msg: Seq<char>, epoch_ms: u64) -> bool {
    &&& t.error_message matches Some(m) && m@ == msg
    &&& t.event_log.deep_view() == s.event_log.deep_view().push(
            timestamped(epoch_ms, msg),
        )
    &&& t == (RelayState {
            error_message: t.error_message,
            event_log: t.event_log,
            ..s
        })
}

/// The contract of `RelayState::create_xml_file`: `t` is the state `s` after the
/// call, with these arguments, and the result last.
pub open spec fn after_xml_request(s: RelayState, t: RelayState, download_dir_found: bool, epoch_ms: u64, contents: Option<String>) -> bool {
    &&& !download_dir_found ==> {
            &&& contents is None
            &&& t.error_message matches Some(m) && m@
                == "Could not determine Downloads directory"@
            &&& t.event_log.deep_view() == s.event_log.deep_view().push(
                timestamped(epoch_ms, "Could not determine Downloads directory"@),
            )
            &&& t == (RelayState {
                error_message: t.error_message,
                event_log: t.event_log,
                ..s
            })
        }
    &&& download_dir_found && !s.toggles.selection().any() ==> {
            &&& contents is None
            &&& t.error_message matches Some(m) && m@
                == "Please select at least one dataref toggle"@
            &&& t == (RelayState {
                error_message: t.error_message,
                ..s
            })
        }
    &&& download_dir_found && s.toggles.selection().any() ==> {
            &&& contents matches Some(x) && x@ == event_source(s.toggles.selection())
            &&& t == (RelayState { error_message: None, ..s })
        }
}

/// The contract of `RelayState::on_tcp_start`: `t` is the state `s` after the
/// call, with these arguments.
pub open spec fn after_tcp_start(
    s: RelayState,
    t: RelayState,
    target: String,
    started: Result<(), String>,
    epoch_ms: u64,
) -> bool {
    &&& started is Ok ==> after_await_tcp_connection(s, t, target)
    &&& started matches Err(e) ==> {
        &&& t.event_log.deep_view() == s.event_log.deep_view().push(
            timestamped(epoch_ms, prefixed("TCP connect failed: "@, e@)),
        )
        &&& t == (RelayState { event_log: t.event_log, ..s })
    }
}

/// The contract of `RelayState::on_saved_addrs_written`: `t` is the state `s`
/// after the call, with these arguments.
pub open spec fn after_saved_addrs_written(
    s: RelayState,
    t: RelayState,
    save: AddrSave,
    written: Result<(), String>,
    epoch_ms: u64,
) -> bool {
    &&& written is Ok ==> after_finish_save_tcp_addr(s, t, save.address)
    &&& written matches Err(e) ==> {
        &&& t.event_log.deep_view() == s.event_log.deep_view().push(
            timestamped(epoch_ms, prefixed("Saving TCP address failed: "@, e@)),
        )
        &&& t == (RelayState { event_log: t.event_log, ..s })
    }
}

/// The contract of `RelayState::on_xml_written`: `t` is the state `s` after
/// the call, with these arguments.
pub open spec fn after_xml_written(
    s: RelayState,
    t: RelayState,
    path: String,
    outcome: XmlWrite,
    epoch_ms: u64,
) -> bool {
    match outcome {
        XmlWrite::Written => {
            &&& t.event_log.deep_view() == s.event_log.deep_view().push(
                timestamped(epoch_ms, prefixed("XML file written to "@, path@)),
            )
            &&& t == (RelayState { event_log: t.event_log, ..s })
        },
        XmlWrite::CreateFailed(e) => after_failure(
            s,
            t,
            prefixed("Creating XML file failed: "@, e@),
            epoch_ms,
        ),
        XmlWrite::WriteFailed(e) => after_failure(
            s,
            t,
            prefixed("Writing XML file failed: "@, e@),
            epoch_ms,
        ),
    }
}

/// Law: after a tick, baton is shown as connected exactly when the IPC
/// thread reports a connection, whatever the time of the last payload, or
/// when baton's last payload came at most two seconds before; the elapsed
/// time grows by ten milliseconds, and nothing else changes.
pub proof fn law_tick_shows_baton_while_connected_or_recent(
    s: RelayState,
    t: RelayState,
    ipc_connected: bool,
    now: u64,
)
    requires
        s.elapsed_ms + 10 <= u64::MAX,
        after_tick(s, t, ipc_connected, now),
    ensures
        ipc_connected ==> t.link.active_baton_connection,
        t.link.active_baton_connection == (ipc_connected || match s.link.last_baton_instant {
            Some(last) => now <= last || now - last <= 2000,
            None => false,
        }),
        t.elapsed_ms == s.elapsed_ms + 10,
        t == (RelayState {
            elapsed_ms: t.elapsed_ms,
            link: LinkStatus { active_baton_connection: t.link.active_baton_connection, ..s.link },
            ..s
        }),
{
}

/// Law: an address joins the saved ones only when the TCP thread that was
/// started for it reports that it connected. Checking an address and
/// starting the thread save nothing; a report of the link going up saves the
/// waiting address, and only it, and returns the new text of the file; a
/// report of the link going down drops the waiting address unsaved; packets
/// sent or failed change neither.
pub proof fn law_only_connected_addresses_are_saved(
    s: RelayState,
    t: RelayState,
    msg: FromTcpThreadMessage,
    now: Moment,
    r: Option<AddrSave>,
    address: String,
    target: Option<String>,
    started: Result<(), String>,
    epoch_ms: u64,
)
    ensures
        after_tcp_message(s, t, msg, now, r) ==> {
            &&& t.tcp_form.saved_tcp_addrs.deep_view().to_set() == (
            match (msg, s.tcp_form.pending_tcp_addr) {
                (FromTcpThreadMessage::Connected, Some(a)) => s.tcp_form.saved_tcp_addrs.deep_view().to_set().insert(
                    a@,
                ),
                _ => s.tcp_form.saved_tcp_addrs.deep_view().to_set(),
            })
            &&& (msg is Connected || msg is Disconnected) ==> t.tcp_form.pending_tcp_addr is None
            &&& (msg is Sent || msg is SendError) ==> t.tcp_form.pending_tcp_addr
                == s.tcp_form.pending_tcp_addr
            &&& r is Some <==> (msg is Connected && s.tcp_form.pending_tcp_addr is Some)
            &&& r matches Some(save) ==> s.tcp_form.pending_tcp_addr == Some(save.address)
                && save.contents@ == saved_file(t.tcp_form.saved_tcp_addrs.deep_view())
        },
        after_connect_tcp(s, t, address, target) ==> t.tcp_form.saved_tcp_addrs
            == s.tcp_form.saved_tcp_addrs && t.tcp_form.pending_tcp_addr
            == s.tcp_form.pending_tcp_addr,
        after_tcp_start(s, t, address, started, epoch_ms) ==> t.tcp_form.saved_tcp_addrs
            == s.tcp_form.saved_tcp_addrs && t.tcp_form.pending_tcp_addr == (if started is Ok {
            Some(address)
        } else {
            s.tcp_form.pending_tcp_addr
        }),
{
}

/// One call of a method that changes a `RelayState`: the method, its
/// arguments, and what it returned.
pub enum RelayEvent {
    Log { event: Seq<char>, epoch_ms: u64 },
    Tick { ipc_connected: bool, tick_ms: u64 },
    Ipc { ipc_msg: FromIpcThreadMessage, ipc_at: Moment, reaction: IpcReaction },
    Tcp { msg: FromTcpThreadMessage, now: Moment, save: Option<AddrSave> },
    CheckTcpStatus { connected: bool },
    Toggle { which: Dataref, on: bool },
    CardOpen { open: bool },
    AddrFieldUpdate { addr: String },
    SendPacket { epoch_secs: u64 },
    AddrCheck { trimmed: String, valid: bool, checked: Option<String> },
    ConnectTcp { address: String, target: Option<String> },
    SavedAddrSelected { address: String, target: Option<String> },
    TcpStart { started_for: String, started: Result<(), String>, epoch_ms: u64 },
    AwaitConnection { address: String },
    SaveAddr { saved: Seq<char>, file_text: String },
    FinishSave { address: String },
    AddrsWritten { addr_save: AddrSave, written: Result<(), String>, epoch_ms: u64 },
    LoadSavedAddrs { file: Option<Seq<char>>, r: Result<(), AddrError> },
    Failure { failure: Seq<char>, epoch_ms: u64 },
    XmlRequested { download_dir_found: bool, epoch_ms: u64, xml: Option<String> },
    XmlWritten { path: String, outcome: XmlWrite, epoch_ms: u64 },
}

/// `t` is `s` after the call that `ev` describes, by that method's contract.
pub open spec fn relay_step(s: RelayState, ev: RelayEvent, t: RelayState) -> bool {
    match ev {
        RelayEvent::Log { event, epoch_ms } => after_log_event(s, t, event, epoch_ms),
        RelayEvent::Tick { ipc_connected, tick_ms } => after_tick(s, t, ipc_connected, tick_ms),
        RelayEvent::Ipc { ipc_msg, ipc_at, reaction } => after_ipc_message(
            s,
            t,
            ipc_msg,
            ipc_at,
            reaction,
        ),
        RelayEvent::Tcp { msg, now, save } => after_tcp_message(s, t, msg, now, save),
        RelayEvent::CheckTcpStatus { connected } => after_check_tcp_status(s, t, connected),
        RelayEvent::Toggle { which, on } => after_set_toggle(s, t, which, on),
        RelayEvent::CardOpen { open } => after_set_card_open(s, t, open),
        RelayEvent::AddrFieldUpdate { addr } => after_tcp_addr_field_update(s, t, addr),
        RelayEvent::SendPacket { epoch_secs } => after_send_packet(s, t, epoch_secs),
        RelayEvent::AddrCheck { trimmed, valid, checked } => after_tcp_addr_check(
            s,
            t,
            trimmed,
            valid,
            checked,
        ),
        RelayEvent::ConnectTcp { address, target } => after_connect_tcp(s, t, address, target),
        RelayEvent::SavedAddrSelected { address, target } => after_saved_tcp_addr_selected(
            s,
            t,
            address,
            target,
        ),
        RelayEvent::TcpStart { started_for, started, epoch_ms } => after_tcp_start(
            s,
            t,
            started_for,
            started,
            epoch_ms,
        ),
        RelayEvent::AwaitConnection { address } => after_await_tcp_connection(s, t, address),
        RelayEvent::SaveAddr { saved, file_text } => after_save_tcp_addr(s, t, saved, file_text),
        RelayEvent::FinishSave { address } => after_finish_save_tcp_addr(s, t, address),
        RelayEvent::AddrsWritten { addr_save, written, epoch_ms } => after_saved_addrs_written(
            s,
            t,
            addr_save,
            written,
            epoch_ms,
        ),
        RelayEvent::LoadSavedAddrs { file, r } => after_load_saved_tcp_addrs(
            s,
            t,
            file,
            r,
        ),
        RelayEvent::Failure { failure, epoch_ms } => after_failure(s, t, failure, epoch_ms),
        RelayEvent::XmlRequested { download_dir_found, epoch_ms, xml } => after_xml_request(
            s,
            t,
            download_dir_found,
            epoch_ms,
            xml,
        ),
        RelayEvent::XmlWritten { path, outcome, epoch_ms } => after_xml_written(
            s,
            t,
            path,
            outcome,
            epoch_ms,
        ),
    }
}

/// Law: the TCP status line does not update by itself. Of all the calls
/// that change the relay's state, only a check of the TCP link sets it, to
/// what the check found; every other call leaves it as it was.
pub proof fn law_status_changes_only_on_check(s: RelayState, ev: RelayEvent, t: RelayState)
    requires
        relay_step(s, ev, t),
    ensures
        t.link.tcp_connected == (match ev {
            RelayEvent::CheckTcpStatus { connected } => connected,
            _ => s.link.tcp_connected,
        }),
{
}

} // verus!
