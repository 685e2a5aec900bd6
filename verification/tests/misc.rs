use relay::baton::{
    frequency_test_batch, make_wire_line, ConnectRetry, LineKind, LinkAction, LinkEvent,
    LinkPhase, LinkSession, ReadWait, FREQUENCY_TEST_BATCHES,
};
use relay::channel::ChannelMessage;
use relay::chart::MyChart;
use relay::ipc_link::{RelayLink, RelayLinkAction, RelayLinkEvent, RelayLinkPhase};
use relay::logger::{
    epoch_timestamp, hex_dump_string, make_baton_log_line, make_log_body, LogThrottle,
};
use relay::meet::meet_pairs;
use relay::metrics::PacketMetrics;
use relay::text::{decimal_pad3_string, decimal_string, is_whitespace, trim_str};
use relay::view::{
    baton_connection_label, baton_data_label, error_banner_label, send_packet_label,
    tcp_status_label, tcp_validation_label,
};
use relay::xml::{event_source_xml, Selection};

#[test]
fn channel_message_defaults_to_disconnected() {
    assert!(matches!(ChannelMessage::default(), ChannelMessage::Disconnected));
}

#[test]
fn whitespace_agrees_with_std() {
    for u in 0..0x3100u32 {
        if let Some(c) = char::from_u32(u) {
            assert_eq!(is_whitespace(c), c.is_whitespace(), "code point {:x}", u);
        }
    }
    for s in [" a ", "\u{85}x\u{2003}", "", "   ", "a b"] {
        assert_eq!(trim_str(s), s.trim());
    }
}

#[test]
fn decimal_formatting() {
    assert_eq!(decimal_string(0), "0");
    assert_eq!(decimal_string(u64::MAX), u64::MAX.to_string());
    assert_eq!(decimal_pad3_string(7), "007");
    assert_eq!(decimal_pad3_string(42), "042");
    assert_eq!(decimal_pad3_string(999), "999");
}

#[test]
fn timestamps_and_log_lines() {
    assert_eq!(epoch_timestamp(1_234), "1.234");
    assert_eq!(epoch_timestamp(5), "0.005");
    assert_eq!(make_log_body("TCP", "up"), "TCP - up");
    assert_eq!(make_baton_log_line(Some(2_050), "Sent: 1"), "[2.050] Sent: 1");
    assert_eq!(make_baton_log_line(None, "Sent: 1"), "[TIME_ERROR] Sent: 1");
}

#[test]
fn throttle_prints_changes_and_spaced_repeats() {
    let mut t = LogThrottle::new(0);
    assert!(t.should_print("TX - a", 10));
    assert!(!t.should_print("TX - a", 1_000));
    assert!(!t.should_print("TX - a", 2_009));
    assert!(t.should_print("TX - a", 2_010));
    assert!(t.should_print("TX - b", 2_011));
    assert!(t.should_print("TX - a", 2_012));
}

#[test]
fn metrics_count_recent_packets_and_bytes() {
    let mut m = PacketMetrics::new();
    m.on_tcp_packet_sent(10, 0);
    m.on_tcp_packet_sent(20, 500);
    assert_eq!(m.packets_last_60s, 2);
    assert_eq!(m.bytes_last_1s, 30);
    assert!(m.show_metrics);
    m.refresh_metrics_now(1_400);
    assert_eq!(m.packets_last_60s, 2);
    assert_eq!(m.bytes_last_1s, 20);
    m.refresh_metrics_now(60_600);
    assert_eq!(m.packets_last_60s, 0);
    assert_eq!(m.bytes_last_1s, 0);
    assert!(!m.show_metrics);
}

#[test]
fn chart_rolls_once_a_second_has_passed() {
    let mut c = MyChart::new(1_000);
    assert_eq!(c.points.len(), 60);
    c.add(3);
    c.add(4);
    c.update(1_500);
    assert_eq!(c.points.len(), 60);
    assert_eq!(c.counter, 7);
    c.update(2_000);
    assert_eq!(c.points.len(), 61);
    assert_eq!(c.points[0], 7);
    assert_eq!(c.counter, 0);
    c.add(1);
    c.update(2_100);
    assert_eq!(c.points.len(), 61);
    assert_eq!(c.points[0], 1);
}

fn select(bits: [bool; 8]) -> Selection {
    Selection {
        altitude: bits[0],
        airspeed: bits[1],
        vertical: bits[2],
        heading: bits[3],
        roll: bits[4],
        pitch: bits[5],
        yaw: bits[6],
        gforce: bits[7],
    }
}

#[test]
fn xml_lists_selected_samples_in_order() {
    assert_eq!(event_source_xml(select([false; 8])), None);
    let x = event_source_xml(select([true, false, false, true, false, false, false, false])).unwrap();
    assert!(x.starts_with(
        "<EventSource Version=\"1\" Id=\"PilotDataSync\" Name=\"Positional Flight Data\">\n"
    ));
    assert!(x.ends_with("\t</Sample>\n</EventSource>"));
    let alt = x.find("AltitudeSync").unwrap();
    let head = x.find("HeadingSync").unwrap();
    assert!(alt < head);
    assert!(!x.contains("AirspeedSync") && !x.contains("VerticalVelocitySync"));
    assert_eq!(x.matches("<Sample ").count(), 2);
}

#[test]
fn retry_schedule_gives_up_after_twenty_failures() {
    let mut r = ConnectRetry::new();
    let mut total = 0u64;
    let mut sleeps = Vec::new();
    loop {
        let step = r.on_connect_failure();
        total += step.sleep_ms;
        sleeps.push(step.sleep_ms);
        if step.give_up {
            break;
        }
    }
    assert_eq!(r.failures, 20);
    assert_eq!(&sleeps[..5], &[500, 1000, 2000, 4000, 5000]);
    assert_eq!(total, 87_500);
}

#[test]
fn read_wait_gives_up_after_a_hundred_blocks() {
    let mut w = ReadWait::new();
    for _ in 0..100 {
        assert!(w.on_would_block());
    }
    assert!(!w.on_would_block());
}

#[test]
fn wire_line_appends_newline() {
    assert_eq!(make_wire_line(";1;2"), ";1;2\n");
    assert_eq!(make_wire_line("SHUTDOWN"), "SHUTDOWN\n");
}

#[test]
fn meet_pairs_are_the_grid() {
    assert_eq!(meet_pairs(), vec![(0, 0), (0, 1), (1, 0), (1, 1)]);
}

#[test]
fn window_labels() {
    assert_eq!(baton_connection_label(true), ":) Baton Connected!");
    assert_eq!(baton_connection_label(false), ":( No Baton Connection");
    assert_eq!(baton_data_label(&Some("1;2".into())), "[BATON]: 1;2");
    assert_eq!(baton_data_label(&None), "No data from baton.");
    assert_eq!(tcp_status_label(true), "TCP Connection Status: true");
    assert_eq!(tcp_status_label(false), "TCP Connection Status: false");
    assert_eq!(tcp_validation_label(&None), " ");
    assert_eq!(tcp_validation_label(&Some("bad".into())), "bad");
    assert_eq!(error_banner_label("oops"), "⚠️ oops");
    assert_eq!(send_packet_label(false), "Send Packet (No Baton Connection)");
    assert_eq!(send_packet_label(true), "Send Packet");
}

#[test]
fn hex_dump_matches_std_formatting() {
    let packet = "E;1;PilotDataSync;;;;;AltitudeSync;1;1\r\n";
    let expected: Vec<String> = packet.as_bytes().iter().map(|b| format!("{:02X}", b)).collect();
    assert_eq!(hex_dump_string(packet.as_bytes()), expected.join(" "));
    assert_eq!(hex_dump_string(&[]), "");
    assert_eq!(hex_dump_string(&[0x0a, 0xff]), "0A FF");
}

#[test]
fn frequency_test_sends_fifteen_zeros() {
    let batch = frequency_test_batch();
    assert_eq!(batch, "0\n0\n0\n0\n0\n");
    let total: usize = (0..FREQUENCY_TEST_BATCHES).map(|_| batch.lines().count()).sum();
    assert_eq!(total, 15);
}

#[test]
fn xml_with_every_toggle_has_eight_samples() {
    let x = event_source_xml(select([true; 8])).unwrap();
    let ids = [
        "AltitudeSync", "AirspeedSync", "VerticalVelocitySync", "HeadingSync", "RollSync",
        "PitchSync", "YawSync", "GForceSync",
    ];
    let mut last = 0;
    for id in ids {
        let at = x.find(&format!("<Sample Id=\"{}\"", id)).unwrap();
        assert!(at >= last, "{} out of order", id);
        last = at;
    }
    assert_eq!(x.matches("<Sample ").count(), 8);
    assert_eq!(x.matches("<Field ").count(), 16);
}

#[test]
fn xml_sample_text_is_exact() {
    let x = event_source_xml(select([false, false, false, false, true, false, false, false])).unwrap();
    assert_eq!(
        x,
        "<EventSource Version=\"1\" Id=\"PilotDataSync\" Name=\"Positional Flight Data\">\n\
         \t<Sample Id=\"RollSync\" Name=\"Roll Synchronization\">\n\
         \t\t<Field Id=\"FlightModelRoll\" Range=\"Variable\" Min=\"-180\" Max=\"180\" />\n\
         \t\t<Field Id=\"PilotRoll\" Range=\"Variable\" Min=\"-180\" Max=\"180\" />\n\
         \t</Sample>\n\
         </EventSource>"
    );
    let a = event_source_xml(select([true, false, false, false, false, false, false, false])).unwrap();
    assert!(a.contains(
        "\t<Sample Id=\"AltitudeSync\" Name=\"Altitude Synchronization\">\n\
         \t\t<Field Id=\"FlightModelAltitude\" Range=\"Variable\" Min=\"0\" Max=\"50000\" />\n\
         \t\t<Field Id=\"PilotAltitude\" Range=\"Variable\" Min=\"0\" Max=\"50000\" />\n\
         \t</Sample>\n"
    ));
}

fn written(a: LinkAction) -> (LineKind, String) {
    match a {
        LinkAction::Write(k, t) => (k, t),
        _ => panic!("expected a write"),
    }
}

#[test]
fn link_session_greets_tests_then_streams() {
    let mut s = LinkSession::new();
    assert!(s.phase() == LinkPhase::Start);
    let (k, t) = written(s.step(LinkEvent::Connected));
    assert!(k == LineKind::Greeting);
    assert_eq!(t, "Hello, from the baton prototype (Rust lib called from C++)\n");
    assert!(matches!(s.step(LinkEvent::Written), LinkAction::Read));
    assert!(matches!(s.step(LinkEvent::WouldBlock), LinkAction::Pause(10)));
    assert!(matches!(s.step(LinkEvent::Resumed), LinkAction::Read));
    let mut event = LinkEvent::ReplyLine;
    for _ in 0..3 {
        let (k, t) = written(s.step(event));
        assert!(k == LineKind::TestBatch);
        assert_eq!(t, "0\n0\n0\n0\n0\n");
        assert!(matches!(s.step(LinkEvent::Written), LinkAction::Pause(1000)));
        event = LinkEvent::Resumed;
    }
    assert!(matches!(s.step(event), LinkAction::Poll));
    assert!(s.phase() == LinkPhase::Streaming);
    assert!(matches!(s.step(LinkEvent::Idle), LinkAction::Pause(10)));
    assert!(matches!(s.step(LinkEvent::Resumed), LinkAction::Poll));
    let (k, t) = written(s.step(LinkEvent::Payload(";1;2".to_string())));
    assert!(k == LineKind::Data);
    assert_eq!(t, ";1;2\n");
    assert!(matches!(s.step(LinkEvent::Written), LinkAction::Poll));
    match s.step(LinkEvent::Stop) {
        LinkAction::Farewell(t) => assert_eq!(t, "SHUTDOWN\n"),
        _ => panic!("expected the farewell"),
    }
    assert!(s.phase() == LinkPhase::Done);
    assert!(matches!(s.step(LinkEvent::Payload("x".into())), LinkAction::End));
}

#[test]
fn link_session_gives_up_on_a_silent_relay() {
    let mut s = LinkSession::new();
    s.step(LinkEvent::Connected);
    s.step(LinkEvent::Written);
    for _ in 0..100 {
        assert!(matches!(s.step(LinkEvent::WouldBlock), LinkAction::Pause(10)));
        assert!(matches!(s.step(LinkEvent::Resumed), LinkAction::Read));
    }
    assert!(matches!(s.step(LinkEvent::WouldBlock), LinkAction::End));
    assert!(s.phase() == LinkPhase::Done);
}

#[test]
fn link_session_ends_on_failure_or_early_close() {
    let mut s = LinkSession::new();
    s.step(LinkEvent::Connected);
    assert!(matches!(s.step(LinkEvent::Failed), LinkAction::End));
    let mut s = LinkSession::new();
    s.step(LinkEvent::Connected);
    s.step(LinkEvent::Written);
    assert!(matches!(s.step(LinkEvent::ReplyClosed), LinkAction::End));
    // Data is not forwarded before the frequency test is over.
    let mut s = LinkSession::new();
    s.step(LinkEvent::Connected);
    s.step(LinkEvent::Written);
    s.step(LinkEvent::ReplyLine);
    assert!(matches!(s.step(LinkEvent::Payload(";1".into())), LinkAction::End));
}

#[test]
fn plot_points_are_the_sixty_newest_oldest_first() {
    let mut c = MyChart::new(0);
    c.add(4);
    c.update(1_000);
    c.add(7);
    c.update(2_000);
    let pts = c.plot_points();
    assert_eq!(pts.len(), 60);
    assert_eq!(pts[0], (0, 0));
    assert_eq!(pts[58], (58, 4));
    assert_eq!(pts[59], (59, 7));
}

#[test]
fn relay_link_replies_then_delivers_until_shutdown() {
    let mut l = RelayLink::new();
    assert!(matches!(l.step(RelayLinkEvent::Accepted), RelayLinkAction::Read));
    assert!(matches!(l.step(RelayLinkEvent::WouldBlock), RelayLinkAction::Pause(10)));
    assert!(matches!(l.step(RelayLinkEvent::Resumed), RelayLinkAction::Read));
    match l.step(RelayLinkEvent::Line("Hello, from baton\n".into())) {
        RelayLinkAction::Reply(r) => assert_eq!(r, "Hello, from the relay (Rust)!\n"),
        _ => panic!("expected the reply"),
    }
    assert!(matches!(l.step(RelayLinkEvent::Written), RelayLinkAction::Read));
    assert!(matches!(l.step(RelayLinkEvent::Line(String::new())), RelayLinkAction::Pause(1)));
    assert!(matches!(l.step(RelayLinkEvent::Resumed), RelayLinkAction::Read));
    match l.step(RelayLinkEvent::Line(";1;2\n".into())) {
        RelayLinkAction::Deliver(d) => assert_eq!(d, ";1;2"),
        _ => panic!("expected a payload"),
    }
    assert!(matches!(l.step(RelayLinkEvent::Delivered), RelayLinkAction::Read));
    assert!(matches!(l.step(RelayLinkEvent::Line("SHUTDOWN\n".into())), RelayLinkAction::Close(true)));
    assert!(l.phase() == RelayLinkPhase::Closed);
}

#[test]
fn relay_link_replies_even_without_a_greeting() {
    let mut l = RelayLink::new();
    l.step(RelayLinkEvent::Accepted);
    for _ in 0..100 {
        assert!(matches!(l.step(RelayLinkEvent::WouldBlock), RelayLinkAction::Pause(10)));
        assert!(matches!(l.step(RelayLinkEvent::Resumed), RelayLinkAction::Read));
    }
    assert!(matches!(l.step(RelayLinkEvent::WouldBlock), RelayLinkAction::Reply(_)));
    assert!(l.phase() == RelayLinkPhase::Replying);
    assert!(matches!(l.step(RelayLinkEvent::Failed), RelayLinkAction::Close(false)));

    let mut l = RelayLink::new();
    l.step(RelayLinkEvent::Accepted);
    l.step(RelayLinkEvent::Failed);
    l.step(RelayLinkEvent::Written);
    assert!(matches!(l.step(RelayLinkEvent::Failed), RelayLinkAction::Close(true)));
}
