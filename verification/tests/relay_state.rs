use relay::addrs::AddrError;
use relay::message::{FromIpcThreadMessage, FromTcpThreadMessage};
use relay::relay::{Dataref, IpcReaction, Moment, RelayState, XmlWrite};

fn at(mono_ms: u64, epoch_ms: u64) -> Moment {
    Moment { mono_ms, epoch_ms }
}

#[test]
fn new_state_has_every_toggle_on() {
    let s = RelayState::new();
    let t = &s.toggles;
    assert!(t.altitude && t.airspeed && t.vertical_airspeed && t.heading);
    assert!(t.roll && t.pitch && t.yaw && t.gforce);
    assert!(!s.link.tcp_connected && !s.link.active_baton_connection);
    assert!(s.event_log.is_empty());
}

#[test]
fn log_entries_carry_the_epoch_timestamp() {
    let mut s = RelayState::new();
    s.log_event("hello", 1_700_000_000_042);
    assert_eq!(s.event_log, vec!["[1700000000.042] hello".to_string()]);
}

#[test]
fn baton_data_is_logged_forwarded_and_marks_baton_seen() {
    let mut s = RelayState::new();
    let r = s.on_ipc_message(FromIpcThreadMessage::BatonData(";1;2".to_string()), at(5_000, 1_000));
    match r {
        IpcReaction::ForwardToTcp(d) => assert_eq!(d, ";1;2"),
        _ => panic!("expected forward"),
    }
    assert_eq!(s.event_log, vec!["[1.000] Baton packet: ;1;2".to_string()]);
    assert_eq!(s.link.latest_baton_send.as_deref(), Some(";1;2"));
    assert_eq!(s.link.last_baton_instant, Some(5_000));
    assert!(s.link.active_baton_connection);
}

#[test]
fn baton_shutdown_disconnects_tcp() {
    let mut s = RelayState::new();
    s.link.active_baton_connection = true;
    let r = s.on_ipc_message(FromIpcThreadMessage::BatonShutdown, at(0, 0));
    assert!(matches!(r, IpcReaction::DisconnectTcp));
    assert!(!s.link.active_baton_connection);
    assert!(s.event_log.is_empty());
}

#[test]
fn tick_shows_baton_while_recently_seen() {
    let mut s = RelayState::new();
    s.link.last_baton_instant = Some(10_000);
    s.on_tick(false, 12_000);
    assert!(s.link.active_baton_connection);
    assert_eq!(s.elapsed_ms, 10);
    s.on_tick(false, 12_001);
    assert!(!s.link.active_baton_connection);
    s.on_tick(true, 50_000);
    assert!(s.link.active_baton_connection);
    assert_eq!(s.elapsed_ms, 30);
}

#[test]
fn tcp_messages_log_and_count_without_touching_the_status() {
    let mut s = RelayState::new();
    assert!(s.on_tcp_message(FromTcpThreadMessage::Connected, at(0, 2_000)).is_none());
    assert!(!s.link.tcp_connected);
    assert!(s.on_tcp_message(FromTcpThreadMessage::Sent(50), at(100, 2_100)).is_none());
    assert_eq!(s.metrics.packets_last_60s, 1);
    assert_eq!(s.metrics.bytes_last_1s, 50);
    s.on_check_tcp_status(true);
    s.on_tcp_message(FromTcpThreadMessage::SendError("boom".into()), at(200, 2_200));
    s.on_tcp_message(FromTcpThreadMessage::Disconnected("eof".into()), at(300, 2_300));
    assert!(s.link.tcp_connected);
    s.on_check_tcp_status(false);
    assert!(!s.link.tcp_connected);
    assert_eq!(
        s.event_log,
        vec![
            "[2.000] TCP connected to iMotions".to_string(),
            "[2.200] TCP send error: boom".to_string(),
            "[2.300] TCP disconnected: eof".to_string(),
        ]
    );
}

#[test]
fn valid_address_is_trimmed_and_returned() {
    let mut s = RelayState::new();
    s.tcp_form.tcp_addr_validation_error = Some("old".into());
    let target = s.connect_tcp_with_validation_and_save("  127.0.0.1:7878 ".to_string());
    assert_eq!(target.as_deref(), Some("127.0.0.1:7878"));
    assert_eq!(s.tcp_form.tcp_addr_field, "127.0.0.1:7878");
    assert_eq!(s.tcp_form.tcp_addr_validation_error, None);
}

#[test]
fn invalid_address_is_refused_with_message() {
    let mut s = RelayState::new();
    s.tcp_form.tcp_addr_field = "typed".into();
    let target = s.connect_tcp_with_validation_and_save("localhost:9999".to_string());
    assert_eq!(target, None);
    assert_eq!(s.tcp_form.tcp_addr_field, "typed");
    assert_eq!(
        s.tcp_form.tcp_addr_validation_error.as_deref(),
        Some("Invalid IP address. Use format: 127.0.0.1:9999")
    );
}

#[test]
fn selecting_a_saved_address_connects_to_it() {
    let mut s = RelayState::new();
    let target = s.on_saved_tcp_addr_selected("10.0.0.1:80".to_string());
    assert_eq!(target.as_deref(), Some("10.0.0.1:80"));
    assert_eq!(s.tcp_form.selected_tcp_addr.as_deref(), Some("10.0.0.1:80"));
}

#[test]
fn an_address_is_saved_once_its_connection_succeeds() {
    let mut s = RelayState::new();
    let target = s.connect_tcp_with_validation_and_save(" 127.0.0.1:7878".to_string()).unwrap();
    assert!(s.tcp_form.saved_tcp_addrs.is_empty());
    s.await_tcp_connection(target);
    assert_eq!(s.tcp_form.pending_tcp_addr.as_deref(), Some("127.0.0.1:7878"));
    assert!(s.tcp_form.saved_tcp_addrs.is_empty());
    let save = s.on_tcp_message(FromTcpThreadMessage::Connected, at(0, 1_000)).unwrap();
    assert_eq!(save.address, "127.0.0.1:7878");
    assert_eq!(save.contents, "[\n  \"127.0.0.1:7878\"\n]\n");
    assert_eq!(s.tcp_form.saved_tcp_addrs, vec!["127.0.0.1:7878".to_string()]);
    assert_eq!(s.tcp_form.pending_tcp_addr, None);
    s.finish_save_tcp_addr(save.address);
    assert_eq!(s.tcp_form.selected_tcp_addr.as_deref(), Some("127.0.0.1:7878"));
    // A second report of the link saves nothing more.
    assert!(s.on_tcp_message(FromTcpThreadMessage::Connected, at(5, 1_005)).is_none());
    assert!(!s.link.tcp_connected);
}

#[test]
fn an_address_whose_connection_fails_is_not_saved() {
    let mut s = RelayState::new();
    s.await_tcp_connection("10.0.0.9:1".to_string());
    let r = s.on_tcp_message(FromTcpThreadMessage::Disconnected("refused".into()), at(0, 1_000));
    assert!(r.is_none());
    assert_eq!(s.tcp_form.pending_tcp_addr, None);
    assert!(s.tcp_form.saved_tcp_addrs.is_empty());
    assert!(s.on_tcp_message(FromTcpThreadMessage::Connected, at(1, 1_001)).is_none());
    assert!(s.tcp_form.saved_tcp_addrs.is_empty());
    assert_eq!(s.event_log[0], "[1.000] TCP disconnected: refused");
}

#[test]
fn saving_addresses_keeps_them_sorted_and_writes_the_file() {
    let mut s = RelayState::new();
    let c1 = s.save_tcp_addr_if_new("127.0.0.1:9999");
    assert_eq!(c1, "[\n  \"127.0.0.1:9999\"\n]\n");
    let c2 = s.save_tcp_addr_if_new("10.0.0.1:80");
    assert_eq!(c2, "[\n  \"10.0.0.1:80\",\n  \"127.0.0.1:9999\"\n]\n");
    let c3 = s.save_tcp_addr_if_new("127.0.0.1:9999");
    assert_eq!(c3, c2);
    assert_eq!(s.persisted_tcp_addrs(), c2);
    s.finish_save_tcp_addr("127.0.0.1:9999".to_string());
    assert_eq!(s.tcp_form.selected_tcp_addr.as_deref(), Some("127.0.0.1:9999"));
}

#[test]
fn loading_saved_addresses() {
    let mut s = RelayState::new();
    assert_eq!(s.load_saved_tcp_addrs(None), Ok(()));
    assert!(s.tcp_form.saved_tcp_addrs.is_empty());
    assert_eq!(
        s.load_saved_tcp_addrs(Some("not a list")),
        Err(AddrError::MalformedList)
    );
    assert_eq!(
        s.load_saved_tcp_addrs(Some("[\"127.0.0.1:1\", \"nope\", \"10.0.0.1:2\"]")),
        Ok(())
    );
    assert_eq!(s.tcp_form.saved_tcp_addrs, vec!["10.0.0.1:2".to_string(), "127.0.0.1:1".to_string()]);
}

#[test]
fn field_update_clears_refusal() {
    let mut s = RelayState::new();
    s.tcp_form.tcp_addr_validation_error = Some("x".into());
    s.update_tcp_addr_field("1.2".to_string());
    assert_eq!(s.tcp_form.tcp_addr_field, "1.2");
    assert_eq!(s.tcp_form.tcp_addr_validation_error, None);
}

#[test]
fn toggles_card_status_and_send_timestamp() {
    let mut s = RelayState::new();
    s.set_toggle(Dataref::Heading, false);
    assert!(!s.toggles.heading && s.toggles.altitude);
    s.set_card_open(true);
    assert!(s.card_open);
    s.on_check_tcp_status(true);
    assert!(s.link.tcp_connected);
    s.record_send_packet(1_700_000_000);
    assert_eq!(s.last_send_timestamp.as_deref(), Some("1700000000"));
}

#[test]
fn xml_needs_a_downloads_folder_and_a_toggle() {
    let mut s = RelayState::new();
    assert_eq!(s.create_xml_file(false, 3_000), None);
    assert_eq!(s.error_message.as_deref(), Some("Could not determine Downloads directory"));
    assert_eq!(s.event_log, vec!["[3.000] Could not determine Downloads directory".to_string()]);
    let all = s.create_xml_file(true, 3_000).unwrap();
    assert_eq!(all.matches("<Sample ").count(), 8);
    for id in [
        "AltitudeSync", "AirspeedSync", "VerticalVelocitySync", "HeadingSync", "RollSync",
        "PitchSync", "YawSync", "GForceSync",
    ] {
        assert!(all.contains(&format!("<Sample Id=\"{}\"", id)), "{}", id);
    }
    assert_eq!(s.error_message, None);
    for d in [Dataref::Altitude, Dataref::Airspeed, Dataref::VerticalAirspeed, Dataref::Heading] {
        s.set_toggle(d, false);
    }
    let rest = s.create_xml_file(true, 3_000).unwrap();
    assert_eq!(rest.matches("<Sample ").count(), 4);
    assert!(rest.contains("RollSync") && !rest.contains("AltitudeSync"));
    for d in [Dataref::Roll, Dataref::Pitch, Dataref::Yaw, Dataref::GForce] {
        s.set_toggle(d, false);
    }
    assert_eq!(s.create_xml_file(true, 3_000), None);
    assert_eq!(s.error_message.as_deref(), Some("Please select at least one dataref toggle"));
    s.set_toggle(Dataref::Heading, true);
    let xml = s.create_xml_file(true, 3_000).unwrap();
    assert!(xml.contains("HeadingSync") && !xml.contains("AltitudeSync"));
    assert_eq!(s.error_message, None);
}

#[test]
fn report_failure_shows_and_logs() {
    let mut s = RelayState::new();
    s.report_failure("Writing XML file failed: disk", 0);
    assert_eq!(s.error_message.as_deref(), Some("Writing XML file failed: disk"));
    assert_eq!(s.event_log, vec!["[0.000] Writing XML file failed: disk".to_string()]);
}

#[test]
fn applying_a_check_result() {
    let mut s = RelayState::new();
    assert_eq!(s.apply_tcp_addr_check("whatever".to_string(), true).as_deref(), Some("whatever"));
    assert_eq!(s.tcp_form.tcp_addr_field, "whatever");
    assert_eq!(s.apply_tcp_addr_check("1.1.1.1:1".to_string(), false), None);
    assert_eq!(s.tcp_form.tcp_addr_field, "whatever");
    assert_eq!(
        s.tcp_form.tcp_addr_validation_error.as_deref(),
        Some("Invalid IP address. Use format: 127.0.0.1:9999")
    );
}

#[test]
fn a_refused_tcp_start_is_logged_and_nothing_waits() {
    let mut s = RelayState::new();
    s.on_tcp_start("127.0.0.1:7878".into(), Err("TCP thread already exists.".into()), 4_000);
    assert_eq!(s.event_log, vec!["[4.000] TCP connect failed: TCP thread already exists.".to_string()]);
    assert_eq!(s.tcp_form.pending_tcp_addr, None);
    s.on_tcp_start("127.0.0.1:7878".into(), Ok(()), 4_100);
    assert_eq!(s.tcp_form.pending_tcp_addr.as_deref(), Some("127.0.0.1:7878"));
    assert_eq!(s.event_log.len(), 1);
}

#[test]
fn the_selection_follows_a_written_address_file_only() {
    let mut s = RelayState::new();
    s.on_tcp_start("10.0.0.1:80".into(), Ok(()), 0);
    let save = s.on_tcp_message(FromTcpThreadMessage::Connected, at(0, 1_000)).unwrap();
    s.on_saved_addrs_written(save, Err("disk full".into()), 1_500);
    assert_eq!(s.tcp_form.selected_tcp_addr, None);
    assert_eq!(s.event_log[1], "[1.500] Saving TCP address failed: disk full");
    assert_eq!(s.tcp_form.saved_tcp_addrs, vec!["10.0.0.1:80".to_string()]);
    s.on_tcp_start("10.0.0.2:80".into(), Ok(()), 0);
    let save = s.on_tcp_message(FromTcpThreadMessage::Connected, at(0, 2_000)).unwrap();
    s.on_saved_addrs_written(save, Ok(()), 2_500);
    assert_eq!(s.tcp_form.selected_tcp_addr.as_deref(), Some("10.0.0.2:80"));
    assert_eq!(s.event_log.len(), 3);
}

#[test]
fn xml_write_outcomes_are_logged_or_reported() {
    let mut s = RelayState::new();
    s.on_xml_written("/home/u/Downloads/iMotions.xml".into(), XmlWrite::Written, 5_000);
    assert_eq!(
        s.event_log,
        vec!["[5.000] XML file written to /home/u/Downloads/iMotions.xml".to_string()]
    );
    assert_eq!(s.error_message, None);
    s.on_xml_written("p".into(), XmlWrite::CreateFailed("denied".into()), 5_100);
    assert_eq!(s.error_message.as_deref(), Some("Creating XML file failed: denied"));
    assert_eq!(s.event_log[1], "[5.100] Creating XML file failed: denied");
    s.on_xml_written("p".into(), XmlWrite::WriteFailed("no space".into()), 5_200);
    assert_eq!(s.error_message.as_deref(), Some("Writing XML file failed: no space"));
    assert_eq!(s.event_log.len(), 3);
}

#[test]
fn only_a_check_moves_the_status_line() {
    let mut s = RelayState::new();
    s.on_tick(true, 0);
    s.on_ipc_message(FromIpcThreadMessage::BatonData(";1".into()), at(0, 0));
    s.on_tcp_start("127.0.0.1:7878".into(), Ok(()), 0);
    s.on_tcp_message(FromTcpThreadMessage::Connected, at(0, 0));
    assert!(!s.link.tcp_connected);
    s.on_check_tcp_status(true);
    assert!(s.link.tcp_connected);
    s.on_tcp_message(FromTcpThreadMessage::Disconnected("eof".into()), at(1, 1));
    s.on_ipc_message(FromIpcThreadMessage::BatonShutdown, at(1, 1));
    assert!(s.link.tcp_connected);
}
