use relay::payload::{
    build_imotions_packet, classify_ipc_line, join_with_leading_semicolons,
    normalize_baton_payload, packets_for_payload, plan_packets, sanitize_field, IpcLine,
};

fn strings(v: &[&str]) -> Vec<String> {
    v.iter().map(|s| s.to_string()).collect()
}

#[test]
fn sanitize_field_removes_breaks_and_semicolons() {
    assert_eq!(sanitize_field("  12;3\r\n "), "12,3");
    assert_eq!(sanitize_field("\t\u{3000}"), "");
    assert_eq!(sanitize_field("a\nb"), "ab");
}

#[test]
fn normalize_drops_empty_and_surrounding_fields() {
    assert_eq!(
        normalize_baton_payload(";1250.5;300;90;-5\n"),
        strings(&["1250.5", "300", "90", "-5"])
    );
    assert_eq!(normalize_baton_payload(";; a ; ;b;;\r\n"), strings(&["a", "b"]));
    assert_eq!(normalize_baton_payload(""), Vec::<String>::new());
    assert_eq!(normalize_baton_payload(";;;"), Vec::<String>::new());
    assert_eq!(normalize_baton_payload(" x\r\ny "), strings(&["xy"]));
}

#[test]
fn normalize_agrees_with_std_split_and_trim() {
    for raw in [";1;2;3", "  ; 4 ;\u{a0}5\u{a0}; ", "a\r;b\n;;c", "", "\u{2028};x"] {
        let expected: Vec<String> = raw
            .replace('\r', "")
            .replace('\n', "")
            .split(';')
            .map(|f| f.trim().to_string())
            .filter(|f| !f.is_empty())
            .collect();
        assert_eq!(normalize_baton_payload(raw), expected, "input {:?}", raw);
    }
}

#[test]
fn packet_matches_readme_example() {
    let p = build_imotions_packet("AltitudeSync", &strings(&["1250.5", "1250.5"]));
    assert_eq!(p, "E;1;PilotDataSync;;;;;AltitudeSync;1250.5;1250.5\r\n");
}

#[test]
fn packet_without_fields_has_no_trailing_separator() {
    assert_eq!(build_imotions_packet("HeadingSync", &[]), "E;1;PilotDataSync;;;;;HeadingSync\r\n");
}

#[test]
fn baton_line_round_trips_through_normalize() {
    let values = strings(&["1250.5", "300", "90", "-5", "1.5", "2", "3", "1"]);
    let line = join_with_leading_semicolons(&values);
    assert_eq!(line, ";1250.5;300;90;-5;1.5;2;3;1");
    assert_eq!(normalize_baton_payload(&line), values);
}

#[test]
fn pilot_only_four_values_send_four_duplicated_events() {
    let plan = packets_for_payload(";100;200;300;400");
    assert!(plan.stop_on_send_error);
    assert_eq!(
        plan.packets,
        strings(&[
            "E;1;PilotDataSync;;;;;AltitudeSync;100;100\r\n",
            "E;1;PilotDataSync;;;;;AirspeedSync;200;200\r\n",
            "E;1;PilotDataSync;;;;;VerticalVelocitySync;400;400\r\n",
            "E;1;PilotDataSync;;;;;HeadingSync;300;300\r\n",
        ])
    );
}

#[test]
fn pilot_only_eight_values_send_eight_events() {
    let plan = packets_for_payload(";1;2;3;4;5;6;7;8");
    assert!(plan.stop_on_send_error);
    assert_eq!(
        plan.packets,
        strings(&[
            "E;1;PilotDataSync;;;;;AltitudeSync;1;1\r\n",
            "E;1;PilotDataSync;;;;;AirspeedSync;2;2\r\n",
            "E;1;PilotDataSync;;;;;VerticalVelocitySync;4;4\r\n",
            "E;1;PilotDataSync;;;;;HeadingSync;3;3\r\n",
            "E;1;PilotDataSync;;;;;RollSync;5;5\r\n",
            "E;1;PilotDataSync;;;;;PitchSync;6;6\r\n",
            "E;1;PilotDataSync;;;;;YawSync;7;7\r\n",
            "E;1;PilotDataSync;;;;;GForceSync;8;8\r\n",
        ])
    );
}

#[test]
fn paired_values_send_one_event_per_pair() {
    let plan = plan_packets(&strings(&["10", "11", "20", "21", "30"]));
    assert!(!plan.stop_on_send_error);
    assert_eq!(
        plan.packets,
        strings(&[
            "E;1;PilotDataSync;;;;;AltitudeSync;10;11\r\n",
            "E;1;PilotDataSync;;;;;AirspeedSync;20;21\r\n",
        ])
    );
    let many: Vec<String> = (0..20).map(|i| i.to_string()).collect();
    let plan = plan_packets(&many);
    assert_eq!(plan.packets.len(), 8);
    assert_eq!(plan.packets[7], "E;1;PilotDataSync;;;;;GForceSync;14;15\r\n");
}

#[test]
fn too_few_fields_send_nothing() {
    assert!(packets_for_payload(";42").packets.is_empty());
    assert!(packets_for_payload("SHUTDOWN").packets.is_empty());
    assert!(plan_packets(&Vec::new()).packets.is_empty());
}

#[test]
fn ipc_lines_are_classified() {
    assert!(matches!(classify_ipc_line(""), IpcLine::Empty));
    assert!(matches!(classify_ipc_line("SHUTDOWN\n"), IpcLine::Shutdown));
    assert!(matches!(classify_ipc_line("SHUTDOWN now\n"), IpcLine::Shutdown));
    match classify_ipc_line(";1;2\n") {
        IpcLine::Data(d) => assert_eq!(d, ";1;2"),
        _ => panic!("expected data"),
    }
    match classify_ipc_line("SHUTDOW\n") {
        IpcLine::Data(d) => assert_eq!(d, "SHUTDOW"),
        _ => panic!("expected data"),
    }
}

#[test]
fn plugin_sample_reaches_imotions_as_eight_events() {
    let values = strings(&["1250.5", "300.25", "90", "-5", "1.5", "-2", "3", "1.01"]);
    let line = relay::baton::make_wire_line(&join_with_leading_semicolons(&values));
    let payload = match classify_ipc_line(&line) {
        IpcLine::Data(d) => d,
        _ => panic!("expected data"),
    };
    let plan = packets_for_payload(&payload);
    assert_eq!(plan.packets.len(), 8);
    assert_eq!(plan.packets[0], "E;1;PilotDataSync;;;;;AltitudeSync;1250.5;1250.5\r\n");
    assert_eq!(plan.packets[2], "E;1;PilotDataSync;;;;;VerticalVelocitySync;-5;-5\r\n");
    assert_eq!(plan.packets[3], "E;1;PilotDataSync;;;;;HeadingSync;90;90\r\n");
    assert_eq!(plan.packets[7], "E;1;PilotDataSync;;;;;GForceSync;1.01;1.01\r\n");
}
