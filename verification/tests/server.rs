use relay::server::{count_packets, parse_port, parse_u16, PacketFramer, DEFAULT_PORT};

#[test]
fn parse_port_defaults_when_no_argument() {
    assert_eq!(parse_port(None), Ok(DEFAULT_PORT));
}

#[test]
fn parse_port_accepts_valid_port() {
    assert_eq!(parse_port(Some("7878".to_string())), Ok(7878));
}

#[test]
fn parse_port_rejects_invalid_input() {
    assert!(parse_port(Some("abc".to_string())).is_err());
    assert!(parse_port(Some("70000".to_string())).is_err());
    assert!(parse_port(Some("-1".to_string())).is_err());
}

#[test]
fn parse_port_error_names_the_argument() {
    assert_eq!(
        parse_port(Some("abc".to_string())),
        Err("Invalid port: abc".to_string())
    );
}

#[test]
fn parse_u16_matches_std_on_edge_cases() {
    for s in [
        "", "+", "-", "0", "+0", "-0", "00080", "65535", "65536", "99999999999", " 1", "1 ", "+7878",
        "1a", "٣",
    ] {
        assert_eq!(parse_u16(s), s.parse::<u16>().ok(), "input {:?}", s);
    }
}

#[test]
fn default_port_is_seven_eight_seven_eight() {
    assert_eq!(DEFAULT_PORT, 7878);
    assert_eq!(parse_port(None), Ok(7878));
}

#[test]
fn counts_each_packet_including_unterminated_last_one() {
    let data = b"E;1;PilotDataSync;;;;;AltitudeSync;1.0;1.0\r\n\
                 E;1;PilotDataSync;;;;;AirspeedSync;2.0;2.0\r\n\
                 E;1;PilotDataSync;;;;;HeadingSync;3.0;3.0";
    assert_eq!(count_packets(&data[..]), 3);
}

#[test]
fn empty_stream_reads_no_packets() {
    assert_eq!(count_packets(&b""[..]), 0);
}

#[test]
fn framer_joins_packets_split_across_reads() {
    let mut f = PacketFramer::new();
    assert!(f.push(b"E;1;A").is_empty());
    let lines = f.push(b";1\r\nE;1;B;2\r\nE;");
    assert_eq!(lines, vec![b"E;1;A;1\r\n".to_vec(), b"E;1;B;2\r\n".to_vec()]);
    assert_eq!(f.pending, b"E;".to_vec());
    assert_eq!(f.push(b"\n"), vec![b"E;\n".to_vec()]);
    assert_eq!(f.finish(), None);
    let mut g = PacketFramer::new();
    g.push(b"tail");
    assert_eq!(g.finish(), Some(b"tail".to_vec()));
}

#[test]
fn packets_give_back_the_bytes() {
    let data: &[u8] = b"a\n\nbc\nd";
    let mut f = PacketFramer::new();
    let mut all = f.push(data);
    all.extend(f.finish());
    assert_eq!(all.len() as u64, count_packets(data));
    assert_eq!(all.concat(), data.to_vec());
    assert!(all.iter().all(|p| !p.is_empty()));
}
