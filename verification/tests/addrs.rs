use relay::addrs::{
    format_saved_tcp_addrs, insert_sorted, parse_saved_tcp_addrs, validate_tcp_addr, AddrError,
};

fn strings(v: &[&str]) -> Vec<String> {
    v.iter().map(|s| s.to_string()).collect()
}

#[test]
fn validate_accepts_ip_and_port() {
    assert_eq!(validate_tcp_addr("127.0.0.1:9999"), Ok(()));
    assert_eq!(validate_tcp_addr("  10.0.0.2:7878 \n"), Ok(()));
    assert_eq!(validate_tcp_addr("[::1]:80"), Ok(()));
}

#[test]
fn validate_rejects_host_names_and_missing_ports() {
    assert_eq!(validate_tcp_addr("localhost:9999"), Err(AddrError::InvalidAddress));
    assert_eq!(validate_tcp_addr("127.0.0.1"), Err(AddrError::InvalidAddress));
    assert_eq!(validate_tcp_addr(""), Err(AddrError::InvalidAddress));
    assert_eq!(validate_tcp_addr("127.0.0.1:70000"), Err(AddrError::InvalidAddress));
}

#[test]
fn error_messages() {
    assert_eq!(
        AddrError::InvalidAddress.message(),
        "Invalid IP address. Use format: 127.0.0.1:9999"
    );
    assert_eq!(AddrError::MalformedList.message(), "InvalidTCP");
}

#[test]
fn insert_sorted_keeps_order_and_skips_repeats() {
    let mut list = Vec::new();
    insert_sorted(&mut list, "127.0.0.1:9999");
    insert_sorted(&mut list, "10.0.0.1:80");
    insert_sorted(&mut list, "192.168.0.1:1");
    insert_sorted(&mut list, "127.0.0.1:9999");
    assert_eq!(list, strings(&["10.0.0.1:80", "127.0.0.1:9999", "192.168.0.1:1"]));
    let mut sorted = list.clone();
    sorted.sort();
    assert_eq!(list, sorted);
}

#[test]
fn format_writes_bracketed_quoted_lines() {
    assert_eq!(format_saved_tcp_addrs(&[]), "[]\n");
    assert_eq!(
        format_saved_tcp_addrs(&strings(&["10.0.0.1:80", "127.0.0.1:9999"])),
        "[\n  \"10.0.0.1:80\",\n  \"127.0.0.1:9999\"\n]\n"
    );
}

#[test]
fn parse_reads_back_what_format_writes() {
    let list = strings(&["10.0.0.1:80", "127.0.0.1:9999", "[::1]:7878"]);
    assert_eq!(parse_saved_tcp_addrs(&format_saved_tcp_addrs(&list)), Ok(list));
    assert_eq!(parse_saved_tcp_addrs(&format_saved_tcp_addrs(&[])), Ok(Vec::new()));
}

#[test]
fn parse_sorts_deduplicates_and_skips_invalid_entries() {
    let text = "  [\"127.0.0.1:9999\", bogus, \"10.0.0.1:80\",127.0.0.1:9999 , \"\"\"1.2.3.4:5\"\"]\n";
    assert_eq!(
        parse_saved_tcp_addrs(text),
        Ok(strings(&["1.2.3.4:5", "10.0.0.1:80", "127.0.0.1:9999"]))
    );
    assert_eq!(parse_saved_tcp_addrs("[   ]"), Ok(Vec::new()));
}

#[test]
fn parse_refuses_unbracketed_text() {
    assert_eq!(parse_saved_tcp_addrs(""), Err(AddrError::MalformedList));
    assert_eq!(parse_saved_tcp_addrs("["), Err(AddrError::MalformedList));
    assert_eq!(parse_saved_tcp_addrs("\"127.0.0.1:9999\""), Err(AddrError::MalformedList));
}

#[test]
fn candidates_are_the_trimmed_unquoted_entries() {
    let body: Vec<char> = " \"a\" , b,\"\"c\"\" ".chars().collect();
    assert_eq!(relay::addrs::addr_candidates(&body), strings(&["a", "b", "c"]));
    let blank: Vec<char> = " \n ".chars().collect();
    assert!(relay::addrs::addr_candidates(&blank).is_empty());
}

#[test]
fn sorted_valid_addrs_keeps_the_marked_ones() {
    let cands = strings(&["z", "a", "m", "a", "q"]);
    let valid = [true, true, false, true, false];
    assert_eq!(relay::addrs::sorted_valid_addrs(&cands, &valid), strings(&["a", "z"]));
}
