use tcp_flows::address::{Endpoint, Ipv4Address};
use tcp_flows::connection::TcpConnection;
use tcp_flows::flow::{render_flow, render_one_way};
use tcp_flows::text::{append_decimal, contains};

fn decimal_text(n: u32) -> String {
    let mut out = String::new();
    append_decimal(&mut out, n);
    out
}

#[test]
fn decimal_of_zero_is_one_digit() {
    assert_eq!(decimal_text(0), "0");
}

#[test]
fn decimal_has_no_leading_zeros() {
    assert_eq!(decimal_text(7), "7");
    assert_eq!(decimal_text(10), "10");
    assert_eq!(decimal_text(255), "255");
    assert_eq!(decimal_text(51000), "51000");
    assert_eq!(decimal_text(65535), "65535");
    assert_eq!(decimal_text(1_000_000), "1000000");
    assert_eq!(decimal_text(u32::MAX), "4294967295");
}

#[test]
fn decimal_is_appended_to_what_is_there() {
    let mut out = String::from("port ");
    append_decimal(&mut out, 6379);
    assert_eq!(out, "port 6379");
}

#[test]
fn address_renders_as_dotted_quad() {
    assert_eq!(Ipv4Address::new(10, 0, 0, 5).to_text(), "10.0.0.5");
    assert_eq!(Ipv4Address::new(93, 184, 216, 34).to_text(), "93.184.216.34");
    assert_eq!(Ipv4Address::new(0, 0, 0, 0).to_text(), "0.0.0.0");
    assert_eq!(Ipv4Address::new(255, 255, 255, 255).to_text(), "255.255.255.255");
}

#[test]
fn address_bits_put_the_first_octet_first() {
    assert_eq!(Ipv4Address::new(10, 0, 0, 5).to_bits(), 0x0a00_0005);
    assert_eq!(Ipv4Address::new(255, 255, 255, 255).to_bits(), u32::MAX);
    assert_eq!(Ipv4Address::new(1, 2, 3, 4).to_bits(), 0x0102_0304);
}

#[test]
fn endpoint_renders_address_and_port() {
    let e = Endpoint::new(Ipv4Address::new(10, 0, 0, 5), 51000);
    assert_eq!(e.to_text(), "10.0.0.5:51000");
    assert_eq!(Endpoint::new(Ipv4Address::new(0, 0, 0, 0), 0).to_text(), "0.0.0.0:0");
    let mut out = String::from("from ");
    e.append_to(&mut out);
    assert_eq!(out, "from 10.0.0.5:51000");
}

#[test]
fn flow_key_joins_the_endpoints_with_a_double_arrow() {
    let a = Endpoint::new(Ipv4Address::new(93, 184, 216, 34), 80);
    let z = Endpoint::new(Ipv4Address::new(10, 0, 0, 5), 51000);
    assert_eq!(render_flow(a, z), "93.184.216.34:80<->10.0.0.5:51000");
    assert_eq!(render_flow(z, a), "10.0.0.5:51000<->93.184.216.34:80");
    assert_eq!(render_one_way(a, z), "93.184.216.34:80->10.0.0.5:51000");
}

#[test]
fn connection_renders_its_flows() {
    let c = TcpConnection::new(
        Ipv4Address::new(93, 184, 216, 34),
        80,
        Ipv4Address::new(10, 0, 0, 5),
        51000,
    );
    assert_eq!(c.get_flow(), "93.184.216.34:80<->10.0.0.5:51000");
    assert_eq!(c.get_a_z_flow(), "93.184.216.34:80->10.0.0.5:51000");
    assert_eq!(c.get_z_a_flow(), "10.0.0.5:51000->93.184.216.34:80");
    assert_eq!(
        c.get_flows(),
        vec![
            "93.184.216.34:80->10.0.0.5:51000".to_string(),
            "10.0.0.5:51000->93.184.216.34:80".to_string()
        ]
    );
}

#[test]
fn contains_finds_a_run_anywhere() {
    assert!(contains("10.0.0.5", "10.0"));
    assert!(contains("10.0.0.5", "0.5"));
    assert!(contains("10.0.0.5", ".0."));
    assert!(contains("10.0.0.5", "10.0.0.5"));
    assert!(contains("10.0.0.5", ""));
    assert!(contains("", ""));
}

#[test]
fn contains_rejects_what_is_not_there() {
    assert!(!contains("10.0.0.5", "10.0.0.50"));
    assert!(!contains("10.0.0.5", "5.0"));
    assert!(!contains("10.0.0.5", "*"));
    assert!(!contains("", "1"));
    assert!(!contains("10.0.0.5", "10.0.0.5 "));
}

#[test]
fn contains_counts_characters_not_bytes() {
    assert!(contains("a\u{e9}b", "\u{e9}b"));
    assert!(!contains("a\u{e9}b", "eb"));
}
