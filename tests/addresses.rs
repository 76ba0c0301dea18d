use ddns_update::ipv4::{first_ipv4, ipv4_only, parse_ipv4, HostAddr, Ipv4};
use ddns_update::run::{parse_host_ip, select_domain_ip, RunError};

#[test]
fn parses_dotted_literal() {
    assert_eq!(parse_ipv4("203.0.113.5"), Some(Ipv4::new(203, 0, 113, 5)));
    assert_eq!(parse_ipv4("0.0.0.0"), Some(Ipv4::new(0, 0, 0, 0)));
    assert_eq!(parse_ipv4("255.255.255.255"), Some(Ipv4::new(255, 255, 255, 255)));
    assert_eq!(parse_ipv4("10.20.100.9"), Some(Ipv4::new(10, 20, 100, 9)));
}

#[test]
fn rejects_malformed_literals() {
    for text in [
        "", "1.2.3", "1.2.3.4.5", "256.1.1.1", "1.2.3.256", "01.2.3.4", "1.2.3.04", "1..2.3",
        "1.2.3.4 ", " 1.2.3.4", "1.2.3.a", "1000.1.1.1", "not-an-ip", "::1", "1.2.3.4\n",
    ] {
        assert_eq!(parse_ipv4(text), None, "{:?}", text);
    }
}

#[test]
fn renders_dotted_literal() {
    assert_eq!(Ipv4::new(203, 0, 113, 5).to_text(), "203.0.113.5");
    assert_eq!(Ipv4::new(0, 10, 255, 100).to_text(), "0.10.255.100");
    assert_eq!(Ipv4::new(1, 2, 3, 4).octets(), [1, 2, 3, 4]);
}

#[test]
fn trailing_newline_is_trimmed() {
    assert_eq!(parse_host_ip("203.0.113.5\n"), Ok(Ipv4::new(203, 0, 113, 5)));
}

#[test]
fn surrounding_white_space_is_trimmed() {
    assert_eq!(parse_host_ip(" \t1.2.3.4\r\n"), Ok(Ipv4::new(1, 2, 3, 4)));
    assert_eq!(parse_host_ip("\u{a0}1.2.3.4\u{3000}"), Ok(Ipv4::new(1, 2, 3, 4)));
}

#[test]
fn body_that_is_no_address_is_a_parse_error() {
    assert_eq!(parse_host_ip("not-an-ip"), Err(RunError::Parse));
    assert_eq!(parse_host_ip(""), Err(RunError::Parse));
    assert_eq!(parse_host_ip("1.2.3.4 5"), Err(RunError::Parse));
    assert_eq!(parse_host_ip("2001:db8::1"), Err(RunError::Parse));
}

#[test]
fn keeps_ipv4_entries_in_order() {
    let addrs = vec![
        HostAddr::V6(1),
        HostAddr::V4(Ipv4::new(192, 0, 2, 7)),
        HostAddr::V6(2),
        HostAddr::V4(Ipv4::new(192, 0, 2, 3)),
    ];
    assert_eq!(ipv4_only(&addrs), vec![Ipv4::new(192, 0, 2, 7), Ipv4::new(192, 0, 2, 3)]);
    assert_eq!(first_ipv4(&addrs), Some(Ipv4::new(192, 0, 2, 7)));
    assert_eq!(select_domain_ip(&addrs), Ok(Ipv4::new(192, 0, 2, 7)));
}

#[test]
fn ipv6_only_resolution_has_no_ipv4_address() {
    let addrs = vec![HostAddr::V6(1), HostAddr::V6(2)];
    assert_eq!(ipv4_only(&addrs), vec![]);
    assert_eq!(first_ipv4(&addrs), None);
    assert_eq!(select_domain_ip(&addrs), Err(RunError::NoIpv4Address));
    assert_eq!(select_domain_ip(&vec![]), Err(RunError::NoIpv4Address));
}
