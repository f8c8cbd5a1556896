use router::endpoint::{Address, Endpoint};
use router::ipv4::Ipv4;
use router::text::{chars_of, digit_str, eq_ignoring_case, eq_range, eq_str, find, parse_number, push_decimal, to_lower};

#[test]
fn endpoint_text_is_exact() {
    let endpoint = Endpoint { address: Address::V4(Ipv4(127, 0, 0, 1)), port: 8080 };
    assert_eq!(endpoint.to_text(), "127.0.0.1:8080".to_string());
    let endpoint = Endpoint { address: Address::V4(Ipv4(0, 0, 0, 0)), port: 0 };
    assert_eq!(endpoint.to_text(), "0.0.0.0:0".to_string());
    let endpoint = Endpoint { address: Address::V4(Ipv4(255, 255, 255, 255)), port: 65535 };
    assert_eq!(endpoint.to_text(), "255.255.255.255:65535".to_string());
    let endpoint = Endpoint { address: Address::V4(Ipv4(192, 168, 1, 136)), port: 2345 };
    assert_eq!(endpoint.to_text(), "192.168.1.136:2345".to_string());
}

#[test]
fn endpoint_is_read_from_text() {
    assert_eq!(
        Endpoint::parse("127.0.0.1:8080"),
        Some(Endpoint { address: Address::V4(Ipv4(127, 0, 0, 1)), port: 8080 })
    );
    assert_eq!(
        Endpoint::parse("192.168.1.136:2345"),
        Some(Endpoint { address: Address::V4(Ipv4(192, 168, 1, 136)), port: 2345 })
    );
    assert_eq!(
        Endpoint::parse("0.0.0.0:0"),
        Some(Endpoint { address: Address::V4(Ipv4(0, 0, 0, 0)), port: 0 })
    );
    assert_eq!(
        Endpoint::parse("255.255.255.255:65535"),
        Some(Endpoint { address: Address::V4(Ipv4(255, 255, 255, 255)), port: 65535 })
    );
    assert_eq!(
        Endpoint::parse("1.2.3.4:0080"),
        Some(Endpoint { address: Address::V4(Ipv4(1, 2, 3, 4)), port: 80 })
    );
}

#[test]
fn endpoint_rejects_what_is_none() {
    for text in [
        "",
        ":",
        "127.0.0.1",
        "127.0.0.1:",
        ":8080",
        "127.0.0:8080",
        "127.0.0.0.1:8080",
        "127.0.0.256:80",
        "127.0.0.01:80",
        "127.0.0.1:65536",
        "127.0.0.1:80:90",
        "127.0.0.1:-1",
        "127.0.0.1:+1",
        "127.0.0.1: 80",
        " 127.0.0.1:80",
        "127..0.1:80",
        "1270.0.0.1:80",
        "a.b.c.d:80",
        "localhost:80",
        "[::1]",
        "::1:80",
        "127.0.0.1:8o",
        "١٢٧.0.0.1:80",
    ] {
        assert_eq!(Endpoint::parse(text), None, "{}", text);
    }
}

#[test]
fn every_octet_and_port_edge_round_trips() {
    for octet in [0u8, 1, 9, 10, 99, 100, 199, 200, 255] {
        for port in [0u16, 1, 9, 10, 99, 100, 999, 1000, 9999, 10000, 65535] {
            let endpoint = Endpoint { address: Address::V4(Ipv4(octet, 255 - octet, octet, 0)), port };
            assert_eq!(Endpoint::parse(&endpoint.to_text()), Some(endpoint));
        }
    }
}

#[test]
fn endpoint_within_a_longer_text() {
    let chars: Vec<char> = "a=10.0.0.1:53,b".chars().collect();
    assert_eq!(
        Endpoint::parse_range(&chars, 2, 13),
        Some(Endpoint { address: Address::V4(Ipv4(10, 0, 0, 1)), port: 53 })
    );
    assert_eq!(Endpoint::parse_range(&chars, 2, 12), Some(Endpoint { address: Address::V4(Ipv4(10, 0, 0, 1)), port: 5 }));
    assert_eq!(Endpoint::parse_range(&chars, 0, 13), None);
    assert_eq!(Endpoint::parse_range(&chars, 2, 15), None);
    assert_eq!(Ipv4::parse_range(&chars, 2, 10), Some(Ipv4(10, 0, 0, 1)));
    assert_eq!(Ipv4::parse_range(&chars, 2, 9), None);
}

#[test]
fn texts_are_appended() {
    let mut out = "to ".to_string();
    Endpoint { address: Address::V4(Ipv4(8, 8, 4, 4)), port: 53 }.push_text(&mut out);
    assert_eq!(out, "to 8.8.4.4:53".to_string());
    let mut out = "[".to_string();
    Ipv4(1, 20, 255, 0).push_text(&mut out);
    assert_eq!(out, "[1.20.255.0".to_string());
}

#[test]
fn numbers_are_read_within_a_limit() {
    let chars: Vec<char> = "x0255y".chars().collect();
    assert_eq!(parse_number(&chars, 1, 5, 255), Some(255));
    assert_eq!(parse_number(&chars, 1, 5, 254), None);
    assert_eq!(parse_number(&chars, 2, 5, 255), Some(255));
    assert_eq!(parse_number(&chars, 1, 2, 0), Some(0));
    assert_eq!(parse_number(&chars, 1, 1, 255), None);
    assert_eq!(parse_number(&chars, 0, 5, 255), None);
    assert_eq!(parse_number(&chars, 1, 6, 255), None);
    let chars: Vec<char> = "18446744073709551615".chars().collect();
    assert_eq!(parse_number(&chars, 0, chars.len(), u64::MAX), Some(u64::MAX));
    let chars: Vec<char> = "18446744073709551616".chars().collect();
    assert_eq!(parse_number(&chars, 0, chars.len(), u64::MAX), None);
    let chars: Vec<char> = "99999999999999999999999".chars().collect();
    assert_eq!(parse_number(&chars, 0, chars.len(), u64::MAX), None);
    assert_eq!(parse_number(&chars, 0, chars.len(), 5), None);
}

#[test]
fn numbers_are_written_without_leading_zeros() {
    for (number, text) in [(0u64, "0"), (7, "7"), (10, "10"), (1500, "1500"), (u64::MAX, "18446744073709551615")] {
        let mut out = String::new();
        push_decimal(&mut out, number);
        assert_eq!(out, text.to_string());
    }
    let mut out = "n=".to_string();
    push_decimal(&mut out, 42);
    assert_eq!(out, "n=42".to_string());
    assert_eq!(digit_str(0), "0");
    assert_eq!(digit_str(9), "9");
}

#[test]
fn marks_are_found() {
    let chars: Vec<char> = "a,b,,c".chars().collect();
    assert_eq!(find(&chars, 0, 6, ','), 1);
    assert_eq!(find(&chars, 1, 6, ','), 1);
    assert_eq!(find(&chars, 2, 6, ','), 3);
    assert_eq!(find(&chars, 5, 6, ','), 6);
    assert_eq!(find(&chars, 0, 1, ','), 1);
    assert_eq!(find(&chars, 0, 0, ','), 0);
    assert_eq!(find(&chars, 0, 6, ';'), 6);
}

#[test]
fn texts_are_compared() {
    assert_eq!(chars_of("añb"), vec!['a', 'ñ', 'b']);
    assert_eq!(chars_of(""), Vec::<char>::new());
    assert!(eq_str("GET", "GET"));
    assert!(!eq_str("GET", "get"));
    assert!(!eq_str("GET", "GETS"));
    assert!(eq_str("", ""));
    let chars: Vec<char> = "/rules/12".chars().collect();
    assert!(eq_range(&chars, 0, 7, "/rules/"));
    assert!(!eq_range(&chars, 0, 6, "/rules/"));
    assert!(!eq_range(&chars, 1, 8, "/rules/"));
    let chars: Vec<char> = "BroadCast".chars().collect();
    assert!(eq_ignoring_case(&chars, "broadcast"));
    assert!(!eq_ignoring_case(&chars, "broadcasts"));
    assert!(!eq_ignoring_case(&chars, "broadcart"));
    assert_eq!(to_lower('A'), 'a');
    assert_eq!(to_lower('Z'), 'z');
    assert_eq!(to_lower('a'), 'a');
    assert_eq!(to_lower('@'), '@');
    assert_eq!(to_lower('['), '[');
    assert_eq!(to_lower('É'), 'É');
}
