use dynv6::addr::check_ip_literal;
use dynv6::addr::check_ipv4_literal;
use dynv6::addr::check_ipv6_literal;
use dynv6::addr::ipv6_text;
use dynv6::addr::split_parts;
use dynv6::text::join_with_commas;
use dynv6::text::trim;
use dynv6::text::str_eq;
use dynv6::text::eq_ignore_ascii_case;
use dynv6::util::check_link_local;
use dynv6::util::ipv4;
use dynv6::util::ipv6;
use dynv6::util::ipv6_candidate;

#[test]
fn ipv4_literals_accepted() {
    assert!(check_ipv4_literal("0.0.0.0"));
    assert!(check_ipv4_literal("255.255.255.255"));
    assert!(check_ipv4_literal("203.0.113.5"));
    assert!(check_ipv4_literal("1.2.3.4"));
    assert!(check_ipv4_literal("192.168.0.1"));
}

#[test]
fn ipv4_literals_rejected() {
    assert!(!check_ipv4_literal(""));
    assert!(!check_ipv4_literal("256.0.0.1"));
    assert!(!check_ipv4_literal("01.2.3.4"));
    assert!(!check_ipv4_literal("1.2.3"));
    assert!(!check_ipv4_literal("1.2.3.4.5"));
    assert!(!check_ipv4_literal("1.2.3.4 "));
    assert!(!check_ipv4_literal("a.b.c.d"));
    assert!(!check_ipv4_literal("1..2.3"));
    assert!(!check_ipv4_literal("1.2.3."));
    assert!(!check_ipv4_literal("-1.2.3.4"));
}

#[test]
fn ipv6_literals_accepted() {
    assert!(check_ipv6_literal("::"));
    assert!(check_ipv6_literal("::1"));
    assert!(check_ipv6_literal("1::"));
    assert!(check_ipv6_literal("1:2:3:4:5:6:7:8"));
    assert!(check_ipv6_literal("2001:db8::1"));
    assert!(check_ipv6_literal("fe80::1"));
    assert!(check_ipv6_literal("::ffff:1.2.3.4"));
    assert!(check_ipv6_literal("1:2:3:4:5:6:7.7.7.7"));
    assert!(check_ipv6_literal("1:2:3:4:5:6:7::"));
    assert!(check_ipv6_literal("ABCD:EF01::"));
    assert!(check_ipv6_literal("::1:2:3:4:5:6:7"));
    assert!(check_ipv6_literal("1::2.3.4.5"));
}

#[test]
fn ipv6_literals_rejected() {
    assert!(!check_ipv6_literal(""));
    assert!(!check_ipv6_literal(":"));
    assert!(!check_ipv6_literal(":::"));
    assert!(!check_ipv6_literal("1:2:3:4:5:6:7:8:9"));
    assert!(!check_ipv6_literal("1:2:3:4:5:6:7:8::"));
    assert!(!check_ipv6_literal(":1:2:3:4:5:6:7"));
    assert!(!check_ipv6_literal("1:2:3:4:5:6:7:"));
    assert!(!check_ipv6_literal("1::2::3"));
    assert!(!check_ipv6_literal("12345::"));
    assert!(!check_ipv6_literal("g::"));
    assert!(!check_ipv6_literal("1.2.3.4"));
    assert!(!check_ipv6_literal("1:2:3:4:5:6:7:1.2.3.4"));
    assert!(!check_ipv6_literal("::1.2.3.4.5"));
}

#[test]
fn either_family_is_an_ip_literal() {
    assert!(check_ip_literal("203.0.113.5"));
    assert!(check_ip_literal("2001:db8::1"));
    assert!(!check_ip_literal("not an address"));
    assert!(!check_ip_literal("203.0.113.5\n"));
}

#[test]
fn canonical_text_compresses_the_leftmost_longest_zero_run() {
    assert_eq!(ipv6_text(&[0, 0, 0, 0, 0, 0, 0, 0]), "::");
    assert_eq!(ipv6_text(&[0, 0, 0, 0, 0, 0, 0, 1]), "::1");
    assert_eq!(ipv6_text(&[0x2001, 0xdb8, 0, 0, 0, 0, 0, 1]), "2001:db8::1");
    assert_eq!(ipv6_text(&[1, 0, 0, 1, 0, 0, 0, 1]), "1:0:0:1::1");
    assert_eq!(ipv6_text(&[0, 0, 1, 0, 0, 1, 0, 0]), "::1:0:0:1:0:0");
    assert_eq!(ipv6_text(&[1, 2, 3, 4, 5, 6, 7, 8]), "1:2:3:4:5:6:7:8");
    assert_eq!(ipv6_text(&[1, 0, 2, 3, 4, 5, 6, 7]), "1:0:2:3:4:5:6:7");
    assert_eq!(ipv6_text(&[0xfe80, 0, 0, 0, 0, 0, 0, 0xabcd]), "fe80::abcd");
}

#[test]
fn formatted_addresses_parse_back_as_literals() {
    assert!(check_ipv6_literal(&ipv6_text(&[0, 0, 0, 0, 0, 0, 0, 0])));
    assert!(check_ipv6_literal(&ipv6_text(&[0x2001, 0xdb8, 0, 0, 0, 0, 0, 1])));
    assert!(check_ipv6_literal(&ipv6_text(&[1, 2, 3, 4, 5, 6, 7, 8])));
}

#[test]
fn link_local_detection() {
    assert!(check_link_local(&[0xfe80, 0, 0, 0, 0, 0, 0, 1]));
    assert!(check_link_local(&[0xfebf, 0, 0, 0, 0, 0, 0, 1]));
    assert!(!check_link_local(&[0xfec0, 0, 0, 0, 0, 0, 0, 1]));
    assert!(!check_link_local(&[0x2001, 0xdb8, 0, 0, 0, 0, 0, 1]));
}

#[test]
fn link_local_only_interface_yields_no_candidate() {
    let entries = vec![
        (String::from("eth0"), [0xfe80u16, 0, 0, 0, 0, 0, 0, 1]),
        (String::from("eth0"), [0xfe80u16, 0, 0, 0, 0, 0, 0, 2]),
    ];
    assert!(ipv6(&entries, "eth0").is_none());
    assert!(ipv6_candidate(&entries, "eth0").is_none());
}

#[test]
fn selection_ignores_other_interfaces_and_picks_the_smallest() {
    let entries = vec![
        (String::from("wlan0"), [0x2001u16, 0xdb8, 0, 0, 0, 0, 0, 1]),
        (String::from("eth0"), [0xfe80u16, 0, 0, 0, 0, 0, 0, 1]),
        (String::from("eth0"), [0x2001u16, 0xdb8, 0, 0, 0, 0, 0, 9]),
        (String::from("eth0"), [0x2001u16, 0xdb8, 0, 0, 0, 0, 0, 3]),
    ];
    assert_eq!(ipv6(&entries, "eth0"), Some([0x2001u16, 0xdb8, 0, 0, 0, 0, 0, 3]));
    assert_eq!(ipv6_candidate(&entries, "eth0").as_deref(), Some("2001:db8::3"));
    assert!(ipv6(&entries, "eth2").is_none());
}

#[test]
fn ipv4_candidate_takes_only_a_clean_literal_body() {
    assert_eq!(ipv4("203.0.113.5").as_deref(), Some("203.0.113.5"));
    assert_eq!(ipv4("2001:db8::1").as_deref(), Some("2001:db8::1"));
    assert!(ipv4("203.0.113.5\n").is_none());
    assert!(ipv4("<html>busy</html>").is_none());
    assert!(ipv4("").is_none());
}

#[test]
fn split_parts_cuts_at_every_separator() {
    let parts = split_parts("a.b..c", '.');
    assert_eq!(parts, vec!["a", "b", "", "c"]);
    let parts = split_parts("", ':');
    assert_eq!(parts, vec![""]);
}

#[test]
fn text_helpers() {
    assert_eq!(trim("  good\r\n"), "good");
    assert_eq!(trim("good"), "good");
    assert_eq!(trim(" \t "), "");
    assert!(str_eq("abc", "abc"));
    assert!(!str_eq("abc", "abd"));
    assert!(eq_ignore_ascii_case("AuTo", "auto"));
    assert!(!eq_ignore_ascii_case("aut", "auto"));
    let items = vec![String::from("1.2.3.4"), String::from("2001:db8::1")];
    assert_eq!(join_with_commas(&items), "1.2.3.4,2001:db8::1");
    assert_eq!(join_with_commas(&vec![]), "");
}
