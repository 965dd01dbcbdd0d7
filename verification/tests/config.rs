use dynv6::config::Config;
use dynv6::config::CurrentIpAddr;
use dynv6::config::Log;
use dynv6::config::LogStyle;
use dynv6::config::API;
use dynv6::config::IPV4_FILE;
use dynv6::config::IPV6_FILE;
use dynv6::error::Error;
use dynv6::requests::StatusCode;

fn config(no_ipv4: bool, no_ipv6: bool) -> Config {
    Config {
        hostname: String::from("myhost.dynv6.net"),
        token: String::from("tok123"),
        no_ipv4,
        no_ipv6,
        interface: Config::interface(),
        interval_millis: Config::interval(),
        api: API::default(),
        current_ip: CurrentIpAddr {
            v4: String::new(),
            v6: String::new(),
        },
        log: Log::default(),
    }
}

#[test]
fn both_families_disabled_is_rejected_at_startup() {
    let cfg = config(true, true);
    let err = cfg.validate().unwrap_err();
    assert_eq!(err.message(), "no_ipv4 and no_ipv6 can't both be true !");
}

#[test]
fn other_family_combinations_are_accepted() {
    assert!(config(false, false).validate().is_ok());
    assert!(config(true, false).validate().is_ok());
    assert!(config(false, true).validate().is_ok());
}

#[test]
fn cache_round_trip_seeds_known_good_v4() {
    let seeded = CurrentIpAddr::from_cache(Some(String::from("203.0.113.5")), None);
    assert_eq!(seeded.v4, "203.0.113.5");
    assert_eq!(seeded.v6, "");
}

#[test]
fn garbage_or_missing_cache_content_counts_as_unknown() {
    let seeded = CurrentIpAddr::from_cache(
        Some(String::from("not an ip")),
        Some(String::from("2001:db8::1")),
    );
    assert_eq!(seeded.v4, "");
    assert_eq!(seeded.v6, "2001:db8::1");
    let seeded = CurrentIpAddr::from_cache(None, Some(String::from("203.0.113.5\n")));
    assert_eq!(seeded.v4, "");
    assert_eq!(seeded.v6, "");
}

#[test]
fn defaults_match_the_documented_values() {
    assert_eq!(Config::interface(), "eth0");
    assert_eq!(Config::interval(), 10000);
    assert_eq!(Log::level(), "dynv6=info");
    let log = Log::default();
    assert_eq!(log.level, "dynv6=info");
    assert_eq!(log.style, LogStyle::Auto);
    assert_eq!(API::default(), API::DynDNS);
    assert_eq!(LogStyle::default(), LogStyle::Auto);
}

#[test]
fn log_style_parsing_ignores_ascii_case() {
    assert_eq!(LogStyle::parse("auto").unwrap(), LogStyle::Auto);
    assert_eq!(LogStyle::parse("AUTO").unwrap(), LogStyle::Auto);
    assert_eq!(LogStyle::parse("Always").unwrap(), LogStyle::Always);
    assert_eq!(LogStyle::parse("never").unwrap(), LogStyle::Never);
    let err = LogStyle::parse("sometimes").unwrap_err();
    assert_eq!(err.message(), "sometimes");
    assert!(LogStyle::parse("").is_err());
}

#[test]
fn log_style_names() {
    assert_eq!(LogStyle::Auto.name(), "auto");
    assert_eq!(LogStyle::Always.name(), "always");
    assert_eq!(LogStyle::Never.name(), "never");
}

#[test]
fn status_code_success_range() {
    assert!(StatusCode(200).is_success());
    assert!(StatusCode(204).is_success());
    assert!(StatusCode(299).is_success());
    assert!(!StatusCode(300).is_success());
    assert!(!StatusCode(199).is_success());
    assert!(!StatusCode(404).is_success());
    assert!(!StatusCode(0).is_success());
}

#[test]
fn cache_file_names() {
    assert_eq!(IPV4_FILE, ".dynv6.addr4");
    assert_eq!(IPV6_FILE, ".dynv6.addr6");
}

#[test]
fn error_carries_its_message() {
    let e = Error(String::from("boom"));
    assert_eq!(e.message(), "boom");
    let e = dynv6::requests::Error(String::from("transport down"));
    assert_eq!(e.message(), "transport down");
}
