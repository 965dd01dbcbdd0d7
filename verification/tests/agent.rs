use dynv6::api::launch;
use dynv6::api::Agent;
use dynv6::config::Config;
use dynv6::config::CurrentIpAddr;
use dynv6::config::Log;
use dynv6::config::LogStyle;
use dynv6::config::API;

fn config(api: API) -> Config {
    Config {
        hostname: String::from("myhost.dynv6.net"),
        token: String::from("tok123"),
        no_ipv4: false,
        no_ipv6: false,
        interface: Config::interface(),
        interval_millis: Config::interval(),
        api,
        current_ip: CurrentIpAddr {
            v4: String::from("1.2.3.4"),
            v6: String::from("2001:db8::1"),
        },
        log: Log {
            level: Log::level(),
            style: LogStyle::Auto,
        },
    }
}

#[test]
fn launch_picks_the_configured_strategy() {
    assert!(matches!(launch(&config(API::Update)), Agent::Update(_)));
    assert!(matches!(launch(&config(API::DynDNS)), Agent::DynDNS(_)));
}

#[test]
fn unchanged_addresses_issue_no_request() {
    let cfg = config(API::Update);
    let mut agent = launch(&cfg);
    for _tick in 0..2 {
        agent.check_v4(Some(String::from("1.2.3.4")));
        agent.check_v6(Some(String::from("2001:db8::1")));
        assert!(!agent.needs_update());
    }
}

#[test]
fn unchanged_addresses_issue_no_request_dyndns() {
    let cfg = config(API::DynDNS);
    let mut agent = launch(&cfg);
    agent.check_v4(Some(String::from("1.2.3.4")));
    agent.check_v6(Some(String::from("2001:db8::1")));
    assert!(!agent.needs_update());
}

#[test]
fn resolver_failure_issues_no_request() {
    let cfg = config(API::Update);
    let mut agent = launch(&cfg);
    agent.check_v4(None);
    agent.check_v6(None);
    assert!(!agent.needs_update());
}

#[test]
fn changed_ipv4_builds_one_request_without_ipv6() {
    let cfg = config(API::Update);
    let mut agent = launch(&cfg);
    agent.check_v4(Some(String::from("5.6.7.8")));
    agent.check_v6(Some(String::from("2001:db8::1")));
    assert!(agent.needs_update());
    let req = agent.build_request();
    assert_eq!(req.url, "https://dynv6.com/api/update");
    assert!(req.basic_auth.is_none());
    let expected = vec![
        (String::from("hostname"), String::from("myhost.dynv6.net")),
        (String::from("token"), String::from("tok123")),
        (String::from("ipv4"), String::from("5.6.7.8")),
    ];
    assert_eq!(req.query, expected);
    assert!(!req.query.iter().any(|p| p.0 == "ipv6"));
}

#[test]
fn token_update_payload_with_both_families_changed() {
    let cfg = config(API::Update);
    let mut agent = launch(&cfg);
    agent.check_v4(Some(String::from("5.6.7.8")));
    agent.check_v6(Some(String::from("2001:db8::5")));
    let req = agent.build_request();
    let expected = vec![
        (String::from("hostname"), String::from("myhost.dynv6.net")),
        (String::from("token"), String::from("tok123")),
        (String::from("ipv4"), String::from("5.6.7.8")),
        (String::from("ipv6"), String::from("2001:db8::5")),
    ];
    assert_eq!(req.query, expected);
    assert_eq!(
        req.full_url(),
        "https://dynv6.com/api/update?hostname=myhost.dynv6.net&token=tok123&ipv4=5.6.7.8&ipv6=2001%3Adb8%3A%3A5"
    );
}

#[test]
fn dyndns_payload_with_both_families_changed() {
    let cfg = config(API::DynDNS);
    let mut agent = launch(&cfg);
    agent.check_v4(Some(String::from("5.6.7.8")));
    agent.check_v6(Some(String::from("2001:db8::5")));
    let req = agent.build_request();
    assert_eq!(req.url, "https://dynv6.com/nic/update");
    assert_eq!(
        req.basic_auth,
        Some((String::from("none"), String::from("tok123")))
    );
    let expected = vec![
        (String::from("hostname"), String::from("myhost.dynv6.net")),
        (String::from("myip"), String::from("5.6.7.8,2001:db8::5")),
    ];
    assert_eq!(req.query, expected);
    assert_eq!(
        req.full_url(),
        "https://dynv6.com/nic/update?hostname=myhost.dynv6.net&myip=5.6.7.8%2C2001%3Adb8%3A%3A5"
    );
}

#[test]
fn success_commits_the_staged_candidates() {
    let cfg = config(API::Update);
    let mut agent = launch(&cfg);
    agent.check_v4(Some(String::from("5.6.7.8")));
    agent.check_v6(Some(String::from("2001:db8::1")));
    let writes = agent.update(Some((200, String::new())));
    assert_eq!(writes.v4.as_deref(), Some("5.6.7.8"));
    assert!(writes.v6.is_none());
    match &agent {
        Agent::Update(u) => {
            assert_eq!(u.v4, "5.6.7.8");
            assert_eq!(u.v6, "2001:db8::1");
        }
        Agent::DynDNS(_) => unreachable!(),
    }
    agent.check_v4(Some(String::from("5.6.7.8")));
    assert!(!agent.needs_update());
}

#[test]
fn dyndns_success_needs_the_good_body() {
    let cfg = config(API::DynDNS);
    let mut agent = launch(&cfg);
    agent.check_v4(Some(String::from("5.6.7.8")));
    let writes = agent.update(Some((200, String::from(" good\n"))));
    assert_eq!(writes.v4.as_deref(), Some("5.6.7.8"));
    match &agent {
        Agent::DynDNS(d) => assert_eq!(d.v4, "5.6.7.8"),
        Agent::Update(_) => unreachable!(),
    }
}

#[test]
fn dyndns_wrong_body_commits_nothing() {
    let cfg = config(API::DynDNS);
    let mut agent = launch(&cfg);
    agent.check_v4(Some(String::from("5.6.7.8")));
    let writes = agent.update(Some((200, String::from("nohost"))));
    assert!(writes.v4.is_none());
    assert!(writes.v6.is_none());
    match &agent {
        Agent::DynDNS(d) => {
            assert_eq!(d.v4, "1.2.3.4");
            assert!(d.new_v4.is_none());
            assert!(d.params.myip.is_empty());
        }
        Agent::Update(_) => unreachable!(),
    }
}

#[test]
fn bad_status_commits_nothing() {
    let cfg = config(API::Update);
    let mut agent = launch(&cfg);
    agent.check_v4(Some(String::from("5.6.7.8")));
    let writes = agent.update(Some((500, String::new())));
    assert!(writes.v4.is_none());
    match &agent {
        Agent::Update(u) => {
            assert_eq!(u.v4, "1.2.3.4");
            assert!(u.params.v4.is_none());
        }
        Agent::DynDNS(_) => unreachable!(),
    }
}

#[test]
fn transport_error_commits_nothing() {
    let cfg = config(API::DynDNS);
    let mut agent = launch(&cfg);
    agent.check_v4(Some(String::from("5.6.7.8")));
    let writes = agent.update(None);
    assert!(writes.v4.is_none());
    match &agent {
        Agent::DynDNS(d) => assert_eq!(d.v4, "1.2.3.4"),
        Agent::Update(_) => unreachable!(),
    }
}

#[test]
fn failure_discards_candidates_instead_of_retrying_them() {
    let cfg = config(API::Update);
    let mut agent = launch(&cfg);
    agent.check_v4(Some(String::from("5.6.7.8")));
    let _ = agent.update(Some((502, String::new())));
    assert!(!agent.needs_update());
    agent.check_v4(Some(String::from("5.6.7.8")));
    assert!(agent.needs_update());
}
