//! The agent's configuration: provider account, enabled address
//! families, interface, poll interval, operation mode, logging knobs,
//! and the seeding of the known-good addresses from the cache files.
//!
//! The configuration is read from the environment outside the library
//! and handed in as plain values; this module validates it.  The poll
//! interval is held in milliseconds so the verified core stays in
//! integers; the environment value in seconds is converted before it
//! reaches the library.

use crate::addr::is_ip_literal;
use crate::addr::check_ip_literal;
use crate::error::Error;
use crate::text::lower_eq_seq;
use crate::text::eq_ignore_ascii_case;
use vstd::prelude::*;

verus! {

/// The cache file holding the last confirmed IPv4 address.
pub const IPV4_FILE: &'static str = ".dynv6.addr4";

/// The cache file holding the last confirmed IPv6 address.
pub const IPV6_FILE: &'static str = ".dynv6.addr6";

/// How log lines are styled.
#[derive(Debug, PartialEq, Eq, Structural)]
pub enum LogStyle {
    Auto,
    Always,
    Never,
}

impl Default for LogStyle {
    fn default() -> (r: Self)
        ensures
            r is Auto,
    {
        LogStyle::Auto
    }
}

impl LogStyle {
    /// Reads a style name, ignoring ASCII case: `auto`, `always` or
    /// `never`; anything else is rejected with the offending word.
    pub fn parse(s: &str) -> (r: Result<LogStyle, Error>)
        ensures
            r is Ok ==> (lower_eq_seq(s@, "auto"@) || lower_eq_seq(s@, "always"@) || lower_eq_seq(
                s@,
                "never"@,
            )),
            lower_eq_seq(s@, "auto"@) ==> r == Ok::<LogStyle, Error>(LogStyle::Auto),
            lower_eq_seq(s@, "always"@) ==> r == Ok::<LogStyle, Error>(LogStyle::Always),
            lower_eq_seq(s@, "never"@) ==> r == Ok::<LogStyle, Error>(LogStyle::Never),
            r is Err ==> r->Err_0.0@ == s@,
    {
        if eq_ignore_ascii_case(s, "auto") {
            proof {
                reveal_strlit("auto");
                reveal_strlit("always");
                reveal_strlit("never");
            }
            Ok(LogStyle::Auto)
        } else if eq_ignore_ascii_case(s, "always") {
            proof {
                reveal_strlit("auto");
                reveal_strlit("always");
                reveal_strlit("never");
            }
            Ok(LogStyle::Always)
        } else if eq_ignore_ascii_case(s, "never") {
            Ok(LogStyle::Never)
        } else {
            Err(Error(String::from_str(s)))
        }
    }

    /// The style's name, as the environment writes it.
    pub fn name(&self) -> (r: String)
        ensures
            self is Auto ==> r@ == "auto"@,
            self is Always ==> r@ == "always"@,
            self is Never ==> r@ == "never"@,
    {
        match self {
            LogStyle::Auto => String::from_str("auto"),
            LogStyle::Always => String::from_str("always"),
            LogStyle::Never => String::from_str("never"),
        }
    }
}

/// The logging knobs: a filter line and a style.
#[derive(Debug)]
pub struct Log {
    pub level: String,
    pub style: LogStyle,
}

impl Log {
    /// The default filter line.
    pub fn level() -> (r: String)
        ensures
            r@ == "dynv6=info"@,
    {
        String::from_str("dynv6=info")
    }
}

impl Default for Log {
    fn default() -> (r: Self)
        ensures
            r.level@ == "dynv6=info"@,
            r.style is Auto,
    {
        Log { level: Log::level(), style: LogStyle::Auto }
    }
}

/// What a cache file seeds: its content when that content is a valid
/// IP literal, and the empty string (no known value) otherwise, a
/// missing file included.
pub open spec fn seed_value(raw: Option<Seq<char>>) -> Seq<char> {
    match raw {
        Some(s) => if is_ip_literal(s) {
            s
        } else {
            Seq::empty()
        },
        None => Seq::empty(),
    }
}

/// What commit writes, load seeds back: any IP literal placed in a
/// cache file is reported as the known-good value on the next start.
pub proof fn lemma_cache_round_trip(s: Seq<char>)
    requires
        is_ip_literal(s),
    ensures
        seed_value(Some(s)) == s,
{
}

/// The canonical text of any IPv6 address is such a literal, so a
/// committed IPv6 candidate survives the round trip through its cache
/// file.
pub proof fn lemma_formatted_v6_round_trip(segs: Seq<u16>)
    requires
        segs.len() == 8,
    ensures
        seed_value(Some(crate::addr::ipv6_text_spec(segs))) == crate::addr::ipv6_text_spec(segs),
{
    crate::addr::lemma_canonical_text_is_literal(segs);
}

/// The last confirmed addresses, as text.  An empty string means no
/// value is known for that family.
#[derive(Debug)]
pub struct CurrentIpAddr {
    pub v4: String,
    pub v6: String,
}

impl CurrentIpAddr {
    /// Seeds the known-good addresses from the raw contents of the two
    /// cache files (`None` where a file could not be read).  Content
    /// that is not a valid IP literal counts as unknown, not as an
    /// error.
    pub fn from_cache(v4_raw: Option<String>, v6_raw: Option<String>) -> (r: Self)
        ensures
            r.v4@ == seed_value(v4_raw.deep_view()),
            r.v6@ == seed_value(v6_raw.deep_view()),
    {
        let v4 = match v4_raw {
            Some(s) => if check_ip_literal(s.as_str()) {
                s
            } else {
                String::new()
            },
            None => String::new(),
        };
        let v6 = match v6_raw {
            Some(s) => if check_ip_literal(s.as_str()) {
                s
            } else {
                String::new()
            },
            None => String::new(),
        };
        CurrentIpAddr { v4, v6 }
    }
}

/// The operation mode: the token-authenticated update endpoint, or the
/// DynDNS-compatible endpoint with basic auth.
#[derive(Debug, PartialEq, Eq, Structural)]
pub enum API {
    Update,
    DynDNS,
}

impl Default for API {
    fn default() -> (r: Self)
        ensures
            r is DynDNS,
    {
        API::DynDNS
    }
}

/// The process-wide configuration, built once at startup and passed by
/// reference into every component.
#[derive(Debug)]
pub struct Config {
    pub hostname: String,
    pub token: String,
    pub no_ipv4: bool,
    pub no_ipv6: bool,
    pub interface: String,
    pub interval_millis: u64,
    pub api: API,
    pub current_ip: CurrentIpAddr,
    pub log: Log,
}

impl Config {
    /// The default interface name.
    pub fn interface() -> (r: String)
        ensures
            r@ == "eth0"@,
    {
        String::from_str("eth0")
    }

    /// The default poll interval, in milliseconds.
    pub fn interval() -> (r: u64)
        ensures
            r == 10000,
    {
        10000
    }

    /// Whether at least one address family is enabled.  Disabling both
    /// leaves the agent nothing to do and is rejected at startup.
    pub open spec fn families_ok(&self) -> bool {
        !(self.no_ipv4 && self.no_ipv6)
    }

    /// Validates the configuration: it is rejected exactly when both
    /// address families are disabled.  The process aborts on the error
    /// before any network call.
    pub fn validate(&self) -> (r: Result<(), Error>)
        ensures
            r is Ok <==> self.families_ok(),
            r is Err ==> r->Err_0.0@ == "no_ipv4 and no_ipv6 can't both be true !"@,
    {
        if self.no_ipv4 && self.no_ipv6 {
            Err(Error(String::from_str("no_ipv4 and no_ipv6 can't both be true !")))
        } else {
            Ok(())
        }
    }
}

} // verus!
