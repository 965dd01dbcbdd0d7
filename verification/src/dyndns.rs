//! The DynDNS-compatible strategy: one GET to the DynDNS endpoint with
//! HTTP basic auth (username `none`, password the account token), the
//! hostname, and every changed address joined into one `myip` value.
//! Success needs both a status in `[200, 300)` and a response body
//! that, trimmed, is exactly `good`; any other body is a failure even
//! with a success status.

use crate::config::Config;
use crate::requests::Commit;
use crate::requests::StatusCode;
use crate::requests::UpdateRequest;
use crate::text::join_comma;
use crate::text::join_with_commas;
use crate::text::str_eq;
use crate::text::trim;
use crate::text::trim_spec;
use vstd::prelude::*;

verus! {

/// The request parameters of the DynDNS request: the hostname and the
/// changed addresses gathered in detection order.
pub struct Params {
    pub hostname: String,
    pub myip: Vec<String>,
}

impl Params {
    /// Fresh parameters with no addresses gathered.
    pub fn new(hostname: String) -> (r: Self)
        ensures
            r.hostname@ == hostname@,
            r.myip@.len() == 0,
    {
        Params { hostname, myip: Vec::new() }
    }
}

/// The abstract state of the strategy: the known-good addresses, the
/// account, the staged candidates, and the gathered `myip` values.
pub struct DynDnsView {
    pub v4: Seq<char>,
    pub v6: Seq<char>,
    pub hostname: Seq<char>,
    pub username: Seq<char>,
    pub password: Seq<char>,
    pub new_v4: Option<Seq<char>>,
    pub new_v6: Option<Seq<char>>,
    pub myip: Seq<Seq<char>>,
}

/// The state after checking the IPv4 family: a resolved address that
/// differs from the known-good value is staged and gathered; anything
/// else changes nothing.
pub open spec fn check_v4_spec(s: DynDnsView, resolved: Option<Seq<char>>) -> DynDnsView {
    match resolved {
        Some(a) => if a != s.v4 {
            DynDnsView { new_v4: Some(a), myip: s.myip.push(a), ..s }
        } else {
            s
        },
        None => s,
    }
}

/// The state after checking the IPv6 family.
pub open spec fn check_v6_spec(s: DynDnsView, resolved: Option<Seq<char>>) -> DynDnsView {
    match resolved {
        Some(a) => if a != s.v6 {
            DynDnsView { new_v6: Some(a), myip: s.myip.push(a), ..s }
        } else {
            s
        },
        None => s,
    }
}

/// Whether this tick warrants a request: some address was gathered.
pub open spec fn needs_update_spec(s: DynDnsView) -> bool {
    s.myip.len() > 0
}

/// Whether the transport outcome counts as success for this strategy:
/// a response arrived, its status lies in `[200, 300)`, and its body,
/// trimmed of surrounding whitespace, is exactly `good`.
pub open spec fn success_of(resp: Option<(u32, Seq<char>)>) -> bool {
    match resp {
        Some(p) => 200 <= p.0 < 300 && trim_spec(p.1) == "good"@,
        None => false,
    }
}

/// The query pairs of the request: the hostname, and the gathered
/// addresses joined with commas as one `myip` value.
pub open spec fn request_pairs_spec(s: DynDnsView) -> Seq<(Seq<char>, Seq<char>)> {
    seq![("hostname"@, s.hostname), ("myip"@, join_comma(s.myip))]
}

/// The state after the tick's outcome is applied: success moves each
/// staged candidate into the known-good value; failure changes no
/// known-good value; either way the stage and the gathered addresses
/// are cleared.
pub open spec fn commit_spec(s: DynDnsView, success: bool) -> DynDnsView {
    DynDnsView {
        v4: if success && s.new_v4 is Some {
            s.new_v4->0
        } else {
            s.v4
        },
        v6: if success && s.new_v6 is Some {
            s.new_v6->0
        } else {
            s.v6
        },
        new_v4: None,
        new_v6: None,
        myip: Seq::empty(),
        ..s
    }
}

/// The DynDNS strategy's state.
pub struct DynDNS {
    pub v4: String,
    pub v6: String,
    pub new_v4: Option<String>,
    pub new_v6: Option<String>,
    pub params: Params,
    pub username: String,
    pub password: String,
}

impl View for DynDNS {
    type V = DynDnsView;

    open spec fn view(&self) -> DynDnsView {
        DynDnsView {
            v4: self.v4@,
            v6: self.v6@,
            hostname: self.params.hostname@,
            username: self.username@,
            password: self.password@,
            new_v4: self.new_v4.deep_view(),
            new_v6: self.new_v6.deep_view(),
            myip: self.params.myip.deep_view(),
        }
    }
}

impl DynDNS {
    /// A fresh strategy: known-good values from the configuration's
    /// seeded addresses, basic-auth username `none` with the account
    /// token as password, nothing staged.
    pub fn new(config: &Config) -> (r: Self)
        ensures
            r@.v4 == config.current_ip.v4@,
            r@.v6 == config.current_ip.v6@,
            r@.hostname == config.hostname@,
            r@.username == "none"@,
            r@.password == config.token@,
            r@.new_v4 is None,
            r@.new_v6 is None,
            r@.myip.len() == 0,
    {
        DynDNS {
            v4: config.current_ip.v4.clone(),
            v6: config.current_ip.v6.clone(),
            new_v4: None,
            new_v6: None,
            params: Params::new(config.hostname.clone()),
            username: String::from_str("none"),
            password: config.token.clone(),
        }
    }

    /// Applies the IPv4 resolver outcome for this tick.
    pub fn check_v4(&mut self, resolved: Option<String>)
        ensures
            final(self)@ == check_v4_spec(old(self)@, resolved.deep_view()),
    {
        match resolved {
            Some(a) => {
                if a != self.v4 {
                    self.params.myip.push(a.clone());
                    self.new_v4 = Some(a);
                    proof {
                        assert(self@.myip =~= old(self)@.myip.push(self@.new_v4->0));
                    }
                }
            },
            None => {},
        }
    }

    /// Applies the IPv6 resolver outcome for this tick.
    pub fn check_v6(&mut self, resolved: Option<String>)
        ensures
            final(self)@ == check_v6_spec(old(self)@, resolved.deep_view()),
    {
        match resolved {
            Some(a) => {
                if a != self.v6 {
                    self.params.myip.push(a.clone());
                    self.new_v6 = Some(a);
                    proof {
                        assert(self@.myip =~= old(self)@.myip.push(self@.new_v6->0));
                    }
                }
            },
            None => {},
        }
    }

    /// Whether this tick warrants a request at all.
    pub fn needs_update(&self) -> (r: bool)
        ensures
            r == needs_update_spec(self@),
    {
        self.params.myip.len() > 0
    }

    /// The request for the gathered changes: basic auth with the
    /// strategy's username and password, and exactly the pairs
    /// `request_pairs_spec` lists.
    pub fn build_request(&self) -> (r: UpdateRequest)
        ensures
            r.url@ == "https://dynv6.com/nic/update"@,
            r.basic_auth.deep_view() == Some((self@.username, self@.password)),
            r.query.deep_view() == request_pairs_spec(self@),
    {
        let mut q: Vec<(String, String)> = Vec::new();
        q.push((String::from_str("hostname"), self.params.hostname.clone()));
        q.push((String::from_str("myip"), join_with_commas(&self.params.myip)));
        proof {
            assert(q.deep_view() =~~= request_pairs_spec(self@));
        }
        UpdateRequest {
            url: String::from_str("https://dynv6.com/nic/update"),
            basic_auth: Some((self.username.clone(), self.password.clone())),
            query: q,
        }
    }

    /// Applies the transport outcome: on success the staged candidates
    /// become known-good and are handed back for persistence; on
    /// failure nothing is persisted and nothing known-good changes.
    /// The stage and the gathered addresses are cleared either way.
    pub fn update(&mut self, response: Option<(u32, String)>) -> (writes: Commit)
        ensures
            final(self)@ == commit_spec(old(self)@, success_of(response.deep_view())),
            success_of(response.deep_view()) ==> writes.v4.deep_view() == old(self)@.new_v4
                && writes.v6.deep_view() == old(self)@.new_v6,
            !success_of(response.deep_view()) ==> writes.v4 is None && writes.v6 is None,
    {
        let success = match &response {
            Some(p) => {
                let sc = StatusCode(p.0);
                let body_good = str_eq(trim(p.1.as_str()), "good");
                sc.is_success() && body_good
            },
            None => false,
        };
        let w4: Option<String>;
        let w6: Option<String>;
        if success {
            match &self.new_v4 {
                Some(a) => {
                    self.v4 = a.clone();
                    w4 = Some(a.clone());
                },
                None => {
                    w4 = None;
                },
            }
            match &self.new_v6 {
                Some(a) => {
                    self.v6 = a.clone();
                    w6 = Some(a.clone());
                },
                None => {
                    w6 = None;
                },
            }
        } else {
            w4 = None;
            w6 = None;
        }
        self.new_v4 = None;
        self.new_v6 = None;
        self.params.myip = Vec::new();
        proof {
            assert(self@.myip =~= Seq::<Seq<char>>::empty());
        }
        Commit { v4: w4, v6: w6 }
    }
}

/// When the freshly resolved addresses both equal the known-good
/// values, a tick gathers nothing, so no update request is issued.
pub proof fn lemma_idempotence(s: DynDnsView)
    requires
        s.myip.len() == 0,
    ensures
        !needs_update_spec(check_v6_spec(check_v4_spec(s, Some(s.v4)), Some(s.v6))),
{
}

/// When only the IPv4 address changes, the one request built carries
/// exactly the hostname and the new address as the whole `myip`
/// value; the unchanged IPv6 family contributes nothing.
pub proof fn lemma_change_detection(s: DynDnsView, a: Seq<char>)
    requires
        s.myip.len() == 0,
        a != s.v4,
    ensures
        ({
            let s2 = check_v6_spec(check_v4_spec(s, Some(a)), Some(s.v6));
            &&& needs_update_spec(s2)
            &&& request_pairs_spec(s2) == seq![("hostname"@, s.hostname), ("myip"@, a)]
        }),
{
    let s2 = check_v6_spec(check_v4_spec(s, Some(a)), Some(s.v6));
    assert(s2.myip =~= seq![a]);
    assert(join_comma(seq![a]) == a);
    assert(request_pairs_spec(s2) =~= seq![("hostname"@, s.hostname), ("myip"@, a)]);
}

/// When both families change, the `myip` value is the two addresses
/// joined by one comma, IPv4 first.
pub proof fn lemma_payload_both_changed(s: DynDnsView, a4: Seq<char>, a6: Seq<char>)
    requires
        s.myip.len() == 0,
        a4 != s.v4,
        a6 != s.v6,
    ensures
        ({
            let s2 = check_v6_spec(check_v4_spec(s, Some(a4)), Some(a6));
            request_pairs_spec(s2) == seq![("hostname"@, s.hostname), ("myip"@, a4 + seq![','] + a6)]
        }),
{
    let s2 = check_v6_spec(check_v4_spec(s, Some(a4)), Some(a6));
    assert(s2.myip =~= seq![a4, a6]);
    assert(seq![a4, a6].drop_last() =~= seq![a4]);
    assert(join_comma(seq![a4]) == a4);
    assert(join_comma(seq![a4, a6]) == a4 + seq![','] + a6);
    assert(request_pairs_spec(s2) =~= seq![("hostname"@, s.hostname), ("myip"@, a4 + seq![','] + a6)]);
}

/// Success commits exactly the staged candidates and failure commits
/// nothing; the stage is cleared either way.
pub proof fn lemma_success_commits_failure_does_not(s: DynDnsView)
    ensures
        commit_spec(s, true).v4 == (if s.new_v4 is Some {
            s.new_v4->0
        } else {
            s.v4
        }),
        commit_spec(s, true).v6 == (if s.new_v6 is Some {
            s.new_v6->0
        } else {
            s.v6
        }),
        commit_spec(s, false).v4 == s.v4,
        commit_spec(s, false).v6 == s.v6,
        commit_spec(s, true).new_v4 is None,
        commit_spec(s, true).new_v6 is None,
        commit_spec(s, false).new_v4 is None,
        commit_spec(s, false).new_v6 is None,
        commit_spec(s, true).myip.len() == 0,
        commit_spec(s, false).myip.len() == 0,
{
}

} // verus!
