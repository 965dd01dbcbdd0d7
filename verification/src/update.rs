//! The Token-Update strategy: one GET to the token-authenticated
//! endpoint, with the hostname, the token, and only the changed
//! address families as query parameters.  Any response with a status
//! in `[200, 300)` counts as success; the body is not inspected.

use crate::config::Config;
use crate::requests::Commit;
use crate::requests::StatusCode;
use crate::requests::UpdateRequest;
use vstd::prelude::*;

verus! {

/// The query parameters of the Token-Update request: hostname and
/// token always, each address family only while it is staged.
pub struct Params {
    pub hostname: String,
    pub token: String,
    pub v4: Option<String>,
    pub v6: Option<String>,
}

impl Params {
    /// Fresh parameters with nothing staged.
    pub fn new(hostname: String, token: String) -> (r: Self)
        ensures
            r.hostname@ == hostname@,
            r.token@ == token@,
            r.v4 is None,
            r.v6 is None,
    {
        Params { hostname, token, v4: None, v6: None }
    }
}

/// The abstract state of the strategy: the known-good addresses, the
/// account, and the candidates staged for this tick.
pub struct UpdateView {
    pub v4: Seq<char>,
    pub v6: Seq<char>,
    pub hostname: Seq<char>,
    pub token: Seq<char>,
    pub new_v4: Option<Seq<char>>,
    pub new_v6: Option<Seq<char>>,
}

/// What checking one family does to its staged candidate: a freshly
/// resolved address differing from the known-good value is staged;
/// an equal address, or no resolved address, leaves the stage alone.
pub open spec fn stage(
    known: Seq<char>,
    staged: Option<Seq<char>>,
    resolved: Option<Seq<char>>,
) -> Option<Seq<char>> {
    match resolved {
        Some(a) => if a != known {
            Some(a)
        } else {
            staged
        },
        None => staged,
    }
}

/// The state after checking the IPv4 family.
pub open spec fn check_v4_spec(s: UpdateView, resolved: Option<Seq<char>>) -> UpdateView {
    UpdateView { new_v4: stage(s.v4, s.new_v4, resolved), ..s }
}

/// The state after checking the IPv6 family.
pub open spec fn check_v6_spec(s: UpdateView, resolved: Option<Seq<char>>) -> UpdateView {
    UpdateView { new_v6: stage(s.v6, s.new_v6, resolved), ..s }
}

/// Whether this tick warrants a request: some family is staged.
pub open spec fn needs_update_spec(s: UpdateView) -> bool {
    s.new_v4 is Some || s.new_v6 is Some
}

/// Whether the transport outcome counts as success for this strategy:
/// a response arrived and its status lies in `[200, 300)`.
pub open spec fn success_of(resp: Option<(u32, Seq<char>)>) -> bool {
    match resp {
        Some(p) => 200 <= p.0 < 300,
        None => false,
    }
}

/// The query pairs of the request, in order: `hostname`, `token`, then
/// `ipv4` and `ipv6` only for the staged families.
pub open spec fn request_pairs_spec(s: UpdateView) -> Seq<(Seq<char>, Seq<char>)> {
    let base = seq![("hostname"@, s.hostname), ("token"@, s.token)];
    let with4 = if s.new_v4 is Some {
        base.push(("ipv4"@, s.new_v4->0))
    } else {
        base
    };
    if s.new_v6 is Some {
        with4.push(("ipv6"@, s.new_v6->0))
    } else {
        with4
    }
}

/// The state after the tick's outcome is applied: success moves each
/// staged candidate into the known-good value; failure changes no
/// known-good value; either way the stage is cleared, so a failed
/// update is recomputed fresh next tick, never retried early.
pub open spec fn commit_spec(s: UpdateView, success: bool) -> UpdateView {
    UpdateView {
        v4: if success && s.new_v4 is Some {
            s.new_v4->0
        } else {
            s.v4
        },
        v6: if success && s.new_v6 is Some {
            s.new_v6->0
        } else {
            s.v6
        },
        new_v4: None,
        new_v6: None,
        ..s
    }
}

/// The Token-Update strategy's state.
pub struct Update {
    pub v4: String,
    pub v6: String,
    pub params: Params,
}

impl View for Update {
    type V = UpdateView;

    open spec fn view(&self) -> UpdateView {
        UpdateView {
            v4: self.v4@,
            v6: self.v6@,
            hostname: self.params.hostname@,
            token: self.params.token@,
            new_v4: self.params.v4.deep_view(),
            new_v6: self.params.v6.deep_view(),
        }
    }
}

impl Update {
    /// A fresh strategy: known-good values from the configuration's
    /// seeded addresses, nothing staged.
    pub fn new(config: &Config) -> (r: Self)
        ensures
            r@.v4 == config.current_ip.v4@,
            r@.v6 == config.current_ip.v6@,
            r@.hostname == config.hostname@,
            r@.token == config.token@,
            r@.new_v4 is None,
            r@.new_v6 is None,
    {
        Update {
            v4: config.current_ip.v4.clone(),
            v6: config.current_ip.v6.clone(),
            params: Params::new(config.hostname.clone(), config.token.clone()),
        }
    }

    /// Applies the IPv4 resolver outcome for this tick.
    pub fn check_v4(&mut self, resolved: Option<String>)
        ensures
            final(self)@ == check_v4_spec(old(self)@, resolved.deep_view()),
    {
        match resolved {
            Some(a) => {
                if a != self.v4 {
                    self.params.v4 = Some(a);
                }
            },
            None => {},
        }
    }

    /// Applies the IPv6 resolver outcome for this tick.
    pub fn check_v6(&mut self, resolved: Option<String>)
        ensures
            final(self)@ == check_v6_spec(old(self)@, resolved.deep_view()),
    {
        match resolved {
            Some(a) => {
                if a != self.v6 {
                    self.params.v6 = Some(a);
                }
            },
            None => {},
        }
    }

    /// Whether this tick warrants a request at all.
    pub fn needs_update(&self) -> (r: bool)
        ensures
            r == needs_update_spec(self@),
    {
        self.params.v4.is_some() || self.params.v6.is_some()
    }

    /// The request for the staged changes: no basic auth, and exactly
    /// the pairs `request_pairs_spec` lists.
    pub fn build_request(&self) -> (r: UpdateRequest)
        ensures
            r.url@ == "https://dynv6.com/api/update"@,
            r.basic_auth is None,
            r.query.deep_view() == request_pairs_spec(self@),
    {
        let mut q: Vec<(String, String)> = Vec::new();
        q.push((String::from_str("hostname"), self.params.hostname.clone()));
        q.push((String::from_str("token"), self.params.token.clone()));
        match &self.params.v4 {
            Some(a) => q.push((String::from_str("ipv4"), a.clone())),
            None => {},
        }
        match &self.params.v6 {
            Some(a) => q.push((String::from_str("ipv6"), a.clone())),
            None => {},
        }
        proof {
            assert(q.deep_view() =~~= request_pairs_spec(self@));
        }
        UpdateRequest {
            url: String::from_str("https://dynv6.com/api/update"),
            basic_auth: None,
            query: q,
        }
    }

    /// Applies the transport outcome: on success the staged candidates
    /// become known-good and are handed back for persistence; on
    /// failure nothing is persisted and nothing known-good changes.
    /// The stage is cleared either way.
    pub fn update(&mut self, response: Option<(u32, String)>) -> (writes: Commit)
        ensures
            final(self)@ == commit_spec(old(self)@, success_of(response.deep_view())),
            success_of(response.deep_view()) ==> writes.v4.deep_view() == old(self)@.new_v4
                && writes.v6.deep_view() == old(self)@.new_v6,
            !success_of(response.deep_view()) ==> writes.v4 is None && writes.v6 is None,
    {
        let success = match &response {
            Some(p) => {
                let sc = StatusCode(p.0);
                sc.is_success()
            },
            None => false,
        };
        let w4: Option<String>;
        let w6: Option<String>;
        if success {
            match &self.params.v4 {
                Some(a) => {
                    self.v4 = a.clone();
                    w4 = Some(a.clone());
                },
                None => {
                    w4 = None;
                },
            }
            match &self.params.v6 {
                Some(a) => {
                    self.v6 = a.clone();
                    w6 = Some(a.clone());
                },
                None => {
                    w6 = None;
                },
            }
        } else {
            w4 = None;
            w6 = None;
        }
        self.params.v4 = None;
        self.params.v6 = None;
        Commit { v4: w4, v6: w6 }
    }
}

/// When the freshly resolved addresses both equal the known-good
/// values, a tick stages nothing, so no update request is issued.
pub proof fn lemma_idempotence(s: UpdateView)
    requires
        s.new_v4 is None,
        s.new_v6 is None,
    ensures
        !needs_update_spec(check_v6_spec(check_v4_spec(s, Some(s.v4)), Some(s.v6))),
{
}

/// When only the IPv4 address changes, the one request built carries
/// exactly the hostname, the token and the new IPv4 value; the
/// unchanged IPv6 family is omitted.
pub proof fn lemma_change_detection(s: UpdateView, a: Seq<char>)
    requires
        s.new_v4 is None,
        s.new_v6 is None,
        a != s.v4,
    ensures
        ({
            let s2 = check_v6_spec(check_v4_spec(s, Some(a)), Some(s.v6));
            &&& needs_update_spec(s2)
            &&& request_pairs_spec(s2) == seq![
                ("hostname"@, s.hostname),
                ("token"@, s.token),
                ("ipv4"@, a),
            ]
        }),
{
    let s2 = check_v6_spec(check_v4_spec(s, Some(a)), Some(s.v6));
    assert(request_pairs_spec(s2) =~= seq![
        ("hostname"@, s.hostname),
        ("token"@, s.token),
        ("ipv4"@, a),
    ]);
}

/// When both families change, the request carries exactly the four
/// parameters `hostname`, `token`, `ipv4` and `ipv6`, in that order.
pub proof fn lemma_payload_both_changed(s: UpdateView, a4: Seq<char>, a6: Seq<char>)
    requires
        s.new_v4 is None,
        s.new_v6 is None,
        a4 != s.v4,
        a6 != s.v6,
    ensures
        ({
            let s2 = check_v6_spec(check_v4_spec(s, Some(a4)), Some(a6));
            request_pairs_spec(s2) == seq![
                ("hostname"@, s.hostname),
                ("token"@, s.token),
                ("ipv4"@, a4),
                ("ipv6"@, a6),
            ]
        }),
{
    let s2 = check_v6_spec(check_v4_spec(s, Some(a4)), Some(a6));
    assert(request_pairs_spec(s2) =~= seq![
        ("hostname"@, s.hostname),
        ("token"@, s.token),
        ("ipv4"@, a4),
        ("ipv6"@, a6),
    ]);
}

/// Success commits exactly the staged candidates and failure commits
/// nothing; the stage is cleared either way.
pub proof fn lemma_success_commits_failure_does_not(s: UpdateView)
    ensures
        commit_spec(s, true).v4 == (if s.new_v4 is Some {
            s.new_v4->0
        } else {
            s.v4
        }),
        commit_spec(s, true).v6 == (if s.new_v6 is Some {
            s.new_v6->0
        } else {
            s.v6
        }),
        commit_spec(s, false).v4 == s.v4,
        commit_spec(s, false).v6 == s.v6,
        commit_spec(s, true).new_v4 is None,
        commit_spec(s, true).new_v6 is None,
        commit_spec(s, false).new_v4 is None,
        commit_spec(s, false).new_v6 is None,
{
}

} // verus!
