//! Choosing and driving the update strategy.
//!
//! `launch` builds the strategy the configuration selects.  The
//! driving loop itself (signal handling, sleeping, the network calls)
//! lives outside the library; each tick it feeds the resolver results
//! through `check_v4` and `check_v6`, sends the request that
//! `build_request` describes when `needs_update` says so, and hands
//! the transport outcome back through `update`, persisting exactly
//! what the returned commit lists.

use crate::config::API;
use crate::config::Config;
use crate::dyndns;
use crate::dyndns::DynDNS;
use crate::requests::Commit;
use crate::requests::UpdateRequest;
use crate::update;
use crate::update::Update;
use vstd::prelude::*;

verus! {

/// The strategy the configuration selected, held as one value.
pub enum Agent {
    Update(Update),
    DynDNS(DynDNS),
}

/// Builds the strategy that the configuration's mode selects, seeded
/// with the configuration's known-good addresses and account.
pub fn launch(config: &Config) -> (r: Agent)
    ensures
        config.api is Update ==> (r matches Agent::Update(u) && u@.v4 == config.current_ip.v4@
            && u@.v6 == config.current_ip.v6@ && u@.hostname == config.hostname@ && u@.token
            == config.token@ && u@.new_v4 is None && u@.new_v6 is None),
        config.api is DynDNS ==> (r matches Agent::DynDNS(d) && d@.v4 == config.current_ip.v4@
            && d@.v6 == config.current_ip.v6@ && d@.hostname == config.hostname@ && d@.username
            == "none"@ && d@.password == config.token@ && d@.new_v4 is None && d@.new_v6 is None
            && d@.myip.len() == 0),
{
    match config.api {
        API::Update => Agent::Update(Update::new(config)),
        API::DynDNS => Agent::DynDNS(DynDNS::new(config)),
    }
}

impl Agent {
    /// Applies the IPv4 resolver outcome for this tick to whichever
    /// strategy runs.
    pub fn check_v4(&mut self, resolved: Option<String>)
        ensures
            (*old(self)) matches Agent::Update(u) ==> ((*final(self)) matches Agent::Update(u2) && u2@
                == update::check_v4_spec(u@, resolved.deep_view())),
            (*old(self)) matches Agent::DynDNS(d) ==> ((*final(self)) matches Agent::DynDNS(d2) && d2@
                == dyndns::check_v4_spec(d@, resolved.deep_view())),
    {
        match self {
            Agent::Update(u) => u.check_v4(resolved),
            Agent::DynDNS(d) => d.check_v4(resolved),
        }
    }

    /// Applies the IPv6 resolver outcome for this tick to whichever
    /// strategy runs.
    pub fn check_v6(&mut self, resolved: Option<String>)
        ensures
            (*old(self)) matches Agent::Update(u) ==> ((*final(self)) matches Agent::Update(u2) && u2@
                == update::check_v6_spec(u@, resolved.deep_view())),
            (*old(self)) matches Agent::DynDNS(d) ==> ((*final(self)) matches Agent::DynDNS(d2) && d2@
                == dyndns::check_v6_spec(d@, resolved.deep_view())),
    {
        match self {
            Agent::Update(u) => u.check_v6(resolved),
            Agent::DynDNS(d) => d.check_v6(resolved),
        }
    }

    /// Whether this tick warrants a request at all; when it does not,
    /// the loop sends nothing and sleeps.
    pub fn needs_update(&self) -> (r: bool)
        ensures
            self matches Agent::Update(u) ==> r == update::needs_update_spec(u@),
            self matches Agent::DynDNS(d) ==> r == dyndns::needs_update_spec(d@),
    {
        match self {
            Agent::Update(u) => u.needs_update(),
            Agent::DynDNS(d) => d.needs_update(),
        }
    }

    /// The one request this tick sends for the staged changes.
    pub fn build_request(&self) -> (r: UpdateRequest)
        ensures
            self matches Agent::Update(u) ==> (r.url@ == "https://dynv6.com/api/update"@
                && r.basic_auth is None && r.query.deep_view() == update::request_pairs_spec(u@)),
            self matches Agent::DynDNS(d) ==> (r.url@ == "https://dynv6.com/nic/update"@
                && r.basic_auth.deep_view() == Some((d@.username, d@.password))
                && r.query.deep_view() == dyndns::request_pairs_spec(d@)),
    {
        match self {
            Agent::Update(u) => u.build_request(),
            Agent::DynDNS(d) => d.build_request(),
        }
    }

    /// Applies the transport outcome under whichever strategy runs:
    /// commits and reports the staged candidates on success, commits
    /// nothing on failure, and clears the stage either way.
    pub fn update(&mut self, response: Option<(u32, String)>) -> (writes: Commit)
        ensures
            (*old(self)) matches Agent::Update(u) ==> ((*final(self)) matches Agent::Update(u2) && u2@
                == update::commit_spec(u@, update::success_of(response.deep_view())) && (
            update::success_of(response.deep_view()) ==> writes.v4.deep_view() == u@.new_v4
                && writes.v6.deep_view() == u@.new_v6) && (!update::success_of(
                response.deep_view(),
            ) ==> writes.v4 is None && writes.v6 is None)),
            (*old(self)) matches Agent::DynDNS(d) ==> ((*final(self)) matches Agent::DynDNS(d2) && d2@
                == dyndns::commit_spec(d@, dyndns::success_of(response.deep_view())) && (
            dyndns::success_of(response.deep_view()) ==> writes.v4.deep_view() == d@.new_v4
                && writes.v6.deep_view() == d@.new_v6) && (!dyndns::success_of(
                response.deep_view(),
            ) ==> writes.v4 is None && writes.v6 is None)),
    {
        match self {
            Agent::Update(u) => u.update(response),
            Agent::DynDNS(d) => d.update(response),
        }
    }
}

} // verus!
