//! The immutable runtime handle produced by building a configuration.
//!
//! A built image holds the derived version tag, optional credentials, and
//! environment entries, plus a single-assignment slot for the state the
//! container engine reports after start. Endpoint queries are available
//! only once that state has been written; asking earlier is a caller bug,
//! ruled out by precondition, and the `try_` accessors answer `None`
//! instead of inventing a value.

use vstd::prelude::*;
use vstd::string::StringExecFns;
use crate::text::{dec_str, push_decimal};

verus! {

/// Host-mapped ports as the container engine reported them: pairs of
/// (container port, host port), one list per IP family. The first pair for
/// a container port wins.
pub struct ContainerState {
    pub ipv4: Vec<(u16, u16)>,
    pub ipv6: Vec<(u16, u16)>,
}

/// The host port mapped to `container_port`, if any.
pub open spec fn port_lookup(m: Seq<(u16, u16)>, container_port: u16) -> Option<u16>
    decreases m.len(),
{
    if m.len() == 0 {
        None
    } else if m[0].0 == container_port {
        Some(m[0].1)
    } else {
        port_lookup(m.drop_first(), container_port)
    }
}

impl ContainerState {
    /// A state from the engine's port mappings.
    pub fn new(ipv4: Vec<(u16, u16)>, ipv6: Vec<(u16, u16)>) -> (r: ContainerState)
        ensures
            r.ipv4 == ipv4,
            r.ipv6 == ipv6,
    {
        ContainerState { ipv4, ipv6 }
    }

    /// The host port for `container_port` over IPv4.
    pub fn host_port_ipv4(&self, container_port: u16) -> (r: Option<u16>)
        ensures
            r == port_lookup(self.ipv4@, container_port),
    {
        port_find(&self.ipv4, container_port)
    }

    /// The host port for `container_port` over IPv6.
    pub fn host_port_ipv6(&self, container_port: u16) -> (r: Option<u16>)
        ensures
            r == port_lookup(self.ipv6@, container_port),
    {
        port_find(&self.ipv6, container_port)
    }
}

fn port_find(m: &Vec<(u16, u16)>, container_port: u16) -> (r: Option<u16>)
    ensures
        r == port_lookup(m@, container_port),
{
    let n = m.len();
    let mut i: usize = 0;
    proof {
        assert(m@.skip(0) =~= m@);
    }
    while i < n
        invariant
            i <= n,
            n == m@.len(),
            port_lookup(m@, container_port) == port_lookup(m@.skip(i as int), container_port),
        decreases n - i,
    {
        proof {
            assert(m@.skip(i as int)[0] == m@[i as int]);
            assert(m@.skip(i as int).drop_first() =~= m@.skip(i as int + 1));
        }
        if m[i].0 == container_port {
            return Some(m[i].1);
        }
        i = i + 1;
    }
    proof {
        assert(m@.skip(n as int) =~= Seq::<(u16, u16)>::empty());
    }
    None
}

/// The container port Neo4j serves the Bolt protocol on.
pub open spec fn bolt_container_port() -> u16 {
    7687
}

/// The container port Neo4j serves HTTP on.
pub open spec fn http_container_port() -> u16 {
    7474
}

/// The runtime handle: the derived configuration of a Neo4j container,
/// plus the engine-reported state once the container has started.
pub struct Neo4jImage {
    pub version: String,
    pub auth: Option<(String, String)>,
    pub env_vars: Vec<(String, String)>,
    pub state: Option<ContainerState>,
}

impl Neo4jImage {
    /// Whether the engine has reported its post-start state.
    pub open spec fn started(self) -> bool {
        self.state is Some
    }

    /// The host port serving Bolt over IPv4, once started.
    pub open spec fn spec_bolt_port_ipv4(self) -> Option<u16> {
        match self.state {
            Some(cs) => port_lookup(cs.ipv4@, bolt_container_port()),
            None => None,
        }
    }

    /// The host port serving Bolt over IPv6, once started.
    pub open spec fn spec_bolt_port_ipv6(self) -> Option<u16> {
        match self.state {
            Some(cs) => port_lookup(cs.ipv6@, bolt_container_port()),
            None => None,
        }
    }

    /// The host port serving HTTP over IPv4, once started.
    pub open spec fn spec_http_port_ipv4(self) -> Option<u16> {
        match self.state {
            Some(cs) => port_lookup(cs.ipv4@, http_container_port()),
            None => None,
        }
    }

    /// The host port serving HTTP over IPv6, once started.
    pub open spec fn spec_http_port_ipv6(self) -> Option<u16> {
        match self.state {
            Some(cs) => port_lookup(cs.ipv6@, http_container_port()),
            None => None,
        }
    }

    /// The version tag of the image.
    pub fn version(&self) -> (r: &str)
        ensures
            r@ == self.version@,
    {
        self.version.as_str()
    }

    /// The user/password pair, absent when authentication is disabled.
    pub fn auth(&self) -> (r: Option<(&str, &str)>)
        ensures
            match (r, self.auth) {
                (Some(a), Some(b)) => a.0@ == b.0@ && a.1@ == b.1@,
                (None, None) => true,
                _ => false,
            },
    {
        match &self.auth {
            Some(a) => Some((a.0.as_str(), a.1.as_str())),
            None => None,
        }
    }

    /// The user, absent when authentication is disabled.
    pub fn user(&self) -> (r: Option<&str>)
        ensures
            match (r, self.auth) {
                (Some(u), Some(b)) => u@ == b.0@,
                (None, None) => true,
                _ => false,
            },
    {
        match &self.auth {
            Some(a) => Some(a.0.as_str()),
            None => None,
        }
    }

    /// The password, absent when authentication is disabled.
    pub fn password(&self) -> (r: Option<&str>)
        ensures
            match (r, self.auth) {
                (Some(p), Some(b)) => p@ == b.1@,
                (None, None) => true,
                _ => false,
            },
    {
        match &self.auth {
            Some(a) => Some(a.1.as_str()),
            None => None,
        }
    }

    /// The logical image name.
    pub fn name(&self) -> (r: String)
        ensures
            r@ == "neo4j"@,
    {
        String::from_str("neo4j")
    }

    /// The image tag: the derived version.
    pub fn tag(&self) -> (r: String)
        ensures
            r@ == self.version@,
    {
        self.version.clone()
    }

    /// The full image descriptor, `name:tag`.
    pub fn descriptor(&self) -> (r: String)
        ensures
            r@ == "neo4j:"@ + self.version@,
    {
        let mut s = String::from_str("neo4j:");
        s.append(self.version.as_str());
        s
    }

    /// The two log markers that must both appear on the container's
    /// standard output before it counts as ready.
    pub fn ready_conditions(&self) -> (r: Vec<String>)
        ensures
            r.deep_view() =~= seq!["Bolt enabled on"@, "Started."@],
    {
        let mut v: Vec<String> = Vec::new();
        v.push(String::from_str("Bolt enabled on"));
        v.push(String::from_str("Started."));
        v
    }

    /// The derived environment entries, in derivation order.
    pub fn env_vars(&self) -> (r: &Vec<(String, String)>)
        ensures
            r == &self.env_vars,
    {
        &self.env_vars
    }

    /// Whether the engine has reported its post-start state.
    pub fn is_started(&self) -> (r: bool)
        ensures
            r == self.started(),
    {
        match &self.state {
            Some(_) => true,
            None => false,
        }
    }

    /// Records the engine-reported state. Written exactly once, after the
    /// container has started; a second write is a caller bug.
    pub fn set_container_state(&mut self, cs: ContainerState)
        requires
            !old(self).started(),
        ensures
            final(self).state == Some(cs),
            final(self).version == old(self).version,
            final(self).auth == old(self).auth,
            final(self).env_vars == old(self).env_vars,
    {
        self.state = Some(cs);
    }

    /// The Bolt host port over IPv4. Query only after start.
    pub fn bolt_port_ipv4(&self) -> (r: u16)
        requires
            self.spec_bolt_port_ipv4() is Some,
        ensures
            Some(r) == self.spec_bolt_port_ipv4(),
    {
        match &self.state {
            Some(cs) => cs.host_port_ipv4(7687).unwrap(),
            None => vstd::pervasive::unreached(),
        }
    }

    /// The Bolt host port over IPv6. Query only after start.
    pub fn bolt_port_ipv6(&self) -> (r: u16)
        requires
            self.spec_bolt_port_ipv6() is Some,
        ensures
            Some(r) == self.spec_bolt_port_ipv6(),
    {
        match &self.state {
            Some(cs) => cs.host_port_ipv6(7687).unwrap(),
            None => vstd::pervasive::unreached(),
        }
    }

    /// The HTTP host port over IPv4. Query only after start.
    pub fn http_port_ipv4(&self) -> (r: u16)
        requires
            self.spec_http_port_ipv4() is Some,
        ensures
            Some(r) == self.spec_http_port_ipv4(),
    {
        match &self.state {
            Some(cs) => cs.host_port_ipv4(7474).unwrap(),
            None => vstd::pervasive::unreached(),
        }
    }

    /// The HTTP host port over IPv6. Query only after start.
    pub fn http_port_ipv6(&self) -> (r: u16)
        requires
            self.spec_http_port_ipv6() is Some,
        ensures
            Some(r) == self.spec_http_port_ipv6(),
    {
        match &self.state {
            Some(cs) => cs.host_port_ipv6(7474).unwrap(),
            None => vstd::pervasive::unreached(),
        }
    }

    /// The Bolt host port over IPv4, or `None` before start or without a
    /// mapping. Never invents a value.
    pub fn try_bolt_port_ipv4(&self) -> (r: Option<u16>)
        ensures
            r == self.spec_bolt_port_ipv4(),
    {
        match &self.state {
            Some(cs) => cs.host_port_ipv4(7687),
            None => None,
        }
    }

    /// The HTTP host port over IPv4, or `None` before start or without a
    /// mapping.
    pub fn try_http_port_ipv4(&self) -> (r: Option<u16>)
        ensures
            r == self.spec_http_port_ipv4(),
    {
        match &self.state {
            Some(cs) => cs.host_port_ipv4(7474),
            None => None,
        }
    }
}

/// The endpoint string `<scheme>://<host>:<port>`.
pub open spec fn spec_endpoint(scheme_host: Seq<char>, port: u16) -> Seq<char> {
    scheme_host + dec_str(port as nat)
}

/// Builds `prefix` followed by the decimal port.
pub(crate) fn endpoint_string(prefix: &str, port: u16) -> (r: String)
    ensures
        r@ == spec_endpoint(prefix@, port),
{
    let mut s = String::from_str(prefix);
    push_decimal(&mut s, port as usize);
    s
}

} // verus!
