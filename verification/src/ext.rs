//! Extension traits: the fluent surface a test suite uses.
//!
//! `Neo4jExt` adds constructors to the configuration, `Neo4jImageExt` adds
//! connection-URI accessors to the runtime handle, and
//! `Neo4jRunnableImageExt` adds the enterprise-edition gate with its
//! license-acceptance side channel.

use vstd::prelude::*;
use crate::config::{Neo4j, Neo4jError, has_trimmed_line, spec_accepts_license,
    spec_expected_license_line};
use crate::deferred::{DeferredValue, ProcessEnv, env_lookup, resolve_spec};
use crate::image::{Neo4jImage, spec_endpoint};
use crate::version::valid_version;
use vstd::string::StringExecFns;

verus! {

/// Constructors for the configuration builder.
pub trait Neo4jExt: Sized {
    /// An environment-seeded configuration with the default user, password
    /// and version.
    fn from_env() -> (r: Neo4j)
        ensures
            r.wf(),
            !r.enterprise,
            r.plugins@ =~= Seq::<crate::plugins::Neo4jLabsPlugin>::empty(),
            forall|env: Seq<(Seq<char>, Seq<char>)>|
                resolve_spec(r.version, env) == (match env_lookup(env, "NEO4J_VERSION_TAG"@) {
                    Some(v) => Some(v),
                    None => Some("5"@),
                }),
            forall|env: Seq<(Seq<char>, Seq<char>)>|
                resolve_spec(r.user, env) == (match env_lookup(env, "NEO4J_TEST_USER"@) {
                    Some(v) => Some(v),
                    None => Some("neo4j"@),
                }),
            forall|env: Seq<(Seq<char>, Seq<char>)>|
                resolve_spec(r.pass, env) == (match env_lookup(env, "NEO4J_TEST_PASS"@) {
                    Some(v) => Some(v),
                    None => Some("password"@),
                }),
    ;

    /// An environment-seeded configuration with the given version. The
    /// version literal must be valid.
    fn from_version(version: &str) -> (r: Neo4j)
        requires
            valid_version(version@),
        ensures
            r.wf(),
            !r.enterprise,
            r.plugins@ =~= Seq::<crate::plugins::Neo4jLabsPlugin>::empty(),
            r.version matches DeferredValue::Explicit(s) && s@ == version@,
            forall|env: Seq<(Seq<char>, Seq<char>)>|
                resolve_spec(r.user, env) == (match env_lookup(env, "NEO4J_TEST_USER"@) {
                    Some(v) => Some(v),
                    None => Some("neo4j"@),
                }),
            forall|env: Seq<(Seq<char>, Seq<char>)>|
                resolve_spec(r.pass, env) == (match env_lookup(env, "NEO4J_TEST_PASS"@) {
                    Some(v) => Some(v),
                    None => Some("password"@),
                }),
    ;

    /// An environment-seeded configuration with the given version, user and
    /// password. The version literal must be valid.
    fn from_auth_and_version(version: &str, user: &str, pass: &str) -> (r: Neo4j)
        requires
            valid_version(version@),
        ensures
            r.wf(),
            !r.enterprise,
            r.plugins@ =~= Seq::<crate::plugins::Neo4jLabsPlugin>::empty(),
            r.version matches DeferredValue::Explicit(s) && s@ == version@,
            r.user matches DeferredValue::Explicit(s) && s@ == user@,
            r.pass matches DeferredValue::Explicit(s) && s@ == pass@,
    ;
}

impl Neo4jExt for Neo4j {
    fn from_env() -> (r: Neo4j) {
        Neo4j::from_env()
    }

    fn from_version(version: &str) -> (r: Neo4j) {
        let seeded = Neo4j::from_env();
        match seeded.with_version(version) {
            Ok(c) => c,
            Err(_) => vstd::pervasive::unreached(),
        }
    }

    fn from_auth_and_version(version: &str, user: &str, pass: &str) -> (r: Neo4j) {
        let seeded = Neo4j::from_env();
        let versioned = match seeded.with_version(version) {
            Ok(c) => c,
            Err(_) => vstd::pervasive::unreached(),
        };
        versioned.with_user(user).with_password(pass)
    }
}

/// Connection-URI accessors on the runtime handle. Available once the
/// container engine has reported its state; asking earlier is a caller
/// bug, ruled out by precondition.
pub trait Neo4jImageExt {
    /// Whether the Bolt IPv4 endpoint can be answered.
    spec fn spec_bolt_ipv4_ready(&self) -> bool;

    /// Whether the Bolt IPv6 endpoint can be answered.
    spec fn spec_bolt_ipv6_ready(&self) -> bool;

    /// Whether the HTTP IPv4 endpoint can be answered.
    spec fn spec_http_ipv4_ready(&self) -> bool;

    /// Whether the HTTP IPv6 endpoint can be answered.
    spec fn spec_http_ipv6_ready(&self) -> bool;

    /// The Bolt IPv4 connection URI.
    spec fn spec_bolt_uri_ipv4(&self) -> Seq<char>;

    /// The Bolt IPv6 connection URI.
    spec fn spec_bolt_uri_ipv6(&self) -> Seq<char>;

    /// The HTTP IPv4 connection URI.
    spec fn spec_http_uri_ipv4(&self) -> Seq<char>;

    /// The HTTP IPv6 connection URI.
    spec fn spec_http_uri_ipv6(&self) -> Seq<char>;

    /// The URI to reach the server via Bolt over IPv4.
    fn bolt_uri_ipv4(&self) -> (r: String)
        requires
            self.spec_bolt_ipv4_ready(),
        ensures
            r@ == self.spec_bolt_uri_ipv4(),
    ;

    /// The URI to reach the server via Bolt over IPv6.
    fn bolt_uri_ipv6(&self) -> (r: String)
        requires
            self.spec_bolt_ipv6_ready(),
        ensures
            r@ == self.spec_bolt_uri_ipv6(),
    ;

    /// The URI to reach the server via HTTP over IPv4.
    fn http_uri_ipv4(&self) -> (r: String)
        requires
            self.spec_http_ipv4_ready(),
        ensures
            r@ == self.spec_http_uri_ipv4(),
    ;

    /// The URI to reach the server via HTTP over IPv6.
    fn http_uri_ipv6(&self) -> (r: String)
        requires
            self.spec_http_ipv6_ready(),
        ensures
            r@ == self.spec_http_uri_ipv6(),
    ;
}

impl Neo4jImageExt for Neo4jImage {
    open spec fn spec_bolt_ipv4_ready(&self) -> bool {
        self.spec_bolt_port_ipv4() is Some
    }

    open spec fn spec_bolt_ipv6_ready(&self) -> bool {
        self.spec_bolt_port_ipv6() is Some
    }

    open spec fn spec_http_ipv4_ready(&self) -> bool {
        self.spec_http_port_ipv4() is Some
    }

    open spec fn spec_http_ipv6_ready(&self) -> bool {
        self.spec_http_port_ipv6() is Some
    }

    open spec fn spec_bolt_uri_ipv4(&self) -> Seq<char> {
        spec_endpoint("bolt://127.0.0.1:"@, self.spec_bolt_port_ipv4().unwrap())
    }

    open spec fn spec_bolt_uri_ipv6(&self) -> Seq<char> {
        spec_endpoint("bolt://[::1]:"@, self.spec_bolt_port_ipv6().unwrap())
    }

    open spec fn spec_http_uri_ipv4(&self) -> Seq<char> {
        spec_endpoint("http://127.0.0.1:"@, self.spec_http_port_ipv4().unwrap())
    }

    open spec fn spec_http_uri_ipv6(&self) -> Seq<char> {
        spec_endpoint("http://[::1]:"@, self.spec_http_port_ipv6().unwrap())
    }

    fn bolt_uri_ipv4(&self) -> (r: String) {
        let port = self.bolt_port_ipv4();
        crate::image::endpoint_string("bolt://127.0.0.1:", port)
    }

    fn bolt_uri_ipv6(&self) -> (r: String) {
        let port = self.bolt_port_ipv6();
        crate::image::endpoint_string("bolt://[::1]:", port)
    }

    fn http_uri_ipv4(&self) -> (r: String) {
        let port = self.http_port_ipv4();
        crate::image::endpoint_string("http://127.0.0.1:", port)
    }

    fn http_uri_ipv6(&self) -> (r: String) {
        let port = self.http_port_ipv6();
        crate::image::endpoint_string("http://[::1]:", port)
    }
}

/// The enterprise-edition gate on a configuration that is about to run.
pub trait Neo4jRunnableImageExt: Sized {
    /// Whether the enterprise edition is already configured.
    spec fn spec_enterprise(&self) -> bool;

    /// The line the acceptance file must contain for this configuration.
    spec fn spec_license_line(&self, env: Seq<(Seq<char>, Seq<char>)>) -> Seq<char>;

    /// `other` is this configuration with the enterprise edition switched
    /// on and everything else as it was.
    spec fn spec_as_enterprise(&self, other: Self) -> bool;

    /// The configuration marked enterprise, when it already is or when the
    /// acceptance file shows the required line; `LicenseNotAccepted`
    /// otherwise, carrying the file name and the exact line to put there.
    ///
    /// `license_lines` are the lines of `container-license-acceptance.txt`
    /// in the current working directory, as the caller read them; a
    /// missing or unreadable file reads as no lines.
    fn with_enterprise_edition(&self, env: &ProcessEnv, license_lines: &Vec<String>) -> (r: Result<
        Self,
        Neo4jError,
    >)
        ensures
            r is Ok <==> (self.spec_enterprise() || spec_accepts_license(
                license_lines.deep_view(),
                self.spec_license_line(env@),
            )),
            r matches Ok(c) ==> self.spec_as_enterprise(c),
            r matches Err(e) ==> (e matches Neo4jError::LicenseNotAccepted {
                acceptance_file,
                expected_line,
            } && acceptance_file@ == "container-license-acceptance.txt"@ && expected_line@
                == self.spec_license_line(env@)),
    ;
}

impl Neo4jRunnableImageExt for Neo4j {
    open spec fn spec_enterprise(&self) -> bool {
        self.enterprise
    }

    open spec fn spec_license_line(&self, env: Seq<(Seq<char>, Seq<char>)>) -> Seq<char> {
        spec_expected_license_line(*self, env)
    }

    open spec fn spec_as_enterprise(&self, other: Neo4j) -> bool {
        &&& other.version == self.version
        &&& other.user == self.user
        &&& other.pass == self.pass
        &&& other.plugins@ == self.plugins@
        &&& other.enterprise
    }

    fn with_enterprise_edition(&self, env: &ProcessEnv, license_lines: &Vec<String>) -> (r: Result<
        Neo4j,
        Neo4jError,
    >) {
        if self.enterprise {
            return Ok(self.clone());
        }
        let resolved = match self.version.resolve(env) {
            Some(v) => v,
            None => String::new(),
        };
        let mut expected = String::from_str("neo4j:");
        expected.append(resolved.as_str());
        expected.append("-enterprise");
        proof {
            assert(expected@ =~= spec_expected_license_line(*self, env@));
        }
        if has_trimmed_line(license_lines, expected.as_str()) {
            let mut c = self.clone();
            c.enterprise = true;
            Ok(c)
        } else {
            Err(Neo4jError::LicenseNotAccepted {
                acceptance_file: String::from_str("container-license-acceptance.txt"),
                expected_line: expected,
            })
        }
    }
}

} // verus!
