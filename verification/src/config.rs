//! The configuration builder and the derivation of the runtime image.
//!
//! A builder accumulates deferred values for version, user and password,
//! the edition flag and the plugin set. Every mutator returns a new
//! configuration with one field overridden and the rest preserved; a
//! failing mutator returns an error and leaves nothing half-changed.
//! `build` resolves the deferred values against a process-environment
//! snapshot and derives the environment entries and version tag, each a
//! pure function of the configuration and the snapshot.

use vstd::prelude::*;
use vstd::string::{StrSliceExecFns, StringExecFns};
use crate::deferred::{DeferredValue, ProcessEnv, env_lookup, resolve_spec};
use crate::image::Neo4jImage;
use crate::plugins::{Neo4jLabsPlugin, canonical_keys, canonicalize, keys_of, plugins_env_value,
    plugins_value};
use crate::text::{dec_str, str_eq, trim_spec, trimmed, usize_to_string};
use crate::version::{valid_version, validate_version};

verus! {

/// The two ways configuring can fail. Everything else is total.
#[derive(Debug)]
pub enum Neo4jError {
    /// The version literal is not `MAJOR[.MINOR[.PATCH]]` with purely
    /// numeric segments.
    InvalidVersion { literal: String },
    /// The enterprise edition was requested without the acceptance file
    /// containing the required line.
    LicenseNotAccepted { acceptance_file: String, expected_line: String },
}

/// The remediation text for a license failure: the file to create and the
/// line it must contain.
pub open spec fn spec_license_message(file: Seq<char>, line: Seq<char>) -> Seq<char> {
    "You need to accept the Neo4j Enterprise Edition license by creating the file `"@ + file
        + "` with the following content:\n\n\t"@ + line
}

impl Neo4jError {
    /// A human-readable description of the failure.
    pub fn message(&self) -> (r: String)
        ensures
            match self {
                Neo4jError::InvalidVersion { literal } => r@ == "invalid Neo4j version tag: "@
                    + literal@,
                Neo4jError::LicenseNotAccepted { acceptance_file, expected_line } => r@
                    == spec_license_message(acceptance_file@, expected_line@),
            },
    {
        match self {
            Neo4jError::InvalidVersion { literal } => {
                let mut s = String::from_str("invalid Neo4j version tag: ");
                s.append(literal.as_str());
                s
            },
            Neo4jError::LicenseNotAccepted { acceptance_file, expected_line } => {
                let mut s = String::from_str(
                    "You need to accept the Neo4j Enterprise Edition license by creating the file `",
                );
                s.append(acceptance_file.as_str());
                s.append("` with the following content:\n\n\t");
                s.append(expected_line.as_str());
                s
            },
        }
    }
}

/// The accumulated configuration of a Neo4j container.
#[derive(Debug)]
pub struct Neo4j {
    /// The version tag, never `Unset`.
    pub version: DeferredValue,
    /// The user; `Unset` disables authentication.
    pub user: DeferredValue,
    /// The password; `Unset` disables authentication.
    pub pass: DeferredValue,
    /// Whether the enterprise edition was requested and its license
    /// acceptance shown.
    pub enterprise: bool,
    /// The plugins, as they were added.
    pub plugins: Vec<Neo4jLabsPlugin>,
}

impl Neo4j {
    /// A builder never holds an invalid explicit version, and its version
    /// always resolves.
    pub open spec fn wf(self) -> bool {
        &&& !(self.version is Unset)
        &&& (self.version matches DeferredValue::Explicit(s) ==> valid_version(s@))
    }
}

/// The resolved version tag, before any edition suffix.
pub open spec fn spec_resolved_version(c: Neo4j, env: Seq<(Seq<char>, Seq<char>)>) -> Seq<char> {
    match resolve_spec(c.version, env) {
        Some(v) => v,
        None => Seq::<char>::empty(),
    }
}

/// The derived version tag: resolved, with `-enterprise` appended exactly
/// when the enterprise edition is configured.
pub open spec fn spec_full_version(c: Neo4j, env: Seq<(Seq<char>, Seq<char>)>) -> Seq<char> {
    spec_resolved_version(c, env) + if c.enterprise {
        "-enterprise"@
    } else {
        Seq::<char>::empty()
    }
}

/// The resolved credentials; absent exactly when user or password is unset.
pub open spec fn spec_auth(c: Neo4j, env: Seq<(Seq<char>, Seq<char>)>) -> Option<
    (Seq<char>, Seq<char>),
> {
    match (resolve_spec(c.user, env), resolve_spec(c.pass, env)) {
        (Some(u), Some(p)) => Some((u, p)),
        _ => None,
    }
}

/// The derived auth entry value: `user/password`, or the disabling token.
pub open spec fn spec_auth_value(c: Neo4j, env: Seq<(Seq<char>, Seq<char>)>) -> Seq<char> {
    match spec_auth(c, env) {
        Some(a) => a.0 + "/"@ + a.1,
        None => "none"@,
    }
}

/// The password-length override entries: one entry carrying the exact
/// length when authentication is enabled and the password is shorter than
/// eight characters, none otherwise.
pub open spec fn spec_policy_entries(c: Neo4j, env: Seq<(Seq<char>, Seq<char>)>) -> Seq<
    (Seq<char>, Seq<char>),
> {
    match spec_auth(c, env) {
        Some(a) => if a.1.len() < 8 {
            seq![("NEO4J_dbms_security_auth__minimum__password__length"@, dec_str(a.1.len()))]
        } else {
            Seq::<(Seq<char>, Seq<char>)>::empty()
        },
        None => Seq::<(Seq<char>, Seq<char>)>::empty(),
    }
}

/// The derived environment mapping, in derivation order: the auth entry,
/// the plugin entry when the set is non-empty, the password-length
/// override when owed, and the license-agreement entry when enterprise.
/// The four key names are distinct literals, so no step overwrites
/// another.
pub open spec fn spec_env_entries(c: Neo4j, env: Seq<(Seq<char>, Seq<char>)>) -> Seq<
    (Seq<char>, Seq<char>),
> {
    seq![("NEO4J_AUTH"@, spec_auth_value(c, env))] + (if c.plugins@.len() > 0 {
        seq![("NEO4JLABS_PLUGINS"@, plugins_value(canonical_keys(keys_of(c.plugins@))))]
    } else {
        Seq::<(Seq<char>, Seq<char>)>::empty()
    }) + spec_policy_entries(c, env) + (if c.enterprise {
        seq![("NEO4J_ACCEPT_LICENSE_AGREEMENT"@, "yes"@)]
    } else {
        Seq::<(Seq<char>, Seq<char>)>::empty()
    })
}

/// The line the acceptance file must contain for this configuration.
pub open spec fn spec_expected_license_line(c: Neo4j, env: Seq<(Seq<char>, Seq<char>)>) -> Seq<
    char,
> {
    "neo4j:"@ + spec_resolved_version(c, env) + "-enterprise"@
}

/// Whether some line of the acceptance file, whitespace-trimmed, is
/// exactly the expected one.
pub open spec fn spec_accepts_license(lines: Seq<Seq<char>>, expected: Seq<char>) -> bool {
    exists|i: int| 0 <= i < lines.len() && trim_spec(#[trigger] lines[i]) == expected
}

impl Clone for Neo4j {
    fn clone(&self) -> (res: Self)
        ensures
            res.version == self.version,
            res.user == self.user,
            res.pass == self.pass,
            res.enterprise == self.enterprise,
            res.plugins@ == self.plugins@,
    {
        Neo4j {
            version: self.version.clone(),
            user: self.user.clone(),
            pass: self.pass.clone(),
            enterprise: self.enterprise,
            plugins: clone_plugins(&self.plugins),
        }
    }
}

fn clone_plugins(ps: &Vec<Neo4jLabsPlugin>) -> (r: Vec<Neo4jLabsPlugin>)
    ensures
        r@ == ps@,
{
    let mut r: Vec<Neo4jLabsPlugin> = Vec::new();
    let n = ps.len();
    let mut i: usize = 0;
    while i < n
        invariant
            i <= n,
            n == ps@.len(),
            r@ == ps@.subrange(0, i as int),
        decreases n - i,
    {
        r.push(ps[i].clone());
        proof {
            assert(r@ =~= ps@.subrange(0, i as int + 1));
        }
        i = i + 1;
    }
    proof {
        assert(ps@.subrange(0, n as int) =~= ps@);
    }
    r
}

impl Neo4j {
    /// A fresh builder: all-default literals, community edition, no
    /// plugins.
    pub fn new() -> (r: Neo4j)
        ensures
            r.wf(),
            !r.enterprise,
            r.plugins@ =~= Seq::<Neo4jLabsPlugin>::empty(),
            forall|env: Seq<(Seq<char>, Seq<char>)>|
                resolve_spec(r.version, env) == Some("5"@),
            forall|env: Seq<(Seq<char>, Seq<char>)>|
                resolve_spec(r.user, env) == Some("neo4j"@),
            forall|env: Seq<(Seq<char>, Seq<char>)>|
                resolve_spec(r.pass, env) == Some("password"@),
    {
        Neo4j {
            version: DeferredValue::DefaultLiteral(String::from_str("5")),
            user: DeferredValue::DefaultLiteral(String::from_str("neo4j")),
            pass: DeferredValue::DefaultLiteral(String::from_str("password")),
            enterprise: false,
            plugins: Vec::new(),
        }
    }

    /// An environment-seeded builder: version, user and password default to
    /// environment-variable lookups, falling back to the fresh builder's
    /// literals.
    pub fn from_env() -> (r: Neo4j)
        ensures
            r.wf(),
            !r.enterprise,
            r.plugins@ =~= Seq::<Neo4jLabsPlugin>::empty(),
            forall|env: Seq<(Seq<char>, Seq<char>)>|
                resolve_spec(r.version, env) == (match env_lookup(env, "NEO4J_VERSION_TAG"@) {
                    Some(v) => Some(v),
                    None => Some("5"@),
                }),
            forall|env: Seq<(Seq<char>, Seq<char>)>|
                resolve_spec(r.user, env) == (match env_lookup(env, "NEO4J_TEST_USER"@) {
                    Some(v) => Some(v),
                    None => Some("neo4j"@),
                }),
            forall|env: Seq<(Seq<char>, Seq<char>)>|
                resolve_spec(r.pass, env) == (match env_lookup(env, "NEO4J_TEST_PASS"@) {
                    Some(v) => Some(v),
                    None => Some("password"@),
                }),
    {
        Neo4j {
            version: DeferredValue::FromEnvironment {
                variable: String::from_str("NEO4J_VERSION_TAG"),
                fallback: String::from_str("5"),
            },
            user: DeferredValue::FromEnvironment {
                variable: String::from_str("NEO4J_TEST_USER"),
                fallback: String::from_str("neo4j"),
            },
            pass: DeferredValue::FromEnvironment {
                variable: String::from_str("NEO4J_TEST_PASS"),
                fallback: String::from_str("password"),
            },
            enterprise: false,
            plugins: Vec::new(),
        }
    }

    /// The configuration with the version overridden, when the literal is
    /// valid; `InvalidVersion` otherwise, everything unchanged.
    pub fn with_version(&self, version: &str) -> (r: Result<Neo4j, Neo4jError>)
        ensures
            valid_version(version@) ==> (r matches Ok(c) && c.version matches
                DeferredValue::Explicit(s) && s@ == version@ && c.user == self.user && c.pass
                == self.pass && c.enterprise == self.enterprise && c.plugins@ == self.plugins@
                && c.wf()),
            !valid_version(version@) ==> (r matches Err(e) && e matches
                Neo4jError::InvalidVersion { literal } && literal@ == version@),
    {
        if validate_version(version) {
            let mut c = self.clone();
            c.version = DeferredValue::Explicit(version.to_owned());
            Ok(c)
        } else {
            Err(Neo4jError::InvalidVersion { literal: version.to_owned() })
        }
    }

    /// The configuration with the user set explicitly.
    pub fn with_user(&self, user: &str) -> (r: Neo4j)
        ensures
            r.user matches DeferredValue::Explicit(s) && s@ == user@,
            r.version == self.version,
            r.pass == self.pass,
            r.enterprise == self.enterprise,
            r.plugins@ == self.plugins@,
            self.wf() ==> r.wf(),
    {
        let mut c = self.clone();
        c.user = DeferredValue::Explicit(user.to_owned());
        c
    }

    /// The configuration with the password set explicitly.
    pub fn with_password(&self, pass: &str) -> (r: Neo4j)
        ensures
            r.pass matches DeferredValue::Explicit(s) && s@ == pass@,
            r.version == self.version,
            r.user == self.user,
            r.enterprise == self.enterprise,
            r.plugins@ == self.plugins@,
            self.wf() ==> r.wf(),
    {
        let mut c = self.clone();
        c.pass = DeferredValue::Explicit(pass.to_owned());
        c
    }

    /// The configuration with authentication disabled: user and password
    /// both unset, overriding any prior explicit values. A later
    /// `with_user` and `with_password` re-enable authentication.
    pub fn without_authentication(&self) -> (r: Neo4j)
        ensures
            r.user is Unset,
            r.pass is Unset,
            r.version == self.version,
            r.enterprise == self.enterprise,
            r.plugins@ == self.plugins@,
            self.wf() ==> r.wf(),
    {
        let mut c = self.clone();
        c.user = DeferredValue::Unset;
        c.pass = DeferredValue::Unset;
        c
    }

    /// The configuration with the given plugins added to the accumulated
    /// set. Repetition across calls is allowed; duplicates collapse when
    /// the entry is derived.
    pub fn with_neo4j_labs_plugin(&self, plugins: &Vec<Neo4jLabsPlugin>) -> (r: Neo4j)
        ensures
            r.plugins@ == self.plugins@ + plugins@,
            r.version == self.version,
            r.user == self.user,
            r.pass == self.pass,
            r.enterprise == self.enterprise,
            self.wf() ==> r.wf(),
    {
        let mut c = self.clone();
        let mut added = clone_plugins(plugins);
        c.plugins.append(&mut added);
        proof {
            assert(c.plugins@ =~= self.plugins@ + plugins@);
        }
        c
    }
}

impl Default for Neo4j {
    /// A fresh builder, as `new` makes it.
    fn default() -> (r: Neo4j)
        ensures
            r.wf(),
            !r.enterprise,
            r.plugins@ =~= Seq::<Neo4jLabsPlugin>::empty(),
            forall|env: Seq<(Seq<char>, Seq<char>)>|
                resolve_spec(r.version, env) == Some("5"@),
            forall|env: Seq<(Seq<char>, Seq<char>)>|
                resolve_spec(r.user, env) == Some("neo4j"@),
            forall|env: Seq<(Seq<char>, Seq<char>)>|
                resolve_spec(r.pass, env) == Some("password"@),
    {
        Neo4j::new()
    }
}

impl Neo4j {
    /// Finalizes the configuration against the given snapshot of the
    /// process environment: resolves the deferred values and derives the
    /// environment entries and the version tag. Total — every failure was
    /// already surfaced by the mutator that could cause it.
    pub fn build(&self, env: &ProcessEnv) -> (r: Neo4jImage)
        ensures
            r.version@ == spec_full_version(*self, env@),
            r.auth.deep_view() == spec_auth(*self, env@),
            r.env_vars.deep_view() == spec_env_entries(*self, env@),
            !r.started(),
    {
        let ghost seg_auth: Seq<(Seq<char>, Seq<char>)> = seq![
            ("NEO4J_AUTH"@, spec_auth_value(*self, env@)),
        ];
        let ghost seg_plugins: Seq<(Seq<char>, Seq<char>)> = if self.plugins@.len() > 0 {
            seq![("NEO4JLABS_PLUGINS"@, plugins_value(canonical_keys(keys_of(self.plugins@))))]
        } else {
            Seq::<(Seq<char>, Seq<char>)>::empty()
        };
        let ghost seg_policy = spec_policy_entries(*self, env@);
        let ghost seg_license: Seq<(Seq<char>, Seq<char>)> = if self.enterprise {
            seq![("NEO4J_ACCEPT_LICENSE_AGREEMENT"@, "yes"@)]
        } else {
            Seq::<(Seq<char>, Seq<char>)>::empty()
        };
        let user = self.user.resolve(env);
        let pass = self.pass.resolve(env);
        let auth: Option<(String, String)> = match (user, pass) {
            (Some(u), Some(p)) => Some((u, p)),
            _ => None,
        };
        proof {
            assert(auth.deep_view() == spec_auth(*self, env@));
        }
        let auth_value: String = match &auth {
            Some(a) => {
                let mut s = a.0.clone();
                s.append("/");
                s.append(a.1.as_str());
                proof {
                    assert(s@ =~= spec_auth_value(*self, env@));
                }
                s
            },
            None => String::from_str("none"),
        };
        let mut env_vars: Vec<(String, String)> = Vec::new();
        env_vars.push((String::from_str("NEO4J_AUTH"), auth_value));
        proof {
            assert(env_vars.deep_view() =~= seg_auth);
        }
        if self.plugins.len() > 0 {
            let sorted = canonicalize(&self.plugins);
            let value = plugins_env_value(&sorted);
            env_vars.push((String::from_str("NEO4JLABS_PLUGINS"), value));
        }
        proof {
            assert(env_vars.deep_view() =~= seg_auth + seg_plugins);
        }
        match &auth {
            Some(a) => {
                let plen = a.1.as_str().unicode_len();
                if plen < 8 {
                    env_vars.push(
                        (
                            String::from_str(
                                "NEO4J_dbms_security_auth__minimum__password__length",
                            ),
                            usize_to_string(plen),
                        ),
                    );
                }
            },
            None => {},
        }
        proof {
            assert(env_vars.deep_view() =~= seg_auth + seg_plugins + seg_policy);
        }
        if self.enterprise {
            env_vars.push(
                (String::from_str("NEO4J_ACCEPT_LICENSE_AGREEMENT"), String::from_str("yes")),
            );
        }
        proof {
            assert(env_vars.deep_view() =~= seg_auth + seg_plugins + seg_policy + seg_license);
            assert(spec_env_entries(*self, env@) == seg_auth + seg_plugins + seg_policy
                + seg_license);
        }
        let resolved = match self.version.resolve(env) {
            Some(v) => v,
            None => String::new(),
        };
        let version = if self.enterprise {
            let mut v = resolved;
            v.append("-enterprise");
            v
        } else {
            resolved
        };
        proof {
            assert(version@ =~= spec_full_version(*self, env@));
        }
        Neo4jImage { version, auth, env_vars, state: None }
    }
}

/// Two configurations that agree on everything but accumulated the same
/// plugin *set* in different orders or with different repetition derive
/// identical environment entries and the same version tag.
pub proof fn lemma_env_depends_on_plugin_set(a: Neo4j, b: Neo4j, env: Seq<(Seq<char>, Seq<char>)>)
    requires
        a.version == b.version,
        a.user == b.user,
        a.pass == b.pass,
        a.enterprise == b.enterprise,
        keys_of(a.plugins@).to_set() == keys_of(b.plugins@).to_set(),
    ensures
        spec_env_entries(a, env) == spec_env_entries(b, env),
        spec_full_version(a, env) == spec_full_version(b, env),
{
    broadcast use vstd::set::group_set_axioms;

    crate::plugins::lemma_canonical_keys_set_determined(keys_of(a.plugins@), keys_of(b.plugins@));
    let ka = keys_of(a.plugins@);
    let kb = keys_of(b.plugins@);
    if ka.len() > 0 {
        assert(ka.contains(ka[0]));
        assert(kb.to_set().contains(ka[0]));
    }
    if kb.len() > 0 {
        assert(kb.contains(kb[0]));
        assert(ka.to_set().contains(kb[0]));
    }
    assert(a.plugins@.len() == ka.len());
    assert(b.plugins@.len() == kb.len());
    assert(spec_env_entries(a, env) =~= spec_env_entries(b, env));
}

/// An explicitly set version resolves to exactly the literal that was
/// accepted, whatever the environment, and without the enterprise edition
/// the derived tag is that literal unchanged — no normalization.
pub proof fn lemma_explicit_version_exact(c: Neo4j, lit: Seq<char>, env: Seq<(Seq<char>, Seq<char>)>)
    requires
        c.version matches DeferredValue::Explicit(s) && s@ == lit,
    ensures
        spec_resolved_version(c, env) == lit,
        !c.enterprise ==> spec_full_version(c, env) == lit,
{
    if !c.enterprise {
        assert(spec_full_version(c, env) =~= lit);
    }
}

/// With user or password unset, no credentials are derived, the auth
/// entry is the disabling token, and no password-length override appears.
pub proof fn lemma_no_auth_derivation(c: Neo4j, env: Seq<(Seq<char>, Seq<char>)>)
    requires
        c.user is Unset || c.pass is Unset,
    ensures
        spec_auth(c, env) is None,
        spec_auth_value(c, env) == "none"@,
        spec_policy_entries(c, env) == Seq::<(Seq<char>, Seq<char>)>::empty(),
{
}

/// With authentication enabled, the password-length override entry
/// carries exactly the password's length when that is below eight
/// characters, and is absent from eight on.
pub proof fn lemma_password_length_policy(c: Neo4j, env: Seq<(Seq<char>, Seq<char>)>)
    requires
        spec_auth(c, env) is Some,
    ensures
        spec_auth(c, env).unwrap().1.len() < 8 ==> spec_policy_entries(c, env) == seq![
            (
                "NEO4J_dbms_security_auth__minimum__password__length"@,
                dec_str(spec_auth(c, env).unwrap().1.len()),
            ),
        ],
        spec_auth(c, env).unwrap().1.len() >= 8 ==> spec_policy_entries(c, env) == Seq::<
            (Seq<char>, Seq<char>),
        >::empty(),
{
}

/// An enterprise configuration derives a version tag that is the resolved
/// version with `-enterprise` appended, and its last environment entry
/// signals license acceptance to the engine.
pub proof fn lemma_enterprise_markers(c: Neo4j, env: Seq<(Seq<char>, Seq<char>)>)
    requires
        c.enterprise,
    ensures
        spec_full_version(c, env) == spec_resolved_version(c, env) + "-enterprise"@,
        spec_env_entries(c, env).len() > 0,
        spec_env_entries(c, env).last() == ("NEO4J_ACCEPT_LICENSE_AGREEMENT"@, "yes"@),
{
    let e = spec_env_entries(c, env);
    let front = seq![("NEO4J_AUTH"@, spec_auth_value(c, env))] + (if c.plugins@.len() > 0 {
        seq![("NEO4JLABS_PLUGINS"@, plugins_value(canonical_keys(keys_of(c.plugins@))))]
    } else {
        Seq::<(Seq<char>, Seq<char>)>::empty()
    }) + spec_policy_entries(c, env);
    assert(e =~= front + seq![("NEO4J_ACCEPT_LICENSE_AGREEMENT"@, "yes"@)]);
    assert(e.last() == ("NEO4J_ACCEPT_LICENSE_AGREEMENT"@, "yes"@));
}

/// The derived environment mapping never repeats a key: the four possible
/// entries carry four distinct names, so no derivation step overwrites
/// another.
pub proof fn lemma_env_keys_unique(c: Neo4j, env: Seq<(Seq<char>, Seq<char>)>)
    ensures
        forall|i: int, j: int|
            0 <= i < j < spec_env_entries(c, env).len() ==> #[trigger] spec_env_entries(
                c,
                env,
            )[i].0 != #[trigger] spec_env_entries(c, env)[j].0,
{
    reveal_strlit("NEO4J_AUTH");
    reveal_strlit("NEO4JLABS_PLUGINS");
    reveal_strlit("NEO4J_dbms_security_auth__minimum__password__length");
    reveal_strlit("NEO4J_ACCEPT_LICENSE_AGREEMENT");
    let k1 = "NEO4J_AUTH"@;
    let k2 = "NEO4JLABS_PLUGINS"@;
    let k3 = "NEO4J_dbms_security_auth__minimum__password__length"@;
    let k4 = "NEO4J_ACCEPT_LICENSE_AGREEMENT"@;
    assert(k1.len() != k2.len() && k1.len() != k3.len() && k1.len() != k4.len() && k2.len()
        != k3.len() && k2.len() != k4.len() && k3.len() != k4.len());
    let e = spec_env_entries(c, env);
    assert forall|i: int, j: int| 0 <= i < j < e.len() implies #[trigger] e[i].0 != #[trigger] e[j].0 by {
        assert(e[i].0 == k1 || e[i].0 == k2 || e[i].0 == k3 || e[i].0 == k4);
        assert(e[j].0 == k2 || e[j].0 == k3 || e[j].0 == k4);
        assert(e[i].0 == k2 ==> e[j].0 == k3 || e[j].0 == k4);
        assert(e[i].0 == k3 ==> e[j].0 == k4);
        assert(e[i].0 != k4);
    }
}

/// Whether some line, whitespace-trimmed, is exactly `expected`.
pub(crate) fn has_trimmed_line(lines: &Vec<String>, expected: &str) -> (r: bool)
    ensures
        r == spec_accepts_license(lines.deep_view(), expected@),
{
    let n = lines.len();
    let mut i: usize = 0;
    while i < n
        invariant
            i <= n,
            n == lines@.len(),
            forall|j: int| 0 <= j < i ==> trim_spec(#[trigger] lines.deep_view()[j]) != expected@,
        decreases n - i,
    {
        proof {
            assert(lines.deep_view()[i as int] == lines@[i as int]@);
        }
        let t = trimmed(lines[i].as_str());
        if str_eq(t, expected) {
            return true;
        }
        i = i + 1;
    }
    false
}

} // verus!
