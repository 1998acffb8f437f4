//! Deferred configuration values and the process-environment snapshot they
//! resolve against.
//!
//! A deferred value records where a setting comes from — an explicit call,
//! an environment variable with a fallback literal, a built-in default, or
//! nothing at all — and is resolved only when the configuration is built.
//! The snapshot of the process environment is handed in as plain pairs by
//! the caller, so resolution itself is pure.

use vstd::prelude::*;

verus! {

/// A configuration field whose concrete value is resolved lazily.
///
/// Resolution never fails except for `Unset`, which resolves to "absent".
#[derive(Debug)]
pub enum DeferredValue {
    /// Read the named process environment variable; fall back to the
    /// literal when the variable is absent.
    FromEnvironment { variable: String, fallback: String },
    /// A built-in default.
    DefaultLiteral(String),
    /// A value the caller set explicitly.
    Explicit(String),
    /// The setting is disabled.
    Unset,
}

impl Clone for DeferredValue {
    fn clone(&self) -> (res: Self)
        ensures
            res == *self,
    {
        match self {
            DeferredValue::FromEnvironment { variable, fallback } => DeferredValue::FromEnvironment {
                variable: variable.clone(),
                fallback: fallback.clone(),
            },
            DeferredValue::DefaultLiteral(s) => DeferredValue::DefaultLiteral(s.clone()),
            DeferredValue::Explicit(s) => DeferredValue::Explicit(s.clone()),
            DeferredValue::Unset => DeferredValue::Unset,
        }
    }
}

/// A snapshot of the process environment: name/value pairs in the order the
/// caller supplied them. The first pair with a given name wins.
pub struct ProcessEnv {
    pub vars: Vec<(String, String)>,
}

impl View for ProcessEnv {
    type V = Seq<(Seq<char>, Seq<char>)>;

    open spec fn view(&self) -> Seq<(Seq<char>, Seq<char>)> {
        self.vars.deep_view()
    }
}

/// The value of the first pair named `name`, if any.
pub open spec fn env_lookup(env: Seq<(Seq<char>, Seq<char>)>, name: Seq<char>) -> Option<Seq<char>>
    decreases env.len(),
{
    if env.len() == 0 {
        None
    } else if env[0].0 == name {
        Some(env[0].1)
    } else {
        env_lookup(env.drop_first(), name)
    }
}

impl ProcessEnv {
    /// An empty snapshot: every lookup falls back.
    pub fn new() -> (r: ProcessEnv)
        ensures
            r@ =~= Seq::<(Seq<char>, Seq<char>)>::empty(),
    {
        ProcessEnv { vars: Vec::new() }
    }

    /// The snapshot extended by one name/value pair.
    pub fn with_var(self, name: String, value: String) -> (r: ProcessEnv)
        ensures
            r@ =~= self@.push((name@, value@)),
    {
        let mut vars = self.vars;
        vars.push((name, value));
        ProcessEnv { vars }
    }

    /// Looks `name` up in the snapshot.
    pub fn get(&self, name: &str) -> (r: Option<String>)
        ensures
            r.deep_view() == env_lookup(self@, name@),
    {
        let n = self.vars.len();
        let mut i: usize = 0;
        proof {
            assert(self@.skip(0) =~= self@);
        }
        while i < n
            invariant
                i <= n,
                n == self.vars.len(),
                env_lookup(self@, name@) == env_lookup(self@.skip(i as int), name@),
            decreases n - i,
        {
            proof {
                assert(self@.len() == n);
                assert(self@.skip(i as int)[0] == self@[i as int]);
                assert(self@[i as int] == self.vars@[i as int].deep_view());
                assert(self@.skip(i as int).drop_first() =~= self@.skip(i as int + 1));
            }
            let hit = crate::text::str_eq(self.vars[i].0.as_str(), name);
            if hit {
                return Some(self.vars[i].1.clone());
            }
            i = i + 1;
        }
        proof {
            assert(self@.skip(n as int) =~= Seq::<(Seq<char>, Seq<char>)>::empty());
        }
        None
    }
}

/// What a deferred value resolves to against the given environment.
pub open spec fn resolve_spec(v: DeferredValue, env: Seq<(Seq<char>, Seq<char>)>) -> Option<
    Seq<char>,
> {
    match v {
        DeferredValue::FromEnvironment { variable, fallback } => match env_lookup(env, variable@) {
            Some(s) => Some(s),
            None => Some(fallback@),
        },
        DeferredValue::DefaultLiteral(s) => Some(s@),
        DeferredValue::Explicit(s) => Some(s@),
        DeferredValue::Unset => None,
    }
}

impl DeferredValue {
    /// Resolves the value: the explicit or default literal, the environment
    /// variable (or its fallback), or `None` for `Unset`.
    pub fn resolve(&self, env: &ProcessEnv) -> (r: Option<String>)
        ensures
            r.deep_view() == resolve_spec(*self, env@),
    {
        match self {
            DeferredValue::FromEnvironment { variable, fallback } => {
                match env.get(variable.as_str()) {
                    Some(v) => Some(v),
                    None => Some(fallback.clone()),
                }
            },
            DeferredValue::DefaultLiteral(s) => Some(s.clone()),
            DeferredValue::Explicit(s) => Some(s.clone()),
            DeferredValue::Unset => None,
        }
    }
}

} // verus!
