use neo4j_testcontainers::config::Neo4j;
use neo4j_testcontainers::deferred::ProcessEnv;

fn env_value(image: &neo4j_testcontainers::image::Neo4jImage, key: &str) -> Option<String> {
    image
        .env_vars()
        .iter()
        .find_map(|(k, v)| if k == key { Some(v.clone()) } else { None })
}

#[test]
fn set_user() {
    let env = ProcessEnv::new();
    let neo4j = Neo4j::new().with_user("Benutzer").build(&env);
    assert_eq!(neo4j.user(), Some("Benutzer"));
    assert_eq!(neo4j.auth(), Some(("Benutzer", "password")));
    assert_eq!(env_value(&neo4j, "NEO4J_AUTH").as_deref(), Some("Benutzer/password"));
}

#[test]
fn set_password() {
    let env = ProcessEnv::new();
    let neo4j = Neo4j::new().with_password("Passwort").build(&env);
    assert_eq!(neo4j.password(), Some("Passwort"));
    assert_eq!(neo4j.auth(), Some(("neo4j", "Passwort")));
    assert_eq!(env_value(&neo4j, "NEO4J_AUTH").as_deref(), Some("neo4j/Passwort"));
}

#[test]
fn set_short_password() {
    let env = ProcessEnv::new();
    let neo4j = Neo4j::new().with_password("1337").build(&env);
    assert_eq!(neo4j.password(), Some("1337"));
    assert_eq!(neo4j.auth(), Some(("neo4j", "1337")));
    assert_eq!(
        env_value(&neo4j, "NEO4J_dbms_security_auth__minimum__password__length").as_deref(),
        Some("4")
    );
}

#[test]
fn long_password_needs_no_override() {
    let env = ProcessEnv::new();
    let neo4j = Neo4j::new().with_password("12345678").build(&env);
    assert_eq!(
        env_value(&neo4j, "NEO4J_dbms_security_auth__minimum__password__length"),
        None
    );
}

#[test]
fn disable_auth() {
    let env = ProcessEnv::new();
    let neo4j = Neo4j::new().without_authentication().build(&env);
    assert_eq!(neo4j.password(), None);
    assert_eq!(neo4j.user(), None);
    assert_eq!(neo4j.auth(), None);
    assert_eq!(env_value(&neo4j, "NEO4J_AUTH").as_deref(), Some("none"));
}

#[test]
fn disable_auth_overrides_credentials_and_drops_override_entry() {
    let env = ProcessEnv::new();
    let neo4j = Neo4j::new()
        .with_user("u")
        .with_password("p")
        .without_authentication()
        .build(&env);
    assert_eq!(neo4j.auth(), None);
    assert_eq!(env_value(&neo4j, "NEO4J_AUTH").as_deref(), Some("none"));
    assert_eq!(
        env_value(&neo4j, "NEO4J_dbms_security_auth__minimum__password__length"),
        None
    );
}

#[test]
fn credentials_after_disable_reenable_authentication() {
    let env = ProcessEnv::new();
    let neo4j = Neo4j::new()
        .without_authentication()
        .with_user("scott")
        .with_password("tiger1234")
        .build(&env);
    assert_eq!(neo4j.auth(), Some(("scott", "tiger1234")));
}

#[test]
fn fresh_builder_with_password_derives_exactly_the_auth_entry() {
    let env = ProcessEnv::new();
    let neo4j = Neo4j::new().with_password("Picard123").build(&env);
    let entries = neo4j.env_vars();
    assert_eq!(entries.len(), 1);
    assert_eq!(entries[0].0, "NEO4J_AUTH");
    assert_eq!(entries[0].1, "neo4j/Picard123");
}

#[test]
fn environment_seeded_builder_reads_the_snapshot() {
    let env = ProcessEnv::new()
        .with_var("NEO4J_TEST_USER".to_string(), "alice".to_string())
        .with_var("NEO4J_TEST_PASS".to_string(), "wonderland".to_string())
        .with_var("NEO4J_VERSION_TAG".to_string(), "4.4".to_string());
    let neo4j = Neo4j::from_env().build(&env);
    assert_eq!(neo4j.version(), "4.4");
    assert_eq!(neo4j.auth(), Some(("alice", "wonderland")));
}

#[test]
fn environment_seeded_builder_falls_back_to_defaults() {
    let env = ProcessEnv::new();
    let neo4j = Neo4j::from_env().build(&env);
    assert_eq!(neo4j.version(), "5");
    assert_eq!(neo4j.auth(), Some(("neo4j", "password")));
}
