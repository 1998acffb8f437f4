use neo4j_testcontainers::config::Neo4j;
use neo4j_testcontainers::deferred::ProcessEnv;
use neo4j_testcontainers::prelude::Neo4jExt;

#[test]
fn from_version_sets_the_version_explicitly() {
    let env = ProcessEnv::new()
        .with_var("NEO4J_VERSION_TAG".to_string(), "4.1".to_string());
    let image = <Neo4j as Neo4jExt>::from_version("4.2").build(&env);
    // an explicit version shadows the environment-seeded default
    assert_eq!(image.version(), "4.2");
}

#[test]
fn from_auth_and_version_sets_all_three() {
    let env = ProcessEnv::new();
    let image = <Neo4j as Neo4jExt>::from_auth_and_version("4.4", "user", "longpassword")
        .build(&env);
    assert_eq!(image.version(), "4.4");
    assert_eq!(image.auth(), Some(("user", "longpassword")));
}

#[test]
fn trait_from_env_matches_the_inherent_constructor() {
    let env = ProcessEnv::new()
        .with_var("NEO4J_TEST_PASS".to_string(), "hunter2".to_string());
    let a = <Neo4j as Neo4jExt>::from_env().build(&env);
    let b = Neo4j::from_env().build(&env);
    assert_eq!(a.auth(), b.auth());
    assert_eq!(a.password(), Some("hunter2"));
}
