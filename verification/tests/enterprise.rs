use neo4j_testcontainers::config::{Neo4j, Neo4jError};
use neo4j_testcontainers::deferred::ProcessEnv;
use neo4j_testcontainers::prelude::Neo4jRunnableImageExt;

fn env_value(image: &neo4j_testcontainers::image::Neo4jImage, key: &str) -> Option<String> {
    image
        .env_vars()
        .iter()
        .find_map(|(k, v)| if k == key { Some(v.clone()) } else { None })
}

#[test]
fn set_enterprise_version() {
    let env = ProcessEnv::new();
    let img = Neo4j::default();
    let lines = vec!["neo4j:5-enterprise".to_string()];
    let img = img.with_enterprise_edition(&env, &lines).unwrap();
    let built = img.build(&env);

    let version = built.descriptor();
    assert_eq!(version, "neo4j:5-enterprise");

    let env_var = env_value(&built, "NEO4J_ACCEPT_LICENSE_AGREEMENT");
    assert_eq!(env_var.as_deref(), Some("yes"))
}

#[test]
fn enterprise_fails_without_acceptance_file() {
    let env = ProcessEnv::new();
    let lines: Vec<String> = Vec::new();
    match Neo4j::new().with_enterprise_edition(&env, &lines) {
        Err(Neo4jError::LicenseNotAccepted { acceptance_file, expected_line }) => {
            assert_eq!(acceptance_file, "container-license-acceptance.txt");
            assert_eq!(expected_line, "neo4j:5-enterprise");
        }
        _ => panic!("expected LicenseNotAccepted"),
    }
}

#[test]
fn enterprise_fails_without_the_exact_line() {
    let env = ProcessEnv::new();
    let lines = vec![
        "neo4j:4.4-enterprise".to_string(),
        "neo4j:5".to_string(),
        "something else".to_string(),
    ];
    assert!(Neo4j::new().with_enterprise_edition(&env, &lines).is_err());
}

#[test]
fn enterprise_accepts_a_whitespace_padded_line() {
    let env = ProcessEnv::new();
    let lines = vec![
        "# accepted licenses".to_string(),
        "\t  neo4j:5-enterprise \t".to_string(),
    ];
    let built = Neo4j::new()
        .with_enterprise_edition(&env, &lines)
        .unwrap()
        .build(&env);
    assert_eq!(built.version(), "5-enterprise");
    assert_eq!(env_value(&built, "NEO4J_ACCEPT_LICENSE_AGREEMENT").as_deref(), Some("yes"));
}

#[test]
fn enterprise_line_follows_the_configured_version() {
    let env = ProcessEnv::new();
    let builder = Neo4j::new().with_version("4.4").unwrap();
    match builder.with_enterprise_edition(&env, &Vec::new()) {
        Err(Neo4jError::LicenseNotAccepted { expected_line, .. }) => {
            assert_eq!(expected_line, "neo4j:4.4-enterprise");
        }
        _ => panic!("expected LicenseNotAccepted"),
    }
    let lines = vec!["neo4j:4.4-enterprise".to_string()];
    let built = builder.with_enterprise_edition(&env, &lines).unwrap().build(&env);
    assert_eq!(built.descriptor(), "neo4j:4.4-enterprise");
}

#[test]
fn enterprise_is_idempotent() {
    let env = ProcessEnv::new();
    let lines = vec!["neo4j:5-enterprise".to_string()];
    let once = Neo4j::new().with_enterprise_edition(&env, &lines).unwrap();
    // already enterprise: no acceptance lines are needed the second time
    let twice = once.with_enterprise_edition(&env, &Vec::new()).unwrap();
    let built = twice.build(&env);
    assert_eq!(built.version(), "5-enterprise");
}

#[test]
fn license_error_message_carries_the_remediation() {
    let env = ProcessEnv::new();
    let err = Neo4j::new()
        .with_enterprise_edition(&env, &Vec::new())
        .unwrap_err();
    let msg = err.message();
    assert_eq!(
        msg,
        "You need to accept the Neo4j Enterprise Edition license by creating the file \
         `container-license-acceptance.txt` with the following content:\n\n\tneo4j:5-enterprise"
    );
}
