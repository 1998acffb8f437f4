use neo4j_testcontainers::config::{Neo4j, Neo4jError};
use neo4j_testcontainers::deferred::ProcessEnv;
use neo4j_testcontainers::validate_version;

#[test]
fn set_valid_version() {
    let env = ProcessEnv::new();
    let neo4j = Neo4j::new().with_version("4.2.0").unwrap().build(&env);
    assert_eq!(neo4j.version(), "4.2.0");
}

#[test]
fn set_partial_version() {
    let env = ProcessEnv::new();
    let neo4j = Neo4j::new().with_version("4.2").unwrap().build(&env);
    assert_eq!(neo4j.version(), "4.2");

    let neo4j = Neo4j::new().with_version("4").unwrap().build(&env);
    assert_eq!(neo4j.version(), "4");
}

#[test]
fn version_is_not_normalized() {
    let env = ProcessEnv::new();
    let neo4j = Neo4j::new().with_version("4").unwrap().build(&env);
    assert_ne!(neo4j.version(), "4.0.0");
    assert_eq!(neo4j.tag(), "4");
    assert_eq!(neo4j.descriptor(), "neo4j:4");
}

#[test]
fn prerelease_version_is_rejected() {
    let r = Neo4j::new().with_version("4.2.0-enterprise");
    match r {
        Err(Neo4jError::InvalidVersion { literal }) => {
            assert_eq!(literal, "4.2.0-enterprise");
        }
        _ => panic!("expected InvalidVersion"),
    }
}

#[test]
fn build_metadata_version_is_rejected() {
    assert!(Neo4j::new().with_version("1.2.3+build7").is_err());
}

#[test]
fn four_segment_version_is_rejected() {
    assert!(Neo4j::new().with_version("1.2.3.4").is_err());
}

#[test]
fn free_text_version_is_rejected() {
    let r = Neo4j::new().with_version("latest");
    match r {
        Err(Neo4jError::InvalidVersion { literal }) => assert_eq!(literal, "latest"),
        _ => panic!("expected InvalidVersion"),
    }
}

#[test]
fn failed_version_leaves_builder_unchanged() {
    let env = ProcessEnv::new();
    let builder = Neo4j::new().with_version("4.4").unwrap();
    assert!(builder.with_version("not-a-version").is_err());
    // the builder we started from still carries its previous version
    let image = builder.build(&env);
    assert_eq!(image.version(), "4.4");
}

#[test]
fn validator_edge_cases() {
    assert!(validate_version("0"));
    assert!(validate_version("10.0"));
    assert!(validate_version("5.26.1"));
    assert!(!validate_version(""));
    assert!(!validate_version("."));
    assert!(!validate_version("1."));
    assert!(!validate_version(".1"));
    assert!(!validate_version("1..2"));
    assert!(!validate_version("1.2.3."));
    assert!(!validate_version("v5"));
    assert!(!validate_version("5 "));
}

#[test]
fn invalid_version_message_names_the_literal() {
    let r = Neo4j::new().with_version("nope");
    match r {
        Err(e) => assert_eq!(e.message(), "invalid Neo4j version tag: nope"),
        Ok(_) => panic!("expected an error"),
    }
}
