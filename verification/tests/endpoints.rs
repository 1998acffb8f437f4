use neo4j_testcontainers::config::Neo4j;
use neo4j_testcontainers::deferred::ProcessEnv;
use neo4j_testcontainers::image::ContainerState;
use neo4j_testcontainers::prelude::Neo4jImageExt;
use neo4j_testcontainers::usize_to_string;

#[test]
fn endpoints_are_absent_before_the_state_is_written() {
    let env = ProcessEnv::new();
    let image = Neo4j::new().build(&env);
    assert_eq!(image.try_bolt_port_ipv4(), None);
    assert_eq!(image.try_http_port_ipv4(), None);
}

#[test]
fn endpoints_answer_after_the_state_is_written() {
    let env = ProcessEnv::new();
    let mut image = Neo4j::new().build(&env);
    let state = ContainerState::new(
        vec![(7687, 50001), (7474, 50002)],
        vec![(7687, 60001), (7474, 60002)],
    );
    image.set_container_state(state);

    assert_eq!(image.try_bolt_port_ipv4(), Some(50001));
    assert_eq!(image.try_http_port_ipv4(), Some(50002));
    assert_eq!(image.bolt_port_ipv4(), 50001);
    assert_eq!(image.http_port_ipv6(), 60002);

    let uri = image.bolt_uri_ipv4();
    assert!(uri.starts_with("bolt://"));
    assert_eq!(uri, "bolt://127.0.0.1:50001");
    assert_eq!(image.bolt_uri_ipv6(), "bolt://[::1]:60001");

    let uri = image.http_uri_ipv4();
    assert!(uri.starts_with("http://"));
    assert_eq!(uri, "http://127.0.0.1:50002");
    assert_eq!(image.http_uri_ipv6(), "http://[::1]:60002");
}

#[test]
fn first_mapping_for_a_container_port_wins() {
    let state = ContainerState::new(vec![(7687, 1111), (7687, 2222)], Vec::new());
    assert_eq!(state.host_port_ipv4(7687), Some(1111));
    assert_eq!(state.host_port_ipv4(7474), None);
    assert_eq!(state.host_port_ipv6(7687), None);
}

#[test]
fn image_name_tag_and_readiness_markers() {
    let env = ProcessEnv::new();
    let image = Neo4j::new().build(&env);
    assert_eq!(image.name(), "neo4j");
    assert_eq!(image.tag(), "5");
    assert_eq!(image.descriptor(), "neo4j:5");
    let markers = image.ready_conditions();
    assert_eq!(markers, vec!["Bolt enabled on".to_string(), "Started.".to_string()]);
}

#[test]
fn decimal_rendering_is_exact() {
    assert_eq!(usize_to_string(0), "0");
    assert_eq!(usize_to_string(7), "7");
    assert_eq!(usize_to_string(65535), "65535");
    assert_eq!(usize_to_string(1000000), "1000000");
}
