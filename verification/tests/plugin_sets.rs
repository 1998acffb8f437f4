use neo4j_testcontainers::config::Neo4j;
use neo4j_testcontainers::deferred::ProcessEnv;
use neo4j_testcontainers::plugins::Neo4jLabsPlugin;

fn plugins_entry(builder: &Neo4j) -> Option<String> {
    let env = ProcessEnv::new();
    builder
        .build(&env)
        .env_vars()
        .iter()
        .find_map(|(k, v)| if k == "NEO4JLABS_PLUGINS" { Some(v.clone()) } else { None })
}

#[test]
fn no_plugins_no_entry() {
    assert_eq!(plugins_entry(&Neo4j::new()), None);
}

#[test]
fn single_plugin_definition() {
    let neo4j = Neo4j::new().with_neo4j_labs_plugin(&vec![Neo4jLabsPlugin::Apoc]);
    assert_eq!(plugins_entry(&neo4j).as_deref(), Some("[\"apoc\"]"));
}

#[test]
fn multiple_plugin_definition() {
    let neo4j = Neo4j::new()
        .with_neo4j_labs_plugin(&vec![Neo4jLabsPlugin::Apoc, Neo4jLabsPlugin::Bloom]);
    assert_eq!(plugins_entry(&neo4j).as_deref(), Some("[\"apoc\",\"bloom\"]"));
}

#[test]
fn plugin_entry_depends_only_on_the_set() {
    let split_calls = Neo4j::new()
        .with_neo4j_labs_plugin(&vec![Neo4jLabsPlugin::Apoc])
        .with_neo4j_labs_plugin(&vec![Neo4jLabsPlugin::Bloom, Neo4jLabsPlugin::Apoc]);
    let one_call = Neo4j::new()
        .with_neo4j_labs_plugin(&vec![Neo4jLabsPlugin::Apoc, Neo4jLabsPlugin::Bloom]);
    assert_eq!(plugins_entry(&split_calls), plugins_entry(&one_call));
    assert_eq!(plugins_entry(&one_call).as_deref(), Some("[\"apoc\",\"bloom\"]"));
}

#[test]
fn repeated_plugins_collapse() {
    let neo4j = Neo4j::new()
        .with_neo4j_labs_plugin(&vec![Neo4jLabsPlugin::Apoc])
        .with_neo4j_labs_plugin(&vec![Neo4jLabsPlugin::Apoc]);
    assert_eq!(plugins_entry(&neo4j).as_deref(), Some("[\"apoc\"]"));
}

#[test]
fn builtins_order_by_display_form() {
    let neo4j = Neo4j::new().with_neo4j_labs_plugin(&vec![
        Neo4jLabsPlugin::Streams,
        Neo4jLabsPlugin::NeoSemantics,
        Neo4jLabsPlugin::GraphDataScience,
        Neo4jLabsPlugin::ApocCore,
    ]);
    assert_eq!(
        plugins_entry(&neo4j).as_deref(),
        Some("[\"apoc-core\",\"graph-data-science\",\"n10s\",\"streams\"]")
    );
}

#[test]
fn custom_plugins_order_after_builtins_by_name() {
    let neo4j = Neo4j::new().with_neo4j_labs_plugin(&vec![
        Neo4jLabsPlugin::Custom("zzz".to_string()),
        Neo4jLabsPlugin::Bloom,
        Neo4jLabsPlugin::Custom("aaa".to_string()),
    ]);
    assert_eq!(plugins_entry(&neo4j).as_deref(), Some("[\"bloom\",\"aaa\",\"zzz\"]"));
}

#[test]
fn custom_duplicate_of_builtin_is_kept_apart() {
    let neo4j = Neo4j::new().with_neo4j_labs_plugin(&vec![
        Neo4jLabsPlugin::Custom("apoc".to_string()),
        Neo4jLabsPlugin::Apoc,
    ]);
    assert_eq!(plugins_entry(&neo4j).as_deref(), Some("[\"apoc\",\"apoc\"]"));
}
