//! Suite documents: fixture classification and the rewriter.
use mongo_task_gen::resmoke::{
    rewrite_doc, DocNode, MultiversionConfig, ResmokeSuiteConfig, SuiteFixtureType,
};

// get_fixture_type tests.
#[test]
fn test_no_fixture_defined_should_return_shell() {
    let config_yaml = "
            test_kind: js_test

            selector:
              roots:
                - jstests/auth/*.js
              exclude_files:
                - jstests/auth/repl.js

            executor:
              config:
                shell_options:
                  global_vars:
                    TestData:
                      roleGraphInvalidationIsFatal: true
                  nodb: ''
        ";

    let config = ResmokeSuiteConfig::from_str(config_yaml).unwrap();

    assert_eq!(config.get_fixture_type().unwrap(), SuiteFixtureType::Shell);
}

#[test]
fn test_shared_cluster_fixture_should_return_sharded() {
    let config_yaml = "
            test_kind: js_test

            selector:
              roots:
                - jstests/auth/*.js
              exclude_files:
                - jstests/auth/repl.js

            executor:
              config:
                shell_options:
                  global_vars:
                    TestData:
                      roleGraphInvalidationIsFatal: true
                  nodb: ''
              fixture:
                class: ShardedClusterFixture
                num_shards: 2
        ";

    let config = ResmokeSuiteConfig::from_str(config_yaml).unwrap();

    assert_eq!(config.get_fixture_type().unwrap(), SuiteFixtureType::Shard);
}

#[test]
fn test_replica_set_fixture_should_return_repl() {
    let config_yaml = "
            test_kind: js_test

            selector:
              roots:
                - jstests/auth/*.js
              exclude_files:
                - jstests/auth/repl.js

            executor:
              config:
                shell_options:
                  global_vars:
                    TestData:
                      roleGraphInvalidationIsFatal: true
                  nodb: ''
              fixture:
                class: ReplicaSetFixture
                num_nodes: 3
        ";

    let config = ResmokeSuiteConfig::from_str(config_yaml).unwrap();

    assert_eq!(config.get_fixture_type().unwrap(), SuiteFixtureType::Repl);
}

#[test]
fn test_other_fixture_should_return_other() {
    let config_yaml = "
            test_kind: js_test

            selector:
              roots:
                - jstests/auth/*.js
              exclude_files:
                - jstests/auth/repl.js

            executor:
              config:
                shell_options:
                  global_vars:
                    TestData:
                      roleGraphInvalidationIsFatal: true
                  nodb: ''
              fixture:
                num_nodes: 3
        ";

    let config = ResmokeSuiteConfig::from_str(config_yaml).unwrap();

    assert_eq!(config.get_fixture_type().unwrap(), SuiteFixtureType::Other);
}

fn selector_doc() -> DocNode {
    DocNode::Dict(vec![
        (
            "test_kind".to_string(),
            DocNode::Text("js_test".to_string()),
        ),
        (
            "selector".to_string(),
            DocNode::Dict(vec![
                (
                    "roots".to_string(),
                    DocNode::List(vec![DocNode::Text("jstests/auth/*.js".to_string())]),
                ),
                (
                    "exclude_files".to_string(),
                    DocNode::List(vec![DocNode::Text("jstests/auth/repl.js".to_string())]),
                ),
            ]),
        ),
        ("executor".to_string(), DocNode::Dict(vec![])),
    ])
}

fn dict_entries(node: &DocNode) -> &Vec<(String, DocNode)> {
    match node {
        DocNode::Dict(entries) => entries,
        _ => panic!("expected a mapping"),
    }
}

fn entry<'a>(node: &'a DocNode, key: &str) -> Option<&'a DocNode> {
    dict_entries(node)
        .iter()
        .find(|(k, _)| k == key)
        .map(|(_, v)| v)
}

// A test-list rewrite sets roots and removes exclusions; other keys
// stay.
#[test]
fn test_rewrite_restricts_to_test_list() {
    let doc = selector_doc();
    let tests = vec!["jstests/auth/a.js".to_string(), "jstests/auth/b.js".to_string()];

    let rewritten = rewrite_doc(&doc, &tests, None);

    assert!(entry(&rewritten, "test_kind").is_some());
    assert!(entry(&rewritten, "executor").is_some());
    let selector = entry(&rewritten, "selector").unwrap();
    assert!(entry(selector, "exclude_files").is_none());
    match entry(selector, "roots").unwrap() {
        DocNode::List(items) => {
            assert_eq!(items.len(), 2);
            assert!(matches!(&items[0], DocNode::Text(t) if t == "jstests/auth/a.js"));
            assert!(matches!(&items[1], DocNode::Text(t) if t == "jstests/auth/b.js"));
        }
        _ => panic!("roots should be a list"),
    }
}

// An exclusion rewrite merges into exclude_files and keeps roots.
#[test]
fn test_rewrite_merges_exclusions() {
    let doc = selector_doc();
    let all_tests = vec!["jstests/auth/a.js".to_string()];

    let rewritten = rewrite_doc(&doc, &vec![], Some(&all_tests));

    let selector = entry(&rewritten, "selector").unwrap();
    assert!(entry(selector, "roots").is_some());
    match entry(selector, "exclude_files").unwrap() {
        DocNode::List(items) => {
            assert_eq!(items.len(), 2);
            assert!(matches!(&items[0], DocNode::Text(t) if t == "jstests/auth/repl.js"));
            assert!(matches!(&items[1], DocNode::Text(t) if t == "jstests/auth/a.js"));
        }
        _ => panic!("exclude_files should be a list"),
    }
}

// An exclusion rewrite creates exclude_files when it was absent.
#[test]
fn test_rewrite_creates_exclusions() {
    let doc = DocNode::Dict(vec![(
        "selector".to_string(),
        DocNode::Dict(vec![(
            "roots".to_string(),
            DocNode::List(vec![DocNode::Text("jstests/x/*.js".to_string())]),
        )]),
    )]);
    let all_tests = vec!["jstests/x/a.js".to_string()];

    let rewritten = rewrite_doc(&doc, &vec![], Some(&all_tests));

    let selector = entry(&rewritten, "selector").unwrap();
    match entry(selector, "exclude_files").unwrap() {
        DocNode::List(items) => {
            assert_eq!(items.len(), 1);
            assert!(matches!(&items[0], DocNode::Text(t) if t == "jstests/x/a.js"));
        }
        _ => panic!("exclude_files should be a list"),
    }
}

// update_config serializes the rewritten document.
#[test]
fn test_update_config_writes_roots() {
    let config_yaml = "
            test_kind: js_test
            selector:
              roots:
                - jstests/auth/*.js
            executor: {}
        ";
    let config = ResmokeSuiteConfig::from_str(config_yaml).unwrap();
    let tests = vec!["jstests/auth/one.js".to_string()];

    let out = config.update_config(&tests, None).unwrap();

    assert!(out.contains("jstests/auth/one.js"));
    assert!(out.contains("test_kind"));
}

#[test]
fn test_version_combinations_by_fixture() {
    assert_eq!(
        SuiteFixtureType::Shard.get_version_combinations(),
        vec!["new_old_old_new".to_string()]
    );
    assert_eq!(
        SuiteFixtureType::Repl.get_version_combinations(),
        vec![
            "new_new_old".to_string(),
            "new_old_new".to_string(),
            "old_new_new".to_string()
        ]
    );
    assert_eq!(
        SuiteFixtureType::Shell.get_version_combinations(),
        vec!["".to_string()]
    );
}

#[test]
fn test_multiversion_config_from_str() {
    let text = "
multiversion_config:
  last_versions:
    - last_lts
    - last_continuous
";
    let config = MultiversionConfig::from_str(text).unwrap();
    assert_eq!(
        config.multiversion_config.last_versions,
        vec!["last_lts".to_string(), "last_continuous".to_string()]
    );
}

#[test]
fn test_missing_executor_is_invalid() {
    let config = ResmokeSuiteConfig::from_str("selector: {}").unwrap();
    assert!(config.get_fixture_type().is_err());
}

#[test]
fn test_multiversion_config_rejects_bad_document() {
    assert!(MultiversionConfig::from_str("- 1").is_err());
    assert!(MultiversionConfig::from_str("multiversion_config: 3").is_err());
}
