//! The runtime-balanced splitter and the sub-task builders.
use mongo_task_gen::evg_model::{EvgCommand, ParamValue};
use mongo_task_gen::split_tasks::{
    split_tests, GeneratedSuite, ResmokeGenParams, SubSuite,
};
use mongo_task_gen::task_history::{TaskRuntimeHistory, TestRuntimeHistory};

fn history(task: &str, suite: &str, entries: &[(&str, u64)]) -> TaskRuntimeHistory {
    TaskRuntimeHistory {
        suite_name: suite.to_string(),
        task_name: task.to_string(),
        test_map: entries
            .iter()
            .map(|(name, avg)| {
                (
                    name.to_string(),
                    TestRuntimeHistory {
                        test_name: name.to_string(),
                        average_runtime: *avg,
                        hooks: vec![],
                    },
                )
            })
            .collect(),
    }
}

fn tests(names: &[&str]) -> Vec<String> {
    names.iter().map(|n| n.to_string()).collect()
}

// Single splittable task, mainline: one sub-suite holding everything.
#[test]
fn test_single_task_mainline() {
    let hist = history("t", "s1", &[("a", 10), ("b", 20), ("c", 30)]);
    let discovered = tests(&["a", "b", "c"]);

    let suite = split_tests(&hist, "vA", &discovered, 1);

    assert_eq!(suite.task_name, "t");
    assert_eq!(suite.suite_name, "s1");
    assert_eq!(suite.sub_suites.len(), 1);
    assert_eq!(suite.sub_suites[0].name, "t_0_vA");
    assert_eq!(suite.sub_suites[0].test_list, tests(&["a", "b", "c"]));
}

// Splittable, n=3, balanced: three equal sub-suites.
#[test]
fn test_balanced_three_way_split() {
    let hist = history(
        "t",
        "s1",
        &[("a", 10), ("b", 10), ("c", 10), ("d", 10), ("e", 10), ("f", 10)],
    );
    let discovered = tests(&["a", "b", "c", "d", "e", "f"]);

    let suite = split_tests(&hist, "vA", &discovered, 3);

    assert_eq!(suite.sub_suites.len(), 3);
    assert_eq!(suite.sub_suites[0].name, "t_0_vA");
    assert_eq!(suite.sub_suites[0].test_list, tests(&["a", "b"]));
    assert_eq!(suite.sub_suites[1].name, "t_1_vA");
    assert_eq!(suite.sub_suites[1].test_list, tests(&["c", "d"]));
    assert_eq!(suite.sub_suites[2].name, "t_2_vA");
    assert_eq!(suite.sub_suites[2].test_list, tests(&["e", "f"]));
}

// Splittable with unknown tests: unknown tests join the open
// sub-suite without advancing its runtime.
#[test]
fn test_split_with_unknown_tests() {
    let hist = history("t", "s1", &[("a", 100)]);
    let discovered = tests(&["a", "b", "c"]);

    let suite = split_tests(&hist, "vA", &discovered, 2);

    assert_eq!(suite.sub_suites.len(), 2);
    assert_eq!(suite.sub_suites[0].name, "t_0_vA");
    assert_eq!(suite.sub_suites[0].test_list, tests(&["a"]));
    assert_eq!(suite.sub_suites[1].name, "t_1_vA");
    assert_eq!(suite.sub_suites[1].test_list, tests(&["b", "c"]));
}

// Tests named by paths are matched against history by logical name.
#[test]
fn test_split_uses_logical_names() {
    let hist = history("t", "s1", &[("a", 10), ("b", 10)]);
    let discovered = tests(&["jstests/core/a.js", "jstests/core/b.js"]);

    let suite = split_tests(&hist, "vA", &discovered, 2);

    assert_eq!(suite.sub_suites.len(), 2);
    assert_eq!(suite.sub_suites[0].test_list, tests(&["jstests/core/a.js"]));
    assert_eq!(suite.sub_suites[1].test_list, tests(&["jstests/core/b.js"]));
}

// An empty discovery yields an empty generated suite.
#[test]
fn test_split_empty_discovery() {
    let hist = history("t", "s1", &[]);
    let suite = split_tests(&hist, "vA", &vec![], 5);
    assert_eq!(suite.sub_suites.len(), 0);
}

fn gen_params() -> ResmokeGenParams {
    ResmokeGenParams {
        use_large_distro: false,
        large_distro_name: None,
        require_multiversion_setup: false,
        repeat_suites: 1,
        resmoke_args: "--x".to_string(),
        resmoke_jobs_max: None,
        config_location: Some("path/to/config".to_string()),
    }
}

fn sub_suite() -> SubSuite {
    SubSuite {
        name: "t_0_vA".to_string(),
        test_list: vec!["a".to_string()],
    }
}

// Generated references are never activated on creation.
#[test]
fn test_task_ref_is_deactivated() {
    let r = sub_suite().task_ref();
    assert_eq!(r.name, "t_0_vA");
    assert_eq!(r.activate, Some(false));
    assert!(r.distros.is_none());
}

#[test]
fn test_sub_suite_task_commands() {
    let t = sub_suite().task(&gen_params());
    assert_eq!(t.name, "t_0_vA");
    let mut names: Vec<&str> = vec![];
    for c in &t.commands {
        let EvgCommand::Function(f) = c;
        names.push(f.func.as_str());
    }
    assert_eq!(
        names,
        vec![
            "do setup",
            "configure evergreen api credentials",
            "run generated tests"
        ]
    );
    let EvgCommand::Function(run) = &t.commands[2];
    let vars = run.vars.as_ref().unwrap();
    let resmoke_args = vars
        .iter()
        .find(|(k, _)| k == "resmoke_args")
        .map(|(_, v)| v)
        .unwrap();
    assert!(matches!(resmoke_args, ParamValue::Str(s) if s == "--originSuite=t_0_vA --x"));
    let deps = t.depends_on.as_ref().unwrap();
    assert_eq!(deps.len(), 1);
    assert_eq!(deps[0].name, "archive_dist_test");
}

#[test]
fn test_generated_suite_display_task() {
    let suite = GeneratedSuite {
        task_name: "t".to_string(),
        suite_name: "s1".to_string(),
        sub_suites: vec![
            SubSuite {
                name: "t_0_vA".to_string(),
                test_list: vec!["a".to_string()],
            },
            SubSuite {
                name: "t_1_vA".to_string(),
                test_list: vec!["b".to_string()],
            },
        ],
    };
    let display = suite.display_task();
    assert_eq!(display.name, "t");
    assert_eq!(
        display.execution_tasks,
        vec!["t_0_vA".to_string(), "t_1_vA".to_string()]
    );
    let refs = suite.task_refs();
    assert_eq!(refs.len(), 2);
    assert!(refs.iter().all(|r| r.activate == Some(false)));
    let exec = suite.execution_tasks(&gen_params());
    assert_eq!(exec.len(), 2);
    assert_eq!(exec[0].name, "t_0_vA");
    assert_eq!(exec[1].name, "t_1_vA");
}

// The misc exclusion set is the union of the sub-suites' tests, in
// order.
#[test]
fn test_all_tests_union() {
    let suite = GeneratedSuite {
        task_name: "t".to_string(),
        suite_name: "s1".to_string(),
        sub_suites: vec![
            SubSuite {
                name: "t_0_vA".to_string(),
                test_list: vec!["a".to_string(), "b".to_string()],
            },
            SubSuite {
                name: "t_1_vA".to_string(),
                test_list: vec!["c".to_string()],
            },
        ],
    };
    assert_eq!(
        suite.all_tests(),
        vec!["a".to_string(), "b".to_string(), "c".to_string()]
    );
}
