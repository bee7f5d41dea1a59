//! Expansions, run-var resolution, parameter building, and the
//! history summary.
use mongo_task_gen::evg_model::{
    BuildVariant, EvgCommand, EvgTask, FunctionCall, ParamValue,
};
use mongo_task_gen::expansions::{
    task_def_to_fuzzer_params, task_def_to_gen_params, translate_run_var, EvgExpansions,
};
use mongo_task_gen::resmoke::ResmokeSuiteConfig;
use mongo_task_gen::task_history::{
    build_stats_request, get_test_name, stats_request_for, task_history_from_stats, Date,
    TestStats,
};
use mongo_task_gen::{find_suite_name, is_fuzzer_task, is_task_generated};

fn expansions() -> EvgExpansions {
    EvgExpansions {
        build_id: "b123".to_string(),
        build_variant: "vA".to_string(),
        is_patch: None,
        project: "p".to_string(),
        max_tests_per_suite: None,
        max_sub_suite: Some(7),
        mainline_max_sub_suites: None,
        resmoke_repeat_suites: None,
        revision: "abc".to_string(),
        task_name: "t_gen".to_string(),
        target_resmoke_time: None,
        task_id: "tid".to_string(),
        version_id: Some("v99".to_string()),
    }
}

#[test]
fn test_get_max_sub_suites() {
    let mut e = expansions();
    assert_eq!(e.get_max_sub_suites(), 1);
    e.is_patch = Some("true".to_string());
    assert_eq!(e.get_max_sub_suites(), 7);
    e.max_sub_suite = None;
    assert_eq!(e.get_max_sub_suites(), 5);
    e.is_patch = Some("false".to_string());
    e.mainline_max_sub_suites = Some(3);
    assert_eq!(e.get_max_sub_suites(), 3);
}

#[test]
fn test_config_locations() {
    let e = expansions();
    assert_eq!(e.config_location(), "vA/abc/generate_tasks/t_gen-b123.tgz");
    assert_eq!(
        e.version_config_location().unwrap(),
        "abc/generate_tasks/generated-config-v99.tgz"
    );
}

fn variant_with(expansions: Option<Vec<(String, String)>>) -> BuildVariant {
    BuildVariant {
        name: "vA".to_string(),
        tasks: vec![],
        display_tasks: None,
        activate: None,
        expansions,
    }
}

#[test]
fn test_translate_run_var() {
    let bv = variant_with(Some(vec![("files".to_string(), "250".to_string())]));
    // a plain value passes through
    assert_eq!(translate_run_var("42", &bv), Some("42".to_string()));
    // a reference resolves against the expansions
    assert_eq!(translate_run_var("${files}", &bv), Some("250".to_string()));
    // an absent expansion falls back to the default
    assert_eq!(translate_run_var("${other|5}", &bv), Some("5".to_string()));
    // an absent expansion without a default is unresolved
    assert_eq!(translate_run_var("${other}", &bv), None);
    // no expansions at all still honors the default
    assert_eq!(
        translate_run_var("${other|9}", &variant_with(None)),
        Some("9".to_string())
    );
}

fn gen_task(vars: Vec<(&str, &str)>, tags: Option<Vec<&str>>) -> EvgTask {
    EvgTask {
        name: "t_gen".to_string(),
        commands: vec![EvgCommand::Function(FunctionCall {
            func: "generate resmoke tasks".to_string(),
            vars: Some(
                vars.iter()
                    .map(|(k, v)| (k.to_string(), ParamValue::Str(v.to_string())))
                    .collect(),
            ),
        })],
        depends_on: None,
        tags: tags.map(|t| t.iter().map(|s| s.to_string()).collect()),
    }
}

#[test]
fn test_task_classification() {
    let plain = EvgTask {
        name: "build".to_string(),
        commands: vec![],
        depends_on: None,
        tags: None,
    };
    assert!(!is_task_generated(&plain));

    let gen = gen_task(vec![("suite", "s1")], None);
    assert!(is_task_generated(&gen));
    assert!(!is_fuzzer_task(&gen));
    assert_eq!(find_suite_name(&gen), "s1");

    let fuzzer = gen_task(vec![("is_jstestfuzz", "true")], None);
    assert!(is_fuzzer_task(&fuzzer));
    assert_eq!(find_suite_name(&fuzzer), "t");
}

#[test]
fn test_task_def_to_gen_params() {
    let task = gen_task(vec![("resmoke_args", "--x"), ("use_large_distro", "true")], None);
    let bv = variant_with(Some(vec![(
        "large_distro_name".to_string(),
        "big-distro".to_string(),
    )]));
    let p = task_def_to_gen_params(&task, &bv, "cfg/loc");
    assert!(p.use_large_distro);
    assert_eq!(p.large_distro_name, Some("big-distro".to_string()));
    assert!(!p.require_multiversion_setup);
    assert_eq!(p.resmoke_args, "--x");
    assert_eq!(p.config_location, Some("cfg/loc".to_string()));
    assert!(p.resmoke_jobs_max.is_none());
}

fn suite_config() -> ResmokeSuiteConfig {
    ResmokeSuiteConfig::from_str("executor: {}").unwrap()
}

#[test]
fn test_task_def_to_fuzzer_params() {
    let task = gen_task(
        vec![
            ("suite", "s1"),
            ("num_files", "${files|10}"),
            ("num_tasks", "3"),
            ("resmoke_args", "--x"),
            ("continue_on_failure", "true"),
            ("resmoke_jobs_max", "0"),
            ("should_shuffle", "false"),
            ("timeout_secs", "1800"),
        ],
        Some(vec!["multiversion"]),
    );
    let bv = variant_with(Some(vec![("files".to_string(), "25".to_string())]));

    let p = task_def_to_fuzzer_params(&task, &bv, "cfg/loc", suite_config()).unwrap();

    assert_eq!(p.task_name, "t");
    assert_eq!(p.variant, "vA");
    assert_eq!(p.suite, "s1");
    assert_eq!(p.num_files, 25);
    assert_eq!(p.num_tasks, 3);
    assert_eq!(p.npm_command, "jstestfuzz");
    assert!(p.continue_on_failure);
    assert!(!p.should_shuffle);
    assert_eq!(p.timeout_secs, 1800);
    assert_eq!(p.require_multiversion_setup, Some(true));
    assert_eq!(p.config_location, "cfg/loc");
}

#[test]
fn test_task_def_to_fuzzer_params_missing_var() {
    let task = gen_task(vec![("suite", "s1")], None);
    let bv = variant_with(None);
    assert!(task_def_to_fuzzer_params(&task, &bv, "cfg/loc", suite_config()).is_err());
}

#[test]
fn test_get_test_name() {
    assert_eq!(get_test_name("jstests/core/mixed_version_replica_set.js"), "mixed_version_replica_set");
    assert_eq!(get_test_name("plain"), "plain");
}

#[test]
fn test_history_summary() {
    let stats = vec![
        TestStats {
            test_file: "jstests/core/a.js".to_string(),
            avg_duration_pass: 100,
        },
        TestStats {
            test_file: "a:CleanEveryN".to_string(),
            avg_duration_pass: 7,
        },
        TestStats {
            test_file: "other/path/a.js".to_string(),
            avg_duration_pass: 50,
        },
        TestStats {
            test_file: "jstests/core/b.js".to_string(),
            avg_duration_pass: 30,
        },
    ];

    let history = task_history_from_stats("t", "s1", &stats);

    assert_eq!(history.task_name, "t");
    assert_eq!(history.suite_name, "s1");
    assert_eq!(history.test_map.len(), 2);
    let a = &history.test_map.iter().find(|(k, _)| k == "a").unwrap().1;
    // durations of records sharing the logical name are summed
    assert_eq!(a.average_runtime, 150);
    assert_eq!(a.hooks.len(), 1);
    assert_eq!(a.hooks[0].hook_name, "CleanEveryN");
    assert_eq!(a.hooks[0].average_runtime, 7);
    let b = &history.test_map.iter().find(|(k, _)| k == "b").unwrap().1;
    assert_eq!(b.average_runtime, 30);
    assert!(b.hooks.is_empty());
}

#[test]
fn test_stats_request_window() {
    let today = Date {
        year: 2024,
        month: 3,
        day: 5,
    };
    let req = build_stats_request("t", "vA", today);
    assert_eq!(req.before_date, "2024-03-05");
    // 14 days earlier crosses into February of a leap year
    assert_eq!(req.after_date, "2024-02-20");
    assert_eq!(req.group_num_days, 14);
    assert_eq!(req.variants, "vA");
    assert_eq!(req.tasks, "t");
}

#[test]
fn test_current_stats_request_uses_clock() {
    let req = mongo_task_gen::task_history::current_stats_request("t", "vA").unwrap();
    assert_eq!(req.group_num_days, 14);
    assert_eq!(req.tasks, "t");
    assert_eq!(req.variants, "vA");
    // both bounds are dates in YYYY-MM-DD form
    assert_eq!(req.before_date.len(), 10);
    assert_eq!(req.after_date.len(), 10);
    assert!(req.after_date < req.before_date);
}

#[test]
fn test_stats_request_for_drawn_dates() {
    // an in-range triple yields exactly the 14-day window
    let req = stats_request_for("t", "vA", 2024, 3, 5).unwrap();
    assert_eq!(req.before_date, "2024-03-05");
    assert_eq!(req.after_date, "2024-02-20");
    assert_eq!(req.group_num_days, 14);
    // out-of-range years and non-existent days yield nothing
    assert!(stats_request_for("t", "vA", 10000, 3, 5).is_none());
    assert!(stats_request_for("t", "vA", 14, 3, 5).is_none());
    assert!(stats_request_for("t", "vA", 2023, 2, 29).is_none());
    assert!(stats_request_for("t", "vA", 2024, 13, 1).is_none());
    assert!(stats_request_for("t", "vA", 2024, 4, 31).is_none());
}
