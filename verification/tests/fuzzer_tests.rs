//! Fuzzer task expansion, with and without the multiversion cross
//! product.
use mongo_task_gen::evg_model::{EvgCommand, ParamValue};
use mongo_task_gen::resmoke::ResmokeSuiteConfig;
use mongo_task_gen::task_types::fuzzer_tasks::{
    FuzzerGenTaskParams, GenFuzzerService, GenFuzzerServiceImpl,
};

fn params(num_tasks: u64, multiversion: bool, suite_yaml: &str) -> FuzzerGenTaskParams {
    FuzzerGenTaskParams {
        task_name: "t".to_string(),
        variant: "vA".to_string(),
        suite: "s1".to_string(),
        num_files: 5,
        num_tasks,
        resmoke_args: "--x".to_string(),
        npm_command: "jstestfuzz".to_string(),
        jstestfuzz_vars: None,
        continue_on_failure: true,
        resmoke_jobs_max: 0,
        should_shuffle: true,
        timeout_secs: 1800,
        require_multiversion_setup: Some(multiversion),
        use_large_distro: None,
        large_distro_name: None,
        config_location: "path/to/config".to_string(),
        suite_config: ResmokeSuiteConfig::from_str(suite_yaml).unwrap(),
    }
}

fn var<'a>(task: &'a mongo_task_gen::evg_model::EvgTask, func: &str, key: &str) -> &'a ParamValue {
    for c in &task.commands {
        let EvgCommand::Function(f) = c;
        if f.func == func {
            return f
                .vars
                .as_ref()
                .unwrap()
                .iter()
                .find(|(k, _)| k == key)
                .map(|(_, v)| v)
                .unwrap();
        }
    }
    panic!("no call of {func}");
}

// Fuzzer, no multiversion: three sub-tasks, each generating five
// files.
#[test]
fn test_fuzzer_without_multiversion() {
    let service = GenFuzzerServiceImpl::new(&[]);
    let p = params(3, false, "executor: {}");

    let task = service.generate_fuzzer_task(&p).unwrap();

    assert_eq!(task.task_name, "t");
    let names: Vec<&str> = task.sub_tasks.iter().map(|t| t.name.as_str()).collect();
    assert_eq!(names, vec!["t_0_vA", "t_1_vA", "t_2_vA"]);
    for sub in &task.sub_tasks {
        let fuzz_vars = var(sub, "run jstestfuzz", "jstestfuzz_vars");
        assert!(matches!(fuzz_vars, ParamValue::Str(s) if s.contains("--numGeneratedFiles 5")));
        let suite = var(sub, "run generated tests", "suite");
        assert!(matches!(suite, ParamValue::Str(s) if s == "s1"));
        let deps = sub.depends_on.as_ref().unwrap();
        assert_eq!(deps[0].name, "archive_dist_test_debug");
    }
}

// Fuzzer, multiversion, replica fixture: six base names, each with
// two sub-tasks, and suite vars naming the matching base suite.
#[test]
fn test_fuzzer_multiversion_replica_fixture() {
    let service = GenFuzzerServiceImpl::new(&["last_lts".to_string()]);
    let suite_yaml = "
executor:
  fixture:
    class: ReplicaSetFixture
";
    let p = params(2, true, suite_yaml);

    let task = service.generate_fuzzer_task(&p).unwrap();

    // 1 old version x 3 combinations x 2 tasks
    assert_eq!(task.sub_tasks.len(), 6);
    let names: Vec<&str> = task.sub_tasks.iter().map(|t| t.name.as_str()).collect();
    assert_eq!(
        names,
        vec![
            "t_last_lts_new_new_old_0_vA",
            "t_last_lts_new_new_old_1_vA",
            "t_last_lts_new_old_new_0_vA",
            "t_last_lts_new_old_new_1_vA",
            "t_last_lts_old_new_new_0_vA",
            "t_last_lts_old_new_new_1_vA",
        ]
    );
    let suite = var(&task.sub_tasks[0], "run generated tests", "suite");
    assert!(matches!(suite, ParamValue::Str(s) if s == "s1_last_lts_new_new_old"));
    let tags_version = var(
        &task.sub_tasks[0],
        "run generated tests",
        "multiversion_exclude_tags_version",
    );
    assert!(matches!(tags_version, ParamValue::Str(s) if s == "new_new_old"));
    let first_cmd = match &task.sub_tasks[0].commands[0] {
        EvgCommand::Function(f) => f.func.as_str(),
    };
    assert_eq!(first_cmd, "git get project no modules");
}

// A sharded fixture yields a single binary-mix combination.
#[test]
fn test_fuzzer_multiversion_sharded_fixture() {
    let service = GenFuzzerServiceImpl::new(&["last_lts".to_string(), "last_continuous".to_string()]);
    let suite_yaml = "
executor:
  fixture:
    class: ShardedClusterFixture
";
    let p = params(3, true, suite_yaml);

    let task = service.generate_fuzzer_task(&p).unwrap();

    // 2 old versions x 1 combination x 3 tasks
    assert_eq!(task.sub_tasks.len(), 6);
    assert_eq!(task.sub_tasks[0].name, "t_last_lts_new_old_old_new_0_vA");
    assert_eq!(
        task.sub_tasks[3].name,
        "t_last_continuous_new_old_old_new_0_vA"
    );
}

#[test]
fn test_fuzzer_task_refs_and_display() {
    let service = GenFuzzerServiceImpl::new(&[]);
    let p = params(2, false, "executor: {}");
    let task = service.generate_fuzzer_task(&p).unwrap();

    let refs = task.build_task_ref();
    assert_eq!(refs.len(), 2);
    assert!(refs.iter().all(|r| r.activate == Some(false)));

    let display = task.build_display_task();
    assert_eq!(display.name, "t");
    assert_eq!(
        display.execution_tasks,
        vec!["t_0_vA".to_string(), "t_1_vA".to_string()]
    );
}

#[test]
fn test_get_version_combination_requires_executor() {
    let p = params(1, true, "selector: {}");
    assert!(p.get_version_combination().is_err());
}
