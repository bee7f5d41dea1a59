//! The aggregator and the per-task memo.
use mongo_task_gen::pipeline::{GenTaskMemo, GeneratedConfig, MemoDecision};
use mongo_task_gen::split_tasks::{GeneratedSuite, ResmokeGenParams, SubSuite};

fn suite() -> GeneratedSuite {
    GeneratedSuite {
        task_name: "t".to_string(),
        suite_name: "s1".to_string(),
        sub_suites: vec![
            SubSuite {
                name: "t_0_vA".to_string(),
                test_list: vec!["a".to_string()],
            },
            SubSuite {
                name: "t_1_vA".to_string(),
                test_list: vec!["b".to_string()],
            },
        ],
    }
}

fn gen_params() -> ResmokeGenParams {
    ResmokeGenParams {
        use_large_distro: false,
        large_distro_name: None,
        require_multiversion_setup: false,
        repeat_suites: 1,
        resmoke_args: "--x".to_string(),
        resmoke_jobs_max: None,
        config_location: None,
    }
}

// Memoization across variants: exactly one caller is told to produce,
// and every later caller observes the published split.
#[test]
fn test_memo_single_producer() {
    let mut memo = GenTaskMemo::new();

    let first = memo.get_or_start("t");
    assert!(matches!(first, MemoDecision::Produce));

    let second = memo.get_or_start("t");
    assert!(matches!(second, MemoDecision::Wait));

    memo.publish("t", suite());

    match memo.get_or_start("t") {
        MemoDecision::Ready(g) => {
            assert_eq!(g.task_name, "t");
            assert_eq!(g.sub_suites.len(), 2);
        }
        _ => panic!("the published split should be ready"),
    }
    match memo.get_or_start("t") {
        MemoDecision::Ready(g) => assert_eq!(g.sub_suites[0].name, "t_0_vA"),
        _ => panic!("the published split should stay ready"),
    }

    // a different task gets its own producer
    assert!(matches!(memo.get_or_start("u"), MemoDecision::Produce));
}

// Two variants list the same task: definitions are recorded once,
// references and display tasks in both variants.
#[test]
fn test_memoized_aggregation_across_variants() {
    let s = suite();
    let mut config_a = GeneratedConfig::new();
    let mut config_b = GeneratedConfig::new();

    config_a.add_generated_suite(&s, &gen_params(), true);
    config_b.add_generated_suite(&s, &gen_params(), false);

    assert_eq!(config_a.gen_task_def.len(), 2);
    assert_eq!(config_b.gen_task_def.len(), 0);
    assert_eq!(config_a.gen_task_specs.len(), 2);
    assert_eq!(config_b.gen_task_specs.len(), 2);
    assert_eq!(config_a.display_tasks.len(), 1);
    assert_eq!(config_b.display_tasks.len(), 1);
    assert_eq!(config_a.display_tasks[0].name, "t");
}

// Every reference of an output build variant is deactivated.
#[test]
fn test_output_variant_activation() {
    let mut config = GeneratedConfig::new();
    config.add_generated_suite(&suite(), &gen_params(), true);
    config.add_generator_tasks(vec!["t_gen".to_string()]);

    let (bv, tasks) = config.into_build_variant("vA", Some(false));

    assert_eq!(bv.name, "vA");
    assert_eq!(bv.activate, Some(false));
    assert_eq!(tasks.len(), 2);
    assert!(bv.tasks.iter().all(|r| r.activate == Some(false)));
    let displays = bv.display_tasks.as_ref().unwrap();
    assert_eq!(displays.len(), 2);
    assert_eq!(displays[1].name, "generator_tasks");
    assert_eq!(displays[1].execution_tasks, vec!["t_gen".to_string()]);
}
