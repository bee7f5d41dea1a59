//! Names of generated tasks and sub-suites.
use mongo_task_gen::taskname::{name_sub_suite, remove_gen_suffix, remove_gen_suffix_ref};
use mongo_task_gen::util::name_generated_task;

#[test]
fn test_name_sub_suite() {
    assert_eq!(name_sub_suite("task", 0, 5, None), "task_0");
    assert_eq!(name_sub_suite("task", 3, 15, None), "task_03");
    assert_eq!(name_sub_suite("task", 42, 314, None), "task_042");
    assert_eq!(
        name_sub_suite("hello", 42, 314, Some("world")),
        "hello_042_world"
    );
}

#[test]
fn test_remove_gen_suffix() {
    assert_eq!(remove_gen_suffix("task_name"), "task_name");
    assert_eq!(remove_gen_suffix("task_name_gen"), "task_name");
    assert_eq!(remove_gen_suffix("task_name_"), "task_name_");
}

#[test]
fn test_remove_gen_suffix_ref() {
    assert_eq!(remove_gen_suffix_ref("agg_fuzzer_gen"), "agg_fuzzer");
    assert_eq!(remove_gen_suffix_ref("agg"), "agg");
}

#[test]
fn test_name_generated_task_with_index() {
    assert_eq!(name_generated_task("task", Some(0), Some(10), None), "task_0");
    assert_eq!(
        name_generated_task("task", Some(42), Some(1001), None),
        "task_0042"
    );
    assert_eq!(
        name_generated_task("task", Some(0), Some(10), Some("variant")),
        "task_0_variant"
    );
    assert_eq!(
        name_generated_task("task", Some(42), Some(1999), Some("variant")),
        "task_0042_variant"
    );
}

#[test]
fn test_name_generated_task_misc() {
    assert_eq!(name_generated_task("task", None, Some(1001), None), "task_misc");
    assert_eq!(name_generated_task("task", None, None, None), "task_misc");
    assert_eq!(
        name_generated_task("task", None, None, Some("variant")),
        "task_misc_variant"
    );
}
