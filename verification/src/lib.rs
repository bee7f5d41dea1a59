//! Generation of dynamic CI task configuration: naming of generated
//! sub-tasks, runtime-balanced splitting of test suites, rewriting of
//! test-runner suite documents, fuzzer task expansion, and assembly of
//! the resulting project document.
use vstd::prelude::*;

pub mod errors;
pub mod evg_model;
pub mod expansions;
pub mod strings;
pub mod pipeline;
pub mod resmoke;
pub mod resmoke_task_gen;
pub mod split_tasks;
pub mod task_history;
pub mod task_types;
pub mod taskname;
pub mod util;

use crate::evg_model::{EvgCommand, EvgTask, EvgTaskView, FunctionCall, FunctionCallView, ParamVal,
    ParamValue, vars_get};
use crate::taskname::{remove_gen_suffix_ref, spec_remove_gen_suffix};

verus! {

/// A slice of a split task, by partition index.
#[derive(Debug, Clone)]
pub struct SubSuite {
    pub index: usize,
    pub suite_name: String,
    pub test_list: Vec<String>,
}

/// A split generator task together with where its suite files go.
#[derive(Debug, Clone)]
pub struct GeneratedSuite {
    pub sub_suites: Vec<SubSuite>,
    pub build_variant: String,
    pub task_name: String,
    pub suite_name: String,
    pub filename: String,
    pub include_build_variant_in_name: bool,
}

/// The function call that marks a generator task.
pub open spec fn gen_call_name() -> Seq<char> {
    "generate resmoke tasks"@
}

/// The first `generate resmoke tasks` call among a task's commands.
pub open spec fn first_gen_call(cmds: Seq<FunctionCallView>) -> Option<FunctionCallView>
    decreases cmds.len(),
{
    if cmds.len() == 0 {
        None
    } else if cmds[0].func == gen_call_name() {
        Some(cmds[0])
    } else {
        first_gen_call(cmds.drop_first())
    }
}

/// The string value of a variable of the task's generator call.
pub open spec fn spec_gen_task_var(t: EvgTaskView, var: Seq<char>) -> Option<Seq<char>> {
    match first_gen_call(t.commands) {
        Some(f) => match f.vars {
            Some(vs) => match vars_get(vs, var) {
                Some(ParamVal::Str(s)) => Some(s),
                _ => None,
            },
            None => None,
        },
        None => None,
    }
}

/// The suite a generator task generates from: its `suite` variable, or
/// its own name without the `_gen` suffix.
pub open spec fn spec_find_suite_name(t: EvgTaskView) -> Seq<char> {
    match spec_gen_task_var(t, "suite"@) {
        Some(s) => s,
        None => spec_remove_gen_suffix(t.name),
    }
}

/// Whether a task is a generator task.
pub fn is_task_generated(task: &EvgTask) -> (r: bool)
    ensures
        r == (first_gen_call(task.deep_view().commands) is Some),
{
    match get_generate_resmoke_func(task) {
        Some(_) => true,
        None => false,
    }
}

/// The first `generate resmoke tasks` call of the task, if any.
pub fn get_generate_resmoke_func<'a>(task: &'a EvgTask) -> (r: Option<&'a FunctionCall>)
    ensures
        match r {
            Some(f) => first_gen_call(task.deep_view().commands) == Some(f.deep_view()),
            None => first_gen_call(task.deep_view().commands) is None,
        },
{
    let ghost cv = task.deep_view().commands;
    let n = task.commands.len();
    let mut i: usize = 0;
    while i < n
        invariant
            n == task.commands.len(),
            cv == task.deep_view().commands,
            cv.len() == n,
            i <= n,
            forall|j: int| 0 <= j < i ==> (#[trigger] cv[j]).func != gen_call_name(),
        decreases n - i,
    {
        proof {
            assert(cv[i as int] == task.commands@[i as int].deep_view());
        }
        match &task.commands[i] {
            EvgCommand::Function(f) => {
                if crate::strings::str_eq(f.func.as_str(), "generate resmoke tasks") {
                    proof {
                        lemma_first_gen_call_at(cv, i as int);
                    }
                    return Some(f);
                }
            },
        }
        i = i + 1;
    }
    proof {
        lemma_first_gen_call_missing(cv);
    }
    None
}

proof fn lemma_first_gen_call_at(cmds: Seq<FunctionCallView>, i: int)
    requires
        0 <= i < cmds.len(),
        cmds[i].func == gen_call_name(),
        forall|j: int| 0 <= j < i ==> (#[trigger] cmds[j]).func != gen_call_name(),
    ensures
        first_gen_call(cmds) == Some(cmds[i]),
    decreases i,
{
    if i > 0 {
        lemma_first_gen_call_at(cmds.drop_first(), i - 1);
    }
}

proof fn lemma_first_gen_call_missing(cmds: Seq<FunctionCallView>)
    requires
        forall|j: int| 0 <= j < cmds.len() ==> (#[trigger] cmds[j]).func != gen_call_name(),
    ensures
        first_gen_call(cmds) is None,
    decreases cmds.len(),
{
    if cmds.len() > 0 {
        lemma_first_gen_call_missing(cmds.drop_first());
    }
}

/// The string value of a variable of the task's generator call.
pub fn get_gen_task_var<'a>(task: &'a EvgTask, var: &str) -> (r: Option<&'a str>)
    ensures
        match r {
            Some(s) => spec_gen_task_var(task.deep_view(), var@) == Some(s@),
            None => spec_gen_task_var(task.deep_view(), var@) is None,
        },
{
    match get_generate_resmoke_func(task) {
        Some(f) => match &f.vars {
            Some(vs) => match crate::evg_model::vars_lookup(vs, var) {
                Some(v) => match v {
                    ParamValue::Str(s) => Some(s.as_str()),
                    _ => None,
                },
                None => None,
            },
            None => None,
        },
        None => None,
    }
}

/// The suite a generator task generates from.
pub fn find_suite_name<'a>(task: &'a EvgTask) -> (r: &'a str)
    ensures
        r@ == spec_find_suite_name(task.deep_view()),
{
    let suite = get_gen_task_var(task, "suite");
    if let Some(suite) = suite {
        suite
    } else {
        remove_gen_suffix_ref(task.name.as_str())
    }
}

/// Whether a generator task is a fuzzer generator: its generator call
/// carries `is_jstestfuzz = "true"`.
pub fn is_fuzzer_task(task: &EvgTask) -> (r: bool)
    ensures
        r == (spec_gen_task_var(task.deep_view(), "is_jstestfuzz"@) == Some("true"@)),
{
    let is_jstestfuzz = get_gen_task_var(task, "is_jstestfuzz");
    if let Some(is_jstestfuzz) = is_jstestfuzz {
        crate::strings::str_eq(is_jstestfuzz, "true")
    } else {
        false
    }
}

} // verus!
