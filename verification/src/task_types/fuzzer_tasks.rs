//! Expansion of fuzzer generator tasks into sub-task definitions,
//! with an optional multiversion cross product.
use vstd::prelude::*;

use crate::errors::GenError;
use crate::evg_model::{
    fn_call, fn_call_with_params, DisplayTask, EvgCommand, EvgTask, EvgTaskView, FunctionCallView,
    ParamVal, ParamValue, TaskDependency, TaskDependencyView, TaskRef, TaskRefView,
};
use crate::resmoke::{spec_fixture_type, spec_version_combinations, ResmokeSuiteConfig};
use crate::strings::{dec_of, u64_to_dec};
use crate::util::{name_generated_task, spec_name_with_index};

verus! {

/// A fuzzer task expanded into its sub-tasks.
#[derive(Debug)]
pub struct FuzzerTask {
    pub task_name: String,
    pub sub_tasks: Vec<EvgTask>,
}

impl FuzzerTask {
    /// The display task grouping the generated sub-tasks.
    pub fn build_display_task(&self) -> (r: DisplayTask)
        ensures
            r.name@ == self.task_name@,
            r.execution_tasks.deep_view() == Seq::new(
                self.sub_tasks.deep_view().len(),
                |k: int| self.sub_tasks.deep_view()[k].name,
            ),
    {
        let n = self.sub_tasks.len();
        let mut names: Vec<String> = Vec::new();
        let mut i: usize = 0;
        while i < n
            invariant
                n == self.sub_tasks.len(),
                i <= n,
                names.deep_view().len() == i,
                forall|k: int|
                    0 <= k < i ==> #[trigger] names.deep_view()[k]
                        == self.sub_tasks.deep_view()[k].name,
            decreases n - i,
        {
            let ghost prev = names.deep_view();
            names.push(self.sub_tasks[i].name.clone());
            proof {
                assert(names.deep_view() =~= prev.push(names@.last()@));
                assert(self.sub_tasks.deep_view()[i as int] == self.sub_tasks@[
                    i as int].deep_view());
            }
            i = i + 1;
        }
        proof {
            assert(names.deep_view() =~= Seq::new(
                self.sub_tasks.deep_view().len(),
                |k: int| self.sub_tasks.deep_view()[k].name,
            ));
        }
        DisplayTask { name: self.task_name.clone(), execution_tasks: names }
    }

    /// One reference per sub-task, each with `activate = false`.
    pub fn build_task_ref(&self) -> (r: Vec<TaskRef>)
        ensures
            r.deep_view().len() == self.sub_tasks.deep_view().len(),
            forall|k: int|
                0 <= k < r.deep_view().len() ==> #[trigger] r.deep_view()[k] == (TaskRefView {
                    name: self.sub_tasks.deep_view()[k].name,
                    distros: None,
                    activate: Some(false),
                }),
    {
        let n = self.sub_tasks.len();
        let mut out: Vec<TaskRef> = Vec::new();
        let mut i: usize = 0;
        while i < n
            invariant
                n == self.sub_tasks.len(),
                i <= n,
                out.deep_view().len() == i,
                forall|k: int|
                    0 <= k < i ==> #[trigger] out.deep_view()[k] == (TaskRefView {
                        name: self.sub_tasks.deep_view()[k].name,
                        distros: None,
                        activate: Some(false),
                    }),
            decreases n - i,
        {
            let ghost prev = out.deep_view();
            out.push(self.sub_tasks[i].get_reference(None, Some(false)));
            proof {
                assert(out.deep_view() =~= prev.push(out@.last().deep_view()));
                assert(self.sub_tasks.deep_view()[i as int] == self.sub_tasks@[
                    i as int].deep_view());
            }
            i = i + 1;
        }
        out
    }
}

/// Parameters of one fuzzer generator task.
#[derive(Debug)]
pub struct FuzzerGenTaskParams {
    /// Name of task being generated.
    pub task_name: String,
    /// Name of build variant being generated on.
    pub variant: String,
    /// Resmoke suite for generated tests.
    pub suite: String,
    /// Number of javascript files the fuzzer should generate.
    pub num_files: u64,
    /// Number of sub-tasks the fuzzer should generate.
    pub num_tasks: u64,
    /// Arguments to pass to the resmoke invocation.
    pub resmoke_args: String,
    /// npm command to perform fuzzer execution.
    pub npm_command: String,
    /// Arguments to pass to the fuzzer invocation.
    pub jstestfuzz_vars: Option<String>,
    /// Should generated tests continue running after hitting an error.
    pub continue_on_failure: bool,
    /// Maximum number of jobs resmoke should execute in parallel.
    pub resmoke_jobs_max: u64,
    /// Should tests be executed out of order.
    pub should_shuffle: bool,
    /// Timeout before test execution is considered hung.
    pub timeout_secs: u64,
    /// Requires downloading multiversion binaries.
    pub require_multiversion_setup: Option<bool>,
    /// Should tasks be generated on a large distro.
    pub use_large_distro: Option<bool>,
    /// Name of the large distro to generate on.
    pub large_distro_name: Option<String>,
    /// Location of the generated task configuration.
    pub config_location: String,
    /// The suite's configuration document.
    pub suite_config: ResmokeSuiteConfig,
}

impl FuzzerGenTaskParams {
    pub open spec fn is_multiversion(&self) -> bool {
        self.require_multiversion_setup == Some(true)
    }

    /// The variables handed to `run jstestfuzz`.
    fn build_jstestfuzz_vars(&self) -> (r: Vec<(String, ParamValue)>)
        ensures
            r.deep_view() == spec_jstestfuzz_vars(
                self.npm_command@,
                self.num_files,
                self.jstestfuzz_vars.deep_view(),
            ),
    {
        proof {
            reveal_strlit(" ");
            assert(" "@ =~= seq![' ']);
        }
        let mut vars: Vec<(String, ParamValue)> = Vec::new();
        vars.push(("npm_command".to_owned(), ParamValue::Str(self.npm_command.clone())));
        let mut line = "--numGeneratedFiles ".to_owned();
        let files = u64_to_dec(self.num_files);
        line.append(files.as_str());
        line.append(" ");
        match &self.jstestfuzz_vars {
            Some(extra) => {
                line.append(extra.as_str());
            },
            None => {},
        }
        vars.push(("jstestfuzz_vars".to_owned(), ParamValue::Str(line)));
        proof {
            assert(vars.deep_view() =~= spec_jstestfuzz_vars(
                self.npm_command@,
                self.num_files,
                self.jstestfuzz_vars.deep_view(),
            ));
        }
        vars
    }

    /// The variables handed to `run generated tests`.
    fn build_run_tests_vars(&self, suite_name: Option<&str>, bin_version: Option<&str>) -> (r: Vec<
        (String, ParamValue),
    >)
        ensures
            r.deep_view() == spec_run_tests_vars(
                self.deep_params(),
                crate::util::opt_str_view(suite_name),
                crate::util::opt_str_view(bin_version),
            ),
    {
        let mut vars: Vec<(String, ParamValue)> = Vec::new();
        vars.push(("continue_on_failure".to_owned(), ParamValue::Bool(self.continue_on_failure)));
        vars.push(("resmoke_args".to_owned(), ParamValue::Str(self.resmoke_args.clone())));
        vars.push(("resmoke_jobs_max".to_owned(), ParamValue::UInt(self.resmoke_jobs_max)));
        vars.push(("should_shuffle".to_owned(), ParamValue::Bool(self.should_shuffle)));
        vars.push(
            (
                "require_multiversion_setup".to_owned(),
                ParamValue::Bool(
                    match self.require_multiversion_setup {
                        Some(b) => b,
                        None => false,
                    },
                ),
            ),
        );
        vars.push(("timeout_secs".to_owned(), ParamValue::UInt(self.timeout_secs)));
        vars.push(("task".to_owned(), ParamValue::Str(self.task_name.clone())));
        vars.push(
            ("gen_task_config_location".to_owned(), ParamValue::Str(self.config_location.clone())),
        );
        match suite_name {
            Some(s) => {
                vars.push(("suite".to_owned(), ParamValue::Str(s.to_owned())));
            },
            None => {
                vars.push(("suite".to_owned(), ParamValue::Str(self.suite.clone())));
            },
        }
        match bin_version {
            Some(b) => {
                vars.push(
                    ("multiversion_exclude_tags_version".to_owned(), ParamValue::Str(b.to_owned())),
                );
            },
            None => {},
        }
        proof {
            assert(vars.deep_view() =~= spec_run_tests_vars(
                self.deep_params(),
                crate::util::opt_str_view(suite_name),
                crate::util::opt_str_view(bin_version),
            ));
        }
        vars
    }

    /// The fields of the parameters that the generated variables
    /// depend on.
    pub open spec fn deep_params(&self) -> FuzzerParamsView {
        FuzzerParamsView {
            task_name: self.task_name@,
            variant: self.variant@,
            suite: self.suite@,
            num_files: self.num_files,
            num_tasks: self.num_tasks,
            resmoke_args: self.resmoke_args@,
            npm_command: self.npm_command@,
            jstestfuzz_vars: self.jstestfuzz_vars.deep_view(),
            continue_on_failure: self.continue_on_failure,
            resmoke_jobs_max: self.resmoke_jobs_max,
            should_shuffle: self.should_shuffle,
            timeout_secs: self.timeout_secs,
            require_multiversion_setup: self.require_multiversion_setup,
            config_location: self.config_location@,
        }
    }

    /// The version combinations of the suite's fixture.
    pub fn get_version_combination(&self) -> (r: Result<Vec<String>, GenError>)
        ensures
            match r {
                Ok(v) => spec_fixture_type(self.suite_config@) matches Some(t) && v.deep_view()
                    == spec_version_combinations(t),
                Err(e) => spec_fixture_type(self.suite_config@) is None
                    && e.is_invalid_suite_config(),
            },
    {
        let fixture = self.suite_config.get_fixture_type()?;
        Ok(fixture.get_version_combinations())
    }
}

/// The value fields of fuzzer parameters.
pub struct FuzzerParamsView {
    pub task_name: Seq<char>,
    pub variant: Seq<char>,
    pub suite: Seq<char>,
    pub num_files: u64,
    pub num_tasks: u64,
    pub resmoke_args: Seq<char>,
    pub npm_command: Seq<char>,
    pub jstestfuzz_vars: Option<Seq<char>>,
    pub continue_on_failure: bool,
    pub resmoke_jobs_max: u64,
    pub should_shuffle: bool,
    pub timeout_secs: u64,
    pub require_multiversion_setup: Option<bool>,
    pub config_location: Seq<char>,
}

/// The variables of a `run jstestfuzz` call.
pub open spec fn spec_jstestfuzz_vars(
    npm_command: Seq<char>,
    num_files: u64,
    extra: Option<Seq<char>>,
) -> Seq<(Seq<char>, ParamVal)> {
    seq![
        ("npm_command"@, ParamVal::Str(npm_command)),
        (
            "jstestfuzz_vars"@,
            ParamVal::Str(
                "--numGeneratedFiles "@ + dec_of(num_files as nat) + seq![' '] + match extra {
                    Some(e) => e,
                    None => Seq::<char>::empty(),
                },
            ),
        ),
    ]
}

/// The variables of a `run generated tests` call of a fuzzer sub-task.
pub open spec fn spec_run_tests_vars(
    p: FuzzerParamsView,
    suite_name: Option<Seq<char>>,
    bin_version: Option<Seq<char>>,
) -> Seq<(Seq<char>, ParamVal)> {
    let base = seq![
        ("continue_on_failure"@, ParamVal::Bool(p.continue_on_failure)),
        ("resmoke_args"@, ParamVal::Str(p.resmoke_args)),
        ("resmoke_jobs_max"@, ParamVal::UInt(p.resmoke_jobs_max)),
        ("should_shuffle"@, ParamVal::Bool(p.should_shuffle)),
        (
            "require_multiversion_setup"@,
            ParamVal::Bool(p.require_multiversion_setup == Some(true)),
        ),
        ("timeout_secs"@, ParamVal::UInt(p.timeout_secs)),
        ("task"@, ParamVal::Str(p.task_name)),
        ("gen_task_config_location"@, ParamVal::Str(p.config_location)),
        (
            "suite"@,
            ParamVal::Str(
                match suite_name {
                    Some(s) => s,
                    None => p.suite,
                },
            ),
        ),
    ];
    match bin_version {
        Some(b) => base.push(("multiversion_exclude_tags_version"@, ParamVal::Str(b))),
        None => base,
    }
}

/// A function call without variables, as a view.
pub open spec fn spec_fn_call(name: Seq<char>) -> FunctionCallView {
    FunctionCallView { func: name, vars: None }
}

/// The whole definition of one fuzzer sub-task.
pub open spec fn spec_fuzzer_sub_task(
    base_task_name: Seq<char>,
    index: nat,
    p: FuzzerParamsView,
    suite_name: Option<Seq<char>>,
    bin_version: Option<Seq<char>>,
) -> EvgTaskView {
    let mv = p.require_multiversion_setup == Some(true);
    let run_fuzzer = FunctionCallView {
        func: "run jstestfuzz"@,
        vars: Some(spec_jstestfuzz_vars(p.npm_command, p.num_files, p.jstestfuzz_vars)),
    };
    let run_tests = FunctionCallView {
        func: "run generated tests"@,
        vars: Some(spec_run_tests_vars(p, suite_name, bin_version)),
    };
    let commands = if mv {
        seq![
            spec_fn_call("git get project no modules"@),
            spec_fn_call("add git tag"@),
            spec_fn_call("do setup"@),
            spec_fn_call("configure evergreen api credentials"@),
            spec_fn_call("do multiversion setup"@),
            spec_fn_call("setup jstestfuzz"@),
            run_fuzzer,
            run_tests,
        ]
    } else {
        seq![
            spec_fn_call("do setup"@),
            spec_fn_call("configure evergreen api credentials"@),
            spec_fn_call("setup jstestfuzz"@),
            run_fuzzer,
            run_tests,
        ]
    };
    EvgTaskView {
        name: spec_name_with_index(base_task_name, index, p.num_tasks as nat, Some(p.variant)),
        commands,
        depends_on: Some(
            seq![TaskDependencyView { name: "archive_dist_test_debug"@, variant: None }],
        ),
        tags: None,
    }
}

/// One fuzzer sub-task.
fn build_fuzzer_sub_task(
    task_name: &str,
    task_index: u64,
    params: &FuzzerGenTaskParams,
    suite_name: Option<&str>,
    bin_version: Option<&str>,
) -> (r: EvgTask)
    ensures
        r.deep_view() == spec_fuzzer_sub_task(
            task_name@,
            task_index as nat,
            params.deep_params(),
            crate::util::opt_str_view(suite_name),
            crate::util::opt_str_view(bin_version),
        ),
{
    let sub_task_name = name_generated_task(
        task_name,
        Some(task_index),
        Some(params.num_tasks),
        Some(params.variant.as_str()),
    );
    let multiversion = match params.require_multiversion_setup {
        Some(b) => b,
        None => false,
    };
    let mut commands: Vec<EvgCommand> = Vec::new();
    if multiversion {
        commands.push(fn_call("git get project no modules"));
        commands.push(fn_call("add git tag"));
    }
    commands.push(fn_call("do setup"));
    commands.push(fn_call("configure evergreen api credentials"));
    if multiversion {
        commands.push(fn_call("do multiversion setup"));
    }
    commands.push(fn_call("setup jstestfuzz"));
    commands.push(fn_call_with_params("run jstestfuzz", params.build_jstestfuzz_vars()));
    commands.push(
        fn_call_with_params("run generated tests", params.build_run_tests_vars(suite_name, bin_version)),
    );
    let mut deps: Vec<TaskDependency> = Vec::new();
    deps.push(TaskDependency { name: "archive_dist_test_debug".to_owned(), variant: None });
    let r = EvgTask { name: sub_task_name, commands, depends_on: Some(deps), tags: None };
    proof {
        assert(r.deep_view().commands =~= spec_fuzzer_sub_task(
            task_name@,
            task_index as nat,
            params.deep_params(),
            crate::util::opt_str_view(suite_name),
            crate::util::opt_str_view(bin_version),
        ).commands);
        assert(r.deep_view().depends_on->Some_0 =~= spec_fuzzer_sub_task(
            task_name@,
            task_index as nat,
            params.deep_params(),
            crate::util::opt_str_view(suite_name),
            crate::util::opt_str_view(bin_version),
        ).depends_on->Some_0);
    }
    r
}

/// Two name parts joined with an underscore, empty parts skipped.
pub open spec fn spec_join2(x: Seq<char>, y: Seq<char>) -> Seq<char> {
    if x.len() == 0 {
        y
    } else if y.len() == 0 {
        x
    } else {
        x + seq!['_'] + y
    }
}

/// The base name of a multiversion sub-task: the parent name, the old
/// version and the binary mix, joined with underscores.
pub open spec fn spec_build_name(base: Seq<char>, version: Seq<char>, mix: Seq<char>) -> Seq<
    char,
> {
    spec_join2(spec_join2(base, version), mix)
}

fn join_non_empty(x: &str, y: &str) -> (r: String)
    ensures
        r@ == spec_join2(x@, y@),
{
    proof {
        reveal_strlit("_");
        assert("_"@ =~= seq!['_']);
    }
    if x.unicode_len() == 0 {
        y.to_owned()
    } else if y.unicode_len() == 0 {
        x.to_owned()
    } else {
        let mut out = x.to_owned();
        out.append("_");
        out.append(y);
        out
    }
}

/// The sub-tasks of one `(version, mix)` cell of the cross product.
pub open spec fn spec_block_tasks(
    p: FuzzerParamsView,
    version: Seq<char>,
    mix: Seq<char>,
) -> Seq<EvgTaskView> {
    Seq::new(
        p.num_tasks as nat,
        |i: int|
            spec_fuzzer_sub_task(
                spec_build_name(p.task_name, version, mix),
                i as nat,
                p,
                Some(spec_build_name(p.suite, version, mix)),
                Some(mix),
            ),
    )
}

/// The sub-tasks of one old version across all binary mixes.
pub open spec fn spec_version_tasks(
    p: FuzzerParamsView,
    version: Seq<char>,
    combos: Seq<Seq<char>>,
) -> Seq<EvgTaskView>
    decreases combos.len(),
{
    if combos.len() == 0 {
        Seq::<EvgTaskView>::empty()
    } else {
        spec_version_tasks(p, version, combos.drop_last()) + spec_block_tasks(
            p,
            version,
            combos.last(),
        )
    }
}

/// The full multiversion cross product of sub-tasks.
pub open spec fn spec_mv_tasks(
    p: FuzzerParamsView,
    versions: Seq<Seq<char>>,
    combos: Seq<Seq<char>>,
) -> Seq<EvgTaskView>
    decreases versions.len(),
{
    if versions.len() == 0 {
        Seq::<EvgTaskView>::empty()
    } else {
        spec_mv_tasks(p, versions.drop_last(), combos) + spec_version_tasks(
            p,
            versions.last(),
            combos,
        )
    }
}

/// The plain expansion without multiversion.
pub open spec fn spec_plain_tasks(p: FuzzerParamsView) -> Seq<EvgTaskView> {
    Seq::new(
        p.num_tasks as nat,
        |i: int| spec_fuzzer_sub_task(p.task_name, i as nat, p, None, None),
    )
}

proof fn lemma_version_tasks_len(p: FuzzerParamsView, version: Seq<char>, combos: Seq<Seq<char>>)
    ensures
        spec_version_tasks(p, version, combos).len() == combos.len() * p.num_tasks,
    decreases combos.len(),
{
    if combos.len() == 0 {
        assert(combos.len() * p.num_tasks == 0) by (nonlinear_arith)
            requires
                combos.len() == 0,
        ;
    } else {
        lemma_version_tasks_len(p, version, combos.drop_last());
        assert((combos.len() - 1) * p.num_tasks + p.num_tasks == combos.len() * p.num_tasks)
            by (nonlinear_arith);
    }
}

/// Cross-product cardinality: the multiversion expansion yields
/// `num_tasks` sub-tasks for every pair of an old version and a
/// binary-mix combination.
pub proof fn lemma_mv_tasks_len(
    p: FuzzerParamsView,
    versions: Seq<Seq<char>>,
    combos: Seq<Seq<char>>,
)
    ensures
        spec_mv_tasks(p, versions, combos).len() == versions.len() * combos.len() * p.num_tasks,
    decreases versions.len(),
{
    if versions.len() == 0 {
        assert(versions.len() * combos.len() * p.num_tasks == 0) by (nonlinear_arith)
            requires
                versions.len() == 0,
        ;
    } else {
        lemma_mv_tasks_len(p, versions.drop_last(), combos);
        lemma_version_tasks_len(p, versions.last(), combos);
        assert((versions.len() - 1) * combos.len() * p.num_tasks + combos.len() * p.num_tasks
            == versions.len() * combos.len() * p.num_tasks) by (nonlinear_arith);
    }
}

/// Expansion of fuzzer tasks.
pub trait GenFuzzerService {
    fn generate_fuzzer_task(&self, params: &FuzzerGenTaskParams) -> Result<FuzzerTask, GenError>;
}

/// The production fuzzer generator, configured with the old versions
/// to cross against.
#[derive(Debug, Clone)]
pub struct GenFuzzerServiceImpl {
    last_versions: Vec<String>,
}

impl GenFuzzerServiceImpl {
    /// The old versions this generator crosses against.
    pub closed spec fn spec_last_versions(&self) -> Seq<Seq<char>> {
        self.last_versions.deep_view()
    }

    pub fn new(last_versions: &[String]) -> (r: Self)
        ensures
            r.spec_last_versions().len() == last_versions@.len(),
            forall|i: int|
                0 <= i < last_versions@.len() ==> #[trigger] r.spec_last_versions()[i]
                    == last_versions@[i]@,
    {
        let n = last_versions.len();
        let mut held: Vec<String> = Vec::new();
        let mut i: usize = 0;
        while i < n
            invariant
                n == last_versions@.len(),
                i <= n,
                held@.len() == i,
                forall|j: int| 0 <= j < i ==> #[trigger] held@[j]@ == last_versions@[j]@,
            decreases n - i,
        {
            held.push(last_versions[i].clone());
            i = i + 1;
        }
        let r = GenFuzzerServiceImpl { last_versions: held };
        proof {
            assert(forall|j: int|
                0 <= j < last_versions@.len() ==> #[trigger] r.last_versions.deep_view()[j]
                    == r.last_versions@[j]@);
        }
        r
    }

    fn build_name(base_name: &str, old_version: &str, mixed_bin_version: &str) -> (r: String)
        ensures
            r@ == spec_build_name(base_name@, old_version@, mixed_bin_version@),
    {
        let first = join_non_empty(base_name, old_version);
        join_non_empty(first.as_str(), mixed_bin_version)
    }
}

impl GenFuzzerService for GenFuzzerServiceImpl {
    /// Expand a fuzzer generator task. Without multiversion setup the
    /// result holds `num_tasks` sub-tasks; with it, one block of
    /// `num_tasks` sub-tasks per old version and binary-mix
    /// combination of the suite's fixture.
    #[verifier::loop_isolation(false)]
    #[verifier::rlimit(60)]
    fn generate_fuzzer_task(&self, params: &FuzzerGenTaskParams) -> (r: Result<
        FuzzerTask,
        GenError,
    >)
        ensures
            match r {
                Ok(ft) => {
                    &&& ft.task_name@ == params.task_name@
                    &&& if params.is_multiversion() {
                        spec_fixture_type(params.suite_config@) matches Some(t)
                            && ft.sub_tasks.deep_view() == spec_mv_tasks(
                            params.deep_params(),
                            self.spec_last_versions(),
                            spec_version_combinations(t),
                        )
                    } else {
                        ft.sub_tasks.deep_view() == spec_plain_tasks(params.deep_params())
                    }
                },
                Err(e) => params.is_multiversion() && spec_fixture_type(params.suite_config@)
                    is None && e.is_invalid_suite_config(),
            },
    {
        let ghost p = params.deep_params();
        let multiversion = match params.require_multiversion_setup {
            Some(b) => b,
            None => false,
        };
        let mut sub_tasks: Vec<EvgTask> = Vec::new();
        if multiversion {
            let combos = params.get_version_combination()?;
            let ghost cv = combos.deep_view();
            let ghost lv = self.last_versions.deep_view();
            let nv = self.last_versions.len();
            let nc = combos.len();
            proof {
                assert(sub_tasks.deep_view() =~= spec_mv_tasks(p, lv.take(0), cv));
            }
            let mut v: usize = 0;
            while v < nv
                invariant
                    v <= nv,
                    sub_tasks.deep_view() == spec_mv_tasks(p, lv.take(v as int), cv),
                decreases nv - v,
            {
                let version = self.last_versions[v].as_str();
                proof {
                    assert(lv[v as int] == self.last_versions@[v as int]@);
                    assert(spec_version_tasks(p, lv[v as int], cv.take(0))
                        =~= Seq::<EvgTaskView>::empty());
                }
                let mut c: usize = 0;
                while c < nc
                    invariant
                        c <= nc,
                        sub_tasks.deep_view() == spec_mv_tasks(p, lv.take(v as int), cv)
                            + spec_version_tasks(p, lv[v as int], cv.take(c as int)),
                    decreases nc - c,
                {
                    let mix = combos[c].as_str();
                    let base_task_name = Self::build_name(
                        params.task_name.as_str(),
                        version,
                        mix,
                    );
                    let base_suite_name = Self::build_name(params.suite.as_str(), version, mix);
                    proof {
                        assert(cv[c as int] == combos@[c as int]@);
                    }
                    let mut i: u64 = 0;
                    let ghost before_block = sub_tasks.deep_view();
                    while i < params.num_tasks
                        invariant
                            i <= params.num_tasks,
                            sub_tasks.deep_view() == before_block + spec_block_tasks(
                                p,
                                lv[v as int],
                                cv[c as int],
                            ).take(i as int),
                        decreases params.num_tasks - i,
                    {
                        let ghost prev = sub_tasks.deep_view();
                        let t = build_fuzzer_sub_task(
                            base_task_name.as_str(),
                            i,
                            params,
                            Some(base_suite_name.as_str()),
                            Some(mix),
                        );
                        sub_tasks.push(t);
                        proof {
                            assert(sub_tasks.deep_view() =~= prev.push(
                                sub_tasks@.last().deep_view(),
                            ));
                            assert(spec_block_tasks(p, lv[v as int], cv[c as int]).take(
                                i + 1,
                            ) =~= spec_block_tasks(p, lv[v as int], cv[c as int]).take(
                                i as int,
                            ).push(spec_block_tasks(p, lv[v as int], cv[c as int])[i as int]));
                            assert(before_block + spec_block_tasks(
                                p,
                                lv[v as int],
                                cv[c as int],
                            ).take(i + 1) =~= (before_block + spec_block_tasks(
                                p,
                                lv[v as int],
                                cv[c as int],
                            ).take(i as int)).push(
                                spec_block_tasks(p, lv[v as int], cv[c as int])[i as int],
                            ));
                        }
                        i = i + 1;
                    }
                    proof {
                        assert(spec_block_tasks(p, lv[v as int], cv[c as int]).take(
                            params.num_tasks as int,
                        ) =~= spec_block_tasks(p, lv[v as int], cv[c as int]));
                        assert(cv.take(c + 1).drop_last() =~= cv.take(c as int));
                        assert(spec_version_tasks(p, lv[v as int], cv.take(c + 1))
                            == spec_version_tasks(p, lv[v as int], cv.take(c as int))
                            + spec_block_tasks(p, lv[v as int], cv[c as int]));
                        assert(sub_tasks.deep_view() =~= spec_mv_tasks(p, lv.take(v as int), cv)
                            + spec_version_tasks(p, lv[v as int], cv.take(c + 1)));
                    }
                    c = c + 1;
                }
                proof {
                    assert(cv.take(nc as int) =~= cv);
                    assert(lv.take(v + 1).drop_last() =~= lv.take(v as int));
                    assert(lv.take(v + 1).last() == lv[v as int]);
                    assert(spec_mv_tasks(p, lv.take(v + 1), cv) == spec_mv_tasks(
                        p,
                        lv.take(v as int),
                        cv,
                    ) + spec_version_tasks(p, lv[v as int], cv));
                }
                v = v + 1;
            }
            proof {
                assert(lv.take(nv as int) =~= lv);
            }
        } else {
            proof {
                assert(sub_tasks.deep_view() =~= spec_plain_tasks(p).take(0));
            }
            let mut i: u64 = 0;
            while i < params.num_tasks
                invariant
                    i <= params.num_tasks,
                    sub_tasks.deep_view() == spec_plain_tasks(p).take(i as int),
                decreases params.num_tasks - i,
            {
                let ghost prev = sub_tasks.deep_view();
                let t = build_fuzzer_sub_task(params.task_name.as_str(), i, params, None, None);
                sub_tasks.push(t);
                proof {
                    assert(sub_tasks.deep_view() =~= prev.push(sub_tasks@.last().deep_view()));
                    assert(spec_plain_tasks(p).take(i + 1) =~= spec_plain_tasks(p).take(
                        i as int,
                    ).push(spec_plain_tasks(p)[i as int]));
                }
                i = i + 1;
            }
            proof {
                assert(spec_plain_tasks(p).take(params.num_tasks as int) =~= spec_plain_tasks(p));
            }
        }
        Ok(FuzzerTask { task_name: params.task_name.clone(), sub_tasks })
    }
}

} // verus!
