//! Generation of sub-task definitions for a split resmoke suite, and
//! where the generated files are placed.
use vstd::prelude::*;

use crate::evg_model::EvgTask;
use crate::split_tasks::{
    dependencies, resmoke_commands, run_test_vars, spec_sub_task, GeneratedSuite,
    ResmokeGenParamsView,
};
use crate::task_history::{path_base_name, suffix_from_last};

verus! {

/// Options steering where generated configuration is written.
#[derive(Debug, Clone)]
pub struct GenerateOptions {
    pub create_misc_suite: bool,
    pub is_patch: bool,
    pub generated_config_dir: String,
    pub use_default_timeouts: bool,
}

/// A directory joined with a file name.
pub open spec fn spec_path_join(dir: Seq<char>, file: Seq<char>) -> Seq<char> {
    if dir.len() == 0 {
        file
    } else if dir.last() == '/' {
        dir + file
    } else {
        dir + seq!['/'] + file
    }
}

impl GenerateOptions {
    /// Where the generated file for a suite goes: the suite's file
    /// name under the configured directory.
    pub fn suite_location(&self, suite_name: &str) -> (r: String)
        ensures
            r@ == spec_path_join(
                self.generated_config_dir@,
                suffix_from_last(suite_name@, '/'),
            ),
    {
        let base = path_base_name(suite_name);
        self.generated_file_location(base.as_str())
    }

    fn generated_file_location(&self, base_file: &str) -> (r: String)
        ensures
            r@ == spec_path_join(self.generated_config_dir@, base_file@),
    {
        proof {
            reveal_strlit("/");
            assert("/"@ =~= seq!['/']);
        }
        let n = self.generated_config_dir.as_str().unicode_len();
        let mut out = self.generated_config_dir.clone();
        if n == 0 {
            return base_file.to_owned();
        }
        if self.generated_config_dir.as_str().get_char(n - 1) != '/' {
            out.append("/");
        }
        out.append(base_file);
        out
    }
}

/// Parameters describing how a split resmoke suite should be
/// generated.
#[derive(Debug, Clone)]
pub struct ResmokeGenParams {
    pub use_large_distro: bool,
    pub large_distro_name: Option<String>,
    pub require_multiversion_setup: bool,
    pub repeat_suites: usize,
    pub resmoke_args: String,
    pub resmoke_jobs_max: Option<u64>,
    pub config_location: Option<String>,
}

impl DeepView for ResmokeGenParams {
    type V = ResmokeGenParamsView;

    open spec fn deep_view(&self) -> ResmokeGenParamsView {
        ResmokeGenParamsView {
            use_large_distro: self.use_large_distro,
            large_distro_name: self.large_distro_name.deep_view(),
            require_multiversion_setup: self.require_multiversion_setup,
            repeat_suites: self.repeat_suites,
            resmoke_args: self.resmoke_args@,
            resmoke_jobs_max: self.resmoke_jobs_max,
            config_location: self.config_location.deep_view(),
        }
    }
}

/// Builder of the sub-task definitions of a split suite.
#[derive(Debug, Clone)]
pub struct ResmokeGenService {}

impl ResmokeGenService {
    /// One task definition per sub-suite of the split.
    pub fn generate_tasks(&self, generated_suite: &GeneratedSuite, params: &ResmokeGenParams) -> (r:
        Vec<EvgTask>)
        ensures
            r.deep_view().len() == generated_suite.sub_suites.deep_view().len(),
            forall|k: int|
                0 <= k < r.deep_view().len() ==> #[trigger] r.deep_view()[k] == spec_sub_task(
                    generated_suite.sub_suites.deep_view()[k].name,
                    params.deep_view(),
                ),
    {
        let n = generated_suite.sub_suites.len();
        let mut out: Vec<EvgTask> = Vec::new();
        let mut i: usize = 0;
        while i < n
            invariant
                n == generated_suite.sub_suites.len(),
                i <= n,
                out.deep_view().len() == i,
                forall|k: int|
                    0 <= k < i ==> #[trigger] out.deep_view()[k] == spec_sub_task(
                        generated_suite.sub_suites.deep_view()[k].name,
                        params.deep_view(),
                    ),
            decreases n - i,
        {
            let ghost prev = out.deep_view();
            let t = self.create_sub_task(generated_suite.sub_suites[i].name.as_str(), params);
            out.push(t);
            proof {
                assert(out.deep_view() =~= prev.push(out@.last().deep_view()));
                assert(generated_suite.sub_suites.deep_view()[i as int]
                    == generated_suite.sub_suites@[i as int].deep_view());
            }
            i = i + 1;
        }
        out
    }

    fn create_sub_task(&self, sub_suite_file: &str, params: &ResmokeGenParams) -> (r: EvgTask)
        ensures
            r.deep_view() == spec_sub_task(sub_suite_file@, params.deep_view()),
    {
        let p = crate::split_tasks::ResmokeGenParams {
            use_large_distro: params.use_large_distro,
            large_distro_name: match &params.large_distro_name {
                Some(s) => Some(s.clone()),
                None => None,
            },
            require_multiversion_setup: params.require_multiversion_setup,
            repeat_suites: params.repeat_suites,
            resmoke_args: params.resmoke_args.clone(),
            resmoke_jobs_max: params.resmoke_jobs_max,
            config_location: match &params.config_location {
                Some(s) => Some(s.clone()),
                None => None,
            },
        };
        let vars = run_test_vars(sub_suite_file, &p);
        let commands = resmoke_commands(
            "run generated tests",
            vars,
            params.require_multiversion_setup,
        );
        EvgTask {
            name: sub_suite_file.to_owned(),
            commands,
            depends_on: Some(dependencies()),
            tags: None,
        }
    }
}

} // verus!
