//! Expansions handed to a generation run, resolution of `${id|default}`
//! references, and the parameter records built from a task definition.
use vstd::prelude::*;

use crate::errors::GenError;
use crate::evg_model::{BuildVariant, BuildVariantView, EvgTask, EvgTaskView};
use crate::resmoke::ResmokeSuiteConfig;
use crate::spec_gen_task_var;
use crate::strings::{
    all_dec_digits, dec_val, find_char, parse_bool, parse_u64, str_eq,
};
use crate::task_history::prefix_to_char;
use crate::task_types::fuzzer_tasks::FuzzerGenTaskParams;
use crate::taskname::{remove_gen_suffix_ref, spec_remove_gen_suffix};

verus! {

/// Data extracted from the expansions of the running task.
#[derive(Debug, Clone)]
pub struct EvgExpansions {
    /// ID of the build being run under.
    pub build_id: String,
    /// Build variant to generate.
    pub build_variant: String,
    /// Whether a patch build is being generated, as the string `true`.
    pub is_patch: Option<String>,
    /// Project being generated on.
    pub project: String,
    /// Max number of tests to add to each suite.
    pub max_tests_per_suite: Option<usize>,
    /// Maximum number of sub-suites in patch builds.
    pub max_sub_suite: Option<usize>,
    /// Maximum number of sub-suites on mainline builds.
    pub mainline_max_sub_suites: Option<usize>,
    /// Repeat parameters to pass to resmoke.
    pub resmoke_repeat_suites: Option<usize>,
    /// Git revision being run against.
    pub revision: String,
    /// Name of the task doing the generation.
    pub task_name: String,
    /// Target runtime for generated tasks.
    pub target_resmoke_time: Option<String>,
    /// ID of the task doing the generation.
    pub task_id: String,
    /// ID of the version running, in version-scoped mode.
    pub version_id: Option<String>,
}

pub open spec fn spec_max_sub_suites(
    is_patch: Option<Seq<char>>,
    max_sub_suite: Option<usize>,
    mainline_max_sub_suites: Option<usize>,
) -> usize {
    if is_patch == Some("true"@) {
        match max_sub_suite {
            Some(m) => m,
            None => 5,
        }
    } else {
        match mainline_max_sub_suites {
            Some(m) => m,
            None => 1,
        }
    }
}

impl EvgExpansions {
    /// The number of sub-suites to split into: the patch cap (default
    /// 5) on patch builds, the mainline cap (default 1) otherwise.
    pub fn get_max_sub_suites(&self) -> (r: usize)
        ensures
            r == spec_max_sub_suites(
                self.is_patch.deep_view(),
                self.max_sub_suite,
                self.mainline_max_sub_suites,
            ),
    {
        if let Some(is_patch) = &self.is_patch {
            if str_eq(is_patch.as_str(), "true") {
                return match self.max_sub_suite {
                    Some(m) => m,
                    None => 5,
                };
            }
        }
        match self.mainline_max_sub_suites {
            Some(m) => m,
            None => 1,
        }
    }

    /// Where the per-variant generated configuration archive lives:
    /// `{build_variant}/{revision}/generate_tasks/{task}_gen-{build_id}.tgz`.
    pub fn config_location(&self) -> (r: String)
        ensures
            r@ == self.build_variant@ + "/"@ + self.revision@ + "/generate_tasks/"@
                + spec_remove_gen_suffix(self.task_name@) + "_gen-"@ + self.build_id@ + ".tgz"@,
    {
        let generated_task_name = remove_gen_suffix_ref(self.task_name.as_str());
        let mut out = self.build_variant.clone();
        out.append("/");
        out.append(self.revision.as_str());
        out.append("/generate_tasks/");
        out.append(generated_task_name);
        out.append("_gen-");
        out.append(self.build_id.as_str());
        out.append(".tgz");
        out
    }

    /// Where the version-scoped generated configuration archive lives:
    /// `{revision}/generate_tasks/generated-config-{version_id}.tgz`.
    pub fn version_config_location(&self) -> (r: Option<String>)
        ensures
            match r {
                Some(s) => self.version_id matches Some(v) && s@ == self.revision@
                    + "/generate_tasks/generated-config-"@ + v@ + ".tgz"@,
                None => self.version_id is None,
            },
    {
        match &self.version_id {
            Some(v) => {
                let mut out = self.revision.clone();
                out.append("/generate_tasks/generated-config-");
                out.append(v.as_str());
                out.append(".tgz");
                Some(out)
            },
            None => None,
        }
    }
}

/// A character allowed in an expansion identifier.
pub open spec fn is_id_char(c: char) -> bool {
    ('a' <= c && c <= 'z') || ('A' <= c && c <= 'Z') || ('0' <= c && c <= '9') || c == '_'
}

/// Whether a run variable is an expansion reference `${id}` or
/// `${id|default}`.
pub open spec fn is_expansion_ref(s: Seq<char>) -> bool {
    let inner = s.subrange(2, s.len() - 1);
    let id = prefix_to_char(inner, '|');
    &&& s.len() >= 4
    &&& s[0] == '$'
    &&& s[1] == '{'
    &&& s.last() == '}'
    &&& id.len() > 0
    &&& forall|i: int| 0 <= i < id.len() ==> is_id_char(#[trigger] id[i])
}

/// The identifier of an expansion reference.
pub open spec fn ref_id(s: Seq<char>) -> Seq<char> {
    prefix_to_char(s.subrange(2, s.len() - 1), '|')
}

/// The default of an expansion reference, when it has one.
pub open spec fn ref_default(s: Seq<char>) -> Option<Seq<char>> {
    let inner = s.subrange(2, s.len() - 1);
    if inner.contains('|') {
        let id = prefix_to_char(inner, '|');
        Some(inner.subrange(id.len() + 1 as int, inner.len() as int))
    } else {
        None
    }
}

/// First-match lookup in an expansions map.
pub open spec fn expansions_get(m: Seq<(Seq<char>, Seq<char>)>, key: Seq<char>) -> Option<
    Seq<char>,
>
    decreases m.len(),
{
    if m.len() == 0 {
        None
    } else if m[0].0 == key {
        Some(m[0].1)
    } else {
        expansions_get(m.drop_first(), key)
    }
}

/// The expansions of a build variant, or an empty map.
pub open spec fn bv_expansions(bv: BuildVariantView) -> Seq<(Seq<char>, Seq<char>)> {
    match bv.expansions {
        Some(e) => e,
        None => Seq::<(Seq<char>, Seq<char>)>::empty(),
    }
}

/// What a run variable resolves to: a reference is looked up in the
/// variant's expansions, falling back to its default; a non-reference
/// passes through verbatim; a reference without a value is
/// unresolved.
pub open spec fn spec_translate_run_var(s: Seq<char>, bv: BuildVariantView) -> Option<Seq<char>> {
    if !is_expansion_ref(s) {
        Some(s)
    } else {
        match expansions_get(bv_expansions(bv), ref_id(s)) {
            Some(v) => Some(v),
            None => ref_default(s),
        }
    }
}

proof fn lemma_expansions_get_at(m: Seq<(Seq<char>, Seq<char>)>, key: Seq<char>, i: int)
    requires
        0 <= i < m.len(),
        m[i].0 == key,
        forall|j: int| 0 <= j < i ==> m[j].0 != key,
    ensures
        expansions_get(m, key) == Some(m[i].1),
    decreases i,
{
    if i > 0 {
        lemma_expansions_get_at(m.drop_first(), key, i - 1);
    }
}

proof fn lemma_expansions_get_missing(m: Seq<(Seq<char>, Seq<char>)>, key: Seq<char>)
    requires
        forall|j: int| 0 <= j < m.len() ==> (#[trigger] m[j]).0 != key,
    ensures
        expansions_get(m, key) is None,
    decreases m.len(),
{
    if m.len() > 0 {
        lemma_expansions_get_missing(m.drop_first(), key);
    }
}

/// Find the value of an expansion by name.
pub fn expansions_lookup<'a>(m: &'a Vec<(String, String)>, key: &str) -> (r: Option<&'a String>)
    ensures
        match r {
            Some(v) => expansions_get(m.deep_view(), key@) == Some(v@),
            None => expansions_get(m.deep_view(), key@) is None,
        },
{
    let n = m.len();
    let mut i: usize = 0;
    while i < n
        invariant
            n == m.len(),
            i <= n,
            forall|j: int| 0 <= j < i ==> m@[j].0@ != key@,
        decreases n - i,
    {
        if str_eq(m[i].0.as_str(), key) {
            proof {
                lemma_expansions_get_at(m.deep_view(), key@, i as int);
                assert(m.deep_view()[i as int] == (m@[i as int].0@, m@[i as int].1@));
            }
            return Some(&m[i].1);
        }
        i = i + 1;
    }
    proof {
        assert(forall|j: int|
            0 <= j < m@.len() ==> (#[trigger] m.deep_view()[j]).0 == m@[j].0@);
        lemma_expansions_get_missing(m.deep_view(), key@);
    }
    None
}

/// Resolve a run variable against a build variant's expansions.
#[verifier::loop_isolation(false)]
pub fn translate_run_var(run_var: &str, build_variant: &BuildVariant) -> (r: Option<String>)
    ensures
        r.deep_view() == spec_translate_run_var(run_var@, build_variant.deep_view()),
{
    let n = run_var.unicode_len();
    let is_ref: bool = if n < 4 {
        false
    } else if run_var.get_char(0) != '$' || run_var.get_char(1) != '{' || run_var.get_char(n - 1)
        != '}' {
        false
    } else {
        let inner = run_var.substring_char(2, n - 1);
        let id = id_part(inner);
        let m = id.as_str().unicode_len();
        if m == 0 {
            false
        } else {
            all_id_chars(id.as_str())
        }
    };
    if !is_ref {
        return Some(run_var.to_owned());
    }
    let inner = run_var.substring_char(2, n - 1);
    let id = id_part(inner);
    proof {
        assert(id@ == ref_id(run_var@));
    }
    let looked: Option<String> = match &build_variant.expansions {
        Some(exps) => match expansions_lookup(exps, id.as_str()) {
            Some(v) => Some(v.clone()),
            None => None,
        },
        None => None,
    };
    proof {
        if build_variant.expansions is None {
            assert(bv_expansions(build_variant.deep_view())
                =~= Seq::<(Seq<char>, Seq<char>)>::empty());
        }
    }
    match looked {
        Some(v) => Some(v),
        None => {
            match find_char(inner, '|') {
                Some(p) => {
                    proof {
                        crate::task_history::lemma_prefix_to_char_at(inner@, '|', p as int);
                    }
                    let m = inner.unicode_len();
                    Some(inner.substring_char(p + 1, m).to_owned())
                },
                None => {
                    proof {
                        crate::task_history::lemma_prefix_to_char_missing(inner@, '|');
                    }
                    None
                },
            }
        },
    }
}

/// The identifier part of the inside of a reference: the characters
/// before the first `|`.
fn id_part(inner: &str) -> (r: String)
    ensures
        r@ == prefix_to_char(inner@, '|'),
{
    match find_char(inner, '|') {
        Some(p) => {
            proof {
                crate::task_history::lemma_prefix_to_char_at(inner@, '|', p as int);
            }
            inner.substring_char(0, p).to_owned()
        },
        None => {
            proof {
                crate::task_history::lemma_prefix_to_char_missing(inner@, '|');
            }
            inner.to_owned()
        },
    }
}

/// Whether a string parses as an unsigned 64-bit decimal.
pub open spec fn parses_u64(s: Seq<char>) -> bool {
    s.len() > 0 && all_dec_digits(s) && dec_val(s) <= u64::MAX
}

/// Whether a string parses as a boolean.
pub open spec fn parses_bool(s: Seq<char>) -> bool {
    s == "true"@ || s == "false"@
}

/// Whether a generator task definition carries everything a fuzzer
/// expansion needs: the required variables present and well-formed,
/// and `num_files` resolvable against the variant's expansions.
pub open spec fn spec_fuzzer_params_ok(t: EvgTaskView, bvv: BuildVariantView) -> bool {
    &&& spec_gen_task_var(t, "num_files"@) matches Some(nf) && spec_translate_run_var(nf, bvv)
        matches Some(nfv) && parses_u64(nfv)
    &&& spec_gen_task_var(t, "num_tasks"@) matches Some(nt) && parses_u64(nt)
    &&& spec_gen_task_var(t, "resmoke_args"@) is Some
    &&& spec_gen_task_var(t, "continue_on_failure"@) matches Some(c) && parses_bool(c)
    &&& spec_gen_task_var(t, "resmoke_jobs_max"@) matches Some(j) && parses_u64(j)
    &&& spec_gen_task_var(t, "should_shuffle"@) matches Some(sh) && parses_bool(sh)
    &&& spec_gen_task_var(t, "timeout_secs"@) matches Some(ts) && parses_u64(ts)
    &&& match spec_gen_task_var(t, "use_large_distro"@) {
        Some(u) => parses_bool(u),
        None => true,
    }
}

/// Whether a multiversion tag stands on the task.
pub open spec fn spec_has_multiversion_tag(t: EvgTaskView) -> bool {
    match t.tags {
        Some(tags) => tags.contains("multiversion"@),
        None => false,
    }
}

/// Whether a vector of strings holds the given string.
fn contains_str(v: &Vec<String>, s: &str) -> (r: bool)
    ensures
        r == v.deep_view().contains(s@),
{
    let n = v.len();
    let mut i: usize = 0;
    while i < n
        invariant
            n == v.len(),
            i <= n,
            forall|j: int| 0 <= j < i ==> v@[j]@ != s@,
        decreases n - i,
    {
        if str_eq(v[i].as_str(), s) {
            proof {
                assert(v.deep_view()[i as int] == v@[i as int]@);
            }
            return true;
        }
        i = i + 1;
    }
    proof {
        assert(forall|j: int| 0 <= j < v@.len() ==> #[trigger] v.deep_view()[j] == v@[j]@);
        if v.deep_view().contains(s@) {
            let j = choose|j: int| 0 <= j < v.deep_view().len() && v.deep_view()[j] == s@;
            assert(v@[j]@ != s@);
        }
    }
    false
}

/// The generation parameters of a splittable generator task.
pub fn task_def_to_gen_params(
    task_def: &EvgTask,
    build_variant: &BuildVariant,
    config_location: &str,
) -> (r: crate::split_tasks::ResmokeGenParams)
    ensures
        ({
            let t = task_def.deep_view();
            let bvv = build_variant.deep_view();
            &&& r.use_large_distro == (spec_gen_task_var(t, "use_large_distro"@) == Some("true"@))
            &&& r.large_distro_name.deep_view() == expansions_get(
                bv_expansions(bvv),
                "large_distro_name"@,
            )
            &&& r.require_multiversion_setup == false
            &&& r.repeat_suites == 1
            &&& r.resmoke_args@ == match spec_gen_task_var(t, "resmoke_args"@) {
                Some(s) => s,
                None => Seq::<char>::empty(),
            }
            &&& r.config_location.deep_view() == Some(config_location@)
            &&& r.resmoke_jobs_max is None
        }),
{
    let use_large_distro = match crate::get_gen_task_var(task_def, "use_large_distro") {
        Some(v) => str_eq(v, "true"),
        None => false,
    };
    let large_distro_name: Option<String> = match &build_variant.expansions {
        Some(exps) => match expansions_lookup(exps, "large_distro_name") {
            Some(v) => Some(v.clone()),
            None => None,
        },
        None => None,
    };
    proof {
        if build_variant.expansions is None {
            assert(bv_expansions(build_variant.deep_view())
                =~= Seq::<(Seq<char>, Seq<char>)>::empty());
        }
    }
    let resmoke_args: String = match crate::get_gen_task_var(task_def, "resmoke_args") {
        Some(v) => v.to_owned(),
        None => String::new(),
    };
    crate::split_tasks::ResmokeGenParams {
        use_large_distro,
        large_distro_name,
        require_multiversion_setup: false,
        repeat_suites: 1,
        resmoke_args,
        resmoke_jobs_max: None,
        config_location: Some(config_location.to_owned()),
    }
}

/// The expansion parameters of a fuzzer generator task, built from its
/// generator variables and the variant's expansions. Every required
/// variable must be present and well-formed; anything less fails the
/// run.
pub fn task_def_to_fuzzer_params(
    task_def: &EvgTask,
    build_variant: &BuildVariant,
    config_location: &str,
    suite_config: ResmokeSuiteConfig,
) -> (r: Result<FuzzerGenTaskParams, GenError>)
    ensures
        ({
            let t = task_def.deep_view();
            let bvv = build_variant.deep_view();
            match r {
                Ok(p) => {
                    &&& spec_fuzzer_params_ok(t, bvv)
                    &&& p.task_name@ == spec_remove_gen_suffix(t.name)
                    &&& p.variant@ == bvv.name
                    &&& p.suite@ == crate::spec_find_suite_name(t)
                    &&& p.num_files as nat == dec_val(
                        spec_translate_run_var(
                            spec_gen_task_var(t, "num_files"@)->Some_0,
                            bvv,
                        )->Some_0,
                    )
                    &&& p.num_tasks as nat == dec_val(spec_gen_task_var(t, "num_tasks"@)->Some_0)
                    &&& p.resmoke_args@ == spec_gen_task_var(t, "resmoke_args"@)->Some_0
                    &&& p.npm_command@ == match spec_gen_task_var(t, "npm_command"@) {
                        Some(s) => s,
                        None => "jstestfuzz"@,
                    }
                    &&& p.jstestfuzz_vars.deep_view() == spec_gen_task_var(t, "jstestfuzz_vars"@)
                    &&& p.continue_on_failure == (spec_gen_task_var(t, "continue_on_failure"@)
                        == Some("true"@))
                    &&& p.resmoke_jobs_max as nat == dec_val(
                        spec_gen_task_var(t, "resmoke_jobs_max"@)->Some_0,
                    )
                    &&& p.should_shuffle == (spec_gen_task_var(t, "should_shuffle"@) == Some(
                        "true"@,
                    ))
                    &&& p.timeout_secs as nat == dec_val(
                        spec_gen_task_var(t, "timeout_secs"@)->Some_0,
                    )
                    &&& p.require_multiversion_setup == Some(spec_has_multiversion_tag(t))
                    &&& p.use_large_distro == match spec_gen_task_var(t, "use_large_distro"@) {
                        Some(u) => Some(u == "true"@),
                        None => None,
                    }
                    &&& p.large_distro_name.deep_view() == expansions_get(
                        bv_expansions(bvv),
                        "large_distro_name"@,
                    )
                    &&& p.config_location@ == config_location@
                    &&& p.suite_config@ == suite_config@
                },
                Err(e) => !spec_fuzzer_params_ok(t, bvv) && e matches GenError::InvalidInput(_),
            }
        }),
{
    let large_distro_name: Option<String> = match &build_variant.expansions {
        Some(exps) => match expansions_lookup(exps, "large_distro_name") {
            Some(v) => Some(v.clone()),
            None => None,
        },
        None => None,
    };
    proof {
        if build_variant.expansions is None {
            assert(bv_expansions(build_variant.deep_view())
                =~= Seq::<(Seq<char>, Seq<char>)>::empty());
        }
    }
    let num_files_raw = match crate::get_gen_task_var(task_def, "num_files") {
        Some(v) => v,
        None => {
            return Err(GenError::InvalidInput("num_files is required".to_owned()));
        },
    };
    let num_files_str = match translate_run_var(num_files_raw, build_variant) {
        Some(v) => v,
        None => {
            return Err(GenError::InvalidInput("num_files could not be resolved".to_owned()));
        },
    };
    let num_files = match parse_u64(num_files_str.as_str()) {
        Some(v) => v,
        None => {
            return Err(GenError::InvalidInput("num_files is not a number".to_owned()));
        },
    };
    let num_tasks = match crate::get_gen_task_var(task_def, "num_tasks") {
        Some(v) => match parse_u64(v) {
            Some(n) => n,
            None => {
                return Err(GenError::InvalidInput("num_tasks is not a number".to_owned()));
            },
        },
        None => {
            return Err(GenError::InvalidInput("num_tasks is required".to_owned()));
        },
    };
    let resmoke_args = match crate::get_gen_task_var(task_def, "resmoke_args") {
        Some(v) => v.to_owned(),
        None => {
            return Err(GenError::InvalidInput("resmoke_args is required".to_owned()));
        },
    };
    let npm_command = match crate::get_gen_task_var(task_def, "npm_command") {
        Some(v) => v.to_owned(),
        None => "jstestfuzz".to_owned(),
    };
    let jstestfuzz_vars: Option<String> = match crate::get_gen_task_var(task_def, "jstestfuzz_vars")
        {
        Some(v) => Some(v.to_owned()),
        None => None,
    };
    let continue_on_failure = match crate::get_gen_task_var(task_def, "continue_on_failure") {
        Some(v) => match parse_bool(v) {
            Some(b) => b,
            None => {
                return Err(
                    GenError::InvalidInput("continue_on_failure is not a boolean".to_owned()),
                );
            },
        },
        None => {
            return Err(GenError::InvalidInput("continue_on_failure is required".to_owned()));
        },
    };
    let resmoke_jobs_max = match crate::get_gen_task_var(task_def, "resmoke_jobs_max") {
        Some(v) => match parse_u64(v) {
            Some(n) => n,
            None => {
                return Err(GenError::InvalidInput("resmoke_jobs_max is not a number".to_owned()));
            },
        },
        None => {
            return Err(GenError::InvalidInput("resmoke_jobs_max is required".to_owned()));
        },
    };
    let should_shuffle = match crate::get_gen_task_var(task_def, "should_shuffle") {
        Some(v) => match parse_bool(v) {
            Some(b) => b,
            None => {
                return Err(GenError::InvalidInput("should_shuffle is not a boolean".to_owned()));
            },
        },
        None => {
            return Err(GenError::InvalidInput("should_shuffle is required".to_owned()));
        },
    };
    let timeout_secs = match crate::get_gen_task_var(task_def, "timeout_secs") {
        Some(v) => match parse_u64(v) {
            Some(n) => n,
            None => {
                return Err(GenError::InvalidInput("timeout_secs is not a number".to_owned()));
            },
        },
        None => {
            return Err(GenError::InvalidInput("timeout_secs is required".to_owned()));
        },
    };
    let use_large_distro: Option<bool> = match crate::get_gen_task_var(task_def, "use_large_distro")
        {
        Some(v) => match parse_bool(v) {
            Some(b) => Some(b),
            None => {
                return Err(GenError::InvalidInput("use_large_distro is not a boolean".to_owned()));
            },
        },
        None => None,
    };
    let has_mv_tag = match &task_def.tags {
        Some(tags) => contains_str(tags, "multiversion"),
        None => false,
    };
    let task_name = remove_gen_suffix_ref(task_def.name.as_str()).to_owned();
    let suite = crate::find_suite_name(task_def).to_owned();
    Ok(
        FuzzerGenTaskParams {
            task_name,
            variant: build_variant.name.clone(),
            suite,
            num_files,
            num_tasks,
            resmoke_args,
            npm_command,
            jstestfuzz_vars,
            continue_on_failure,
            resmoke_jobs_max,
            should_shuffle,
            timeout_secs,
            require_multiversion_setup: Some(has_mv_tag),
            use_large_distro,
            large_distro_name,
            config_location: config_location.to_owned(),
            suite_config,
        },
    )
}

/// Whether every character may stand in an identifier.
fn all_id_chars(s: &str) -> (r: bool)
    ensures
        r == forall|i: int| 0 <= i < s@.len() ==> is_id_char(#[trigger] s@[i]),
{
    let n = s.unicode_len();
    let mut i: usize = 0;
    while i < n
        invariant
            n == s@.len(),
            i <= n,
            forall|j: int| 0 <= j < i ==> is_id_char(#[trigger] s@[j]),
        decreases n - i,
    {
        let c = s.get_char(i);
        let ok = ('a' <= c && c <= 'z') || ('A' <= c && c <= 'Z') || ('0' <= c && c <= '9') || c
            == '_';
        if !ok {
            return false;
        }
        i = i + 1;
    }
    true
}

} // verus!
