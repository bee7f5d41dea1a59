//! Runtime-balanced splitting of a discovered test list into
//! sub-suites, and the sub-task definitions built from a split.
use vstd::prelude::*;

use crate::evg_model::{
    fn_call, fn_call_with_params, EvgCommand, EvgTask, FunctionCallView, ParamVal, ParamValue,
    TaskDependency, TaskDependencyView, TaskRef, DisplayTask,
};
use crate::resmoke::TestDiscovery;
use crate::strings::{dec_of, u64_to_dec};
use crate::task_history::{
    get_test_name, history_get, history_lookup, spec_test_name, TaskRuntimeHistory,
    TestRuntimeHistory, TestRuntimeHistoryView,
};

verus! {

/// Parameters describing how a split resmoke suite should be
/// generated.
#[derive(Debug, Clone)]
pub struct ResmokeGenParams {
    pub use_large_distro: bool,
    pub large_distro_name: Option<String>,
    pub require_multiversion_setup: bool,
    pub repeat_suites: usize,
    pub resmoke_args: String,
    pub resmoke_jobs_max: Option<u64>,
    pub config_location: Option<String>,
}

pub struct ResmokeGenParamsView {
    pub use_large_distro: bool,
    pub large_distro_name: Option<Seq<char>>,
    pub require_multiversion_setup: bool,
    pub repeat_suites: usize,
    pub resmoke_args: Seq<char>,
    pub resmoke_jobs_max: Option<u64>,
    pub config_location: Option<Seq<char>>,
}

impl DeepView for ResmokeGenParams {
    type V = ResmokeGenParamsView;

    open spec fn deep_view(&self) -> ResmokeGenParamsView {
        ResmokeGenParamsView {
            use_large_distro: self.use_large_distro,
            large_distro_name: self.large_distro_name.deep_view(),
            require_multiversion_setup: self.require_multiversion_setup,
            repeat_suites: self.repeat_suites,
            resmoke_args: self.resmoke_args@,
            resmoke_jobs_max: self.resmoke_jobs_max,
            config_location: self.config_location.deep_view(),
        }
    }
}

/// One sub-suite of a split task: its name and its tests, in
/// discovery order.
#[derive(Debug, Clone)]
pub struct SubSuite {
    pub name: String,
    pub test_list: Vec<String>,
}

pub struct SubSuiteView {
    pub name: Seq<char>,
    pub test_list: Seq<Seq<char>>,
}

impl DeepView for SubSuite {
    type V = SubSuiteView;

    open spec fn deep_view(&self) -> SubSuiteView {
        SubSuiteView { name: self.name@, test_list: self.test_list.deep_view() }
    }
}

/// The sub-suites a generator task was split into.
#[derive(Debug, Clone)]
pub struct GeneratedSuite {
    pub task_name: String,
    pub suite_name: String,
    pub sub_suites: Vec<SubSuite>,
}

pub struct GeneratedSuiteView {
    pub task_name: Seq<char>,
    pub suite_name: Seq<char>,
    pub sub_suites: Seq<SubSuiteView>,
}

impl DeepView for GeneratedSuite {
    type V = GeneratedSuiteView;

    open spec fn deep_view(&self) -> GeneratedSuiteView {
        GeneratedSuiteView {
            task_name: self.task_name@,
            suite_name: self.suite_name@,
            sub_suites: self.sub_suites.deep_view(),
        }
    }
}

#[derive(Debug, Clone)]
pub struct SplitConfig {
    pub n_suites: usize,
}

/// The name of the sub-suite with 0-based partition index `k`:
/// `{task}_{k}_{variant}`.
pub open spec fn spec_sub_suite_name(task: Seq<char>, k: nat, bv: Seq<char>) -> Seq<char> {
    task + seq!['_'] + dec_of(k) + seq!['_'] + bv
}

/// Naming uniqueness within one split: two sub-suites of the same
/// task and variant can only share a name when they share the
/// partition index.
pub proof fn lemma_sub_suite_names_distinct(task: Seq<char>, bv: Seq<char>, i: nat, j: nat)
    requires
        spec_sub_suite_name(task, i, bv) == spec_sub_suite_name(task, j, bv),
    ensures
        i == j,
{
    assert(((task + seq!['_']) + dec_of(i)) + (seq!['_'] + bv) =~= spec_sub_suite_name(
        task,
        i,
        bv,
    ));
    assert(((task + seq!['_']) + dec_of(j)) + (seq!['_'] + bv) =~= spec_sub_suite_name(
        task,
        j,
        bv,
    ));
    crate::util::lemma_concat_mid_cancel(
        task + seq!['_'],
        dec_of(i),
        dec_of(j),
        seq!['_'] + bv,
    );
    crate::strings::lemma_dec_of_injective(i, j);
}

/// Naming uniqueness across the tasks of one output build variant:
/// two sub-suite names built for the same variant agree only when
/// both the task and the index agree.
pub proof fn lemma_sub_suite_names_cross(
    t1: Seq<char>,
    i: nat,
    t2: Seq<char>,
    j: nat,
    bv: Seq<char>,
)
    requires
        spec_sub_suite_name(t1, i, bv) == spec_sub_suite_name(t2, j, bv),
    ensures
        t1 == t2,
        i == j,
{
    let s = spec_sub_suite_name(t1, i, bv);
    let d1 = dec_of(i);
    let d2 = dec_of(j);
    crate::strings::lemma_dec_val_of_dec_of(i);
    crate::strings::lemma_dec_val_of_dec_of(j);
    assert(s.len() == t1.len() + 1 + d1.len() + 1 + bv.len());
    assert(spec_sub_suite_name(t2, j, bv).len() == t2.len() + 1 + d2.len() + 1 + bv.len());
    assert(s[t1.len() as int] == '_');
    assert(s[t2.len() as int] == '_') by {
        assert(spec_sub_suite_name(t2, j, bv)[t2.len() as int] == '_');
    }
    assert forall|k: int| 0 <= k < d1.len() implies crate::strings::is_dec_digit_char(
        #[trigger] s[t1.len() + 1 + k],
    ) by {
        assert(s[t1.len() + 1 + k] == d1[k]);
    }
    assert forall|k: int| 0 <= k < d2.len() implies crate::strings::is_dec_digit_char(
        #[trigger] spec_sub_suite_name(t2, j, bv)[t2.len() + 1 + k],
    ) by {
        assert(spec_sub_suite_name(t2, j, bv)[t2.len() + 1 + k] == d2[k]);
    }
    if t1.len() < t2.len() {
        let p: int = t2.len() as int;
        assert(t1.len() + 1 <= p <= t1.len() + d1.len());
        assert(s[p] == d1[p - t1.len() - 1]);
        assert(crate::strings::is_dec_digit_char(s[p]));
        assert(!crate::strings::is_dec_digit_char('_'));
        assert(false);
    }
    if t2.len() < t1.len() {
        let p: int = t1.len() as int;
        assert(t2.len() + 1 <= p <= t2.len() + d2.len());
        assert(s[p] == d2[p - t2.len() - 1]);
        assert(crate::strings::is_dec_digit_char(s[p]));
        assert(!crate::strings::is_dec_digit_char('_'));
        assert(false);
    }
    assert(t1.len() == t2.len());
    assert(d1.len() == d2.len());
    assert(t1 =~= t2) by {
        assert forall|k: int| 0 <= k < t1.len() implies t1[k] == t2[k] by {
            assert(s[k] == t1[k]);
            assert(s[k] == t2[k]);
        }
    }
    assert(d1 =~= d2) by {
        assert forall|k: int| 0 <= k < d1.len() implies d1[k] == d2[k] by {
            assert(s[t1.len() + 1 + k] == d1[k]);
            assert(s[t2.len() + 1 + k] == d2[k]);
        }
    }
    crate::strings::lemma_dec_of_injective(i, j);
}

/// The total runtime recorded in a history map.
pub open spec fn total_map_runtime(m: Seq<(Seq<char>, TestRuntimeHistoryView)>) -> nat
    decreases m.len(),
{
    if m.len() == 0 {
        0
    } else {
        (total_map_runtime(m.drop_last()) + m.last().1.average_runtime) as nat
    }
}

/// The runtime history charges a test by its logical name; a test
/// without history is free.
pub open spec fn test_avg(
    hist: Seq<(Seq<char>, TestRuntimeHistoryView)>,
    t: Seq<char>,
) -> nat {
    match history_get(hist, spec_test_name(t)) {
        Some(tv) => tv.average_runtime as nat,
        None => 0,
    }
}

/// The partition the splitter walk produces, starting from a walk
/// state: `i` tests are already consumed, `running` is the open
/// sub-suite with accumulated runtime `rt`, and `done` holds the
/// finished sub-suites. A test closes the open sub-suite first when
/// adding it would push the accumulated runtime over `total / max`
/// (compared exactly), the open sub-suite is non-empty, and fewer
/// than `max - 1` sub-suites are finished. A test without history
/// contributes no runtime.
pub open spec fn split_rec(
    tests: Seq<Seq<char>>,
    hist: Seq<(Seq<char>, TestRuntimeHistoryView)>,
    total: nat,
    max: nat,
    i: int,
    running: Seq<Seq<char>>,
    rt: nat,
    done: Seq<Seq<Seq<char>>>,
) -> Seq<Seq<Seq<char>>>
    decreases tests.len() - i,
{
    if i < 0 || i >= tests.len() {
        if running.len() > 0 {
            done.push(running)
        } else {
            done
        }
    } else {
        let t = tests[i];
        let avg = test_avg(hist, t);
        if (rt + avg) * max > total && running.len() > 0 && done.len() < max - 1 {
            split_rec(tests, hist, total, max, i + 1, seq![t], avg, done.push(running))
        } else {
            split_rec(tests, hist, total, max, i + 1, running.push(t), (rt + avg) as nat, done)
        }
    }
}

/// The partition of a discovered test list into at most `n` sub-suites.
pub open spec fn split_groups(
    tests: Seq<Seq<char>>,
    hist: Seq<(Seq<char>, TestRuntimeHistoryView)>,
    n: nat,
) -> Seq<Seq<Seq<char>>> {
    let max = if n <= tests.len() {
        n
    } else {
        tests.len()
    };
    if max == 0 {
        Seq::<Seq<Seq<char>>>::empty()
    } else {
        split_rec(
            tests,
            hist,
            total_map_runtime(hist),
            max,
            0,
            Seq::<Seq<char>>::empty(),
            0,
            Seq::<Seq<Seq<char>>>::empty(),
        )
    }
}

/// All tests of a partition, in order.
pub open spec fn concat_all(groups: Seq<Seq<Seq<char>>>) -> Seq<Seq<char>>
    decreases groups.len(),
{
    if groups.len() == 0 {
        Seq::<Seq<char>>::empty()
    } else {
        concat_all(groups.drop_last()) + groups.last()
    }
}

proof fn lemma_concat_all_push(gs: Seq<Seq<Seq<char>>>, g: Seq<Seq<char>>)
    ensures
        concat_all(gs.push(g)) == concat_all(gs) + g,
{
    assert(gs.push(g).drop_last() =~= gs);
    assert(gs.push(g).last() == g);
}

/// Partition coverage: the walk emits exactly the open sub-suite and
/// the tests not yet consumed, after what is already finished.
proof fn lemma_split_rec_concat(
    tests: Seq<Seq<char>>,
    hist: Seq<(Seq<char>, TestRuntimeHistoryView)>,
    total: nat,
    max: nat,
    i: int,
    running: Seq<Seq<char>>,
    rt: nat,
    done: Seq<Seq<Seq<char>>>,
)
    requires
        0 <= i <= tests.len(),
    ensures
        concat_all(split_rec(tests, hist, total, max, i, running, rt, done)) == concat_all(done)
            + running + tests.subrange(i, tests.len() as int),
    decreases tests.len() - i,
{
    if i >= tests.len() {
        assert(tests.subrange(i, tests.len() as int) =~= Seq::<Seq<char>>::empty());
        if running.len() > 0 {
            lemma_concat_all_push(done, running);
            assert(concat_all(done) + running + Seq::<Seq<char>>::empty() =~= concat_all(done)
                + running);
        } else {
            assert(concat_all(done) + running + Seq::<Seq<char>>::empty() =~= concat_all(done));
        }
    } else {
        let t = tests[i];
        assert(tests.subrange(i, tests.len() as int) =~= seq![t] + tests.subrange(
            i + 1,
            tests.len() as int,
        ));
        let rest = tests.subrange(i + 1, tests.len() as int);
        let avg = test_avg(hist, t);
        if (rt + avg) * max > total && running.len() > 0 && done.len() < max - 1 {
            lemma_split_rec_concat(tests, hist, total, max, i + 1, seq![t], avg, done.push(running));
            lemma_concat_all_push(done, running);
            assert((concat_all(done) + running) + seq![t] + rest =~= concat_all(done) + running + (
            seq![t] + rest));
        } else {
            lemma_split_rec_concat(
                tests,
                hist,
                total,
                max,
                i + 1,
                running.push(t),
                (rt + avg) as nat,
                done,
            );
            assert(concat_all(done) + running.push(t) + rest =~= concat_all(done) + running + (
            seq![t] + rest));
        }
    }
}

/// Partition coverage over a whole run: the sub-suites hold exactly
/// the discovered tests, in discovery order.
pub proof fn lemma_split_groups_concat(
    tests: Seq<Seq<char>>,
    hist: Seq<(Seq<char>, TestRuntimeHistoryView)>,
    n: nat,
)
    requires
        n >= 1,
    ensures
        concat_all(split_groups(tests, hist, n)) == tests,
{
    let max = if n <= tests.len() {
        n
    } else {
        tests.len()
    };
    if max == 0 {
        assert(tests =~= Seq::<Seq<char>>::empty());
    } else {
        lemma_split_rec_concat(
            tests,
            hist,
            total_map_runtime(hist),
            max,
            0,
            Seq::<Seq<char>>::empty(),
            0,
            Seq::<Seq<Seq<char>>>::empty(),
        );
        assert(tests.subrange(0, tests.len() as int) =~= tests);
        assert(concat_all(Seq::<Seq<Seq<char>>>::empty()) + Seq::<Seq<char>>::empty()
            + tests =~= tests);
    }
}

proof fn lemma_split_rec_len(
    tests: Seq<Seq<char>>,
    hist: Seq<(Seq<char>, TestRuntimeHistoryView)>,
    total: nat,
    max: nat,
    i: int,
    running: Seq<Seq<char>>,
    rt: nat,
    done: Seq<Seq<Seq<char>>>,
)
    requires
        max >= 1,
        done.len() <= max - 1,
    ensures
        split_rec(tests, hist, total, max, i, running, rt, done).len() <= max,
        split_rec(tests, hist, total, max, i, running, rt, done).len() >= done.len(),
    decreases tests.len() - i,
{
    if 0 <= i < tests.len() {
        let t = tests[i];
        let avg = test_avg(hist, t);
        if (rt + avg) * max > total && running.len() > 0 && done.len() < max - 1 {
            lemma_split_rec_len(tests, hist, total, max, i + 1, seq![t], avg, done.push(running));
        } else {
            lemma_split_rec_len(
                tests,
                hist,
                total,
                max,
                i + 1,
                running.push(t),
                (rt + avg) as nat,
                done,
            );
        }
    }
}

/// Partition cardinality: a run yields at most `min(n, tests.len())`
/// sub-suites, and at least one when a cap is given and a test was
/// discovered.
pub proof fn lemma_split_groups_len(
    tests: Seq<Seq<char>>,
    hist: Seq<(Seq<char>, TestRuntimeHistoryView)>,
    n: nat,
)
    ensures
        split_groups(tests, hist, n).len() <= n,
        split_groups(tests, hist, n).len() <= tests.len(),
        n >= 1 && tests.len() > 0 ==> split_groups(tests, hist, n).len() >= 1,
{
    if n >= 1 && tests.len() > 0 {
        lemma_split_groups_concat(tests, hist, n);
        if split_groups(tests, hist, n).len() == 0 {
            assert(concat_all(split_groups(tests, hist, n)) =~= Seq::<Seq<char>>::empty());
        }
    }
    let max = if n <= tests.len() {
        n
    } else {
        tests.len()
    };
    if max > 0 {
        lemma_split_rec_len(
            tests,
            hist,
            total_map_runtime(hist),
            max,
            0,
            Seq::<Seq<char>>::empty(),
            0,
            Seq::<Seq<Seq<char>>>::empty(),
        );
    }
}

/// The walk keeps finished sub-suites as they are, and the open
/// sub-suite keeps the tests it has accumulated as a prefix.
proof fn lemma_split_rec_current(
    tests: Seq<Seq<char>>,
    hist: Seq<(Seq<char>, TestRuntimeHistoryView)>,
    total: nat,
    max: nat,
    i: int,
    running: Seq<Seq<char>>,
    rt: nat,
    done: Seq<Seq<Seq<char>>>,
)
    requires
        running.len() > 0,
    ensures
        ({
            let r = split_rec(tests, hist, total, max, i, running, rt, done);
            &&& r.len() > done.len()
            &&& forall|k: int| 0 <= k < done.len() ==> #[trigger] r[k] == done[k]
            &&& r[done.len() as int].len() >= running.len()
            &&& r[done.len() as int].subrange(0, running.len() as int) == running
        }),
    decreases tests.len() - i,
{
    let r = split_rec(tests, hist, total, max, i, running, rt, done);
    if i < 0 || i >= tests.len() {
        assert(r == done.push(running));
        assert(r[done.len() as int] == running);
        assert(running.subrange(0, running.len() as int) =~= running);
    } else {
        let t = tests[i];
        let avg = test_avg(hist, t);
        if (rt + avg) * max > total && running.len() > 0 && done.len() < max - 1 {
            lemma_split_rec_current(tests, hist, total, max, i + 1, seq![t], avg, done.push(running));
            assert(r[done.len() as int] == done.push(running)[done.len() as int]);
            assert(running.subrange(0, running.len() as int) =~= running);
        } else {
            lemma_split_rec_current(
                tests,
                hist,
                total,
                max,
                i + 1,
                running.push(t),
                (rt + avg) as nat,
                done,
            );
            assert(r[done.len() as int].subrange(0, running.len() as int)
                =~= r[done.len() as int].subrange(0, running.len() + 1 as int).subrange(
                0,
                running.len() as int,
            ));
        }
    }
}

/// Balance tie-break: when adding the test at `i` would push the open
/// sub-suite over the target, that sub-suite closes exactly as it
/// stands (its last test is the earlier test), and the test at `i`
/// opens the next sub-suite.
pub proof fn lemma_split_boundary(
    tests: Seq<Seq<char>>,
    hist: Seq<(Seq<char>, TestRuntimeHistoryView)>,
    total: nat,
    max: nat,
    i: int,
    running: Seq<Seq<char>>,
    rt: nat,
    done: Seq<Seq<Seq<char>>>,
)
    requires
        0 <= i < tests.len(),
        (rt + test_avg(hist, tests[i])) * max > total,
        running.len() > 0,
        done.len() < max - 1,
    ensures
        ({
            let r = split_rec(tests, hist, total, max, i, running, rt, done);
            &&& r.len() > done.len() + 1
            &&& r[done.len() as int] == running
            &&& r[done.len() + 1 as int].len() > 0
            &&& r[done.len() + 1 as int][0] == tests[i]
        }),
{
    let t = tests[i];
    let avg = test_avg(hist, t);
    let r = split_rec(tests, hist, total, max, i, running, rt, done);
    lemma_split_rec_current(tests, hist, total, max, i + 1, seq![t], avg, done.push(running));
    assert(r == split_rec(tests, hist, total, max, i + 1, seq![t], avg, done.push(running)));
    assert(r[done.len() as int] == done.push(running)[done.len() as int]);
    assert(r[done.len() + 1 as int].subrange(0, 1) == seq![t]);
    assert(r[done.len() + 1 as int][0] == r[done.len() + 1 as int].subrange(0, 1)[0]);
}

/// The exact comparison with the target `total / max`, free of
/// division.
proof fn lemma_cmp_target(a: nat, total: nat, max: nat)
    requires
        max >= 1,
    ensures
        (a * max > total) <==> (a > total / max),
{
    let q = total / max;
    let r = total % max;
    vstd::arithmetic::div_mod::lemma_fundamental_div_mod(total as int, max as int);
    vstd::arithmetic::div_mod::lemma_mod_division_less_than_divisor(total as int, max as int);
    assert(total == max * q + r);
    assert(0 <= r < max);
    if a > q {
        assert(a * max > max * q + r) by (nonlinear_arith)
            requires
                a >= q + 1,
                0 <= r < max,
        ;
    } else {
        assert(a * max <= max * q + r) by (nonlinear_arith)
            requires
                a <= q,
                r >= 0,
                max >= 1,
        ;
    }
}

/// Total runtime recorded in a history map, as an executable value.
fn compute_total_runtime(m: &Vec<(String, TestRuntimeHistory)>) -> (r: u128)
    ensures
        r == total_map_runtime(m.deep_view()),
{
    let ghost mv = m.deep_view();
    let n = m.len();
    let mut acc: u128 = 0;
    let mut i: usize = 0;
    while i < n
        invariant
            n == m.len(),
            mv == m.deep_view(),
            mv.len() == n,
            i <= n,
            acc == total_map_runtime(mv.take(i as int)),
            acc <= (i as u128) * (u64::MAX as u128),
        decreases n - i,
    {
        proof {
            assert(mv.take(i + 1).drop_last() =~= mv.take(i as int));
            assert(mv.take(i + 1).last() == mv[i as int]);
            assert(mv[i as int] == (m@[i as int].0@, m@[i as int].1.deep_view()));
            assert((i as u128) * (u64::MAX as u128) + (u64::MAX as u128) == ((i + 1) as u128) * (
            u64::MAX as u128)) by (nonlinear_arith);
        }
        acc = acc + m[i].1.average_runtime as u128;
        i = i + 1;
    }
    proof {
        assert(mv.take(n as int) =~= mv);
    }
    acc
}

/// Split a discovered test list into at most `n_suites`
/// runtime-balanced sub-suites, named `{task}_{index}_{variant}`.
#[verifier::loop_isolation(false)]
#[verifier::rlimit(60)]
pub fn split_tests(
    task_stats: &TaskRuntimeHistory,
    bv_name: &str,
    test_list: &Vec<String>,
    n_suites: usize,
) -> (r: GeneratedSuite)
    ensures
        r.task_name@ == task_stats.task_name@,
        r.suite_name@ == task_stats.suite_name@,
        ({
            let groups = split_groups(
                test_list.deep_view(),
                task_stats.test_map.deep_view(),
                n_suites as nat,
            );
            &&& r.sub_suites.deep_view().len() == groups.len()
            &&& forall|k: int|
                0 <= k < groups.len() ==> (#[trigger] r.sub_suites.deep_view()[k]).test_list
                    == groups[k] && r.sub_suites.deep_view()[k].name == spec_sub_suite_name(
                    task_stats.task_name@,
                    k as nat,
                    bv_name@,
                )
        }),
        // partition cardinality, for every cap
        r.sub_suites.deep_view().len() <= n_suites,
        r.sub_suites.deep_view().len() <= test_list.deep_view().len(),
        n_suites >= 1 && test_list.deep_view().len() > 0 ==> r.sub_suites.deep_view().len() >= 1,
        // partition coverage, in discovery order
        n_suites >= 1 ==> concat_all(groups_of(r.sub_suites.deep_view())) == test_list.deep_view(),
{
    let ghost tests = test_list.deep_view();
    let ghost hist = task_stats.test_map.deep_view();
    let n = test_list.len();
    let max_tasks: usize = if n_suites < n {
        n_suites
    } else {
        n
    };
    let mut sub_suites: Vec<SubSuite> = Vec::new();
    if max_tasks == 0 {
        return GeneratedSuite {
            task_name: task_stats.task_name.clone(),
            suite_name: task_stats.suite_name.clone(),
            sub_suites,
        };
    }
    let total = compute_total_runtime(&task_stats.test_map);
    let ghost totaln = total_map_runtime(hist);
    let target = total / (max_tasks as u128);
    let mut running_tests: Vec<String> = Vec::new();
    let mut running_runtime: u128 = 0;
    let mut i: usize = 0;
    proof {
        assert(groups_of(sub_suites.deep_view()) =~= Seq::<Seq<Seq<char>>>::empty());
        assert(running_tests.deep_view() =~= Seq::<Seq<char>>::empty());
    }
    while i < n
        invariant
            i <= n,
            running_runtime <= (i as u128) * (u64::MAX as u128),
            running_runtime == running_runtime as nat,
            sub_suites.deep_view().len() <= max_tasks - 1,
            forall|k: int|
                0 <= k < sub_suites.deep_view().len() ==> (#[trigger] sub_suites.deep_view()[k]).name
                    == spec_sub_suite_name(task_stats.task_name@, k as nat, bv_name@),
            split_rec(
                tests,
                hist,
                totaln,
                max_tasks as nat,
                i as int,
                running_tests.deep_view(),
                running_runtime as nat,
                groups_of(sub_suites.deep_view()),
            ) == split_groups(tests, hist, n_suites as nat),
            groups_of(sub_suites.deep_view()).len() == sub_suites.deep_view().len(),
        decreases n - i,
    {
        proof {
            assert(tests[i as int] == test_list@[i as int]@);
        }
        let test_name = get_test_name(test_list[i].as_str());
        let ghost prev_groups = groups_of(sub_suites.deep_view());
        let avg: u64 = match history_lookup(&task_stats.test_map, test_name.as_str()) {
            Some(test_stats) => test_stats.average_runtime,
            None => 0,
        };
        proof {
            assert(avg as nat == test_avg(hist, tests[i as int]));
            lemma_cmp_target(
                (running_runtime as nat + avg as nat) as nat,
                totaln,
                max_tasks as nat,
            );
            assert(((i + 1) as u128) * (u64::MAX as u128) == (i as u128) * (
            u64::MAX as u128) + (u64::MAX as u128)) by (nonlinear_arith);
        }
        if running_runtime + avg as u128 > target && running_tests.len() > 0
            && sub_suites.len() < max_tasks - 1 {
            let name = sub_suite_name(task_stats.task_name.as_str(), sub_suites.len(), bv_name);
            let finished = SubSuite { name, test_list: running_tests };
            let ghost prev_subs = sub_suites.deep_view();
            sub_suites.push(finished);
            running_tests = Vec::new();
            running_tests.push(test_list[i].clone());
            running_runtime = avg as u128;
            proof {
                assert(sub_suites.deep_view() =~= prev_subs.push(
                    sub_suites@.last().deep_view(),
                ));
                assert(groups_of(sub_suites.deep_view()) =~= prev_groups.push(
                    sub_suites@.last().deep_view().test_list,
                ));
                assert(running_tests.deep_view() =~= seq![tests[i as int]]);
            }
        } else {
            let ghost prev_running = running_tests.deep_view();
            running_tests.push(test_list[i].clone());
            running_runtime = running_runtime + avg as u128;
            proof {
                assert(running_tests.deep_view() =~= prev_running.push(tests[i as int]));
            }
        }
        i = i + 1;
    }
    if running_tests.len() > 0 {
        let name = sub_suite_name(task_stats.task_name.as_str(), sub_suites.len(), bv_name);
        let finished = SubSuite { name, test_list: running_tests };
        let ghost prev_subs = sub_suites.deep_view();
        let ghost prev_groups = groups_of(sub_suites.deep_view());
        sub_suites.push(finished);
        proof {
            assert(sub_suites.deep_view() =~= prev_subs.push(sub_suites@.last().deep_view()));
            assert(groups_of(sub_suites.deep_view()) =~= prev_groups.push(
                sub_suites@.last().deep_view().test_list,
            ));
        }
    }
    proof {
        assert forall|k: int|
            0 <= k < split_groups(tests, hist, n_suites as nat).len() implies (
        #[trigger] sub_suites.deep_view()[k]).test_list == split_groups(
            tests,
            hist,
            n_suites as nat,
        )[k] by {
            assert(groups_of(sub_suites.deep_view())[k] == sub_suites.deep_view()[k].test_list);
        }
        assert(groups_of(sub_suites.deep_view()) =~= split_groups(tests, hist, n_suites as nat));
        lemma_split_groups_len(tests, hist, n_suites as nat);
        if n_suites >= 1 {
            lemma_split_groups_concat(tests, hist, n_suites as nat);
        }
    }
    GeneratedSuite {
        task_name: task_stats.task_name.clone(),
        suite_name: task_stats.suite_name.clone(),
        sub_suites,
    }
}

/// The bare partition carried by a list of sub-suites.
pub open spec fn groups_of(subs: Seq<SubSuiteView>) -> Seq<Seq<Seq<char>>> {
    Seq::new(subs.len(), |k: int| subs[k].test_list)
}

/// The name `{task}_{k}_{variant}` of the sub-suite with index `k`.
fn sub_suite_name(task: &str, k: usize, bv: &str) -> (r: String)
    ensures
        r@ == spec_sub_suite_name(task@, k as nat, bv@),
{
    proof {
        reveal_strlit("_");
        assert("_"@ =~= seq!['_']);
    }
    let mut out = task.to_owned();
    out.append("_");
    let digits = u64_to_dec(k as u64);
    out.append(digits.as_str());
    out.append("_");
    out.append(bv);
    out
}

/// A function call without variables, as a view.
pub open spec fn spec_fn_call(name: Seq<char>) -> FunctionCallView {
    FunctionCallView { func: name, vars: None }
}

/// The resmoke arguments of a sub-task: the origin suite plus the
/// configured arguments.
pub open spec fn spec_resmoke_args(origin_suite: Seq<char>, args: Seq<char>) -> Seq<char> {
    "--originSuite="@ + origin_suite + seq![' '] + args
}

/// Where the generated suite file of a sub-suite lives.
pub open spec fn spec_generated_config_file(suite_file: Seq<char>) -> Seq<char> {
    "generated_resmoke_config/"@ + suite_file + ".yml"@
}

/// The variables handed to `run generated tests` for a sub-suite.
pub open spec fn spec_run_test_vars(suite_file: Seq<char>, p: ResmokeGenParamsView) -> Seq<
    (Seq<char>, ParamVal),
> {
    let base = seq![
        ("require_multiversion_setup"@, ParamVal::Bool(p.require_multiversion_setup)),
        ("resmoke_args"@, ParamVal::Str(spec_resmoke_args(suite_file, p.resmoke_args))),
        ("suite"@, ParamVal::Str(spec_generated_config_file(suite_file))),
    ];
    let with_loc = match p.config_location {
        Some(l) => base.push(("gen_task_config_location"@, ParamVal::Str(l))),
        None => base,
    };
    match p.resmoke_jobs_max {
        Some(m) => with_loc.push(("resmoke_jobs_max"@, ParamVal::UInt(m))),
        None => with_loc,
    }
}

/// The command sequence of a generated sub-task: the setup calls, the
/// multiversion calls when required, and the run call.
pub open spec fn spec_resmoke_commands(
    run_fn: Seq<char>,
    vars: Seq<(Seq<char>, ParamVal)>,
    mv: bool,
) -> Seq<FunctionCallView> {
    let callv = FunctionCallView { func: run_fn, vars: Some(vars) };
    if mv {
        seq![
            spec_fn_call("git get project no modules"@),
            spec_fn_call("add git tag"@),
            spec_fn_call("do setup"@),
            spec_fn_call("configure evergreen api credentials"@),
            spec_fn_call("do multiversion setup"@),
            callv,
        ]
    } else {
        seq![
            spec_fn_call("do setup"@),
            spec_fn_call("configure evergreen api credentials"@),
            callv,
        ]
    }
}

/// The dependency of every split sub-task.
pub open spec fn spec_split_dependencies() -> Seq<TaskDependencyView> {
    seq![TaskDependencyView { name: "archive_dist_test"@, variant: None }]
}

/// The whole definition of one split sub-task.
pub open spec fn spec_sub_task(name: Seq<char>, p: ResmokeGenParamsView) -> crate::evg_model::EvgTaskView {
    crate::evg_model::EvgTaskView {
        name,
        commands: spec_resmoke_commands(
            "run generated tests"@,
            spec_run_test_vars(name, p),
            p.require_multiversion_setup,
        ),
        depends_on: Some(spec_split_dependencies()),
        tags: None,
    }
}

pub(crate) fn resmoke_args(origin_suite: &str, params: &ResmokeGenParams) -> (r: String)
    ensures
        r@ == spec_resmoke_args(origin_suite@, params.resmoke_args@),
{
    proof {
        reveal_strlit(" ");
        assert(" "@ =~= seq![' ']);
    }
    let mut out = "--originSuite=".to_owned();
    out.append(origin_suite);
    out.append(" ");
    out.append(params.resmoke_args.as_str());
    out
}

pub(crate) fn run_test_vars(suite_file: &str, params: &ResmokeGenParams) -> (r: Vec<
    (String, ParamValue),
>)
    ensures
        r.deep_view() == spec_run_test_vars(suite_file@, params.deep_view()),
{
    let mut vars: Vec<(String, ParamValue)> = Vec::new();
    vars.push(
        (
            "require_multiversion_setup".to_owned(),
            ParamValue::Bool(params.require_multiversion_setup),
        ),
    );
    let args = resmoke_args(suite_file, params);
    vars.push(("resmoke_args".to_owned(), ParamValue::Str(args)));
    let mut suite_path = "generated_resmoke_config/".to_owned();
    suite_path.append(suite_file);
    suite_path.append(".yml");
    vars.push(("suite".to_owned(), ParamValue::Str(suite_path)));
    match &params.config_location {
        Some(loc) => {
            vars.push(("gen_task_config_location".to_owned(), ParamValue::Str(loc.clone())));
        },
        None => {},
    }
    match &params.resmoke_jobs_max {
        Some(m) => {
            vars.push(("resmoke_jobs_max".to_owned(), ParamValue::UInt(*m)));
        },
        None => {},
    }
    proof {
        assert(vars.deep_view() =~= spec_run_test_vars(suite_file@, params.deep_view()));
    }
    vars
}

pub(crate) fn resmoke_commands(
    run_test_fn_name: &str,
    run_test_vars: Vec<(String, ParamValue)>,
    requires_multiversion_setup: bool,
) -> (r: Vec<EvgCommand>)
    ensures
        r.deep_view() == spec_resmoke_commands(
            run_test_fn_name@,
            run_test_vars.deep_view(),
            requires_multiversion_setup,
        ),
{
    let ghost vars_v = run_test_vars.deep_view();
    let mut commands: Vec<EvgCommand> = Vec::new();
    if requires_multiversion_setup {
        commands.push(fn_call("git get project no modules"));
        commands.push(fn_call("add git tag"));
    }
    commands.push(fn_call("do setup"));
    commands.push(fn_call("configure evergreen api credentials"));
    if requires_multiversion_setup {
        commands.push(fn_call("do multiversion setup"));
    }
    commands.push(fn_call_with_params(run_test_fn_name, run_test_vars));
    proof {
        assert(commands.deep_view() =~= spec_resmoke_commands(
            run_test_fn_name@,
            vars_v,
            requires_multiversion_setup,
        ));
    }
    commands
}

pub(crate) fn dependencies() -> (r: Vec<TaskDependency>)
    ensures
        r.deep_view() == spec_split_dependencies(),
{
    let mut out: Vec<TaskDependency> = Vec::new();
    out.push(TaskDependency { name: "archive_dist_test".to_owned(), variant: None });
    proof {
        assert(out.deep_view() =~= spec_split_dependencies());
    }
    out
}

impl SubSuite {
    /// The build-variant reference to this sub-suite's task: never
    /// activated on creation.
    pub fn task_ref(&self) -> (r: TaskRef)
        ensures
            r.deep_view() == (crate::evg_model::TaskRefView {
                name: self.name@,
                distros: None,
                activate: Some(false),
            }),
    {
        TaskRef { name: self.name.clone(), distros: None, activate: Some(false) }
    }

    /// The full task definition of this sub-suite.
    pub fn task(&self, gen_params: &ResmokeGenParams) -> (r: EvgTask)
        ensures
            r.deep_view() == spec_sub_task(self.name@, gen_params.deep_view()),
    {
        let vars = run_test_vars(self.name.as_str(), gen_params);
        let commands = resmoke_commands(
            "run generated tests",
            vars,
            gen_params.require_multiversion_setup,
        );
        EvgTask {
            name: self.name.clone(),
            commands,
            depends_on: Some(dependencies()),
            tags: None,
        }
    }
}

impl GeneratedSuite {
    /// One reference per sub-suite, each with `activate = false`.
    pub fn task_refs(&self) -> (r: Vec<TaskRef>)
        ensures
            r.deep_view().len() == self.sub_suites.deep_view().len(),
            forall|k: int|
                0 <= k < r.deep_view().len() ==> #[trigger] r.deep_view()[k]
                    == (crate::evg_model::TaskRefView {
                    name: self.sub_suites.deep_view()[k].name,
                    distros: None,
                    activate: Some(false),
                }),
    {
        let n = self.sub_suites.len();
        let mut out: Vec<TaskRef> = Vec::new();
        let mut i: usize = 0;
        while i < n
            invariant
                n == self.sub_suites.len(),
                i <= n,
                out.deep_view().len() == i,
                forall|k: int|
                    0 <= k < i ==> #[trigger] out.deep_view()[k]
                        == (crate::evg_model::TaskRefView {
                        name: self.sub_suites.deep_view()[k].name,
                        distros: None,
                        activate: Some(false),
                    }),
            decreases n - i,
        {
            let ghost prev = out.deep_view();
            out.push(self.sub_suites[i].task_ref());
            proof {
                assert(out.deep_view() =~= prev.push(out@.last().deep_view()));
                assert(self.sub_suites.deep_view()[i as int] == self.sub_suites@[
                    i as int].deep_view());
            }
            i = i + 1;
        }
        out
    }

    /// The display task grouping the sub-suites under the task's name.
    pub fn display_task(&self) -> (r: DisplayTask)
        ensures
            r.name@ == self.task_name@,
            r.execution_tasks.deep_view() == Seq::new(
                self.sub_suites.deep_view().len(),
                |k: int| self.sub_suites.deep_view()[k].name,
            ),
    {
        let n = self.sub_suites.len();
        let mut names: Vec<String> = Vec::new();
        let mut i: usize = 0;
        while i < n
            invariant
                n == self.sub_suites.len(),
                i <= n,
                names.deep_view().len() == i,
                forall|k: int|
                    0 <= k < i ==> #[trigger] names.deep_view()[k]
                        == self.sub_suites.deep_view()[k].name,
            decreases n - i,
        {
            let ghost prev = names.deep_view();
            names.push(self.sub_suites[i].name.clone());
            proof {
                assert(names.deep_view() =~= prev.push(names@.last()@));
                assert(self.sub_suites.deep_view()[i as int] == self.sub_suites@[
                    i as int].deep_view());
            }
            i = i + 1;
        }
        proof {
            assert(names.deep_view() =~= Seq::new(
                self.sub_suites.deep_view().len(),
                |k: int| self.sub_suites.deep_view()[k].name,
            ));
        }
        DisplayTask { name: self.task_name.clone(), execution_tasks: names }
    }

    /// Every test of the split, in sub-suite order: the exclusion
    /// set of the misc suite file.
    pub fn all_tests(&self) -> (r: Vec<String>)
        ensures
            r.deep_view() == concat_all(groups_of(self.sub_suites.deep_view())),
    {
        let ghost subs = self.sub_suites.deep_view();
        let ghost groups = groups_of(subs);
        let n = self.sub_suites.len();
        let mut out: Vec<String> = Vec::new();
        let mut i: usize = 0;
        while i < n
            invariant
                n == self.sub_suites.len(),
                subs == self.sub_suites.deep_view(),
                groups == groups_of(subs),
                groups.len() == n,
                i <= n,
                out.deep_view() == concat_all(groups.take(i as int)),
            decreases n - i,
        {
            proof {
                assert(groups.take(i + 1).drop_last() =~= groups.take(i as int));
                assert(groups.take(i + 1).last() == groups[i as int]);
                assert(groups[i as int] == subs[i as int].test_list);
                assert(subs[i as int] == self.sub_suites@[i as int].deep_view());
            }
            let tests = &self.sub_suites[i].test_list;
            let m = tests.len();
            let mut j: usize = 0;
            while j < m
                invariant
                    m == tests.len(),
                    j <= m,
                    out.deep_view() == concat_all(groups.take(i as int)) + tests.deep_view().take(
                        j as int,
                    ),
                decreases m - j,
            {
                let ghost prev = out.deep_view();
                out.push(tests[j].clone());
                proof {
                    assert(out.deep_view() =~= prev.push(out@.last()@));
                    assert(tests.deep_view().take(j + 1) =~= tests.deep_view().take(
                        j as int,
                    ).push(tests.deep_view()[j as int]));
                    assert(concat_all(groups.take(i as int)) + tests.deep_view().take(j + 1)
                        =~= (concat_all(groups.take(i as int)) + tests.deep_view().take(
                        j as int,
                    )).push(tests.deep_view()[j as int]));
                }
                j = j + 1;
            }
            proof {
                assert(tests.deep_view().take(m as int) =~= tests.deep_view());
            }
            i = i + 1;
        }
        proof {
            assert(groups.take(n as int) =~= groups);
        }
        out
    }

    /// The full task definition of every sub-suite.
    pub fn execution_tasks(&self, gen_params: &ResmokeGenParams) -> (r: Vec<EvgTask>)
        ensures
            r.deep_view().len() == self.sub_suites.deep_view().len(),
            forall|k: int|
                0 <= k < r.deep_view().len() ==> #[trigger] r.deep_view()[k] == spec_sub_task(
                    self.sub_suites.deep_view()[k].name,
                    gen_params.deep_view(),
                ),
    {
        let n = self.sub_suites.len();
        let mut out: Vec<EvgTask> = Vec::new();
        let mut i: usize = 0;
        while i < n
            invariant
                n == self.sub_suites.len(),
                i <= n,
                out.deep_view().len() == i,
                forall|k: int|
                    0 <= k < i ==> #[trigger] out.deep_view()[k] == spec_sub_task(
                        self.sub_suites.deep_view()[k].name,
                        gen_params.deep_view(),
                    ),
            decreases n - i,
        {
            let ghost prev = out.deep_view();
            out.push(self.sub_suites[i].task(gen_params));
            proof {
                assert(out.deep_view() =~= prev.push(out@.last().deep_view()));
                assert(self.sub_suites.deep_view()[i as int] == self.sub_suites@[
                    i as int].deep_view());
            }
            i = i + 1;
        }
        out
    }
}

/// Splitting of one task, given its history summary.
pub trait TaskSplitting {
    fn split_task(&self, task_stats: &TaskRuntimeHistory, bv_name: &str) -> (r: GeneratedSuite)
        ensures
            r.task_name@ == task_stats.task_name@,
            r.suite_name@ == task_stats.suite_name@,
    ;
}

/// The production splitter: discovers the suite's tests through the
/// injected prober and partitions them.
#[derive(Clone)]
pub struct TaskSplitter<D: TestDiscovery> {
    pub test_discovery: D,
    pub split_config: SplitConfig,
}

impl<D: TestDiscovery> TaskSplitting for TaskSplitter<D> {
    fn split_task(&self, task_stats: &TaskRuntimeHistory, bv_name: &str) -> GeneratedSuite {
        let test_list = self.test_discovery.discover_tests(task_stats.suite_name.as_str());
        split_tests(task_stats, bv_name, &test_list, self.split_config.n_suites)
    }
}

} // verus!
