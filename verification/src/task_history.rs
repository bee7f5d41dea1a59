//! Historical per-test runtimes: the logical-name convention for test
//! and hook records, and the summary map the splitter consumes.
//! Runtimes are kept in integer milliseconds.
use vstd::prelude::*;

use chrono::Datelike;

use crate::strings::{dec_padded, find_char, rfind_char, spec_ends_with, str_eq, u64_to_dec_padded};

verus! {

/// The characters before the first occurrence of `c`, or the whole
/// string when `c` is absent.
pub open spec fn prefix_to_char(s: Seq<char>, c: char) -> Seq<char>
    decreases s.len(),
{
    if s.len() == 0 {
        s
    } else if s[0] == c {
        Seq::<char>::empty()
    } else {
        seq![s[0]] + prefix_to_char(s.drop_first(), c)
    }
}

/// The characters after the last occurrence of `c`, or the whole
/// string when `c` is absent.
pub open spec fn suffix_from_last(s: Seq<char>, c: char) -> Seq<char>
    decreases s.len(),
{
    if s.len() == 0 {
        s
    } else if s.last() == c {
        Seq::<char>::empty()
    } else {
        suffix_from_last(s.drop_last(), c).push(s.last())
    }
}

/// The string with every trailing `.js` removed.
pub open spec fn strip_js_suffix(s: Seq<char>) -> Seq<char>
    decreases s.len(),
{
    if spec_ends_with(s, ".js"@) && s.len() >= 3 {
        strip_js_suffix(s.subrange(0, s.len() - 3))
    } else {
        s
    }
}

/// The logical name of a test file: its last path segment without the
/// `.js` extension.
pub open spec fn spec_test_name(s: Seq<char>) -> Seq<char> {
    strip_js_suffix(suffix_from_last(s, '/'))
}

/// A record is a hook record when its file field carries a colon,
/// written `test:hook`.
pub open spec fn spec_is_hook(s: Seq<char>) -> bool {
    s.contains(':')
}

pub(crate) proof fn lemma_prefix_to_char_at(s: Seq<char>, c: char, i: int)
    requires
        0 <= i < s.len(),
        s[i] == c,
        forall|j: int| 0 <= j < i ==> s[j] != c,
    ensures
        prefix_to_char(s, c) == s.subrange(0, i),
    decreases i,
{
    if i == 0 {
        assert(s.subrange(0, 0) =~= Seq::<char>::empty());
    } else {
        lemma_prefix_to_char_at(s.drop_first(), c, i - 1);
        assert(seq![s[0]] + s.drop_first().subrange(0, i - 1) =~= s.subrange(0, i));
    }
}

pub(crate) proof fn lemma_prefix_to_char_missing(s: Seq<char>, c: char)
    requires
        !s.contains(c),
    ensures
        prefix_to_char(s, c) == s,
    decreases s.len(),
{
    if s.len() > 0 {
        assert(s[0] != c);
        assert(!s.drop_first().contains(c)) by {
            if s.drop_first().contains(c) {
                let j = choose|j: int| 0 <= j < s.drop_first().len() && s.drop_first()[j] == c;
                assert(s[j + 1] == c);
            }
        }
        lemma_prefix_to_char_missing(s.drop_first(), c);
        assert(seq![s[0]] + s.drop_first() =~= s);
    }
}

proof fn lemma_suffix_from_last_at(s: Seq<char>, c: char, i: int)
    requires
        0 <= i < s.len(),
        s[i] == c,
        forall|j: int| i < j < s.len() ==> s[j] != c,
    ensures
        suffix_from_last(s, c) == s.subrange(i + 1, s.len() as int),
    decreases s.len(),
{
    if i == s.len() - 1 {
        assert(s.subrange(i + 1, s.len() as int) =~= Seq::<char>::empty());
    } else {
        lemma_suffix_from_last_at(s.drop_last(), c, i);
        assert(s.drop_last().subrange(i + 1, s.len() - 1).push(s.last()) =~= s.subrange(
            i + 1,
            s.len() as int,
        ));
    }
}

proof fn lemma_suffix_from_last_missing(s: Seq<char>, c: char)
    requires
        !s.contains(c),
    ensures
        suffix_from_last(s, c) == s,
    decreases s.len(),
{
    if s.len() > 0 {
        assert(s.last() != c);
        assert(!s.drop_last().contains(c)) by {
            if s.drop_last().contains(c) {
                let j = choose|j: int| 0 <= j < s.drop_last().len() && s.drop_last()[j] == c;
                assert(s[j] == c);
            }
        }
        lemma_suffix_from_last_missing(s.drop_last(), c);
        assert(s.drop_last().push(s.last()) =~= s);
    }
}

/// Whether a stats record names a hook.
pub fn is_hook(test_file: &str) -> (r: bool)
    ensures
        r == spec_is_hook(test_file@),
{
    crate::strings::contains_char(test_file, ':')
}

/// The test portion of a hook record's file field.
pub fn hook_test_name(test_file: &str) -> (r: String)
    ensures
        r@ == prefix_to_char(test_file@, ':'),
{
    match find_char(test_file, ':') {
        Some(i) => {
            proof {
                lemma_prefix_to_char_at(test_file@, ':', i as int);
            }
            let n = test_file.unicode_len();
            test_file.substring_char(0, i).to_owned()
        },
        None => {
            proof {
                lemma_prefix_to_char_missing(test_file@, ':');
            }
            test_file.to_owned()
        },
    }
}

/// The hook portion of a hook record's file field.
pub fn hook_hook_name(test_file: &str) -> (r: String)
    ensures
        r@ == suffix_from_last(test_file@, ':'),
{
    match rfind_char(test_file, ':') {
        Some(i) => {
            proof {
                lemma_suffix_from_last_at(test_file@, ':', i as int);
            }
            let n = test_file.unicode_len();
            test_file.substring_char(i + 1, n).to_owned()
        },
        None => {
            proof {
                lemma_suffix_from_last_missing(test_file@, ':');
            }
            test_file.to_owned()
        },
    }
}

/// The last path segment of a file path.
pub(crate) fn path_base_name(path: &str) -> (r: String)
    ensures
        r@ == suffix_from_last(path@, '/'),
{
    match rfind_char(path, '/') {
        Some(i) => {
            proof {
                lemma_suffix_from_last_at(path@, '/', i as int);
            }
            let n = path.unicode_len();
            path.substring_char(i + 1, n).to_owned()
        },
        None => {
            proof {
                lemma_suffix_from_last_missing(path@, '/');
            }
            path.to_owned()
        },
    }
}

/// The logical name of a test file: the last path segment, without the
/// `.js` extension.
#[verifier::loop_isolation(false)]
pub fn get_test_name(test_file: &str) -> (r: String)
    ensures
        r@ == spec_test_name(test_file@),
{
    let base = match rfind_char(test_file, '/') {
        Some(i) => {
            proof {
                lemma_suffix_from_last_at(test_file@, '/', i as int);
            }
            let n = test_file.unicode_len();
            test_file.substring_char(i + 1, n)
        },
        None => {
            proof {
                lemma_suffix_from_last_missing(test_file@, '/');
            }
            test_file
        },
    };
    let mut out = base.to_owned();
    proof {
        reveal_strlit(".js");
    }
    loop
        invariant
            strip_js_suffix(out@) == strip_js_suffix(base@),
        decreases out@.len(),
    {
        let m = out.as_str().unicode_len();
        if m >= 3 && crate::strings::ends_with(out.as_str(), ".js") {
            let shorter = out.as_str().substring_char(0, m - 3);
            out = shorter.to_owned();
        } else {
            return out;
        }
    }
}

/// One raw statistics record from the CI service: a file (or
/// `test:hook`) and its average passing duration in milliseconds.
#[derive(Debug, Clone)]
pub struct TestStats {
    pub test_file: String,
    pub avg_duration_pass: u64,
}

pub struct TestStatsView {
    pub test_file: Seq<char>,
    pub avg_duration_pass: u64,
}

impl DeepView for TestStats {
    type V = TestStatsView;

    open spec fn deep_view(&self) -> TestStatsView {
        TestStatsView { test_file: self.test_file@, avg_duration_pass: self.avg_duration_pass }
    }
}

/// Average runtime of one hook of a test.
#[derive(Debug, Clone)]
pub struct HookRuntimeHistory {
    pub test_name: String,
    pub hook_name: String,
    pub average_runtime: u64,
}

pub struct HookRuntimeHistoryView {
    pub test_name: Seq<char>,
    pub hook_name: Seq<char>,
    pub average_runtime: u64,
}

impl DeepView for HookRuntimeHistory {
    type V = HookRuntimeHistoryView;

    open spec fn deep_view(&self) -> HookRuntimeHistoryView {
        HookRuntimeHistoryView {
            test_name: self.test_name@,
            hook_name: self.hook_name@,
            average_runtime: self.average_runtime,
        }
    }
}

/// Average runtime of one test, with its hooks.
#[derive(Debug, Clone)]
pub struct TestRuntimeHistory {
    pub test_name: String,
    pub average_runtime: u64,
    pub hooks: Vec<HookRuntimeHistory>,
}

pub struct TestRuntimeHistoryView {
    pub test_name: Seq<char>,
    pub average_runtime: u64,
    pub hooks: Seq<HookRuntimeHistoryView>,
}

impl DeepView for TestRuntimeHistory {
    type V = TestRuntimeHistoryView;

    open spec fn deep_view(&self) -> TestRuntimeHistoryView {
        TestRuntimeHistoryView {
            test_name: self.test_name@,
            average_runtime: self.average_runtime,
            hooks: self.hooks.deep_view(),
        }
    }
}

/// Summary of a task's history: average runtimes keyed by logical test
/// name. Keys are unique.
#[derive(Debug, Clone)]
pub struct TaskRuntimeHistory {
    pub suite_name: String,
    pub task_name: String,
    pub test_map: Vec<(String, TestRuntimeHistory)>,
}

/// Lookup by logical test name: the value of the first entry with the
/// name.
pub open spec fn history_get(
    m: Seq<(Seq<char>, TestRuntimeHistoryView)>,
    name: Seq<char>,
) -> Option<TestRuntimeHistoryView>
    decreases m.len(),
{
    if m.len() == 0 {
        None
    } else if m[0].0 == name {
        Some(m[0].1)
    } else {
        history_get(m.drop_first(), name)
    }
}

proof fn lemma_history_get_at(m: Seq<(Seq<char>, TestRuntimeHistoryView)>, name: Seq<char>, i: int)
    requires
        0 <= i < m.len(),
        m[i].0 == name,
        forall|j: int| 0 <= j < i ==> m[j].0 != name,
    ensures
        history_get(m, name) == Some(m[i].1),
    decreases i,
{
    if i > 0 {
        lemma_history_get_at(m.drop_first(), name, i - 1);
    }
}

proof fn lemma_history_get_missing(m: Seq<(Seq<char>, TestRuntimeHistoryView)>, name: Seq<char>)
    requires
        forall|j: int| 0 <= j < m.len() ==> (#[trigger] m[j]).0 != name,
    ensures
        history_get(m, name) is None,
    decreases m.len(),
{
    if m.len() > 0 {
        lemma_history_get_missing(m.drop_first(), name);
    }
}

/// Find the history entry for a logical test name.
pub fn history_lookup<'a>(m: &'a Vec<(String, TestRuntimeHistory)>, name: &str) -> (r: Option<
    &'a TestRuntimeHistory,
>)
    ensures
        match r {
            Some(v) => history_get(m.deep_view(), name@) == Some(v.deep_view()),
            None => history_get(m.deep_view(), name@) is None,
        },
{
    let n = m.len();
    let mut i: usize = 0;
    while i < n
        invariant
            n == m.len(),
            i <= n,
            forall|j: int| 0 <= j < i ==> m@[j].0@ != name@,
        decreases n - i,
    {
        if str_eq(m[i].0.as_str(), name) {
            proof {
                lemma_history_get_at(m.deep_view(), name@, i as int);
                assert(m.deep_view()[i as int] == (m@[i as int].0@, m@[i as int].1.deep_view()));
            }
            return Some(&m[i].1);
        }
        i = i + 1;
    }
    proof {
        assert(forall|j: int|
            0 <= j < m@.len() ==> (#[trigger] m.deep_view()[j]).0 == m@[j].0@);
        lemma_history_get_missing(m.deep_view(), name@);
    }
    None
}

/// `n` clipped to what a 64-bit count can hold.
pub open spec fn sat64(n: nat) -> u64 {
    if n > u64::MAX {
        u64::MAX
    } else {
        n as u64
    }
}

/// The summed average duration of every test record (no hooks) whose
/// logical name is `name`.
pub open spec fn sum_test_runtime(stats: Seq<TestStatsView>, name: Seq<char>) -> nat
    decreases stats.len(),
{
    if stats.len() == 0 {
        0
    } else {
        let rest = sum_test_runtime(stats.drop_last(), name);
        let r = stats.last();
        if !spec_is_hook(r.test_file) && spec_test_name(r.test_file) == name {
            (rest + r.avg_duration_pass) as nat
        } else {
            rest
        }
    }
}

/// The hook records attached to a logical test name, in order.
pub open spec fn hooks_of(stats: Seq<TestStatsView>, name: Seq<char>) -> Seq<
    HookRuntimeHistoryView,
>
    decreases stats.len(),
{
    if stats.len() == 0 {
        Seq::<HookRuntimeHistoryView>::empty()
    } else {
        let rest = hooks_of(stats.drop_last(), name);
        let r = stats.last();
        if spec_is_hook(r.test_file) && prefix_to_char(r.test_file, ':') == name {
            rest.push(
                HookRuntimeHistoryView {
                    test_name: prefix_to_char(r.test_file, ':'),
                    hook_name: suffix_from_last(r.test_file, ':'),
                    average_runtime: r.avg_duration_pass,
                },
            )
        } else {
            rest
        }
    }
}

/// Whether some test record (no hooks) has the logical name.
pub open spec fn has_test_named(stats: Seq<TestStatsView>, name: Seq<char>) -> bool {
    exists|i: int|
        0 <= i < stats.len() && !spec_is_hook((#[trigger] stats[i]).test_file) && spec_test_name(
            stats[i].test_file,
        ) == name
}

/// The hooks of one logical test name, collected from the records.
#[verifier::loop_isolation(false)]
fn collect_hooks(stats: &Vec<TestStats>, name: &str) -> (r: Vec<HookRuntimeHistory>)
    ensures
        r.deep_view() == hooks_of(stats.deep_view(), name@),
{
    let ghost sv = stats.deep_view();
    let n = stats.len();
    let mut out: Vec<HookRuntimeHistory> = Vec::new();
    let mut i: usize = 0;
    while i < n
        invariant
            i <= n,
            out.deep_view() == hooks_of(sv.take(i as int), name@),
        decreases n - i,
    {
        proof {
            assert(sv.take(i + 1).drop_last() =~= sv.take(i as int));
            assert(sv.take(i + 1).last() == sv[i as int]);
            assert(sv[i as int] == stats@[i as int].deep_view());
        }
        let ghost prev = out.deep_view();
        if is_hook(stats[i].test_file.as_str()) {
            let tn = hook_test_name(stats[i].test_file.as_str());
            if str_eq(tn.as_str(), name) {
                let hn = hook_hook_name(stats[i].test_file.as_str());
                out.push(
                    HookRuntimeHistory {
                        test_name: tn,
                        hook_name: hn,
                        average_runtime: stats[i].avg_duration_pass,
                    },
                );
                proof {
                    assert(out.deep_view() =~= prev.push(out@.last().deep_view()));
                }
            }
        }
        proof {
            assert(out.deep_view() =~= hooks_of(sv.take(i + 1), name@));
        }
        i = i + 1;
    }
    proof {
        assert(sv.take(n as int) =~= sv);
    }
    out
}

/// The clipped sum of the average durations of the test records with
/// the logical name.
#[verifier::loop_isolation(false)]
fn sum_runtime_for(stats: &Vec<TestStats>, name: &str) -> (r: u64)
    ensures
        r == sat64(sum_test_runtime(stats.deep_view(), name@)),
{
    let ghost sv = stats.deep_view();
    let n = stats.len();
    let mut acc: u64 = 0;
    let mut i: usize = 0;
    while i < n
        invariant
            i <= n,
            acc == sat64(sum_test_runtime(sv.take(i as int), name@)),
        decreases n - i,
    {
        proof {
            assert(sv.take(i + 1).drop_last() =~= sv.take(i as int));
            assert(sv.take(i + 1).last() == sv[i as int]);
            assert(sv[i as int] == stats@[i as int].deep_view());
        }
        if !is_hook(stats[i].test_file.as_str()) {
            let tn = get_test_name(stats[i].test_file.as_str());
            if str_eq(tn.as_str(), name) {
                let d = stats[i].avg_duration_pass;
                if acc > u64::MAX - d {
                    acc = u64::MAX;
                } else {
                    acc = acc + d;
                }
            }
        }
        i = i + 1;
    }
    proof {
        assert(sv.take(n as int) =~= sv);
    }
    acc
}

/// Build the per-test history summary from raw statistics records:
/// records are split into hook records (`test:hook`) and test records;
/// test records are keyed by logical name with colliding durations
/// summed (clipped to 64 bits); each entry carries the hook records
/// whose test portion matches its name.
#[verifier::loop_isolation(false)]
pub fn task_history_from_stats(task: &str, suite: &str, stats: &Vec<TestStats>) -> (r:
    TaskRuntimeHistory)
    ensures
        r.suite_name@ == suite@,
        r.task_name@ == task@,
        forall|i: int, j: int|
            0 <= i < j < r.test_map.deep_view().len() ==> (#[trigger] r.test_map.deep_view()[i]).0
                != (#[trigger] r.test_map.deep_view()[j]).0,
        forall|k: int|
            0 <= k < r.test_map.deep_view().len() ==> {
                let ln = (#[trigger] r.test_map.deep_view()[k]).0;
                let tv = r.test_map.deep_view()[k].1;
                &&& has_test_named(stats.deep_view(), ln)
                &&& tv.average_runtime == sat64(sum_test_runtime(stats.deep_view(), ln))
                &&& tv.hooks == hooks_of(stats.deep_view(), ln)
                &&& exists|i: int|
                    0 <= i < stats.deep_view().len() && !spec_is_hook(
                        (#[trigger] stats.deep_view()[i]).test_file,
                    ) && spec_test_name(stats.deep_view()[i].test_file) == ln
                        && stats.deep_view()[i].test_file == tv.test_name
            },
        forall|i: int|
            0 <= i < stats.deep_view().len() && !spec_is_hook(
                (#[trigger] stats.deep_view()[i]).test_file,
            ) ==> history_get(
                r.test_map.deep_view(),
                spec_test_name(stats.deep_view()[i].test_file),
            ) is Some,
{
    let ghost sv = stats.deep_view();
    let n = stats.len();
    let mut out: Vec<(String, TestRuntimeHistory)> = Vec::new();
    let mut i: usize = 0;
    while i < n
        invariant
            i <= n,
            forall|a: int, b: int|
                0 <= a < b < out.deep_view().len() ==> (#[trigger] out.deep_view()[a]).0 != (
                #[trigger] out.deep_view()[b]).0,
            forall|k: int|
                0 <= k < out.deep_view().len() ==> {
                    let ln = (#[trigger] out.deep_view()[k]).0;
                    let tv = out.deep_view()[k].1;
                    &&& has_test_named(sv, ln)
                    &&& tv.average_runtime == sat64(sum_test_runtime(sv, ln))
                    &&& tv.hooks == hooks_of(sv, ln)
                    &&& exists|a: int|
                        0 <= a < sv.len() && !spec_is_hook((#[trigger] sv[a]).test_file)
                            && spec_test_name(sv[a].test_file) == ln && sv[a].test_file
                            == tv.test_name
                },
            forall|a: int|
                0 <= a < i && !spec_is_hook((#[trigger] sv[a]).test_file) ==> history_get(
                    out.deep_view(),
                    spec_test_name(sv[a].test_file),
                ) is Some,
        decreases n - i,
    {
        proof {
            assert(sv[i as int] == stats@[i as int].deep_view());
        }
        if !is_hook(stats[i].test_file.as_str()) {
            let ln = get_test_name(stats[i].test_file.as_str());
            match history_lookup(&out, ln.as_str()) {
                Some(_) => {
                    // the name is already aggregated: durations of
                    // later records were summed when it was first seen
                },
                None => {
                    let avg = sum_runtime_for(stats, ln.as_str());
                    let hooks = collect_hooks(stats, ln.as_str());
                    let entry = TestRuntimeHistory {
                        test_name: stats[i].test_file.clone(),
                        average_runtime: avg,
                        hooks,
                    };
                    let ghost prev = out.deep_view();
                    proof {
                        lemma_history_none_keys(prev, ln@);
                    }
                    out.push((ln, entry));
                    proof {
                        assert(out.deep_view() =~= prev.push(
                            (out@.last().0@, out@.last().1.deep_view()),
                        ));
                        assert forall|a: int|
                            0 <= a < out.deep_view().len() - 1 implies history_get(
                            out.deep_view(),
                            (#[trigger] out.deep_view()[a]).0,
                        ) is Some by {
                            lemma_history_get_prefix(prev, out.deep_view(), out.deep_view()[a].0);
                        }
                        assert forall|a: int|
                            0 <= a < i + 1 && !spec_is_hook((#[trigger] sv[a]).test_file) implies
                        history_get(out.deep_view(), spec_test_name(sv[a].test_file)) is Some by {
                            if history_get(prev, spec_test_name(sv[a].test_file)) is Some {
                                lemma_history_get_extend(prev, spec_test_name(sv[a].test_file), (
                                    out.deep_view().last().0,
                                    out.deep_view().last().1,
                                ));
                            } else {
                                if spec_test_name(sv[a].test_file) != ln@ {
                                    lemma_history_get_extend_none(
                                        prev,
                                        spec_test_name(sv[a].test_file),
                                        (out.deep_view().last().0, out.deep_view().last().1),
                                    );
                                } else {
                                    lemma_history_get_extend_hit(prev, ln@, out.deep_view().last().1);
                                }
                            }
                        }
                    }
                },
            }
        }
        i = i + 1;
    }
    proof {
        assert forall|a: int|
            0 <= a < sv.len() && !spec_is_hook((#[trigger] sv[a]).test_file) implies history_get(
            out.deep_view(),
            spec_test_name(sv[a].test_file),
        ) is Some by {}
    }
    TaskRuntimeHistory { suite_name: suite.to_owned(), task_name: task.to_owned(), test_map: out }
}

proof fn lemma_history_none_keys(m: Seq<(Seq<char>, TestRuntimeHistoryView)>, name: Seq<char>)
    requires
        history_get(m, name) is None,
    ensures
        forall|j: int| 0 <= j < m.len() ==> (#[trigger] m[j]).0 != name,
    decreases m.len(),
{
    if m.len() > 0 {
        lemma_history_none_keys(m.drop_first(), name);
        assert forall|j: int| 0 <= j < m.len() implies (#[trigger] m[j]).0 != name by {
            if j > 0 {
                assert(m.drop_first()[j - 1] == m[j]);
            }
        }
    }
}

/// Lookup that succeeds in a prefix also succeeds in the whole.
proof fn lemma_history_get_prefix(
    m: Seq<(Seq<char>, TestRuntimeHistoryView)>,
    w: Seq<(Seq<char>, TestRuntimeHistoryView)>,
    name: Seq<char>,
)
    requires
        w.len() == m.len() + 1,
        forall|j: int| 0 <= j < m.len() ==> #[trigger] w[j] == m[j],
        exists|j: int| 0 <= j < w.len() && (#[trigger] w[j]).0 == name,
    ensures
        history_get(w, name) is Some,
    decreases m.len(),
{
    let j = choose|j: int| 0 <= j < w.len() && (#[trigger] w[j]).0 == name;
    lemma_history_get_some_if_key(w, name, j);
}

proof fn lemma_history_get_some_if_key(
    m: Seq<(Seq<char>, TestRuntimeHistoryView)>,
    name: Seq<char>,
    j: int,
)
    requires
        0 <= j < m.len(),
        m[j].0 == name,
    ensures
        history_get(m, name) is Some,
    decreases j,
{
    if m[0].0 != name {
        assert(m.drop_first()[j - 1] == m[j]);
        lemma_history_get_some_if_key(m.drop_first(), name, j - 1);
    }
}

/// Appending an entry keeps every earlier lookup result.
proof fn lemma_history_get_extend(
    m: Seq<(Seq<char>, TestRuntimeHistoryView)>,
    name: Seq<char>,
    e: (Seq<char>, TestRuntimeHistoryView),
)
    requires
        history_get(m, name) is Some,
    ensures
        history_get(m.push(e), name) == history_get(m, name),
    decreases m.len(),
{
    if m.len() > 0 {
        if m[0].0 != name {
            lemma_history_get_extend(m.drop_first(), name, e);
            assert(m.push(e).drop_first() =~= m.drop_first().push(e));
        } else {
            assert(m.push(e)[0] == m[0]);
        }
    }
}

/// Appending an entry with another key keeps a failed lookup failed.
proof fn lemma_history_get_extend_none(
    m: Seq<(Seq<char>, TestRuntimeHistoryView)>,
    name: Seq<char>,
    e: (Seq<char>, TestRuntimeHistoryView),
)
    requires
        history_get(m, name) is None,
        e.0 != name,
    ensures
        history_get(m.push(e), name) is None,
    decreases m.len(),
{
    if m.len() == 0 {
        assert(m.push(e)[0] == e);
        assert(m.push(e).drop_first() =~= Seq::<(Seq<char>, TestRuntimeHistoryView)>::empty());
        assert(history_get(Seq::<(Seq<char>, TestRuntimeHistoryView)>::empty(), name) is None);
    } else {
        lemma_history_get_extend_none(m.drop_first(), name, e);
        assert(m.push(e).drop_first() =~= m.drop_first().push(e));
    }
}

/// Appending an entry for a missing key makes its lookup succeed.
proof fn lemma_history_get_extend_hit(
    m: Seq<(Seq<char>, TestRuntimeHistoryView)>,
    name: Seq<char>,
    v: TestRuntimeHistoryView,
)
    requires
        history_get(m, name) is None,
    ensures
        history_get(m.push((name, v)), name) == Some(v),
    decreases m.len(),
{
    if m.len() == 0 {
        assert(m.push((name, v))[0] == (name, v));
    } else {
        lemma_history_get_extend_hit(m.drop_first(), name, v);
        assert(m.push((name, v)).drop_first() =~= m.drop_first().push((name, v)));
    }
}

/// A civil date.
#[derive(Debug, Clone, Copy)]
pub struct Date {
    pub year: u32,
    pub month: u8,
    pub day: u8,
}

pub open spec fn is_leap_year(y: u32) -> bool {
    y % 4 == 0 && (y % 100 != 0 || y % 400 == 0)
}

pub open spec fn days_in_month(y: u32, m: u8) -> u8 {
    if m == 2 {
        if is_leap_year(y) {
            29
        } else {
            28
        }
    } else if m == 4 || m == 6 || m == 9 || m == 11 {
        30
    } else {
        31
    }
}

pub open spec fn valid_date(d: Date) -> bool {
    1 <= d.year && 1 <= d.month <= 12 && 1 <= d.day <= days_in_month(d.year, d.month)
}

/// The day before.
pub open spec fn spec_prev_day(d: Date) -> Date {
    if d.day > 1 {
        Date { year: d.year, month: d.month, day: (d.day - 1) as u8 }
    } else if d.month > 1 {
        Date {
            year: d.year,
            month: (d.month - 1) as u8,
            day: days_in_month(d.year, (d.month - 1) as u8),
        }
    } else {
        Date { year: (d.year - 1) as u32, month: 12, day: 31 }
    }
}

/// The date `n` days earlier.
pub open spec fn spec_days_back(d: Date, n: nat) -> Date
    decreases n,
{
    if n == 0 {
        d
    } else {
        spec_days_back(spec_prev_day(d), (n - 1) as nat)
    }
}

fn prev_day(d: Date) -> (r: Date)
    requires
        valid_date(d),
        d.year >= 2,
    ensures
        r == spec_prev_day(d),
        valid_date(r),
        r.year >= d.year - 1,
{
    if d.day > 1 {
        Date { year: d.year, month: d.month, day: d.day - 1 }
    } else if d.month > 1 {
        let pm = d.month - 1;
        let dim: u8 = if pm == 2 {
            if d.year % 4 == 0 && (d.year % 100 != 0 || d.year % 400 == 0) {
                29
            } else {
                28
            }
        } else if pm == 4 || pm == 6 || pm == 9 || pm == 11 {
            30
        } else {
            31
        };
        Date { year: d.year, month: pm, day: dim }
    } else {
        Date { year: d.year - 1, month: 12, day: 31 }
    }
}

/// The date `n` days before `d`.
pub fn days_back(d: Date, n: u32) -> (r: Date)
    requires
        valid_date(d),
        d.year > n,
    ensures
        r == spec_days_back(d, n as nat),
        valid_date(r),
    decreases n,
{
    let mut cur = d;
    let mut k: u32 = 0;
    while k < n
        invariant
            k <= n,
            d.year > n,
            valid_date(cur),
            cur.year >= d.year - k,
            spec_days_back(cur, (n - k) as nat) == spec_days_back(d, n as nat),
        decreases n - k,
    {
        cur = prev_day(cur);
        k = k + 1;
    }
    cur
}

/// A date written `YYYY-MM-DD`, each field zero-padded.
pub open spec fn spec_format_date(d: Date) -> Seq<char> {
    dec_padded(d.year as nat, 4) + seq!['-'] + dec_padded(d.month as nat, 2) + seq!['-']
        + dec_padded(d.day as nat, 2)
}

/// Render a date as `YYYY-MM-DD`.
pub fn format_date(d: Date) -> (r: String)
    ensures
        r@ == spec_format_date(d),
{
    proof {
        reveal_strlit("-");
        assert("-"@ =~= seq!['-']);
    }
    let y = u64_to_dec_padded(d.year as u64, 4);
    let m = u64_to_dec_padded(d.month as u64, 2);
    let dd = u64_to_dec_padded(d.day as u64, 2);
    let mut out = y;
    out.append("-");
    out.append(m.as_str());
    out.append("-");
    out.append(dd.as_str());
    out
}

/// A test-stats query to the CI service: a rolling window ending
/// today, grouped as one bucket.
#[derive(Debug, Clone)]
pub struct TestStatsRequest {
    pub after_date: String,
    pub before_date: String,
    pub group_num_days: u64,
    pub variants: String,
    pub tasks: String,
}

/// Relies on `chrono::Utc::now` and `chrono::Datelike`: the current
/// civil date in UTC; the month is within 1..=12 and the day within
/// 1..=31, as the documentation states.
#[verifier::external_body]
fn today_utc() -> (r: (i32, u32, u32))
    ensures
        1 <= r.1 <= 12,
        1 <= r.2 <= 31,
{
    let now = chrono::Utc::now().date_naive();
    (now.year(), now.month(), now.day())
}

/// The length of the statistics window, in days.
pub open spec fn history_window_days() -> nat {
    14
}

/// The request for the history of a task on a variant, for the window
/// of the past `history_window_days()` days ending at `today`.
pub fn build_stats_request(task: &str, variant: &str, today: Date) -> (r: TestStatsRequest)
    requires
        valid_date(today),
        15 <= today.year <= 9999,
    ensures
        r.after_date@ == spec_format_date(spec_days_back(today, history_window_days())),
        r.before_date@ == spec_format_date(today),
        r.group_num_days == history_window_days(),
        r.variants@ == variant@,
        r.tasks@ == task@,
{
    let start = days_back(today, 14);
    TestStatsRequest {
        after_date: format_date(start),
        before_date: format_date(today),
        group_num_days: 14,
        variants: variant.to_owned(),
        tasks: task.to_owned(),
    }
}

/// Whether a drawn calendar triple can anchor a statistics window:
/// within the supported years and an existing day of its month.
pub open spec fn spec_request_date_ok(y: int, m: int, d: int) -> bool {
    &&& 15 <= y <= 9999
    &&& 1 <= m <= 12
    &&& 1 <= d <= 31
    &&& d <= days_in_month(y as u32, m as u8)
}

/// What `stats_request_for` yields for a drawn calendar triple: a
/// request exactly when the triple anchors a window, and then exactly
/// the 14-day window ending on it.
pub open spec fn spec_stats_request_for(
    task: Seq<char>,
    variant: Seq<char>,
    y: int,
    m: int,
    d: int,
    r: Option<TestStatsRequest>,
) -> bool {
    match r {
        Some(req) => spec_request_date_ok(y, m, d) && ({
            let today = Date { year: y as u32, month: m as u8, day: d as u8 };
            &&& req.after_date@ == spec_format_date(spec_days_back(today, history_window_days()))
            &&& req.before_date@ == spec_format_date(today)
            &&& req.group_num_days == history_window_days()
            &&& req.variants@ == variant
            &&& req.tasks@ == task
        }),
        None => !spec_request_date_ok(y, m, d),
    }
}

/// The history request anchored on the given calendar triple: a
/// request if and only if the triple is within the supported years
/// and an existing day of its month.
pub fn stats_request_for(task: &str, variant: &str, y: i32, m: u32, d: u32) -> (r: Option<
    TestStatsRequest,
>)
    ensures
        spec_stats_request_for(task@, variant@, y as int, m as int, d as int, r),
        r is Some <==> spec_request_date_ok(y as int, m as int, d as int),
{
    if y < 15 || y > 9999 || m < 1 || m > 12 || d < 1 || d > 31 {
        return None;
    }
    let today = Date { year: y as u32, month: m as u8, day: d as u8 };
    let dim: u8 = if today.month == 2 {
        if today.year % 4 == 0 && (today.year % 100 != 0 || today.year % 400 == 0) {
            29
        } else {
            28
        }
    } else if today.month == 4 || today.month == 6 || today.month == 9 || today.month == 11 {
        30
    } else {
        31
    };
    if today.day > dim {
        return None;
    }
    Some(build_stats_request(task, variant, today))
}

/// The request for the history window ending at the current date: the
/// clock is drawn once, and the result is exactly what
/// `stats_request_for` yields for the drawn triple — nothing when the
/// clock is outside the supported years.
pub fn current_stats_request(task: &str, variant: &str) -> (r: Option<TestStatsRequest>)
    ensures
        exists|y: int, m: int, d: int|
            1 <= m <= 12 && 1 <= d <= 31 && #[trigger] spec_stats_request_for(
                task@,
                variant@,
                y,
                m,
                d,
                r,
            ),
{
    let (y, m, d) = today_utc();
    let r = stats_request_for(task, variant, y, m, d);
    proof {
        assert(spec_stats_request_for(task@, variant@, y as int, m as int, d as int, r));
    }
    r
}

} // verus!
