//! The decision core of the orchestrator: aggregation of generated
//! sub-tasks, references and display tasks into the output document,
//! and the memo that hands every variant of a task the one split.
use vstd::prelude::*;

use crate::evg_model::{
    BuildVariant, DisplayTask, DisplayTaskView, EvgTask, TaskRef, TaskRefView,
};
use crate::split_tasks::{
    spec_sub_task, GeneratedSuite, GeneratedSuiteView, ResmokeGenParams, SubSuite,
};
use crate::strings::str_eq;
use crate::task_types::fuzzer_tasks::FuzzerTask;

verus! {

/// Whether every reference is created deactivated.
pub open spec fn all_refs_inactive(specs: Seq<TaskRefView>) -> bool {
    forall|i: int| 0 <= i < specs.len() ==> (#[trigger] specs[i]).activate == Some(false)
}

/// The aggregate a generation run builds up: task definitions, task
/// references and display tasks, in arrival order.
#[derive(Debug)]
pub struct GeneratedConfig {
    pub gen_task_def: Vec<EvgTask>,
    pub gen_task_specs: Vec<TaskRef>,
    pub display_tasks: Vec<DisplayTask>,
}

impl GeneratedConfig {
    pub open spec fn refs_inactive(&self) -> bool {
        all_refs_inactive(self.gen_task_specs.deep_view())
    }

    pub fn new() -> (r: Self)
        ensures
            r.gen_task_def.deep_view() == Seq::<crate::evg_model::EvgTaskView>::empty(),
            r.gen_task_specs.deep_view() == Seq::<TaskRefView>::empty(),
            r.display_tasks.deep_view() == Seq::<DisplayTaskView>::empty(),
            r.refs_inactive(),
    {
        let r = GeneratedConfig {
            gen_task_def: Vec::new(),
            gen_task_specs: Vec::new(),
            display_tasks: Vec::new(),
        };
        proof {
            assert(r.gen_task_def.deep_view()
                =~= Seq::<crate::evg_model::EvgTaskView>::empty());
            assert(r.gen_task_specs.deep_view() =~= Seq::<TaskRefView>::empty());
            assert(r.display_tasks.deep_view() =~= Seq::<DisplayTaskView>::empty());
        }
        r
    }

    /// Record a split suite: its references and display task always;
    /// its task definitions only the first time the task is seen
    /// across all variants.
    pub fn add_generated_suite(
        &mut self,
        gen_suite: &GeneratedSuite,
        gen_params: &ResmokeGenParams,
        include_definitions: bool,
    )
        ensures
            final(self).gen_task_def.deep_view() == old(self).gen_task_def.deep_view() + (
            if include_definitions {
                Seq::new(
                    gen_suite.sub_suites.deep_view().len(),
                    |k: int|
                        spec_sub_task(
                            gen_suite.sub_suites.deep_view()[k].name,
                            gen_params.deep_view(),
                        ),
                )
            } else {
                Seq::<crate::evg_model::EvgTaskView>::empty()
            }),
            final(self).gen_task_specs.deep_view() == old(self).gen_task_specs.deep_view()
                + Seq::new(
                gen_suite.sub_suites.deep_view().len(),
                |k: int|
                    TaskRefView {
                        name: gen_suite.sub_suites.deep_view()[k].name,
                        distros: None,
                        activate: Some(false),
                    },
            ),
            final(self).display_tasks.deep_view() == old(self).display_tasks.deep_view().push(
                DisplayTaskView {
                    name: gen_suite.task_name@,
                    execution_tasks: Seq::new(
                        gen_suite.sub_suites.deep_view().len(),
                        |k: int| gen_suite.sub_suites.deep_view()[k].name,
                    ),
                },
            ),
            old(self).refs_inactive() ==> final(self).refs_inactive(),
    {
        let ghost old_defs = self.gen_task_def.deep_view();
        let ghost old_specs = self.gen_task_specs.deep_view();
        let ghost old_display = self.display_tasks.deep_view();
        if include_definitions {
            let mut defs = gen_suite.execution_tasks(gen_params);
            let ghost defs_v = defs.deep_view();
            self.gen_task_def.append(&mut defs);
            proof {
                lemma_deep_view_append(old(self).gen_task_def@, defs@);
                assert(self.gen_task_def.deep_view() =~= old_defs + defs_v);
                assert(defs_v =~= Seq::new(
                    gen_suite.sub_suites.deep_view().len(),
                    |k: int|
                        spec_sub_task(
                            gen_suite.sub_suites.deep_view()[k].name,
                            gen_params.deep_view(),
                        ),
                ));
            }
        } else {
            proof {
                assert(self.gen_task_def.deep_view() =~= old_defs
                    + Seq::<crate::evg_model::EvgTaskView>::empty());
            }
        }
        let mut refs = gen_suite.task_refs();
        let ghost refs_v = refs.deep_view();
        self.gen_task_specs.append(&mut refs);
        let display = gen_suite.display_task();
        let ghost prev_display = self.display_tasks.deep_view();
        self.display_tasks.push(display);
        proof {
            lemma_deep_view_append(old(self).gen_task_specs@, refs@);
            assert(self.gen_task_specs.deep_view() =~= old_specs + refs_v);
            assert(refs_v =~= Seq::new(
                gen_suite.sub_suites.deep_view().len(),
                |k: int|
                    TaskRefView {
                        name: gen_suite.sub_suites.deep_view()[k].name,
                        distros: None,
                        activate: Some(false),
                    },
            ));
            assert(self.display_tasks.deep_view() =~= prev_display.push(
                self.display_tasks@.last().deep_view(),
            ));
        }
    }

    /// Record an expanded fuzzer task: its definitions, references and
    /// display task.
    pub fn add_fuzzer_task(&mut self, generated_task: FuzzerTask)
        ensures
            final(self).gen_task_specs.deep_view() == old(self).gen_task_specs.deep_view()
                + Seq::new(
                generated_task.sub_tasks.deep_view().len(),
                |k: int|
                    TaskRefView {
                        name: generated_task.sub_tasks.deep_view()[k].name,
                        distros: None,
                        activate: Some(false),
                    },
            ),
            final(self).display_tasks.deep_view() == old(self).display_tasks.deep_view().push(
                DisplayTaskView {
                    name: generated_task.task_name@,
                    execution_tasks: Seq::new(
                        generated_task.sub_tasks.deep_view().len(),
                        |k: int| generated_task.sub_tasks.deep_view()[k].name,
                    ),
                },
            ),
            final(self).gen_task_def.deep_view() == old(self).gen_task_def.deep_view()
                + generated_task.sub_tasks.deep_view(),
            old(self).refs_inactive() ==> final(self).refs_inactive(),
    {
        let ghost old_defs = self.gen_task_def.deep_view();
        let ghost old_specs = self.gen_task_specs.deep_view();
        let mut refs = generated_task.build_task_ref();
        let ghost refs_v = refs.deep_view();
        self.gen_task_specs.append(&mut refs);
        let display = generated_task.build_display_task();
        let ghost prev_display = self.display_tasks.deep_view();
        self.display_tasks.push(display);
        let mut task = generated_task;
        let ghost subs_v = task.sub_tasks.deep_view();
        self.gen_task_def.append(&mut task.sub_tasks);
        proof {
            lemma_deep_view_append(old(self).gen_task_specs@, refs@);
            assert(self.gen_task_specs.deep_view() =~= old_specs + refs_v);
            assert(refs_v =~= Seq::new(
                subs_v.len(),
                |k: int|
                    TaskRefView { name: subs_v[k].name, distros: None, activate: Some(false) },
            ));
            assert(self.display_tasks.deep_view() =~= prev_display.push(
                self.display_tasks@.last().deep_view(),
            ));
            lemma_deep_view_append(old(self).gen_task_def@, task.sub_tasks@);
            assert(self.gen_task_def.deep_view() =~= old_defs + subs_v);
        }
    }

    /// Record the display task naming every generator task seen.
    pub fn add_generator_tasks(&mut self, found_tasks: Vec<String>)
        ensures
            final(self).gen_task_def.deep_view() == old(self).gen_task_def.deep_view(),
            final(self).gen_task_specs.deep_view() == old(self).gen_task_specs.deep_view(),
            final(self).display_tasks.deep_view() == old(self).display_tasks.deep_view().push(
                DisplayTaskView {
                    name: "generator_tasks"@,
                    execution_tasks: found_tasks.deep_view(),
                },
            ),
            old(self).refs_inactive() ==> final(self).refs_inactive(),
    {
        let ghost prev_display = self.display_tasks.deep_view();
        self.display_tasks.push(
            DisplayTask { name: "generator_tasks".to_owned(), execution_tasks: found_tasks },
        );
        proof {
            assert(self.display_tasks.deep_view() =~= prev_display.push(
                self.display_tasks@.last().deep_view(),
            ));
        }
    }

    /// Turn the aggregate into the output build variant and the task
    /// definitions that accompany it. Every reference the variant
    /// holds is deactivated.
    pub fn into_build_variant(self, bv_name: &str, activate: Option<bool>) -> (r: (
        BuildVariant,
        Vec<EvgTask>,
    ))
        ensures
            r.0.name@ == bv_name@,
            r.0.tasks.deep_view() == self.gen_task_specs.deep_view(),
            r.0.display_tasks.deep_view() == Some(self.display_tasks.deep_view()),
            r.0.activate == activate,
            r.0.expansions is None,
            r.1.deep_view() == self.gen_task_def.deep_view(),
            self.refs_inactive() ==> forall|i: int|
                0 <= i < r.0.tasks.deep_view().len() ==> (#[trigger] r.0.tasks.deep_view()[
                i]).activate == Some(false),
    {
        let bv = BuildVariant {
            name: bv_name.to_owned(),
            tasks: self.gen_task_specs,
            display_tasks: Some(self.display_tasks),
            activate,
            expansions: None,
        };
        (bv, self.gen_task_def)
    }
}

/// Element views concatenate when vectors do.
proof fn lemma_deep_view_append<T: DeepView>(a: Seq<T>, b: Seq<T>)
    ensures
        Seq::new((a + b).len(), |i: int| (a + b)[i].deep_view()) == Seq::new(
            a.len(),
            |i: int| a[i].deep_view(),
        ) + Seq::new(b.len(), |i: int| b[i].deep_view()),
{
    assert(Seq::new((a + b).len(), |i: int| (a + b)[i].deep_view()) =~= Seq::new(
        a.len(),
        |i: int| a[i].deep_view(),
    ) + Seq::new(b.len(), |i: int| b[i].deep_view()));
}

/// The decision the memo hands a caller.
#[derive(Debug)]
pub enum MemoDecision {
    /// The split is already published: here it is.
    Ready(GeneratedSuite),
    /// Another caller is producing it: wait for the publication.
    Wait,
    /// The caller is the first: it must produce and publish the split.
    Produce,
}

pub enum MemoDecisionView {
    Ready(GeneratedSuiteView),
    Wait,
    Produce,
}

impl DeepView for MemoDecision {
    type V = MemoDecisionView;

    open spec fn deep_view(&self) -> MemoDecisionView {
        match self {
            MemoDecision::Ready(g) => MemoDecisionView::Ready(g.deep_view()),
            MemoDecision::Wait => MemoDecisionView::Wait,
            MemoDecision::Produce => MemoDecisionView::Produce,
        }
    }
}

/// The state of the per-task memo.
pub struct MemoView {
    pub generated: Seq<(Seq<char>, GeneratedSuiteView)>,
    pub waiting: Seq<Seq<char>>,
}

/// The published split of a task, if any: the first publication wins.
pub open spec fn memo_get(m: MemoView, k: Seq<char>) -> Option<GeneratedSuiteView>
    decreases m.generated.len(),
{
    if m.generated.len() == 0 {
        None
    } else if m.generated[0].0 == k {
        Some(m.generated[0].1)
    } else {
        memo_get(MemoView { generated: m.generated.drop_first(), waiting: m.waiting }, k)
    }
}

/// Whether the memo has seen the task: published or in flight.
pub open spec fn memo_knows(m: MemoView, k: Seq<char>) -> bool {
    memo_get(m, k) is Some || m.waiting.contains(k)
}

/// What a caller asking for task `k` is told.
pub open spec fn memo_decision(m: MemoView, k: Seq<char>) -> MemoDecisionView {
    match memo_get(m, k) {
        Some(g) => MemoDecisionView::Ready(g),
        None => if m.waiting.contains(k) {
            MemoDecisionView::Wait
        } else {
            MemoDecisionView::Produce
        },
    }
}

/// The memo state after a caller asked for task `k`.
pub open spec fn memo_after_ask(m: MemoView, k: Seq<char>) -> MemoView {
    if memo_knows(m, k) {
        m
    } else {
        MemoView { generated: m.generated, waiting: m.waiting.push(k) }
    }
}

/// The memo state after the split of task `k` is published.
pub open spec fn memo_after_publish(m: MemoView, k: Seq<char>, g: GeneratedSuiteView) -> MemoView {
    MemoView { generated: m.generated.push((k, g)), waiting: m.waiting }
}

/// Memoization: a task the memo has seen is never produced again, so
/// at most one caller per task is told to produce — one history fetch
/// and one split for every short task name.
pub proof fn lemma_memo_known_never_produces(m: MemoView, k: Seq<char>)
    requires
        memo_knows(m, k),
    ensures
        memo_decision(m, k) != MemoDecisionView::Produce,
{
}

/// Asking and publishing never make the memo forget a task, so the
/// producer of a task stays unique across any later traffic.
pub proof fn lemma_memo_steps_preserve_knowledge(
    m: MemoView,
    k: Seq<char>,
    k2: Seq<char>,
    g: GeneratedSuiteView,
)
    requires
        memo_knows(m, k),
    ensures
        memo_knows(memo_after_ask(m, k2), k),
        memo_knows(memo_after_publish(m, k2, g), k),
{
    lemma_memo_get_after_push(m, k, k2, g);
    if !memo_knows(m, k2) {
        assert(memo_after_ask(m, k2).waiting == m.waiting.push(k2));
        if m.waiting.contains(k) {
            let j = choose|j: int| 0 <= j < m.waiting.len() && m.waiting[j] == k;
            assert(m.waiting.push(k2)[j] == k);
        }
    }
}

/// A published split is never displaced: every caller that is told
/// `Ready` observes the same split.
pub proof fn lemma_memo_ready_stable(m: MemoView, k: Seq<char>, k2: Seq<char>, g: GeneratedSuiteView)
    requires
        memo_get(m, k) is Some,
    ensures
        memo_get(memo_after_ask(m, k2), k) == memo_get(m, k),
        memo_get(memo_after_publish(m, k2, g), k) == memo_get(m, k),
{
    lemma_memo_get_after_push(m, k, k2, g);
}

proof fn lemma_memo_get_after_push(m: MemoView, k: Seq<char>, k2: Seq<char>, g: GeneratedSuiteView)
    ensures
        memo_get(m, k) is Some ==> memo_get(memo_after_publish(m, k2, g), k) == memo_get(m, k),
        memo_get(memo_after_ask(m, k2), k) == memo_get(m, k),
    decreases m.generated.len(),
{
    if memo_get(m, k) is Some {
        if m.generated.len() > 0 {
            if m.generated[0].0 != k {
                let m1 = MemoView { generated: m.generated.drop_first(), waiting: m.waiting };
                lemma_memo_get_after_push(m1, k, k2, g);
                assert(m.generated.push((k2, g)).drop_first() =~= m.generated.drop_first().push(
                    (k2, g),
                ));
            } else {
                assert(m.generated.push((k2, g))[0] == m.generated[0]);
            }
        }
    }
    if !memo_knows(m, k2) {
        assert(memo_after_ask(m, k2).generated == m.generated);
        lemma_memo_get_waiting_irrelevant(m.generated, m.waiting, m.waiting.push(k2), k);
    }
}

proof fn lemma_memo_get_waiting_irrelevant(
    gen: Seq<(Seq<char>, GeneratedSuiteView)>,
    w1: Seq<Seq<char>>,
    w2: Seq<Seq<char>>,
    k: Seq<char>,
)
    ensures
        memo_get(MemoView { generated: gen, waiting: w1 }, k) == memo_get(
            MemoView { generated: gen, waiting: w2 },
            k,
        ),
    decreases gen.len(),
{
    if gen.len() > 0 && gen[0].0 != k {
        lemma_memo_get_waiting_irrelevant(gen.drop_first(), w1, w2, k);
    }
}

/// The per-task memo: the splits published so far and the tasks whose
/// split is in flight.
#[derive(Debug)]
pub struct GenTaskMemo {
    generated: Vec<(String, GeneratedSuite)>,
    waiting: Vec<String>,
}

impl GenTaskMemo {
    pub closed spec fn view_state(&self) -> MemoView {
        MemoView { generated: self.generated.deep_view(), waiting: self.waiting.deep_view() }
    }

    pub fn new() -> (r: Self)
        ensures
            r.view_state().generated.len() == 0,
            r.view_state().waiting.len() == 0,
    {
        let r = GenTaskMemo { generated: Vec::new(), waiting: Vec::new() };
        proof {
            assert(r.generated.deep_view().len() == 0);
            assert(r.waiting.deep_view().len() == 0);
        }
        r
    }

    /// Ask for the split of a task: the published split when there is
    /// one; `Wait` when another caller is producing it; `Produce`,
    /// exactly for the first caller, otherwise.
    #[verifier::loop_isolation(false)]
    pub fn get_or_start(&mut self, task_name: &str) -> (r: MemoDecision)
        ensures
            r.deep_view() == memo_decision(old(self).view_state(), task_name@),
            final(self).view_state() == memo_after_ask(old(self).view_state(), task_name@),
    {
        let ghost m0 = self.view_state();
        let n = self.generated.len();
        let mut i: usize = 0;
        while i < n
            invariant
                n == self.generated.len(),
                i <= n,
                m0 == self.view_state(),
                forall|j: int| 0 <= j < i ==> self.generated@[j].0@ != task_name@,
            decreases n - i,
        {
            if str_eq(self.generated[i].0.as_str(), task_name) {
                let found = clone_generated_suite(&self.generated[i].1);
                proof {
                    assert(self.generated.deep_view()[i as int] == (
                        self.generated@[i as int].0@,
                        self.generated@[i as int].1.deep_view(),
                    ));
                    lemma_memo_get_at(m0, task_name@, i as int);
                }
                return MemoDecision::Ready(found);
            }
            i = i + 1;
        }
        proof {
            assert(forall|j: int|
                0 <= j < self.generated@.len() ==> (#[trigger] self.generated.deep_view()[j]).0
                    == self.generated@[j].0@);
            lemma_memo_get_missing(m0, task_name@);
        }
        let mut w: usize = 0;
        let nw = self.waiting.len();
        while w < nw
            invariant
                nw == self.waiting.len(),
                w <= nw,
                m0 == self.view_state(),
                forall|j: int| 0 <= j < w ==> self.waiting@[j]@ != task_name@,
            decreases nw - w,
        {
            if str_eq(self.waiting[w].as_str(), task_name) {
                proof {
                    assert(self.waiting.deep_view()[w as int] == self.waiting@[w as int]@);
                    assert(m0.waiting.contains(task_name@));
                }
                return MemoDecision::Wait;
            }
            w = w + 1;
        }
        proof {
            assert(forall|j: int|
                0 <= j < self.waiting@.len() ==> #[trigger] self.waiting.deep_view()[j]
                    == self.waiting@[j]@);
            if m0.waiting.contains(task_name@) {
                let j = choose|j: int|
                    0 <= j < m0.waiting.len() && m0.waiting[j] == task_name@;
                assert(self.waiting@[j]@ != task_name@);
            }
        }
        let ghost prev_w = self.waiting.deep_view();
        self.waiting.push(task_name.to_owned());
        proof {
            assert(self.waiting.deep_view() =~= prev_w.push(task_name@));
        }
        MemoDecision::Produce
    }

    /// Publish the split of a task and let every waiting caller read
    /// it.
    pub fn publish(&mut self, task_name: &str, gen_suite: GeneratedSuite)
        ensures
            final(self).view_state() == memo_after_publish(
                old(self).view_state(),
                task_name@,
                gen_suite.deep_view(),
            ),
    {
        let ghost prev = self.generated.deep_view();
        self.generated.push((task_name.to_owned(), gen_suite));
        proof {
            assert(self.generated.deep_view() =~= prev.push(
                (self.generated@.last().0@, self.generated@.last().1.deep_view()),
            ));
        }
    }
}

proof fn lemma_memo_get_at(m: MemoView, k: Seq<char>, i: int)
    requires
        0 <= i < m.generated.len(),
        m.generated[i].0 == k,
        forall|j: int| 0 <= j < i ==> m.generated[j].0 != k,
    ensures
        memo_get(m, k) == Some(m.generated[i].1),
    decreases i,
{
    if i > 0 {
        lemma_memo_get_at(MemoView { generated: m.generated.drop_first(), waiting: m.waiting }, k, i - 1);
    }
}

proof fn lemma_memo_get_missing(m: MemoView, k: Seq<char>)
    requires
        forall|j: int| 0 <= j < m.generated.len() ==> (#[trigger] m.generated[j]).0 != k,
    ensures
        memo_get(m, k) is None,
    decreases m.generated.len(),
{
    if m.generated.len() > 0 {
        lemma_memo_get_missing(
            MemoView { generated: m.generated.drop_first(), waiting: m.waiting },
            k,
        );
    }
}

/// A copy of a sub-suite with the same value.
fn clone_sub_suite(s: &SubSuite) -> (r: SubSuite)
    ensures
        r.deep_view() == s.deep_view(),
{
    let n = s.test_list.len();
    let mut tests: Vec<String> = Vec::new();
    let mut i: usize = 0;
    while i < n
        invariant
            n == s.test_list.len(),
            i <= n,
            tests@.len() == i,
            forall|j: int| 0 <= j < i ==> #[trigger] tests@[j]@ == s.test_list@[j]@,
        decreases n - i,
    {
        tests.push(s.test_list[i].clone());
        i = i + 1;
    }
    let r = SubSuite { name: s.name.clone(), test_list: tests };
    proof {
        assert(r.test_list.deep_view() =~= s.test_list.deep_view());
    }
    r
}

/// A copy of a generated suite with the same value.
pub fn clone_generated_suite(g: &GeneratedSuite) -> (r: GeneratedSuite)
    ensures
        r.deep_view() == g.deep_view(),
{
    let n = g.sub_suites.len();
    let mut subs: Vec<SubSuite> = Vec::new();
    let mut i: usize = 0;
    while i < n
        invariant
            n == g.sub_suites.len(),
            i <= n,
            subs.deep_view().len() == i,
            forall|j: int|
                0 <= j < i ==> #[trigger] subs.deep_view()[j] == g.sub_suites.deep_view()[j],
        decreases n - i,
    {
        let ghost prev = subs.deep_view();
        subs.push(clone_sub_suite(&g.sub_suites[i]));
        proof {
            assert(subs.deep_view() =~= prev.push(subs@.last().deep_view()));
            assert(g.sub_suites.deep_view()[i as int] == g.sub_suites@[i as int].deep_view());
        }
        i = i + 1;
    }
    let r = GeneratedSuite {
        task_name: g.task_name.clone(),
        suite_name: g.suite_name.clone(),
        sub_suites: subs,
    };
    proof {
        assert(r.sub_suites.deep_view() =~= g.sub_suites.deep_view());
    }
    r
}

} // verus!
