//! Model of the CI project configuration: tasks, commands, task
//! references, display tasks, build variants and the project document.
//! The binaries convert between these and the wire representation.
use vstd::prelude::*;

verus! {

/// A value passed to a function call in the project configuration.
#[derive(Debug, Clone)]
pub enum ParamValue {
    Str(String),
    Bool(bool),
    UInt(u64),
}

/// The mathematical value of a `ParamValue`.
pub enum ParamVal {
    Str(Seq<char>),
    Bool(bool),
    UInt(u64),
}

impl DeepView for ParamValue {
    type V = ParamVal;

    open spec fn deep_view(&self) -> ParamVal {
        match self {
            ParamValue::Str(s) => ParamVal::Str(s@),
            ParamValue::Bool(b) => ParamVal::Bool(*b),
            ParamValue::UInt(u) => ParamVal::UInt(*u),
        }
    }
}

/// A call of a named project function, with its variables.
#[derive(Debug, Clone)]
pub struct FunctionCall {
    pub func: String,
    pub vars: Option<Vec<(String, ParamValue)>>,
}

pub struct FunctionCallView {
    pub func: Seq<char>,
    pub vars: Option<Seq<(Seq<char>, ParamVal)>>,
}

impl DeepView for FunctionCall {
    type V = FunctionCallView;

    open spec fn deep_view(&self) -> FunctionCallView {
        FunctionCallView { func: self.func@, vars: self.vars.deep_view() }
    }
}

/// A command of a task: this model only holds function calls.
#[derive(Debug, Clone)]
pub enum EvgCommand {
    Function(FunctionCall),
}

impl DeepView for EvgCommand {
    type V = FunctionCallView;

    open spec fn deep_view(&self) -> FunctionCallView {
        match self {
            EvgCommand::Function(f) => f.deep_view(),
        }
    }
}

#[derive(Debug, Clone)]
pub struct TaskDependency {
    pub name: String,
    pub variant: Option<String>,
}

pub struct TaskDependencyView {
    pub name: Seq<char>,
    pub variant: Option<Seq<char>>,
}

impl DeepView for TaskDependency {
    type V = TaskDependencyView;

    open spec fn deep_view(&self) -> TaskDependencyView {
        TaskDependencyView { name: self.name@, variant: self.variant.deep_view() }
    }
}

/// Reference to a task from a build variant.
#[derive(Debug, Clone)]
pub struct TaskRef {
    pub name: String,
    pub distros: Option<Vec<String>>,
    pub activate: Option<bool>,
}

pub struct TaskRefView {
    pub name: Seq<char>,
    pub distros: Option<Seq<Seq<char>>>,
    pub activate: Option<bool>,
}

impl DeepView for TaskRef {
    type V = TaskRefView;

    open spec fn deep_view(&self) -> TaskRefView {
        TaskRefView {
            name: self.name@,
            distros: self.distros.deep_view(),
            activate: self.activate,
        }
    }
}

/// Definition of a task.
#[derive(Debug, Clone)]
pub struct EvgTask {
    pub name: String,
    pub commands: Vec<EvgCommand>,
    pub depends_on: Option<Vec<TaskDependency>>,
    pub tags: Option<Vec<String>>,
}

pub struct EvgTaskView {
    pub name: Seq<char>,
    pub commands: Seq<FunctionCallView>,
    pub depends_on: Option<Seq<TaskDependencyView>>,
    pub tags: Option<Seq<Seq<char>>>,
}

impl DeepView for EvgTask {
    type V = EvgTaskView;

    open spec fn deep_view(&self) -> EvgTaskView {
        EvgTaskView {
            name: self.name@,
            commands: self.commands.deep_view(),
            depends_on: self.depends_on.deep_view(),
            tags: self.tags.deep_view(),
        }
    }
}

impl EvgTask {
    pub fn get_reference(&self, distros: Option<Vec<String>>, activate: Option<bool>) -> (r:
        TaskRef)
        ensures
            r.name@ == self.name@,
            r.distros.deep_view() == distros.deep_view(),
            r.activate == activate,
    {
        TaskRef { name: self.name.clone(), distros, activate }
    }
}

/// A grouping label over execution tasks in the CI interface.
#[derive(Debug, Clone)]
pub struct DisplayTask {
    pub name: String,
    pub execution_tasks: Vec<String>,
}

pub struct DisplayTaskView {
    pub name: Seq<char>,
    pub execution_tasks: Seq<Seq<char>>,
}

impl DeepView for DisplayTask {
    type V = DisplayTaskView;

    open spec fn deep_view(&self) -> DisplayTaskView {
        DisplayTaskView { name: self.name@, execution_tasks: self.execution_tasks.deep_view() }
    }
}

/// A build variant of the project.
#[derive(Debug, Clone)]
pub struct BuildVariant {
    pub name: String,
    pub tasks: Vec<TaskRef>,
    pub display_tasks: Option<Vec<DisplayTask>>,
    pub activate: Option<bool>,
    pub expansions: Option<Vec<(String, String)>>,
}

pub struct BuildVariantView {
    pub name: Seq<char>,
    pub tasks: Seq<TaskRefView>,
    pub display_tasks: Option<Seq<DisplayTaskView>>,
    pub activate: Option<bool>,
    pub expansions: Option<Seq<(Seq<char>, Seq<char>)>>,
}

impl DeepView for BuildVariant {
    type V = BuildVariantView;

    open spec fn deep_view(&self) -> BuildVariantView {
        BuildVariantView {
            name: self.name@,
            tasks: self.tasks.deep_view(),
            display_tasks: self.display_tasks.deep_view(),
            activate: self.activate,
            expansions: self.expansions.deep_view(),
        }
    }
}

/// The whole project document.
#[derive(Debug, Clone)]
pub struct EvgProject {
    pub buildvariants: Vec<BuildVariant>,
    pub tasks: Vec<EvgTask>,
}

pub struct EvgProjectView {
    pub buildvariants: Seq<BuildVariantView>,
    pub tasks: Seq<EvgTaskView>,
}

impl DeepView for EvgProject {
    type V = EvgProjectView;

    open spec fn deep_view(&self) -> EvgProjectView {
        EvgProjectView {
            buildvariants: self.buildvariants.deep_view(),
            tasks: self.tasks.deep_view(),
        }
    }
}

/// A function call without variables.
pub fn fn_call(name: &str) -> (r: EvgCommand)
    ensures
        r.deep_view() == (FunctionCallView { func: name@, vars: None }),
{
    EvgCommand::Function(FunctionCall { func: name.to_owned(), vars: None })
}

/// A function call carrying variables.
pub fn fn_call_with_params(name: &str, vars: Vec<(String, ParamValue)>) -> (r: EvgCommand)
    ensures
        r.deep_view() == (FunctionCallView { func: name@, vars: Some(vars.deep_view()) }),
{
    EvgCommand::Function(FunctionCall { func: name.to_owned(), vars: Some(vars) })
}

/// Lookup of a variable by name: the value of the first binding.
pub open spec fn vars_get(vars: Seq<(Seq<char>, ParamVal)>, key: Seq<char>) -> Option<ParamVal>
    decreases vars.len(),
{
    if vars.len() == 0 {
        None
    } else if vars[0].0 == key {
        Some(vars[0].1)
    } else {
        vars_get(vars.drop_first(), key)
    }
}

/// Find the first binding with the given name.
pub fn vars_lookup<'a>(vars: &'a Vec<(String, ParamValue)>, key: &str) -> (r: Option<
    &'a ParamValue,
>)
    ensures
        match r {
            Some(v) => vars_get(vars.deep_view(), key@) == Some(v.deep_view()),
            None => vars_get(vars.deep_view(), key@) is None,
        },
{
    let n = vars.len();
    let mut i: usize = 0;
    while i < n
        invariant
            n == vars.len(),
            i <= n,
            forall|j: int| 0 <= j < i ==> vars@[j].0@ != key@,
        decreases n - i,
    {
        if crate::strings::str_eq(vars[i].0.as_str(), key) {
            proof {
                lemma_vars_get_at(vars.deep_view(), key@, i as int);
                assert(vars.deep_view()[i as int] == (vars@[i as int].0@, vars@[
                    i as int].1.deep_view()));
            }
            return Some(&vars[i].1);
        }
        i = i + 1;
    }
    proof {
        lemma_vars_get_missing(vars.deep_view(), key@);
        assert(forall|j: int|
            0 <= j < vars@.len() ==> (#[trigger] vars.deep_view()[j]).0 == vars@[j].0@);
    }
    None
}

/// Lookup lands on the first entry with the key.
proof fn lemma_vars_get_at(vars: Seq<(Seq<char>, ParamVal)>, key: Seq<char>, i: int)
    requires
        0 <= i < vars.len(),
        vars[i].0 == key,
        forall|j: int| 0 <= j < i ==> vars[j].0 != key,
    ensures
        vars_get(vars, key) == Some(vars[i].1),
    decreases i,
{
    if i > 0 {
        lemma_vars_get_at(vars.drop_first(), key, i - 1);
    }
}

/// Without a matching key the lookup fails.
proof fn lemma_vars_get_missing(vars: Seq<(Seq<char>, ParamVal)>, key: Seq<char>)
    requires
        forall|j: int| 0 <= j < vars.len() ==> (#[trigger] vars[j]).0 != key,
    ensures
        vars_get(vars, key) is None,
    decreases vars.len(),
{
    if vars.len() > 0 {
        lemma_vars_get_missing(vars.drop_first(), key);
    }
}

} // verus!
