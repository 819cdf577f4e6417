use vstd::prelude::*;

verus! {

/// A named unit of work: the platform that runs it and the optional
/// arguments that follow the platform's verb, each a separate argument.
#[derive(Debug, Clone, PartialEq, Eq)]
pub struct Task {
    pub platform: String,
    pub commands: Option<Vec<String>>,
}

pub struct TaskView {
    pub platform: Seq<char>,
    pub commands: Option<Seq<Seq<char>>>,
}

pub open spec fn strings_view(v: Seq<String>) -> Seq<Seq<char>> {
    v.map_values(|s: String| s@)
}

impl View for Task {
    type V = TaskView;

    open spec fn view(&self) -> TaskView {
        TaskView {
            platform: self.platform@,
            commands: match self.commands {
                Some(c) => Some(strings_view(c@)),
                None => None,
            },
        }
    }
}

/// Copies a list of strings.
pub fn copy_strings(v: &Vec<String>) -> (r: Vec<String>)
    ensures
        strings_view(r@) == strings_view(v@),
{
    let mut r: Vec<String> = Vec::new();
    let mut i: usize = 0;
    while i < v.len()
        invariant
            i <= v.len(),
            strings_view(r@) == strings_view(v@.subrange(0, i as int)),
        decreases v.len() - i,
    {
        let ghost before = r@;
        let s = v[i].clone();
        r.push(s);
        assert(r@ == before.push(s));
        assert(v@.subrange(0, i + 1) =~= v@.subrange(0, i as int).push(v@[i as int]));
        assert(strings_view(r@) =~= strings_view(before).push(s@));
        assert(strings_view(r@) =~= strings_view(v@.subrange(0, i + 1)));
        i = i + 1;
    }
    assert(v@.subrange(0, v.len() as int) =~= v@);
    r
}

impl Task {
    /// A task with the same platform and arguments.
    pub fn duplicate(&self) -> (r: Task)
        ensures
            r@ == self@,
    {
        let commands = match &self.commands {
            Some(c) => Some(copy_strings(c)),
            None => None,
        };
        Task { platform: self.platform.clone(), commands }
    }
}

/// A task together with the name it is declared under.
#[derive(Debug, Clone, PartialEq, Eq)]
pub struct NamedTask {
    pub name: String,
    pub task: Task,
}

/// The contents of one task file: the files it includes, in order, and the
/// tasks it declares.
#[derive(Debug, Clone, PartialEq, Eq)]
pub struct TaskFile {
    pub files: Vec<String>,
    pub tasks: Vec<NamedTask>,
}

/// A task as stored in the registry: annotated with its name, the file that
/// declared it and the project that file belongs to.
#[derive(Debug, Clone, PartialEq, Eq)]
pub struct TaskInstance {
    pub name: String,
    pub source_path: String,
    pub project: String,
    pub task: Task,
}

pub struct InstanceView {
    pub name: Seq<char>,
    pub source_path: Seq<char>,
    pub project: Seq<char>,
    pub task: TaskView,
}

impl View for TaskInstance {
    type V = InstanceView;

    open spec fn view(&self) -> InstanceView {
        InstanceView {
            name: self.name@,
            source_path: self.source_path@,
            project: self.project@,
            task: self.task@,
        }
    }
}

pub open spec fn instances_view(v: Seq<TaskInstance>) -> Seq<InstanceView> {
    v.map_values(|t: TaskInstance| t@)
}

impl TaskInstance {
    /// An instance with the same fields.
    pub fn duplicate(&self) -> (r: TaskInstance)
        ensures
            r@ == self@,
    {
        TaskInstance {
            name: self.name.clone(),
            source_path: self.source_path.clone(),
            project: self.project.clone(),
            task: self.task.duplicate(),
        }
    }
}

} // verus!
