use vstd::prelude::*;
use crate::paths::{project_name, project_of};
use crate::registry::TaskRegistry;
use crate::task::{InstanceView, NamedTask, TaskFile, TaskInstance, TaskView};
use crate::text::str_eq;

verus! {

/// Why loading the inclusion graph stopped.
#[derive(Debug, Clone, PartialEq, Eq)]
pub enum LoadError {
    /// A named file, the root or an include, does not exist.
    ConfigNotFound { path: String },
    /// A file exists but is not a task file.
    ConfigParseError { path: String, cause: String },
    /// A file includes itself, directly or through other files.
    CyclicInclude { path: String },
    /// One file declares the same task name twice.
    DuplicateTask { path: String, name: String },
}

pub enum LoadErrorView {
    ConfigNotFound { path: Seq<char> },
    ConfigParseError { path: Seq<char>, cause: Seq<char> },
    CyclicInclude { path: Seq<char> },
    DuplicateTask { path: Seq<char>, name: Seq<char> },
}

impl View for LoadError {
    type V = LoadErrorView;

    open spec fn view(&self) -> LoadErrorView {
        match self {
            LoadError::ConfigNotFound { path } => LoadErrorView::ConfigNotFound { path: path@ },
            LoadError::ConfigParseError { path, cause } => LoadErrorView::ConfigParseError {
                path: path@,
                cause: cause@,
            },
            LoadError::CyclicInclude { path } => LoadErrorView::CyclicInclude { path: path@ },
            LoadError::DuplicateTask { path, name } => LoadErrorView::DuplicateTask {
                path: path@,
                name: name@,
            },
        }
    }
}

/// What the caller must do next while loading.
#[derive(Debug, Clone, PartialEq, Eq)]
pub enum LoadStep {
    /// Read and parse the named file (relative to the working directory, or
    /// absolute) and hand it to [`Loader::file_read`].
    Read(String),
    /// Every file has been read; the registry is complete.
    Done,
}

pub open spec fn step_view(s: LoadStep) -> Option<Seq<char>> {
    match s {
        LoadStep::Read(n) => Some(n@),
        LoadStep::Done => None,
    }
}

pub open spec fn named_tasks_view(t: Seq<NamedTask>) -> Seq<(Seq<char>, TaskView)> {
    t.map_values(|n: NamedTask| (n.name@, n.task@))
}

/// The instances that one file contributes: one per declared task, in
/// declaration order.
pub open spec fn file_instances(
    path: Seq<char>,
    project: Seq<char>,
    tasks: Seq<(Seq<char>, TaskView)>,
) -> Seq<InstanceView> {
    Seq::new(
        tasks.len(),
        |i: int| InstanceView { name: tasks[i].0, source_path: path, project, task: tasks[i].1 },
    )
}

/// Whether two declarations in `tasks` share a name.
pub open spec fn has_duplicate_name(tasks: Seq<(Seq<char>, TaskView)>) -> bool {
    exists|i: int, j: int| 0 <= i < j < tasks.len() && tasks[i].0 == tasks[j].0
}

/// A file that is open: its own tasks wait until its includes, from
/// `next` on, have been loaded.
pub struct FrameView {
    pub path: Seq<char>,
    pub project: Seq<char>,
    pub files: Seq<Seq<char>>,
    pub tasks: Seq<(Seq<char>, TaskView)>,
    pub next: int,
}

pub struct LoaderView {
    /// The open files, the root first.
    pub stack: Seq<FrameView>,
    /// The files whose tasks have been registered, in that order.
    pub done: Seq<Seq<char>>,
    pub registry: Seq<InstanceView>,
}

/// Whether `path` is one of the open files.
pub open spec fn is_open(stack: Seq<FrameView>, path: Seq<char>) -> bool {
    exists|k: int| 0 <= k < stack.len() && stack[k].path == path
}

/// Moves the walk on to its next read: the next include of the innermost
/// open file, registering the tasks of every file whose includes are all
/// loaded; depth first, so a file's tasks follow those of its includes.
pub open spec fn settle(s: LoaderView) -> (LoaderView, Option<Seq<char>>)
    decreases s.stack.len(),
{
    if s.stack.len() == 0 {
        (s, None)
    } else {
        let top = s.stack.last();
        if 0 <= top.next < top.files.len() {
            (
                LoaderView {
                    stack: s.stack.update(s.stack.len() - 1, FrameView { next: top.next + 1, ..top }),
                    ..s
                },
                Some(top.files[top.next]),
            )
        } else {
            settle(
                LoaderView {
                    stack: s.stack.drop_last(),
                    done: s.done.push(top.path),
                    registry: s.registry + file_instances(top.path, top.project, top.tasks),
                },
            )
        }
    }
}

/// The state once a file that was read at `path` has been taken in: opened,
/// unless its tasks are already registered, in which case it is not loaded
/// again.
pub open spec fn enter(
    s: LoaderView,
    path: Seq<char>,
    files: Seq<Seq<char>>,
    tasks: Seq<(Seq<char>, TaskView)>,
) -> LoaderView {
    if s.done.contains(path) {
        s
    } else {
        LoaderView {
            stack: s.stack.push(
                FrameView { path, project: project_of(path), files, tasks, next: 0 },
            ),
            ..s
        }
    }
}

struct Frame {
    path: String,
    project: String,
    file: TaskFile,
    next: usize,
}

impl View for Frame {
    type V = FrameView;

    closed spec fn view(&self) -> FrameView {
        FrameView {
            path: self.path@,
            project: self.project@,
            files: self.file.files@.map_values(|s: String| s@),
            tasks: named_tasks_view(self.file.tasks@),
            next: self.next as int,
        }
    }
}

/// Walks the inclusion graph one file at a time. The caller reads each
/// file that a [`LoadStep::Read`] names and hands its contents back.
pub struct Loader {
    stack: Vec<Frame>,
    done: Vec<String>,
    registry: TaskRegistry,
}

impl View for Loader {
    type V = LoaderView;

    closed spec fn view(&self) -> LoaderView {
        LoaderView {
            stack: self.stack@.map_values(|f: Frame| f@),
            done: self.done@.map_values(|s: String| s@),
            registry: self.registry@,
        }
    }
}

impl Loader {
    /// A loader with nothing read yet, and its first step: reading the root
    /// file.
    pub fn start(root: &str) -> (r: (Loader, LoadStep))
        ensures
            r.0@ == (LoaderView { stack: Seq::empty(), done: Seq::empty(), registry: Seq::empty() }),
            step_view(r.1) == Some(root@),
    {
        let l = Loader { stack: Vec::new(), done: Vec::new(), registry: TaskRegistry::new() };
        assert(l@.stack =~= Seq::<FrameView>::empty());
        assert(l@.done =~= Seq::<Seq<char>>::empty());
        (l, LoadStep::Read(root.to_owned()))
    }

    /// The tasks registered so far.
    pub fn registry(&self) -> (r: &TaskRegistry)
        ensures
            r@ == self@.registry,
    {
        &self.registry
    }

    /// Ends loading and hands out the registry.
    pub fn into_registry(self) -> (r: TaskRegistry)
        ensures
            r@ == self@.registry,
    {
        self.registry
    }

    fn is_done(&self, path: &String) -> (r: bool)
        ensures
            r == self@.done.contains(path@),
    {
        let mut i: usize = 0;
        while i < self.done.len()
            invariant
                i <= self.done@.len(),
                forall|k: int| 0 <= k < i ==> self@.done[k] != path@,
            decreases self.done@.len() - i,
        {
            if str_eq(self.done[i].as_str(), path.as_str()) {
                assert(self@.done[i as int] == path@);
                return true;
            }
            i = i + 1;
        }
        false
    }

    fn has_open(&self, path: &String) -> (r: bool)
        ensures
            r == is_open(self@.stack, path@),
    {
        let mut i: usize = 0;
        while i < self.stack.len()
            invariant
                i <= self.stack@.len(),
                forall|k: int| 0 <= k < i ==> self@.stack[k].path != path@,
            decreases self.stack@.len() - i,
        {
            if str_eq(self.stack[i].path.as_str(), path.as_str()) {
                assert(self@.stack[i as int].path == path@);
                return true;
            }
            i = i + 1;
        }
        false
    }

    fn advance(&mut self) -> (r: LoadStep)
        ensures
            (final(self)@, step_view(r)) == settle(old(self)@),
    {
        loop
            invariant
                settle(self@) == settle(old(self)@),
            decreases self.stack@.len(),
        {
            let n = self.stack.len();
            if n == 0 {
                return LoadStep::Done;
            }
            let next = self.stack[n - 1].next;
            if next < self.stack[n - 1].file.files.len() {
                let name = self.stack[n - 1].file.files[next].clone();
                let ghost before = self@;
                let mut f = self.stack.pop().unwrap();
                f.next = next + 1;
                self.stack.push(f);
                assert(self@.stack =~= before.stack.update(
                    n - 1,
                    FrameView { next: before.stack.last().next + 1, ..before.stack.last() },
                ));
                return LoadStep::Read(name);
            } else {
                let ghost before = self@;
                let f = self.stack.pop().unwrap();
                assert(f@ == before.stack.last());
                register_file(&mut self.registry, &f.path, &f.project, &f.file.tasks);
                self.done.push(f.path);
                assert(self@.stack =~= before.stack.drop_last());
                assert(self@.done =~= before.done.push(before.stack.last().path));
            }
        }
    }

    /// Takes in the file that the last [`LoadStep::Read`] named, read at the
    /// resolved path `path`, and says what to read next. A file declaring
    /// one task name twice, and a file that is already open (a cycle of
    /// includes), are refused and leave the loader as it was. A file whose
    /// tasks are already registered is not registered again.
    pub fn file_read(&mut self, path: String, file: TaskFile) -> (r: Result<LoadStep, LoadError>)
        ensures
            ({
                let tasks = named_tasks_view(file.tasks@);
                let files = file.files@.map_values(|s: String| s@);
                if has_duplicate_name(tasks) {
                    &&& final(self)@ == old(self)@
                    &&& r is Err
                    &&& r->Err_0@ is DuplicateTask
                    &&& r->Err_0@->DuplicateTask_path == path@
                    &&& exists|i: int, j: int|
                        0 <= i < j < tasks.len() && tasks[i].0 == r->Err_0@->DuplicateTask_name
                            && tasks[j].0 == r->Err_0@->DuplicateTask_name
                } else if is_open(old(self)@.stack, path@) {
                    &&& final(self)@ == old(self)@
                    &&& r is Err
                    &&& r->Err_0@ == LoadErrorView::CyclicInclude { path: path@ }
                } else {
                    &&& r is Ok
                    &&& (final(self)@, step_view(r->Ok_0)) == settle(
                        enter(old(self)@, path@, files, tasks),
                    )
                }
            }),
    {
        match duplicate_name(&file.tasks) {
            Some(name) => {
                proof {
                    let tv = named_tasks_view(file.tasks@);
                    let (i, j) = choose|i: int, j: int|
                        0 <= i < j < tv.len() && tv[i].0 == name@ && tv[j].0 == name@;
                    assert(has_duplicate_name(tv));
                }
                return Err(LoadError::DuplicateTask { path, name });
            },
            None => {},
        }
        if self.has_open(&path) {
            return Err(LoadError::CyclicInclude { path });
        }
        if !self.is_done(&path) {
            let project = project_name(path.as_str());
            let ghost before = self@;
            self.stack.push(Frame { path, project, file, next: 0 });
            assert(self@.stack =~= enter(before, path@, file.files@.map_values(|s: String| s@), named_tasks_view(file.tasks@)).stack);
        }
        Ok(self.advance())
    }
}

/// Appends the instances of one file's tasks to `registry`.
pub fn register_file(registry: &mut TaskRegistry, path: &String, project: &String, tasks: &Vec<NamedTask>)
    ensures
        final(registry)@ == old(registry)@ + file_instances(path@, project@, named_tasks_view(tasks@)),
{
    let ghost start = registry@;
    let mut i: usize = 0;
    while i < tasks.len()
        invariant
            i <= tasks@.len(),
            registry@ == start + file_instances(
                path@,
                project@,
                named_tasks_view(tasks@.subrange(0, i as int)),
            ),
        decreases tasks@.len() - i,
    {
        let t = &tasks[i];
        let inst = TaskInstance {
            name: t.name.clone(),
            source_path: path.clone(),
            project: project.clone(),
            task: t.task.duplicate(),
        };
        registry.push(inst);
        assert(registry@ =~= start + file_instances(
            path@,
            project@,
            named_tasks_view(tasks@.subrange(0, i + 1)),
        ));
        i = i + 1;
    }
    assert(tasks@.subrange(0, tasks@.len() as int) =~= tasks@);
}

/// A name that two declarations of `tasks` share, if any.
pub fn duplicate_name(tasks: &Vec<NamedTask>) -> (r: Option<String>)
    ensures
        match r {
            None => !has_duplicate_name(named_tasks_view(tasks@)),
            Some(n) => exists|i: int, j: int|
                0 <= i < j < tasks@.len() && named_tasks_view(tasks@)[i].0 == n@
                    && named_tasks_view(tasks@)[j].0 == n@,
        },
{
    let ghost tv = named_tasks_view(tasks@);
    let mut j: usize = 0;
    while j < tasks.len()
        invariant
            j <= tasks@.len(),
            tv == named_tasks_view(tasks@),
            forall|a: int, b: int| 0 <= a < b < j ==> tv[a].0 != tv[b].0,
        decreases tasks@.len() - j,
    {
        let mut i: usize = 0;
        while i < j
            invariant
                i <= j < tasks@.len(),
                tv == named_tasks_view(tasks@),
                forall|a: int, b: int| 0 <= a < b < j ==> tv[a].0 != tv[b].0,
                forall|a: int| 0 <= a < i ==> tv[a].0 != tv[j as int].0,
            decreases j - i,
        {
            if str_eq(tasks[i].name.as_str(), tasks[j].name.as_str()) {
                assert(tv[i as int].0 == tv[j as int].0);
                return Some(tasks[j].name.clone());
            }
            i = i + 1;
        }
        j = j + 1;
    }
    None
}

} // verus!
