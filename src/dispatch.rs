use vstd::prelude::*;
use crate::paths::{parent_dir, parent_of};
use crate::platform::{PlatformEntryView, platform_entry, resolve};
use crate::registry::{TaskRegistry, named};
use crate::task::{InstanceView, TaskInstance, copy_strings, instances_view, strings_view};
use crate::text::str_eq;

verus! {

/// Exit status of a run that stopped on a fatal error.
pub const FATAL_EXIT_CODE: i32 = 2;

/// Exit status reported for a child that ended without an exit code (killed
/// by a signal).
pub const SIGNALLED_EXIT_CODE: i32 = 1;

/// Why a dispatch stopped before or while launching.
#[derive(Debug, Clone, PartialEq, Eq)]
pub enum DispatchError {
    /// No file declared the requested task name.
    UnknownTaskName { name: String },
    /// A selected task names a platform that is not in the table.
    UnsupportedPlatform { platform: String, path: String },
    /// A selected task's executable is not on the search path.
    ExecutableNotFound { program: String },
    /// The operating system refused to start a child.
    ChildProcessLaunchFailure { program: String, cause: String },
}

pub enum DispatchErrorView {
    UnknownTaskName { name: Seq<char> },
    UnsupportedPlatform { platform: Seq<char>, path: Seq<char> },
    ExecutableNotFound { program: Seq<char> },
    ChildProcessLaunchFailure { program: Seq<char>, cause: Seq<char> },
}

impl View for DispatchError {
    type V = DispatchErrorView;

    open spec fn view(&self) -> DispatchErrorView {
        match self {
            DispatchError::UnknownTaskName { name } => DispatchErrorView::UnknownTaskName { name: name@ },
            DispatchError::UnsupportedPlatform { platform, path } => DispatchErrorView::UnsupportedPlatform {
                platform: platform@,
                path: path@,
            },
            DispatchError::ExecutableNotFound { program } => DispatchErrorView::ExecutableNotFound {
                program: program@,
            },
            DispatchError::ChildProcessLaunchFailure { program, cause } => DispatchErrorView::ChildProcessLaunchFailure {
                program: program@,
                cause: cause@,
            },
        }
    }
}

/// One child process to start: `program` with `args`, in directory `dir`.
#[derive(Debug, Clone, PartialEq, Eq)]
pub struct Launch {
    pub program: String,
    pub args: Vec<String>,
    pub dir: String,
}

pub struct LaunchView {
    pub program: Seq<char>,
    pub args: Seq<Seq<char>>,
    pub dir: Seq<char>,
}

impl View for Launch {
    type V = LaunchView;

    open spec fn view(&self) -> LaunchView {
        LaunchView { program: self.program@, args: strings_view(self.args@), dir: self.dir@ }
    }
}

pub open spec fn launches_view(v: Seq<Launch>) -> Seq<LaunchView> {
    v.map_values(|l: Launch| l@)
}

/// The instances of `s` that belong to `project`, in order.
pub open spec fn in_project(s: Seq<InstanceView>, project: Seq<char>) -> Seq<InstanceView>
    decreases s.len(),
{
    if s.len() == 0 {
        Seq::empty()
    } else {
        let rest = in_project(s.drop_last(), project);
        if s.last().project == project {
            rest.push(s.last())
        } else {
            rest
        }
    }
}

/// The instances a dispatch of `name` runs: those declared under `name`,
/// narrowed to one project when a filter is given.
pub open spec fn selected(
    reg: Seq<InstanceView>,
    name: Seq<char>,
    project: Option<Seq<char>>,
) -> Seq<InstanceView> {
    match project {
        None => named(reg, name),
        Some(p) => in_project(named(reg, name), p),
    }
}

/// The invocation of one instance through its platform entry: the
/// executable, then the verb, then the task's own arguments, in the
/// directory of the file that declared it.
pub open spec fn launch_of(i: InstanceView, e: PlatformEntryView) -> LaunchView {
    LaunchView {
        program: e.executable,
        args: seq![e.verb] + match i.task.commands {
            Some(c) => c,
            None => Seq::empty(),
        },
        dir: parent_of(i.source_path),
    }
}

pub open spec fn resolves(i: InstanceView, windows: bool) -> bool {
    platform_entry(i.task.platform, windows) is Some
}

/// Index of the first instance of `s` whose platform is not in the table,
/// or `s.len()` when every one resolves.
pub open spec fn first_unresolved(s: Seq<InstanceView>, windows: bool) -> int {
    if exists|k: int| 0 <= k < s.len() && !resolves(s[k], windows) {
        choose|k: int|
            0 <= k < s.len() && !resolves(s[k], windows) && forall|j: int|
                0 <= j < k ==> resolves(#[trigger] s[j], windows)
    } else {
        s.len() as int
    }
}

/// The launches for `s` when every platform resolves.
pub open spec fn plan_of(s: Seq<InstanceView>, windows: bool) -> Seq<LaunchView> {
    Seq::new(s.len(), |k: int| launch_of(s[k], platform_entry(s[k].task.platform, windows)->Some_0))
}

/// Narrows `v` to the instances of `project`.
pub fn filter_project(v: &Vec<TaskInstance>, project: &str) -> (r: Vec<TaskInstance>)
    ensures
        instances_view(r@) == in_project(instances_view(v@), project@),
{
    let ghost s = instances_view(v@);
    let mut out: Vec<TaskInstance> = Vec::new();
    let mut i: usize = 0;
    while i < v.len()
        invariant
            i <= v@.len(),
            s == instances_view(v@),
            instances_view(out@) == in_project(s.subrange(0, i as int), project@),
        decreases v@.len() - i,
    {
        assert(s.subrange(0, i + 1).drop_last() =~= s.subrange(0, i as int));
        if str_eq(v[i].project.as_str(), project) {
            out.push(v[i].duplicate());
        }
        assert(instances_view(out@) =~= in_project(s.subrange(0, i + 1), project@));
        i = i + 1;
    }
    assert(s.subrange(0, s.len() as int) =~= s);
    out
}

fn launch_for(i: &TaskInstance, program: String, verb: String) -> (r: Launch)
    ensures
        r@ == launch_of(i@, PlatformEntryView { executable: program@, verb: verb@ }),
{
    let mut args: Vec<String> = Vec::new();
    args.push(verb);
    match &i.task.commands {
        Some(c) => {
            let mut extra = copy_strings(c);
            args.append(&mut extra);
        },
        None => {},
    }
    let r = Launch { program, args, dir: parent_dir(i.source_path.as_str()) };
    assert(r@.args =~= launch_of(i@, PlatformEntryView { executable: program@, verb: verb@ }).args);
    r
}

/// Resolves the platform of every instance of `sel` and builds its launch;
/// stops at the first instance whose platform is not in the table.
pub fn plan_launches(sel: &Vec<TaskInstance>, windows: bool) -> (r: Result<Vec<Launch>, DispatchError>)
    ensures
        ({
            let s = instances_view(sel@);
            let k = first_unresolved(s, windows);
            if k < s.len() {
                r is Err && r->Err_0@ == (DispatchErrorView::UnsupportedPlatform {
                    platform: s[k].task.platform,
                    path: s[k].source_path,
                })
            } else {
                r is Ok && launches_view(r->Ok_0@) == plan_of(s, windows)
            }
        }),
{
    let ghost s = instances_view(sel@);
    let mut out: Vec<Launch> = Vec::new();
    let mut i: usize = 0;
    while i < sel.len()
        invariant
            i <= sel@.len(),
            s == instances_view(sel@),
            forall|j: int| 0 <= j < i ==> resolves(#[trigger] s[j], windows),
            launches_view(out@) == plan_of(s.subrange(0, i as int), windows),
        decreases sel@.len() - i,
    {
        let inst = &sel[i];
        match resolve(inst.task.platform.as_str(), windows) {
            Some(e) => {
                let ghost ev = e@;
                assert(ev == platform_entry(s[i as int].task.platform, windows)->Some_0);
                let ghost before = out@;
                let l = launch_for(inst, e.executable, e.verb);
                assert(l@ == launch_of(s[i as int], ev));
                out.push(l);
                assert(s.subrange(0, i + 1) =~= s.subrange(0, i as int).push(s[i as int]));
                assert(launches_view(out@) =~= launches_view(before).push(l@));
                assert(launches_view(out@) =~= plan_of(s.subrange(0, i + 1), windows));
            },
            None => {
                assert(!resolves(s[i as int], windows));
                assert(first_unresolved(s, windows) == i) by {
                    let k = first_unresolved(s, windows);
                    if k < i {
                        assert(resolves(s[k], windows));
                    }
                    if k > i {
                        assert(resolves(s[i as int], windows));
                    }
                }
                return Err(DispatchError::UnsupportedPlatform {
                    platform: inst.task.platform.clone(),
                    path: inst.source_path.clone(),
                });
            },
        }
        i = i + 1;
    }
    assert(s.subrange(0, s.len() as int) =~= s);
    assert(first_unresolved(s, windows) == s.len());
    Ok(out)
}

/// Plans a dispatch of `name`, narrowed to `project` when given: fails
/// when no file declared `name`, or at the first selected instance whose
/// platform is not in the table; otherwise one launch per selected instance,
/// in registry order. A filter that matches nothing is not an error: the
/// plan is then empty.
pub fn plan_dispatch(
    registry: &TaskRegistry,
    name: &str,
    project: Option<&str>,
    windows: bool,
) -> (r: Result<Vec<Launch>, DispatchError>)
    ensures
        ({
            let p = match project {
                Some(q) => Some(q@),
                None => None,
            };
            let s = selected(registry@, name@, p);
            let k = first_unresolved(s, windows);
            if named(registry@, name@).len() == 0 {
                r is Err && r->Err_0@ == (DispatchErrorView::UnknownTaskName { name: name@ })
            } else if k < s.len() {
                r is Err && r->Err_0@ == (DispatchErrorView::UnsupportedPlatform {
                    platform: s[k].task.platform,
                    path: s[k].source_path,
                })
            } else {
                r is Ok && launches_view(r->Ok_0@) == plan_of(s, windows)
            }
        }),
{
    match registry.lookup(name) {
        None => Err(DispatchError::UnknownTaskName { name: name.to_owned() }),
        Some(all) => match project {
            None => plan_launches(&all, windows),
            Some(q) => {
                let sel = filter_project(&all, q);
                plan_launches(&sel, windows)
            },
        },
    }
}

/// Whether a search for a program succeeded, given the exit code of the
/// search (`None` when the search ended without one).
pub fn has_program(search_exit: Option<i32>) -> (r: bool)
    ensures
        r == (search_exit == Some(0i32)),
{
    match search_exit {
        Some(c) => c == 0,
        None => false,
    }
}

/// Checks that the executable of every launch was found (`found[k]` for
/// `launches[k]`); fails on the first that was not.
pub fn check_executables(launches: &Vec<Launch>, found: &Vec<bool>) -> (r: Result<(), DispatchError>)
    requires
        found@.len() == launches@.len(),
    ensures
        (forall|k: int| 0 <= k < found@.len() ==> found@[k]) ==> r is Ok,
        !(forall|k: int| 0 <= k < found@.len() ==> found@[k]) ==> (r is Err && exists|k: int|
            0 <= k < found@.len() && !found@[k] && (forall|j: int| 0 <= j < k ==> found@[j])
                && r->Err_0@ == (DispatchErrorView::ExecutableNotFound {
                program: launches@[k].program@,
            })),
{
    let mut i: usize = 0;
    while i < found.len()
        invariant
            i <= found@.len(),
            found@.len() == launches@.len(),
            forall|j: int| 0 <= j < i ==> found@[j],
        decreases found@.len() - i,
    {
        if !found[i] {
            return Err(DispatchError::ExecutableNotFound { program: launches[i].program.clone() });
        }
        i = i + 1;
    }
    Ok(())
}

/// The exit status of a child: its code, or the signalled status when it
/// has none.
pub open spec fn status_code(s: Option<i32>) -> i32 {
    match s {
        Some(c) => c,
        None => SIGNALLED_EXIT_CODE,
    }
}

/// The status a run reports for its children's exits (in launch order): the
/// status of the first child that failed, or 0 when every one succeeded.
pub open spec fn run_status_of(s: Seq<Option<i32>>) -> i32
    decreases s.len(),
{
    if s.len() == 0 {
        0
    } else if s[0] != Some(0i32) {
        status_code(s[0])
    } else {
        run_status_of(s.drop_first())
    }
}

/// Folds the children's exit codes into the run's own status.
pub fn run_status(exits: &Vec<Option<i32>>) -> (r: i32)
    ensures
        r == run_status_of(exits@),
        r == 0 <==> (forall|k: int| 0 <= k < exits@.len() ==> exits@[k] == Some(0i32)),
{
    proof {
        lemma_run_status_zero(exits@);
        assert(exits@.subrange(0, exits@.len() as int) =~= exits@);
    }
    let mut i: usize = 0;
    while i < exits.len()
        invariant
            i <= exits@.len(),
            run_status_of(exits@.subrange(i as int, exits@.len() as int)) == run_status_of(exits@),
        decreases exits@.len() - i,
    {
        let ghost rest = exits@.subrange(i as int, exits@.len() as int);
        assert(rest.drop_first() =~= exits@.subrange(i + 1, exits@.len() as int));
        match exits[i] {
            Some(c) => {
                if c != 0 {
                    return c;
                }
            },
            None => {
                return SIGNALLED_EXIT_CODE;
            },
        }
        i = i + 1;
    }
    0
}

proof fn lemma_run_status_zero(s: Seq<Option<i32>>)
    ensures
        run_status_of(s) == 0 <==> (forall|k: int| 0 <= k < s.len() ==> s[k] == Some(0i32)),
    decreases s.len(),
{
    if s.len() > 0 {
        lemma_run_status_zero(s.drop_first());
        if s[0] == Some(0i32) {
            assert forall|k: int| 1 <= k < s.len() implies s[k] == s.drop_first()[k - 1] by {}
            if run_status_of(s.drop_first()) != 0 {
                let k = choose|k: int| 0 <= k < s.drop_first().len() && s.drop_first()[k] != Some(0i32);
                assert(s[k + 1] != Some(0i32));
            }
        }
    }
}

} // verus!
