use vstd::prelude::*;
use crate::dispatch::{first_unresolved, in_project, plan_of, selected};
use crate::loader::{FrameView, LoaderView, enter, file_instances, is_open, settle};
use crate::paths::project_of;
use crate::registry::named;
use crate::task::{InstanceView, TaskView};

verus! {

/// A root file that includes nothing yields a registry of exactly its own
/// tasks, one instance each, and loading is then done.
pub proof fn root_without_includes_registers_its_tasks(
    path: Seq<char>,
    tasks: Seq<(Seq<char>, TaskView)>,
)
    ensures
        ({
            let start = LoaderView { stack: Seq::empty(), done: Seq::empty(), registry: Seq::empty() };
            let (l, step) = settle(enter(start, path, Seq::empty(), tasks));
            &&& step is None
            &&& l.registry == file_instances(path, project_of(path), tasks)
            &&& l.registry.len() == tasks.len()
            &&& l.done == seq![path]
        }),
{
    let start = LoaderView { stack: Seq::empty(), done: Seq::empty(), registry: Seq::empty() };
    let opened = enter(start, path, Seq::empty(), tasks);
    assert(!start.done.contains(path));
    let top = opened.stack.last();
    let closed = LoaderView {
        stack: opened.stack.drop_last(),
        done: opened.done.push(top.path),
        registry: opened.registry + file_instances(top.path, top.project, top.tasks),
    };
    assert(settle(opened) == settle(closed));
    assert(closed.stack.len() == 0);
    assert(closed.registry =~= file_instances(path, project_of(path), tasks));
    assert(closed.done =~= seq![path]);
}

proof fn lemma_named_append(a: Seq<InstanceView>, b: Seq<InstanceView>, n: Seq<char>)
    ensures
        named(a + b, n) == named(a, n) + named(b, n),
    decreases b.len(),
{
    if b.len() == 0 {
        assert(a + b =~= a);
        assert(named(b, n) =~= Seq::<InstanceView>::empty());
        assert(named(a, n) + named(b, n) =~= named(a, n));
    } else {
        lemma_named_append(a, b.drop_last(), n);
        assert((a + b).drop_last() =~= a + b.drop_last());
        assert((a + b).last() == b.last());
        if b.last().name == n {
            assert(named(a + b, n) =~= named(a, n) + named(b, n));
        } else {
            assert(named(a + b, n) =~= named(a, n) + named(b, n));
        }
    }
}

proof fn lemma_named_finds(s: Seq<InstanceView>, n: Seq<char>, i: int)
    requires
        0 <= i < s.len(),
        s[i].name == n,
    ensures
        exists|k: int| 0 <= k < named(s, n).len() && named(s, n)[k] == s[i],
    decreases s.len(),
{
    if i == s.len() - 1 {
        let k = named(s.drop_last(), n).len() as int;
        assert(named(s, n)[k] == s[i]);
    } else {
        lemma_named_finds(s.drop_last(), n, i);
        let k = choose|k: int|
            0 <= k < named(s.drop_last(), n).len() && named(s.drop_last(), n)[k] == s.drop_last()[i];
        assert(named(s, n)[k] == s[i]);
    }
}

/// Two different files that both declare a task under `name` each
/// contribute their own instance: looking `name` up after both were
/// registered gives at least two instances, one from each file, in the order
/// the files were registered.
pub proof fn same_name_in_two_files_gives_two_instances(
    registry: Seq<InstanceView>,
    path1: Seq<char>,
    tasks1: Seq<(Seq<char>, TaskView)>,
    path2: Seq<char>,
    tasks2: Seq<(Seq<char>, TaskView)>,
    name: Seq<char>,
)
    requires
        path1 != path2,
        exists|i: int| 0 <= i < tasks1.len() && tasks1[i].0 == name,
        exists|j: int| 0 <= j < tasks2.len() && tasks2[j].0 == name,
    ensures
        ({
            let r = registry + file_instances(path1, project_of(path1), tasks1) + file_instances(
                path2,
                project_of(path2),
                tasks2,
            );
            exists|a: int, b: int|
                0 <= a < b < named(r, name).len() && named(r, name)[a].source_path == path1
                    && named(r, name)[b].source_path == path2
        }),
{
    let f1 = file_instances(path1, project_of(path1), tasks1);
    let f2 = file_instances(path2, project_of(path2), tasks2);
    let r = registry + f1 + f2;
    lemma_named_append(registry, f1, name);
    lemma_named_append(registry + f1, f2, name);
    let i = choose|i: int| 0 <= i < tasks1.len() && tasks1[i].0 == name;
    let j = choose|j: int| 0 <= j < tasks2.len() && tasks2[j].0 == name;
    lemma_named_finds(f1, name, i);
    lemma_named_finds(f2, name, j);
    let k1 = choose|k: int| 0 <= k < named(f1, name).len() && named(f1, name)[k] == f1[i];
    let k2 = choose|k: int| 0 <= k < named(f2, name).len() && named(f2, name)[k] == f2[j];
    let base = named(registry, name).len() as int;
    let a = base + k1;
    let b = base + named(f1, name).len() + k2;
    assert(named(r, name)[a] == f1[i]);
    assert(named(r, name)[b] == f2[j]);
}

proof fn lemma_in_project_absent(s: Seq<InstanceView>, p: Seq<char>)
    requires
        forall|k: int| 0 <= k < s.len() ==> s[k].project != p,
    ensures
        in_project(s, p).len() == 0,
    decreases s.len(),
{
    if s.len() > 0 {
        lemma_in_project_absent(s.drop_last(), p);
    }
}

/// Filtering by a project that none of the instances under `name` belongs
/// to selects nothing; a dispatch then plans no launch and, as long as the
/// name is known, succeeds with that empty plan.
pub proof fn absent_project_launches_nothing(
    registry: Seq<InstanceView>,
    name: Seq<char>,
    project: Seq<char>,
    windows: bool,
)
    requires
        forall|k: int|
            0 <= k < named(registry, name).len() ==> (#[trigger] named(registry, name)[k]).project
                != project,
    ensures
        selected(registry, name, Some(project)).len() == 0,
        first_unresolved(selected(registry, name, Some(project)), windows) == 0,
        plan_of(selected(registry, name, Some(project)), windows).len() == 0,
{
    lemma_in_project_absent(named(registry, name), project);
}

/// The instances of `s` declared in the file at `path`, in order.
pub open spec fn from_file(s: Seq<InstanceView>, path: Seq<char>) -> Seq<InstanceView>
    decreases s.len(),
{
    if s.len() == 0 {
        Seq::empty()
    } else {
        let rest = from_file(s.drop_last(), path);
        if s.last().source_path == path {
            rest.push(s.last())
        } else {
            rest
        }
    }
}

/// The bookkeeping of a loader that every step keeps: registered files are
/// distinct, open files are distinct and not registered, and every instance
/// comes from a registered file.
pub open spec fn consistent(l: LoaderView) -> bool {
    &&& forall|i: int, j: int| 0 <= i < j < l.done.len() ==> l.done[i] != l.done[j]
    &&& forall|i: int, j: int|
        0 <= i < j < l.stack.len() ==> l.stack[i].path != l.stack[j].path
    &&& forall|i: int, j: int|
        0 <= i < l.stack.len() && 0 <= j < l.done.len() ==> l.stack[i].path != l.done[j]
    &&& forall|k: int| 0 <= k < l.registry.len() ==> l.done.contains(#[trigger] l.registry[k].source_path)
}

/// What one open file contributes once it is registered.
pub open spec fn frame_instances(f: FrameView) -> Seq<InstanceView> {
    file_instances(f.path, f.project, f.tasks)
}

proof fn lemma_from_file_append(a: Seq<InstanceView>, b: Seq<InstanceView>, p: Seq<char>)
    ensures
        from_file(a + b, p) == from_file(a, p) + from_file(b, p),
    decreases b.len(),
{
    if b.len() == 0 {
        assert(a + b =~= a);
        assert(from_file(a, p) + from_file(b, p) =~= from_file(a, p));
    } else {
        lemma_from_file_append(a, b.drop_last(), p);
        assert((a + b).drop_last() =~= a + b.drop_last());
        assert((a + b).last() == b.last());
        assert(from_file(a + b, p) =~= from_file(a, p) + from_file(b, p));
    }
}

proof fn lemma_from_file_absent(s: Seq<InstanceView>, p: Seq<char>)
    requires
        forall|k: int| 0 <= k < s.len() ==> s[k].source_path != p,
    ensures
        from_file(s, p) == Seq::<InstanceView>::empty(),
    decreases s.len(),
{
    if s.len() > 0 {
        lemma_from_file_absent(s.drop_last(), p);
    }
}

proof fn lemma_from_file_all(s: Seq<InstanceView>, p: Seq<char>)
    requires
        forall|k: int| 0 <= k < s.len() ==> s[k].source_path == p,
    ensures
        from_file(s, p) == s,
    decreases s.len(),
{
    if s.len() > 0 {
        lemma_from_file_all(s.drop_last(), p);
        assert(s.drop_last().push(s.last()) =~= s);
    }
}

proof fn lemma_settle_registers_once(s: LoaderView)
    requires
        consistent(s),
    ensures
        consistent(settle(s).0),
        forall|p: Seq<char>|
            s.done.contains(p) ==> from_file(settle(s).0.registry, p) == from_file(s.registry, p),
        forall|k: int|
            0 <= k < s.stack.len() && settle(s).0.done.contains(#[trigger] s.stack[k].path)
                ==> from_file(settle(s).0.registry, s.stack[k].path) == frame_instances(s.stack[k]),
    decreases s.stack.len(),
{
    if s.stack.len() == 0 {
    } else {
        let top = s.stack.last();
        if 0 <= top.next < top.files.len() {
            let t = settle(s).0;
            assert(t.done == s.done);
            assert forall|i: int| 0 <= i < t.stack.len() implies t.stack[i].path == s.stack[i].path by {}
            assert forall|k: int| 0 <= k < s.stack.len() implies !t.done.contains(s.stack[k].path) by {
                if t.done.contains(s.stack[k].path) {
                    let j = choose|j: int| 0 <= j < s.done.len() && s.done[j] == s.stack[k].path;
                }
            }
        } else {
            let fi = frame_instances(top);
            let next = LoaderView {
                stack: s.stack.drop_last(),
                done: s.done.push(top.path),
                registry: s.registry + fi,
            };
            assert(!s.done.contains(top.path)) by {
                if s.done.contains(top.path) {
                    let j = choose|j: int| 0 <= j < s.done.len() && s.done[j] == top.path;
                    assert(s.stack[s.stack.len() - 1].path != s.done[j]);
                }
            }
            assert forall|k: int| 0 <= k < next.registry.len() implies next.done.contains(
                #[trigger] next.registry[k].source_path,
            ) by {
                if k < s.registry.len() {
                    assert(next.registry[k] == s.registry[k]);
                    let j = choose|j: int| 0 <= j < s.done.len() && s.done[j] == s.registry[k].source_path;
                    assert(next.done[j] == s.done[j]);
                } else {
                    assert(next.registry[k] == fi[k - s.registry.len()]);
                    assert(next.done[s.done.len() as int] == top.path);
                }
            }
            assert forall|i: int, j: int|
                0 <= i < next.stack.len() && 0 <= j < next.done.len() implies next.stack[i].path
                != next.done[j] by {
                if j == s.done.len() {
                    assert(s.stack[i].path != s.stack[s.stack.len() - 1].path);
                } else {
                    assert(next.done[j] == s.done[j]);
                }
            }
            assert(consistent(next));
            lemma_settle_registers_once(next);
            let t = settle(next).0;
            assert(settle(s).0 == t);
            assert forall|p: Seq<char>| s.done.contains(p) implies from_file(t.registry, p)
                == from_file(s.registry, p) by {
                let j = choose|j: int| 0 <= j < s.done.len() && s.done[j] == p;
                assert(next.done[j] == p);
                lemma_from_file_append(s.registry, fi, p);
                assert(p != top.path);
                lemma_from_file_absent(fi, p);
                assert(from_file(s.registry, p) + Seq::<InstanceView>::empty() =~= from_file(s.registry, p));
            }
            assert forall|k: int|
                0 <= k < s.stack.len() && t.done.contains(#[trigger] s.stack[k].path) implies from_file(
                t.registry,
                s.stack[k].path,
            ) == frame_instances(s.stack[k]) by {
                if k == s.stack.len() - 1 {
                    assert(next.done.contains(top.path)) by {
                        assert(next.done[s.done.len() as int] == top.path);
                    }
                    lemma_from_file_append(s.registry, fi, top.path);
                    assert forall|m: int| 0 <= m < s.registry.len() implies s.registry[m].source_path
                        != top.path by {
                        assert(s.done.contains(s.registry[m].source_path));
                    }
                    lemma_from_file_absent(s.registry, top.path);
                    lemma_from_file_all(fi, top.path);
                    assert(Seq::<InstanceView>::empty() + fi =~= fi);
                } else {
                    assert(next.stack[k] == s.stack[k]);
                }
            }
        }
    }
}

/// Each file's tasks are registered exactly once. Taking in a file that is
/// not open keeps the loader's bookkeeping consistent; a file registered
/// before gains no instance; and every file whose tasks this step registers
/// (the file just read, or an open file whose includes are now all loaded)
/// has in the registry exactly the instances of its own tasks, one per
/// declaration, however deep it lies in the inclusion graph.
pub proof fn each_file_registered_once(
    l: LoaderView,
    path: Seq<char>,
    files: Seq<Seq<char>>,
    tasks: Seq<(Seq<char>, TaskView)>,
)
    requires
        consistent(l),
        !is_open(l.stack, path),
    ensures
        ({
            let after = settle(enter(l, path, files, tasks)).0;
            &&& consistent(after)
            &&& forall|p: Seq<char>|
                l.done.contains(p) ==> from_file(after.registry, p) == from_file(l.registry, p)
            &&& (!l.done.contains(path) && after.done.contains(path)) ==> from_file(after.registry, path)
                == file_instances(path, project_of(path), tasks)
            &&& forall|k: int|
                0 <= k < l.stack.len() && after.done.contains(#[trigger] l.stack[k].path) ==> from_file(
                    after.registry,
                    l.stack[k].path,
                ) == frame_instances(l.stack[k])
        }),
{
    let e = enter(l, path, files, tasks);
    if !l.done.contains(path) {
        assert forall|i: int, j: int| 0 <= i < j < e.stack.len() implies e.stack[i].path != e.stack[j].path by {
            if j == l.stack.len() {
                assert(e.stack[i] == l.stack[i]);
            } else {
                assert(e.stack[i] == l.stack[i] && e.stack[j] == l.stack[j]);
            }
        }
        assert forall|i: int, j: int|
            0 <= i < e.stack.len() && 0 <= j < e.done.len() implies e.stack[i].path != e.done[j] by {
            if i == l.stack.len() {
                assert(l.done[j] != path);
            } else {
                assert(e.stack[i] == l.stack[i]);
            }
        }
    }
    assert(consistent(e));
    lemma_settle_registers_once(e);
    assert forall|k: int|
        0 <= k < l.stack.len() implies e.stack[k] == l.stack[k] by {}
    if !l.done.contains(path) {
        let last = l.stack.len() as int;
        assert(e.stack[last].path == path);
    }
}

/// A loader that has read nothing is consistent.
pub proof fn start_is_consistent()
    ensures
        consistent(LoaderView { stack: Seq::empty(), done: Seq::empty(), registry: Seq::empty() }),
{
}

} // verus!
