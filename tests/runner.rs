use rt::dispatch::{
    check_executables, has_program, plan_dispatch, run_status, DispatchError, Launch,
    FATAL_EXIT_CODE, SIGNALLED_EXIT_CODE,
};
use rt::loader::{register_file, duplicate_name, LoadError, LoadStep, Loader};
use rt::paths::{parent_dir, project_name};
use rt::platform::resolve;
use rt::registry::TaskRegistry;
use rt::task::{NamedTask, Task, TaskFile};

fn s(x: &str) -> String {
    x.to_string()
}

fn task(platform: &str, commands: Option<Vec<&str>>) -> Task {
    Task { platform: s(platform), commands: commands.map(|c| c.into_iter().map(s).collect()) }
}

fn named(name: &str, t: Task) -> NamedTask {
    NamedTask { name: s(name), task: t }
}

fn file(files: Vec<&str>, tasks: Vec<NamedTask>) -> TaskFile {
    TaskFile { files: files.into_iter().map(s).collect(), tasks }
}

/// Loads a graph given as (name to read, resolved path, contents) in the order
/// the loader asks for them.
fn load(root: &str, files: Vec<(&str, &str, TaskFile)>) -> Result<TaskRegistry, LoadError> {
    let (mut loader, mut step) = Loader::start(root);
    let mut files = files.into_iter();
    loop {
        match step {
            LoadStep::Done => return Ok(loader.into_registry()),
            LoadStep::Read(name) => {
                let (expected, path, contents) = files.next().expect("a file was asked for");
                assert_eq!(name, expected);
                step = loader.file_read(s(path), contents)?;
            }
        }
    }
}

#[test]
fn single_root_file_registers_each_task_once() {
    let reg = load(
        "rt.yaml",
        vec![(
            "rt.yaml",
            "/work/rt.yaml",
            file(vec![], vec![named("build", task("cargo", None)), named("dev", task("npm", Some(vec!["start"])))]),
        )],
    )
    .unwrap();
    assert_eq!(reg.len(), 2);
    let build = reg.lookup("build").unwrap();
    assert_eq!(build.len(), 1);
    assert_eq!(build[0].project, "rt");
    assert_eq!(build[0].source_path, "/work/rt.yaml");
    assert_eq!(reg.lookup("dev").unwrap().len(), 1);
    assert!(reg.lookup("test").is_none());
}

#[test]
fn build_runs_cargo_run_in_the_file_directory() {
    let reg = load(
        "rt.yaml",
        vec![("rt.yaml", "/work/rt.yaml", file(vec![], vec![named("build", task("cargo", None))]))],
    )
    .unwrap();
    let plan = plan_dispatch(&reg, "build", None, false).unwrap();
    assert_eq!(
        plan,
        vec![Launch { program: s("cargo"), args: vec![s("run")], dir: s("/work") }]
    );
    assert_eq!(check_executables(&plan, &vec![true]), Ok(()));
    assert_eq!(run_status(&vec![Some(0)]), 0);
}

#[test]
fn included_file_and_root_both_launch_dev() {
    let reg = load(
        "rt.yaml",
        vec![
            (
                "rt.yaml",
                "/work/rt.yaml",
                file(vec!["sub/rt.yaml"], vec![named("dev", task("npm", Some(vec!["run", "watch"])))]),
            ),
            ("sub/rt.yaml", "/work/sub/rt.yaml", file(vec![], vec![named("dev", task("npm", Some(vec!["start"])))])),
        ],
    )
    .unwrap();
    let dev = reg.lookup("dev").unwrap();
    assert_eq!(dev.len(), 2);
    assert_ne!(dev[0].source_path, dev[1].source_path);
    let plan = plan_dispatch(&reg, "dev", None, false).unwrap();
    assert_eq!(
        plan,
        vec![
            Launch { program: s("npm"), args: vec![s("exec"), s("start")], dir: s("/work/sub") },
            Launch { program: s("npm"), args: vec![s("exec"), s("run"), s("watch")], dir: s("/work") },
        ]
    );
}

#[test]
fn same_name_in_two_projects_gives_distinct_instances() {
    let reg = load(
        "all.yaml",
        vec![
            ("all.yaml", "/w/all.yaml", file(vec!["web.yaml", "api.yaml"], vec![])),
            ("web.yaml", "/w/web.yaml", file(vec![], vec![named("dev", task("yarn", None))])),
            ("api.yaml", "/w/api.yaml", file(vec![], vec![named("dev", task("cargo", None))])),
        ],
    )
    .unwrap();
    let dev = reg.lookup("dev").unwrap();
    assert_eq!(dev.len(), 2);
    assert_eq!(dev[0].project, "web");
    assert_eq!(dev[1].project, "api");
    let only_api = plan_dispatch(&reg, "dev", Some("api"), false).unwrap();
    assert_eq!(only_api, vec![Launch { program: s("cargo"), args: vec![s("run")], dir: s("/w") }]);
}

#[test]
fn absent_project_filter_launches_nothing() {
    let reg = load(
        "rt.yaml",
        vec![("rt.yaml", "/work/rt.yaml", file(vec![], vec![named("dev", task("npm", None))]))],
    )
    .unwrap();
    assert_eq!(plan_dispatch(&reg, "dev", Some("elsewhere"), false), Ok(vec![]));
    assert_eq!(plan_dispatch(&reg, "dev", Some("elsewhere"), false), Ok(vec![]));
    assert_eq!(run_status(&vec![]), 0);
}

#[test]
fn unknown_platform_aborts_dispatch() {
    let reg = load(
        "rt.yaml",
        vec![(
            "rt.yaml",
            "/work/rt.yaml",
            file(vec![], vec![named("dev", task("cargo", None)), named("lint", task("foo", None))]),
        )],
    )
    .unwrap();
    assert_eq!(
        plan_dispatch(&reg, "lint", None, false),
        Err(DispatchError::UnsupportedPlatform { platform: s("foo"), path: s("/work/rt.yaml") })
    );
}

#[test]
fn unsupported_platform_among_siblings_fails_the_whole_plan() {
    let reg = load(
        "rt.yaml",
        vec![
            ("rt.yaml", "/w/rt.yaml", file(vec!["a.yaml"], vec![named("dev", task("npm", None))])),
            ("a.yaml", "/w/a.yaml", file(vec![], vec![named("dev", task("foo", None))])),
        ],
    )
    .unwrap();
    assert_eq!(
        plan_dispatch(&reg, "dev", None, false),
        Err(DispatchError::UnsupportedPlatform { platform: s("foo"), path: s("/w/a.yaml") })
    );
}

#[test]
fn unknown_task_name_aborts_dispatch() {
    let reg = load(
        "rt.yaml",
        vec![("rt.yaml", "/work/rt.yaml", file(vec![], vec![named("build", task("cargo", None))]))],
    )
    .unwrap();
    assert_eq!(
        plan_dispatch(&reg, "deploy", None, false),
        Err(DispatchError::UnknownTaskName { name: s("deploy") })
    );
    let empty = TaskRegistry::new();
    assert_eq!(
        plan_dispatch(&empty, "dev", Some("rt"), false),
        Err(DispatchError::UnknownTaskName { name: s("dev") })
    );
}

#[test]
fn self_include_is_a_cycle() {
    let r = load("rt.yaml", vec![("rt.yaml", "/w/rt.yaml", file(vec!["rt.yaml"], vec![])), ("rt.yaml", "/w/rt.yaml", file(vec!["rt.yaml"], vec![]))]);
    assert_eq!(r.err(), Some(LoadError::CyclicInclude { path: s("/w/rt.yaml") }));
}

#[test]
fn mutual_include_is_a_cycle() {
    let r = load(
        "a.yaml",
        vec![
            ("a.yaml", "/w/a.yaml", file(vec!["b.yaml"], vec![])),
            ("b.yaml", "/w/b.yaml", file(vec!["a.yaml"], vec![])),
            ("a.yaml", "/w/a.yaml", file(vec!["b.yaml"], vec![])),
        ],
    );
    assert_eq!(r.err(), Some(LoadError::CyclicInclude { path: s("/w/a.yaml") }));
}

#[test]
fn shared_include_is_registered_once() {
    let common = || file(vec![], vec![named("dev", task("pnpm", None))]);
    let reg = load(
        "rt.yaml",
        vec![
            ("rt.yaml", "/w/rt.yaml", file(vec!["a.yaml", "b.yaml"], vec![])),
            ("a.yaml", "/w/a.yaml", file(vec!["common.yaml"], vec![])),
            ("common.yaml", "/w/common.yaml", common()),
            ("b.yaml", "/w/b.yaml", file(vec!["common.yaml"], vec![])),
            ("common.yaml", "/w/common.yaml", common()),
        ],
    )
    .unwrap();
    assert_eq!(reg.len(), 1);
    assert_eq!(reg.lookup("dev").unwrap()[0].project, "common");
}

#[test]
fn includes_register_before_the_including_file() {
    let reg = load(
        "rt.yaml",
        vec![
            ("rt.yaml", "/w/rt.yaml", file(vec!["a/x.yaml"], vec![named("t", task("npm", None))])),
            ("a/x.yaml", "/w/a/x.yaml", file(vec!["a/b/y.yaml"], vec![named("t", task("npm", None))])),
            ("a/b/y.yaml", "/w/a/b/y.yaml", file(vec![], vec![named("t", task("npm", None))])),
        ],
    )
    .unwrap();
    let t = reg.lookup("t").unwrap();
    let projects: Vec<&str> = t.iter().map(|i| i.project.as_str()).collect();
    assert_eq!(projects, vec!["y", "x", "rt"]);
}

#[test]
fn duplicate_task_in_one_file_is_refused() {
    let (mut loader, _) = Loader::start("rt.yaml");
    let r = loader.file_read(
        s("/w/rt.yaml"),
        file(vec![], vec![named("dev", task("npm", None)), named("dev", task("yarn", None))]),
    );
    assert_eq!(r, Err(LoadError::DuplicateTask { path: s("/w/rt.yaml"), name: s("dev") }));
    assert_eq!(loader.registry().len(), 0);
    assert_eq!(duplicate_name(&vec![named("a", task("npm", None)), named("b", task("npm", None))]), None);
}

#[test]
fn register_file_appends_one_instance_per_task() {
    let mut reg = TaskRegistry::new();
    register_file(&mut reg, &s("/p/web.yaml"), &s("web"), &vec![named("a", task("npm", None)), named("b", task("cargo", Some(vec!["x"])))]);
    assert_eq!(reg.len(), 2);
    assert_eq!(reg.get(1).name, "b");
    assert_eq!(reg.get(1).task, task("cargo", Some(vec!["x"])));
    assert_eq!(reg.get(0).project, "web");
}

#[test]
fn platform_table_entries() {
    let e = resolve("npm", false).unwrap();
    assert_eq!((e.executable.as_str(), e.verb.as_str()), ("npm", "exec"));
    let e = resolve("npm", true).unwrap();
    assert_eq!(e.executable, "npm.cmd");
    let e = resolve("pnpm", true).unwrap();
    assert_eq!((e.executable.as_str(), e.verb.as_str()), ("pnpm", "exec"));
    let e = resolve("yarn", false).unwrap();
    assert_eq!((e.executable.as_str(), e.verb.as_str()), ("yarn", "run"));
    assert_eq!(resolve("yarn", true).unwrap().executable, "yarn.cmd");
    let e = resolve("cargo", true).unwrap();
    assert_eq!((e.executable.as_str(), e.verb.as_str()), ("cargo", "run"));
    assert!(resolve("foo", false).is_none());
    assert!(resolve("", false).is_none());
    assert!(resolve("Npm", false).is_none());
}

#[test]
fn platform_resolution_is_deterministic() {
    assert_eq!(resolve("yarn", false), resolve("yarn", false));
    assert_eq!(resolve("cargo", true), resolve("cargo", true));
}

#[test]
fn project_names_drop_the_extension() {
    assert_eq!(project_name("/work/rt.yaml"), "rt");
    assert_eq!(project_name("/work/app.tasks.yaml"), "app.tasks");
    assert_eq!(project_name("/work/.hidden"), ".hidden");
    assert_eq!(project_name("/work/plain"), "plain");
    assert_eq!(project_name("web.yml"), "web");
}

#[test]
fn parent_directories() {
    assert_eq!(parent_dir("/work/sub/rt.yaml"), "/work/sub");
    assert_eq!(parent_dir("/rt.yaml"), "/");
    assert_eq!(parent_dir("rt.yaml"), "");
}

#[test]
fn program_search_outcome() {
    assert!(has_program(Some(0)));
    assert!(!has_program(Some(1)));
    assert!(!has_program(None));
}

#[test]
fn missing_executable_is_reported_first() {
    let plan = vec![
        Launch { program: s("npm"), args: vec![s("exec")], dir: s("/a") },
        Launch { program: s("yarn"), args: vec![s("run")], dir: s("/b") },
        Launch { program: s("cargo"), args: vec![s("run")], dir: s("/c") },
    ];
    assert_eq!(
        check_executables(&plan, &vec![true, false, false]),
        Err(DispatchError::ExecutableNotFound { program: s("yarn") })
    );
    assert_eq!(check_executables(&plan, &vec![true, true, true]), Ok(()));
}

#[test]
fn run_status_reports_first_failure() {
    assert_eq!(run_status(&vec![Some(0), Some(3), Some(4)]), 3);
    assert_eq!(run_status(&vec![Some(0), None, Some(4)]), SIGNALLED_EXIT_CODE);
    assert_eq!(run_status(&vec![Some(0), Some(0)]), 0);
    assert_ne!(FATAL_EXIT_CODE, 0);
}
