use std::collections::HashMap;
use std::io;

use omni::{
    check_duplicate_project_names, expand_env_files, find_root_dir, find_workspace_file,
    get_root_dir, probe_candidates, project_glob_patterns, project_glob_set,
    project_paths_from_answers, read_workspace_file, root_dir_from_probes, task_env_key,
    workspace_file_from_probes, CliArgs, ConfigFileNames, Context, ContextError, ContextSys,
    EntryAnswer, EntryKind, FileAnswer, FileProbe, GlobFilter, Project, ProjectConfig,
    ProjectFileAnswer,
};
use omni::{extends_step, find_root_dir_from, projects_from_configs};

#[derive(Clone)]
struct MemSys {
    cwd: String,
    dirs: Vec<String>,
    files: Vec<(String, Vec<u8>)>,
}

fn not_found(path: &str) -> io::Error {
    io::Error::new(io::ErrorKind::NotFound, path.to_string())
}

impl ContextSys for MemSys {
    fn env_current_dir(&self) -> Result<String, io::Error> {
        Ok(self.cwd.clone())
    }

    fn fs_exists(&self, path: &str) -> Result<bool, io::Error> {
        Ok(self.dirs.iter().any(|d| d == path) || self.files.iter().any(|(f, _)| f == path))
    }

    fn fs_is_file(&self, path: &str) -> Result<bool, io::Error> {
        Ok(self.files.iter().any(|(f, _)| f == path))
    }

    fn fs_is_dir(&self, path: &str) -> Result<bool, io::Error> {
        Ok(self.dirs.iter().any(|d| d == path))
    }

    fn fs_canonicalize(&self, path: &str) -> Result<String, io::Error> {
        if self.fs_exists(path)? {
            Ok(path.to_string())
        } else {
            Err(not_found(path))
        }
    }

    fn fs_read(&self, path: &str) -> Result<Vec<u8>, io::Error> {
        self.files
            .iter()
            .find(|(f, _)| f == path)
            .map(|(_, c)| c.clone())
            .ok_or_else(|| not_found(path))
    }
}

fn names() -> ConfigFileNames {
    ConfigFileNames {
        workspace_template: "workspace.omni.{ext}".to_string(),
        project_template: "project.omni.{ext}".to_string(),
        extensions: vec!["yaml".to_string(), "yml".to_string()],
    }
}

fn create_sys() -> MemSys {
    MemSys {
        cwd: "/root/nested/project-1".to_string(),
        dirs: vec![
            "/root".to_string(),
            "/root/base".to_string(),
            "/root/nested".to_string(),
            "/root/nested/project-1".to_string(),
            "/root/nested/project-2".to_string(),
            "/root/nested/project-3".to_string(),
        ],
        files: vec![
            ("/root/workspace.omni.yaml".to_string(), b"projects: []".to_vec()),
            ("/root/nested/project-1/project.omni.yaml".to_string(), vec![]),
            ("/root/nested/project-2/project.omni.yaml".to_string(), vec![]),
            ("/root/nested/project-3/project.omni.yml".to_string(), vec![]),
            ("/root/base/base-1.omni.yaml".to_string(), vec![]),
        ],
    }
}

fn cli(env: &str) -> CliArgs {
    CliArgs {
        env: Some(env.to_string()),
        env_file: vec![
            ".env".to_string(),
            ".env.local".to_string(),
            ".env.{ENV}".to_string(),
            ".env.{ENV}.local".to_string(),
        ],
        env_root_dir_marker: None,
    }
}

fn create_ctx(env: &str, sys: Option<MemSys>) -> Context<MemSys> {
    let sys = sys.unwrap_or_else(create_sys);
    match Context::from_args_and_sys(&cli(env), &names(), sys) {
        Ok(ctx) => ctx,
        Err(e) => panic!("Can't create context: {}", e.message()),
    }
}

fn project(name: &str, dir: &str) -> Project {
    Project::new(name.to_string(), dir.to_string(), vec![], HashMap::new())
}

fn walk_entries() -> Vec<String> {
    create_sys().dirs
}

#[test]
fn from_args_and_sys_builds_context() {
    let ctx = create_ctx("testing", None);
    assert_eq!(
        ctx.env_files(),
        &[".env", ".env.local", ".env.testing", ".env.testing.local"]
    );
    assert_eq!(ctx.env_root_dir_marker(), "workspace.omni.yaml");
    assert_eq!(ctx.root_dir(), "/root");
    assert_eq!(ctx.workspace_file(), "/root/workspace.omni.yaml");
    assert!(ctx.get_projects().is_none());
    assert_eq!(ctx.get_current_dir().unwrap(), "/root/nested/project-1");
    assert_eq!(ctx.sys().cwd, "/root/nested/project-1");
}

#[test]
fn from_args_and_sys_keeps_given_marker_and_defaults_env() {
    let args = CliArgs {
        env: None,
        env_file: vec![".env.{ENV}".to_string()],
        env_root_dir_marker: Some("marker".to_string()),
    };
    let ctx = Context::from_args_and_sys(&args, &names(), create_sys()).unwrap();
    assert_eq!(ctx.env_files(), &[".env.development"]);
    assert_eq!(ctx.env_root_dir_marker(), "marker");
}

#[test]
fn from_args_and_sys_fails_without_workspace() {
    let mut sys = create_sys();
    sys.files.retain(|(f, _)| f != "/root/workspace.omni.yaml");
    let r = Context::from_args_and_sys(&cli("testing"), &names(), sys);
    match r {
        Err(e) => assert_eq!(e.message(), "Could not find workspace configuration file"),
        Ok(_) => panic!("Should be an error"),
    }
}

#[test]
fn expand_env_files_replaces_env() {
    let files = vec![".env.{ENV}".to_string(), "{ENV}/{ENV}".to_string(), ".env".to_string()];
    assert_eq!(
        expand_env_files(&Some("prod".to_string()), &files),
        vec![".env.prod", "prod/prod", ".env"]
    );
    assert_eq!(expand_env_files(&None, &files)[0], ".env.development");
}

#[test]
fn root_dir_is_nearest_ancestor_with_workspace_file() {
    let sys = create_sys();
    assert_eq!(get_root_dir(&sys, &names()).unwrap(), "/root");
    let mut nested = create_sys();
    nested.files.push(("/root/nested/workspace.omni.yml".to_string(), vec![]));
    assert_eq!(get_root_dir(&nested, &names()).unwrap(), "/root/nested");
    assert_eq!(find_root_dir(&sys, "/root", &names()).unwrap(), "/root");
}

#[test]
fn root_dir_not_found() {
    let sys = create_sys();
    assert!(matches!(
        find_root_dir(&sys, "/other/dir", &names()),
        Err(ContextError::WorkspaceNotFound)
    ));
    let mut no_exts = names();
    no_exts.extensions.clear();
    assert!(matches!(get_root_dir(&sys, &no_exts), Err(ContextError::WorkspaceNotFound)));
}

#[test]
fn root_dir_search_ignores_directories_named_like_workspace_file() {
    let mut sys = create_sys();
    sys.dirs.push("/root/nested/workspace.omni.yaml".to_string());
    assert_eq!(get_root_dir(&sys, &names()).unwrap(), "/root");
}

#[test]
fn workspace_file_is_read() {
    let sys = create_sys();
    assert_eq!(find_workspace_file(&sys, "/root", &names()).unwrap(), "/root/workspace.omni.yaml");
    let (path, bytes) = read_workspace_file(&sys, "/root", &names()).unwrap();
    assert_eq!(path, "/root/workspace.omni.yaml");
    assert_eq!(bytes, b"projects: []".to_vec());
    assert!(matches!(
        find_workspace_file(&sys, "/root/base", &names()),
        Err(ContextError::WorkspaceNotFound)
    ));
}

#[test]
fn io_errors_are_reported() {
    struct Broken;
    impl ContextSys for Broken {
        fn env_current_dir(&self) -> Result<String, io::Error> {
            Err(io::Error::new(io::ErrorKind::Other, "no cwd"))
        }
        fn fs_exists(&self, _: &str) -> Result<bool, io::Error> {
            Err(io::Error::new(io::ErrorKind::Other, "no fs"))
        }
        fn fs_is_file(&self, _: &str) -> Result<bool, io::Error> {
            Ok(false)
        }
        fn fs_is_dir(&self, _: &str) -> Result<bool, io::Error> {
            Ok(false)
        }
        fn fs_canonicalize(&self, p: &str) -> Result<String, io::Error> {
            Ok(p.to_string())
        }
        fn fs_read(&self, _: &str) -> Result<Vec<u8>, io::Error> {
            Ok(vec![])
        }
    }
    match get_root_dir(&Broken, &names()) {
        Err(ContextError::Io(e)) => assert_eq!(e.to_string(), "no cwd"),
        _ => panic!("Should be an io error"),
    }
    match find_root_dir(&Broken, "/root", &names()) {
        Err(e @ ContextError::Io(_)) => assert_eq!(e.message(), "no fs"),
        _ => panic!("Should be an io error"),
    }
}

#[test]
fn task_env_key_joins_with_hash() {
    assert_eq!(task_env_key("project-1", "build"), "project-1#build");
}

#[test]
fn project_globs_are_under_root() {
    let globs = vec!["nested/*".to_string(), "base".to_string()];
    assert_eq!(project_glob_patterns("/root", &globs), vec!["/root/nested/*", "/root/base"]);
    let set = project_glob_set("/root", &globs).unwrap();
    assert!(set.is_match("/root/nested/project-1"));
    assert!(!set.is_match("/root/other"));
    assert!(matches!(
        project_glob_set("/root", &vec!["nested/[".to_string()]),
        Err(ContextError::Glob(_))
    ));
}

#[test]
fn find_project_paths_selects_matching_dirs_with_project_files() {
    let ctx = create_ctx("testing", None);
    let globs = vec!["nested/*".to_string()];
    let paths = ctx.find_project_paths(&walk_entries(), &globs, &names()).unwrap();
    assert_eq!(
        paths,
        vec![
            "/root/nested/project-1/project.omni.yaml",
            "/root/nested/project-2/project.omni.yaml",
            "/root/nested/project-3/project.omni.yml",
        ]
    );
    let none = ctx.find_project_paths(&walk_entries(), &vec!["base".to_string()], &names()).unwrap();
    assert!(none.is_empty());
    assert!(matches!(
        ctx.find_project_paths(&walk_entries(), &vec!["[".to_string()], &names()),
        Err(ContextError::Glob(_))
    ));
}

#[test]
fn test_load_projects_with_duplicate_names() {
    let mut sys = create_sys();
    sys.files.retain(|(f, _)| !f.ends_with("project.omni.yaml") && !f.ends_with("project.omni.yml"));
    for (dir, name) in [
        ("/root/nested/project-1", "project-1"),
        ("/root/nested/project-2", "project-2"),
        ("/root/nested/project-3", "project-3"),
        ("/root/nested/project-4", "project-1"),
    ] {
        if !sys.dirs.iter().any(|d| d == dir) {
            sys.dirs.push(dir.to_string());
        }
        sys.files.push((format!("{}/project.omni.yaml", dir), format!("name: {}", name).into_bytes()));
    }

    let mut ctx = create_ctx("testing", Some(sys.clone()));

    let mut entries = walk_entries();
    entries.push("/root/nested/project-4".to_string());
    let paths = ctx
        .find_project_paths(&entries, &vec!["nested/*".to_string()], &names())
        .expect("Can't find projects");
    assert_eq!(paths.len(), 4);

    let configs: Vec<ProjectConfig> = paths
        .iter()
        .map(|p| {
            let text = String::from_utf8(sys.fs_read(p).unwrap()).unwrap();
            let name = text.trim_start_matches("name: ").to_string();
            config(&name, p, &[])
        })
        .collect();

    let projects = ctx.load_projects(configs, &paths);

    assert!(
        projects
            .expect_err("Should be an error")
            .message()
            .contains("Duplicate project name: project-1"),
        "Should report duplicate project name"
    );
    assert!(ctx.get_projects().is_none());
}

#[test]
fn duplicate_report_lists_all_dirs() {
    let projects = vec![
        project("a", "/a1"),
        project("b", "/b"),
        project("a", "/a2"),
        project("b", "/b2"),
        project("a", "/a3"),
    ];
    match check_duplicate_project_names(&projects) {
        Err(e @ ContextError::DuplicateProjectName { .. }) => {
            if let ContextError::DuplicateProjectName { name, dirs } = &e {
                assert_eq!(name, "a");
                assert_eq!(dirs, &vec!["/a1", "/a2", "/a3"]);
            }
            assert_eq!(
                e.message(),
                "Duplicate project name: a\n\nProjects with same name:\n  -> /a1\n  -> /a2\n  -> /a3"
            );
        }
        _ => panic!("Should be a duplicate error"),
    }
    assert!(check_duplicate_project_names(&vec![project("a", "/a"), project("b", "/b")]).is_ok());
    assert!(check_duplicate_project_names(&vec![]).is_ok());
}

#[test]
fn stored_projects_are_returned_and_filtered() {
    let mut ctx = create_ctx("testing", None);
    let stored = ctx
        .store_projects(vec![
            project("project-1", "/root/nested/project-1"),
            project("project-2", "/root/nested/project-2"),
            project("lib-a", "/root/nested/lib-a"),
        ])
        .unwrap();
    assert_eq!(stored.len(), 3);
    assert_eq!(ctx.get_projects().unwrap().len(), 3);

    let all = ctx.get_filtered_projects("*").unwrap();
    assert_eq!(all.len(), 3);
    let all2 = ctx.get_filtered_projects("**").unwrap();
    assert_eq!(all2.len(), 3);

    let some = ctx.get_filtered_projects("project-*").unwrap();
    let names: Vec<&str> = some.iter().map(|p| p.name.as_str()).collect();
    assert_eq!(names, vec!["project-1", "project-2"]);

    let none = ctx.get_filtered_projects("nothing").unwrap();
    assert!(none.is_empty());

    assert!(matches!(ctx.get_filtered_projects("[a"), Err(ContextError::Glob(_))));
    assert!(ctx.get_filter_matcher("project-?").is_ok());
    assert!(ctx.get_filter_matcher("{a").is_err());
}

#[test]
fn filtering_before_loading() {
    let ctx = create_ctx("testing", None);
    match ctx.get_filtered_projects("*") {
        Err(e @ ContextError::ProjectsNotLoaded) => {
            assert_eq!(e.message(), "Failed to get projects")
        }
        _ => panic!("Should be an error"),
    }
    assert!(matches!(ctx.get_filtered_projects("[a"), Err(ContextError::Glob(_))));
    assert!(ctx.try_get_filtered_projects("project-*").is_none());
    assert!(matches!(
        ctx.try_get_filtered_projects("**"),
        Some(Err(ContextError::ProjectsNotLoaded))
    ));
    assert!(matches!(ctx.try_get_filtered_projects("[a"), Some(Err(ContextError::Glob(_)))));
}

#[test]
fn try_filter_after_loading() {
    let mut ctx = create_ctx("testing", None);
    ctx.store_projects(vec![project("x", "/x"), project("y", "/y")]).unwrap();
    let r = ctx.try_get_filtered_projects("x").unwrap().unwrap();
    assert_eq!(r.len(), 1);
    assert_eq!(r[0].dir, "/x");
}

#[test]
fn project_dir_is_parent_of_config_file() {
    assert_eq!(
        omni::project_dir_of("/root/nested/project-1/project.omni.yaml").unwrap(),
        "/root/nested/project-1"
    );
    match omni::project_dir_of("/") {
        Err(e @ ContextError::NoParentDir) => assert_eq!(e.message(), "Can't get parent"),
        _ => panic!("Should be an error"),
    }
}

#[test]
fn workspace_contents_are_kept() {
    let ctx = create_ctx("testing", None);
    assert_eq!(ctx.workspace_contents(), b"projects: []");
}

#[test]
fn unreadable_workspace_file_fails_context() {
    #[derive(Clone)]
    struct NoRead(MemSys);
    impl ContextSys for NoRead {
        fn env_current_dir(&self) -> Result<String, io::Error> {
            self.0.env_current_dir()
        }
        fn fs_exists(&self, p: &str) -> Result<bool, io::Error> {
            self.0.fs_exists(p)
        }
        fn fs_is_file(&self, p: &str) -> Result<bool, io::Error> {
            self.0.fs_is_file(p)
        }
        fn fs_is_dir(&self, p: &str) -> Result<bool, io::Error> {
            self.0.fs_is_dir(p)
        }
        fn fs_canonicalize(&self, p: &str) -> Result<String, io::Error> {
            self.0.fs_canonicalize(p)
        }
        fn fs_read(&self, _: &str) -> Result<Vec<u8>, io::Error> {
            Err(io::Error::new(io::ErrorKind::PermissionDenied, "denied"))
        }
    }
    match Context::from_args_and_sys(&cli("testing"), &names(), NoRead(create_sys())) {
        Err(e @ ContextError::Io(_)) => assert_eq!(e.message(), "denied"),
        _ => panic!("Should be an io error"),
    }
}

#[test]
fn first_project_file_name_wins() {
    let mut sys = create_sys();
    sys.files.push(("/root/nested/project-1/project.omni.yml".to_string(), vec![]));
    let ctx = create_ctx("testing", Some(sys));
    let paths = ctx
        .find_project_paths(&vec!["/root/nested/project-1".to_string()], &vec!["nested/*".to_string()], &names())
        .unwrap();
    assert_eq!(paths, vec!["/root/nested/project-1/project.omni.yaml"]);
}

#[test]
fn project_search_stops_at_failed_call() {
    struct DirFails(MemSys);
    impl ContextSys for DirFails {
        fn env_current_dir(&self) -> Result<String, io::Error> {
            self.0.env_current_dir()
        }
        fn fs_exists(&self, p: &str) -> Result<bool, io::Error> {
            self.0.fs_exists(p)
        }
        fn fs_is_file(&self, p: &str) -> Result<bool, io::Error> {
            self.0.fs_is_file(p)
        }
        fn fs_is_dir(&self, p: &str) -> Result<bool, io::Error> {
            if p == "/root/nested/project-2" {
                Err(io::Error::new(io::ErrorKind::Other, "walk failed"))
            } else {
                self.0.fs_is_dir(p)
            }
        }
        fn fs_canonicalize(&self, p: &str) -> Result<String, io::Error> {
            self.0.fs_canonicalize(p)
        }
        fn fs_read(&self, p: &str) -> Result<Vec<u8>, io::Error> {
            self.0.fs_read(p)
        }
    }
    let ctx = Context::from_args_and_sys(&cli("testing"), &names(), DirFails(create_sys())).unwrap();
    match ctx.find_project_paths(&walk_entries(), &vec!["nested/*".to_string()], &names()) {
        Err(e @ ContextError::Io(_)) => assert_eq!(e.message(), "walk failed"),
        _ => panic!("Should be an io error"),
    }
}

fn probe(path: &str, answer: FileAnswer) -> FileProbe {
    FileProbe { path: path.to_string(), answer }
}

fn entry(path: &str, kind: EntryKind) -> EntryAnswer {
    EntryAnswer { entry: path.to_string(), kind }
}

#[test]
fn probes_are_asked_in_order_until_decided() {
    let sys = create_sys();
    let cands = vec![
        "/root/nested".to_string(),
        "/nowhere".to_string(),
        "/root/workspace.omni.yaml".to_string(),
        "/root/base/base-1.omni.yaml".to_string(),
    ];
    let probes = probe_candidates(&sys, &cands);
    assert_eq!(probes.len(), 3);
    assert!(matches!(probes[0].answer, FileAnswer::NotFile));
    assert!(matches!(probes[1].answer, FileAnswer::Absent));
    assert!(matches!(probes[2].answer, FileAnswer::File));
    for (p, c) in probes.iter().zip(cands.iter()) {
        assert_eq!(&p.path, c);
    }
    assert_eq!(workspace_file_from_probes(&cands, probes).unwrap(), "/root/workspace.omni.yaml");
}

#[test]
fn decisions_from_answers() {
    let ancestors = vec!["/a/b".to_string(), "/a".to_string(), "/".to_string()];
    let found = vec![
        vec![probe("/a/b/w.yaml", FileAnswer::Absent), probe("/a/b/w.yml", FileAnswer::NotFile)],
        vec![probe("/a/w.yaml", FileAnswer::File)],
    ];
    assert_eq!(root_dir_from_probes(&ancestors, found).unwrap(), "/a");
    let failed = vec![vec![probe(
        "/a/b/w.yaml",
        FileAnswer::Failed(io::Error::new(io::ErrorKind::Other, "boom")),
    )]];
    match root_dir_from_probes(&ancestors, failed) {
        Err(ContextError::Io(e)) => assert_eq!(e.to_string(), "boom"),
        _ => panic!("Should be an io error"),
    }
    let none = vec![
        vec![probe("/a/b/w.yaml", FileAnswer::Absent)],
        vec![probe("/a/w.yaml", FileAnswer::Absent)],
        vec![probe("/w.yaml", FileAnswer::NotFile)],
    ];
    assert!(matches!(root_dir_from_probes(&ancestors, none), Err(ContextError::WorkspaceNotFound)));
    let cands = vec!["x".to_string(), "y".to_string()];
    assert!(matches!(
        workspace_file_from_probes(
            &cands,
            vec![probe("x", FileAnswer::Absent), probe("y", FileAnswer::Absent)]
        ),
        Err(ContextError::WorkspaceNotFound)
    ));

    let answers = vec![
        entry("/w/a", EntryKind::NotDir),
        entry(
            "/w/p1",
            EntryKind::Dir {
                canonical: "/r/p1".to_string(),
                files: vec![probe("/w/p1/project.omni.yaml", FileAnswer::File)],
                project: Some(ProjectFileAnswer {
                    asked: "/r/p1/project.omni.yaml".to_string(),
                    canonical: Ok("/r/p1/project.omni.yaml".to_string()),
                }),
            },
        ),
        entry(
            "/w/other",
            EntryKind::Dir { canonical: "/r/other".to_string(), files: vec![], project: None },
        ),
        entry(
            "/w/p2",
            EntryKind::Dir {
                canonical: "/r/p2".to_string(),
                files: vec![
                    probe("/w/p2/project.omni.yaml", FileAnswer::Absent),
                    probe("/w/p2/project.omni.yml", FileAnswer::File),
                ],
                project: Some(ProjectFileAnswer {
                    asked: "/r/p2/project.omni.yml".to_string(),
                    canonical: Ok("/r/p2/project.omni.yml".to_string()),
                }),
            },
        ),
    ];
    assert_eq!(
        project_paths_from_answers(answers).unwrap(),
        vec!["/r/p1/project.omni.yaml", "/r/p2/project.omni.yml"]
    );
    let failing = vec![
        entry("/w/a", EntryKind::NotDir),
        entry("/w/b", EntryKind::CanonicalFailed(io::Error::new(io::ErrorKind::Other, "canon"))),
    ];
    match project_paths_from_answers(failing) {
        Err(ContextError::Io(e)) => assert_eq!(e.to_string(), "canon"),
        _ => panic!("Should be an io error"),
    }
}

#[test]
fn current_dir_error_is_returned_as_is() {
    let sys = create_sys();
    let e = io::Error::new(io::ErrorKind::NotFound, "no cwd here");
    match find_root_dir_from(&sys, Err(e), &names()) {
        Err(ContextError::Io(e)) => assert_eq!(e.to_string(), "no cwd here"),
        _ => panic!("Should be the current directory's error"),
    }
    assert_eq!(
        find_root_dir_from(&sys, Ok("/root/nested/project-2".to_string()), &names()).unwrap(),
        "/root"
    );
}

fn config(name: &str, path: &str, extends: &[&str]) -> ProjectConfig {
    ProjectConfig {
        name: name.to_string(),
        path: path.to_string(),
        extends: extends.iter().map(|s| s.to_string()).collect(),
        dependencies: vec![],
        tasks: HashMap::new(),
    }
}

#[test]
fn extends_step_pushes_unloaded_configs() {
    let c = config("p3", "/r/p3/project.omni.yaml", &["/r/base/b1.yaml", "/r/p3/project.omni.yaml", "/r/base/b2.yaml"]);
    let (to_process, loaded) = extends_step(
        vec!["/r/p1/project.omni.yaml".to_string()],
        vec!["/r/base/b2.yaml".to_string()],
        &c,
    );
    assert_eq!(loaded, vec!["/r/base/b2.yaml", "/r/p3/project.omni.yaml"]);
    assert_eq!(to_process, vec!["/r/p1/project.omni.yaml", "/r/base/b1.yaml"]);
}

#[test]
fn projects_are_built_from_found_configs() {
    let mut tasks = HashMap::new();
    tasks.insert("build".to_string(), omni::Task::new("echo".to_string(), vec![]));
    let mut p1 = config("project-1", "/r/p1/project.omni.yaml", &[]);
    p1.tasks = tasks.clone();
    let configs = vec![
        config("base", "/r/base/b1.yaml", &[]),
        p1,
        config("project-2", "/r/p2/project.omni.yaml", &["/r/base/b1.yaml"]),
    ];
    let found = vec!["/r/p2/project.omni.yaml".to_string(), "/r/p1/project.omni.yaml".to_string()];
    let ps = projects_from_configs(configs, &found).unwrap();
    assert_eq!(ps.len(), 2);
    assert_eq!(ps[0].name, "project-1");
    assert_eq!(ps[0].dir, "/r/p1");
    assert_eq!(ps[0].tasks, tasks);
    assert_eq!(ps[1].name, "project-2");
    assert_eq!(ps[1].dir, "/r/p2");

    let bad = vec![config("root", "/", &[])];
    assert!(matches!(
        projects_from_configs(bad, &vec!["/".to_string()]),
        Err(ContextError::NoParentDir)
    ));
    assert!(projects_from_configs(vec![config("root", "/", &[])], &vec![]).unwrap().is_empty());
}

#[test]
fn test_load_projects() {
    let mut ctx = create_ctx("testing", None);
    let paths = ctx
        .find_project_paths(&walk_entries(), &vec!["nested/*".to_string()], &names())
        .expect("Can't load projects");
    let mut configs: Vec<ProjectConfig> = vec![config("base-1", "/root/base/base-1.omni.yaml", &[])];
    for (i, p) in paths.iter().enumerate() {
        configs.push(config(&format!("project-{}", i + 1), p, &["/root/base/base-1.omni.yaml"]));
    }
    ctx.load_projects(configs, &paths).expect("Can't load projects");

    let projects = ctx.get_projects().expect("Can't get projects");

    assert_eq!(projects.len(), 3, "Should be 3 projects");

    let project_1 = projects.iter().find(|p| p.name == "project-1");

    assert!(project_1.is_some(), "Can't find project-1");

    let project_2 = projects.iter().find(|p| p.name == "project-2");

    assert!(project_2.is_some(), "Can't find project-2");

    let project_3 = projects.iter().find(|p| p.name == "project-3");

    assert!(project_3.is_some(), "Can't find project-3");
}

#[test]
fn load_projects_without_parent_leaves_context() {
    let mut ctx = create_ctx("testing", None);
    let r = ctx.load_projects(vec![config("root", "/", &[])], &vec!["/".to_string()]);
    match r {
        Err(e @ ContextError::NoParentDir) => assert_eq!(e.message(), "Can't get parent"),
        _ => panic!("Should be an error"),
    }
    assert!(ctx.get_projects().is_none());
}

#[test]
fn glob_filter_matches_names() {
    let f = GlobFilter::new("project-*").unwrap();
    assert!(f.is_match("project-1"));
    assert!(!f.is_match("lib"));
    assert!(GlobFilter::new("[").is_err());
    let star = GlobFilter::new("*").unwrap();
    assert!(star.is_match("any/thing\nat all"));
}

#[test]
fn deeply_nested_filter_does_not_panic() {
    let ctx = create_ctx("testing", None);
    let mut pattern = String::new();
    for _ in 0..300 {
        pattern.push_str("{a,");
    }
    pattern.push('a');
    for _ in 0..300 {
        pattern.push('}');
    }
    match ctx.get_filter_matcher(&pattern) {
        Ok(f) => {
            let _ = f.is_match("a");
        }
        Err(e) => assert!(matches!(e, ContextError::Glob(_))),
    }
}
