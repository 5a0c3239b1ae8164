use clean_dev_dirs::cleaner::{
    CleanAction, CleanEvent, CleanFailure, CleanResult, CleanState, Cleaner, ProjectOutcome,
    RemovalError, RemovalStrategy,
};
use clean_dev_dirs::output::{JsonCleanupResult, JsonOutput, JsonProjectEntry, JsonSummary};
use clean_dev_dirs::project::{BuildArtifacts, Project, ProjectType};

fn failure(path: &str, reason: &str) -> CleanFailure {
    CleanFailure {
        path: path.to_string(),
        reason: reason.to_string(),
    }
}

fn project(kind: ProjectType, root: &str, artifacts: &[(&str, u64)], name: Option<&str>) -> Project {
    Project::new(
        kind,
        root.to_string(),
        artifacts
            .iter()
            .map(|(path, size)| BuildArtifacts {
                path: format!("{root}/{path}"),
                size: *size,
            })
            .collect(),
        name.map(String::from),
    )
}

/// Runs the cleanup of `project`, answering each action from `answers`.
fn run(project: &Project, keep_executables: bool, answers: &[CleanEvent]) -> (CleanState, Vec<String>) {
    let mut state = CleanState::Pending;
    let mut log = Vec::new();
    let mut next = 0;
    loop {
        let event = match state.action(project, RemovalStrategy::Permanent) {
            CleanAction::Begin => CleanEvent::Begin { keep_executables },
            CleanAction::PreserveExecutables => {
                log.push("preserve".to_string());
                CleanEvent::PreservationDone
            }
            CleanAction::Measure { path } => {
                log.push(format!("measure {path}"));
                let answer = answers[next].clone();
                if matches!(answer, CleanEvent::Missing) {
                    next += 1;
                }
                answer
            }
            CleanAction::Remove { path, strategy } => {
                assert_eq!(strategy, RemovalStrategy::Permanent);
                log.push(format!("remove {path}"));
                next += 2;
                answers[next - 1].clone()
            }
            CleanAction::Nothing => return (state, log),
        };
        state = state.step(event, project);
    }
}

#[test]
fn test_removal_strategy_from_bool() {
    let trash = RemovalStrategy::from_use_trash(true);
    assert!(matches!(trash, RemovalStrategy::Trash));

    let permanent = RemovalStrategy::from_use_trash(false);
    assert!(matches!(permanent, RemovalStrategy::Permanent));
}

#[test]
fn test_clean_one_artifact() {
    let p = project(ProjectType::Rust, "/w/app", &[("target", 10)], None);
    let (state, log) = run(&p, false, &[CleanEvent::Measured { size: 1234 }, CleanEvent::Removed]);
    assert_eq!(state.result(), Some(Ok(1234)));
    assert_eq!(log, vec!["measure /w/app/target", "remove /w/app/target"]);
}

#[test]
fn test_clean_preserves_executables_first() {
    let p = project(ProjectType::Rust, "/w/app", &[("target", 10)], None);
    let (state, log) = run(&p, true, &[CleanEvent::Measured { size: 7 }, CleanEvent::Removed]);
    assert_eq!(state.result(), Some(Ok(7)));
    assert_eq!(log, vec!["preserve", "measure /w/app/target", "remove /w/app/target"]);
}

#[test]
fn test_clean_every_artifact_and_sum_the_measured_sizes() {
    let p = project(ProjectType::DotNet, "/w/app", &[("bin", 1), ("obj", 2)], None);
    let (state, log) = run(
        &p,
        false,
        &[
            CleanEvent::Measured { size: 700 },
            CleanEvent::Removed,
            CleanEvent::Measured { size: 300 },
            CleanEvent::Removed,
        ],
    );
    // the sizes measured at removal count, not those of the scan
    assert_eq!(state.result(), Some(Ok(1000)));
    assert_eq!(
        log,
        vec!["measure /w/app/bin", "remove /w/app/bin", "measure /w/app/obj", "remove /w/app/obj"]
    );
}

#[test]
fn test_clean_missing_directory_frees_nothing_and_succeeds() {
    let p = project(ProjectType::DotNet, "/w/app", &[("bin", 1), ("obj", 2)], None);
    let (state, log) = run(
        &p,
        false,
        &[CleanEvent::Missing, CleanEvent::Measured { size: 300 }, CleanEvent::Removed],
    );
    assert_eq!(state.result(), Some(Ok(300)));
    assert_eq!(log, vec!["measure /w/app/bin", "measure /w/app/obj", "remove /w/app/obj"]);

    let gone = project(ProjectType::Rust, "/w/gone", &[("target", 10)], None);
    let (state, _) = run(&gone, false, &[CleanEvent::Missing]);
    assert_eq!(state.result(), Some(Ok(0)));
}

#[test]
fn test_clean_failure_ends_the_project() {
    let p = project(ProjectType::DotNet, "/w/app", &[("bin", 1), ("obj", 2)], None);
    let (state, log) = run(
        &p,
        false,
        &[
            CleanEvent::Measured { size: 700 },
            CleanEvent::RemovalFailed {
                error: RemovalError::Io("Permission denied (os error 13)".to_string()),
            },
            CleanEvent::Measured { size: 300 },
            CleanEvent::Removed,
        ],
    );
    // the failure names the artifact directory that could not be removed
    assert_eq!(
        state.result(),
        Some(Err(failure("/w/app/bin", "Permission denied (os error 13)")))
    );
    assert_eq!(log, vec!["measure /w/app/bin", "remove /w/app/bin"]);

    // a final state is never left
    let state = state.step(CleanEvent::Removed, &p);
    assert!(matches!(state, CleanState::Failed { .. }));
    let state = state.step(CleanEvent::Begin { keep_executables: false }, &p);
    assert!(matches!(state, CleanState::Failed { .. }));
    let done = CleanState::Succeeded { freed: 5 }.step(CleanEvent::Measured { size: 1 }, &p);
    assert_eq!(done.result(), Some(Ok(5)));
}

#[test]
fn test_clean_trash_failure_has_its_own_message() {
    let error = RemovalError::TrashUnavailable("no trash here".to_string());
    assert_eq!(error.message(), "failed to move to trash: no trash here");
    assert_eq!(RemovalError::Io("disk on fire".to_string()).message(), "disk on fire");
    let p = project(ProjectType::Node, "/w/web", &[("node_modules", 1)], None);
    let state = CleanState::Deleting { artifact: 0, freed: 9 }
        .step(CleanEvent::RemovalFailed { error }, &p);
    assert_eq!(
        state.result(),
        Some(Err(failure(
            "/w/web/node_modules",
            "failed to move to trash: no trash here"
        )))
    );
}

#[test]
fn test_clean_events_that_do_not_fit_change_nothing() {
    let p = project(ProjectType::Rust, "/w/app", &[("target", 10)], None);
    let state = CleanState::Pending.step(CleanEvent::Removed, &p);
    assert!(matches!(state, CleanState::Pending));
    let state = CleanState::Measuring { artifact: 0, freed: 3 }.step(CleanEvent::Removed, &p);
    assert!(matches!(state, CleanState::Measuring { artifact: 0, freed: 3 }));
    let state = CleanState::Deleting { artifact: 0, freed: 3 }.step(CleanEvent::Missing, &p);
    assert!(matches!(state, CleanState::Deleting { artifact: 0, freed: 3 }));
    assert_eq!(state.result(), None);
    // a strategy is handed on with the removal
    match state.action(&p, RemovalStrategy::Trash) {
        CleanAction::Remove { path, strategy } => {
            assert_eq!(path, "/w/app/target");
            assert_eq!(strategy, RemovalStrategy::Trash);
        }
        other => panic!("unexpected action {other:?}"),
    }
}

#[test]
fn test_clean_project_without_artifacts_succeeds_at_once() {
    let p = project(ProjectType::Rust, "/w/app", &[], None);
    let (state, log) = run(&p, false, &[]);
    assert_eq!(state.result(), Some(Ok(0)));
    assert!(log.is_empty());
}

#[test]
fn test_clean_freed_bytes_are_held_at_the_maximum() {
    let p = project(ProjectType::DotNet, "/w/app", &[("bin", 1), ("obj", 2)], None);
    let (state, _) = run(
        &p,
        false,
        &[
            CleanEvent::Measured { size: u64::MAX - 1 },
            CleanEvent::Removed,
            CleanEvent::Measured { size: 5 },
            CleanEvent::Removed,
        ],
    );
    assert_eq!(state.result(), Some(Ok(u64::MAX)));
}

#[test]
fn test_clean_projects_summary_with_missing_directory() {
    // two independent projects; the artifact directory of the second was
    // deleted before the cleaner ran: nothing to free there, no error
    let first = project(ProjectType::Rust, "/w/one", &[("target", 1000)], None);
    let second = project(ProjectType::Node, "/w/two", &[("node_modules", 500)], None);
    let (a, _) = run(&first, false, &[CleanEvent::Measured { size: 1000 }, CleanEvent::Removed]);
    let (b, _) = run(&second, false, &[CleanEvent::Missing]);
    let outcomes = vec![
        ProjectOutcome { root_path: first.root_path.clone(), result: a.result().unwrap() },
        ProjectOutcome { root_path: second.root_path.clone(), result: b.result().unwrap() },
    ];
    let result: CleanResult = Cleaner::clean_projects(&outcomes, 1500);
    assert_eq!(result.success_count, 2);
    assert_eq!(result.total_freed, 1000);
    assert_eq!(result.estimated_size, 1500);
    assert!(result.errors.is_empty());
}

#[test]
fn test_clean_projects_summary_with_failures() {
    let outcomes = vec![
        ProjectOutcome { root_path: "/w/one".to_string(), result: Ok(1000) },
        ProjectOutcome {
            root_path: "/w/two".to_string(),
            result: Err(failure("/w/two/node_modules", "busy")),
        },
        ProjectOutcome { root_path: "/w/three".to_string(), result: Ok(24) },
        ProjectOutcome {
            root_path: "/w/four".to_string(),
            result: Err(failure("/w/four/obj", "failed to move to trash: none")),
        },
    ];
    let result = Cleaner::clean_projects(&outcomes, 4096);
    assert_eq!(result.success_count, 2);
    assert_eq!(result.total_freed, 1024);
    assert_eq!(result.estimated_size, 4096);
    assert_eq!(
        result.errors,
        vec![
            "failed to clean /w/two/node_modules: busy".to_string(),
            "failed to clean /w/four/obj: failed to move to trash: none".to_string(),
        ]
    );

    let none = Cleaner::new();
    let _ = none;
    let empty = Cleaner::clean_projects(&Vec::new(), 0);
    assert_eq!(empty.success_count, 0);
    assert_eq!(empty.total_freed, 0);
    assert!(empty.errors.is_empty());

    let huge = vec![
        ProjectOutcome { root_path: "/a".to_string(), result: Ok(u64::MAX) },
        ProjectOutcome { root_path: "/b".to_string(), result: Ok(1) },
    ];
    assert_eq!(Cleaner::clean_projects(&huge, 0).total_freed, u64::MAX);
}

#[test]
fn test_json_project_entry() {
    let p = project(ProjectType::DotNet, "/w/app", &[("bin", 700_000), ("obj", 800_000)], Some("App"));
    let entry = JsonProjectEntry::from_project(&p);
    assert_eq!(entry.name.as_deref(), Some("App"));
    assert_eq!(entry.project_type, ProjectType::DotNet);
    assert_eq!(entry.root_path, "/w/app");
    assert_eq!(entry.build_artifacts_path, "/w/app/bin");
    assert_eq!(entry.build_artifacts_size, 1_500_000);
    assert_eq!(entry.build_artifacts_size_formatted, "1.50 MB");

    let bare = JsonProjectEntry::from_project(&project(ProjectType::Zig, "/w/z", &[], None));
    assert_eq!(bare.name, None);
    assert_eq!(bare.build_artifacts_path, "");
    assert_eq!(bare.build_artifacts_size, 0);
    assert_eq!(bare.build_artifacts_size_formatted, "0 B");
}

#[test]
fn test_json_summary_by_type() {
    let projects = vec![
        project(ProjectType::Rust, "/r1", &[("target", 1_000_000)], None),
        project(ProjectType::Node, "/n1", &[("node_modules", 2_000)], None),
        project(ProjectType::Rust, "/r2", &[("target", 500_000)], None),
        project(ProjectType::Cpp, "/c1", &[("build", 1)], None),
        project(ProjectType::Zig, "/z1", &[("zig-cache", 3), ("zig-out", 4)], None),
    ];
    let summary = JsonSummary::from_projects(&projects);
    assert_eq!(summary.total_projects, 5);
    assert_eq!(summary.total_size, 1_502_008);
    assert_eq!(summary.total_size_formatted, "1.50 MB");
    let keys: Vec<&str> = summary.by_type.iter().map(|(k, _)| k.as_str()).collect();
    assert_eq!(keys, vec!["cpp", "node", "rust", "zig"]);
    let rust = &summary.by_type[2].1;
    assert_eq!(rust.count, 2);
    assert_eq!(rust.size, 1_500_000);
    assert_eq!(rust.size_formatted, "1.50 MB");
    let zig = &summary.by_type[3].1;
    assert_eq!(zig.count, 1);
    assert_eq!(zig.size, 7);
    assert_eq!(zig.size_formatted, "7 B");

    let empty = JsonSummary::from_projects(&[]);
    assert_eq!(empty.total_projects, 0);
    assert_eq!(empty.total_size, 0);
    assert!(empty.by_type.is_empty());
}

#[test]
fn test_json_output_modes() {
    let projects = vec![project(ProjectType::Rust, "/r1", &[("target", 1_000)], Some("r1"))];
    let dry = JsonOutput::from_projects_dry_run(&projects);
    assert_eq!(dry.mode, "dry_run");
    assert_eq!(dry.projects.len(), 1);
    assert_eq!(dry.projects[0].root_path, "/r1");
    assert_eq!(dry.summary.total_size, 1_000);
    assert!(dry.cleanup.is_none());

    let result = CleanResult {
        success_count: 0,
        total_freed: 0,
        estimated_size: 1_000,
        errors: vec!["failed to clean /r1: busy".to_string()],
    };
    let done = JsonOutput::from_projects_cleanup(&projects, &result);
    assert_eq!(done.mode, "cleanup");
    assert_eq!(done.projects.len(), 1);
    let cleanup = done.cleanup.unwrap();
    assert_eq!(cleanup.success_count, 0);
    assert_eq!(cleanup.failure_count, 1);
    assert_eq!(cleanup.total_freed, 0);
    assert_eq!(cleanup.total_freed_formatted, "0 B");
    assert_eq!(cleanup.errors, vec!["failed to clean /r1: busy".to_string()]);

    let direct = JsonCleanupResult::from_clean_result(&CleanResult {
        success_count: 3,
        total_freed: 2_500_000_000,
        estimated_size: 0,
        errors: Vec::new(),
    });
    assert_eq!(direct.success_count, 3);
    assert_eq!(direct.failure_count, 0);
    assert_eq!(direct.total_freed_formatted, "2.50 GB");
}

#[test]
fn test_clean_failure_of_the_second_artifact_names_it() {
    // removing obj/ fails after bin/ was removed; another project is cleaned
    let app = project(ProjectType::DotNet, "/w/app", &[("bin", 1), ("obj", 2)], None);
    let other = project(ProjectType::Rust, "/w/other", &[("target", 3)], None);
    let (a, log) = run(
        &app,
        false,
        &[
            CleanEvent::Measured { size: 700 },
            CleanEvent::Removed,
            CleanEvent::Measured { size: 300 },
            CleanEvent::RemovalFailed { error: RemovalError::Io("in use".to_string()) },
        ],
    );
    assert_eq!(a.result(), Some(Err(failure("/w/app/obj", "in use"))));
    assert_eq!(
        log,
        vec!["measure /w/app/bin", "remove /w/app/bin", "measure /w/app/obj", "remove /w/app/obj"]
    );
    let (b, _) = run(&other, false, &[CleanEvent::Measured { size: 50 }, CleanEvent::Removed]);
    let outcomes = vec![
        ProjectOutcome { root_path: app.root_path.clone(), result: a.result().unwrap() },
        ProjectOutcome { root_path: other.root_path.clone(), result: b.result().unwrap() },
    ];
    let result = Cleaner::clean_projects(&outcomes, 6);
    assert_eq!(result.errors, vec!["failed to clean /w/app/obj: in use".to_string()]);
    assert_eq!(result.success_count, 1);
    assert_eq!(result.total_freed, 50);

    // a state made by hand for an artifact that the project has not
    let state = CleanState::Deleting { artifact: 7, freed: 0 }.step(
        CleanEvent::RemovalFailed { error: RemovalError::Io("x".to_string()) },
        &other,
    );
    assert_eq!(state.result(), Some(Err(failure("", "x"))));
}

#[test]
fn test_json_summary_keys_stand_in_the_order_of_texts() {
    let kinds = vec![
        ProjectType::Zig,
        ProjectType::Swift,
        ProjectType::Scala,
        ProjectType::Rust,
        ProjectType::Ruby,
        ProjectType::Python,
        ProjectType::Php,
        ProjectType::Node,
        ProjectType::Java,
        ProjectType::Haskell,
        ProjectType::Go,
        ProjectType::Elixir,
        ProjectType::DotNet,
        ProjectType::Deno,
        ProjectType::Dart,
        ProjectType::Cpp,
    ];
    let projects: Vec<Project> = kinds
        .into_iter()
        .map(|kind| project(kind, "/w/p", &[("out", 1)], None))
        .collect();
    let summary = JsonSummary::from_projects(&projects);
    let keys: Vec<String> = summary.by_type.iter().map(|(k, _)| k.clone()).collect();
    let mut sorted = keys.clone();
    sorted.sort();
    sorted.dedup();
    assert_eq!(keys.len(), 16);
    assert_eq!(keys, sorted);
    assert!(summary.by_type.iter().all(|(_, t)| t.count == 1 && t.size == 1));
}
