use belt_core::json::JsonValue;
use belt_core::model::{ArtifactRef, ExpandedPhase};
use belt_core::gate::UriResolver;
use belt_core::resolver::{FsSnapshot, ResolveError, Resolver, RunEntry, SnapshotResolver};
use belt_core::strmap::StrMap;
use belt_core::uri::BeltUri;

const BELT: &str = "/tmp/t/.belt";

fn empty_fs() -> FsSnapshot {
    FsSnapshot { dirs: Vec::new(), paths: Vec::new(), runs: Vec::new() }
}

fn resolver(branch: Option<&str>, current: Option<&str>) -> Resolver {
    Resolver {
        belt_dir: BELT.to_string(),
        current_branch: branch.map(str::to_string),
        current_run_id: current.map(str::to_string),
    }
}

fn add_run_dir(fs: &mut FsSnapshot, run_id: &str) -> String {
    let dir = format!("{BELT}/runs/{run_id}");
    fs.dirs.push(dir.clone());
    fs.paths.push(dir.clone());
    dir
}

fn add_file(fs: &mut FsSnapshot, path: String) {
    fs.paths.push(path);
}

fn write_state(fs: &mut FsSnapshot, run_id: &str, pipeline: &str, branch: Option<&str>, status: &str) {
    let dir = add_run_dir(fs, run_id);
    fs.dirs.push(format!("{dir}/notes"));
    add_file(fs, format!("{dir}/notes/phase-review.md"));
    fs.runs.push(RunEntry::State {
        dir,
        run_id: Some(run_id.to_string()),
        pipeline: Some(pipeline.to_string()),
        status: Some(status.to_string()),
        branch: branch.map(str::to_string),
    });
}

fn latest_uri() -> BeltUri {
    BeltUri::Latest { pipeline: "feature-dev".into(), path: "notes/phase-review.md".into() }
}

#[test]
fn resolve_run_happy_path() {
    let mut fs = empty_fs();
    let dir = add_run_dir(&mut fs, "01947abc");
    add_file(&mut fs, format!("{dir}/notes/phase-review.md"));
    let r = resolver(None, None);
    let uri = BeltUri::Run { run_id: "01947abc".into(), path: "notes/phase-review.md".into() };
    let resolved = r.resolve(&uri, &fs).unwrap();
    assert_eq!(resolved, format!("{dir}/notes/phase-review.md"));
}

#[test]
fn resolve_run_missing_run_dir() {
    let fs = empty_fs();
    let r = resolver(None, None);
    let uri = BeltUri::Run { run_id: "nope".into(), path: "notes/x.md".into() };
    assert!(matches!(r.resolve(&uri, &fs), Err(ResolveError::RunNotFound { .. })));
}

#[test]
fn resolve_run_missing_artifact() {
    let mut fs = empty_fs();
    add_run_dir(&mut fs, "01947abc");
    let r = resolver(None, None);
    let uri = BeltUri::Run { run_id: "01947abc".into(), path: "notes/missing.md".into() };
    assert!(matches!(r.resolve(&uri, &fs), Err(ResolveError::ArtifactMissing { .. })));
}

#[test]
fn resolve_latest_picks_completed_on_current_branch() {
    let mut fs = empty_fs();
    write_state(&mut fs, "01947a00", "feature-dev", Some("main"), "in_progress");
    write_state(&mut fs, "01947a01", "feature-dev", Some("main"), "completed");
    write_state(&mut fs, "01947a02", "feature-dev", Some("develop"), "completed");
    let r = resolver(Some("main"), None);
    let resolved = r.resolve(&latest_uri(), &fs).unwrap();
    assert!(resolved.ends_with("01947a01/notes/phase-review.md"), "got {resolved}");
}

#[test]
fn resolve_latest_prefers_newer_uuidv7() {
    let mut fs = empty_fs();
    write_state(&mut fs, "01947aaa", "feature-dev", Some("main"), "completed");
    write_state(&mut fs, "01947bbb", "feature-dev", Some("main"), "completed");
    let r = resolver(Some("main"), None);
    let resolved = r.resolve(&latest_uri(), &fs).unwrap();
    assert!(resolved.ends_with("01947bbb/notes/phase-review.md"));
}

#[test]
fn resolve_latest_prefers_newer_whatever_the_listing_order() {
    let mut fs = empty_fs();
    write_state(&mut fs, "01947bbb", "feature-dev", Some("main"), "completed");
    write_state(&mut fs, "01947aaa", "feature-dev", Some("main"), "completed");
    let r = resolver(Some("main"), None);
    let resolved = r.resolve(&latest_uri(), &fs).unwrap();
    assert!(resolved.ends_with("01947bbb/notes/phase-review.md"));
}

#[test]
fn resolve_latest_errors_when_no_completed() {
    let mut fs = empty_fs();
    write_state(&mut fs, "01947a00", "feature-dev", Some("main"), "in_progress");
    let r = resolver(Some("main"), None);
    assert!(matches!(r.resolve(&latest_uri(), &fs), Err(ResolveError::NoCompletedRun { .. })));
}

#[test]
fn resolve_latest_falls_back_when_branch_none() {
    let mut fs = empty_fs();
    write_state(&mut fs, "01947a00", "feature-dev", None, "completed");
    write_state(&mut fs, "01947a01", "feature-dev", Some("develop"), "completed");
    let r = resolver(None, None);
    let resolved = r.resolve(&latest_uri(), &fs).unwrap();
    assert!(resolved.ends_with("01947a01/notes/phase-review.md"));
}

#[test]
fn resolve_workspace_latest_uses_explicit_branch() {
    let mut fs = empty_fs();
    write_state(&mut fs, "01947a00", "feature-dev", Some("main"), "completed");
    write_state(&mut fs, "01947a01", "feature-dev", Some("develop"), "completed");
    let r = resolver(Some("main"), None);
    let uri = BeltUri::WorkspaceLatest {
        branch: "develop".into(),
        pipeline: "feature-dev".into(),
        path: "notes/phase-review.md".into(),
    };
    let resolved = r.resolve(&uri, &fs).unwrap();
    assert!(resolved.ends_with("01947a01/notes/phase-review.md"));
}

#[test]
fn resolve_workspace_latest_errors_on_non_git() {
    let mut fs = empty_fs();
    write_state(&mut fs, "01947a00", "feature-dev", Some("develop"), "completed");
    let r = resolver(None, None);
    let uri = BeltUri::WorkspaceLatest {
        branch: "develop".into(),
        pipeline: "feature-dev".into(),
        path: "notes/phase-review.md".into(),
    };
    assert!(matches!(r.resolve(&uri, &fs), Err(ResolveError::BranchAwareRequiresGit)));
}

#[test]
fn resolve_latest_errors_on_corrupt_state_json() {
    let mut fs = empty_fs();
    let dir = add_run_dir(&mut fs, "01947cor");
    add_file(&mut fs, format!("{dir}/notes/phase-review.md"));
    fs.runs.push(RunEntry::Unreadable(ResolveError::StateParse("EOF while parsing a string".to_string())));
    let r = resolver(None, None);
    assert!(matches!(r.resolve(&latest_uri(), &fs), Err(ResolveError::StateParse(_))));
}

#[test]
fn resolve_latest_skips_state_json_without_pipeline_field() {
    let mut fs = empty_fs();
    let dir = add_run_dir(&mut fs, "01947mis");
    add_file(&mut fs, format!("{dir}/notes/phase-review.md"));
    fs.runs.push(RunEntry::State {
        dir,
        run_id: Some("01947mis".to_string()),
        pipeline: None,
        status: Some("completed".to_string()),
        branch: None,
    });
    let r = resolver(None, None);
    assert!(matches!(r.resolve(&latest_uri(), &fs), Err(ResolveError::NoCompletedRun { .. })));
}

#[test]
fn resolve_latest_skips_state_json_that_is_a_directory() {
    let mut fs = empty_fs();
    let dir = add_run_dir(&mut fs, "01947dir");
    add_file(&mut fs, format!("{dir}/notes/phase-review.md"));
    fs.runs.push(RunEntry::NoState);
    let r = resolver(None, None);
    assert!(matches!(r.resolve(&latest_uri(), &fs), Err(ResolveError::NoCompletedRun { .. })));
}

#[test]
fn resolve_current_returns_run_dir_path() {
    let mut fs = empty_fs();
    let dir = add_run_dir(&mut fs, "01947abc");
    let r = resolver(None, Some("01947abc"));
    let uri = BeltUri::Current { path: "notes/phase-design.md".into() };
    let resolved = r.resolve(&uri, &fs).unwrap();
    assert_eq!(resolved, format!("{dir}/notes/phase-design.md"));
}

#[test]
fn resolve_current_errors_when_no_current_run_id() {
    let fs = empty_fs();
    let r = resolver(None, None);
    let uri = BeltUri::Current { path: "notes/x.md".into() };
    assert!(matches!(r.resolve(&uri, &fs), Err(ResolveError::NoCurrentRun)));
}

#[test]
fn resolve_current_errors_when_run_dir_missing() {
    let fs = empty_fs();
    let r = resolver(None, Some("missing"));
    let uri = BeltUri::Current { path: "notes/x.md".into() };
    assert!(matches!(r.resolve(&uri, &fs), Err(ResolveError::RunNotFound { .. })));
}

#[test]
fn resolve_error_messages() {
    let e = ResolveError::NoCompletedRun { pipeline: "p".to_string(), branch: None };
    assert_eq!(e.message(), "no COMPLETED run of pipeline 'p' on branch '(none)'");
    let e = ResolveError::NoCompletedRun { pipeline: "p".to_string(), branch: Some("main".to_string()) };
    assert_eq!(e.message(), "no COMPLETED run of pipeline 'p' on branch 'main'");
    assert_eq!(ResolveError::RunNotFound { run_id: "x".to_string() }.message(), "run not found: x");
    assert_eq!(
        ResolveError::ArtifactMissing { path: "/a/b".to_string() }.message(),
        "resolved artifact missing: /a/b"
    );
    assert_eq!(ResolveError::BranchAwareRequiresGit.message(), "branch-aware URI requires git directory");
}

#[test]
fn no_completed_run_reports_branch_in_scope() {
    let fs = empty_fs();
    let r = resolver(Some("main"), None);
    assert_eq!(
        r.resolve(&latest_uri(), &fs).unwrap_err(),
        ResolveError::NoCompletedRun { pipeline: "feature-dev".to_string(), branch: Some("main".to_string()) }
    );
}

fn consuming_phase(id: &str, uris: Vec<&str>) -> ExpandedPhase {
    ExpandedPhase {
        id: id.to_string(),
        description: "d".to_string(),
        config: StrMap::new(),
        produces: Vec::new(),
        consumes: uris
            .into_iter()
            .map(|u| ArtifactRef::External { name: "n".to_string(), uri: BeltUri::parse(u).unwrap() })
            .chain(std::iter::once(ArtifactRef::Named("local".to_string())))
            .collect(),
        gate: Vec::new(),
        validate: Vec::new(),
        regate: Vec::new(),
        confirm: false,
        max_retries: 0,
        when: None,
        invoke: None,
        output_dir: None,
    }
}

#[test]
fn resolve_consumes_maps_each_external_uri() {
    let mut fs = empty_fs();
    write_state(&mut fs, "01947a01", "feature-dev", Some("main"), "completed");
    add_run_dir(&mut fs, "parent");
    let r = resolver(Some("main"), None);
    let phases = vec![consuming_phase("a", vec!["belt://latest/feature-dev/notes/phase-review.md"])];
    let m = r.resolve_consumes(&phases, Some("parent"), &fs).unwrap();
    assert_eq!(m.len(), 2);
    assert_eq!(
        m.get("belt://latest/feature-dev/notes/phase-review.md").map(String::as_str),
        Some("/tmp/t/.belt/runs/01947a01/notes/phase-review.md")
    );
    assert_eq!(m.get("belt://run/parent/").map(String::as_str), Some("/tmp/t/.belt/runs/parent"));
    assert!(r.inherited_run_exists("parent", &fs));
    assert!(!r.inherited_run_exists("other", &fs));
}

#[test]
fn resolve_consumes_fails_on_first_unresolvable() {
    let fs = empty_fs();
    let r = resolver(None, None);
    let phases = vec![
        consuming_phase("a", vec![]),
        consuming_phase("b", vec!["belt://run/x1/a.md", "belt://latest/p/b.md"]),
    ];
    let err = r.resolve_consumes(&phases, None, &fs).unwrap_err();
    assert_eq!(err, ResolveError::RunNotFound { run_id: "x1".to_string() });
}

#[test]
fn impl_uri_resolver_trait_for_current_uri() {
    let mut fs = empty_fs();
    let dir = add_run_dir(&mut fs, "01947zzz");
    let r = SnapshotResolver { resolver: resolver(None, Some("01947zzz")), fs };
    let resolved = r.resolve("belt://current/notes/phase-design.md").unwrap();
    assert_eq!(resolved, format!("{dir}/notes/phase-design.md"));
    assert_eq!(r.resolve("http://x").unwrap_err(), "URI must start with 'belt://': got 'http://x'");
    assert_eq!(r.resolve("belt://run/nope/x.md").unwrap_err(), "run not found: nope");
}

#[test]
fn run_entry_reads_string_fields() {
    let doc = JsonValue::Object(vec![
        ("run_id".to_string(), JsonValue::String("r1".to_string())),
        ("status".to_string(), JsonValue::String("completed".to_string())),
        ("branch".to_string(), JsonValue::Null),
        ("pipeline".to_string(), JsonValue::Number("3".to_string())),
    ]);
    match belt_core::resolver::run_entry_of("/b/runs/r1".to_string(), &doc) {
        RunEntry::State { dir, run_id, pipeline, status, branch } => {
            assert_eq!(dir, "/b/runs/r1");
            assert_eq!(run_id.as_deref(), Some("r1"));
            assert_eq!(pipeline, None);
            assert_eq!(status.as_deref(), Some("completed"));
            assert_eq!(branch, None);
        },
        other => panic!("unexpected {other:?}"),
    }
}

#[test]
fn fs_queries_name_the_run_dir_and_path_of_a_run_uri() {
    let r = resolver(None, None);
    let uri = BeltUri::Run { run_id: "01947abc".into(), path: "notes/x.md".into() };
    let (dir, path) = r.fs_queries(&uri, &Vec::new());
    assert_eq!(dir.as_deref(), Some("/tmp/t/.belt/runs/01947abc"));
    assert_eq!(path.as_deref(), Some("/tmp/t/.belt/runs/01947abc/notes/x.md"));
}

#[test]
fn fs_queries_name_the_path_under_the_chosen_latest_run() {
    let mut fs = empty_fs();
    write_state(&mut fs, "01947aaa", "feature-dev", Some("main"), "completed");
    write_state(&mut fs, "01947bbb", "feature-dev", Some("main"), "completed");
    let r = resolver(Some("main"), None);
    let (dir, path) = r.fs_queries(&latest_uri(), &fs.runs);
    assert_eq!(dir, None);
    assert_eq!(path.as_deref(), Some("/tmp/t/.belt/runs/01947bbb/notes/phase-review.md"));
}

#[test]
fn fs_queries_of_current_uri_name_only_the_current_run_dir() {
    let r = resolver(None, Some("01947abc"));
    let uri = BeltUri::Current { path: "notes/x.md".into() };
    let (dir, path) = r.fs_queries(&uri, &Vec::new());
    assert_eq!(dir.as_deref(), Some("/tmp/t/.belt/runs/01947abc"));
    assert_eq!(path, None);
    let none = resolver(None, None).fs_queries(&uri, &Vec::new());
    assert_eq!(none, (None, None));
}

#[test]
fn resolution_reads_only_the_queried_paths() {
    let r = resolver(Some("main"), None);
    let mut full = empty_fs();
    write_state(&mut full, "01947aaa", "feature-dev", Some("main"), "completed");
    add_file(&mut full, "/tmp/t/.belt/runs/01947aaa/other.md".to_string());
    let (_, path) = r.fs_queries(&latest_uri(), &full.runs);
    let queried = FsSnapshot {
        dirs: Vec::new(),
        paths: vec![path.clone().unwrap()],
        runs: vec![RunEntry::State {
            dir: "/tmp/t/.belt/runs/01947aaa".into(),
            run_id: Some("01947aaa".into()),
            pipeline: Some("feature-dev".into()),
            status: Some("completed".into()),
            branch: Some("main".into()),
        }],
    };
    assert_eq!(r.resolve(&latest_uri(), &full), r.resolve(&latest_uri(), &queried));
    assert_eq!(r.resolve(&latest_uri(), &queried), Ok(path.unwrap()));
}

#[test]
fn file_exists_target_hands_belt_uris_to_the_resolver() {
    let mut fs = empty_fs();
    let dir = add_run_dir(&mut fs, "01947abc");
    add_file(&mut fs, format!("{dir}/notes/x.md"));
    let sr = SnapshotResolver { resolver: resolver(None, None), fs };
    match belt_core::gate::file_exists_target("belt://run/01947abc/notes/x.md", "/work", &sr) {
        belt_core::gate::FileTarget::Pattern(p) => assert_eq!(p, format!("{dir}/notes/x.md")),
        belt_core::gate::FileTarget::Failed(g) => panic!("unexpected failure {g:?}"),
    }
    match belt_core::gate::file_exists_target("belt://run/nope/x.md", "/work", &sr) {
        belt_core::gate::FileTarget::Failed(g) => {
            assert_eq!(g.detail.as_deref(), Some("URI resolution failed: run not found: nope"))
        },
        belt_core::gate::FileTarget::Pattern(p) => panic!("unexpected pattern {p}"),
    }
}
