use belt_core::json::JsonValue;
use belt_core::model::{Artifact, Invoker, RunState, RunStatus};
use belt_core::strmap::StrMap;
use belt_core::view::{
    active_produces, build_status_view, determine_phase_state, evaluate_when, pick_newest_match, resolve_artifact,
    ArtifactFacts, GlobMatch, PhaseMetadata, PhaseRuntime, PhaseState, PipelineStatus,
};

fn make_state(current: &str, completed: &[&str], skipped: &[&str]) -> RunState {
    RunState {
        run_id: "test-run".to_string(),
        pipeline: "test".to_string(),
        pipeline_file: "/tmp/pipeline.yml".to_string(),
        version: 1,
        branch: None,
        resolved_consumes: StrMap::new(),
        args: StrMap::new(),
        current_phase: current.to_string(),
        completed_phases: completed.iter().map(|s| (*s).to_string()).collect(),
        skipped_phases: skipped.iter().map(|s| (*s).to_string()).collect(),
        phase_attempts: StrMap::new(),
        phase_verify_passed: StrMap::new(),
        regate_passed: StrMap::new(),
        phase_start_times: StrMap::new(),
        status: RunStatus::default(),
        created_at: "2026-04-07T00:00:00Z".to_string(),
        updated_at: "2026-04-07T00:00:00Z".to_string(),
    }
}

fn phase_ids(ids: &[&str]) -> Vec<PhaseMetadata> {
    ids.iter()
        .map(|s| PhaseMetadata { id: (*s).to_string(), invoke: None, produces: Vec::new(), consumes: Vec::new() })
        .collect()
}

fn no_runtime() -> StrMap<PhaseRuntime> {
    StrMap::new()
}

#[test]
fn initial_state_first_current_rest_pending() {
    let state = make_state("build", &[], &[]);
    let ids = phase_ids(&["build", "test", "deploy"]);
    let view = build_status_view(&state, &ids, &no_runtime());
    assert_eq!(view.phases.len(), 3);
    assert_eq!(view.phases[0].id, "build");
    assert_eq!(view.phases[0].status, PhaseState::Current);
    assert_eq!(view.phases[1].id, "test");
    assert_eq!(view.phases[1].status, PhaseState::Pending);
    assert_eq!(view.phases[2].id, "deploy");
    assert_eq!(view.phases[2].status, PhaseState::Pending);
    assert_eq!(view.status, PipelineStatus::InProgress);
    assert_eq!(view.current_phase, Some("build".to_string()));
}

#[test]
fn partially_completed() {
    let state = make_state("deploy", &["build", "test"], &[]);
    let ids = phase_ids(&["build", "test", "deploy"]);
    let view = build_status_view(&state, &ids, &no_runtime());
    assert_eq!(view.phases[0].status, PhaseState::Completed);
    assert_eq!(view.phases[1].status, PhaseState::Completed);
    assert_eq!(view.phases[2].status, PhaseState::Current);
    assert_eq!(view.status, PipelineStatus::InProgress);
    assert_eq!(view.current_phase, Some("deploy".to_string()));
}

#[test]
fn fully_completed() {
    let state = make_state("COMPLETED", &["build", "test", "deploy"], &[]);
    let ids = phase_ids(&["build", "test", "deploy"]);
    let view = build_status_view(&state, &ids, &no_runtime());
    assert_eq!(view.status, PipelineStatus::Completed);
    assert_eq!(view.current_phase, None);
    for phase in &view.phases {
        assert_eq!(phase.status, PhaseState::Completed, "phase {} should be Completed", phase.id);
    }
}

#[test]
fn skipped_phases() {
    let state = make_state("deploy", &["build"], &["test"]);
    let ids = phase_ids(&["build", "test", "deploy"]);
    let view = build_status_view(&state, &ids, &no_runtime());
    assert_eq!(view.phases[0].status, PhaseState::Completed);
    assert_eq!(view.phases[1].status, PhaseState::Skipped);
    assert_eq!(view.phases[2].status, PhaseState::Current);
}

#[test]
fn mixed_skip_and_completed() {
    let state = make_state("COMPLETED", &["build", "deploy"], &["test", "lint"]);
    let ids = phase_ids(&["build", "test", "lint", "deploy"]);
    let view = build_status_view(&state, &ids, &no_runtime());
    assert_eq!(view.phases[0].status, PhaseState::Completed);
    assert_eq!(view.phases[1].status, PhaseState::Skipped);
    assert_eq!(view.phases[2].status, PhaseState::Skipped);
    assert_eq!(view.phases[3].status, PhaseState::Completed);
    assert_eq!(view.status, PipelineStatus::Completed);
}

#[test]
fn progress_normal() {
    let state = make_state("phase4", &["phase1", "phase2"], &["phase3"]);
    let ids = phase_ids(&["phase1", "phase2", "phase3", "phase4", "phase5"]);
    let view = build_status_view(&state, &ids, &no_runtime());
    assert_eq!(view.progress.completed, 2);
    assert_eq!(view.progress.skipped, 1);
    assert_eq!(view.progress.remaining, 2);
    assert_eq!(view.progress.total, 5);
}

#[test]
fn progress_all_complete() {
    let state = make_state("COMPLETED", &["a", "b", "c"], &[]);
    let ids = phase_ids(&["a", "b", "c"]);
    let view = build_status_view(&state, &ids, &no_runtime());
    assert_eq!(view.progress.completed, 3);
    assert_eq!(view.progress.skipped, 0);
    assert_eq!(view.progress.remaining, 0);
    assert_eq!(view.progress.total, 3);
}

#[test]
fn progress_all_pending() {
    let state = make_state("a", &[], &[]);
    let ids = phase_ids(&["a", "b", "c"]);
    let view = build_status_view(&state, &ids, &no_runtime());
    assert_eq!(view.progress.completed, 0);
    assert_eq!(view.progress.skipped, 0);
    assert_eq!(view.progress.remaining, 3);
    assert_eq!(view.progress.total, 3);
}

#[test]
fn single_phase_pipeline() {
    let state = make_state("only", &[], &[]);
    let ids = phase_ids(&["only"]);
    let view = build_status_view(&state, &ids, &no_runtime());
    assert_eq!(view.phases.len(), 1);
    assert_eq!(view.phases[0].status, PhaseState::Current);
    assert_eq!(view.progress.total, 1);
    assert_eq!(view.progress.remaining, 1);
}

#[test]
fn metadata_fields_propagated() {
    let mut state = make_state("build", &[], &[]);
    state.run_id = "run-abc-123".to_string();
    state.pipeline = "my-pipeline".to_string();
    state.pipeline_file = "/home/user/pipeline.yml".to_string();
    state.version = 3;
    state.args.insert("verbose".to_string(), JsonValue::Bool(true));
    state.created_at = "2026-04-07T10:00:00Z".to_string();
    state.updated_at = "2026-04-07T11:00:00Z".to_string();
    let ids = phase_ids(&["build"]);
    let view = build_status_view(&state, &ids, &no_runtime());
    assert_eq!(view.run_id, "run-abc-123");
    assert_eq!(view.pipeline, "my-pipeline");
    assert_eq!(view.pipeline_file, "/home/user/pipeline.yml");
    assert_eq!(view.version, 3);
    assert_eq!(view.args.get("verbose"), Some(&JsonValue::Bool(true)));
    assert_eq!(view.created_at, "2026-04-07T10:00:00Z");
    assert_eq!(view.updated_at, "2026-04-07T11:00:00Z");
}

#[test]
fn verify_not_run_is_none() {
    let state = make_state("build", &[], &[]);
    let view = build_status_view(&state, &phase_ids(&["build"]), &no_runtime());
    assert!(view.phases[0].verify_passed.is_none());
}

#[test]
fn verify_pass_reflected() {
    let mut state = make_state("build", &[], &[]);
    state.phase_verify_passed.insert("build".to_string(), true);
    let view = build_status_view(&state, &phase_ids(&["build"]), &no_runtime());
    assert_eq!(view.phases[0].verify_passed, Some(true));
}

#[test]
fn verify_fail_reflected() {
    let mut state = make_state("build", &[], &[]);
    state.phase_verify_passed.insert("build".to_string(), false);
    let view = build_status_view(&state, &phase_ids(&["build"]), &no_runtime());
    assert_eq!(view.phases[0].verify_passed, Some(false));
}

#[test]
fn regate_pass_reflected() {
    let mut state = make_state("build", &[], &[]);
    state.regate_passed.insert("build".to_string(), true);
    let view = build_status_view(&state, &phase_ids(&["build"]), &no_runtime());
    assert_eq!(view.phases[0].regate_passed, Some(true));
}

#[test]
fn regate_not_run_is_none() {
    let state = make_state("build", &[], &[]);
    let view = build_status_view(&state, &phase_ids(&["build"]), &no_runtime());
    assert!(view.phases[0].regate_passed.is_none());
}

#[test]
fn attempt_zero_when_not_run() {
    let state = make_state("build", &[], &[]);
    let view = build_status_view(&state, &phase_ids(&["build"]), &no_runtime());
    assert_eq!(view.phases[0].attempt, 0);
}

#[test]
fn attempt_count_reflected() {
    let mut state = make_state("build", &[], &[]);
    state.phase_attempts.insert("build".to_string(), 3);
    let view = build_status_view(&state, &phase_ids(&["build"]), &no_runtime());
    assert_eq!(view.phases[0].attempt, 3);
}

#[test]
fn outputs_empty_when_no_dir() {
    let state = make_state("build", &[], &[]);
    let view = build_status_view(&state, &phase_ids(&["build"]), &no_runtime());
    assert!(view.phases[0].outputs.is_empty());
}

#[test]
fn outputs_come_from_the_observed_run_directory() {
    let state = make_state("build", &[], &[]);
    let mut rt = StrMap::new();
    rt.insert(
        "build".to_string(),
        PhaseRuntime {
            outputs: vec!["a_summary.md".to_string(), "report.json".to_string()],
            verify_checks: None,
            regate_checks: None,
            artifacts: Vec::new(),
        },
    );
    let view = build_status_view(&state, &phase_ids(&["build"]), &rt);
    assert_eq!(view.phases[0].outputs, vec!["a_summary.md", "report.json"]);
}

#[test]
fn yaml_drift_phase_added() {
    let state = make_state("test", &["build"], &[]);
    let view = build_status_view(&state, &phase_ids(&["build", "lint", "test"]), &no_runtime());
    assert_eq!(view.phases[0].status, PhaseState::Completed);
    assert_eq!(view.phases[1].status, PhaseState::Pending);
    assert_eq!(view.phases[2].status, PhaseState::Current);
}

#[test]
fn yaml_drift_phase_removed_completed() {
    let state = make_state("test", &["old-phase", "build"], &[]);
    let view = build_status_view(&state, &phase_ids(&["build", "test"]), &no_runtime());
    assert_eq!(view.phases[0].status, PhaseState::Completed);
    assert_eq!(view.phases[1].status, PhaseState::Current);
    assert_eq!(view.phases.len(), 3);
    assert_eq!(view.phases[2].id, "old-phase");
    assert_eq!(view.phases[2].status, PhaseState::Completed);
}

#[test]
fn yaml_drift_phase_removed_skipped() {
    let state = make_state("test", &["build"], &["old-phase"]);
    let view = build_status_view(&state, &phase_ids(&["build", "test"]), &no_runtime());
    assert_eq!(view.phases.len(), 3);
    assert_eq!(view.phases[2].id, "old-phase");
    assert_eq!(view.phases[2].status, PhaseState::Skipped);
}

#[test]
fn phase_view_serializes_invoke_skill() {
    let mut state = make_state("design", &[], &[]);
    state.run_id = "01961234-0000-7000-8000-000000000000".to_string();
    let phases = vec![PhaseMetadata {
        id: "design".to_string(),
        invoke: Some(Invoker::Skill { skill: "/brainstorming".to_string(), args: StrMap::new() }),
        produces: vec![Artifact {
            name: "design_doc".to_string(),
            path: "docs/plans/*-design.md".to_string(),
            description: Some("design".to_string()),
            when: None,
        }],
        consumes: vec![],
    }];
    let view = build_status_view(&state, &phases, &no_runtime());
    assert_eq!(view.phases.len(), 1);
    assert_eq!(view.phases[0].id, "design");
    assert!(view.phases[0].invoke.is_some(), "expected invoke in PhaseView");
    let produces = view.phases[0].produces.as_ref().expect("produces resolved on design phase");
    assert_eq!(produces.len(), 1);
    assert_eq!(produces[0].name, "design_doc");
    assert_eq!(produces[0].path.as_deref(), Some("docs/plans/*-design.md"));
    assert!(!produces[0].exists);
    assert!(view.phases[0].consumes.is_empty());
}

#[test]
fn produces_use_observed_facts_and_skip_inactive() {
    let mut state = make_state("p", &[], &[]);
    state.args.insert("x".to_string(), JsonValue::Bool(false));
    let phases = vec![PhaseMetadata {
        id: "p".to_string(),
        invoke: None,
        produces: vec![
            Artifact { name: "off".to_string(), path: "a.md".to_string(), description: None, when: Some("args.x".to_string()) },
            Artifact { name: "on".to_string(), path: "belt://current/b.md".to_string(), description: None, when: None },
        ],
        consumes: vec![],
    }];
    let mut rt = StrMap::new();
    rt.insert(
        "p".to_string(),
        PhaseRuntime {
            outputs: Vec::new(),
            verify_checks: None,
            regate_checks: None,
            artifacts: vec![
                ArtifactFacts { exists: false, resolved_path: None },
                ArtifactFacts { exists: true, resolved_path: Some("/r/b.md".to_string()) },
            ],
        },
    );
    let view = build_status_view(&state, &phases, &rt);
    let produces = view.phases[0].produces.as_ref().unwrap();
    assert_eq!(produces.len(), 1);
    assert_eq!(produces[0].name, "on");
    assert_eq!(produces[0].uri.as_deref(), Some("belt://current/b.md"));
    assert_eq!(produces[0].path, None);
    assert!(produces[0].exists);
    assert_eq!(produces[0].resolved_path.as_deref(), Some("/r/b.md"));
}

fn m(secs: i64, path: &str) -> GlobMatch {
    GlobMatch { modified_secs: secs, modified_nanos: 0, path: path.to_string() }
}

#[test]
fn glob_resolution_picks_newest_after_phase_start() {
    let matches = vec![m(96, "/t/docs-plans-2026-01-01-old-design.md"), m(104, "/t/docs-plans-2026-04-11-new-design.md")];
    assert_eq!(pick_newest_match(&matches, Some((100, 0))), Some("/t/docs-plans-2026-04-11-new-design.md".to_string()));
}

#[test]
fn glob_resolution_zero_matches_reports_missing() {
    let matches = vec![m(96, "/t/stale.md")];
    assert_eq!(pick_newest_match(&matches, Some((100, 0))), None);
    assert_eq!(pick_newest_match(&Vec::new(), None), None);
}

#[test]
fn glob_resolution_equal_mtime_alphabetical_tiebreaker() {
    let matches = vec![m(102, "/t/b.md"), m(102, "/t/a.md")];
    assert_eq!(pick_newest_match(&matches, Some((100, 0))), Some("/t/a.md".to_string()));
}

#[test]
fn glob_resolution_without_start_takes_all() {
    let matches = vec![m(5, "/t/x.md"), m(3, "/t/y.md")];
    assert_eq!(pick_newest_match(&matches, None), Some("/t/x.md".to_string()));
}

#[test]
fn resolve_artifact_splits_uri_and_path() {
    let a = Artifact { name: "n".to_string(), path: "out/x.md".to_string(), description: Some("d".to_string()), when: None };
    let r = resolve_artifact(&a, true, Some("/w/out/x.md".to_string()));
    assert_eq!(r.path.as_deref(), Some("out/x.md"));
    assert_eq!(r.uri, None);
    assert_eq!(r.description.as_deref(), Some("d"));
    assert!(r.exists);
}

#[test]
fn phase_state_and_when() {
    let state = make_state("b", &["a"], &["c"]);
    assert_eq!(determine_phase_state("a", &state), PhaseState::Completed);
    assert_eq!(determine_phase_state("b", &state), PhaseState::Current);
    assert_eq!(determine_phase_state("c", &state), PhaseState::Skipped);
    assert_eq!(determine_phase_state("d", &state), PhaseState::Pending);
    let mut a = StrMap::new();
    a.insert("x".to_string(), JsonValue::Bool(true));
    assert!(evaluate_when(None, &a));
    assert!(evaluate_when(Some("args.x"), &a));
    assert!(!evaluate_when(Some("!args.x"), &a));
    assert!(!evaluate_when(Some("args.y"), &a));
    let arts = vec![
        Artifact { name: "a".to_string(), path: "a".to_string(), description: None, when: Some("args.x".to_string()) },
        Artifact { name: "b".to_string(), path: "b".to_string(), description: None, when: Some("args.y".to_string()) },
    ];
    let act = active_produces(&arts, &a);
    assert_eq!(act.len(), 1);
    assert_eq!(act[0].name, "a");
}
