use belt_core::engine::{eval_when, first_active_phase, sanitize_phase_id, Engine};
use belt_core::error::BeltError;
use belt_core::json::JsonValue;
use belt_core::model::{ExpandedPhase, GateCheck, RunState, RunStatus};
use belt_core::strmap::StrMap;

fn args(pairs: Vec<(&str, JsonValue)>) -> StrMap<JsonValue> {
    let mut m = StrMap::new();
    for (k, v) in pairs {
        m.insert(k.to_string(), v);
    }
    m
}

fn phase(id: &str, when: Option<&str>, gated: bool, regate: Vec<&str>, max_retries: u32) -> ExpandedPhase {
    ExpandedPhase {
        id: id.to_string(),
        description: format!("{id} phase"),
        config: StrMap::new(),
        produces: Vec::new(),
        consumes: Vec::new(),
        gate: if gated { vec![GateCheck::GitClean { git_clean: true }] } else { Vec::new() },
        validate: Vec::new(),
        regate: regate.into_iter().map(str::to_string).collect(),
        confirm: false,
        max_retries,
        when: when.map(str::to_string),
        invoke: None,
        output_dir: None,
    }
}

fn start(phases: &Vec<ExpandedPhase>, a: StrMap<JsonValue>) -> (Engine, RunState) {
    let engine = Engine::new(".belt");
    let st = engine
        .init("demo".to_string(), 1, "/p/pipeline.yml".to_string(), phases, a, None, "100Z".to_string(), "2026-04-07T00:01:40.5Z".to_string())
        .expect("init");
    (engine, st)
}

#[test]
fn eval_when_none_is_true() {
    let a = StrMap::new();
    assert!(eval_when(None, &a));
}

#[test]
fn eval_when_truthy_bool() {
    let a = args(vec![("smoke", JsonValue::Bool(true))]);
    let expr = "args.smoke".to_string();
    assert!(eval_when(Some(&expr), &a));
}

#[test]
fn eval_when_falsy_bool() {
    let a = args(vec![("smoke", JsonValue::Bool(false))]);
    let expr = "args.smoke".to_string();
    assert!(!eval_when(Some(&expr), &a));
}

#[test]
fn eval_when_negated() {
    let a = args(vec![("smoke", JsonValue::Bool(false))]);
    let expr = "!args.smoke".to_string();
    assert!(eval_when(Some(&expr), &a));
}

#[test]
fn eval_when_missing_arg_is_false() {
    let a = StrMap::new();
    let expr = "args.missing".to_string();
    assert!(!eval_when(Some(&expr), &a));
}

#[test]
fn eval_when_null_is_false() {
    let a = args(vec![("x", JsonValue::Null)]);
    let expr = "args.x".to_string();
    assert!(!eval_when(Some(&expr), &a));
}

#[test]
fn eval_when_string_value_is_truthy() {
    let a = args(vec![("name", JsonValue::String("hello".to_string()))]);
    let expr = "args.name".to_string();
    assert!(eval_when(Some(&expr), &a));
}

#[test]
fn eval_when_literals() {
    let a = StrMap::new();
    assert!(eval_when(Some(&"true".to_string()), &a));
    assert!(!eval_when(Some(&"false".to_string()), &a));
    assert!(eval_when(Some(&"!false".to_string()), &a));
    let a = args(vec![("n", JsonValue::Number("0".to_string()))]);
    assert!(eval_when(Some(&"args.n".to_string()), &a));
}

#[test]
fn sanitize_replaces_slashes() {
    assert_eq!(sanitize_phase_id("impl/review/loop"), "impl_review_loop");
    assert_eq!(sanitize_phase_id("plain"), "plain");
}

#[test]
fn first_active_skips_inactive() {
    let phases = vec![phase("a", Some("args.x"), false, vec![], 0), phase("b", None, false, vec![], 0)];
    assert_eq!(first_active_phase(&phases, &StrMap::new()), Some(1));
    assert_eq!(first_active_phase(&phases, &args(vec![("x", JsonValue::Bool(true))])), Some(0));
}

#[test]
fn init_starts_at_first_active_phase() {
    let phases = vec![phase("a", Some("args.x"), true, vec![], 0), phase("b", None, false, vec![], 0)];
    let (_, st) = start(&phases, StrMap::new());
    assert_eq!(st.current_phase, "b");
    assert_eq!(st.pipeline, "demo");
    assert_eq!(st.status, RunStatus::InProgress);
    assert_eq!(st.phase_verify_passed.get("b"), Some(&true));
    assert_eq!(st.phase_start_times.get("b").map(String::as_str), Some("2026-04-07T00:01:40.5Z"));
    assert_eq!(st.created_at, "100Z");
    assert_eq!(st.updated_at, "100Z");
    assert_eq!(st.run_id.len(), 36);
    assert_eq!(&st.run_id[14..15], "7");
    assert!(["8", "9", "a", "b"].contains(&&st.run_id[19..20]));
    assert_eq!(st.run_id.matches('-').count(), 4);
}

#[test]
fn init_fails_without_active_phase() {
    let phases = vec![phase("a", Some("args.x"), true, vec![], 0)];
    let engine = Engine::new(".belt");
    let err = engine
        .init("demo".to_string(), 1, "f".to_string(), &phases, StrMap::new(), None, "1Z".to_string(), "2026-04-07T00:00:01.5Z".to_string())
        .unwrap_err();
    assert_eq!(err, BeltError::InvalidPipeline { message: "no active phases in pipeline".to_string() });
}

#[test]
fn two_runs_get_distinct_ids() {
    let phases = vec![phase("a", None, false, vec![], 0)];
    let (_, s1) = start(&phases, StrMap::new());
    let (_, s2) = start(&phases, StrMap::new());
    assert_ne!(s1.run_id, s2.run_id);
}

#[test]
fn step_requires_verify_on_gated_phase() {
    let phases = vec![phase("a", None, true, vec![], 0), phase("b", None, false, vec![], 0)];
    let (engine, mut st) = start(&phases, StrMap::new());
    let err = engine.step(&mut st, &phases, "2Z".to_string(), "2026-04-07T00:00:02.5Z".to_string()).unwrap_err();
    assert_eq!(err, BeltError::VerifyRequired { phase_id: "a".to_string() });
    assert_eq!(st.current_phase, "a");
    assert!(!engine.verify_verdict(&mut st, false, "3Z".to_string()));
    assert!(engine.step(&mut st, &phases, "4Z".to_string(), "2026-04-07T00:00:04.5Z".to_string()).is_err());
    assert!(engine.verify_verdict(&mut st, true, "5Z".to_string()));
    assert_eq!(st.phase_attempts.get("a"), Some(&2));
    assert_eq!(engine.step(&mut st, &phases, "6Z".to_string(), "2026-04-07T00:00:06.5Z".to_string()).unwrap(), Some("b".to_string()));
    assert_eq!(st.completed_phases, vec!["a".to_string()]);
    assert_eq!(engine.step(&mut st, &phases, "7Z".to_string(), "2026-04-07T00:00:07.5Z".to_string()).unwrap(), None);
    assert_eq!(st.current_phase, "COMPLETED");
    assert_eq!(st.status, RunStatus::Completed);
    assert_eq!(st.completed_phases, vec!["a".to_string(), "b".to_string()]);
}

#[test]
fn step_skips_inactive_phases() {
    let phases = vec![
        phase("a", None, false, vec![], 0),
        phase("b", Some("args.smoke"), false, vec![], 0),
        phase("c", Some("!args.smoke"), false, vec![], 0),
    ];
    let (engine, mut st) = start(&phases, args(vec![("smoke", JsonValue::Bool(false))]));
    assert_eq!(engine.step(&mut st, &phases, "2Z".to_string(), "2026-04-07T00:00:02.5Z".to_string()).unwrap(), Some("c".to_string()));
    assert_eq!(st.skipped_phases, vec!["b".to_string()]);
    assert_eq!(st.phase_start_times.get("c").map(String::as_str), Some("2026-04-07T00:00:02.5Z"));
    assert_eq!(st.updated_at, "2Z");
}

#[test]
fn step_enforces_regate() {
    let phases = vec![phase("a", None, false, vec!["x"], 0), phase("b", None, false, vec![], 0)];
    let (engine, mut st) = start(&phases, StrMap::new());
    let err = engine.step(&mut st, &phases, "2Z".to_string(), "2026-04-07T00:00:02.5Z".to_string()).unwrap_err();
    assert_eq!(err, BeltError::RegateRequired { phase_id: "a".to_string(), targets: vec!["x".to_string()] });
    engine.record_regate(&mut st, false, "3Z".to_string());
    let err = engine.step(&mut st, &phases, "4Z".to_string(), "2026-04-07T00:00:04.5Z".to_string()).unwrap_err();
    assert_eq!(err, BeltError::RegateFailed { phase_id: "a".to_string(), targets: vec!["x".to_string()] });
    engine.record_regate(&mut st, true, "5Z".to_string());
    assert_eq!(engine.step(&mut st, &phases, "6Z".to_string(), "2026-04-07T00:00:06.5Z".to_string()).unwrap(), Some("b".to_string()));
}

#[test]
fn reverify_clears_regate() {
    let phases = vec![phase("a", None, true, vec!["x"], 0), phase("b", None, false, vec![], 0)];
    let (engine, mut st) = start(&phases, StrMap::new());
    engine.verify_verdict(&mut st, true, "2Z".to_string());
    engine.record_regate(&mut st, true, "3Z".to_string());
    engine.verify_verdict(&mut st, true, "4Z".to_string());
    let err = engine.step(&mut st, &phases, "5Z".to_string(), "2026-04-07T00:00:05.5Z".to_string()).unwrap_err();
    assert!(matches!(err, BeltError::RegateRequired { .. }));
}

#[test]
fn step_enforces_retry_limit() {
    let phases = vec![phase("a", None, true, vec![], 1), phase("b", None, false, vec![], 0)];
    let (engine, mut st) = start(&phases, StrMap::new());
    engine.verify_verdict(&mut st, false, "2Z".to_string());
    engine.verify_verdict(&mut st, true, "3Z".to_string());
    let err = engine.step(&mut st, &phases, "4Z".to_string(), "2026-04-07T00:00:04.5Z".to_string()).unwrap_err();
    assert_eq!(
        err,
        BeltError::MaxRetriesExceeded { phase_id: "a".to_string(), attempts: 2, max_retries: 1 }
    );
    assert_eq!(st.current_phase, "a");
}

#[test]
fn next_phase_info_sets_output_dir() {
    let phases = vec![phase("impl/review", None, false, vec![], 0)];
    let (engine, st) = start(&phases, StrMap::new());
    let p = engine.next_phase_info(&st, &phases).unwrap();
    assert_eq!(p.id, "impl/review");
    assert_eq!(p.output_dir, Some(format!(".belt/runs/{}/impl_review", st.run_id)));
    assert_eq!(engine.run_dir("r1"), ".belt/runs/r1");
}

#[test]
fn next_phase_info_reports_unknown_phase() {
    let phases = vec![phase("a", None, false, vec![], 0)];
    let (engine, mut st) = start(&phases, StrMap::new());
    st.current_phase = "gone".to_string();
    let err = engine.next_phase_info(&st, &phases).unwrap_err();
    assert_eq!(err, BeltError::State { message: "current phase 'gone' not found in pipeline".to_string() });
}

#[test]
fn latest_run_id_picks_greatest() {
    let engine = Engine::new(".belt");
    let dirs = vec![
        "01900000-0000-7000-8000-000000000002".to_string(),
        "01900000-0000-7000-8000-000000000010".to_string(),
        "01900000-0000-7000-8000-000000000001".to_string(),
    ];
    assert_eq!(engine.latest_run_id(&dirs).unwrap(), "01900000-0000-7000-8000-000000000010");
    let err = engine.latest_run_id(&Vec::new()).unwrap_err();
    assert_eq!(err, BeltError::State { message: "no runs found".to_string() });
}

#[test]
fn notes_dir_is_under_the_run_dir() {
    let engine = Engine::new(".belt");
    assert_eq!(engine.notes_dir("01947abc"), ".belt/runs/01947abc/notes");
}
