use belt_core::agent::{
    belt_dir, branch_from_rev_parse, external_resolved_path, needs_confirmation, regate_precheck, regate_targets,
    regate_verdict, resolve_pipeline, resolve_run, step_refusal, PipelineSource, RegatePrecheck, RegateTarget, StepRefusal,
};
use belt_core::engine::Engine;
use belt_core::error::BeltError;
use belt_core::json::JsonValue;
use belt_core::model::{ExpandedPhase, GateCheck, ValidationSource};
use belt_core::strmap::StrMap;
use belt_core::uri::BeltUri;

fn phase(id: &str, gated: bool, regate: Vec<&str>) -> ExpandedPhase {
    ExpandedPhase {
        id: id.to_string(),
        description: "d".to_string(),
        config: StrMap::new(),
        produces: Vec::new(),
        consumes: Vec::new(),
        gate: if gated { vec![GateCheck::HasOutput { has_output: true }] } else { Vec::new() },
        validate: Vec::new(),
        regate: regate.into_iter().map(str::to_string).collect(),
        confirm: false,
        max_retries: 0,
        when: None,
        invoke: None,
        output_dir: None,
    }
}

#[test]
fn belt_dir_is_dot_belt() {
    assert_eq!(belt_dir(), ".belt");
}

#[test]
fn pipeline_source_needs_exactly_one() {
    assert!(matches!(resolve_pipeline(Some("belt.toml"), None), Ok(PipelineSource::Config(c)) if c == "belt.toml"));
    assert!(matches!(resolve_pipeline(None, Some("p.yml")), Ok(PipelineSource::File(f)) if f == "p.yml"));
    assert_eq!(
        resolve_pipeline(Some("a"), Some("b")).unwrap_err(),
        "conflicting arguments: --config and positional <file> are mutually exclusive"
    );
    assert_eq!(
        resolve_pipeline(None, None).unwrap_err(),
        "missing argument: provide either --config <path> or a pipeline file"
    );
}

#[test]
fn explicit_run_wins_over_latest() {
    let latest = Err(BeltError::State { message: "no runs found".to_string() });
    assert_eq!(resolve_run(Some("r1"), latest).unwrap(), "r1");
    assert_eq!(resolve_run(None, Ok("r2".to_string())).unwrap(), "r2");
    let latest = Err(BeltError::State { message: "no runs found".to_string() });
    assert_eq!(
        resolve_run(None, latest).unwrap_err(),
        BeltError::State { message: "no runs found".to_string() }
    );
}

#[test]
fn confirmation_rules() {
    let mut p = phase("a", false, vec![]);
    assert!(!needs_confirmation(&p, false));
    p.confirm = true;
    assert!(needs_confirmation(&p, false));
    assert!(!needs_confirmation(&p, true));
    p.confirm = false;
    p.validate = vec![ValidationSource::Inline("ok?".to_string())];
    assert!(needs_confirmation(&p, false));
}

#[test]
fn step_errors_become_refusals() {
    let r = step_refusal(BeltError::VerifyRequired { phase_id: "a".to_string() }).unwrap();
    assert_eq!(r.reason(), "verify_required");
    let r = step_refusal(BeltError::RegateRequired { phase_id: "a".to_string(), targets: vec!["x".to_string()] })
        .unwrap();
    assert_eq!(r.reason(), "regate_not_executed");
    assert!(matches!(r, StepRefusal::RegateNotExecuted { ref targets, .. } if targets == &vec!["x".to_string()]));
    let r = step_refusal(BeltError::RegateFailed { phase_id: "a".to_string(), targets: vec![] }).unwrap();
    assert_eq!(r.reason(), "regate_failed");
    let r = step_refusal(BeltError::MaxRetriesExceeded { phase_id: "a".to_string(), attempts: 4, max_retries: 3 })
        .unwrap();
    assert_eq!(r.reason(), "max_retries_exceeded");
    let e = step_refusal(BeltError::State { message: "m".to_string() }).unwrap_err();
    assert_eq!(e, BeltError::State { message: "m".to_string() });
    assert_eq!(StepRefusal::ConfirmationRequired { phase: "a".to_string() }.reason(), "confirmation_required");
}

#[test]
fn regate_precheck_cases() {
    let phases = vec![phase("a", true, vec!["b"]), phase("b", false, vec![])];
    let engine = Engine::new(".belt");
    let mut st = engine
        .init("p".to_string(), 1, "f".to_string(), &phases, StrMap::<JsonValue>::new(), None, "1Z".to_string(), "2026-04-07T00:00:01.5Z".to_string())
        .unwrap();
    assert_eq!(regate_precheck(&st), RegatePrecheck::VerifyNotPassed);
    engine.verify_verdict(&mut st, true, "2Z".to_string());
    assert_eq!(regate_precheck(&st), RegatePrecheck::Proceed);
    st.current_phase = "COMPLETED".to_string();
    assert_eq!(regate_precheck(&st), RegatePrecheck::Completed);
}

#[test]
fn regate_plan_skips_and_checks() {
    let phases = vec![phase("design", true, vec![]), phase("spike", true, vec![]), phase("impl", false, vec!["design", "spike"])];
    let engine = Engine::new(".belt");
    let mut st = engine
        .init("p".to_string(), 1, "f".to_string(), &phases, StrMap::<JsonValue>::new(), None, "1Z".to_string(), "2026-04-07T00:00:01.5Z".to_string())
        .unwrap();
    st.skipped_phases.push("spike".to_string());
    let plan = regate_targets(&phases[2], &st, &phases).unwrap();
    assert_eq!(plan.len(), 2);
    match &plan[0] {
        RegateTarget::Check { id, gate } => {
            assert_eq!(id, "design");
            assert_eq!(gate.len(), 1);
        },
        other => panic!("expected check, got {other:?}"),
    }
    assert!(matches!(&plan[1], RegateTarget::Skipped { id } if id == "spike"));
    let lone = phase("x", false, vec!["ghost"]);
    assert_eq!(regate_targets(&lone, &st, &phases).unwrap_err(), "regate target 'ghost' not found in pipeline");
}

#[test]
fn branch_from_git_output() {
    assert_eq!(branch_from_rev_parse(true, Some("main\n")), Some("main".to_string()));
    assert_eq!(branch_from_rev_parse(true, Some("HEAD\n")), None);
    assert_eq!(branch_from_rev_parse(true, Some("  \n")), None);
    assert_eq!(branch_from_rev_parse(false, Some("main\n")), None);
    assert_eq!(branch_from_rev_parse(true, None), None);
}

#[test]
fn resolved_path_lookup() {
    let mut m = StrMap::new();
    m.insert("belt://run/r1/a.md".to_string(), "/x/.belt/runs/r1/a.md".to_string());
    let u = BeltUri::parse("belt://run/r1/a.md").unwrap();
    assert_eq!(external_resolved_path(&u, &m), Some("/x/.belt/runs/r1/a.md".to_string()));
    let v = BeltUri::parse("belt://run/r2/a.md").unwrap();
    assert_eq!(external_resolved_path(&v, &m), None);
}


#[test]
fn regate_verdict_is_the_and_of_target_verdicts() {
    assert!(regate_verdict(&Vec::new()));
    assert!(regate_verdict(&vec![true, true]));
    assert!(!regate_verdict(&vec![true, false, true]));
    assert!(!regate_verdict(&vec![false]));
}
