use belt_core::error::BeltError;
use belt_core::expander::{LoadedFile, SourceFile};
use belt_core::json::JsonValue;
use belt_core::lint::{
    check_artifact_flow, check_empty_phase, lint_pipeline, lint_raw_pipeline_yaml, LintDiagnostic, LintSources,
    PathFacts, Severity,
};
use belt_core::model::{
    ArgDef, ArgType, Artifact, ArtifactRef, GateCheck, Invoker, Phase, Pipeline, ValidationSource,
};
use belt_core::strmap::StrMap;
use belt_core::uri::BeltUri;

fn phase(id: &str) -> Phase {
    Phase {
        id: id.to_string(),
        description: Some(id.to_string()),
        with: StrMap::new(),
        when: None,
        invoke: None,
        config: StrMap::new(),
        produces: Vec::new(),
        consumes: Vec::new(),
        gate: Vec::new(),
        validate: Vec::new(),
        regate: Vec::new(),
        confirm: false,
        max_retries: 0,
    }
}

fn cmd(c: &str) -> GateCheck {
    GateCheck::Cmd { cmd: c.to_string(), timeout: 1800 }
}

fn art(name: &str, path: &str) -> Artifact {
    Artifact { name: name.to_string(), path: path.to_string(), description: None, when: None }
}

fn pipeline(phases: Vec<Phase>) -> Pipeline {
    Pipeline { name: "t".to_string(), description: None, version: 1, args: StrMap::new(), phases }
}

fn sources_for(n: usize) -> LintSources {
    LintSources {
        links: vec![String::new(); n],
        present: vec![false; n],
        root_key: "/w/pipeline.yml".to_string(),
        files: StrMap::new(),
        facts: PathFacts { existing: Vec::new(), regular_files: Vec::new() },
    }
}

fn lint(p: Pipeline) -> Vec<LintDiagnostic> {
    let n = p.phases.len();
    lint_pipeline(None, &Ok(p), &sources_for(n))
}

fn errors(ds: &[LintDiagnostic]) -> Vec<&LintDiagnostic> {
    ds.iter().filter(|d| d.severity == Severity::Error).collect()
}

fn obj(pairs: Vec<(&str, JsonValue)>) -> JsonValue {
    JsonValue::Object(pairs.into_iter().map(|(k, v)| (k.to_string(), v)).collect())
}

fn st(s: &str) -> JsonValue {
    JsonValue::String(s.to_string())
}

fn raw_with_invoke(invoke: JsonValue) -> JsonValue {
    obj(vec![
        ("name", st("p")),
        ("version", JsonValue::Number("1".to_string())),
        ("phases", JsonValue::Array(vec![obj(vec![("id", st("x")), ("invoke", invoke)])])),
    ])
}

#[test]
fn lint_detects_duplicate_phase_ids() {
    let mut a = phase("build");
    a.description = Some("Build 1".to_string());
    let mut b = phase("build");
    b.description = Some("Build 2".to_string());
    let diagnostics = lint(pipeline(vec![a, b]));
    let errors = errors(&diagnostics);
    assert!(
        errors.iter().any(|d| d.message.contains("duplicate")),
        "expected a diagnostic containing 'duplicate', got: {errors:?}",
    );
}

#[test]
fn lint_detects_invalid_regate_target() {
    let mut a = phase("build");
    a.regate = vec!["nonexistent".to_string()];
    let diagnostics = lint(pipeline(vec![a]));
    let errors = errors(&diagnostics);
    assert!(
        errors.iter().any(|d| d.message.contains("nonexistent")),
        "expected a diagnostic mentioning 'nonexistent', got: {errors:?}",
    );
}

#[test]
fn lint_detects_undefined_arg_in_when() {
    let mut p = pipeline(vec![{
        let mut a = phase("build");
        a.when = Some("args.nonexistent".to_string());
        a
    }]);
    p.args.insert("smoke".to_string(), ArgDef { arg_type: ArgType::Bool, default: Some(JsonValue::Bool(false)) });
    let diagnostics = lint(p);
    let errors = errors(&diagnostics);
    assert!(
        errors.iter().any(|d| d.message.contains("nonexistent")),
        "expected a diagnostic mentioning 'nonexistent', got: {errors:?}",
    );
}

#[test]
fn clean_pipeline_passes_lint() {
    let mut build = phase("build");
    build.gate = vec![cmd("cargo build")];
    let mut test = phase("test");
    test.when = Some("args.smoke".to_string());
    test.gate = vec![cmd("cargo test")];
    test.regate = vec!["build".to_string()];
    let mut p = pipeline(vec![build, test]);
    p.args.insert("smoke".to_string(), ArgDef { arg_type: ArgType::Bool, default: Some(JsonValue::Bool(false)) });
    let diagnostics = lint(p);
    let errors = errors(&diagnostics);
    assert!(errors.is_empty(), "expected no Error diagnostics, got: {errors:?}");
}

#[test]
fn lint_detects_missing_invoke_pipeline_file() {
    let mut s = phase("sub");
    s.invoke = Some(Invoker::Pipeline { pipeline: "./nonexistent.yml".to_string(), with: StrMap::new() });
    let mut src = sources_for(1);
    src.links = vec!["/w/nonexistent.yml".to_string()];
    src.present = vec![false];
    let diagnostics = lint_pipeline(None, &Ok(pipeline(vec![s])), &src);
    let errors = errors(&diagnostics);
    assert!(
        errors.iter().any(|d| d.message.contains("nonexistent.yml")
            && (d.message.contains("invoke") || d.message.contains("pipeline"))),
        "expected diagnostic mentioning 'nonexistent.yml' and invoke/pipeline, got: {errors:?}"
    );
}

#[test]
fn lint_accepts_valid_invoke_pipeline_path() {
    let mut s = phase("s");
    s.description = None;
    s.invoke = Some(Invoker::Pipeline { pipeline: "./sub.yml".to_string(), with: StrMap::new() });
    let mut run = phase("run");
    run.description = Some("sub run".to_string());
    let mut src = sources_for(1);
    src.links = vec!["/w/sub.yml".to_string()];
    src.present = vec![true];
    src.files.insert(
        "/w/sub.yml".to_string(),
        LoadedFile::Parsed(SourceFile { phases: vec![run], links: vec![String::new()], present: vec![false] }),
    );
    let diagnostics = lint_pipeline(None, &Ok(pipeline(vec![s])), &src);
    let errors = errors(&diagnostics);
    assert!(errors.is_empty(), "expected no errors for valid invoke pipeline path, got: {errors:?}");
}

#[test]
fn lint_detects_invoke_skill_without_description() {
    let mut r = phase("review");
    r.description = None;
    r.invoke = Some(Invoker::Skill { skill: "/code-review".to_string(), args: StrMap::new() });
    let diagnostics = lint(pipeline(vec![r]));
    let errors = errors(&diagnostics);
    assert!(
        errors.iter().any(|d| d.message.contains("leaf phase") || d.message.contains("description")),
        "expected diagnostic mentioning 'leaf phase' or 'description', got: {errors:?}"
    );
}

#[test]
fn lint_detects_invoke_skill_without_leading_slash() {
    let mut p = phase("p");
    p.invoke = Some(Invoker::Skill { skill: "brainstorming".to_string(), args: StrMap::new() });
    let diagnostics = lint(pipeline(vec![p]));
    let errors = errors(&diagnostics);
    assert!(
        errors.iter().any(|d| d.message.contains("brainstorming") && d.message.contains("slash")),
        "expected diagnostic about leading slash, got: {errors:?}"
    );
}

#[test]
fn lint_accepts_invoke_skill_with_leading_slash() {
    let mut p = phase("p");
    p.invoke = Some(Invoker::Skill { skill: "/brainstorming".to_string(), args: StrMap::new() });
    let diagnostics = lint(pipeline(vec![p]));
    let errors = errors(&diagnostics);
    assert!(errors.is_empty(), "expected no errors, got: {errors:?}");
}

#[test]
fn lint_detects_invoke_skill_empty() {
    let mut p = phase("p");
    p.invoke = Some(Invoker::Skill { skill: String::new(), args: StrMap::new() });
    let diagnostics = lint(pipeline(vec![p]));
    let errors = errors(&diagnostics);
    assert!(errors.iter().any(|d| d.message.contains("empty")), "expected diagnostic about empty skill, got: {errors:?}");
}

#[test]
fn lint_detects_duplicate_produces_name_in_one_phase() {
    let mut p = phase("p");
    p.produces = vec![art("doc", "a.md"), art("doc", "b.md")];
    let diagnostics = lint(pipeline(vec![p]));
    let errors = errors(&diagnostics);
    assert!(
        errors.iter().any(|d| d.message.contains("duplicate") && d.message.contains("doc")),
        "expected duplicate produces name error, got: {errors:?}"
    );
}

#[test]
fn lint_detects_unresolved_consumes_named() {
    let mut first = phase("first");
    first.produces = vec![art("design_doc", "design.md")];
    let mut second = phase("second");
    second.consumes = vec![ArtifactRef::Named("phantom_artifact".to_string())];
    let diagnostics = lint(pipeline(vec![first, second]));
    let errors = errors(&diagnostics);
    assert!(
        errors.iter().any(|d| d.message.contains("phantom_artifact") && d.message.contains("consumes")),
        "expected unresolved consumes error, got: {errors:?}"
    );
}

#[test]
fn lint_detects_unresolved_consumes_qualified_unknown_phase() {
    let mut first = phase("first");
    first.produces = vec![art("doc", "doc.md")];
    let mut second = phase("second");
    second.consumes = vec![ArtifactRef::Qualified { name: "doc".to_string(), from: "nonexistent".to_string() }];
    let diagnostics = lint(pipeline(vec![first, second]));
    let errors = errors(&diagnostics);
    assert!(
        errors.iter().any(|d| d.message.contains("nonexistent") && d.message.contains("consumes")),
        "expected unresolved qualified consumes error, got: {errors:?}"
    );
}

#[test]
fn lint_accepts_consumes_resolved_to_earlier_phase() {
    let mut design = phase("design");
    design.gate = vec![cmd("true")];
    design.produces = vec![art("design_doc", "design.md")];
    let mut plan = phase("plan");
    plan.gate = vec![cmd("true")];
    plan.consumes = vec![ArtifactRef::Named("design_doc".to_string())];
    let mut review = phase("review");
    review.gate = vec![cmd("true")];
    review.consumes = vec![ArtifactRef::Qualified { name: "design_doc".to_string(), from: "design".to_string() }];
    let diagnostics = lint(pipeline(vec![design, plan, review]));
    let errors = errors(&diagnostics);
    assert!(errors.is_empty(), "expected no errors, got: {errors:?}");
}

#[test]
fn lint_detects_consumes_from_later_phase() {
    let mut early = phase("early");
    early.consumes = vec![ArtifactRef::Named("late_doc".to_string())];
    let mut late = phase("late");
    late.produces = vec![art("late_doc", "late.md")];
    let diagnostics = lint(pipeline(vec![early, late]));
    let errors = errors(&diagnostics);
    assert!(
        errors.iter().any(|d| d.message.contains("late_doc")),
        "expected error about consuming later phase's output, got: {errors:?}"
    );
}

#[test]
fn lint_detects_validate_file_missing() {
    let mut p = phase("p");
    p.validate = vec![ValidationSource::File { file: "./nonexistent-criteria.md".to_string() }];
    let diagnostics = lint(pipeline(vec![p]));
    let errors = errors(&diagnostics);
    assert!(
        errors.iter().any(|d| d.message.contains("nonexistent-criteria.md") && d.message.contains("validate")),
        "expected validate file missing error, got: {errors:?}"
    );
}

#[test]
fn lint_accepts_validate_file_present() {
    let mut p = phase("p");
    p.validate = vec![ValidationSource::File { file: "./criteria.md".to_string() }];
    let mut src = sources_for(1);
    src.facts.existing.push("./criteria.md".to_string());
    let diagnostics = lint_pipeline(None, &Ok(pipeline(vec![p])), &src);
    let errors = errors(&diagnostics);
    assert!(errors.is_empty(), "expected no errors, got: {errors:?}");
}

#[test]
fn lint_rejects_completely_empty_phase() {
    let mut p = phase("empty");
    p.description = Some("has nothing".to_string());
    let diagnostics = lint(pipeline(vec![p]));
    let errors = errors(&diagnostics);
    assert!(
        errors
            .iter()
            .any(|d| d.message.contains("'empty'") && d.message.contains("neither invoke, gate, validate, nor confirm")),
        "expected EmptyPhase diagnostic for 'empty', got {errors:?}"
    );
}

#[test]
fn lint_accepts_phase_with_only_gate() {
    let mut p = phase("p");
    p.gate = vec![cmd("true")];
    let diagnostics = lint(pipeline(vec![p]));
    let errors = errors(&diagnostics);
    assert!(
        !errors.iter().any(|d| d.message.contains("neither invoke, gate, validate, nor confirm")),
        "phase with only gate must pass empty-phase lint: {errors:?}"
    );
}

#[test]
fn lint_accepts_phase_with_only_validate() {
    let mut p = phase("p");
    p.validate = vec![ValidationSource::Inline("some criterion".to_string())];
    let diagnostics = lint(pipeline(vec![p]));
    let errors = errors(&diagnostics);
    assert!(
        !errors.iter().any(|d| d.message.contains("neither invoke, gate, validate, nor confirm")),
        "phase with only validate must pass empty-phase lint: {errors:?}"
    );
}

#[test]
fn lint_accepts_phase_with_only_confirm() {
    let mut p = phase("p");
    p.confirm = true;
    let diagnostics = lint(pipeline(vec![p]));
    let errors = errors(&diagnostics);
    assert!(
        !errors.iter().any(|d| d.message.contains("neither invoke, gate, validate, nor confirm")),
        "phase with only confirm must pass empty-phase lint: {errors:?}"
    );
}

#[test]
fn lint_validate_inline_strings_unaffected() {
    let mut p = phase("p");
    p.validate = vec![
        ValidationSource::Inline("inline criterion 1".to_string()),
        ValidationSource::Inline("inline criterion 2".to_string()),
    ];
    let diagnostics = lint(pipeline(vec![p]));
    let errors = errors(&diagnostics);
    assert!(errors.is_empty(), "expected no errors, got: {errors:?}");
}

#[test]
fn lint_rejects_invalid_uri_grammar() {
    let parse_err = BeltUri::parse("belt://bogus/whatever/x.md").unwrap_err();
    let parsed: Result<Pipeline, BeltError> =
        Err(BeltError::YamlParse { message: parse_err.message(), src: None });
    let diags = lint_pipeline(None, &parsed, &sources_for(0));
    assert!(
        diags.iter().any(|d| {
            let m = d.message.to_lowercase();
            m.contains("uri") || m.contains("selector") || m.contains("invalid")
        }),
        "lint should flag invalid URI grammar, got: {diags:?}"
    );
}

#[test]
fn lint_warns_on_belt_uri_with_unknown_sibling_pipeline() {
    let mut rca = phase("rca");
    rca.consumes = vec![ArtifactRef::External {
        name: "prior".to_string(),
        uri: BeltUri::parse("belt://latest/no-such-producer/notes/x.md").unwrap(),
    }];
    let diags = lint(pipeline(vec![rca]));
    assert!(
        diags.iter().any(|d| d.message.contains("no-such-producer")),
        "expected a diagnostic mentioning 'no-such-producer', got: {diags:?}"
    );
}

#[test]
fn lint_warns_on_produces_without_gate() {
    let mut review = phase("review");
    review.produces = vec![art("notes", ".belt/runs/{run_id}/notes/phase-review.md")];
    review.gate = vec![cmd("echo ok")];
    let diags = lint(pipeline(vec![review]));
    assert!(
        diags.iter().any(|d| d.severity == Severity::Warning && d.message.contains("not protected by gate")),
        "expected a Warning diagnostic mentioning 'not protected by gate', got: {diags:?}"
    );
}

#[test]
fn lint_rejects_invoke_agent_key() {
    let doc = raw_with_invoke(obj(vec![("agent", st("foo"))]));
    let err = lint_raw_pipeline_yaml(&doc).expect_err("lint must reject invoke.agent");
    let message = err.message();
    assert!(
        message.contains("invoke.agent") && (message.contains("no longer supported") || message.contains("removed")),
        "lint message must mention invoke.agent removal; got: {message}"
    );
}

#[test]
fn lint_rejects_invoke_agents_key() {
    let doc = raw_with_invoke(obj(vec![("agents", JsonValue::Array(vec![st("foo")]))]));
    let err = lint_raw_pipeline_yaml(&doc).expect_err("lint must reject invoke.agents");
    let message = err.message();
    assert!(message.contains("invoke.agents"), "lint message must mention invoke.agents removal; got: {message}");
}

#[test]
fn lint_rejects_invoke_iterations_key() {
    let doc = raw_with_invoke(obj(vec![("skill", st("/x")), ("iterations", JsonValue::Number("3".to_string()))]));
    let err = lint_raw_pipeline_yaml(&doc).expect_err("lint must reject invoke.iterations");
    let message = err.message();
    assert!(message.contains("iterations"), "lint message must mention iterations removal; got: {message}");
}

#[test]
fn lint_pipeline_surfaces_invoke_agent_migration_hint() {
    let doc = raw_with_invoke(obj(vec![("agent", st("foo"))]));
    let parsed: Result<Pipeline, BeltError> =
        Err(BeltError::YamlParse { message: "data did not match any variant of untagged enum".to_string(), src: None });
    let diagnostics = lint_pipeline(Some(&doc), &parsed, &sources_for(0));
    let rendered = format!("{diagnostics:?}");
    assert!(
        rendered.contains("invoke.agent") && rendered.contains("no longer supported"),
        "lint_pipeline must surface the raw-YAML migration hint; got: {rendered}"
    );
}

#[test]
fn raw_lint_accepts_current_keys() {
    let doc = raw_with_invoke(obj(vec![("skill", st("/x"))]));
    assert!(lint_raw_pipeline_yaml(&doc).is_ok());
    assert!(lint_raw_pipeline_yaml(&st("not a mapping")).is_ok());
}

#[test]
fn lint_rejects_belt_runs_literal_in_produces_path() {
    let mut p = phase("p");
    p.description = Some("x".to_string());
    p.produces = vec![art("notes", ".belt/runs/{run_id}/notes/phase-p.md")];
    p.gate = vec![GateCheck::FileExists { file_exists: ".belt/runs/{run_id}/notes/phase-p.md".to_string() }];
    let diags = lint(pipeline(vec![p]));
    assert!(
        diags.iter().any(|d| d.severity == Severity::Error && d.message.contains(".belt/runs/")),
        "lint must reject .belt/runs/ literal in produces.path"
    );
}

#[test]
fn lint_rejects_belt_runs_literal_in_gate_file_exists() {
    let mut p = phase("p");
    p.gate = vec![GateCheck::FileExists { file_exists: ".belt/runs/{run_id}/handover.md".to_string() }];
    p.confirm = true;
    let diags = lint(pipeline(vec![p]));
    assert!(diags.iter().any(|d| d.severity == Severity::Error && d.message.contains(".belt/runs/")));
}

#[test]
fn lint_rejects_run_id_template_in_produces_path() {
    let mut p = phase("p");
    p.produces = vec![art("notes", "belt://current/notes/{run_id}.md")];
    p.gate = vec![GateCheck::FileExists { file_exists: "belt://current/notes/{run_id}.md".to_string() }];
    let diags = lint(pipeline(vec![p]));
    assert!(diags.iter().any(|d| d.severity == Severity::Error && d.message.contains("{run_id}")));
}

#[test]
fn lint_rejects_run_id_template_in_gate_cmd() {
    let mut p = phase("p");
    p.gate = vec![cmd("test -f .belt/runs/{run_id}/x")];
    let diags = lint(pipeline(vec![p]));
    assert!(diags.iter().any(|d| d.severity == Severity::Error
        && (d.message.contains("{run_id}") || d.message.contains(".belt/runs/"))));
}

#[test]
fn expansion_runs_only_without_static_errors() {
    let mut s = phase("s");
    s.invoke = Some(Invoker::Pipeline { pipeline: "./sub.yml".to_string(), with: StrMap::new() });
    let mut src = sources_for(1);
    src.links = vec!["/w/sub.yml".to_string()];
    src.present = vec![true];
    src.files.insert(
        "/w/sub.yml".to_string(),
        LoadedFile::Failed(BeltError::YamlParse { message: "bad sub".to_string(), src: None }),
    );
    let diags = lint_pipeline(None, &Ok(pipeline(vec![s])), &src);
    assert!(diags.iter().any(|d| d.message.contains("bad sub")), "{diags:?}");
}

#[test]
fn parse_failure_is_the_only_finding() {
    let parsed: Result<Pipeline, BeltError> = Err(BeltError::YamlParse { message: "oops".to_string(), src: None });
    let diags = lint_pipeline(None, &parsed, &sources_for(0));
    assert_eq!(diags.len(), 1);
    assert_eq!(diags[0].severity, Severity::Error);
    assert_eq!(diags[0].message, "parse error: YAML parse error: oops");
}

#[test]
fn empty_phase_check_alone() {
    let mut out = Vec::new();
    check_empty_phase(&phase("idle"), &mut out);
    assert_eq!(out.len(), 1);
    let mut p = phase("busy");
    p.confirm = true;
    check_empty_phase(&p, &mut out);
    assert_eq!(out.len(), 1);
}

#[test]
fn artifact_flow_check_alone() {
    let mut a = phase("a");
    a.produces = vec![art("x", "x.md")];
    let mut b = phase("b");
    b.consumes = vec![ArtifactRef::Named("x".to_string())];
    let mut out = Vec::new();
    check_artifact_flow(&pipeline(vec![a, b]), &mut out);
    assert!(out.is_empty(), "{out:?}");
}
