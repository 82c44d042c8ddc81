use belt_core::engine::eval_when;
use belt_core::expander::{leaf_phase, substitute_arg_in_value, substitute_in_value_map, substituted_when};
use belt_core::json::JsonValue;
use belt_core::model::{Invoker, Phase};
use belt_core::strmap::StrMap;

fn num(n: &str) -> JsonValue {
    JsonValue::Number(n.to_string())
}

fn st(s: &str) -> JsonValue {
    JsonValue::String(s.to_string())
}

fn mk_with(pairs: Vec<(&str, JsonValue)>) -> StrMap<JsonValue> {
    let mut m = StrMap::new();
    for (k, v) in pairs {
        m.insert(k.to_string(), v);
    }
    m
}

fn mk_leaf_phase(id: &str, when: Option<&str>) -> Phase {
    Phase {
        id: id.into(),
        description: Some("d".into()),
        with: StrMap::new(),
        when: when.map(str::to_string),
        invoke: None,
        config: StrMap::new(),
        produces: Vec::new(),
        consumes: Vec::new(),
        gate: Vec::new(),
        validate: Vec::new(),
        regate: Vec::new(),
        confirm: false,
        max_retries: 0,
    }
}

fn mk_leaf_with_config(id: &str, config: Vec<(&str, JsonValue)>) -> Phase {
    let mut p = mk_leaf_phase(id, None);
    p.config = mk_with(config);
    p
}

#[test]
fn substitute_returns_none_when_template_is_not_args_dot_form() {
    let w = mk_with(vec![("x", num("5"))]);
    assert!(substitute_arg_in_value("hello", &w).is_none());
    assert!(substitute_arg_in_value("args.", &w).is_none());
    assert!(substitute_arg_in_value("args.x.y", &w).is_none());
}

#[test]
fn substitute_returns_none_when_name_not_in_with() {
    let w = mk_with(vec![("x", num("5"))]);
    assert!(substitute_arg_in_value("args.y", &w).is_none());
}

#[test]
fn substitute_rewrites_identity_template_to_template() {
    let w = mk_with(vec![("count", st("args.iterations"))]);
    assert_eq!(substitute_arg_in_value("args.count", &w), Some(st("args.iterations")));
}

#[test]
fn substitute_rewrites_to_number_literal() {
    let w = mk_with(vec![("count", num("5"))]);
    assert_eq!(substitute_arg_in_value("args.count", &w), Some(num("5")));
}

#[test]
fn substitute_rewrites_to_bool_literal() {
    let w = mk_with(vec![("enabled", JsonValue::Bool(true))]);
    assert_eq!(substitute_arg_in_value("args.enabled", &w), Some(JsonValue::Bool(true)));
}

#[test]
fn substitute_rewrites_to_non_template_string() {
    let w = mk_with(vec![("name", st("foo"))]);
    assert_eq!(substitute_arg_in_value("args.name", &w), Some(st("foo")));
}

#[test]
fn substitute_rewrites_to_null() {
    let w = mk_with(vec![("x", JsonValue::Null)]);
    assert_eq!(substitute_arg_in_value("args.x", &w), Some(JsonValue::Null));
}

#[test]
fn when_rename_string_to_string() {
    let w = mk_with(vec![("inner", st("args.outer"))]);
    let out = leaf_phase(&mk_leaf_phase("leaf", Some("args.inner")), "p/", &w, &vec![]).expect("leaf phase");
    assert_eq!(out.when.as_deref(), Some("args.outer"));
}

#[test]
fn when_rewrites_bool_true_to_string_literal_true() {
    let w = mk_with(vec![("enabled", JsonValue::Bool(true))]);
    let out = leaf_phase(&mk_leaf_phase("leaf", Some("args.enabled")), "p/", &w, &vec![]).expect("leaf phase");
    assert_eq!(out.when.as_deref(), Some("true"));
}

#[test]
fn when_rewrites_bool_false_to_string_literal_false() {
    let w = mk_with(vec![("enabled", JsonValue::Bool(false))]);
    let out = leaf_phase(&mk_leaf_phase("leaf", Some("args.enabled")), "p/", &w, &vec![]).expect("leaf phase");
    assert_eq!(out.when.as_deref(), Some("false"));
}

#[test]
fn when_left_untouched_when_compound_expression() {
    let w = mk_with(vec![("x", JsonValue::Bool(true))]);
    let out =
        leaf_phase(&mk_leaf_phase("leaf", Some("args.x && args.y")), "p/", &w, &vec![]).expect("leaf phase");
    assert_eq!(out.when.as_deref(), Some("args.x && args.y"));
}

#[test]
fn when_left_untouched_when_key_missing() {
    let w = mk_with(vec![("other", JsonValue::Bool(true))]);
    let out = leaf_phase(&mk_leaf_phase("leaf", Some("args.missing")), "p/", &w, &vec![]).expect("leaf phase");
    assert_eq!(out.when.as_deref(), Some("args.missing"));
}

#[test]
fn when_inherited_from_parent_is_not_rewritten_by_sub_with() {
    let sub_with = mk_with(vec![("flag", JsonValue::Bool(true))]);
    let out = leaf_phase(&mk_leaf_phase("leaf", None), "p/", &sub_with, &vec![]).expect("leaf phase");
    assert_eq!(out.when, None);
    assert_eq!(substituted_when(Some("args.flag"), &StrMap::new()).as_deref(), Some("args.flag"));
}

#[test]
fn when_left_untouched_when_with_value_is_number() {
    let w = mk_with(vec![("count", num("5"))]);
    let out = leaf_phase(&mk_leaf_phase("leaf", Some("args.count")), "p/", &w, &vec![]).expect("leaf phase");
    assert_eq!(out.when.as_deref(), Some("args.count"));
}

#[test]
fn when_left_untouched_when_with_value_is_null() {
    let w = mk_with(vec![("x", JsonValue::Null)]);
    let out = leaf_phase(&mk_leaf_phase("leaf", Some("args.x")), "p/", &w, &vec![]).expect("leaf phase");
    assert_eq!(out.when.as_deref(), Some("args.x"));
}

#[test]
fn when_bool_rewrite_evaluates_correctly_in_eval_when() {
    let w = mk_with(vec![("enabled", JsonValue::Bool(true))]);
    let out = leaf_phase(&mk_leaf_phase("leaf", Some("args.enabled")), "p/", &w, &vec![]).expect("leaf phase");
    let empty_args: StrMap<JsonValue> = StrMap::new();
    assert!(eval_when(out.when.as_ref(), &empty_args));
}

#[test]
fn config_string_value_rewritten_to_literal() {
    let w = mk_with(vec![("n", num("7"))]);
    let out =
        leaf_phase(&mk_leaf_with_config("leaf", vec![("k", st("args.n"))]), "p/", &w, &vec![]).expect("leaf phase");
    assert_eq!(out.config.get("k"), Some(&num("7")));
}

#[test]
fn config_string_value_rewritten_to_template() {
    let w = mk_with(vec![("n", st("args.outer"))]);
    let out =
        leaf_phase(&mk_leaf_with_config("leaf", vec![("k", st("args.n"))]), "p/", &w, &vec![]).expect("leaf phase");
    assert_eq!(out.config.get("k"), Some(&st("args.outer")));
}

#[test]
fn config_non_string_values_untouched() {
    let w = mk_with(vec![("k", st("args.outer"))]);
    let list = JsonValue::Array(vec![num("1"), num("2")]);
    let out = leaf_phase(&mk_leaf_with_config("leaf", vec![("k", list)]), "p/", &w, &vec![]).expect("leaf phase");
    assert_eq!(out.config.get("k"), Some(&JsonValue::Array(vec![num("1"), num("2")])));
}

#[test]
fn config_inherited_from_parent_is_not_rewritten_by_sub_with() {
    let sub_with = mk_with(vec![("outer_flag", st("args.renamed"))]);
    let out = leaf_phase(&mk_leaf_phase("leaf", None), "p/", &sub_with, &vec![]).expect("leaf phase");
    assert_eq!(out.config.len(), 0);
    let mut parent_config = mk_with(vec![("custom_key", st("args.outer_flag"))]);
    substitute_in_value_map(&mut parent_config, &StrMap::new());
    assert_eq!(parent_config.get("custom_key"), Some(&st("args.outer_flag")));
}

#[test]
fn config_bool_value_from_with_replaces_string_template() {
    let w = mk_with(vec![("flag", JsonValue::Bool(true))]);
    let out = leaf_phase(&mk_leaf_with_config("leaf", vec![("k", st("args.flag"))]), "p/", &w, &vec![])
        .expect("leaf phase");
    assert_eq!(out.config.get("k"), Some(&JsonValue::Bool(true)));
}

#[test]
fn config_null_value_from_with_replaces_string_template() {
    let w = mk_with(vec![("x", JsonValue::Null)]);
    let out =
        leaf_phase(&mk_leaf_with_config("leaf", vec![("k", st("args.x"))]), "p/", &w, &vec![]).expect("leaf phase");
    assert_eq!(out.config.get("k"), Some(&JsonValue::Null));
}

#[test]
fn config_multi_key_mix_of_matching_and_non_matching_templates() {
    let w = mk_with(vec![("present", st("replaced"))]);
    let out = leaf_phase(
        &mk_leaf_with_config(
            "leaf",
            vec![("k1", st("args.present")), ("k2", st("args.absent")), ("k3", st("literal")), ("k4", num("42"))],
        ),
        "p/",
        &w,
        &vec![],
    )
    .expect("leaf phase");
    assert_eq!(out.config.get("k1"), Some(&st("replaced")));
    assert_eq!(out.config.get("k2"), Some(&st("args.absent")));
    assert_eq!(out.config.get("k3"), Some(&st("literal")));
    assert_eq!(out.config.get("k4"), Some(&num("42")));
}

#[test]
fn invoker_skill_args_rewritten() {
    let mut leaf = mk_leaf_phase("leaf", None);
    leaf.invoke = Some(Invoker::Skill { skill: "/s".into(), args: mk_with(vec![("k", st("args.n"))]) });
    let w = mk_with(vec![("n", num("42"))]);
    let out = leaf_phase(&leaf, "p/", &w, &vec![]).expect("leaf phase");
    match &out.invoke {
        Some(Invoker::Skill { args, .. }) => {
            assert_eq!(args.get("k"), Some(&num("42")));
        },
        _ => panic!("expected Skill invoke"),
    }
}

#[test]
fn invoker_pipeline_nested_with_rewritten() {
    let mut leaf = mk_leaf_phase("leaf", None);
    leaf.invoke =
        Some(Invoker::Pipeline { pipeline: "nested.yml".into(), with: mk_with(vec![("inner", st("args.outer"))]) });
    let w = mk_with(vec![("outer", st("args.iterations"))]);
    let out = leaf_phase(&leaf, "p/", &w, &vec![]).expect("leaf phase");
    match &out.invoke {
        Some(Invoker::Pipeline { with: inner_with, .. }) => {
            assert_eq!(inner_with.get("inner"), Some(&st("args.iterations")));
        },
        _ => panic!("expected Pipeline invoke"),
    }
}

#[test]
fn leaf_phase_namespaces_id_and_local_regate() {
    let mut p = mk_leaf_phase("review", None);
    p.regate = vec!["design".to_string(), "other".to_string()];
    let out = leaf_phase(&p, "impl/", &StrMap::new(), &vec!["design".to_string()]).unwrap();
    assert_eq!(out.id, "impl/review");
    assert_eq!(out.regate, vec!["impl/design".to_string(), "other".to_string()]);
    assert_eq!(out.description, "d");
    assert_eq!(out.output_dir, None);
}

use belt_core::error::BeltError;
use belt_core::expander::{expand_pipeline, LoadedFile, SourceFile};
use belt_core::model::{ExpandedPhase, GateCheck};

fn gated(id: &str, desc: &str) -> Phase {
    let mut p = mk_leaf_phase(id, None);
    p.description = Some(desc.to_string());
    p.gate = vec![GateCheck::Cmd { cmd: "true".to_string(), timeout: 1800 }];
    p
}

fn invoking(id: &str, sub: &str) -> Phase {
    let mut p = mk_leaf_phase(id, None);
    p.description = None;
    p.invoke = Some(Invoker::Pipeline { pipeline: sub.to_string(), with: StrMap::new() });
    p
}

fn key(name: &str) -> String {
    format!("/w/{name}")
}

fn links_for(phases: &[Phase]) -> Vec<String> {
    phases
        .iter()
        .map(|p| match &p.invoke {
            Some(Invoker::Pipeline { pipeline, .. }) => key(pipeline.trim_start_matches("./")),
            _ => String::new(),
        })
        .collect()
}

fn add_file(files: &mut StrMap<LoadedFile>, name: &str, phases: Vec<Phase>) {
    let links = links_for(&phases);
    let present = links.iter().map(|l| !l.is_empty()).collect();
    files.insert(key(name), LoadedFile::Parsed(SourceFile { phases, links, present }));
}

fn expand(root: Vec<Phase>, files: &StrMap<LoadedFile>) -> Result<Vec<ExpandedPhase>, BeltError> {
    let links = links_for(&root);
    expand_pipeline(&root, &links, &key("pipeline.yml"), files)
}

#[test]
fn expand_invoke_pipeline_phase_to_namespaced_ids() {
    let mut files = StrMap::new();
    add_file(&mut files, "spec-review.yml", vec![gated("review", "Review the spec"), gated("fix", "Fix spec issues")]);
    let expanded =
        expand(vec![invoking("spec-review", "spec-review.yml"), gated("build", "Build the project")], &files)
            .expect("expand should succeed");
    assert_eq!(expanded.len(), 3);
    assert_eq!(expanded[0].id, "spec-review/review");
    assert_eq!(expanded[1].id, "spec-review/fix");
    assert_eq!(expanded[2].id, "build");
    assert_eq!(expanded[2].description, "Build the project");
}

#[test]
fn parent_gate_appended_to_last_sub_phase() {
    let mut files = StrMap::new();
    add_file(&mut files, "sub.yml", vec![gated("a", "Phase A"), gated("b", "Phase B")]);
    let mut parent = invoking("parent", "sub.yml");
    parent.gate = vec![GateCheck::Cmd { cmd: "cargo test".to_string(), timeout: 1800 }];
    parent.regate = vec!["execute".to_string()];
    let expanded = expand(vec![gated("execute", "Execute"), parent], &files).expect("expand should succeed");
    assert_eq!(expanded.len(), 3);
    assert_eq!(expanded[0].id, "execute");
    assert_eq!(expanded[1].id, "parent/a");
    assert_eq!(expanded[1].gate.len(), 1);
    assert!(expanded[1].regate.is_empty());
    assert_eq!(expanded[2].id, "parent/b");
    assert_eq!(expanded[2].gate.len(), 2);
    assert_eq!(expanded[2].regate, vec!["execute"]);
}

#[test]
fn when_propagated_to_sub_phases() {
    let mut files = StrMap::new();
    add_file(&mut files, "sub.yml", vec![gated("alpha", "Alpha"), gated("beta", "Beta")]);
    let mut g = invoking("gated", "sub.yml");
    g.when = Some("args.smoke".to_string());
    let expanded = expand(vec![g], &files).expect("expand should succeed");
    assert_eq!(expanded.len(), 2);
    assert_eq!(expanded[0].when.as_deref(), Some("args.smoke"));
    assert_eq!(expanded[1].when.as_deref(), Some("args.smoke"));
}

#[test]
fn leaf_phase_without_description_returns_error() {
    let mut oops = gated("oops", "x");
    oops.description = None;
    let result = expand(vec![oops], &StrMap::new());
    assert!(result.is_err());
    assert!(matches!(result.unwrap_err(), BeltError::InvalidPipeline { .. }));
}

#[test]
fn expand_invoke_pipeline_variant() {
    let mut files = StrMap::new();
    let mut work = mk_leaf_phase("work", None);
    work.description = Some("sub work".to_string());
    let mut audit = mk_leaf_phase("audit", None);
    audit.description = Some("sub audit".to_string());
    add_file(&mut files, "sub.yml", vec![work, audit]);
    let expanded = expand(vec![invoking("review", "./sub.yml")], &files).expect("expand should succeed");
    assert_eq!(expanded.len(), 2);
    assert_eq!(expanded[0].id, "review/work");
    assert_eq!(expanded[1].id, "review/audit");
}

#[test]
fn nested_sub_pipeline_expands_recursively() {
    let mut files = StrMap::new();
    add_file(&mut files, "inner.yml", vec![gated("monkey-test", "Replay scenarios"), gated("dogfood", "Exploratory testing")]);
    add_file(&mut files, "middle.yml", vec![gated("execute", "Implement"), invoking("verify", "inner.yml")]);
    let mut build = invoking("build", "middle.yml");
    build.gate = vec![GateCheck::GitClean { git_clean: true }];
    let expanded = expand(vec![build], &files).expect("nested expand should succeed");
    let ids: Vec<&str> = expanded.iter().map(|p| p.id.as_str()).collect();
    assert_eq!(ids, vec!["build/execute", "build/verify/monkey-test", "build/verify/dogfood"]);
    assert_eq!(expanded[0].gate.len(), 1, "inner leaves keep own gates");
    assert_eq!(expanded[1].gate.len(), 1);
    assert_eq!(expanded[2].gate.len(), 2, "last leaf inherits the outer parent gate appended");
}

#[test]
fn cyclic_sub_pipeline_reference_yields_invalid_pipeline() {
    let mut files = StrMap::new();
    add_file(&mut files, "a.yml", vec![invoking("to-b", "b.yml")]);
    add_file(&mut files, "b.yml", vec![invoking("back-to-a", "a.yml")]);
    let err = expand(vec![invoking("entry", "a.yml")], &files).expect_err("cycle must be rejected");
    assert!(
        matches!(err, BeltError::InvalidPipeline { ref message } if message.contains("cyclic")),
        "unexpected error: {err:?}"
    );
}

#[test]
fn nesting_beyond_depth_limit_yields_invalid_pipeline() {
    let mut files = StrMap::new();
    for i in 1..=4 {
        add_file(&mut files, &format!("d{i}.yml"), vec![invoking("next", &format!("d{}.yml", i + 1))]);
    }
    add_file(&mut files, "d5.yml", vec![gated("leaf", "Bottom")]);
    let err = expand(vec![invoking("entry", "d1.yml")], &files).expect_err("depth must be limited");
    assert!(
        matches!(err, BeltError::InvalidPipeline { ref message } if message.contains("depth")),
        "unexpected error: {err:?}"
    );
}

#[test]
fn sub_internal_regate_targets_are_namespaced() {
    let mut files = StrMap::new();
    let mut review = gated("code-review", "Review");
    review.regate = vec!["execute".to_string()];
    add_file(&mut files, "stage.yml", vec![gated("execute", "Implement"), review]);
    let expanded = expand(vec![invoking("build", "stage.yml")], &files).expect("expand should succeed");
    assert_eq!(expanded[1].id, "build/code-review");
    assert_eq!(
        expanded[1].regate,
        vec!["build/execute".to_string()],
        "sub-internal regate target must be renamed into the expansion namespace"
    );
}

#[test]
fn parent_when_propagates_through_nested_levels() {
    let mut files = StrMap::new();
    add_file(&mut files, "inner.yml", vec![gated("check", "Inner check")]);
    add_file(&mut files, "middle.yml", vec![invoking("deep", "inner.yml")]);
    let mut g = invoking("gated", "middle.yml");
    g.when = Some("args.e2e".to_string());
    let expanded = expand(vec![g], &files).expect("expand should succeed");
    assert_eq!(expanded.len(), 1);
    assert_eq!(expanded[0].id, "gated/deep/check");
    assert_eq!(expanded[0].when.as_deref(), Some("args.e2e"), "outer when must reach the innermost leaf");
}

#[test]
fn missing_sub_pipeline_file_is_reported() {
    let err = expand(vec![invoking("entry", "gone.yml")], &StrMap::new()).unwrap_err();
    assert_eq!(err, BeltError::FileNotFound { path: "/w/gone.yml".to_string() });
}

#[test]
fn empty_sub_pipeline_is_rejected() {
    let mut files = StrMap::new();
    add_file(&mut files, "empty.yml", vec![]);
    let err = expand(vec![invoking("entry", "empty.yml")], &files).unwrap_err();
    assert!(matches!(err, BeltError::InvalidPipeline { ref message } if message.contains("has no phases")), "{err:?}");
}

#[test]
fn with_values_substitute_into_sub_phases() {
    let mut files = StrMap::new();
    let mut leaf = gated("run", "Run");
    leaf.when = Some("args.enabled".to_string());
    leaf.config = mk_with(vec![("count", st("args.n"))]);
    add_file(&mut files, "sub.yml", vec![leaf]);
    let mut parent = invoking("p", "sub.yml");
    parent.invoke = Some(Invoker::Pipeline {
        pipeline: "sub.yml".to_string(),
        with: mk_with(vec![("enabled", JsonValue::Bool(false)), ("n", num("3"))]),
    });
    let expanded = expand(vec![parent], &files).unwrap();
    assert_eq!(expanded[0].when.as_deref(), Some("false"));
    assert_eq!(expanded[0].config.get("count"), Some(&num("3")));
}
