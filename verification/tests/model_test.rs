use belt_core::model::{classify_scalar, default_gate_timeout, RunStatus, ValidationSource};
use belt_core::pipeline::model::{default_flag_type, HookCommand};

#[test]
fn run_status_default_is_in_progress() {
    let default: RunStatus = Default::default();
    assert_eq!(default, RunStatus::InProgress);
}

#[test]
fn default_gate_timeout_is_thirty_minutes() {
    assert_eq!(default_gate_timeout(), 1800);
}

#[test]
fn scalar_validation_is_inline() {
    let v = classify_scalar("check the docs".to_string());
    assert_eq!(v.len(), 1);
    match &v[0] {
        ValidationSource::Inline(s) => assert_eq!(s, "check the docs"),
        other => panic!("expected inline, got {other:?}"),
    }
}

#[test]
fn flag_type_defaults_to_bool() {
    assert_eq!(default_flag_type(), "bool");
}

#[test]
fn hook_command_as_slice() {
    let one = HookCommand::Single("make".to_string());
    assert_eq!(one.as_slice(), vec!["make".to_string()]);
    let many = HookCommand::Multiple(vec!["a".to_string(), "b".to_string()]);
    assert_eq!(many.as_slice(), vec!["a".to_string(), "b".to_string()]);
}

#[test]
fn path_like_validation_is_a_file() {
    for p in ["./criteria.md", "/abs/criteria.md"] {
        let v = classify_scalar(p.to_string());
        assert_eq!(v.len(), 1);
        match &v[0] {
            ValidationSource::File { file } => assert_eq!(file, p),
            other => panic!("expected file, got {other:?}"),
        }
    }
    let v = classify_scalar(".hidden".to_string());
    assert!(matches!(&v[0], ValidationSource::Inline(_)));
}
