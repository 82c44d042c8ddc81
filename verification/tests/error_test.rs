use belt_core::error::BeltError;

#[test]
fn config_parse_error_display_includes_path_and_detail() {
    let err = BeltError::ConfigParse {
        path: "belt.toml".to_string(),
        detail: "expected `=`, found newline".to_string(),
    };
    assert_eq!(err.message(), "config parse error in belt.toml: expected `=`, found newline");
}

#[test]
fn config_parse_error_diagnostic_code() {
    let err = BeltError::ConfigParse { path: "belt.toml".to_string(), detail: "missing field".to_string() };
    let code = err.code();
    assert_eq!(code.to_string(), "belt::config_parse");
}

#[test]
fn regate_required_error_display() {
    let err = BeltError::RegateRequired {
        phase_id: "deploy".to_string(),
        targets: vec!["design".to_string(), "review".to_string()],
    };
    assert_eq!(err.message(), "regate required for phase 'deploy': run regate before step");
}

#[test]
fn regate_required_error_diagnostic_code() {
    let err = BeltError::RegateRequired { phase_id: "deploy".to_string(), targets: vec!["design".to_string()] };
    let code = err.code();
    assert_eq!(code.to_string(), "belt::regate_required");
}

#[test]
fn regate_failed_error_display() {
    let err = BeltError::RegateFailed { phase_id: "deploy".to_string(), targets: vec!["design".to_string()] };
    assert_eq!(err.message(), r#"regate failed for phase 'deploy': targets ["design"] did not pass"#);
}

#[test]
fn regate_failed_error_diagnostic_code() {
    let err = BeltError::RegateFailed {
        phase_id: "deploy".to_string(),
        targets: vec!["design".to_string(), "review".to_string()],
    };
    let code = err.code();
    assert_eq!(code.to_string(), "belt::regate_failed");
}

#[test]
fn error_verify_required_message() {
    let phase_id = "build".to_string();
    let err = BeltError::VerifyRequired { phase_id: phase_id.clone() };
    let msg = err.message();
    assert!(
        msg.contains(&format!("for phase '{phase_id}'")),
        "error message must preserve phase_id '{phase_id}' in quoted form: {msg}"
    );
}

#[test]
fn error_max_retries_exceeded_message() {
    let phase_id = "deploy".to_string();
    let attempts = 3u32;
    let max_retries = 3u32;
    let err = BeltError::MaxRetriesExceeded { phase_id: phase_id.clone(), attempts, max_retries };
    let msg = err.message();
    assert!(
        msg.contains(&format!("for phase '{phase_id}'")),
        "error message must preserve phase_id '{phase_id}' in quoted form: {msg}"
    );
    assert!(
        msg.contains(&format!("{attempts}/{max_retries}")),
        "error message must preserve attempts/max_retries ratio '{attempts}/{max_retries}': {msg}"
    );
}

#[test]
fn regate_failed_lists_several_targets_with_escapes() {
    let err = BeltError::RegateFailed {
        phase_id: "p".to_string(),
        targets: vec!["a".to_string(), "q\"x".to_string()],
    };
    assert_eq!(err.message(), r#"regate failed for phase 'p': targets ["a", "q\"x"] did not pass"#);
}

#[test]
fn every_variant_has_its_message_and_code() {
    let cases = vec![
        (BeltError::YamlParse { message: "bad".to_string(), src: None }, "YAML parse error: bad", "belt::yaml_parse"),
        (BeltError::FileNotFound { path: "x.yml".to_string() }, "file not found: x.yml", "belt::file_not_found"),
        (
            BeltError::InvalidPipeline { message: "m".to_string() },
            "invalid pipeline: m",
            "belt::invalid_pipeline",
        ),
        (BeltError::GateFailed { message: "g".to_string() }, "gate failed: g", "belt::gate_failed"),
        (
            BeltError::VerifyRequired { phase_id: "b".to_string() },
            "verify required for phase 'b': run verify before step",
            "belt::verify_required",
        ),
        (
            BeltError::MaxRetriesExceeded { phase_id: "d".to_string(), attempts: 12, max_retries: 7 },
            "max retries exceeded for phase 'd': 12/7",
            "belt::max_retries_exceeded",
        ),
        (BeltError::State { message: "s".to_string() }, "state error: s", "belt::state"),
        (BeltError::Io { message: "disk".to_string() }, "disk", "belt::io"),
    ];
    for (e, msg, code) in cases {
        assert_eq!(e.message(), msg);
        assert_eq!(e.code(), code);
    }
}
