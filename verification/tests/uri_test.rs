use belt_core::uri::{BeltUri, UriParseError};

#[test]
fn latest_selector_parses_with_pipeline_and_path() {
    let u = BeltUri::parse("belt://latest/feature-dev/notes/phase-review.md").expect("valid Latest URI must parse");
    match u {
        BeltUri::Latest { pipeline, path } => {
            assert_eq!(pipeline, "feature-dev");
            assert_eq!(path, "notes/phase-review.md");
        },
        other => panic!("expected BeltUri::Latest, got {other:?}"),
    }
}

#[test]
fn workspace_latest_selector_parses_with_branch_pipeline_path() {
    let u = BeltUri::parse("belt://workspace/develop/latest/feature-dev/notes/phase-review.md")
        .expect("valid WorkspaceLatest URI must parse");
    match u {
        BeltUri::WorkspaceLatest { branch, pipeline, path } => {
            assert_eq!(branch, "develop");
            assert_eq!(pipeline, "feature-dev");
            assert_eq!(path, "notes/phase-review.md");
        },
        other => panic!("expected BeltUri::WorkspaceLatest, got {other:?}"),
    }
}

#[test]
fn run_selector_parses_with_run_id_and_path() {
    let u = BeltUri::parse("belt://run/01947abc-0000-7000-8000-000000000000/notes/phase-review.md")
        .expect("valid Run URI must parse");
    match u {
        BeltUri::Run { run_id, path } => {
            assert_eq!(run_id, "01947abc-0000-7000-8000-000000000000");
            assert_eq!(path, "notes/phase-review.md");
        },
        other => panic!("expected BeltUri::Run, got {other:?}"),
    }
}

#[test]
fn non_belt_scheme_is_rejected() {
    let err = BeltUri::parse("https://example.com/foo").expect_err("non-belt scheme must be rejected");
    assert!(matches!(err, UriParseError::MissingScheme(_)), "expected MissingScheme, got {err:?}");
}

#[test]
fn path_traversal_segment_is_rejected() {
    let err = BeltUri::parse("belt://latest/feature-dev/../etc/passwd").expect_err("path traversal must be rejected");
    assert!(matches!(err, UriParseError::PathTraversal { .. }), "expected PathTraversal, got {err:?}");
}

#[test]
fn unknown_selector_is_rejected() {
    let err = BeltUri::parse("belt://unknown/pipeline/path.md").expect_err("should reject");
    assert!(matches!(err, UriParseError::UnknownSelector { .. }));
}

#[test]
fn empty_pipeline_is_rejected() {
    let err = BeltUri::parse("belt://latest//notes/x.md").expect_err("should reject");
    assert!(matches!(err, UriParseError::EmptyPipeline { .. }));
}

#[test]
fn empty_run_id_is_rejected() {
    let err = BeltUri::parse("belt://run//notes/x.md").expect_err("should reject");
    assert!(matches!(err, UriParseError::EmptyRunId { .. }));
}

#[test]
fn empty_path_is_rejected() {
    let err = BeltUri::parse("belt://latest/feature-dev/").expect_err("should reject");
    assert!(matches!(err, UriParseError::EmptyPath { .. }));
}

#[test]
fn absolute_path_is_rejected() {
    let err = BeltUri::parse("belt://latest/feature-dev//notes/x.md").expect_err("should reject");
    assert!(matches!(err, UriParseError::PathTraversal { .. }));
}

#[test]
fn workspace_missing_latest_is_rejected() {
    let err = BeltUri::parse("belt://workspace/develop/notlatest/pipeline/path.md").expect_err("should reject");
    assert!(matches!(err, UriParseError::Malformed { .. }));
}

#[test]
fn to_string_roundtrip_all_variants() {
    let inputs = [
        "belt://run/01932000-0000-7000-8000-000000000001/notes/x.md",
        "belt://latest/feature-dev/notes/y.md",
        "belt://workspace/develop/latest/feature-dev/z.md",
    ];
    for s in inputs {
        let parsed = BeltUri::parse(s).expect("parse ok");
        let restr = parsed.to_uri_string();
        let reparsed = BeltUri::parse(&restr).expect("reparse ok");
        assert_eq!(parsed, reparsed, "roundtrip mismatch: {s} -> {restr}");
    }
}

#[test]
fn render_of_parse_gives_back_the_text() {
    for s in [
        "belt://run/abc/notes/x.md",
        "belt://latest/p/a/b/c.md",
        "belt://workspace/main/latest/p/x",
        "belt://current/notes/x.md",
    ] {
        let parsed = BeltUri::parse(s).expect("parse ok");
        assert_eq!(parsed.to_uri_string(), s);
    }
}

#[test]
fn current_selector_parses() {
    let u = BeltUri::parse("belt://current/notes/x.md").unwrap();
    assert_eq!(u, BeltUri::Current { path: "notes/x.md".to_string() });
}

#[test]
fn parse_error_messages_name_the_input() {
    let err = BeltUri::parse("belt://run//x").unwrap_err();
    assert!(err.message().contains("belt://run//x"), "{}", err.message());
    let err = BeltUri::parse("nope").unwrap_err();
    assert_eq!(err, UriParseError::MissingScheme("nope".to_string()));
    assert!(err.message().contains("nope"));
}

#[test]
fn single_dot_segment_in_path_is_accepted() {
    let u = BeltUri::parse("belt://run/r1/a/./b").unwrap();
    assert_eq!(u, BeltUri::Run { run_id: "r1".to_string(), path: "a/./b".to_string() });
    let err = BeltUri::parse("belt://run/r1/a/..").unwrap_err();
    assert!(matches!(err, UriParseError::PathTraversal { .. }), "{err:?}");
}
