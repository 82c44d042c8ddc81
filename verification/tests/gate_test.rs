use belt_core::gate::{
    all_passed, cmd_exit_result, cmd_timeout_result, elapsed_ms, file_exists_result, file_exists_target,
    git_clean_result, has_output_result, resolution_target, uses_result, FileTarget, GateResult, NoopUriResolver, UriResolver,
};

#[test]
fn all_passed_empty_slice() {
    assert!(all_passed(&vec![]));
}

#[test]
fn all_passed_mixed() {
    let results = vec![
        GateResult { check_type: "a".to_owned(), passed: true, detail: None, duration_ms: None, timed_out: false },
        GateResult { check_type: "b".to_owned(), passed: false, detail: None, duration_ms: None, timed_out: false },
    ];
    assert!(!all_passed(&results));
}

#[test]
fn all_passed_when_every_check_passed() {
    let results = vec![
        GateResult { check_type: "a".to_owned(), passed: true, detail: None, duration_ms: None, timed_out: false },
        GateResult { check_type: "b".to_owned(), passed: true, detail: None, duration_ms: None, timed_out: false },
    ];
    assert!(all_passed(&results));
}

#[test]
fn uses_check_is_not_resolved_and_passes() {
    let r = uses_result("lint");
    assert_eq!(r.check_type, "uses");
    assert!(r.passed);
    assert_eq!(r.detail.as_deref(), Some("uses: lint not yet resolved"));
}

#[test]
fn has_output_compares_with_expectation() {
    let r = has_output_result(true, true);
    assert!(r.passed);
    assert_eq!(r.detail.as_deref(), Some("output directory is non-empty"));
    let r = has_output_result(true, false);
    assert!(!r.passed);
    assert_eq!(r.detail.as_deref(), Some("output directory is empty or does not exist"));
    assert!(has_output_result(false, false).passed);
}

#[test]
fn file_exists_counts_matches() {
    let r = file_exists_result("*.md", 3);
    assert!(r.passed);
    assert_eq!(r.detail.as_deref(), Some("matched 3 file(s)"));
    let r = file_exists_result("*.md", 0);
    assert!(!r.passed);
    assert_eq!(r.detail.as_deref(), Some("no files matched pattern: *.md"));
}

#[test]
fn file_exists_target_joins_or_resolves() {
    match file_exists_target("out/*.md", "/work", &NoopUriResolver) {
        FileTarget::Pattern(p) => assert_eq!(p, "/work/out/*.md"),
        FileTarget::Failed(g) => panic!("unexpected failure {g:?}"),
    }
    match file_exists_target("/abs/x", "/work", &NoopUriResolver) {
        FileTarget::Pattern(p) => assert_eq!(p, "/abs/x"),
        FileTarget::Failed(g) => panic!("unexpected failure {g:?}"),
    }
    match file_exists_target("belt://run/r/x.md", "/work", &NoopUriResolver) {
        FileTarget::Failed(g) => {
            assert_eq!(g.check_type, "file_exists");
            assert!(!g.passed);
            assert_eq!(
                g.detail.as_deref(),
                Some("URI resolution failed: NoopUriResolver cannot resolve 'belt://run/r/x.md'; pass a real Resolver")
            );
        },
        FileTarget::Pattern(p) => panic!("unexpected pattern {p}"),
    }
}

#[test]
fn noop_resolver_refuses() {
    let e = NoopUriResolver.resolve("belt://x").unwrap_err();
    assert!(e.contains("belt://x"));
}

#[test]
fn cmd_exit_results() {
    let ok = cmd_exit_result(true, Some(0), "noise", 12);
    assert!(ok.passed);
    assert_eq!(ok.detail, None);
    assert_eq!(ok.duration_ms, Some(12));
    let bad = cmd_exit_result(false, Some(2), "boom\n\n", 5);
    assert!(!bad.passed);
    assert_eq!(bad.detail.as_deref(), Some("exit 2: boom"));
    let neg = cmd_exit_result(false, Some(-3), "", 5);
    assert_eq!(neg.detail.as_deref(), Some("exit -3: "));
    let sig = cmd_exit_result(false, None, "killed ", 5);
    assert_eq!(sig.detail.as_deref(), Some("exit signal: killed"));
}

#[test]
fn cmd_timeout_is_reported() {
    let r = cmd_timeout_result(30, 30_012);
    assert!(!r.passed);
    assert!(r.timed_out);
    assert_eq!(r.detail.as_deref(), Some("timed out after 30s"));
    assert_eq!(r.duration_ms, Some(30_012));
}

#[test]
fn git_clean_results() {
    let r = git_clean_result(true, "  \n", 4);
    assert!(r.passed);
    assert_eq!(r.detail.as_deref(), Some("working tree clean"));
    let r = git_clean_result(true, " M a.rs\n?? b.rs\n", 4);
    assert!(!r.passed);
    assert_eq!(r.detail.as_deref(), Some("2 file(s) with uncommitted changes"));
    let r = git_clean_result(false, " M a.rs", 4);
    assert!(r.passed);
    assert_eq!(r.detail.as_deref(), Some("1 file(s) with uncommitted changes"));
}

#[test]
fn elapsed_ms_saturates() {
    assert_eq!(elapsed_ms(15), 15);
    assert_eq!(elapsed_ms(u128::from(u64::MAX) + 1), u64::MAX);
}

#[test]
fn resolution_target_cases() {
    match resolution_target(Ok("/r/x.md".to_string())) {
        FileTarget::Pattern(p) => assert_eq!(p, "/r/x.md"),
        FileTarget::Failed(g) => panic!("unexpected {g:?}"),
    }
    match resolution_target(Err("run not found: r".to_string())) {
        FileTarget::Failed(g) => {
            assert_eq!(g.detail.as_deref(), Some("URI resolution failed: run not found: r"));
            assert!(!g.passed);
        },
        FileTarget::Pattern(p) => panic!("unexpected {p}"),
    }
}
