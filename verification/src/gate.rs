//! Gate results and the decisions around gate checks.
//!
//! Running commands, matching globs and reading directories is left to the
//! caller; the functions here decide what such observations mean.
use vstd::prelude::*;
use crate::model::opt_view;
use crate::error::{decimal, decimal_text};
use crate::text::{has_prefix, path_join, path_join_exec, starts_with, trim_end_exec, trim_end_ws, trim_exec, trim_ws};

verus! {

/// Resolves a `belt://` URI string to a filesystem path.
///
/// Implemented by the agent's resolver; callers without URI semantics pass
/// [`NoopUriResolver`].
pub trait UriResolver {
    /// What resolving `uri` gives: the filesystem path, or a rendered error.
    spec fn resolution(&self, uri: Seq<char>) -> Result<Seq<char>, Seq<char>>;

    /// The filesystem path of `uri`, or a rendered error.
    fn resolve(&self, uri: &str) -> (r: Result<String, String>)
        ensures
            match self.resolution(uri@) {
                Ok(p) => r matches Ok(q) && q@ == p,
                Err(m) => r matches Err(q) && q@ == m,
            },
    ;
}

/// Resolver for callers without URI semantics: every URI is refused.
#[derive(Debug, Default)]
pub struct NoopUriResolver;

/// The message with which [`NoopUriResolver`] refuses `uri`.
pub open spec fn noop_refusal(uri: Seq<char>) -> Seq<char> {
    "NoopUriResolver cannot resolve '"@ + uri + "'; pass a real Resolver"@
}

impl UriResolver for NoopUriResolver {
    open spec fn resolution(&self, uri: Seq<char>) -> Result<Seq<char>, Seq<char>> {
        Err(noop_refusal(uri))
    }

    fn resolve(&self, uri: &str) -> (r: Result<String, String>) {
        let mut s = String::from_str("NoopUriResolver cannot resolve '");
        s.append(uri);
        s.append("'; pass a real Resolver");
        Err(s)
    }
}

/// Result of executing a single gate check.
#[derive(Debug)]
pub struct GateResult {
    pub check_type: String,
    pub passed: bool,
    pub detail: Option<String>,
    pub duration_ms: Option<u64>,
    pub timed_out: bool,
}

/// Model of a [`GateResult`].
pub struct GateResultModel {
    pub check_type: Seq<char>,
    pub passed: bool,
    pub detail: Option<Seq<char>>,
    pub duration_ms: Option<u64>,
    pub timed_out: bool,
}

impl View for GateResult {
    type V = GateResultModel;

    open spec fn view(&self) -> GateResultModel {
        GateResultModel {
            check_type: self.check_type@,
            passed: self.passed,
            detail: opt_view(self.detail),
            duration_ms: self.duration_ms,
            timed_out: self.timed_out,
        }
    }
}

/// `true` when every result passed.
pub fn all_passed(results: &Vec<GateResult>) -> (r: bool)
    ensures
        r == (forall|i: int| 0 <= i < results@.len() ==> results@[i].passed),
{
    let mut i: usize = 0;
    while i < results.len()
        invariant
            i <= results@.len(),
            forall|j: int| 0 <= j < i ==> results@[j].passed,
        decreases results@.len() - i,
    {
        if !results[i].passed {
            return false;
        }
        i = i + 1;
    }
    true
}

/// The result of a `uses:` check, which is not resolved at run time.
pub fn uses_result(uses: &str) -> (r: GateResult)
    ensures
        r@ == (GateResultModel {
            check_type: "uses"@,
            passed: true,
            detail: Some("uses: "@ + uses@ + " not yet resolved"@),
            duration_ms: None,
            timed_out: false,
        }),
{
    let mut d = String::from_str("uses: ");
    d.append(uses);
    d.append(" not yet resolved");
    GateResult {
        check_type: String::from_str("uses"),
        passed: true,
        detail: Some(d),
        duration_ms: None,
        timed_out: false,
    }
}

/// The result of a `has_output:` check given whether the output directory
/// holds at least one entry.
pub fn has_output_result(expect_output: bool, has_files: bool) -> (r: GateResult)
    ensures
        r@ == (GateResultModel {
            check_type: "has_output"@,
            passed: has_files == expect_output,
            detail: Some(
                if has_files {
                    "output directory is non-empty"@
                } else {
                    "output directory is empty or does not exist"@
                },
            ),
            duration_ms: None,
            timed_out: false,
        }),
{
    let detail = if has_files {
        String::from_str("output directory is non-empty")
    } else {
        String::from_str("output directory is empty or does not exist")
    };
    GateResult {
        check_type: String::from_str("has_output"),
        passed: has_files == expect_output,
        detail: Some(detail),
        duration_ms: None,
        timed_out: false,
    }
}

/// The result of a `file_exists:` check given how many files the pattern
/// matched.
pub fn file_exists_result(pattern: &str, matches: u64) -> (r: GateResult)
    ensures
        r@ == (GateResultModel {
            check_type: "file_exists"@,
            passed: matches > 0,
            detail: Some(
                if matches > 0 {
                    "matched "@ + decimal(matches as nat) + " file(s)"@
                } else {
                    "no files matched pattern: "@ + pattern@
                },
            ),
            duration_ms: None,
            timed_out: false,
        }),
{
    let detail = if matches > 0 {
        let mut d = String::from_str("matched ");
        let n = decimal_text(matches);
        d.append(n.as_str());
        d.append(" file(s)");
        d
    } else {
        let mut d = String::from_str("no files matched pattern: ");
        d.append(pattern);
        d
    };
    GateResult {
        check_type: String::from_str("file_exists"),
        passed: matches > 0,
        detail: Some(detail),
        duration_ms: None,
        timed_out: false,
    }
}

/// Where a `file_exists:` pattern points: a `belt://` URI goes through the
/// resolver, anything else is joined to the working directory.
pub enum FileTarget {
    /// The glob pattern to match.
    Pattern(String),
    /// Resolution failed; the check fails with this result.
    Failed(GateResult),
}

/// The result of a `file_exists:` check whose `belt://` pattern could not
/// be resolved.
pub open spec fn resolution_failed(e: Seq<char>) -> GateResultModel {
    GateResultModel {
        check_type: "file_exists"@,
        passed: false,
        detail: Some("URI resolution failed: "@ + e),
        duration_ms: None,
        timed_out: false,
    }
}

/// Where a `belt://` pattern points, given what the resolver answered.
pub fn resolution_target(res: Result<String, String>) -> (r: FileTarget)
    ensures
        match res {
            Ok(p) => r matches FileTarget::Pattern(q) && q@ == p@,
            Err(e) => r matches FileTarget::Failed(g) && g@ == resolution_failed(e@),
        },
{
    match res {
        Ok(p) => FileTarget::Pattern(p),
        Err(e) => {
            let mut d = String::from_str("URI resolution failed: ");
            d.append(e.as_str());
            FileTarget::Failed(
                GateResult {
                    check_type: String::from_str("file_exists"),
                    passed: false,
                    detail: Some(d),
                    duration_ms: None,
                    timed_out: false,
                },
            )
        },
    }
}

/// Decides where a `file_exists:` pattern points: a `belt://` URI is handed
/// to the resolver as it is, any other pattern is joined to the working
/// directory.
pub fn file_exists_target<R: UriResolver>(pattern: &str, work_dir: &str, resolver: &R) -> (r: FileTarget)
    ensures
        !has_prefix(pattern@, "belt://"@) ==> (r matches FileTarget::Pattern(p) && p@ == path_join(
            work_dir@,
            pattern@,
        )),
        has_prefix(pattern@, "belt://"@) ==> match resolver.resolution(pattern@) {
            Ok(p) => r matches FileTarget::Pattern(q) && q@ == p,
            Err(e) => r matches FileTarget::Failed(g) && g@ == resolution_failed(e),
        },
{
    proof {
        reveal_strlit("belt://");
    }
    if starts_with(pattern, "belt://") {
        resolution_target(resolver.resolve(pattern))
    } else {
        FileTarget::Pattern(path_join_exec(work_dir, pattern))
    }
}

/// A duration in milliseconds narrowed to `u64`, saturating at `u64::MAX`.
pub fn elapsed_ms(ms: u128) -> (r: u64)
    ensures
        r == if ms > u64::MAX as u128 { u64::MAX as int } else { ms as int },
{
    if ms > u64::MAX as u128 {
        u64::MAX
    } else {
        ms as u64
    }
}

/// The decimal text of a signed exit code.
pub open spec fn signed_decimal(c: int) -> Seq<char> {
    if c < 0 {
        "-"@ + decimal((-c) as nat)
    } else {
        decimal(c as nat)
    }
}

fn signed_decimal_text(c: i32) -> (r: String)
    ensures
        r@ == signed_decimal(c as int),
{
    if c < 0 {
        let mag: u64 = (0i64 - c as i64) as u64;
        let mut s = String::from_str("-");
        let d = decimal_text(mag);
        s.append(d.as_str());
        s
    } else {
        decimal_text(c as u64)
    }
}

/// The detail of a failed command: `exit {code}: {stderr}` with the
/// trailing white space of stderr removed; a command ended by a signal has
/// no code and reads `signal`.
pub open spec fn exit_detail(code: Option<i32>, stderr: Seq<char>) -> Seq<char> {
    "exit "@ + match code {
        Some(c) => signed_decimal(c as int),
        None => "signal"@,
    } + ": "@ + trim_end_ws(stderr)
}

/// The result of a `cmd:` check whose command ran to its end.
pub fn cmd_exit_result(success: bool, code: Option<i32>, stderr: &str, duration_ms: u64) -> (r: GateResult)
    ensures
        r@ == (GateResultModel {
            check_type: "cmd"@,
            passed: success,
            detail: if success {
                None
            } else {
                Some(exit_detail(code, stderr@))
            },
            duration_ms: Some(duration_ms),
            timed_out: false,
        }),
{
    let detail = if success {
        None
    } else {
        let mut d = String::from_str("exit ");
        match code {
            Some(c) => {
                let t = signed_decimal_text(c);
                d.append(t.as_str());
            },
            None => {
                d.append("signal");
            },
        }
        d.append(": ");
        let e = trim_end_exec(stderr);
        d.append(e.as_str());
        Some(d)
    };
    GateResult {
        check_type: String::from_str("cmd"),
        passed: success,
        detail,
        duration_ms: Some(duration_ms),
        timed_out: false,
    }
}

/// The result of a `cmd:` check killed at its timeout.
pub fn cmd_timeout_result(timeout_secs: u64, duration_ms: u64) -> (r: GateResult)
    ensures
        r@ == (GateResultModel {
            check_type: "cmd"@,
            passed: false,
            detail: Some("timed out after "@ + decimal(timeout_secs as nat) + "s"@),
            duration_ms: Some(duration_ms),
            timed_out: true,
        }),
{
    let mut d = String::from_str("timed out after ");
    let n = decimal_text(timeout_secs);
    d.append(n.as_str());
    d.append("s");
    GateResult {
        check_type: String::from_str("cmd"),
        passed: false,
        detail: Some(d),
        duration_ms: Some(duration_ms),
        timed_out: true,
    }
}

/// The number of occurrences of `c` in `s`.
pub open spec fn count_char(s: Seq<char>, c: char) -> nat
    decreases s.len(),
{
    if s.len() == 0 {
        0
    } else {
        count_char(s.drop_last(), c) + if s.last() == c {
            1nat
        } else {
            0nat
        }
    }
}

/// The number of lines `str::lines` yields for `s`: one per `\n`, plus a
/// last line that has none.
pub open spec fn line_count(s: Seq<char>) -> nat {
    if s.len() == 0 {
        0
    } else {
        count_char(s, '\n') + if s.last() == '\n' {
            0nat
        } else {
            1nat
        }
    }
}

fn line_count_exec(s: &str) -> (r: u64)
    ensures
        r == line_count(s@),
{
    let n = s.unicode_len();
    let mut k: usize = 0;
    let mut count: u64 = 0;
    assert(s@.take(0) =~= Seq::<char>::empty());
    while k < n
        invariant
            k <= n,
            n == s@.len(),
            count == count_char(s@.take(k as int), '\n'),
            count <= k,
            k > 0 && s@[k - 1] != '\n' ==> count < k,
        decreases n - k,
    {
        assert(s@.take(k + 1).drop_last() =~= s@.take(k as int));
        if s.get_char(k) == '\n' {
            count = count + 1;
        }
        k = k + 1;
    }
    assert(s@.take(n as int) =~= s@);
    if n == 0 {
        0
    } else if s.get_char(n - 1) == '\n' {
        count
    } else {
        count + 1
    }
}

/// The result of a `git_clean:` check given what `git status --porcelain`
/// printed: the tree is clean when the output is blank.
pub fn git_clean_result(expect_clean: bool, stdout: &str, duration_ms: u64) -> (r: GateResult)
    ensures
        r@ == (GateResultModel {
            check_type: "git_clean"@,
            passed: (trim_ws(stdout@).len() == 0) == expect_clean,
            detail: Some(
                if trim_ws(stdout@).len() == 0 {
                    "working tree clean"@
                } else {
                    decimal(line_count(stdout@)) + " file(s) with uncommitted changes"@
                },
            ),
            duration_ms: Some(duration_ms),
            timed_out: false,
        }),
{
    let t = trim_exec(stdout);
    let is_clean = t.unicode_len() == 0;
    let detail = if is_clean {
        String::from_str("working tree clean")
    } else {
        let n = line_count_exec(stdout);
        let mut d = decimal_text(n);
        d.append(" file(s) with uncommitted changes");
        d
    };
    GateResult {
        check_type: String::from_str("git_clean"),
        passed: is_clean == expect_clean,
        detail: Some(detail),
        duration_ms: Some(duration_ms),
        timed_out: false,
    }
}

} // verus!
