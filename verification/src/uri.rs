//! `belt://` URIs for cross-run artifact references.
//!
//! Pure module: parsing and rendering only, no filesystem or git access.
use vstd::prelude::*;
use crate::text::{
    has_prefix, lemma_split_once_concat, lemma_split_once_parts, owned, split_once, split_once_exec,
    starts_with, substring,
};

verus! {

/// Parsed `belt://` URI.
#[derive(Debug, Clone, PartialEq, Eq)]
pub enum BeltUri {
    /// `belt://latest/{pipeline}/<path>`: latest COMPLETED run of `pipeline`
    /// on the current branch.
    Latest { pipeline: String, path: String },
    /// `belt://workspace/{branch}/latest/{pipeline}/<path>`: latest COMPLETED
    /// run of `pipeline` on an explicit `branch`.
    WorkspaceLatest { branch: String, pipeline: String, path: String },
    /// `belt://run/{run_id}/<path>`: an explicit run.
    Run { run_id: String, path: String },
    /// `belt://current/<path>`: the run of the invocation context.
    Current { path: String },
}

/// Mathematical model of a [`BeltUri`].
pub enum UriModel {
    Latest { pipeline: Seq<char>, path: Seq<char> },
    WorkspaceLatest { branch: Seq<char>, pipeline: Seq<char>, path: Seq<char> },
    Run { run_id: Seq<char>, path: Seq<char> },
    Current { path: Seq<char> },
}

impl View for BeltUri {
    type V = UriModel;

    open spec fn view(&self) -> UriModel {
        match self {
            BeltUri::Latest { pipeline, path } => UriModel::Latest { pipeline: pipeline@, path: path@ },
            BeltUri::WorkspaceLatest { branch, pipeline, path } => UriModel::WorkspaceLatest {
                branch: branch@,
                pipeline: pipeline@,
                path: path@,
            },
            BeltUri::Run { run_id, path } => UriModel::Run { run_id: run_id@, path: path@ },
            BeltUri::Current { path } => UriModel::Current { path: path@ },
        }
    }
}

/// Why a string is not a `belt://` URI. Every variant carries the input.
#[derive(Debug, Clone, PartialEq, Eq)]
pub enum UriParseError {
    MissingScheme(String),
    UnknownSelector { uri: String },
    EmptyPipeline { uri: String },
    EmptyRunId { uri: String },
    EmptyPath { uri: String },
    PathTraversal { uri: String },
    Malformed { uri: String, detail: String },
}

/// Mathematical model of a [`UriParseError`].
pub enum UriErrorModel {
    MissingScheme(Seq<char>),
    UnknownSelector(Seq<char>),
    EmptyPipeline(Seq<char>),
    EmptyRunId(Seq<char>),
    EmptyPath(Seq<char>),
    PathTraversal(Seq<char>),
    Malformed(Seq<char>, Seq<char>),
}

impl View for UriParseError {
    type V = UriErrorModel;

    open spec fn view(&self) -> UriErrorModel {
        match self {
            UriParseError::MissingScheme(u) => UriErrorModel::MissingScheme(u@),
            UriParseError::UnknownSelector { uri } => UriErrorModel::UnknownSelector(uri@),
            UriParseError::EmptyPipeline { uri } => UriErrorModel::EmptyPipeline(uri@),
            UriParseError::EmptyRunId { uri } => UriErrorModel::EmptyRunId(uri@),
            UriParseError::EmptyPath { uri } => UriErrorModel::EmptyPath(uri@),
            UriParseError::PathTraversal { uri } => UriErrorModel::PathTraversal(uri@),
            UriParseError::Malformed { uri, detail } => UriErrorModel::Malformed(uri@, detail@),
        }
    }
}

pub open spec fn scheme() -> Seq<char> {
    seq!['b', 'e', 'l', 't', ':', '/', '/']
}

pub open spec fn sel_latest() -> Seq<char> {
    seq!['l', 'a', 't', 'e', 's', 't', '/']
}

pub open spec fn sel_workspace() -> Seq<char> {
    seq!['w', 'o', 'r', 'k', 's', 'p', 'a', 'c', 'e', '/']
}

pub open spec fn sel_run() -> Seq<char> {
    seq!['r', 'u', 'n', '/']
}

pub open spec fn sel_current() -> Seq<char> {
    seq!['c', 'u', 'r', 'r', 'e', 'n', 't', '/']
}

pub open spec fn detail_missing_sep() -> Seq<char> {
    "missing path segment separator '/'"@
}

pub open spec fn detail_expected_latest() -> Seq<char> {
    "expected 'latest/' after branch"@
}

pub open spec fn detail_empty_branch() -> Seq<char> {
    "empty branch"@
}

/// A `..` segment occurs at position `i` of the `/`-separated `path`.
pub open spec fn dotdot_segment_at(path: Seq<char>, i: int) -> bool {
    &&& 0 <= i
    &&& i + 2 <= path.len()
    &&& path[i] == '.'
    &&& path[i + 1] == '.'
    &&& (i == 0 || path[i - 1] == '/')
    &&& (i + 2 == path.len() || path[i + 2] == '/')
}

/// A path inside a URI: not absolute and without `..` segments.
pub open spec fn path_is_safe(path: Seq<char>) -> bool {
    &&& !(path.len() > 0 && path[0] == '/')
    &&& forall|i: int| !dotdot_segment_at(path, i)
}

/// The checks shared by every selector once the path is split off.
#[verifier::opaque]
pub open spec fn finish_path(s: Seq<char>, path: Seq<char>, ok: UriModel) -> Result<UriModel, UriErrorModel> {
    if path.len() == 0 {
        Err(UriErrorModel::EmptyPath(s))
    } else if !path_is_safe(path) {
        Err(UriErrorModel::PathTraversal(s))
    } else {
        Ok(ok)
    }
}

/// `belt://latest/` followed by `r`.
#[verifier::opaque]
pub open spec fn parse_latest_spec(s: Seq<char>, r: Seq<char>) -> Result<UriModel, UriErrorModel> {
    match split_once(r, '/') {
        None => Err(UriErrorModel::Malformed(s, detail_missing_sep())),
        Some((pipeline, path)) => if pipeline.len() == 0 {
            Err(UriErrorModel::EmptyPipeline(s))
        } else {
            finish_path(s, path, UriModel::Latest { pipeline, path })
        },
    }
}

/// The part of a workspace URI after `{branch}/`.
#[verifier::opaque]
pub open spec fn workspace_after_spec(s: Seq<char>, branch: Seq<char>, after: Seq<char>) -> Result<UriModel, UriErrorModel> {
    if !has_prefix(after, sel_latest()) {
        Err(UriErrorModel::Malformed(s, detail_expected_latest()))
    } else {
        match split_once(after.skip(7), '/') {
            None => Err(UriErrorModel::Malformed(s, detail_missing_sep())),
            Some((pipeline, path)) => if branch.len() == 0 {
                Err(UriErrorModel::Malformed(s, detail_empty_branch()))
            } else if pipeline.len() == 0 {
                Err(UriErrorModel::EmptyPipeline(s))
            } else {
                finish_path(s, path, UriModel::WorkspaceLatest { branch, pipeline, path })
            },
        }
    }
}

/// `belt://workspace/` followed by `r`.
#[verifier::opaque]
pub open spec fn parse_workspace_spec(s: Seq<char>, r: Seq<char>) -> Result<UriModel, UriErrorModel> {
    match split_once(r, '/') {
        None => Err(UriErrorModel::Malformed(s, detail_missing_sep())),
        Some((branch, after)) => workspace_after_spec(s, branch, after),
    }
}

/// `belt://run/` followed by `r`.
#[verifier::opaque]
pub open spec fn parse_run_spec(s: Seq<char>, r: Seq<char>) -> Result<UriModel, UriErrorModel> {
    match split_once(r, '/') {
        None => Err(UriErrorModel::Malformed(s, detail_missing_sep())),
        Some((run_id, path)) => if run_id.len() == 0 {
            Err(UriErrorModel::EmptyRunId(s))
        } else {
            finish_path(s, path, UriModel::Run { run_id, path })
        },
    }
}

/// What [`BeltUri::parse`] returns for the characters `s`.
pub open spec fn parse_spec(s: Seq<char>) -> Result<UriModel, UriErrorModel> {
    if !has_prefix(s, scheme()) {
        Err(UriErrorModel::MissingScheme(s))
    } else {
        let rest = s.skip(7);
        if has_prefix(rest, sel_latest()) {
            parse_latest_spec(s, rest.skip(7))
        } else if has_prefix(rest, sel_workspace()) {
            parse_workspace_spec(s, rest.skip(10))
        } else if has_prefix(rest, sel_run()) {
            parse_run_spec(s, rest.skip(4))
        } else if has_prefix(rest, sel_current()) {
            finish_path(s, rest.skip(8), UriModel::Current { path: rest.skip(8) })
        } else {
            Err(UriErrorModel::UnknownSelector(s))
        }
    }
}

/// The canonical text of a URI model.
pub open spec fn render_spec(u: UriModel) -> Seq<char> {
    match u {
        UriModel::Latest { pipeline, path } => scheme() + sel_latest() + pipeline + seq!['/'] + path,
        UriModel::WorkspaceLatest { branch, pipeline, path } => scheme() + sel_workspace() + branch
            + seq!['/'] + sel_latest() + pipeline + seq!['/'] + path,
        UriModel::Run { run_id, path } => scheme() + sel_run() + run_id + seq!['/'] + path,
        UriModel::Current { path } => scheme() + sel_current() + path,
    }
}

/// A name segment of a URI: non-empty and without `/`.
pub open spec fn is_segment(x: Seq<char>) -> bool {
    x.len() > 0 && forall|i: int| 0 <= i < x.len() ==> x[i] != '/'
}

/// The URI models that `parse` can produce.
pub open spec fn uri_well_formed(u: UriModel) -> bool {
    match u {
        UriModel::Latest { pipeline, path } => is_segment(pipeline) && path.len() > 0 && path_is_safe(path),
        UriModel::WorkspaceLatest { branch, pipeline, path } => is_segment(branch) && is_segment(pipeline)
            && path.len() > 0 && path_is_safe(path),
        UriModel::Run { run_id, path } => is_segment(run_id) && path.len() > 0 && path_is_safe(path),
        UriModel::Current { path } => path.len() > 0 && path_is_safe(path),
    }
}

/// Rejects absolute paths and paths with a `..` segment, as a path
/// traversal in the URI `whole_uri`.
fn validate_path(path: &str, whole_uri: &str) -> (r: Result<(), UriParseError>)
    ensures
        match r {
            Ok(()) => path_is_safe(path@),
            Err(e) => !path_is_safe(path@) && e@ == UriErrorModel::PathTraversal(whole_uri@),
        },
{
    let n = path.unicode_len();
    if n > 0 && path.get_char(0) == '/' {
        return Err(UriParseError::PathTraversal { uri: owned(whole_uri) });
    }
    if n < 2 {
        assert forall|i: int| !dotdot_segment_at(path@, i) by {}
        return Ok(());
    }
    let mut i: usize = 0;
    while i < n - 1
        invariant
            n == path@.len(),
            n >= 2,
            i <= n - 1,
            forall|j: int| 0 <= j < i ==> !dotdot_segment_at(path@, j),
        decreases n - i,
    {
        if path.get_char(i) == '.' && path.get_char(i + 1) == '.' && (i == 0 || path.get_char(i - 1)
            == '/') && (i + 2 == n || path.get_char(i + 2) == '/') {
            assert(dotdot_segment_at(path@, i as int));
            return Err(UriParseError::PathTraversal { uri: owned(whole_uri) });
        }
        i = i + 1;
    }
    assert forall|j: int| !dotdot_segment_at(path@, j) by {
        if 0 <= j && j + 2 <= n {
            assert(j < i);
        }
    }
    Ok(())
}

fn finish_path_exec(s: &str, path: String, ok: BeltUri) -> (r: Result<BeltUri, UriParseError>)
    ensures
        match r {
            Ok(u) => finish_path(s@, path@, ok@) == Ok::<UriModel, UriErrorModel>(u@),
            Err(e) => finish_path(s@, path@, ok@) == Err::<UriModel, UriErrorModel>(e@),
        },
{
    reveal(finish_path);
    if path.unicode_len() == 0 {
        return Err(UriParseError::EmptyPath { uri: owned(s) });
    }
    match validate_path(path.as_str(), s) {
        Ok(()) => Ok(ok),
        Err(e) => Err(e),
    }
}

fn malformed(s: &str, detail: &str) -> (e: UriParseError)
    ensures
        e@ == UriErrorModel::Malformed(s@, detail@),
{
    UriParseError::Malformed { uri: owned(s), detail: owned(detail) }
}

/// Splits `r` at its first `/`; without one, the URI `whole_uri` is
/// malformed.
fn split_once_or_err(r: &str, whole_uri: &str) -> (res: Result<(String, String), UriParseError>)
    ensures
        match split_once(r@, '/') {
            Some((a, b)) => res matches Ok((x, y)) && x@ == a && y@ == b,
            None => res matches Err(e) && e@ == UriErrorModel::Malformed(
                whole_uri@,
                "missing path segment separator '/'"@,
            ),
        },
{
    match split_once_exec(r, '/') {
        Some(parts) => Ok(parts),
        None => Err(malformed(whole_uri, "missing path segment separator '/'")),
    }
}

fn parse_latest(s: &str, r: &str) -> (res: Result<BeltUri, UriParseError>)
    ensures
        match res {
            Ok(u) => parse_latest_spec(s@, r@) == Ok::<UriModel, UriErrorModel>(u@),
            Err(e) => parse_latest_spec(s@, r@) == Err::<UriModel, UriErrorModel>(e@),
        },
{
    reveal(parse_latest_spec);
    match split_once_or_err(r, s) {
        Err(e) => Err(e),
        Ok((pipeline, path)) => {
            if pipeline.unicode_len() == 0 {
                return Err(UriParseError::EmptyPipeline { uri: owned(s) });
            }
            let ok = BeltUri::Latest { pipeline, path: path.clone() };
            finish_path_exec(s, path, ok)
        },
    }
}

#[verifier::rlimit(40)]
fn workspace_after(s: &str, branch: String, after: String) -> (res: Result<BeltUri, UriParseError>)
    ensures
        match res {
            Ok(u) => workspace_after_spec(s@, branch@, after@) == Ok::<UriModel, UriErrorModel>(u@),
            Err(e) => workspace_after_spec(s@, branch@, after@) == Err::<UriModel, UriErrorModel>(e@),
        },
{
    reveal(workspace_after_spec);
    proof {
        reveal_strlit("latest/");
        assert("latest/"@ =~= sel_latest());
    }
    if !starts_with(after.as_str(), "latest/") {
        return Err(malformed(s, "expected 'latest/' after branch"));
    }
    let k = after.unicode_len();
    let r2 = after.as_str().substring_char(7, k);
    assert(r2@ =~= after@.skip(7));
    match split_once_or_err(r2, s) {
        Err(e) => Err(e),
        Ok((pipeline, path)) => {
            if branch.unicode_len() == 0 {
                return Err(malformed(s, "empty branch"));
            }
            if pipeline.unicode_len() == 0 {
                return Err(UriParseError::EmptyPipeline { uri: owned(s) });
            }
            let ok = BeltUri::WorkspaceLatest { branch, pipeline, path: path.clone() };
            finish_path_exec(s, path, ok)
        },
    }
}

fn parse_workspace(s: &str, r: &str) -> (res: Result<BeltUri, UriParseError>)
    ensures
        match res {
            Ok(u) => parse_workspace_spec(s@, r@) == Ok::<UriModel, UriErrorModel>(u@),
            Err(e) => parse_workspace_spec(s@, r@) == Err::<UriModel, UriErrorModel>(e@),
        },
{
    reveal(parse_workspace_spec);
    match split_once_or_err(r, s) {
        Err(e) => Err(e),
        Ok((branch, after)) => workspace_after(s, branch, after),
    }
}

fn parse_run(s: &str, r: &str) -> (res: Result<BeltUri, UriParseError>)
    ensures
        match res {
            Ok(u) => parse_run_spec(s@, r@) == Ok::<UriModel, UriErrorModel>(u@),
            Err(e) => parse_run_spec(s@, r@) == Err::<UriModel, UriErrorModel>(e@),
        },
{
    reveal(parse_run_spec);
    match split_once_or_err(r, s) {
        Err(e) => Err(e),
        Ok((run_id, path)) => {
            if run_id.unicode_len() == 0 {
                return Err(UriParseError::EmptyRunId { uri: owned(s) });
            }
            let ok = BeltUri::Run { run_id, path: path.clone() };
            finish_path_exec(s, path, ok)
        },
    }
}

impl BeltUri {
    /// Parses a string into a `BeltUri`. Pure and deterministic.
    pub fn parse(s: &str) -> (r: Result<BeltUri, UriParseError>)
        ensures
            match r {
                Ok(u) => parse_spec(s@) == Ok::<UriModel, UriErrorModel>(u@),
                Err(e) => parse_spec(s@) == Err::<UriModel, UriErrorModel>(e@),
            },
    {
        proof {
            reveal_strlit("belt://");
            reveal_strlit("latest/");
            reveal_strlit("workspace/");
            reveal_strlit("run/");
            reveal_strlit("current/");
            assert("belt://"@ =~= scheme());
            assert("latest/"@ =~= sel_latest());
            assert("workspace/"@ =~= sel_workspace());
            assert("run/"@ =~= sel_run());
            assert("current/"@ =~= sel_current());
        }
        let n = s.unicode_len();
        if !starts_with(s, "belt://") {
            return Err(UriParseError::MissingScheme(owned(s)));
        }
        let rest = s.substring_char(7, n);
        let m = rest.unicode_len();
        assert(rest@ =~= s@.skip(7));
        if starts_with(rest, "latest/") {
            let r = rest.substring_char(7, m);
            assert(r@ =~= rest@.skip(7));
            return parse_latest(s, r);
        }
        if starts_with(rest, "workspace/") {
            let r = rest.substring_char(10, m);
            assert(r@ =~= rest@.skip(10));
            return parse_workspace(s, r);
        }
        if starts_with(rest, "run/") {
            let r = rest.substring_char(4, m);
            assert(r@ =~= rest@.skip(4));
            return parse_run(s, r);
        }
        if starts_with(rest, "current/") {
            let path = substring(rest, 8, m);
            assert(path@ =~= rest@.skip(8));
            let ok = BeltUri::Current { path: path.clone() };
            return finish_path_exec(s, path, ok);
        }
        Err(UriParseError::UnknownSelector { uri: owned(s) })
    }

    /// The canonical `belt://` text of this URI.
    pub fn to_uri_string(&self) -> (r: String)
        ensures
            r@ == render_spec(self@),
    {
        proof {
            reveal_strlit("belt://");
            reveal_strlit("latest/");
            reveal_strlit("workspace/");
            reveal_strlit("run/");
            reveal_strlit("current/");
            reveal_strlit("/");
            assert("belt://"@ =~= scheme());
            assert("latest/"@ =~= sel_latest());
            assert("workspace/"@ =~= sel_workspace());
            assert("run/"@ =~= sel_run());
            assert("current/"@ =~= sel_current());
            assert("/"@ =~= seq!['/']);
        }
        let mut out = owned("belt://");
        match self {
            BeltUri::Latest { pipeline, path } => {
                out.append("latest/");
                out.append(pipeline.as_str());
                out.append("/");
                out.append(path.as_str());
            },
            BeltUri::WorkspaceLatest { branch, pipeline, path } => {
                out.append("workspace/");
                out.append(branch.as_str());
                out.append("/");
                out.append("latest/");
                out.append(pipeline.as_str());
                out.append("/");
                out.append(path.as_str());
            },
            BeltUri::Run { run_id, path } => {
                out.append("run/");
                out.append(run_id.as_str());
                out.append("/");
                out.append(path.as_str());
            },
            BeltUri::Current { path } => {
                out.append("current/");
                out.append(path.as_str());
            },
        }
        out
    }
}

} // verus!

verus! {

proof fn lemma_prefix_concat(x: Seq<char>, y: Seq<char>)
    ensures
        has_prefix(x + y, x),
        (x + y).skip(x.len() as int) == y,
{
    assert((x + y).subrange(0, x.len() as int) =~= x);
    assert((x + y).skip(x.len() as int) =~= y);
}

proof fn lemma_no_prefix_first_char(t: Seq<char>, p: Seq<char>)
    requires
        t.len() > 0,
        p.len() > 0,
        t[0] != p[0],
    ensures
        !has_prefix(t, p),
{
    if has_prefix(t, p) {
        assert(t.subrange(0, p.len() as int)[0] == t[0]);
    }
}

proof fn lemma_finish_path(s: Seq<char>, path: Seq<char>, ok: UriModel)
    ensures
        finish_path(s, path, ok) is Ok <==> (path.len() > 0 && path_is_safe(path)),
        finish_path(s, path, ok) is Ok ==> finish_path(s, path, ok)->Ok_0 == ok,
{
    reveal(finish_path);
}

proof fn lemma_latest_parsed(s: Seq<char>, r: Seq<char>)
    requires
        parse_latest_spec(s, r) is Ok,
    ensures
        ({
            let u = parse_latest_spec(s, r)->Ok_0;
            &&& u is Latest
            &&& r == u->Latest_pipeline + seq!['/'] + u->Latest_path
            &&& uri_well_formed(u)
        }),
{
    reveal(parse_latest_spec);
    lemma_split_once_parts(r, '/');
    let (pipeline, path) = split_once(r, '/')->0;
    lemma_finish_path(s, path, UriModel::Latest { pipeline, path });
}

proof fn lemma_latest_rendered(s: Seq<char>, pipeline: Seq<char>, path: Seq<char>)
    requires
        uri_well_formed(UriModel::Latest { pipeline, path }),
    ensures
        parse_latest_spec(s, pipeline + seq!['/'] + path) == Ok::<UriModel, UriErrorModel>(
            UriModel::Latest { pipeline, path },
        ),
{
    reveal(parse_latest_spec);
    lemma_split_once_concat(pipeline, '/', path);
    lemma_finish_path(s, path, UriModel::Latest { pipeline, path });
}

proof fn lemma_run_parsed(s: Seq<char>, r: Seq<char>)
    requires
        parse_run_spec(s, r) is Ok,
    ensures
        ({
            let u = parse_run_spec(s, r)->Ok_0;
            &&& u is Run
            &&& r == u->Run_run_id + seq!['/'] + u->Run_path
            &&& uri_well_formed(u)
        }),
{
    reveal(parse_run_spec);
    lemma_split_once_parts(r, '/');
    let (run_id, path) = split_once(r, '/')->0;
    lemma_finish_path(s, path, UriModel::Run { run_id, path });
}

proof fn lemma_run_rendered(s: Seq<char>, run_id: Seq<char>, path: Seq<char>)
    requires
        uri_well_formed(UriModel::Run { run_id, path }),
    ensures
        parse_run_spec(s, run_id + seq!['/'] + path) == Ok::<UriModel, UriErrorModel>(
            UriModel::Run { run_id, path },
        ),
{
    reveal(parse_run_spec);
    lemma_split_once_concat(run_id, '/', path);
    lemma_finish_path(s, path, UriModel::Run { run_id, path });
}

#[verifier::rlimit(60)]
proof fn lemma_after_parsed(s: Seq<char>, branch: Seq<char>, after: Seq<char>)
    requires
        workspace_after_spec(s, branch, after) is Ok,
    ensures
        ({
            let u = workspace_after_spec(s, branch, after)->Ok_0;
            &&& u is WorkspaceLatest
            &&& u->WorkspaceLatest_branch == branch
            &&& after == sel_latest() + u->WorkspaceLatest_pipeline + seq!['/'] + u->WorkspaceLatest_path
            &&& branch.len() > 0
            &&& is_segment(u->WorkspaceLatest_pipeline)
            &&& u->WorkspaceLatest_path.len() > 0
            &&& path_is_safe(u->WorkspaceLatest_path)
        }),
{
    reveal(workspace_after_spec);
    let a2 = after.skip(7);
    assert(after =~= sel_latest() + a2) by {
        assert(after.subrange(0, 7) == sel_latest());
    }
    lemma_split_once_parts(a2, '/');
    let (pipeline, path) = split_once(a2, '/')->0;
    lemma_finish_path(s, path, UriModel::WorkspaceLatest { branch, pipeline, path });
    assert(after =~= sel_latest() + pipeline + seq!['/'] + path);
}

#[verifier::rlimit(60)]
proof fn lemma_workspace_parsed(s: Seq<char>, r: Seq<char>)
    requires
        parse_workspace_spec(s, r) is Ok,
    ensures
        ({
            let u = parse_workspace_spec(s, r)->Ok_0;
            &&& u is WorkspaceLatest
            &&& r == u->WorkspaceLatest_branch + seq!['/'] + sel_latest() + u->WorkspaceLatest_pipeline
                + seq!['/'] + u->WorkspaceLatest_path
            &&& uri_well_formed(u)
        }),
{
    reveal(parse_workspace_spec);
    lemma_split_once_parts(r, '/');
    let (branch, after) = split_once(r, '/')->0;
    lemma_after_parsed(s, branch, after);
    let u = workspace_after_spec(s, branch, after)->Ok_0;
    assert(r =~= u->WorkspaceLatest_branch + seq!['/'] + sel_latest() + u->WorkspaceLatest_pipeline
        + seq!['/'] + u->WorkspaceLatest_path);
}

#[verifier::rlimit(60)]
proof fn lemma_workspace_rendered(s: Seq<char>, branch: Seq<char>, pipeline: Seq<char>, path: Seq<char>)
    requires
        uri_well_formed(UriModel::WorkspaceLatest { branch, pipeline, path }),
    ensures
        parse_workspace_spec(s, branch + seq!['/'] + (sel_latest() + (pipeline + seq!['/'] + path)))
            == Ok::<UriModel, UriErrorModel>(UriModel::WorkspaceLatest { branch, pipeline, path }),
{
    reveal(parse_workspace_spec);
    reveal(workspace_after_spec);
    let a2 = pipeline + seq!['/'] + path;
    lemma_split_once_concat(branch, '/', sel_latest() + a2);
    lemma_prefix_concat(sel_latest(), a2);
    lemma_split_once_concat(pipeline, '/', path);
    lemma_finish_path(s, path, UriModel::WorkspaceLatest { branch, pipeline, path });
}

/// Parsing a string and rendering the result gives the string back, and what
/// `parse` accepts is always well formed.
pub proof fn law_render_of_parse(s: Seq<char>)
    requires
        parse_spec(s) is Ok,
    ensures
        render_spec(parse_spec(s)->Ok_0) == s,
        uri_well_formed(parse_spec(s)->Ok_0),
{
    let rest = s.skip(7);
    assert(s =~= scheme() + rest) by {
        assert(s.subrange(0, 7) == scheme());
    }
    let u = parse_spec(s)->Ok_0;
    if has_prefix(rest, sel_latest()) {
        let r = rest.skip(7);
        assert(rest =~= sel_latest() + r) by { assert(rest.subrange(0, 7) == sel_latest()); }
        lemma_latest_parsed(s, r);
        assert(render_spec(u) =~= s);
    } else if has_prefix(rest, sel_workspace()) {
        let r = rest.skip(10);
        assert(rest =~= sel_workspace() + r) by { assert(rest.subrange(0, 10) == sel_workspace()); }
        lemma_workspace_parsed(s, r);
        assert(render_spec(u) =~= s);
    } else if has_prefix(rest, sel_run()) {
        let r = rest.skip(4);
        assert(rest =~= sel_run() + r) by { assert(rest.subrange(0, 4) == sel_run()); }
        lemma_run_parsed(s, r);
        assert(render_spec(u) =~= s);
    } else {
        let r = rest.skip(8);
        assert(rest =~= sel_current() + r) by { assert(rest.subrange(0, 8) == sel_current()); }
        lemma_finish_path(s, r, UriModel::Current { path: r });
        assert(render_spec(u) =~= s);
    }
}

/// Every well-formed URI model parses back from its rendered text.
pub proof fn law_parse_of_render(u: UriModel)
    requires
        uri_well_formed(u),
    ensures
        parse_spec(render_spec(u)) == Ok::<UriModel, UriErrorModel>(u),
{
    let s = render_spec(u);
    match u {
        UriModel::Latest { pipeline, path } => {
            let r = pipeline + seq!['/'] + path;
            assert(s =~= scheme() + (sel_latest() + r));
            lemma_prefix_concat(scheme(), sel_latest() + r);
            lemma_prefix_concat(sel_latest(), r);
            lemma_latest_rendered(s, pipeline, path);
        },
        UriModel::WorkspaceLatest { branch, pipeline, path } => {
            let r = branch + seq!['/'] + (sel_latest() + (pipeline + seq!['/'] + path));
            assert(s =~= scheme() + (sel_workspace() + r));
            lemma_prefix_concat(scheme(), sel_workspace() + r);
            lemma_prefix_concat(sel_workspace(), r);
            lemma_no_prefix_first_char(sel_workspace() + r, sel_latest());
            lemma_workspace_rendered(s, branch, pipeline, path);
        },
        UriModel::Run { run_id, path } => {
            let r = run_id + seq!['/'] + path;
            assert(s =~= scheme() + (sel_run() + r));
            lemma_prefix_concat(scheme(), sel_run() + r);
            lemma_prefix_concat(sel_run(), r);
            lemma_no_prefix_first_char(sel_run() + r, sel_latest());
            lemma_no_prefix_first_char(sel_run() + r, sel_workspace());
            lemma_run_rendered(s, run_id, path);
        },
        UriModel::Current { path } => {
            assert(s =~= scheme() + (sel_current() + path));
            lemma_prefix_concat(scheme(), sel_current() + path);
            lemma_prefix_concat(sel_current(), path);
            lemma_no_prefix_first_char(sel_current() + path, sel_latest());
            lemma_no_prefix_first_char(sel_current() + path, sel_workspace());
            lemma_no_prefix_first_char(sel_current() + path, sel_run());
            lemma_finish_path(s, path, UriModel::Current { path });
        },
    }
}


/// The rendered text of a URI parse error.
pub open spec fn uri_error_message(e: UriErrorModel) -> Seq<char> {
    match e {
        UriErrorModel::MissingScheme(u) => "URI must start with 'belt://': got '"@ + u + "'"@,
        UriErrorModel::UnknownSelector(u) => "unknown selector in URI '"@ + u
            + "' (expected latest/, workspace/, current/, or run/)"@,
        UriErrorModel::EmptyPipeline(u) => "empty pipeline name in URI '"@ + u + "'"@,
        UriErrorModel::EmptyRunId(u) => "empty run_id in URI '"@ + u + "'"@,
        UriErrorModel::EmptyPath(u) => "empty path in URI '"@ + u + "'"@,
        UriErrorModel::PathTraversal(u) => "path traversal not allowed in URI '"@ + u + "'"@,
        UriErrorModel::Malformed(u, d) => "malformed URI '"@ + u + "': "@ + d,
    }
}

impl UriParseError {
    /// The rendered text of this error.
    pub fn message(&self) -> (r: String)
        ensures
            r@ == uri_error_message(self@),
    {
        match self {
            UriParseError::MissingScheme(u) => {
                let mut m = String::from_str("URI must start with 'belt://': got '");
                m.append(u.as_str());
                m.append("'");
                m
            },
            UriParseError::UnknownSelector { uri } => {
                let mut m = String::from_str("unknown selector in URI '");
                m.append(uri.as_str());
                m.append("' (expected latest/, workspace/, current/, or run/)");
                m
            },
            UriParseError::EmptyPipeline { uri } => {
                let mut m = String::from_str("empty pipeline name in URI '");
                m.append(uri.as_str());
                m.append("'");
                m
            },
            UriParseError::EmptyRunId { uri } => {
                let mut m = String::from_str("empty run_id in URI '");
                m.append(uri.as_str());
                m.append("'");
                m
            },
            UriParseError::EmptyPath { uri } => {
                let mut m = String::from_str("empty path in URI '");
                m.append(uri.as_str());
                m.append("'");
                m
            },
            UriParseError::PathTraversal { uri } => {
                let mut m = String::from_str("path traversal not allowed in URI '");
                m.append(uri.as_str());
                m.append("'");
                m
            },
            UriParseError::Malformed { uri, detail } => {
                let mut m = String::from_str("malformed URI '");
                m.append(uri.as_str());
                m.append("': ");
                m.append(detail.as_str());
                m
            },
        }
    }
}
} // verus!
