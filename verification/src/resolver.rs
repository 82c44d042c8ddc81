//! Mapping of `belt://` URIs to paths of the run directories.
//!
//! The caller takes a snapshot of what the filesystem shows (the
//! `state.json` fields of each run, and whether the directories and paths
//! that resolution asks about exist); the resolution rules are decided here.
use vstd::prelude::*;
use crate::json::{json_get, json_get_exec, JsonModel, JsonValue};
use crate::model::{opt_view, views, ArtifactRef, ArtifactRefModel, ExpandedModel, ExpandedPhase};
use crate::strmap::StrMap;
use crate::text::{path_join, path_join_exec, str_eq};
use crate::uri::{render_spec, BeltUri, UriModel};
use crate::view::{chars_less_exec, chars_less_from};

verus! {

/// Why a URI could not be mapped to a path.
#[derive(Debug, PartialEq)]
pub enum ResolveError {
    RunNotFound { run_id: String },
    NoCompletedRun { pipeline: String, branch: Option<String> },
    BranchAwareRequiresGit,
    ArtifactMissing { path: String },
    /// Reading the runs directory or a state file failed.
    Io(String),
    /// A state file is not valid JSON.
    StateParse(String),
    NoCurrentRun,
}

/// Model of a [`ResolveError`].
pub enum ResolveErrorModel {
    RunNotFound(Seq<char>),
    NoCompletedRun(Seq<char>, Option<Seq<char>>),
    BranchAwareRequiresGit,
    ArtifactMissing(Seq<char>),
    Io(Seq<char>),
    StateParse(Seq<char>),
    NoCurrentRun,
}

impl View for ResolveError {
    type V = ResolveErrorModel;

    open spec fn view(&self) -> ResolveErrorModel {
        match self {
            ResolveError::RunNotFound { run_id } => ResolveErrorModel::RunNotFound(run_id@),
            ResolveError::NoCompletedRun { pipeline, branch } => ResolveErrorModel::NoCompletedRun(
                pipeline@,
                opt_view(*branch),
            ),
            ResolveError::BranchAwareRequiresGit => ResolveErrorModel::BranchAwareRequiresGit,
            ResolveError::ArtifactMissing { path } => ResolveErrorModel::ArtifactMissing(path@),
            ResolveError::Io(m) => ResolveErrorModel::Io(m@),
            ResolveError::StateParse(m) => ResolveErrorModel::StateParse(m@),
            ResolveError::NoCurrentRun => ResolveErrorModel::NoCurrentRun,
        }
    }
}

/// The rendered text of a resolution error.
pub open spec fn resolve_error_message(e: ResolveErrorModel) -> Seq<char> {
    match e {
        ResolveErrorModel::RunNotFound(id) => "run not found: "@ + id,
        ResolveErrorModel::NoCompletedRun(p, b) => "no COMPLETED run of pipeline '"@ + p + "' on branch '"@ + (match b {
            Some(x) => x,
            None => "(none)"@,
        }) + "'"@,
        ResolveErrorModel::BranchAwareRequiresGit => "branch-aware URI requires git directory"@,
        ResolveErrorModel::ArtifactMissing(p) => "resolved artifact missing: "@ + p,
        ResolveErrorModel::Io(m) => "io error: "@ + m,
        ResolveErrorModel::StateParse(m) => "state.json parse error: "@ + m,
        ResolveErrorModel::NoCurrentRun => "belt://current/ requires a current run (none found, pass --run <id>)"@,
    }
}

impl ResolveError {
    /// The rendered text of this error.
    pub fn message(&self) -> (r: String)
        ensures
            r@ == resolve_error_message(self@),
    {
        match self {
            ResolveError::RunNotFound { run_id } => {
                let mut m = String::from_str("run not found: ");
                m.append(run_id.as_str());
                m
            },
            ResolveError::NoCompletedRun { pipeline, branch } => {
                let mut m = String::from_str("no COMPLETED run of pipeline '");
                m.append(pipeline.as_str());
                m.append("' on branch '");
                match branch {
                    Some(b) => m.append(b.as_str()),
                    None => m.append("(none)"),
                }
                m.append("'");
                m
            },
            ResolveError::BranchAwareRequiresGit => String::from_str("branch-aware URI requires git directory"),
            ResolveError::ArtifactMissing { path } => {
                let mut m = String::from_str("resolved artifact missing: ");
                m.append(path.as_str());
                m
            },
            ResolveError::Io(e) => {
                let mut m = String::from_str("io error: ");
                m.append(e.as_str());
                m
            },
            ResolveError::StateParse(e) => {
                let mut m = String::from_str("state.json parse error: ");
                m.append(e.as_str());
                m
            },
            ResolveError::NoCurrentRun => String::from_str(
                "belt://current/ requires a current run (none found, pass --run <id>)",
            ),
        }
    }

    fn copy(&self) -> (r: ResolveError)
        ensures
            r@ == self@,
    {
        match self {
            ResolveError::RunNotFound { run_id } => ResolveError::RunNotFound { run_id: run_id.clone() },
            ResolveError::NoCompletedRun { pipeline, branch } => ResolveError::NoCompletedRun {
                pipeline: pipeline.clone(),
                branch: crate::model::clone_opt(branch),
            },
            ResolveError::BranchAwareRequiresGit => ResolveError::BranchAwareRequiresGit,
            ResolveError::ArtifactMissing { path } => ResolveError::ArtifactMissing { path: path.clone() },
            ResolveError::Io(m) => ResolveError::Io(m.clone()),
            ResolveError::StateParse(m) => ResolveError::StateParse(m.clone()),
            ResolveError::NoCurrentRun => ResolveError::NoCurrentRun,
        }
    }
}

/// One entry of the runs directory, as read from disk.
#[derive(Debug)]
pub enum RunEntry {
    /// The entry has no `state.json` file.
    NoState,
    /// Reading or parsing its `state.json` failed.
    Unreadable(ResolveError),
    /// The `state.json` fields the resolver reads, with the run's directory.
    State {
        dir: String,
        run_id: Option<String>,
        pipeline: Option<String>,
        status: Option<String>,
        branch: Option<String>,
    },
}

/// Model of a [`RunEntry`].
pub enum RunEntryModel {
    NoState,
    Unreadable(ResolveErrorModel),
    State {
        dir: Seq<char>,
        run_id: Option<Seq<char>>,
        pipeline: Option<Seq<char>>,
        status: Option<Seq<char>>,
        branch: Option<Seq<char>>,
    },
}

impl View for RunEntry {
    type V = RunEntryModel;

    open spec fn view(&self) -> RunEntryModel {
        match self {
            RunEntry::NoState => RunEntryModel::NoState,
            RunEntry::Unreadable(e) => RunEntryModel::Unreadable(e@),
            RunEntry::State { dir, run_id, pipeline, status, branch } => RunEntryModel::State {
                dir: dir@,
                run_id: opt_view(*run_id),
                pipeline: opt_view(*pipeline),
                status: opt_view(*status),
                branch: opt_view(*branch),
            },
        }
    }
}

/// The string field `k` of a `state.json` document; absent when missing or
/// not a string.
pub open spec fn str_field(doc: JsonModel, k: Seq<char>) -> Option<Seq<char>> {
    match json_get(doc, k) {
        Some(JsonModel::Str(s)) => Some(s),
        _ => None,
    }
}

fn str_field_exec(doc: &JsonValue, k: &str) -> (r: Option<String>)
    ensures
        opt_view(r) == str_field(doc@, k@),
{
    match json_get_exec(doc, k) {
        Some(JsonValue::String(s)) => Some(s.clone()),
        _ => None,
    }
}

/// The entry of the run directory `dir` whose `state.json` parsed to `doc`:
/// the fields the resolver reads.
pub fn run_entry_of(dir: String, doc: &JsonValue) -> (r: RunEntry)
    ensures
        r@ == (RunEntryModel::State {
            dir: dir@,
            run_id: str_field(doc@, "run_id"@),
            pipeline: str_field(doc@, "pipeline"@),
            status: str_field(doc@, "status"@),
            branch: str_field(doc@, "branch"@),
        }),
{
    RunEntry::State {
        dir,
        run_id: str_field_exec(doc, "run_id"),
        pipeline: str_field_exec(doc, "pipeline"),
        status: str_field_exec(doc, "status"),
        branch: str_field_exec(doc, "branch"),
    }
}

/// What the filesystem shows, as read by the caller: the caller asks the
/// filesystem about the directories and paths that [`Resolver::fs_queries`]
/// names, and lists, as written there, those it found.
#[derive(Debug)]
pub struct FsSnapshot {
    /// Queried directories that exist (are directories).
    pub dirs: Vec<String>,
    /// Queried paths that exist.
    pub paths: Vec<String>,
    /// The entries of the runs directory, in listing order; empty when it is
    /// not a directory.
    pub runs: Vec<RunEntry>,
}

/// Maps URIs to paths under a `.belt` directory.
#[derive(Debug)]
pub struct Resolver {
    pub belt_dir: String,
    /// The git branch of the working tree, if known.
    pub current_branch: Option<String>,
    /// The run `belt://current/` URIs are bound to, if any.
    pub current_run_id: Option<String>,
}

/// The directory of run `run_id` under `belt_dir`.
pub open spec fn run_dir_spec(belt_dir: Seq<char>, run_id: Seq<char>) -> Seq<char> {
    path_join(path_join(belt_dir, "runs"@), run_id)
}

/// `opt` or, when absent, `dflt`.
pub open spec fn or_default(opt: Option<Seq<char>>, dflt: Seq<char>) -> Seq<char> {
    match opt {
        Some(x) => x,
        None => dflt,
    }
}

/// A run entry is a completed run of `pipeline` on the requested branch:
/// the explicit branch if any, else the current branch if known, else any.
pub open spec fn qualifies(
    e: RunEntryModel,
    pipeline: Seq<char>,
    explicit: Option<Seq<char>>,
    current: Option<Seq<char>>,
) -> bool {
    match e {
        RunEntryModel::State { status, pipeline: p, branch, .. } => {
            &&& or_default(status, "in_progress"@) == "completed"@
            &&& or_default(p, Seq::empty()) == pipeline
            &&& match explicit {
                Some(t) => branch == Some(t),
                None => match current {
                    Some(c) => branch == Some(c),
                    None => true,
                },
            }
        },
        _ => false,
    }
}

/// The run id of an entry, empty when it records none.
pub open spec fn entry_run_id(e: RunEntryModel) -> Seq<char> {
    match e {
        RunEntryModel::State { run_id, .. } => or_default(run_id, Seq::empty()),
        _ => Seq::empty(),
    }
}

/// The position of the first unreadable entry among the first `n`.
pub open spec fn first_unreadable(runs: Seq<RunEntryModel>, n: int) -> Option<int>
    decreases n,
{
    if n <= 0 {
        None
    } else {
        match first_unreadable(runs, n - 1) {
            Some(k) => Some(k),
            None => if runs[n - 1] is Unreadable {
                Some(n - 1)
            } else {
                None
            },
        }
    }
}

/// The chosen run among the first `n` entries: the qualifying entry with the
/// greatest run id (run ids are time-ordered); among equal ids, the last one.
pub open spec fn latest_among(
    runs: Seq<RunEntryModel>,
    pipeline: Seq<char>,
    explicit: Option<Seq<char>>,
    current: Option<Seq<char>>,
    n: int,
) -> Option<int>
    decreases n,
{
    if n <= 0 {
        None
    } else {
        let prev = latest_among(runs, pipeline, explicit, current, n - 1);
        if qualifies(runs[n - 1], pipeline, explicit, current) {
            match prev {
                Some(b) => if chars_less_from(entry_run_id(runs[n - 1]), entry_run_id(runs[b]), 0) {
                    Some(b)
                } else {
                    Some(n - 1)
                },
                None => Some(n - 1),
            }
        } else {
            prev
        }
    }
}

/// The directory of an entry.
pub open spec fn entry_dir(e: RunEntryModel) -> Seq<char> {
    match e {
        RunEntryModel::State { dir, .. } => dir,
        _ => Seq::empty(),
    }
}

/// The directory of an entry, decided.
fn entry_dir_str(e: &RunEntry) -> (r: &str)
    ensures
        r@ == entry_dir(e@),
{
    proof {
        reveal_strlit("");
        assert(""@ =~= Seq::<char>::empty());
    }
    match e {
        RunEntry::State { dir, .. } => dir.as_str(),
        _ => "",
    }
}

/// The path under the chosen run that `path` names, when the entries are
/// readable and a run is chosen.
pub open spec fn latest_query(
    runs: Seq<RunEntryModel>,
    pipeline: Seq<char>,
    path: Seq<char>,
    explicit: Option<Seq<char>>,
    current: Option<Seq<char>>,
) -> Option<Seq<char>> {
    match first_unreadable(runs, runs.len() as int) {
        Some(_) => None,
        None => match latest_among(runs, pipeline, explicit, current, runs.len() as int) {
            Some(k) => Some(path_join(entry_dir(runs[k]), path)),
            None => None,
        },
    }
}

/// Where `path` under the chosen run resolves to, or why it does not.
pub open spec fn latest_spec(
    runs: Seq<RunEntryModel>,
    paths: Seq<Seq<char>>,
    pipeline: Seq<char>,
    path: Seq<char>,
    explicit: Option<Seq<char>>,
    current: Option<Seq<char>>,
) -> Result<Seq<char>, ResolveErrorModel> {
    match first_unreadable(runs, runs.len() as int) {
        Some(k) => Err(runs[k]->Unreadable_0),
        None => match latest_among(runs, pipeline, explicit, current, runs.len() as int) {
            None => Err(
                ResolveErrorModel::NoCompletedRun(
                    pipeline,
                    match explicit {
                        Some(t) => Some(t),
                        None => current,
                    },
                ),
            ),
            Some(k) => {
                let abs = path_join(entry_dir(runs[k]), path);
                if paths.contains(abs) {
                    Ok(abs)
                } else {
                    Err(ResolveErrorModel::ArtifactMissing(abs))
                }
            },
        },
    }
}

/// Where `path` under run `run_id` resolves to, or why it does not.
pub open spec fn run_spec(
    belt_dir: Seq<char>,
    dirs: Seq<Seq<char>>,
    paths: Seq<Seq<char>>,
    run_id: Seq<char>,
    path: Seq<char>,
) -> Result<Seq<char>, ResolveErrorModel> {
    let d = run_dir_spec(belt_dir, run_id);
    if !dirs.contains(d) {
        Err(ResolveErrorModel::RunNotFound(run_id))
    } else if !paths.contains(path_join(d, path)) {
        Err(ResolveErrorModel::ArtifactMissing(path_join(d, path)))
    } else {
        Ok(path_join(d, path))
    }
}

/// Where `path` under the current run resolves to (existence of the path
/// itself is not checked), or why it does not.
pub open spec fn current_spec(
    belt_dir: Seq<char>,
    dirs: Seq<Seq<char>>,
    current_run_id: Option<Seq<char>>,
    path: Seq<char>,
) -> Result<Seq<char>, ResolveErrorModel> {
    match current_run_id {
        None => Err(ResolveErrorModel::NoCurrentRun),
        Some(id) => if !dirs.contains(run_dir_spec(belt_dir, id)) {
            Err(ResolveErrorModel::RunNotFound(id))
        } else {
            Ok(path_join(run_dir_spec(belt_dir, id), path))
        },
    }
}

fn contains_string(v: &Vec<String>, x: &str) -> (r: bool)
    ensures
        r == views(v@).contains(x@),
{
    let mut i: usize = 0;
    while i < v.len()
        invariant
            i <= v@.len(),
            forall|j: int| 0 <= j < i ==> v@[j]@ != x@,
        decreases v@.len() - i,
    {
        if str_eq(v[i].as_str(), x) {
            assert(views(v@)[i as int] == x@);
            return true;
        }
        i = i + 1;
    }
    proof {
        if views(v@).contains(x@) {
            let j = choose|j: int| 0 <= j < views(v@).len() && views(v@)[j] == x@;
            assert(v@[j]@ == x@);
        }
    }
    false
}

fn opt_eq(a: &Option<String>, b: &str) -> (r: bool)
    ensures
        r == (opt_view(*a) == Some(b@)),
{
    match a {
        Some(x) => str_eq(x.as_str(), b),
        None => false,
    }
}

fn or_default_str<'a>(o: &'a Option<String>, d: &'a str) -> (r: &'a str)
    ensures
        r@ == or_default(opt_view(*o), d@),
{
    match o {
        Some(x) => x.as_str(),
        None => d,
    }
}

/// Model of a [`Resolver`]: the belt directory, the current branch and the
/// current run.
pub struct ResolverModel {
    pub belt_dir: Seq<char>,
    pub current_branch: Option<Seq<char>>,
    pub current_run_id: Option<Seq<char>>,
}

impl View for Resolver {
    type V = ResolverModel;

    open spec fn view(&self) -> ResolverModel {
        ResolverModel {
            belt_dir: self.belt_dir@,
            current_branch: opt_view(self.current_branch),
            current_run_id: opt_view(self.current_run_id),
        }
    }
}

/// Model of an [`FsSnapshot`].
pub struct FsModel {
    pub dirs: Seq<Seq<char>>,
    pub paths: Seq<Seq<char>>,
    pub runs: Seq<RunEntryModel>,
}

impl View for FsSnapshot {
    type V = FsModel;

    open spec fn view(&self) -> FsModel {
        FsModel { dirs: views(self.dirs@), paths: views(self.paths@), runs: views(self.runs@) }
    }
}

/// Where a URI resolves to against a filesystem snapshot, or why it does not.
pub open spec fn resolve_spec(r: ResolverModel, uri: UriModel, fs: FsModel) -> Result<Seq<char>, ResolveErrorModel> {
    match uri {
        UriModel::Run { run_id, path } => run_spec(r.belt_dir, fs.dirs, fs.paths, run_id, path),
        UriModel::Latest { pipeline, path } => latest_spec(fs.runs, fs.paths, pipeline, path, None, r.current_branch),
        UriModel::WorkspaceLatest { branch, pipeline, path } => if r.current_branch is None {
            Err(ResolveErrorModel::BranchAwareRequiresGit)
        } else {
            latest_spec(fs.runs, fs.paths, pipeline, path, Some(branch), r.current_branch)
        },
        UriModel::Current { path } => current_spec(r.belt_dir, fs.dirs, r.current_run_id, path),
    }
}

/// The directory whose existence resolving `uri` asks about, if any: the
/// named run's for `belt://run/`, the current run's for `belt://current/`.
pub open spec fn dir_query(r: ResolverModel, uri: UriModel) -> Option<Seq<char>> {
    match uri {
        UriModel::Run { run_id, .. } => Some(run_dir_spec(r.belt_dir, run_id)),
        UriModel::Current { .. } => match r.current_run_id {
            Some(id) => Some(run_dir_spec(r.belt_dir, id)),
            None => None,
        },
        _ => None,
    }
}

/// The path whose existence resolving `uri` asks about, if any.
pub open spec fn path_query(r: ResolverModel, uri: UriModel, runs: Seq<RunEntryModel>) -> Option<Seq<char>> {
    match uri {
        UriModel::Run { run_id, path } => Some(path_join(run_dir_spec(r.belt_dir, run_id), path)),
        UriModel::Latest { pipeline, path } => latest_query(runs, pipeline, path, None, r.current_branch),
        UriModel::WorkspaceLatest { branch, pipeline, path } => if r.current_branch is None {
            None
        } else {
            latest_query(runs, pipeline, path, Some(branch), r.current_branch)
        },
        UriModel::Current { .. } => None,
    }
}

/// Resolving a URI reads the filesystem only through the run entries and
/// the existence of its queried directory and path: two snapshots with the
/// same run entries that agree on those give the same result.
pub proof fn law_resolution_reads_only_queries(r: ResolverModel, uri: UriModel, fs1: FsModel, fs2: FsModel)
    requires
        fs1.runs == fs2.runs,
        match dir_query(r, uri) {
            Some(d) => fs1.dirs.contains(d) == fs2.dirs.contains(d),
            None => true,
        },
        match path_query(r, uri, fs1.runs) {
            Some(p) => fs1.paths.contains(p) == fs2.paths.contains(p),
            None => true,
        },
    ensures
        resolve_spec(r, uri, fs1) == resolve_spec(r, uri, fs2),
{
}

impl Resolver {
    /// The directory of run `run_id`: `{belt_dir}/runs/{run_id}`.
    pub fn run_dir(&self, run_id: &str) -> (r: String)
        ensures
            r@ == run_dir_spec(self.belt_dir@, run_id@),
    {
        let runs = path_join_exec(self.belt_dir.as_str(), "runs");
        path_join_exec(runs.as_str(), run_id)
    }

    /// Resolves `path` under run `run_id`: the run directory and the path
    /// must exist.
    pub fn resolve_run(&self, run_id: &str, path: &str, fs: &FsSnapshot) -> (r: Result<String, ResolveError>)
        ensures
            match r {
                Ok(p) => run_spec(self.belt_dir@, views(fs.dirs@), views(fs.paths@), run_id@, path@) == Ok::<
                    Seq<char>,
                    ResolveErrorModel,
                >(p@),
                Err(e) => run_spec(self.belt_dir@, views(fs.dirs@), views(fs.paths@), run_id@, path@) == Err::<
                    Seq<char>,
                    ResolveErrorModel,
                >(e@),
            },
    {
        let d = self.run_dir(run_id);
        if !contains_string(&fs.dirs, d.as_str()) {
            return Err(ResolveError::RunNotFound { run_id: String::from_str(run_id) });
        }
        let abs = path_join_exec(d.as_str(), path);
        if !contains_string(&fs.paths, abs.as_str()) {
            return Err(ResolveError::ArtifactMissing { path: abs });
        }
        Ok(abs)
    }

    /// Resolves `path` under the current run, whose directory must exist.
    pub fn resolve_current(&self, path: &str, fs: &FsSnapshot) -> (r: Result<String, ResolveError>)
        ensures
            match r {
                Ok(p) => current_spec(self.belt_dir@, views(fs.dirs@), opt_view(self.current_run_id), path@) == Ok::<
                    Seq<char>,
                    ResolveErrorModel,
                >(p@),
                Err(e) => current_spec(self.belt_dir@, views(fs.dirs@), opt_view(self.current_run_id), path@)
                    == Err::<Seq<char>, ResolveErrorModel>(e@),
            },
    {
        let id = match &self.current_run_id {
            None => {
                return Err(ResolveError::NoCurrentRun);
            },
            Some(id) => id,
        };
        let d = self.run_dir(id.as_str());
        if !contains_string(&fs.dirs, d.as_str()) {
            return Err(ResolveError::RunNotFound { run_id: id.clone() });
        }
        Ok(path_join_exec(d.as_str(), path))
    }

    /// Picks the latest completed run of `pipeline` on the requested branch
    /// among the run entries: its position, or `None` when no entry
    /// qualifies; the first unreadable entry fails it with its error.
    fn choose_latest(&self, pipeline: &str, explicit_branch: Option<&str>, entries: &Vec<RunEntry>) -> (r: Result<
        Option<usize>,
        ResolveError,
    >)
        ensures
            ({
                let runs = views(entries@);
                let explicit = match explicit_branch {
                    Some(b) => Some(b@),
                    None => None,
                };
                match first_unreadable(runs, runs.len() as int) {
                    Some(k) => r matches Err(e) && e@ == runs[k]->Unreadable_0,
                    None => r matches Ok(o) && match o {
                        Some(b) => latest_among(runs, pipeline@, explicit, opt_view(self.current_branch), runs.len() as int)
                            == Some(b as int),
                        None => latest_among(
                            runs,
                            pipeline@,
                            explicit,
                            opt_view(self.current_branch),
                            runs.len() as int,
                        ) is None,
                    },
                }
            }),
    {
        let ghost runs = views(entries@);
        let ghost explicit = match explicit_branch {
            Some(b) => Some(b@),
            None => None,
        };
        let ghost current = opt_view(self.current_branch);
        let mut best: Option<usize> = None;
        let mut i: usize = 0;
        proof {
            reveal_strlit("completed");
            reveal_strlit("in_progress");
            reveal_strlit("");
        }
        while i < entries.len()
            invariant
                i <= entries@.len(),
                runs == views(entries@),
                explicit == match explicit_branch {
                    Some(b) => Some(b@),
                    None => None::<Seq<char>>,
                },
                current == opt_view(self.current_branch),
                first_unreadable(runs, i as int) is None,
                match best {
                    Some(b) => latest_among(runs, pipeline@, explicit, current, i as int) == Some(b as int) && b < i,
                    None => latest_among(runs, pipeline@, explicit, current, i as int) is None,
                },
            decreases entries@.len() - i,
        {
            assert(runs[i as int] == entries@[i as int]@);
            proof {
                reveal_strlit("");
                assert(""@ =~= Seq::<char>::empty());
            }
            match &entries[i] {
                RunEntry::NoState => {},
                RunEntry::Unreadable(e) => {
                    proof {
                        lemma_first_unreadable_sticks(runs, i + 1, runs.len() as int);
                    }
                    return Err(e.copy());
                },
                RunEntry::State { dir, run_id, pipeline: p, status, branch } => {
                    let st = or_default_str(status, "in_progress");
                    let name = or_default_str(p, "");
                    let branch_ok = match explicit_branch {
                        Some(t) => opt_eq(branch, t),
                        None => match &self.current_branch {
                            Some(c) => opt_eq(branch, c.as_str()),
                            None => true,
                        },
                    };
                    let ok = str_eq(st, "completed") && str_eq(name, pipeline) && branch_ok;
                    assert(ok == qualifies(runs[i as int], pipeline@, explicit, current));
                    if ok {
                        match best {
                            None => {
                                best = Some(i);
                            },
                            Some(b) => {
                                let id_new = or_default_str(run_id, "");
                                assert(id_new@ == entry_run_id(runs[i as int]));
                                let id_best: &str = match &entries[b] {
                                    RunEntry::State { run_id: rb, .. } => or_default_str(rb, ""),
                                    _ => "",
                                };
                                assert(runs[b as int] == entries@[b as int]@);
                                assert(id_best@ == entry_run_id(runs[b as int]));
                                if !chars_less_exec(id_new, id_best) {
                                    best = Some(i);
                                }
                            },
                        }
                    }
                },
            }
            i = i + 1;
        }
        assert(first_unreadable(runs, runs.len() as int) is None);
        Ok(best)
    }

    /// The path under the chosen latest run that `path` names, if a run is
    /// chosen.
    fn latest_path_query(&self, pipeline: &str, path: &str, explicit_branch: Option<&str>, entries: &Vec<RunEntry>) -> (r:
        Option<String>)
        ensures
            opt_view(r) == latest_query(
                views(entries@),
                pipeline@,
                path@,
                match explicit_branch {
                    Some(b) => Some(b@),
                    None => None,
                },
                opt_view(self.current_branch),
            ),
    {
        match self.choose_latest(pipeline, explicit_branch, entries) {
            Err(_) => None,
            Ok(None) => None,
            Ok(Some(b)) => {
                proof {
                    law_latest_is_newest_qualifying(
                        views(entries@),
                        pipeline@,
                        match explicit_branch {
                            Some(t) => Some(t@),
                            None => None,
                        },
                        opt_view(self.current_branch),
                        entries@.len() as int,
                    );
                }
                Some(path_join_exec(entry_dir_str(&entries[b]), path))
            },
        }
    }

    /// Resolves `path` under the latest completed run of `pipeline` on the
    /// requested branch.
    pub fn resolve_latest(&self, pipeline: &str, path: &str, explicit_branch: Option<&str>, fs: &FsSnapshot) -> (r:
        Result<String, ResolveError>)
        ensures
            ({
                let want = latest_spec(
                    views(fs.runs@),
                    views(fs.paths@),
                    pipeline@,
                    path@,
                    match explicit_branch {
                        Some(b) => Some(b@),
                        None => None,
                    },
                    opt_view(self.current_branch),
                );
                match r {
                    Ok(p) => want == Ok::<Seq<char>, ResolveErrorModel>(p@),
                    Err(e) => want == Err::<Seq<char>, ResolveErrorModel>(e@),
                }
            }),
    {
        match self.choose_latest(pipeline, explicit_branch, &fs.runs) {
            Err(e) => Err(e),
            Ok(None) => Err(
                ResolveError::NoCompletedRun {
                    pipeline: String::from_str(pipeline),
                    branch: match explicit_branch {
                        Some(t) => Some(String::from_str(t)),
                        None => crate::model::clone_opt(&self.current_branch),
                    },
                },
            ),
            Ok(Some(b)) => {
                proof {
                    law_latest_is_newest_qualifying(
                        views(fs.runs@),
                        pipeline@,
                        match explicit_branch {
                            Some(t) => Some(t@),
                            None => None,
                        },
                        opt_view(self.current_branch),
                        fs.runs@.len() as int,
                    );
                }
                let abs = path_join_exec(entry_dir_str(&fs.runs[b]), path);
                if !contains_string(&fs.paths, abs.as_str()) {
                    return Err(ResolveError::ArtifactMissing { path: abs });
                }
                Ok(abs)
            },
        }
    }

    /// The directory and the path whose existence resolving `uri` asks the
    /// filesystem about, given the run entries: the run directory and the
    /// path under it for `belt://run/`, the current run's directory for
    /// `belt://current/`, the path under the chosen run for the `latest`
    /// forms.
    pub fn fs_queries(&self, uri: &BeltUri, entries: &Vec<RunEntry>) -> (r: (Option<String>, Option<String>))
        ensures
            opt_view(r.0) == dir_query(self@, uri@),
            opt_view(r.1) == path_query(self@, uri@, views(entries@)),
    {
        match uri {
            BeltUri::Run { run_id, path } => {
                let d = self.run_dir(run_id.as_str());
                let p = path_join_exec(d.as_str(), path.as_str());
                (Some(d), Some(p))
            },
            BeltUri::Latest { pipeline, path } => (
                None,
                self.latest_path_query(pipeline.as_str(), path.as_str(), None, entries),
            ),
            BeltUri::WorkspaceLatest { branch, pipeline, path } => {
                if self.current_branch.is_none() {
                    (None, None)
                } else {
                    (None, self.latest_path_query(pipeline.as_str(), path.as_str(), Some(branch.as_str()), entries))
                }
            },
            BeltUri::Current { .. } => match &self.current_run_id {
                Some(id) => (Some(self.run_dir(id.as_str())), None),
                None => (None, None),
            },
        }
    }

    /// Resolves a URI against a filesystem snapshot.
    pub fn resolve(&self, uri: &BeltUri, fs: &FsSnapshot) -> (r: Result<String, ResolveError>)
        ensures
            match r {
                Ok(p) => resolve_spec(self@, uri@, fs@) == Ok::<Seq<char>, ResolveErrorModel>(p@),
                Err(e) => resolve_spec(self@, uri@, fs@) == Err::<Seq<char>, ResolveErrorModel>(e@),
            },
    {
        match uri {
            BeltUri::Run { run_id, path } => self.resolve_run(run_id.as_str(), path.as_str(), fs),
            BeltUri::Latest { pipeline, path } => self.resolve_latest(pipeline.as_str(), path.as_str(), None, fs),
            BeltUri::WorkspaceLatest { branch, pipeline, path } => {
                if self.current_branch.is_none() {
                    return Err(ResolveError::BranchAwareRequiresGit);
                }
                self.resolve_latest(pipeline.as_str(), path.as_str(), Some(branch.as_str()), fs)
            },
            BeltUri::Current { path } => self.resolve_current(path.as_str(), fs),
        }
    }
}

proof fn lemma_first_unreadable_sticks(runs: Seq<RunEntryModel>, n: int, m: int)
    requires
        0 <= n <= m,
        first_unreadable(runs, n) is Some,
    ensures
        first_unreadable(runs, m) == first_unreadable(runs, n),
    decreases m - n,
{
    if m > n {
        lemma_first_unreadable_sticks(runs, n, m - 1);
    }
}

/// A resolver together with the filesystem snapshot it reads, usable where a
/// `belt://` URI arrives as text (the `file_exists:` gate checks).
#[derive(Debug)]
pub struct SnapshotResolver {
    pub resolver: Resolver,
    pub fs: FsSnapshot,
}

/// What resolving URI text gives: its parse error's message, or where it
/// resolves to, or the message of why it does not.
pub open spec fn resolve_text_spec(r: ResolverModel, fs: FsModel, uri: Seq<char>) -> Result<Seq<char>, Seq<char>> {
    match crate::uri::parse_spec(uri) {
        Err(e) => Err(crate::uri::uri_error_message(e)),
        Ok(u) => match resolve_spec(r, u, fs) {
            Ok(p) => Ok(p),
            Err(e) => Err(resolve_error_message(e)),
        },
    }
}

impl crate::gate::UriResolver for SnapshotResolver {
    open spec fn resolution(&self, uri: Seq<char>) -> Result<Seq<char>, Seq<char>> {
        resolve_text_spec(self.resolver@, self.fs@, uri)
    }

    fn resolve(&self, uri: &str) -> (r: Result<String, String>) {
        match BeltUri::parse(uri) {
            Err(e) => Err(e.message()),
            Ok(u) => match self.resolver.resolve(&u, &self.fs) {
                Ok(p) => Ok(p),
                Err(e) => Err(e.message()),
            },
        }
    }
}

/// `belt://latest/...` reads from the newest qualifying run: the entry chosen
/// among the first `n` is a completed run of the pipeline on the requested
/// branch, and no qualifying entry has a greater run id; none is chosen
/// exactly when no entry qualifies.
pub proof fn law_latest_is_newest_qualifying(
    runs: Seq<RunEntryModel>,
    pipeline: Seq<char>,
    explicit: Option<Seq<char>>,
    current: Option<Seq<char>>,
    n: int,
)
    requires
        0 <= n <= runs.len(),
    ensures
        match latest_among(runs, pipeline, explicit, current, n) {
            Some(k) => {
                &&& 0 <= k < n
                &&& qualifies(runs[k], pipeline, explicit, current)
                &&& forall|j: int|
                    0 <= j < n && qualifies(#[trigger] runs[j], pipeline, explicit, current) ==> !chars_less_from(
                        entry_run_id(runs[k]),
                        entry_run_id(runs[j]),
                        0,
                    )
            },
            None => forall|j: int| 0 <= j < n ==> !qualifies(#[trigger] runs[j], pipeline, explicit, current),
        },
    decreases n,
{
    if n > 0 {
        law_latest_is_newest_qualifying(runs, pipeline, explicit, current, n - 1);
        let prev = latest_among(runs, pipeline, explicit, current, n - 1);
        let new_id = entry_run_id(runs[n - 1]);
        if qualifies(runs[n - 1], pipeline, explicit, current) {
            if let Some(b) = prev {
                let b_id = entry_run_id(runs[b]);
                if chars_less_from(new_id, b_id, 0) {
                    assert forall|j: int|
                        0 <= j < n && qualifies(#[trigger] runs[j], pipeline, explicit, current) implies !chars_less_from(
                        b_id,
                        entry_run_id(runs[j]),
                        0,
                    ) by {
                        if j == n - 1 && chars_less_from(b_id, new_id, 0) {
                            crate::view::lemma_chars_less_trans(b_id, new_id, b_id, 0);
                            crate::view::lemma_chars_irrefl(b_id, 0);
                        }
                    }
                } else {
                    assert forall|j: int|
                        0 <= j < n && qualifies(#[trigger] runs[j], pipeline, explicit, current) implies !chars_less_from(
                        new_id,
                        entry_run_id(runs[j]),
                        0,
                    ) by {
                        if j < n - 1 && chars_less_from(new_id, entry_run_id(runs[j]), 0) {
                            crate::view::lemma_chars_less_split(new_id, b_id, entry_run_id(runs[j]), 0);
                        }
                        if j == n - 1 {
                            crate::view::lemma_chars_irrefl(new_id, 0);
                        }
                    }
                }
            } else {
                assert forall|j: int|
                    0 <= j < n && qualifies(#[trigger] runs[j], pipeline, explicit, current) implies !chars_less_from(
                    new_id,
                    entry_run_id(runs[j]),
                    0,
                ) by {
                    crate::view::lemma_chars_irrefl(new_id, 0);
                }
            }
        }
    }
}

/// The external URIs among the first `k` consumed references, in order.
pub open spec fn ref_uris(cs: Seq<ArtifactRefModel>, k: int) -> Seq<UriModel>
    decreases k,
{
    if k <= 0 {
        Seq::empty()
    } else {
        ref_uris(cs, k - 1) + match cs[k - 1] {
            ArtifactRefModel::External { uri, .. } => seq![uri],
            _ => Seq::empty(),
        }
    }
}

/// The external URIs consumed by the first `n` phases, in order.
pub open spec fn phase_uris(ps: Seq<ExpandedModel>, n: int) -> Seq<UriModel>
    decreases n,
{
    if n <= 0 {
        Seq::empty()
    } else {
        phase_uris(ps, n - 1) + ref_uris(ps[n - 1].consumes, ps[n - 1].consumes.len() as int)
    }
}

/// The map from each URI's text to the path it resolves to, built in order;
/// the first URI that does not resolve ends it with its error.
pub open spec fn uri_map(r: ResolverModel, fs: FsModel, us: Seq<UriModel>) -> Result<Map<Seq<char>, Seq<char>>, ResolveErrorModel>
    decreases us.len(),
{
    if us.len() == 0 {
        Ok(Map::empty())
    } else {
        match uri_map(r, fs, us.drop_last()) {
            Err(e) => Err(e),
            Ok(m) => match resolve_spec(r, us.last(), fs) {
                Err(e) => Err(e),
                Ok(p) => Ok(m.insert(render_spec(us.last()), p)),
            },
        }
    }
}

proof fn lemma_uri_map_err_sticks(r: ResolverModel, fs: FsModel, us: Seq<UriModel>, more: Seq<UriModel>)
    requires
        uri_map(r, fs, us) is Err,
    ensures
        uri_map(r, fs, us + more) == uri_map(r, fs, us),
    decreases more.len(),
{
    if more.len() == 0 {
        assert(us + more =~= us);
    } else {
        lemma_uri_map_err_sticks(r, fs, us, more.drop_last());
        assert((us + more).drop_last() =~= us + more.drop_last());
    }
}

/// The key under which an inherited run is registered: `belt://run/{id}/`.
pub open spec fn inherited_key(id: Seq<char>) -> Seq<char> {
    "belt://run/"@ + id + "/"@
}

/// The resolved `consumes` map of a new run: every external URI consumed by
/// `phases` resolved in order, then, with `inherits_from`, the inherited
/// run's directory under its `belt://run/{id}/` key.
pub open spec fn consumes_map_spec(
    r: ResolverModel,
    fs: FsModel,
    ps: Seq<ExpandedModel>,
    inherits_from: Option<Seq<char>>,
) -> Result<Map<Seq<char>, Seq<char>>, ResolveErrorModel> {
    match uri_map(r, fs, phase_uris(ps, ps.len() as int)) {
        Err(e) => Err(e),
        Ok(m) => Ok(
            match inherits_from {
                Some(id) => m.insert(inherited_key(id), run_dir_spec(r.belt_dir, id)),
                None => m,
            },
        ),
    }
}

impl Resolver {
    /// Whether the run `run_id` a new run inherits from has a directory.
    pub fn inherited_run_exists(&self, run_id: &str, fs: &FsSnapshot) -> (r: bool)
        ensures
            r == views(fs.dirs@).contains(run_dir_spec(self.belt_dir@, run_id@)),
    {
        let d = self.run_dir(run_id);
        contains_string(&fs.dirs, d.as_str())
    }

    /// Resolves every external URI consumed by `phases`, in order, into a
    /// map from the URI's text to its path; with `inherits_from`, also
    /// registers that run's directory under `belt://run/{id}/`. Fails with
    /// the error of the first URI that does not resolve.
    pub fn resolve_consumes(&self, phases: &Vec<ExpandedPhase>, inherits_from: Option<&str>, fs: &FsSnapshot) -> (r:
        Result<StrMap<String>, ResolveError>)
        ensures
            ({
                let want = consumes_map_spec(
                    self@,
                    fs@,
                    views(phases@),
                    match inherits_from {
                        Some(id) => Some(id@),
                        None => None,
                    },
                );
                match r {
                    Ok(m) => want == Ok::<Map<Seq<char>, Seq<char>>, ResolveErrorModel>(m@),
                    Err(e) => want == Err::<Map<Seq<char>, Seq<char>>, ResolveErrorModel>(e@),
                }
            }),
    {
        let ghost ps = views(phases@);
        let mut map: StrMap<String> = StrMap::new();
        let ghost mut done: Seq<UriModel> = Seq::empty();
        let mut i: usize = 0;
        while i < phases.len()
            invariant
                i <= phases@.len(),
                ps == views(phases@),
                done == phase_uris(ps, i as int),
                uri_map(self@, fs@, done) == Ok::<Map<Seq<char>, Seq<char>>, ResolveErrorModel>(map@),
            decreases phases@.len() - i,
        {
            let refs = &phases[i].consumes;
            let ghost cs = ps[i as int].consumes;
            assert(cs == views(refs@));
            let ghost start = done;
            let mut j: usize = 0;
            while j < refs.len()
                invariant
                    j <= refs@.len(),
                    i < phases@.len(),
                    ps == views(phases@),
                    cs == ps[i as int].consumes,
                    start == phase_uris(ps, i as int),
                    cs == views(refs@),
                    done == start + ref_uris(cs, j as int),
                    uri_map(self@, fs@, done) == Ok::<Map<Seq<char>, Seq<char>>, ResolveErrorModel>(map@),
                decreases refs@.len() - j,
            {
                assert(cs[j as int] == refs@[j as int]@);
                match &refs[j] {
                    ArtifactRef::External { uri, .. } => {
                        let ghost next = done.push(uri@);
                        assert(next.drop_last() =~= done);
                        match self.resolve(uri, fs) {
                            Err(e) => {
                                proof {
                                    let full = phase_uris(ps, ps.len() as int);
                                    let k = next.len() as int;
                                    lemma_ref_uris_prefix(cs, j + 1, cs.len() as int);
                                    assert(ref_uris(cs, j + 1) =~= ref_uris(cs, j as int) + seq![uri@]);
                                    assert(next =~= start + ref_uris(cs, j + 1));
                                    lemma_phase_uris_prefix(ps, i + 1, ps.len() as int);
                                    assert(phase_uris(ps, i + 1) =~= start + ref_uris(cs, cs.len() as int));
                                    assert(phase_uris(ps, i + 1).take(k) =~= next);
                                    assert(full.take(k) =~= phase_uris(ps, i + 1).take(k));
                                    assert(full =~= next + full.skip(k));
                                    lemma_uri_map_err_sticks(self@, fs@, next, full.skip(k));
                                }
                                return Err(e);
                            },
                            Ok(p) => {
                                let key = uri.to_uri_string();
                                map.insert(key, p);
                            },
                        }
                        proof {
                            done = next;
                        }
                    },
                    _ => {},
                }
                assert(ref_uris(cs, j + 1) == ref_uris(cs, j as int) + match cs[j as int] {
                    ArtifactRefModel::External { uri, .. } => seq![uri],
                    _ => Seq::<UriModel>::empty(),
                });
                assert(done =~= start + ref_uris(cs, j + 1));
                j = j + 1;
            }
            assert(done =~= phase_uris(ps, i + 1));
            i = i + 1;
        }
        match inherits_from {
            Some(id) => {
                let mut key = String::from_str("belt://run/");
                key.append(id);
                key.append("/");
                map.insert(key, self.run_dir(id));
            },
            None => {},
        }
        Ok(map)
    }
}

proof fn lemma_ref_uris_prefix(cs: Seq<ArtifactRefModel>, a: int, b: int)
    requires
        0 <= a <= b,
    ensures
        ref_uris(cs, a).len() <= ref_uris(cs, b).len(),
        ref_uris(cs, b).take(ref_uris(cs, a).len() as int) == ref_uris(cs, a),
    decreases b - a,
{
    if b > a {
        lemma_ref_uris_prefix(cs, a, b - 1);
        assert(ref_uris(cs, b).take(ref_uris(cs, a).len() as int) =~= ref_uris(cs, b - 1).take(
            ref_uris(cs, a).len() as int,
        ));
    } else {
        assert(ref_uris(cs, b).take(ref_uris(cs, a).len() as int) =~= ref_uris(cs, a));
    }
}

proof fn lemma_phase_uris_prefix(ps: Seq<ExpandedModel>, a: int, b: int)
    requires
        0 <= a <= b,
    ensures
        phase_uris(ps, a).len() <= phase_uris(ps, b).len(),
        phase_uris(ps, b).take(phase_uris(ps, a).len() as int) == phase_uris(ps, a),
    decreases b - a,
{
    if b > a {
        lemma_phase_uris_prefix(ps, a, b - 1);
        assert(phase_uris(ps, b).take(phase_uris(ps, a).len() as int) =~= phase_uris(ps, b - 1).take(
            phase_uris(ps, a).len() as int,
        ));
    } else {
        assert(phase_uris(ps, b).take(phase_uris(ps, a).len() as int) =~= phase_uris(ps, a));
    }
}
} // verus!
