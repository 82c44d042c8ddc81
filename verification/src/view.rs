//! The enriched status view of a run: per-phase state, progress and the
//! artifacts a phase is expected to produce.
//!
//! Directory listings, result files and artifact existence are observed by
//! the caller and handed in as [`PhaseRuntime`] values.
use vstd::prelude::*;
use crate::gate::{GateResult, GateResultModel};
use crate::json::{json_as_bool, JsonModel, JsonValue};
use crate::model::{
    clone_opt, clone_vec, opt_invoker_view, opt_view, views, Artifact, ArtifactModel, ArtifactRef,
    ArtifactRefModel, DeepClone, Invoker, InvokerModel, RunModel, RunState,
};
use crate::strmap::StrMap;
use crate::text::{has_char, has_prefix, starts_with, trim_exec, trim_ws};

verus! {

broadcast use vstd::seq_lib::group_seq_properties;

/// Value of an artifact's `when:` clause: no clause holds; otherwise only
/// `args.<flag>` (surrounding white space ignored) with `<flag>` bound to
/// the boolean `true` holds.
pub open spec fn artifact_when_holds(when: Option<Seq<char>>, args: Map<Seq<char>, JsonModel>) -> bool {
    match when {
        None => true,
        Some(e) => {
            let t = trim_ws(e);
            has_prefix(t, "args."@) && args.contains_key(t.skip(5)) && json_as_bool(args[t.skip(5)])
                == Some(true)
        },
    }
}

/// Evaluates an artifact's `when:` clause.
pub fn evaluate_when(when: Option<&str>, args: &StrMap<JsonValue>) -> (r: bool)
    ensures
        r == artifact_when_holds(
            match when {
                Some(w) => Some(w@),
                None => None,
            },
            args@,
        ),
{
    proof {
        reveal_strlit("args.");
    }
    let expr = match when {
        None => {
            return true;
        },
        Some(e) => e,
    };
    let t = trim_exec(expr);
    if !starts_with(t.as_str(), "args.") {
        return false;
    }
    let n = t.unicode_len();
    let name = t.as_str().substring_char(5, n);
    assert(name@ =~= t@.skip(5));
    match args.get(name) {
        Some(v) => match v.as_bool() {
            Some(b) => b,
            None => false,
        },
        None => false,
    }
}

/// The artifacts of `produces` whose `when:` clause holds.
pub open spec fn active_spec(produces: Seq<ArtifactModel>, args: Map<Seq<char>, JsonModel>) -> Seq<ArtifactModel> {
    produces.filter(|a: ArtifactModel| artifact_when_holds(a.when, args))
}

fn opt_str(o: &Option<String>) -> (r: Option<&str>)
    ensures
        match r {
            Some(s) => *o matches Some(t) && s@ == t@,
            None => o.is_none(),
        },
{
    match o {
        Some(s) => Some(s.as_str()),
        None => None,
    }
}

/// Copies of the artifacts of a phase whose `when:` clause holds.
pub fn active_produces(produces: &Vec<Artifact>, args: &StrMap<JsonValue>) -> (r: Vec<Artifact>)
    ensures
        views(r@) == active_spec(views(produces@), args@),
{
    let ghost pred = |a: ArtifactModel| artifact_when_holds(a.when, args@);
    let ghost ps = views(produces@);
    let mut out: Vec<Artifact> = Vec::new();
    let mut i: usize = 0;
    assert(ps.take(0).filter(pred) =~= Seq::<ArtifactModel>::empty()) by {
        reveal_with_fuel(Seq::<ArtifactModel>::filter, 1);
    }
    assert(views(out@) =~= Seq::<ArtifactModel>::empty());
    while i < produces.len()
        invariant
            i <= produces@.len(),
            ps == views(produces@),
            pred == (|a: ArtifactModel| artifact_when_holds(a.when, args@)),
            views(out@) == ps.take(i as int).filter(pred),
        decreases produces@.len() - i,
    {
        let a = &produces[i];
        let holds = evaluate_when(opt_str(&a.when), args);
        let ghost before = out@;
        if holds {
            out.push(a.deep_clone());
            assert(views(out@) =~= views(before).push(a@));
        }
        proof {
            assert(ps.take(i + 1).drop_last() =~= ps.take(i as int));
            assert(ps.take(i + 1).last() == a@);
            reveal_with_fuel(Seq::<ArtifactModel>::filter, 1);
        }
        i = i + 1;
    }
    assert(ps.take(produces@.len() as int) =~= ps);
    out
}

/// Overall pipeline execution status.
#[derive(Debug, Clone, Copy, PartialEq, Eq, Structural)]
pub enum PipelineStatus {
    InProgress,
    Completed,
}

/// State of an individual phase within the run.
#[derive(Debug, Clone, Copy, PartialEq, Eq, Structural)]
pub enum PhaseState {
    Completed,
    Current,
    Pending,
    Skipped,
}

/// Numeric progress summary across all phases.
#[derive(Debug, Clone, Copy, PartialEq, Eq, Structural)]
pub struct Progress {
    pub completed: usize,
    pub skipped: usize,
    pub remaining: usize,
    pub total: usize,
}

/// The state of phase `id` in run `s`.
pub open spec fn phase_state_spec(id: Seq<char>, s: RunModel) -> PhaseState {
    if s.completed_phases.contains(id) {
        PhaseState::Completed
    } else if s.skipped_phases.contains(id) {
        PhaseState::Skipped
    } else if s.current_phase == id {
        PhaseState::Current
    } else {
        PhaseState::Pending
    }
}

fn contains_string(v: &Vec<String>, id: &str) -> (r: bool)
    ensures
        r == views(v@).contains(id@),
{
    let mut i: usize = 0;
    while i < v.len()
        invariant
            i <= v@.len(),
            forall|j: int| 0 <= j < i ==> v@[j]@ != id@,
        decreases v@.len() - i,
    {
        if crate::text::str_eq(v[i].as_str(), id) {
            assert(views(v@)[i as int] == id@);
            return true;
        }
        i = i + 1;
    }
    proof {
        if views(v@).contains(id@) {
            let j = choose|j: int| 0 <= j < views(v@).len() && views(v@)[j] == id@;
            assert(v@[j]@ == id@);
        }
    }
    false
}

/// Determines the state of a phase in a run.
pub fn determine_phase_state(phase_id: &str, state: &RunState) -> (r: PhaseState)
    ensures
        r == phase_state_spec(phase_id@, state@),
{
    if contains_string(&state.completed_phases, phase_id) {
        PhaseState::Completed
    } else if contains_string(&state.skipped_phases, phase_id) {
        PhaseState::Skipped
    } else if crate::text::str_eq(state.current_phase.as_str(), phase_id) {
        PhaseState::Current
    } else {
        PhaseState::Pending
    }
}

/// An artifact enriched with what the filesystem shows of it.
#[derive(Debug)]
pub struct ResolvedArtifact {
    pub name: String,
    /// The declared `belt://` URI, when the path is one.
    pub uri: Option<String>,
    /// The declared raw path, when it is not a URI.
    pub path: Option<String>,
    pub description: Option<String>,
    pub exists: bool,
    pub resolved_path: Option<String>,
}

/// Model of a [`ResolvedArtifact`].
pub struct ResolvedModel {
    pub name: Seq<char>,
    pub uri: Option<Seq<char>>,
    pub path: Option<Seq<char>>,
    pub description: Option<Seq<char>>,
    pub exists: bool,
    pub resolved_path: Option<Seq<char>>,
}

impl View for ResolvedArtifact {
    type V = ResolvedModel;

    open spec fn view(&self) -> ResolvedModel {
        ResolvedModel {
            name: self.name@,
            uri: opt_view(self.uri),
            path: opt_view(self.path),
            description: opt_view(self.description),
            exists: self.exists,
            resolved_path: opt_view(self.resolved_path),
        }
    }
}

impl DeepClone for ResolvedArtifact {
    fn deep_clone(&self) -> (r: ResolvedArtifact) {
        ResolvedArtifact {
            name: self.name.clone(),
            uri: clone_opt(&self.uri),
            path: clone_opt(&self.path),
            description: clone_opt(&self.description),
            exists: self.exists,
            resolved_path: clone_opt(&self.resolved_path),
        }
    }
}

/// What the filesystem shows of one artifact: whether it exists and the
/// concrete path found for it.
#[derive(Debug)]
pub struct ArtifactFacts {
    pub exists: bool,
    pub resolved_path: Option<String>,
}

/// The resolved form of artifact `a`: a `belt://` path is reported as `uri`,
/// anything else as `path`.
pub open spec fn resolved_spec(a: ArtifactModel, exists: bool, resolved_path: Option<Seq<char>>) -> ResolvedModel {
    let is_uri = has_prefix(a.path, "belt://"@);
    ResolvedModel {
        name: a.name,
        uri: if is_uri { Some(a.path) } else { None },
        path: if is_uri { None } else { Some(a.path) },
        description: a.description,
        exists,
        resolved_path,
    }
}

/// Builds the resolved form of an artifact from filesystem observations.
pub fn resolve_artifact(a: &Artifact, exists: bool, resolved_path: Option<String>) -> (r: ResolvedArtifact)
    ensures
        r@ == resolved_spec(a@, exists, opt_view(resolved_path)),
{
    proof {
        reveal_strlit("belt://");
    }
    let is_uri = starts_with(a.path.as_str(), "belt://");
    ResolvedArtifact {
        name: a.name.clone(),
        uri: if is_uri { Some(a.path.clone()) } else { None },
        path: if is_uri { None } else { Some(a.path.clone()) },
        description: clone_opt(&a.description),
        exists,
        resolved_path,
    }
}

impl DeepClone for GateResult {
    fn deep_clone(&self) -> (r: GateResult) {
        GateResult {
            check_type: self.check_type.clone(),
            passed: self.passed,
            detail: clone_opt(&self.detail),
            duration_ms: self.duration_ms,
            timed_out: self.timed_out,
        }
    }
}

/// Subset of an expanded phase used to enrich the per-phase view.
#[derive(Debug)]
pub struct PhaseMetadata {
    pub id: String,
    pub invoke: Option<Invoker>,
    pub produces: Vec<Artifact>,
    pub consumes: Vec<ArtifactRef>,
}

/// What the run directory shows of one phase.
#[derive(Debug)]
pub struct PhaseRuntime {
    /// Top-level file names in the phase's output directory, sorted.
    pub outputs: Vec<String>,
    /// Per-check results of the last verify, if recorded.
    pub verify_checks: Option<Vec<GateResult>>,
    /// Regate targets of the last regate, if recorded.
    pub regate_checks: Option<JsonValue>,
    /// Observations of the phase's declared artifacts, by position.
    pub artifacts: Vec<ArtifactFacts>,
}

/// Per-phase enriched view.
#[derive(Debug)]
pub struct PhaseView {
    pub id: String,
    pub status: PhaseState,
    pub verify_passed: Option<bool>,
    pub regate_passed: Option<bool>,
    pub attempt: u32,
    pub outputs: Vec<String>,
    pub verify_checks: Option<Vec<GateResult>>,
    pub regate_checks: Option<JsonValue>,
    pub invoke: Option<Invoker>,
    pub produces: Option<Vec<ResolvedArtifact>>,
    pub consumes: Vec<ArtifactRef>,
}

/// Model of a [`PhaseView`].
pub struct PhaseViewModel {
    pub id: Seq<char>,
    pub status: PhaseState,
    pub verify_passed: Option<bool>,
    pub regate_passed: Option<bool>,
    pub attempt: u32,
    pub outputs: Seq<Seq<char>>,
    pub verify_checks: Option<Seq<GateResultModel>>,
    pub regate_checks: Option<JsonModel>,
    pub invoke: Option<InvokerModel>,
    pub produces: Option<Seq<ResolvedModel>>,
    pub consumes: Seq<ArtifactRefModel>,
}

/// The model of an optional list of gate results.
pub open spec fn opt_results_view(o: Option<Vec<GateResult>>) -> Option<Seq<GateResultModel>> {
    match o {
        Some(v) => Some(views(v@)),
        None => None,
    }
}

/// The model of an optional JSON value.
pub open spec fn opt_json_view(o: Option<JsonValue>) -> Option<JsonModel> {
    match o {
        Some(v) => Some(v@),
        None => None,
    }
}

/// The model of an optional list of resolved artifacts.
pub open spec fn opt_resolved_view(o: Option<Vec<ResolvedArtifact>>) -> Option<Seq<ResolvedModel>> {
    match o {
        Some(v) => Some(views(v@)),
        None => None,
    }
}

impl View for PhaseView {
    type V = PhaseViewModel;

    open spec fn view(&self) -> PhaseViewModel {
        PhaseViewModel {
            id: self.id@,
            status: self.status,
            verify_passed: self.verify_passed,
            regate_passed: self.regate_passed,
            attempt: self.attempt,
            outputs: views(self.outputs@),
            verify_checks: opt_results_view(self.verify_checks),
            regate_checks: opt_json_view(self.regate_checks),
            invoke: opt_invoker_view(self.invoke),
            produces: opt_resolved_view(self.produces),
            consumes: views(self.consumes@),
        }
    }
}

/// Model of a [`PhaseRuntime`].
pub struct RuntimeModel {
    pub outputs: Seq<Seq<char>>,
    pub verify_checks: Option<Seq<GateResultModel>>,
    pub regate_checks: Option<JsonModel>,
    pub artifacts: Seq<(bool, Option<Seq<char>>)>,
}

impl View for PhaseRuntime {
    type V = RuntimeModel;

    open spec fn view(&self) -> RuntimeModel {
        RuntimeModel {
            outputs: views(self.outputs@),
            verify_checks: opt_results_view(self.verify_checks),
            regate_checks: opt_json_view(self.regate_checks),
            artifacts: self.artifacts@.map_values(|f: ArtifactFacts| (f.exists, opt_view(f.resolved_path))),
        }
    }
}

/// Model of a [`PhaseMetadata`].
pub struct MetaModel {
    pub id: Seq<char>,
    pub invoke: Option<InvokerModel>,
    pub produces: Seq<ArtifactModel>,
    pub consumes: Seq<ArtifactRefModel>,
}

impl View for PhaseMetadata {
    type V = MetaModel;

    open spec fn view(&self) -> MetaModel {
        MetaModel {
            id: self.id@,
            invoke: opt_invoker_view(self.invoke),
            produces: views(self.produces@),
            consumes: views(self.consumes@),
        }
    }
}

/// What the run directory shows of phase `id`; nothing when it was not observed.
pub open spec fn runtime_of(rt: Map<Seq<char>, RuntimeModel>, id: Seq<char>) -> RuntimeModel {
    if rt.contains_key(id) {
        rt[id]
    } else {
        RuntimeModel { outputs: Seq::empty(), verify_checks: None, regate_checks: None, artifacts: Seq::empty() }
    }
}

/// The observation of the artifact at position `i`; absent means missing.
pub open spec fn facts_at(r: RuntimeModel, i: int) -> (bool, Option<Seq<char>>) {
    if 0 <= i < r.artifacts.len() {
        r.artifacts[i]
    } else {
        (false, None)
    }
}

/// The positions, in order, of the artifacts whose `when:` clause holds.
pub open spec fn active_positions(produces: Seq<ArtifactModel>, args: Map<Seq<char>, JsonModel>, n: int) -> Seq<int>
    decreases n,
{
    if n <= 0 {
        Seq::empty()
    } else {
        let rest = active_positions(produces, args, n - 1);
        if artifact_when_holds(produces[n - 1].when, args) {
            rest.push(n - 1)
        } else {
            rest
        }
    }
}

/// The resolved `produces` of a phase: `None` when no artifact is active.
pub open spec fn produces_spec(produces: Seq<ArtifactModel>, args: Map<Seq<char>, JsonModel>, r: RuntimeModel) -> Option<
    Seq<ResolvedModel>,
> {
    let pos = active_positions(produces, args, produces.len() as int);
    if pos.len() == 0 {
        None
    } else {
        Some(pos.map_values(|i: int| resolved_spec(produces[i], facts_at(r, i).0, facts_at(r, i).1)))
    }
}

/// The view of a phase declared in the pipeline.
pub open spec fn meta_view_spec(m: MetaModel, s: RunModel, rt: Map<Seq<char>, RuntimeModel>) -> PhaseViewModel {
    let r = runtime_of(rt, m.id);
    PhaseViewModel {
        id: m.id,
        status: phase_state_spec(m.id, s),
        verify_passed: if s.phase_verify_passed.contains_key(m.id) {
            Some(s.phase_verify_passed[m.id])
        } else {
            None
        },
        regate_passed: if s.regate_passed.contains_key(m.id) {
            Some(s.regate_passed[m.id])
        } else {
            None
        },
        attempt: if s.phase_attempts.contains_key(m.id) {
            s.phase_attempts[m.id]
        } else {
            0
        },
        outputs: r.outputs,
        verify_checks: r.verify_checks,
        regate_checks: r.regate_checks,
        invoke: m.invoke,
        produces: produces_spec(m.produces, s.args, r),
        consumes: m.consumes,
    }
}

/// The view of a completed phase that the pipeline no longer declares.
pub open spec fn completed_orphan_spec(id: Seq<char>, s: RunModel, rt: Map<Seq<char>, RuntimeModel>) -> PhaseViewModel {
    let r = runtime_of(rt, id);
    PhaseViewModel {
        id,
        status: PhaseState::Completed,
        verify_passed: if s.phase_verify_passed.contains_key(id) {
            Some(s.phase_verify_passed[id])
        } else {
            None
        },
        regate_passed: if s.regate_passed.contains_key(id) {
            Some(s.regate_passed[id])
        } else {
            None
        },
        attempt: if s.phase_attempts.contains_key(id) {
            s.phase_attempts[id]
        } else {
            0
        },
        outputs: r.outputs,
        verify_checks: r.verify_checks,
        regate_checks: r.regate_checks,
        invoke: None,
        produces: None,
        consumes: Seq::empty(),
    }
}

/// The view of a skipped phase that the pipeline no longer declares.
pub open spec fn skipped_orphan_spec(id: Seq<char>) -> PhaseViewModel {
    PhaseViewModel {
        id,
        status: PhaseState::Skipped,
        verify_passed: None,
        regate_passed: None,
        attempt: 0,
        outputs: Seq::empty(),
        verify_checks: None,
        regate_checks: None,
        invoke: None,
        produces: None,
        consumes: Seq::empty(),
    }
}

/// The ids of the declared phases.
pub open spec fn meta_ids(metas: Seq<MetaModel>) -> Seq<Seq<char>> {
    metas.map_values(|m: MetaModel| m.id)
}

/// The phase views of a run, in order: declared phases, then completed
/// phases no longer declared, then skipped phases no longer declared and
/// not completed.
pub open spec fn phase_views_spec(metas: Seq<MetaModel>, s: RunModel, rt: Map<Seq<char>, RuntimeModel>) -> Seq<
    PhaseViewModel,
> {
    let ids = meta_ids(metas);
    metas.map_values(|m: MetaModel| meta_view_spec(m, s, rt)) + s.completed_phases.filter(
        |id: Seq<char>| !ids.contains(id),
    ).map_values(|id: Seq<char>| completed_orphan_spec(id, s, rt)) + s.skipped_phases.filter(
        |id: Seq<char>| !ids.contains(id) && !s.completed_phases.contains(id),
    ).map_values(|id: Seq<char>| skipped_orphan_spec(id))
}

/// Number of views in `vs` with status `st`.
pub open spec fn count_status(vs: Seq<PhaseViewModel>, st: PhaseState) -> nat
    decreases vs.len(),
{
    if vs.len() == 0 {
        0
    } else {
        count_status(vs.drop_last(), st) + if vs.last().status == st {
            1nat
        } else {
            0nat
        }
    }
}

/// Enriched status view of a run.
#[derive(Debug)]
pub struct StatusView {
    pub run_id: String,
    pub pipeline: String,
    pub pipeline_file: String,
    pub version: u32,
    pub args: StrMap<JsonValue>,
    pub status: PipelineStatus,
    pub current_phase: Option<String>,
    pub progress: Progress,
    pub phases: Vec<PhaseView>,
    pub created_at: String,
    pub updated_at: String,
}


/// The observations handed in for one phase, if any.
pub open spec fn opt_runtime(o: Option<&PhaseRuntime>) -> RuntimeModel {
    match o {
        Some(r) => r@,
        None => RuntimeModel { outputs: Seq::empty(), verify_checks: None, regate_checks: None, artifacts: Seq::empty() },
    }
}

fn clone_results(o: &Option<Vec<GateResult>>) -> (r: Option<Vec<GateResult>>)
    ensures
        opt_results_view(r) == opt_results_view(*o),
{
    match o {
        Some(v) => Some(clone_vec(v)),
        None => None,
    }
}

fn clone_json_opt(o: &Option<JsonValue>) -> (r: Option<JsonValue>)
    ensures
        opt_json_view(r) == opt_json_view(*o),
{
    match o {
        Some(v) => Some(v.deep_clone()),
        None => None,
    }
}

fn clone_invoker_opt(o: &Option<Invoker>) -> (r: Option<Invoker>)
    ensures
        opt_invoker_view(r) == opt_invoker_view(*o),
{
    match o {
        Some(v) => Some(v.deep_clone()),
        None => None,
    }
}

fn facts_of(rt: Option<&PhaseRuntime>, i: usize) -> (r: (bool, Option<String>))
    ensures
        r.0 == facts_at(opt_runtime(rt), i as int).0,
        opt_view(r.1) == facts_at(opt_runtime(rt), i as int).1,
{
    match rt {
        Some(x) => {
            if i < x.artifacts.len() {
                let f = &x.artifacts[i];
                (f.exists, clone_opt(&f.resolved_path))
            } else {
                (false, None)
            }
        },
        None => (false, None),
    }
}

/// The resolved form of artifact position `i` under observations `r`.
pub open spec fn resolved_at(produces: Seq<ArtifactModel>, r: RuntimeModel, i: int) -> ResolvedModel {
    resolved_spec(produces[i], facts_at(r, i).0, facts_at(r, i).1)
}

fn resolve_produces(produces: &Vec<Artifact>, args: &StrMap<JsonValue>, rt: Option<&PhaseRuntime>) -> (r: Option<
    Vec<ResolvedArtifact>,
>)
    ensures
        opt_resolved_view(r) == produces_spec(views(produces@), args@, opt_runtime(rt)),
{
    let ghost ps = views(produces@);
    let ghost rm = opt_runtime(rt);
    let mut out: Vec<ResolvedArtifact> = Vec::new();
    let mut i: usize = 0;
    while i < produces.len()
        invariant
            i <= produces@.len(),
            ps == views(produces@),
            rm == opt_runtime(rt),
            views(out@) == active_positions(ps, args@, i as int).map_values(
                |k: int| resolved_at(ps, rm, k),
            ),
        decreases produces@.len() - i,
    {
        let a = &produces[i];
        let holds = evaluate_when(opt_str(&a.when), args);
        let ghost before = views(out@);
        if holds {
            let (ex, rp) = facts_of(rt, i);
            let ra = resolve_artifact(a, ex, rp);
            out.push(ra);
            proof {
                let prev = active_positions(ps, args@, i as int);
                assert(ps[i as int] == a@);
                assert(ra@ == resolved_at(ps, rm, i as int));
                assert(views(out@) =~= before.push(ra@));
                assert(active_positions(ps, args@, i + 1) == prev.push(i as int));
                assert(views(out@) =~= prev.push(i as int).map_values(|k: int| resolved_at(ps, rm, k)));
            }
        } else {
            proof {
                assert(active_positions(ps, args@, i + 1) == active_positions(ps, args@, i as int));
            }
        }
        i = i + 1;
    }
    if out.len() == 0 {
        None
    } else {
        Some(out)
    }
}

fn opt_bool(o: Option<&bool>) -> (r: Option<bool>)
    ensures
        r == match o {
            Some(b) => Some(*b),
            None => None::<bool>,
        },
{
    match o {
        Some(b) => Some(*b),
        None => None,
    }
}

fn runtime_parts(rt: Option<&PhaseRuntime>) -> (r: (Vec<String>, Option<Vec<GateResult>>, Option<JsonValue>))
    ensures
        views(r.0@) == opt_runtime(rt).outputs,
        opt_results_view(r.1) == opt_runtime(rt).verify_checks,
        opt_json_view(r.2) == opt_runtime(rt).regate_checks,
{
    match rt {
        Some(x) => (clone_vec(&x.outputs), clone_results(&x.verify_checks), clone_json_opt(&x.regate_checks)),
        None => {
            let v: Vec<String> = Vec::new();
            assert(views(v@) =~= Seq::<Seq<char>>::empty());
            (v, None, None)
        },
    }
}

fn meta_view(meta: &PhaseMetadata, state: &RunState, runtime: &StrMap<PhaseRuntime>) -> (r: PhaseView)
    ensures
        r@ == meta_view_spec(meta@, state@, runtime@),
{
    let rt = runtime.get(meta.id.as_str());
    assert(opt_runtime(rt) == runtime_of(runtime@, meta.id@));
    let (outputs, verify_checks, regate_checks) = runtime_parts(rt);
    let attempt = match state.phase_attempts.get(meta.id.as_str()) {
        Some(n) => *n,
        None => 0,
    };
    PhaseView {
        id: meta.id.clone(),
        status: determine_phase_state(meta.id.as_str(), state),
        verify_passed: opt_bool(state.phase_verify_passed.get(meta.id.as_str())),
        regate_passed: opt_bool(state.regate_passed.get(meta.id.as_str())),
        attempt,
        outputs,
        verify_checks,
        regate_checks,
        invoke: clone_invoker_opt(&meta.invoke),
        produces: resolve_produces(&meta.produces, &state.args, rt),
        consumes: clone_vec(&meta.consumes),
    }
}

fn completed_orphan(id: &String, state: &RunState, runtime: &StrMap<PhaseRuntime>) -> (r: PhaseView)
    ensures
        r@ == completed_orphan_spec(id@, state@, runtime@),
{
    let rt = runtime.get(id.as_str());
    assert(opt_runtime(rt) == runtime_of(runtime@, id@));
    let (outputs, verify_checks, regate_checks) = runtime_parts(rt);
    let attempt = match state.phase_attempts.get(id.as_str()) {
        Some(n) => *n,
        None => 0,
    };
    let consumes: Vec<ArtifactRef> = Vec::new();
    assert(views(consumes@) =~= Seq::<ArtifactRefModel>::empty());
    PhaseView {
        id: id.clone(),
        status: PhaseState::Completed,
        verify_passed: opt_bool(state.phase_verify_passed.get(id.as_str())),
        regate_passed: opt_bool(state.regate_passed.get(id.as_str())),
        attempt,
        outputs,
        verify_checks,
        regate_checks,
        invoke: None,
        produces: None,
        consumes,
    }
}

fn skipped_orphan(id: &String) -> (r: PhaseView)
    ensures
        r@ == skipped_orphan_spec(id@),
{
    let consumes: Vec<ArtifactRef> = Vec::new();
    assert(views(consumes@) =~= Seq::<ArtifactRefModel>::empty());
    let outputs: Vec<String> = Vec::new();
    assert(views(outputs@) =~= Seq::<Seq<char>>::empty());
    PhaseView {
        id: id.clone(),
        status: PhaseState::Skipped,
        verify_passed: None,
        regate_passed: None,
        attempt: 0,
        outputs,
        verify_checks: None,
        regate_checks: None,
        invoke: None,
        produces: None,
        consumes,
    }
}

fn metas_contain(metas: &Vec<PhaseMetadata>, id: &str) -> (r: bool)
    ensures
        r == meta_ids(views(metas@)).contains(id@),
{
    let ghost ids = meta_ids(views(metas@));
    let mut i: usize = 0;
    while i < metas.len()
        invariant
            i <= metas@.len(),
            ids == meta_ids(views(metas@)),
            ids.len() == metas@.len(),
            forall|j: int| 0 <= j < i ==> ids[j] != id@,
        decreases metas@.len() - i,
    {
        assert(ids[i as int] == metas@[i as int].id@);
        if crate::text::str_eq(metas[i].id.as_str(), id) {
            return true;
        }
        i = i + 1;
    }
    false
}

/// Views of the completed phases that the pipeline no longer declares.
fn completed_orphans(metas: &Vec<PhaseMetadata>, state: &RunState, runtime: &StrMap<PhaseRuntime>) -> (r: Vec<
    PhaseView,
>)
    ensures
        views(r@) == state@.completed_phases.filter(|id: Seq<char>| !meta_ids(views(metas@)).contains(id)).map_values(
            |id: Seq<char>| completed_orphan_spec(id, state@, runtime@),
        ),
{
    let ghost ids = meta_ids(views(metas@));
    let ghost pred = |id: Seq<char>| !ids.contains(id);
    let ghost f = |id: Seq<char>| completed_orphan_spec(id, state@, runtime@);
    let ghost cs = state@.completed_phases;
    let mut out: Vec<PhaseView> = Vec::new();
    let mut i: usize = 0;
    assert(cs.take(0).filter(pred) =~= Seq::<Seq<char>>::empty()) by {
        reveal_with_fuel(Seq::<Seq<char>>::filter, 1);
    }
    assert(views(out@) =~= Seq::<PhaseViewModel>::empty());
    while i < state.completed_phases.len()
        invariant
            i <= cs.len(),
            cs == state@.completed_phases,
            cs.len() == state.completed_phases@.len(),
            ids == meta_ids(views(metas@)),
            pred == (|id: Seq<char>| !ids.contains(id)),
            f == (|id: Seq<char>| completed_orphan_spec(id, state@, runtime@)),
            views(out@) == cs.take(i as int).filter(pred).map_values(f),
        decreases cs.len() - i,
    {
        let id = &state.completed_phases[i];
        assert(cs[i as int] == id@);
        let ghost before = views(out@);
        let known = metas_contain(metas, id.as_str());
        proof {
            assert(cs.take(i + 1).drop_last() =~= cs.take(i as int));
            assert(cs.take(i + 1).last() == id@);
            reveal_with_fuel(Seq::<Seq<char>>::filter, 1);
        }
        if !known {
            let v = completed_orphan(id, state, runtime);
            assert(f(id@) == v@);
            out.push(v);
            assert(views(out@) =~= before.push(v@));
            assert(cs.take(i + 1).filter(pred) == cs.take(i as int).filter(pred).push(id@));
            assert(views(out@) =~= cs.take(i + 1).filter(pred).map_values(f));
        } else {
            assert(cs.take(i + 1).filter(pred) == cs.take(i as int).filter(pred));
        }
        i = i + 1;
    }
    assert(cs.take(cs.len() as int) =~= cs);
    out
}

/// Views of the skipped phases that the pipeline no longer declares and
/// that are not also completed.
fn skipped_orphans(metas: &Vec<PhaseMetadata>, state: &RunState) -> (r: Vec<PhaseView>)
    ensures
        views(r@) == state@.skipped_phases.filter(
            |id: Seq<char>| !meta_ids(views(metas@)).contains(id) && !state@.completed_phases.contains(id),
        ).map_values(|id: Seq<char>| skipped_orphan_spec(id)),
{
    let ghost ids = meta_ids(views(metas@));
    let ghost done = state@.completed_phases;
    let ghost pred = |id: Seq<char>| !ids.contains(id) && !done.contains(id);
    let ghost f = |id: Seq<char>| skipped_orphan_spec(id);
    let ghost cs = state@.skipped_phases;
    let mut out: Vec<PhaseView> = Vec::new();
    let mut i: usize = 0;
    assert(cs.take(0).filter(pred) =~= Seq::<Seq<char>>::empty()) by {
        reveal_with_fuel(Seq::<Seq<char>>::filter, 1);
    }
    assert(views(out@) =~= Seq::<PhaseViewModel>::empty());
    while i < state.skipped_phases.len()
        invariant
            i <= cs.len(),
            cs == state@.skipped_phases,
            done == state@.completed_phases,
            cs.len() == state.skipped_phases@.len(),
            ids == meta_ids(views(metas@)),
            pred == (|id: Seq<char>| !ids.contains(id) && !done.contains(id)),
            f == (|id: Seq<char>| skipped_orphan_spec(id)),
            views(out@) == cs.take(i as int).filter(pred).map_values(f),
        decreases cs.len() - i,
    {
        let id = &state.skipped_phases[i];
        assert(cs[i as int] == id@);
        let ghost before = views(out@);
        let known = metas_contain(metas, id.as_str());
        let finished = contains_string(&state.completed_phases, id.as_str());
        proof {
            assert(cs.take(i + 1).drop_last() =~= cs.take(i as int));
            assert(cs.take(i + 1).last() == id@);
            reveal_with_fuel(Seq::<Seq<char>>::filter, 1);
        }
        if !known && !finished {
            let v = skipped_orphan(id);
            assert(f(id@) == v@);
            out.push(v);
            assert(views(out@) =~= before.push(v@));
            assert(cs.take(i + 1).filter(pred) == cs.take(i as int).filter(pred).push(id@));
            assert(views(out@) =~= cs.take(i + 1).filter(pred).map_values(f));
        } else {
            assert(cs.take(i + 1).filter(pred) == cs.take(i as int).filter(pred));
        }
        i = i + 1;
    }
    assert(cs.take(cs.len() as int) =~= cs);
    out
}

/// The overall status of a run: completed once its current phase is the
/// completion sentinel.
pub open spec fn pipeline_status_spec(s: RunModel) -> PipelineStatus {
    if s.current_phase == crate::engine::completed_sentinel() {
        PipelineStatus::Completed
    } else {
        PipelineStatus::InProgress
    }
}

proof fn lemma_count_step(vs: Seq<PhaseViewModel>, i: int)
    requires
        0 <= i < vs.len(),
    ensures
        count_status(vs.take(i + 1), PhaseState::Completed) == count_status(vs.take(i), PhaseState::Completed) + if vs[i].status == PhaseState::Completed { 1nat } else { 0nat },
        count_status(vs.take(i + 1), PhaseState::Skipped) == count_status(vs.take(i), PhaseState::Skipped) + if vs[i].status == PhaseState::Skipped { 1nat } else { 0nat },
{
    assert(vs.take(i + 1).drop_last() =~= vs.take(i));
}

/// Builds the enriched status view of a run from its state, the metadata of
/// the phases the pipeline declares, and what the run directory shows of
/// each phase (keyed by phase id).
pub fn build_status_view(state: &RunState, phases_meta: &Vec<PhaseMetadata>, runtime: &StrMap<PhaseRuntime>) -> (r:
    StatusView)
    ensures
        views(r.phases@) == phase_views_spec(views(phases_meta@), state@, runtime@),
        r.progress.total == r.phases@.len(),
        r.progress.completed == count_status(views(r.phases@), PhaseState::Completed),
        r.progress.skipped == count_status(views(r.phases@), PhaseState::Skipped),
        r.progress.remaining == r.progress.total - r.progress.completed - r.progress.skipped,
        r.status == pipeline_status_spec(state@),
        opt_view(r.current_phase) == if r.status == PipelineStatus::Completed {
            None
        } else {
            Some(state@.current_phase)
        },
        r.run_id@ == state@.run_id,
        r.pipeline@ == state@.pipeline,
        r.pipeline_file@ == state@.pipeline_file,
        r.version == state@.version,
        r.args@ == state@.args,
        r.created_at@ == state@.created_at,
        r.updated_at@ == state@.updated_at,
{
    let ghost ms = views(phases_meta@);
    let ghost g = |m: MetaModel| meta_view_spec(m, state@, runtime@);
    let mut phases: Vec<PhaseView> = Vec::new();
    let mut i: usize = 0;
    while i < phases_meta.len()
        invariant
            i <= phases_meta@.len(),
            ms == views(phases_meta@),
            g == (|m: MetaModel| meta_view_spec(m, state@, runtime@)),
            views(phases@) == ms.take(i as int).map_values(g),
        decreases phases_meta@.len() - i,
    {
        let ghost before = views(phases@);
        let v = meta_view(&phases_meta[i], state, runtime);
        phases.push(v);
        assert(views(phases@) =~= ms.take(i + 1).map_values(g)) by {
            assert(views(phases@) =~= before.push(v@));
        }
        i = i + 1;
    }
    assert(ms.take(ms.len() as int) =~= ms);
    let mut done = completed_orphans(phases_meta, state, runtime);
    let mut dropped = skipped_orphans(phases_meta, state);
    let ghost p0 = phases@;
    let ghost d0 = done@;
    phases.append(&mut done);
    let ghost p1 = phases@;
    let ghost e0 = dropped@;
    phases.append(&mut dropped);
    assert(views(phases@) =~= views(p0) + views(d0) + views(e0)) by {
        assert(views(p1) =~= views(p0) + views(d0));
    }
    let ghost vs = views(phases@);
    let mut completed: usize = 0;
    let mut skipped: usize = 0;
    let mut k: usize = 0;
    while k < phases.len()
        invariant
            k <= phases@.len(),
            vs == views(phases@),
            completed == count_status(vs.take(k as int), PhaseState::Completed),
            skipped == count_status(vs.take(k as int), PhaseState::Skipped),
            completed + skipped <= k,
        decreases phases@.len() - k,
    {
        proof {
            lemma_count_step(vs, k as int);
        }
        assert(vs[k as int] == phases@[k as int]@);
        match phases[k].status {
            PhaseState::Completed => {
                completed = completed + 1;
            },
            PhaseState::Skipped => {
                skipped = skipped + 1;
            },
            _ => {},
        }
        k = k + 1;
    }
    assert(vs.take(vs.len() as int) =~= vs);
    let total = phases.len();
    let is_completed = crate::text::str_eq(state.current_phase.as_str(), "COMPLETED");
    proof {
        reveal_strlit("COMPLETED");
    }
    StatusView {
        run_id: state.run_id.clone(),
        pipeline: state.pipeline.clone(),
        pipeline_file: state.pipeline_file.clone(),
        version: state.version,
        args: state.args.deep_clone(),
        status: if is_completed {
            PipelineStatus::Completed
        } else {
            PipelineStatus::InProgress
        },
        current_phase: if is_completed {
            None
        } else {
            Some(state.current_phase.clone())
        },
        progress: Progress { completed, skipped, remaining: total - completed - skipped, total },
        phases,
        created_at: state.created_at.clone(),
        updated_at: state.updated_at.clone(),
    }
}

/// A path is a glob pattern when it holds `*`, `?` or `[`; only such a
/// path is matched against the filesystem, any other is looked up as it is.
pub fn is_glob_pattern(path: &str) -> (r: bool)
    ensures
        r == (exists|i: int| 0 <= i < path@.len() && (path@[i] == '*' || path@[i] == '?' || path@[i] == '[')),
{
    let a = has_char(path, '*');
    let b = has_char(path, '?');
    let c = has_char(path, '[');
    a || b || c
}

/// A file matched by an artifact's glob pattern, with its modification time
/// (seconds and nanoseconds since the epoch).
#[derive(Debug)]
pub struct GlobMatch {
    pub modified_secs: i64,
    pub modified_nanos: u32,
    pub path: String,
}

/// `t1` is strictly earlier than `t2`.
pub open spec fn time_less(t1: (i64, u32), t2: (i64, u32)) -> bool {
    t1.0 < t2.0 || (t1.0 == t2.0 && t1.1 < t2.1)
}

/// The finished non-empty `/`-separated segments of `s[..i]` and the segment
/// still being read.
pub open spec fn segments_upto(s: Seq<char>, i: int) -> (Seq<Seq<char>>, Seq<char>)
    decreases i,
{
    if i <= 0 {
        (Seq::empty(), Seq::empty())
    } else {
        let prev = segments_upto(s, i - 1);
        if s[i - 1] == '/' {
            if prev.1.len() == 0 {
                prev
            } else {
                (prev.0.push(prev.1), Seq::empty())
            }
        } else {
            (prev.0, prev.1.push(s[i - 1]))
        }
    }
}

/// The non-empty `/`-separated components of a path.
pub open spec fn path_components(s: Seq<char>) -> Seq<Seq<char>> {
    let r = segments_upto(s, s.len() as int);
    if r.1.len() == 0 {
        r.0
    } else {
        r.0.push(r.1)
    }
}

/// Lexicographic order of character sequences from position `i` on.
pub open spec fn chars_less_from(a: Seq<char>, b: Seq<char>, i: int) -> bool
    decreases a.len() - i,
{
    if i < 0 || i >= a.len() {
        0 <= i < b.len()
    } else if i >= b.len() {
        false
    } else if a[i] != b[i] {
        a[i] < b[i]
    } else {
        chars_less_from(a, b, i + 1)
    }
}

/// Lexicographic order of component sequences from position `i` on.
pub open spec fn comps_less_from(a: Seq<Seq<char>>, b: Seq<Seq<char>>, i: int) -> bool
    decreases a.len() - i,
{
    if i < 0 || i >= a.len() {
        0 <= i < b.len()
    } else if i >= b.len() {
        false
    } else if a[i] != b[i] {
        chars_less_from(a[i], b[i], 0)
    } else {
        comps_less_from(a, b, i + 1)
    }
}

/// Path order: an absolute path sorts before a relative one; otherwise the
/// components are compared in order.
pub open spec fn path_less(p: Seq<char>, q: Seq<char>) -> bool {
    let rp = has_prefix(p, "/"@);
    let rq = has_prefix(q, "/"@);
    if rp != rq {
        rp
    } else {
        comps_less_from(path_components(p), path_components(q), 0)
    }
}

/// The time stamp of a glob match.
pub open spec fn match_time(m: GlobMatch) -> (i64, u32) {
    (m.modified_secs, m.modified_nanos)
}

/// `m` was modified no earlier than the phase start, when one is known.
pub open spec fn match_in_window(m: GlobMatch, start: Option<(i64, u32)>) -> bool {
    match start {
        None => true,
        Some(t) => !time_less(match_time(m), t),
    }
}

/// `a` is preferred to `b`: newer, or equally new with the smaller path.
pub open spec fn ranks_before(a: GlobMatch, b: GlobMatch) -> bool {
    time_less(match_time(b), match_time(a)) || (match_time(a) == match_time(b) && path_less(a.path@, b.path@))
}

/// The lexicographic order of character sequences is transitive.
pub proof fn lemma_chars_less_trans(a: Seq<char>, b: Seq<char>, c: Seq<char>, i: int)
    requires
        0 <= i,
        chars_less_from(a, b, i),
        chars_less_from(b, c, i),
    ensures
        chars_less_from(a, c, i),
    decreases a.len() - i,
{
    if i < a.len() && i < b.len() && i < c.len() && a[i] == b[i] && b[i] == c[i] {
        lemma_chars_less_trans(a, b, c, i + 1);
    }
}

/// Between `a < c` any third sequence `b` falls on one side or the other:
/// `a < b` or `b < c`.
pub proof fn lemma_chars_less_split(a: Seq<char>, b: Seq<char>, c: Seq<char>, i: int)
    requires
        0 <= i,
        chars_less_from(a, c, i),
    ensures
        chars_less_from(a, b, i) || chars_less_from(b, c, i),
    decreases a.len() - i,
{
    if i < a.len() && i < b.len() && i < c.len() {
        if a[i] == b[i] && b[i] == c[i] {
            lemma_chars_less_split(a, b, c, i + 1);
        }
    }
}

proof fn lemma_comps_less_trans(a: Seq<Seq<char>>, b: Seq<Seq<char>>, c: Seq<Seq<char>>, i: int)
    requires
        0 <= i,
        comps_less_from(a, b, i),
        comps_less_from(b, c, i),
    ensures
        comps_less_from(a, c, i),
    decreases a.len() - i,
{
    if i < a.len() && i < b.len() && i < c.len() {
        if a[i] == b[i] && b[i] == c[i] {
            lemma_comps_less_trans(a, b, c, i + 1);
        } else if a[i] != b[i] && b[i] != c[i] {
            lemma_chars_less_trans(a[i], b[i], c[i], 0);
            lemma_chars_irrefl(a[i], 0);
        }
    }
}

/// No character sequence is before itself.
pub proof fn lemma_chars_irrefl(a: Seq<char>, i: int)
    requires
        0 <= i,
    ensures
        !chars_less_from(a, a, i),
    decreases a.len() - i,
{
    if i < a.len() {
        lemma_chars_irrefl(a, i + 1);
    }
}

proof fn lemma_rank_irrefl(a: GlobMatch)
    ensures
        !ranks_before(a, a),
{
    lemma_comps_irrefl(path_components(a.path@), 0);
}

proof fn lemma_comps_irrefl(a: Seq<Seq<char>>, i: int)
    requires
        0 <= i,
    ensures
        !comps_less_from(a, a, i),
    decreases a.len() - i,
{
    if i < a.len() {
        lemma_comps_irrefl(a, i + 1);
    }
}

proof fn lemma_ranks_trans(a: GlobMatch, b: GlobMatch, c: GlobMatch)
    requires
        ranks_before(a, b),
        ranks_before(b, c),
    ensures
        ranks_before(a, c),
{
    if match_time(a) == match_time(b) && match_time(b) == match_time(c) {
        let (pa, pb, pc) = (a.path@, b.path@, c.path@);
        if has_prefix(pa, "/"@) == has_prefix(pb, "/"@) && has_prefix(pb, "/"@) == has_prefix(pc, "/"@) {
            lemma_comps_less_trans(path_components(pa), path_components(pb), path_components(pc), 0);
        }
    }
}

fn path_components_exec(s: &str) -> (r: Vec<String>)
    ensures
        views(r@) == path_components(s@),
{
    let n = s.unicode_len();
    let mut done: Vec<String> = Vec::new();
    let mut cur = String::new();
    let mut i: usize = 0;
    proof {
        assert(views(done@) =~= Seq::<Seq<char>>::empty());
    }
    while i < n
        invariant
            n == s@.len(),
            i <= n,
            views(done@) == segments_upto(s@, i as int).0,
            cur@ == segments_upto(s@, i as int).1,
        decreases n - i,
    {
        let c = s.get_char(i);
        let ghost before = views(done@);
        if c == '/' {
            if cur.unicode_len() != 0 {
                let seg = cur;
                done.push(seg);
                cur = String::new();
                assert(views(done@) =~= before.push(segments_upto(s@, i as int).1));
            }
        } else {
            crate::text::push_char_of(&mut cur, s, i);
        }
        i = i + 1;
    }
    if cur.unicode_len() != 0 {
        let ghost before = views(done@);
        done.push(cur);
        assert(views(done@) =~= before.push(segments_upto(s@, n as int).1));
    }
    done
}

/// Decides the lexicographic order of two strings.
pub fn chars_less_exec(a: &str, b: &str) -> (r: bool)
    ensures
        r == chars_less_from(a@, b@, 0),
{
    let n = a.unicode_len();
    let m = b.unicode_len();
    let mut i: usize = 0;
    while i < n && i < m
        invariant
            n == a@.len(),
            m == b@.len(),
            i <= n,
            i <= m,
            chars_less_from(a@, b@, 0) == chars_less_from(a@, b@, i as int),
        decreases n - i,
    {
        let x = a.get_char(i);
        let y = b.get_char(i);
        if x != y {
            return x < y;
        }
        i = i + 1;
    }
    i < m
}

fn comps_less_exec(a: &Vec<String>, b: &Vec<String>) -> (r: bool)
    ensures
        r == comps_less_from(views(a@), views(b@), 0),
{
    let ghost va = views(a@);
    let ghost vb = views(b@);
    let mut i: usize = 0;
    while i < a.len() && i < b.len()
        invariant
            va == views(a@),
            vb == views(b@),
            i <= a@.len(),
            i <= b@.len(),
            comps_less_from(va, vb, 0) == comps_less_from(va, vb, i as int),
        decreases a@.len() - i,
    {
        assert(va[i as int] == a@[i as int]@ && vb[i as int] == b@[i as int]@);
        if !crate::text::str_eq(a[i].as_str(), b[i].as_str()) {
            return chars_less_exec(a[i].as_str(), b[i].as_str());
        }
        i = i + 1;
    }
    i < b.len()
}

fn path_less_exec(p: &str, q: &str) -> (r: bool)
    ensures
        r == path_less(p@, q@),
{
    let rp = starts_with(p, "/");
    let rq = starts_with(q, "/");
    if rp != rq {
        rp
    } else {
        comps_less_exec(&path_components_exec(p), &path_components_exec(q))
    }
}

fn ranks_before_exec(a: &GlobMatch, b: &GlobMatch) -> (r: bool)
    ensures
        r == ranks_before(*a, *b),
{
    if b.modified_secs < a.modified_secs || (b.modified_secs == a.modified_secs && b.modified_nanos < a.modified_nanos) {
        true
    } else if a.modified_secs == b.modified_secs && a.modified_nanos == b.modified_nanos {
        path_less_exec(a.path.as_str(), b.path.as_str())
    } else {
        false
    }
}

/// Picks the file a glob artifact resolves to: among the matches modified no
/// earlier than the phase start (when known), the newest, and on equal
/// times the one with the smallest path. `None` when no match qualifies.
pub fn pick_newest_match(matches: &Vec<GlobMatch>, start: Option<(i64, u32)>) -> (r: Option<String>)
    ensures
        r is None <==> forall|i: int| 0 <= i < matches@.len() ==> !match_in_window(#[trigger] matches@[i], start),
        r matches Some(p) ==> exists|i: int|
            0 <= i < matches@.len() && #[trigger] match_in_window(matches@[i], start) && matches@[i].path@ == p@
                && forall|j: int|
                0 <= j < matches@.len() && match_in_window(matches@[j], start) ==> !ranks_before(
                    #[trigger] matches@[j],
                    matches@[i],
                ),
{
    let mut best: Option<usize> = None;
    let mut i: usize = 0;
    while i < matches.len()
        invariant
            i <= matches@.len(),
            best is None ==> forall|j: int| 0 <= j < i ==> !match_in_window(#[trigger] matches@[j], start),
            best matches Some(b) ==> b < i && match_in_window(matches@[b as int], start) && forall|j: int|
                0 <= j < i && match_in_window(matches@[j], start) ==> !ranks_before(
                    #[trigger] matches@[j],
                    matches@[b as int],
                ),
        decreases matches@.len() - i,
    {
        let m = &matches[i];
        let in_window = match start {
            None => true,
            Some(t) => !(m.modified_secs < t.0 || (m.modified_secs == t.0 && m.modified_nanos < t.1)),
        };
        if in_window {
            match best {
                None => {
                    proof {
                        lemma_rank_irrefl(matches@[i as int]);
                    }
                    best = Some(i);
                },
                Some(b) => {
                    if ranks_before_exec(m, &matches[b]) {
                        proof {
                            assert forall|j: int|
                                0 <= j < i + 1 && match_in_window(matches@[j], start) implies !ranks_before(
                                #[trigger] matches@[j],
                                matches@[i as int],
                            ) by {
                                if j < i && ranks_before(matches@[j], matches@[i as int]) {
                                    lemma_ranks_trans(matches@[j], matches@[i as int], matches@[b as int]);
                                }
                                if j == i {
                                    lemma_rank_irrefl(matches@[j]);
                                }
                            }
                        }
                        best = Some(i);
                    }
                },
            }
        }
        i = i + 1;
    }
    match best {
        None => None,
        Some(b) => Some(matches[b].path.clone()),
    }
}
} // verus!
