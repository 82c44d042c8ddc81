//! Decisions of the `belt-agent` command line: which pipeline file to use,
//! when `step` refuses to advance and why, and what `regate` checks.
use vstd::prelude::*;
use crate::error::{BeltError, ErrorModel};
use crate::model::{views, ExpandedModel, ExpandedPhase, GateCheck, GateModel, RunModel, RunState};
use crate::strmap::StrMap;
use crate::text::{owned, str_eq, trim_exec, trim_ws};
use crate::uri::{render_spec, BeltUri};

verus! {

/// The directory that holds the runs, relative to the working directory.
pub fn belt_dir() -> (r: String)
    ensures
        r@ == ".belt"@,
{
    String::from_str(".belt")
}

/// Where the pipeline file comes from.
#[derive(Debug)]
pub enum PipelineSource {
    /// The `pipeline` entry of this config file.
    Config(String),
    /// This pipeline file.
    File(String),
}

/// Model of a [`PipelineSource`].
pub enum PipelineSourceModel {
    Config(Seq<char>),
    File(Seq<char>),
}

impl View for PipelineSource {
    type V = PipelineSourceModel;

    open spec fn view(&self) -> PipelineSourceModel {
        match self {
            PipelineSource::Config(p) => PipelineSourceModel::Config(p@),
            PipelineSource::File(p) => PipelineSourceModel::File(p@),
        }
    }
}

/// The message of giving both a config file and a pipeline file.
pub open spec fn conflicting_msg() -> Seq<char> {
    "conflicting arguments: --config and positional <file> are mutually exclusive"@
}

/// The message of giving neither a config file nor a pipeline file.
pub open spec fn missing_msg() -> Seq<char> {
    "missing argument: provide either --config <path> or a pipeline file"@
}

/// Chooses the pipeline source from `--config` and the positional file:
/// exactly one of them must be given.
pub fn resolve_pipeline(config: Option<&str>, file: Option<&str>) -> (r: Result<PipelineSource, String>)
    ensures
        match (config, file) {
            (Some(_), Some(_)) => r matches Err(m) && m@ == conflicting_msg(),
            (Some(c), None) => r matches Ok(s) && s@ == PipelineSourceModel::Config(c@),
            (None, Some(f)) => r matches Ok(s) && s@ == PipelineSourceModel::File(f@),
            (None, None) => r matches Err(m) && m@ == missing_msg(),
        },
{
    match (config, file) {
        (Some(_), Some(_)) => Err(
            String::from_str("conflicting arguments: --config and positional <file> are mutually exclusive"),
        ),
        (Some(c), None) => Ok(PipelineSource::Config(String::from_str(c))),
        (None, Some(f)) => Ok(PipelineSource::File(String::from_str(f))),
        (None, None) => Err(String::from_str("missing argument: provide either --config <path> or a pipeline file")),
    }
}

/// The run a command works on: the explicit `--run`, else the latest run.
pub fn resolve_run(run: Option<&str>, latest: Result<String, BeltError>) -> (r: Result<String, BeltError>)
    ensures
        match run {
            Some(id) => r matches Ok(x) && x@ == id@,
            None => match latest {
                Ok(l) => r matches Ok(x) && x@ == l@,
                Err(e) => r matches Err(e2) && e2@ == e@,
            },
        },
{
    match run {
        Some(id) => Ok(String::from_str(id)),
        None => latest,
    }
}

/// A phase asks for confirmation (it has `confirm:` or `validate:`) and the
/// caller did not give it.
pub fn needs_confirmation(phase: &ExpandedPhase, confirm: bool) -> (r: bool)
    ensures
        r == ((phase@.confirm || phase@.validate.len() > 0) && !confirm),
{
    (phase.confirm || phase.validate.len() > 0) && !confirm
}

/// Why `step` did not advance.
#[derive(Debug)]
pub enum StepRefusal {
    ConfirmationRequired { phase: String },
    VerifyRequired { phase: String },
    MaxRetriesExceeded { phase: String, attempts: u32, max_retries: u32 },
    RegateNotExecuted { phase: String, targets: Vec<String> },
    RegateFailed { phase: String, targets: Vec<String> },
}

/// The reason code a refusal is reported with.
pub open spec fn reason_spec(r: StepRefusal) -> Seq<char> {
    match r {
        StepRefusal::ConfirmationRequired { .. } => "confirmation_required"@,
        StepRefusal::VerifyRequired { .. } => "verify_required"@,
        StepRefusal::MaxRetriesExceeded { .. } => "max_retries_exceeded"@,
        StepRefusal::RegateNotExecuted { .. } => "regate_not_executed"@,
        StepRefusal::RegateFailed { .. } => "regate_failed"@,
    }
}

impl StepRefusal {
    /// The reason code of this refusal.
    pub fn reason(&self) -> (r: &'static str)
        ensures
            r@ == reason_spec(*self),
    {
        match self {
            StepRefusal::ConfirmationRequired { .. } => "confirmation_required",
            StepRefusal::VerifyRequired { .. } => "verify_required",
            StepRefusal::MaxRetriesExceeded { .. } => "max_retries_exceeded",
            StepRefusal::RegateNotExecuted { .. } => "regate_not_executed",
            StepRefusal::RegateFailed { .. } => "regate_failed",
        }
    }
}

/// The refusal a `step` error stands for; other errors are passed on.
pub fn step_refusal(e: BeltError) -> (r: Result<StepRefusal, BeltError>)
    ensures
        match e@ {
            ErrorModel::VerifyRequired { phase_id } => r matches Ok(StepRefusal::VerifyRequired { phase }) && phase@
                == phase_id,
            ErrorModel::MaxRetriesExceeded { phase_id, attempts, max_retries } => r matches Ok(
                StepRefusal::MaxRetriesExceeded { phase, attempts: a, max_retries: m },
            ) && phase@ == phase_id && a == attempts && m == max_retries,
            ErrorModel::RegateRequired { phase_id, targets } => r matches Ok(
                StepRefusal::RegateNotExecuted { phase, targets: t },
            ) && phase@ == phase_id && views(t@) == targets,
            ErrorModel::RegateFailed { phase_id, targets } => r matches Ok(StepRefusal::RegateFailed { phase, targets: t })
                && phase@ == phase_id && views(t@) == targets,
            _ => r matches Err(e2) && e2@ == e@,
        },
{
    match e {
        BeltError::VerifyRequired { phase_id } => Ok(StepRefusal::VerifyRequired { phase: phase_id }),
        BeltError::MaxRetriesExceeded { phase_id, attempts, max_retries } => Ok(
            StepRefusal::MaxRetriesExceeded { phase: phase_id, attempts, max_retries },
        ),
        BeltError::RegateRequired { phase_id, targets } => Ok(
            StepRefusal::RegateNotExecuted { phase: phase_id, targets },
        ),
        BeltError::RegateFailed { phase_id, targets } => Ok(StepRefusal::RegateFailed { phase: phase_id, targets }),
        other => Err(other),
    }
}

/// Whether `regate` may run for the current phase of a run.
#[derive(Debug, Clone, Copy, PartialEq, Eq, Structural)]
pub enum RegatePrecheck {
    /// The run has finished.
    Completed,
    /// The current phase has not passed verify.
    VerifyNotPassed,
    /// Regate may run.
    Proceed,
}

/// Decides whether `regate` may run: not on a finished run, and only once
/// the current phase has passed verify.
pub fn regate_precheck(state: &RunState) -> (r: RegatePrecheck)
    ensures
        r == if state@.current_phase == crate::engine::completed_sentinel() {
            RegatePrecheck::Completed
        } else if !crate::engine::verified(state@, state@.current_phase) {
            RegatePrecheck::VerifyNotPassed
        } else {
            RegatePrecheck::Proceed
        },
{
    proof {
        reveal_strlit("COMPLETED");
    }
    if str_eq(state.current_phase.as_str(), "COMPLETED") {
        return RegatePrecheck::Completed;
    }
    let ok = match state.phase_verify_passed.get(state.current_phase.as_str()) {
        Some(b) => *b,
        None => false,
    };
    if !ok {
        RegatePrecheck::VerifyNotPassed
    } else {
        RegatePrecheck::Proceed
    }
}

/// One regate target: skipped phases pass without checks; the others are
/// checked with their gate.
#[derive(Debug)]
pub enum RegateTarget {
    Skipped { id: String },
    Check { id: String, gate: Vec<GateCheck> },
}

/// Model of a [`RegateTarget`].
pub enum RegateTargetModel {
    Skipped(Seq<char>),
    Check(Seq<char>, Seq<GateModel>),
}

impl View for RegateTarget {
    type V = RegateTargetModel;

    open spec fn view(&self) -> RegateTargetModel {
        match self {
            RegateTarget::Skipped { id } => RegateTargetModel::Skipped(id@),
            RegateTarget::Check { id, gate } => RegateTargetModel::Check(id@, views(gate@)),
        }
    }
}

/// The message of a regate target that names no phase.
pub open spec fn target_missing_msg(id: Seq<char>) -> Seq<char> {
    "regate target '"@ + id + "' not found in pipeline"@
}

/// The plan for the first `n` regate targets of the current phase, or the
/// message of the first target that names no phase.
pub open spec fn regate_plan_spec(
    targets: Seq<Seq<char>>,
    s: RunModel,
    phases: Seq<ExpandedModel>,
    n: int,
) -> Result<Seq<RegateTargetModel>, Seq<char>>
    decreases n,
{
    if n <= 0 {
        Ok(Seq::empty())
    } else {
        match regate_plan_spec(targets, s, phases, n - 1) {
            Err(m) => Err(m),
            Ok(acc) => {
                let t = targets[n - 1];
                if s.skipped_phases.contains(t) {
                    Ok(acc.push(RegateTargetModel::Skipped(t)))
                } else {
                    match crate::engine::find_phase(phases, t, 0) {
                        Some(k) => Ok(acc.push(RegateTargetModel::Check(t, phases[k].gate))),
                        None => Err(target_missing_msg(t)),
                    }
                }
            },
        }
    }
}

proof fn lemma_plan_err_sticks(targets: Seq<Seq<char>>, s: RunModel, phases: Seq<ExpandedModel>, n: int, m: int)
    requires
        0 <= n <= m,
        regate_plan_spec(targets, s, phases, n) is Err,
    ensures
        regate_plan_spec(targets, s, phases, m) == regate_plan_spec(targets, s, phases, n),
    decreases m - n,
{
    if m > n {
        lemma_plan_err_sticks(targets, s, phases, n, m - 1);
    }
}

fn contains_string(v: &Vec<String>, x: &str) -> (r: bool)
    ensures
        r == views(v@).contains(x@),
{
    let mut i: usize = 0;
    while i < v.len()
        invariant
            i <= v@.len(),
            forall|j: int| 0 <= j < i ==> v@[j]@ != x@,
        decreases v@.len() - i,
    {
        if str_eq(v[i].as_str(), x) {
            assert(views(v@)[i as int] == x@);
            return true;
        }
        i = i + 1;
    }
    proof {
        if views(v@).contains(x@) {
            let j = choose|j: int| 0 <= j < views(v@).len() && views(v@)[j] == x@;
            assert(v@[j]@ == x@);
        }
    }
    false
}

/// The verdict of a regate from the verdicts of its targets, in plan order
/// (a skipped target counts as passed): `true` when every target passed.
pub fn regate_verdict(passed: &Vec<bool>) -> (r: bool)
    ensures
        r == (forall|i: int| 0 <= i < passed@.len() ==> passed@[i]),
{
    let mut all: bool = true;
    let mut i: usize = 0;
    while i < passed.len()
        invariant
            i <= passed@.len(),
            all == (forall|j: int| 0 <= j < i ==> passed@[j]),
        decreases passed@.len() - i,
    {
        all = all && passed[i];
        i = i + 1;
    }
    all
}

/// The regate plan of `phase`, one entry per target: a target the run
/// skipped passes as it is; any other target is checked with its own gate.
/// An unknown target is an error.
pub fn regate_targets(phase: &ExpandedPhase, state: &RunState, all_phases: &Vec<ExpandedPhase>) -> (r: Result<
    Vec<RegateTarget>,
    String,
>)
    ensures
        match regate_plan_spec(phase@.regate, state@, views(all_phases@), phase@.regate.len() as int) {
            Ok(plan) => r matches Ok(v) && views(v@) == plan,
            Err(m) => r matches Err(m2) && m2@ == m,
        },
{
    let ghost ts = phase@.regate;
    let mut out: Vec<RegateTarget> = Vec::new();
    let mut i: usize = 0;
    assert(views(out@) =~= Seq::<RegateTargetModel>::empty());
    while i < phase.regate.len()
        invariant
            i <= phase.regate@.len(),
            ts == phase@.regate,
            ts.len() == phase.regate@.len(),
            regate_plan_spec(ts, state@, views(all_phases@), i as int) == Ok::<Seq<RegateTargetModel>, Seq<char>>(
                views(out@),
            ),
        decreases phase.regate@.len() - i,
    {
        let t = &phase.regate[i];
        assert(ts[i as int] == t@);
        let ghost before = views(out@);
        if contains_string(&state.skipped_phases, t.as_str()) {
            out.push(RegateTarget::Skipped { id: t.clone() });
            assert(views(out@) =~= before.push(RegateTargetModel::Skipped(t@)));
        } else {
            match crate::engine::find_phase_exec(all_phases, t.as_str()) {
                Some(k) => {
                    proof {
                        crate::engine::lemma_find_phase_bounds(views(all_phases@), t@, 0);
                    }
                    let g = crate::model::clone_vec(&all_phases[k].gate);
                    out.push(RegateTarget::Check { id: t.clone(), gate: g });
                    assert(views(all_phases@)[k as int] == all_phases@[k as int]@);
                    assert(views(out@) =~= before.push(
                        RegateTargetModel::Check(t@, views(all_phases@)[k as int].gate),
                    ));
                },
                None => {
                    let mut m = String::from_str("regate target '");
                    m.append(t.as_str());
                    m.append("' not found in pipeline");
                    proof {
                        lemma_plan_err_sticks(ts, state@, views(all_phases@), i + 1, ts.len() as int);
                    }
                    return Err(m);
                },
            }
        }
        i = i + 1;
    }
    Ok(out)
}


/// The branch that `git rev-parse --abbrev-ref HEAD` names, given whether
/// it succeeded and its output when that output is UTF-8: none when it
/// failed, printed nothing but white space, or printed `HEAD` (a detached
/// head).
pub fn branch_from_rev_parse(success: bool, stdout: Option<&str>) -> (r: Option<String>)
    ensures
        match r {
            Some(b) => success && (stdout matches Some(out) && b@ == trim_ws(out@) && b@.len() > 0 && b@ != "HEAD"@),
            None => !success || stdout is None || ({
                let t = trim_ws(stdout->Some_0@);
                t.len() == 0 || t == "HEAD"@
            }),
        },
{
    if !success {
        return None;
    }
    match stdout {
        None => None,
        Some(out) => {
            let name = trim_exec(out);
            if name.unicode_len() == 0 || str_eq(name.as_str(), "HEAD") {
                None
            } else {
                Some(name)
            }
        },
    }
}

/// The path that `init` resolved for an external URI, looked up by the
/// URI's text in the run's resolved `consumes` map.
pub fn external_resolved_path(uri: &BeltUri, resolved: &StrMap<String>) -> (r: Option<String>)
    ensures
        match r {
            Some(p) => resolved@.contains_key(render_spec(uri@)) && resolved@[render_spec(uri@)] == p@,
            None => !resolved@.contains_key(render_spec(uri@)),
        },
{
    let key = uri.to_uri_string();
    match resolved.get(key.as_str()) {
        Some(p) => Some(owned(p.as_str())),
        None => None,
    }
}

} // verus!
