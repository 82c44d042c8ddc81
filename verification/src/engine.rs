//! The run state machine: `when:` evaluation, run start, verify verdicts,
//! regate results and phase stepping.
//!
//! Every function here computes on values; reading and writing
//! `state.json` and creating directories is left to the caller.
use vstd::prelude::*;
use crate::error::{BeltError, ErrorModel};
use crate::json::{JsonModel, JsonValue};
use crate::model::{views, DeepClone, ExpandedModel, ExpandedPhase, RunModel, RunState, RunStatus};
use crate::strmap::StrMap;
use crate::text::{trim_start_seq, trim_start_str_exec};

verus! {

/// The sentinel stored in `current_phase` once a run has finished.
pub open spec fn completed_sentinel() -> Seq<char> {
    "COMPLETED"@
}

/// Truthiness of an argument value in `when:` expressions.
pub open spec fn truthy(v: JsonModel) -> bool {
    match v {
        JsonModel::Bool(b) => b,
        JsonModel::Null => false,
        _ => true,
    }
}

/// Value of a `when:` expression against the run arguments.
///
/// `None` holds; `"args.x"` holds when `x` is present and truthy; a leading
/// `!` negates; the literals `true` / `false` stand for themselves.
pub open spec fn when_holds(when: Option<Seq<char>>, args: Map<Seq<char>, JsonModel>) -> bool {
    match when {
        None => true,
        Some(e) => {
            let negated = e.len() > 0 && e[0] == '!';
            let body = if negated { e.skip(1) } else { e };
            let val = if body == "true"@ {
                true
            } else if body == "false"@ {
                false
            } else {
                let name = trim_start_seq(body, "args."@);
                args.contains_key(name) && truthy(args[name])
            };
            if negated { !val } else { val }
        },
    }
}

/// Index of the first phase at or after `i` whose `when:` holds.
pub open spec fn next_active(phases: Seq<ExpandedModel>, args: Map<Seq<char>, JsonModel>, i: int) -> Option<int>
    decreases phases.len() - i,
{
    if i < 0 || i >= phases.len() {
        None
    } else if when_holds(phases[i].when, args) {
        Some(i)
    } else {
        next_active(phases, args, i + 1)
    }
}

/// Index of the first phase at or after `i` with the id `id`.
pub open spec fn find_phase(phases: Seq<ExpandedModel>, id: Seq<char>, i: int) -> Option<int>
    decreases phases.len() - i,
{
    if i < 0 || i >= phases.len() {
        None
    } else if phases[i].id == id {
        Some(i)
    } else {
        find_phase(phases, id, i + 1)
    }
}

/// The ids of `phases[from..to]`.
pub open spec fn ids_between(phases: Seq<ExpandedModel>, from: int, to: int) -> Seq<Seq<char>> {
    phases.subrange(from, to).map_values(|p: ExpandedModel| p.id)
}

/// The attempts recorded for phase `id` (0 when none).
pub open spec fn attempts_of(s: RunModel, id: Seq<char>) -> u32 {
    if s.phase_attempts.contains_key(id) {
        s.phase_attempts[id]
    } else {
        0
    }
}

/// The verify verdict of phase `id` passed.
pub open spec fn verified(s: RunModel, id: Seq<char>) -> bool {
    s.phase_verify_passed.contains_key(id) && s.phase_verify_passed[id]
}

/// The state after entering phase `p` at time `started`.
pub open spec fn enter_phase(s: RunModel, p: ExpandedModel, started: Seq<char>) -> RunModel {
    RunModel {
        current_phase: p.id,
        phase_verify_passed: if p.gate.len() == 0 {
            s.phase_verify_passed.insert(p.id, true)
        } else {
            s.phase_verify_passed
        },
        phase_start_times: if s.phase_start_times.contains_key(p.id) {
            s.phase_start_times
        } else {
            s.phase_start_times.insert(p.id, started)
        },
        ..s
    }
}

/// What `step` does to a run: the guards in order (verify, regate, retry
/// limit), then the move to the next active phase or to completion.
pub open spec fn step_spec(s: RunModel, phases: Seq<ExpandedModel>, now: Seq<char>, started: Seq<char>) -> Result<
    (RunModel, Option<Seq<char>>),
    ErrorModel,
> {
    let cur = s.current_phase;
    match find_phase(phases, cur, 0) {
        None => Err(
            ErrorModel::State { message: "current phase '"@ + cur + "' not found"@ },
        ),
        Some(idx) => {
            let p = phases[idx];
            if !verified(s, cur) {
                Err(ErrorModel::VerifyRequired { phase_id: cur })
            } else if p.regate.len() > 0 && !s.regate_passed.contains_key(cur) {
                Err(ErrorModel::RegateRequired { phase_id: cur, targets: p.regate })
            } else if p.regate.len() > 0 && !s.regate_passed[cur] {
                Err(ErrorModel::RegateFailed { phase_id: cur, targets: p.regate })
            } else if p.max_retries > 0 && attempts_of(s, cur) > p.max_retries {
                Err(
                    ErrorModel::MaxRetriesExceeded {
                        phase_id: cur,
                        attempts: attempts_of(s, cur),
                        max_retries: p.max_retries,
                    },
                )
            } else {
                let done = RunModel { completed_phases: s.completed_phases.push(cur), updated_at: now, ..s };
                match next_active(phases, s.args, idx + 1) {
                    Some(j) => {
                        let s2 = RunModel {
                            skipped_phases: done.skipped_phases + ids_between(phases, idx + 1, j),
                            ..done
                        };
                        Ok((enter_phase(s2, phases[j], started), Some(phases[j].id)))
                    },
                    None => {
                        let s2 = RunModel {
                            skipped_phases: done.skipped_phases + ids_between(
                                phases,
                                idx + 1,
                                phases.len() as int,
                            ),
                            current_phase: completed_sentinel(),
                            status: RunStatus::Completed,
                            ..done
                        };
                        Ok((s2, None))
                    },
                }
            }
        },
    }
}

/// What a verify verdict does to a run.
pub open spec fn verdict_spec(s: RunModel, passed: bool, now: Seq<char>) -> RunModel {
    let cur = s.current_phase;
    RunModel {
        phase_attempts: s.phase_attempts.insert(cur, (attempts_of(s, cur) + 1) as u32),
        phase_verify_passed: s.phase_verify_passed.insert(cur, passed),
        regate_passed: s.regate_passed.remove(cur),
        updated_at: now,
        ..s
    }
}

/// What a regate result does to a run.
pub open spec fn regate_spec(s: RunModel, all_passed: bool, now: Seq<char>) -> RunModel {
    RunModel { regate_passed: s.regate_passed.insert(s.current_phase, all_passed), updated_at: now, ..s }
}

/// `u` is a run id as `uuid` renders a version 7 UUID: 36 characters,
/// hyphens at positions 8, 13, 18 and 23, lower-case hexadecimal digits
/// elsewhere, the version digit `7` at position 14 and the variant digit
/// (`8`, `9`, `a` or `b`) at position 19.
pub open spec fn uuid_v7_shaped(u: Seq<char>) -> bool {
    &&& u.len() == 36
    &&& forall|i: int|
        0 <= i < 36 ==> if i == 8 || i == 13 || i == 18 || i == 23 {
            u[i] == '-'
        } else {
            ('0' <= u[i] <= '9') || ('a' <= u[i] <= 'f')
        }
    &&& u[14] == '7'
    &&& (u[19] == '8' || u[19] == '9' || u[19] == 'a' || u[19] == 'b')
}

/// A fresh, time-ordered (version 7) run id.
/// Trusted: calls `uuid::Uuid::now_v7` and renders it with `to_string`;
/// `uuid` sets the version and variant bits of a v7 id and renders it in
/// the hyphenated lower-case form. The value itself depends on the clock
/// and on randomness and is not stated.
#[verifier::external_body]
fn new_run_id() -> (r: String)
    ensures
        uuid_v7_shaped(r@),
{
    uuid::Uuid::now_v7().to_string()
}

/// The model of the state `init` creates for the first active phase `p`.
pub open spec fn begin_spec(
    run_id: Seq<char>,
    pipeline: Seq<char>,
    version: u32,
    pipeline_file: Seq<char>,
    p: ExpandedModel,
    args: Map<Seq<char>, JsonModel>,
    branch: Option<Seq<char>>,
    now: Seq<char>,
    started: Seq<char>,
) -> RunModel {
    RunModel {
        run_id,
        pipeline,
        pipeline_file,
        version,
        branch,
        resolved_consumes: Map::empty(),
        args,
        current_phase: p.id,
        completed_phases: Seq::empty(),
        skipped_phases: Seq::empty(),
        phase_attempts: Map::empty(),
        phase_verify_passed: if p.gate.len() == 0 {
            Map::empty().insert(p.id, true)
        } else {
            Map::empty()
        },
        regate_passed: Map::empty(),
        phase_start_times: Map::empty().insert(p.id, started),
        status: RunStatus::InProgress,
        created_at: now,
        updated_at: now,
    }
}

/// The state machine engine. Runs live under `{belt_dir}/runs/{run_id}/`.
#[derive(Debug)]
pub struct Engine {
    belt_dir: String,
}

/// `id` with every `/` replaced by `_`.
pub open spec fn sanitize_spec(id: Seq<char>) -> Seq<char> {
    id.map_values(|c: char| if c == '/' { '_' } else { c })
}

/// A phase id turned into a single path segment (`/` becomes `_`).
pub fn sanitize_phase_id(id: &str) -> (r: String)
    ensures
        r@ == sanitize_spec(id@),
{
    let n = id.unicode_len();
    let mut out = String::new();
    let mut i: usize = 0;
    while i < n
        invariant
            i <= n,
            n == id@.len(),
            out@ == sanitize_spec(id@.subrange(0, i as int)),
        decreases n - i,
    {
        if id.get_char(i) == '/' {
            proof {
                reveal_strlit("_");
            }
            out.append("_");
        } else {
            crate::text::push_char_of(&mut out, id, i);
        }
        proof {
            assert(sanitize_spec(id@.subrange(0, i + 1)) =~= sanitize_spec(id@.subrange(0, i as int)).push(
                if id@[i as int] == '/' { '_' } else { id@[i as int] },
            ));
        }
        i = i + 1;
    }
    assert(id@.subrange(0, n as int) =~= id@);
    out
}

/// Evaluates a `when:` expression against the run arguments.
pub fn eval_when(when: Option<&String>, args: &StrMap<JsonValue>) -> (r: bool)
    ensures
        r == when_holds(
            match when {
                Some(w) => Some(w@),
                None => None,
            },
            args@,
        ),
{
    proof {
        reveal_strlit("true");
        reveal_strlit("false");
        reveal_strlit("args.");
    }
    let expr = match when {
        None => {
            return true;
        },
        Some(e) => e,
    };
    let n = expr.unicode_len();
    let negated = n > 0 && expr.get_char(0) == '!';
    let body = if negated {
        expr.as_str().substring_char(1, n)
    } else {
        expr.as_str()
    };
    assert(negated ==> body@ =~= expr@.skip(1));
    let val = if crate::text::str_eq(body, "true") {
        true
    } else if crate::text::str_eq(body, "false") {
        false
    } else {
        let name = trim_start_str_exec(body, "args.");
        match args.get(name.as_str()) {
            Some(v) => match v {
                JsonValue::Bool(b) => *b,
                JsonValue::Null => false,
                _ => true,
            },
            None => false,
        }
    };
    if negated {
        !val
    } else {
        val
    }
}

pub(crate) fn find_phase_exec(phases: &Vec<ExpandedPhase>, id: &str) -> (r: Option<usize>)
    ensures
        match r {
            Some(i) => find_phase(views(phases@), id@, 0) == Some(i as int),
            None => find_phase(views(phases@), id@, 0) is None,
        },
{
    let ghost ps = views(phases@);
    let mut i: usize = 0;
    while i < phases.len()
        invariant
            i <= phases@.len(),
            ps == views(phases@),
            find_phase(ps, id@, 0) == find_phase(ps, id@, i as int),
        decreases phases@.len() - i,
    {
        if crate::text::str_eq(phases[i].id.as_str(), id) {
            return Some(i);
        }
        i = i + 1;
    }
    None
}

/// Index of the first phase at or after `from` whose `when:` holds.
pub fn next_active_exec(phases: &Vec<ExpandedPhase>, args: &StrMap<JsonValue>, from: usize) -> (r: Option<usize>)
    ensures
        match r {
            Some(i) => next_active(views(phases@), args@, from as int) == Some(i as int),
            None => next_active(views(phases@), args@, from as int) is None,
        },
{
    let ghost ps = views(phases@);
    let mut i: usize = from;
    while i < phases.len()
        invariant
            from <= i,
            ps == views(phases@),
            i > phases@.len() ==> i == from,
            next_active(ps, args@, from as int) == next_active(ps, args@, i as int),
        decreases phases@.len() - i,
    {
        if eval_when(phases[i].when.as_ref(), args) {
            return Some(i);
        }
        i = i + 1;
    }
    None
}

/// Index of the first phase whose `when:` holds.
pub fn first_active_phase(phases: &Vec<ExpandedPhase>, args: &StrMap<JsonValue>) -> (r: Option<usize>)
    ensures
        match r {
            Some(i) => next_active(views(phases@), args@, 0) == Some(i as int),
            None => next_active(views(phases@), args@, 0) is None,
        },
{
    next_active_exec(phases, args, 0)
}

proof fn lemma_next_active_bounds(phases: Seq<ExpandedModel>, args: Map<Seq<char>, JsonModel>, i: int)
    ensures
        next_active(phases, args, i) matches Some(j) ==> i <= j < phases.len() && when_holds(
            phases[j].when,
            args,
        ),
    decreases phases.len() - i,
{
    if 0 <= i < phases.len() && !when_holds(phases[i].when, args) {
        lemma_next_active_bounds(phases, args, i + 1);
    }
}

pub(crate) proof fn lemma_find_phase_bounds(phases: Seq<ExpandedModel>, id: Seq<char>, i: int)
    ensures
        find_phase(phases, id, i) matches Some(j) ==> i <= j < phases.len() && phases[j].id == id,
    decreases phases.len() - i,
{
    if 0 <= i < phases.len() && phases[i].id != id {
        lemma_find_phase_bounds(phases, id, i + 1);
    }
}

fn copy_strings(v: &Vec<String>) -> (r: Vec<String>)
    ensures
        views(r@) == views(v@),
{
    crate::model::clone_vec(v)
}

fn cat3(a: &str, b: &str, c: &str) -> (r: String)
    ensures
        r@ == a@ + b@ + c@,
{
    let mut s = String::from_str(a);
    s.append(b);
    s.append(c);
    s
}

impl Engine {
    /// An engine rooted at `belt_dir`.
    pub fn new(belt_dir: &str) -> (r: Engine)
        ensures
            r.belt_dir() == belt_dir@,
    {
        Engine { belt_dir: String::from_str(belt_dir) }
    }

    /// The directory holding all runs' state.
    pub closed spec fn belt_dir(&self) -> Seq<char> {
        self.belt_dir@
    }

    /// The directory of this engine.
    pub fn belt_dir_str(&self) -> (r: &str)
        ensures
            r@ == self.belt_dir(),
    {
        self.belt_dir.as_str()
    }

    /// The directory of run `run_id`: `{belt_dir}/runs/{run_id}`.
    pub fn run_dir(&self, run_id: &str) -> (r: String)
        ensures
            r@ == self.belt_dir() + "/runs/"@ + run_id@,
    {
        cat3(self.belt_dir.as_str(), "/runs/", run_id)
    }

    /// The notes directory of run `run_id`, made when the run starts:
    /// `{run_dir}/notes`.
    pub fn notes_dir(&self, run_id: &str) -> (r: String)
        ensures
            r@ == self.belt_dir() + "/runs/"@ + run_id@ + "/notes"@,
    {
        let mut d = self.run_dir(run_id);
        d.append("/notes");
        d
    }

    /// The output directory of a phase: `{run_dir}/{sanitized phase id}`.
    pub fn phase_output_dir(&self, run_id: &str, phase_id: &str) -> (r: String)
        ensures
            r@ == self.belt_dir() + "/runs/"@ + run_id@ + "/"@ + sanitize_spec(phase_id@),
    {
        let mut d = self.run_dir(run_id);
        d.append("/");
        let s = sanitize_phase_id(phase_id);
        d.append(s.as_str());
        d
    }

    /// Starts a run at the first phase whose `when:` holds, with a fresh run id:
    /// `now` is the run's creation and update time, `started` the start time of
    /// that phase. Fails when no phase is active.
    pub fn init(
        &self,
        pipeline_name: String,
        version: u32,
        pipeline_file: String,
        phases: &Vec<ExpandedPhase>,
        args: StrMap<JsonValue>,
        branch: Option<String>,
        now: String,
        started: String,
    ) -> (r: Result<RunState, BeltError>)
        ensures
            match next_active(views(phases@), args@, 0) {
                None => r matches Err(e) && e@ == (ErrorModel::InvalidPipeline {
                    message: "no active phases in pipeline"@,
                }),
                Some(i) => r matches Ok(st) && {
                    &&& st@ == begin_spec(
                        st@.run_id,
                        pipeline_name@,
                        version,
                        pipeline_file@,
                        views(phases@)[i],
                        args@,
                        crate::model::opt_view(branch),
                        now@,
                        started@,
                    )
                    &&& uuid_v7_shaped(st@.run_id)
                    &&& st@.branch == crate::model::opt_view(branch)
                    &&& st@.pipeline == pipeline_name@
                    &&& st@.version == version
                    &&& st@.pipeline_file == pipeline_file@
                    &&& st@.args == args@
                    &&& st@.current_phase == views(phases@)[i].id
                },
            },
    {
        let first = first_active_phase(phases, &args);
        match first {
            None => Err(BeltError::InvalidPipeline { message: String::from_str("no active phases in pipeline") }),
            Some(i) => {
                proof {
                    lemma_next_active_bounds(views(phases@), args@, 0);
                }
                let p = &phases[i];
                let run_id = new_run_id();
                let mut verify: StrMap<bool> = StrMap::new();
                if p.gate.len() == 0 {
                    verify.insert(p.id.clone(), true);
                }
                let mut starts: StrMap<String> = StrMap::new();
                starts.insert(p.id.clone(), started);
                let st = RunState {
                    run_id,
                    pipeline: pipeline_name,
                    pipeline_file,
                    version,
                    branch,
                    resolved_consumes: StrMap::new(),
                    args,
                    current_phase: p.id.clone(),
                    completed_phases: Vec::new(),
                    skipped_phases: Vec::new(),
                    phase_attempts: StrMap::new(),
                    phase_verify_passed: verify,
                    regate_passed: StrMap::new(),
                    phase_start_times: starts,
                    status: RunStatus::InProgress,
                    created_at: now.clone(),
                    updated_at: now,
                };
                proof {
                    assert(views(st.completed_phases@) =~= Seq::<Seq<char>>::empty());
                    assert(views(st.skipped_phases@) =~= Seq::<Seq<char>>::empty());
                    assert(views(phases@)[i as int] == phases@[i as int]@);
                }
                Ok(st)
            },
        }
    }

    /// Records a verify verdict for the current phase: one more attempt, the
    /// verdict itself, and a cleared regate result. Returns `passed`.
    pub fn verify_verdict(&self, state: &mut RunState, passed: bool, now: String) -> (r: bool)
        requires
            attempts_of(old(state)@, old(state)@.current_phase) < u32::MAX,
        ensures
            r == passed,
            final(state)@ == verdict_spec(old(state)@, passed, now@),
    {
        let cur = state.current_phase.clone();
        let count: u32 = match state.phase_attempts.get(cur.as_str()) {
            Some(c) => *c,
            None => 0,
        };
        state.phase_attempts.insert(cur.clone(), count + 1);
        state.phase_verify_passed.insert(cur.clone(), passed);
        state.regate_passed.remove(cur.as_str());
        state.updated_at = now;
        passed
    }

    /// Records the result of the regate checks for the current phase.
    pub fn record_regate(&self, state: &mut RunState, all_passed: bool, now: String)
        ensures
            final(state)@ == regate_spec(old(state)@, all_passed, now@),
    {
        let cur = state.current_phase.clone();
        state.regate_passed.insert(cur, all_passed);
        state.updated_at = now;
    }

    /// The index of the current phase in `phases`, or a state error.
    pub fn current_phase_index(&self, state: &RunState, phases: &Vec<ExpandedPhase>) -> (r: Result<usize, BeltError>)
        ensures
            match find_phase(views(phases@), state@.current_phase, 0) {
                Some(i) => r == Ok::<usize, BeltError>(i as usize),
                None => r matches Err(e) && e@ == (ErrorModel::State {
                    message: "current phase '"@ + state@.current_phase + "' not found in pipeline"@,
                }),
            },
    {
        match find_phase_exec(phases, state.current_phase.as_str()) {
            Some(i) => Ok(i),
            None => Err(
                BeltError::State {
                    message: cat3("current phase '", state.current_phase.as_str(), "' not found in pipeline"),
                },
            ),
        }
    }

    /// The current phase of a run, with its output directory set.
    pub fn next_phase_info(&self, state: &RunState, phases: &Vec<ExpandedPhase>) -> (r: Result<ExpandedPhase, BeltError>)
        ensures
            match find_phase(views(phases@), state@.current_phase, 0) {
                Some(i) => r matches Ok(p) && p@ == (ExpandedModel {
                    output_dir: Some(self.belt_dir() + "/runs/"@ + state@.run_id + "/"@ + sanitize_spec(views(phases@)[i].id)),
                    ..views(phases@)[i]
                }),
                None => r matches Err(e) && e@ == (ErrorModel::State {
                    message: "current phase '"@ + state@.current_phase + "' not found in pipeline"@,
                }),
            },
    {
        let n = phases.len();
        match self.current_phase_index(state, phases) {
            Err(e) => Err(e),
            Ok(i) => {
                proof {
                    lemma_find_phase_bounds(views(phases@), state@.current_phase, 0);
                    assert(views(phases@).len() == n);
                }
                let p = &phases[i];
                let dir = self.phase_output_dir(state.run_id.as_str(), p.id.as_str());
                let x = ExpandedPhase {
                    id: p.id.clone(),
                    description: p.description.clone(),
                    config: p.config.deep_clone(),
                    produces: crate::model::clone_vec(&p.produces),
                    consumes: crate::model::clone_vec(&p.consumes),
                    gate: crate::model::clone_vec(&p.gate),
                    validate: crate::model::clone_vec(&p.validate),
                    regate: crate::model::clone_vec(&p.regate),
                    confirm: p.confirm,
                    max_retries: p.max_retries,
                    when: crate::model::clone_opt(&p.when),
                    invoke: match &p.invoke {
                        Some(v) => Some(v.deep_clone()),
                        None => None,
                    },
                    output_dir: Some(dir),
                };
                assert(views(phases@)[i as int] == p@);
                assert(find_phase(views(phases@), state@.current_phase, 0) == Some(i as int));
                assert(x@ == (ExpandedModel {
                    output_dir: Some(self.belt_dir() + "/runs/"@ + state@.run_id + "/"@ + sanitize_spec(views(phases@)[i as int].id)),
                    ..views(phases@)[i as int]
                }));
                Ok(x)
            },
        }
    }

    /// The most recent run among the run directories `run_dirs` (by name):
    /// the greatest name, run ids being time-ordered. Fails when there is none.
    pub fn latest_run_id(&self, run_dirs: &Vec<String>) -> (r: Result<String, BeltError>)
        ensures
            match r {
                Ok(id) => views(run_dirs@).contains(id@) && forall|j: int|
                    0 <= j < run_dirs@.len() ==> !crate::view::chars_less_from(id@, #[trigger] run_dirs@[j]@, 0),
                Err(e) => run_dirs@.len() == 0 && e@ == (ErrorModel::State { message: "no runs found"@ }),
            },
    {
        if run_dirs.len() == 0 {
            return Err(BeltError::State { message: String::from_str("no runs found") });
        }
        let mut best: usize = 0;
        let mut i: usize = 1;
        proof {
            crate::view::lemma_chars_irrefl(run_dirs@[0]@, 0);
        }
        while i < run_dirs.len()
            invariant
                1 <= i <= run_dirs@.len(),
                best < i,
                forall|j: int| 0 <= j < i ==> !crate::view::chars_less_from(run_dirs@[best as int]@, #[trigger] run_dirs@[j]@, 0),
            decreases run_dirs@.len() - i,
        {
            if crate::view::chars_less_exec(run_dirs[best].as_str(), run_dirs[i].as_str()) {
                proof {
                    assert forall|j: int| 0 <= j < i + 1 implies !crate::view::chars_less_from(
                        run_dirs@[i as int]@,
                        #[trigger] run_dirs@[j]@,
                        0,
                    ) by {
                        if j < i && crate::view::chars_less_from(run_dirs@[i as int]@, run_dirs@[j]@, 0) {
                            crate::view::lemma_chars_less_trans(run_dirs@[best as int]@, run_dirs@[i as int]@, run_dirs@[j]@, 0);
                        }
                        if j == i {
                            crate::view::lemma_chars_irrefl(run_dirs@[i as int]@, 0);
                        }
                    }
                }
                best = i;
            }
            i = i + 1;
        }
        assert(views(run_dirs@)[best as int] == run_dirs@[best as int]@);
        Ok(run_dirs[best].clone())
    }

    /// Advances the run past the current phase: checks the guards (verify,
    /// regate, retry limit), marks the phase completed, skips phases whose
    /// `when:` is false and enters the next active phase; returns its id, or
    /// `None` when the run is complete. `now` becomes the update time,
    /// `started` the start time of the phase entered.
    pub fn step(&self, state: &mut RunState, phases: &Vec<ExpandedPhase>, now: String, started: String) -> (r: Result<
        Option<String>,
        BeltError,
    >)
        ensures
            match step_spec(old(state)@, views(phases@), now@, started@) {
                Ok((s2, next)) => r matches Ok(n) && final(state)@ == s2 && crate::model::opt_view(n) == next,
                Err(e) => r matches Err(e2) && e2@ == e && final(state)@ == old(state)@,
            },
    {
        let ghost ps = views(phases@);
        let ghost s0 = state@;
        let cur = state.current_phase.clone();
        let idx = match find_phase_exec(phases, cur.as_str()) {
            Some(i) => i,
            None => {
                return Err(BeltError::State { message: cat3("current phase '", cur.as_str(), "' not found") });
            },
        };
        proof {
            lemma_find_phase_bounds(ps, s0.current_phase, 0);
            assert(ps.len() == phases@.len());
        }
        let p = &phases[idx];
        let verified_now = match state.phase_verify_passed.get(cur.as_str()) {
            Some(b) => *b,
            None => false,
        };
        if !verified_now {
            return Err(BeltError::VerifyRequired { phase_id: cur });
        }
        if p.regate.len() > 0 {
            match state.regate_passed.get(cur.as_str()) {
                None => {
                    return Err(BeltError::RegateRequired { phase_id: cur, targets: copy_strings(&p.regate) });
                },
                Some(ok) => {
                    if !*ok {
                        return Err(BeltError::RegateFailed { phase_id: cur, targets: copy_strings(&p.regate) });
                    }
                },
            }
        }
        let attempts: u32 = match state.phase_attempts.get(cur.as_str()) {
            Some(c) => *c,
            None => 0,
        };
        if p.max_retries > 0 && attempts > p.max_retries {
            return Err(BeltError::MaxRetriesExceeded { phase_id: cur, attempts, max_retries: p.max_retries });
        }
        state.completed_phases.push(cur.clone());
        state.updated_at = now.clone();
        let ghost done = state@;
        proof {
            assert(done.completed_phases =~= s0.completed_phases.push(s0.current_phase));
        }
        let n_phases = phases.len();
        assert(idx < n_phases);
        let next = next_active_exec(phases, &state.args, idx + 1);
        proof {
            lemma_next_active_bounds(ps, s0.args, idx + 1);
        }
        let end = match next {
            Some(j) => j,
            None => phases.len(),
        };
        let mut k = idx + 1;
        while k < end
            invariant
                idx + 1 <= k <= end,
                end <= phases@.len(),
                ps == views(phases@),
                state@ == (RunModel { skipped_phases: done.skipped_phases + ids_between(ps, idx + 1, k as int), ..done }),
            decreases end - k,
        {
            let ghost before = state.skipped_phases@;
            state.skipped_phases.push(phases[k].id.clone());
            proof {
                assert(views(state.skipped_phases@) =~= views(before).push(phases@[k as int].id@));
                assert(ids_between(ps, idx + 1, k + 1) =~= ids_between(ps, idx + 1, k as int).push(ps[k as int].id));
                assert(state@.skipped_phases =~= done.skipped_phases + ids_between(ps, idx + 1, k + 1));
            }
            k = k + 1;
        }
        match next {
            Some(j) => {
                let np = &phases[j];
                state.current_phase = np.id.clone();
                if np.gate.len() == 0 {
                    state.phase_verify_passed.insert(np.id.clone(), true);
                }
                if !state.phase_start_times.contains_key(np.id.as_str()) {
                    state.phase_start_times.insert(np.id.clone(), started);
                }
                proof {
                    assert(ps[j as int] == phases@[j as int]@);
                }
                Ok(Some(np.id.clone()))
            },
            None => {
                state.current_phase = String::from_str("COMPLETED");
                state.status = RunStatus::Completed;
                proof {
                    reveal_strlit("COMPLETED");
                }
                Ok(None)
            },
        }
    }
}

} // verus!

verus! {

/// Re-verifying a phase that declares regate targets clears any earlier
/// regate result, so the next step is refused until regate runs again.
pub proof fn law_reverify_requires_regate(
    s: RunModel,
    phases: Seq<ExpandedModel>,
    t1: Seq<char>,
    t2: Seq<char>,
    t3: Seq<char>,
)
    requires
        find_phase(phases, s.current_phase, 0) is Some,
        phases[find_phase(phases, s.current_phase, 0)->0].regate.len() > 0,
    ensures
        step_spec(verdict_spec(s, true, t1), phases, t2, t3) == Err::<(RunModel, Option<Seq<char>>), ErrorModel>(
            ErrorModel::RegateRequired {
                phase_id: s.current_phase,
                targets: phases[find_phase(phases, s.current_phase, 0)->0].regate,
            },
        ),
{
}

/// A failed verify verdict always blocks the next step.
pub proof fn law_failed_verify_blocks_step(
    s: RunModel,
    phases: Seq<ExpandedModel>,
    t1: Seq<char>,
    t2: Seq<char>,
    t3: Seq<char>,
)
    requires
        find_phase(phases, s.current_phase, 0) is Some,
    ensures
        step_spec(verdict_spec(s, false, t1), phases, t2, t3) == Err::<(RunModel, Option<Seq<char>>), ErrorModel>(
            ErrorModel::VerifyRequired { phase_id: s.current_phase },
        ),
{
}

/// The retry budget: a step whose verify verdict passed, whose regate (when
/// the phase declares targets) passed, and whose recorded attempts are at
/// most the phase's `max_retries` (or whose `max_retries` is 0, no limit)
/// succeeds; and a step refused for its retries has used more attempts than
/// a non-zero `max_retries` allows, and reports both numbers.
pub proof fn law_step_within_retry_budget(s: RunModel, phases: Seq<ExpandedModel>, now: Seq<char>, started: Seq<char>)
    requires
        find_phase(phases, s.current_phase, 0) is Some,
    ensures
        ({
            let cur = s.current_phase;
            let p = phases[find_phase(phases, cur, 0)->0];
            let attempts: int = if s.phase_attempts.contains_key(cur) {
                s.phase_attempts[cur] as int
            } else {
                0
            };
            &&& (s.phase_verify_passed.contains_key(cur) && s.phase_verify_passed[cur] && (p.regate.len() == 0 || (
            s.regate_passed.contains_key(cur) && s.regate_passed[cur])) && (p.max_retries == 0 || attempts
                <= p.max_retries)) ==> step_spec(s, phases, now, started) is Ok
            &&& (step_spec(s, phases, now, started) matches Err(
                ErrorModel::MaxRetriesExceeded { phase_id, attempts: a, max_retries: m },
            ) ==> phase_id == cur && a == attempts && m == p.max_retries && 0 < m && m < a)
        }),
{
}

/// A run starts with what it is given: its run id, pipeline name, version,
/// pipeline file, arguments and branch, at the given phase, with no phase
/// completed or skipped, in progress, created and updated at `now`, the
/// phase started at `started`.
pub proof fn law_begin_records_inputs(
    run_id: Seq<char>,
    pipeline: Seq<char>,
    version: u32,
    pipeline_file: Seq<char>,
    p: ExpandedModel,
    args: Map<Seq<char>, JsonModel>,
    branch: Option<Seq<char>>,
    now: Seq<char>,
    started: Seq<char>,
)
    ensures
        ({
            let st = begin_spec(run_id, pipeline, version, pipeline_file, p, args, branch, now, started);
            &&& st.run_id == run_id
            &&& st.pipeline == pipeline
            &&& st.version == version
            &&& st.pipeline_file == pipeline_file
            &&& st.args == args
            &&& st.branch == branch
            &&& st.current_phase == p.id
            &&& st.completed_phases.len() == 0
            &&& st.skipped_phases.len() == 0
            &&& st.phase_attempts.dom().len() == 0
            &&& st.status == RunStatus::InProgress
            &&& st.created_at == now
            &&& st.updated_at == now
            &&& st.phase_start_times.contains_key(p.id) && st.phase_start_times[p.id] == started
        }),
{
    assert(Map::<Seq<char>, u32>::empty().dom() =~= Set::<Seq<char>>::empty());
}

/// On a run that is not yet completed, a step that succeeds marks exactly the
/// current phase completed; the run becomes completed exactly when the step
/// returns no next phase.
pub proof fn law_step_progress(s: RunModel, phases: Seq<ExpandedModel>, now: Seq<char>, started: Seq<char>)
    requires
        step_spec(s, phases, now, started) is Ok,
        s.status != RunStatus::Completed,
    ensures
        ({
            let (s2, next) = step_spec(s, phases, now, started)->Ok_0;
            &&& verified(s, s.current_phase)
            &&& s2.completed_phases == s.completed_phases.push(s.current_phase)
            &&& s2.skipped_phases.len() >= s.skipped_phases.len()
            &&& (next is None <==> s2.status == RunStatus::Completed)
            &&& next is None ==> s2.current_phase == completed_sentinel()
            &&& next matches Some(id) ==> s2.current_phase == id
            &&& s2.args == s.args
            &&& s2.phase_attempts == s.phase_attempts
        }),
{
    let idx = find_phase(phases, s.current_phase, 0)->0;
    lemma_next_active_bounds(phases, s.args, idx + 1);
}

/// Verify verdicts count attempts one by one and leave the start times of
/// phases untouched; so do regate results.
pub proof fn law_retries_keep_start_times(s: RunModel, passed: bool, all_passed: bool, now: Seq<char>)
    ensures
        attempts_of(verdict_spec(s, passed, now), s.current_phase) == attempts_of(s, s.current_phase) + 1
            || attempts_of(s, s.current_phase) == u32::MAX,
        verdict_spec(s, passed, now).phase_start_times == s.phase_start_times,
        regate_spec(s, all_passed, now).phase_start_times == s.phase_start_times,
        verdict_spec(s, passed, now).current_phase == s.current_phase,
        regate_spec(s, all_passed, now).current_phase == s.current_phase,
{
}

} // verus!
