//! Static checks of a pipeline definition.
//!
//! What the filesystem shows (which referenced paths exist, which are
//! regular files, and the sub-pipeline files reached) is observed by the
//! caller and handed in; the rules themselves are decided here.
use vstd::prelude::*;
use crate::error::{message_spec, BeltError};
use crate::expander::{expand_pipeline, link_at, local_ids, LoadedFile, LoadedModel, SourceFile};
use crate::json::{json_get, JsonValue};
use crate::model::{
    views, ArgDef, ArtifactModel, ArtifactRef, ArtifactRefModel, GateCheck, GateModel, Invoker, InvokerModel, Phase,
    PhaseModel, Pipeline, ValidationModel, ValidationSource,
};
use crate::strmap::StrMap;
use crate::text::{contains_seq, contains_str, has_prefix, starts_with, str_eq, trim_exec, trim_start_char, trim_start_char_exec, trim_start_seq, trim_start_str_exec, trim_ws};
use crate::uri::{parse_spec, render_spec, uri_error_message, BeltUri, UriModel};

verus! {

broadcast use vstd::seq_lib::group_seq_properties;

/// Severity of a lint finding.
#[derive(Debug, Clone, Copy, PartialEq, Eq, Structural)]
pub enum Severity {
    Error,
    Warning,
}

/// One lint finding.
#[derive(Debug)]
pub struct LintDiagnostic {
    pub severity: Severity,
    pub message: String,
}

impl View for LintDiagnostic {
    type V = (Severity, Seq<char>);

    open spec fn view(&self) -> (Severity, Seq<char>) {
        (self.severity, self.message@)
    }
}

/// An error finding.
pub open spec fn err(m: Seq<char>) -> (Severity, Seq<char>) {
    (Severity::Error, m)
}

/// A warning finding.
pub open spec fn warn(m: Seq<char>) -> (Severity, Seq<char>) {
    (Severity::Warning, m)
}

/// The finding `d` when `c` holds; nothing otherwise.
pub open spec fn only_if(c: bool, d: (Severity, Seq<char>)) -> Seq<(Severity, Seq<char>)> {
    if c {
        seq![d]
    } else {
        Seq::empty()
    }
}

/// The findings of `f(0)`, ..., `f(n - 1)`, in order.
pub open spec fn cat_map(n: int, f: spec_fn(int) -> Seq<(Severity, Seq<char>)>) -> Seq<(Severity, Seq<char>)>
    decreases n,
{
    if n <= 0 {
        Seq::empty()
    } else {
        cat_map(n - 1, f) + f(n - 1)
    }
}

/// Paths the caller found, relative to the pipeline file's directory and
/// spelled as the pipeline writes them.
#[derive(Debug)]
pub struct PathFacts {
    /// Referenced paths that exist.
    pub existing: Vec<String>,
    /// Referenced paths that are regular files.
    pub regular_files: Vec<String>,
}

fn contains_string(v: &Vec<String>, x: &str) -> (r: bool)
    ensures
        r == views(v@).contains(x@),
{
    let mut i: usize = 0;
    while i < v.len()
        invariant
            i <= v@.len(),
            forall|j: int| 0 <= j < i ==> v@[j]@ != x@,
        decreases v@.len() - i,
    {
        if str_eq(v[i].as_str(), x) {
            assert(views(v@)[i as int] == x@);
            return true;
        }
        i = i + 1;
    }
    proof {
        if views(v@).contains(x@) {
            let j = choose|j: int| 0 <= j < views(v@).len() && views(v@)[j] == x@;
            assert(v@[j]@ == x@);
        }
    }
    false
}

fn push_diag(out: &mut Vec<LintDiagnostic>, severity: Severity, message: String)
    ensures
        views(final(out)@) == views(old(out)@).push((severity, message@)),
{
    let ghost before = views(out@);
    out.push(LintDiagnostic { severity, message });
    assert(views(out@) =~= before.push((severity, message@)));
}

proof fn lemma_cat_map_step(n: int, f: spec_fn(int) -> Seq<(Severity, Seq<char>)>)
    requires
        n >= 0,
    ensures
        cat_map(n + 1, f) == cat_map(n, f) + f(n),
{
}

// ---------------------------------------------------------------------
// Phase ids
// ---------------------------------------------------------------------

/// The message of a repeated phase id.
pub open spec fn dup_id_msg(id: Seq<char>) -> Seq<char> {
    "duplicate phase id: '"@ + id + "'"@
}

/// Each phase whose id an earlier phase already has.
pub open spec fn dup_id_diags(ps: Seq<PhaseModel>) -> Seq<(Severity, Seq<char>)> {
    cat_map(ps.len() as int, |i: int| only_if(local_ids(ps).take(i).contains(ps[i].id), err(dup_id_msg(ps[i].id))))
}

fn id_in_prefix(phases: &Vec<Phase>, n: usize, id: &str) -> (r: bool)
    requires
        n <= phases@.len(),
    ensures
        r == local_ids(views(phases@)).take(n as int).contains(id@),
{
    let ghost ids = local_ids(views(phases@)).take(n as int);
    let mut j: usize = 0;
    while j < n
        invariant
            j <= n,
            n <= phases@.len(),
            ids == local_ids(views(phases@)).take(n as int),
            forall|k: int| 0 <= k < j ==> ids[k] != id@,
        decreases n - j,
    {
        assert(ids[j as int] == phases@[j as int].id@);
        if str_eq(phases[j].id.as_str(), id) {
            return true;
        }
        j = j + 1;
    }
    false
}

fn check_duplicate_ids(phases: &Vec<Phase>, out: &mut Vec<LintDiagnostic>)
    ensures
        views(final(out)@) == views(old(out)@) + dup_id_diags(views(phases@)),
{
    let ghost ps = views(phases@);
    let ghost f = |i: int| only_if(local_ids(ps).take(i).contains(ps[i].id), err(dup_id_msg(ps[i].id)));
    let ghost base = views(out@);
    let mut i: usize = 0;
    assert(views(out@) =~= base + cat_map(0, f));
    while i < phases.len()
        invariant
            i <= phases@.len(),
            ps == views(phases@),
            f == (|i: int| only_if(local_ids(ps).take(i).contains(ps[i].id), err(dup_id_msg(ps[i].id)))),
            views(out@) == base + cat_map(i as int, f),
        decreases phases@.len() - i,
    {
        let ghost before = views(out@);
        let id = phases[i].id.as_str();
        if id_in_prefix(phases, i, id) {
            let mut m = String::from_str("duplicate phase id: '");
            m.append(id);
            m.append("'");
            push_diag(out, Severity::Error, m);
        }
        proof {
            lemma_cat_map_step(i as int, f);
            assert(views(out@) =~= before + f(i as int));
        }
        i = i + 1;
    }
}

// ---------------------------------------------------------------------
// Regate targets
// ---------------------------------------------------------------------

/// The message of a regate target naming no phase.
pub open spec fn regate_missing_msg(id: Seq<char>, t: Seq<char>) -> Seq<char> {
    "phase '"@ + id + "': regate target '"@ + t + "' does not exist"@
}

/// Each regate target that names no phase of the pipeline.
pub open spec fn regate_diags(ps: Seq<PhaseModel>) -> Seq<(Severity, Seq<char>)> {
    cat_map(
        ps.len() as int,
        |i: int|
            cat_map(
                ps[i].regate.len() as int,
                |j: int|
                    only_if(!local_ids(ps).contains(ps[i].regate[j]), err(regate_missing_msg(ps[i].id, ps[i].regate[j]))),
            ),
    )
}

fn check_regate_targets(phases: &Vec<Phase>, out: &mut Vec<LintDiagnostic>)
    ensures
        views(final(out)@) == views(old(out)@) + regate_diags(views(phases@)),
{
    let ghost ps = views(phases@);
    let ghost f = |i: int|
        cat_map(
            ps[i].regate.len() as int,
            |j: int| only_if(!local_ids(ps).contains(ps[i].regate[j]), err(regate_missing_msg(ps[i].id, ps[i].regate[j]))),
        );
    let ghost base = views(out@);
    let n = phases.len();
    let mut i: usize = 0;
    assert(views(out@) =~= base + cat_map(0, f));
    while i < n
        invariant
            i <= n,
            n == phases@.len(),
            ps == views(phases@),
            f == (|i: int|
                cat_map(
                    ps[i].regate.len() as int,
                    |j: int|
                        only_if(
                            !local_ids(ps).contains(ps[i].regate[j]),
                            err(regate_missing_msg(ps[i].id, ps[i].regate[j])),
                        ),
                )),
            views(out@) == base + cat_map(i as int, f),
        decreases n - i,
    {
        let ghost before = views(out@);
        let phase = &phases[i];
        let ghost g = |j: int|
            only_if(!local_ids(ps).contains(ps[i as int].regate[j]), err(regate_missing_msg(ps[i as int].id, ps[i as int].regate[j])));
        let mut j: usize = 0;
        assert(views(out@) =~= before + cat_map(0, g));
        while j < phase.regate.len()
            invariant
                j <= phase.regate@.len(),
                phase == &phases@[i as int],
                i < n,
                n == phases@.len(),
                ps == views(phases@),
                g == (|j: int|
                    only_if(
                        !local_ids(ps).contains(ps[i as int].regate[j]),
                        err(regate_missing_msg(ps[i as int].id, ps[i as int].regate[j])),
                    )),
                views(out@) == before + cat_map(j as int, g),
            decreases phase.regate@.len() - j,
        {
            let ghost b2 = views(out@);
            let t = phase.regate[j].as_str();
            assert(ps[i as int].regate[j as int] == t@);
            if !id_in_prefix(phases, n, t) {
                assert(local_ids(ps).take(n as int) =~= local_ids(ps));
                let mut m = String::from_str("phase '");
                m.append(phase.id.as_str());
                m.append("': regate target '");
                m.append(t);
                m.append("' does not exist");
                push_diag(out, Severity::Error, m);
            } else {
                assert(local_ids(ps).take(n as int) =~= local_ids(ps));
            }
            proof {
                lemma_cat_map_step(j as int, g);
                assert(views(out@) =~= b2 + g(j as int));
            }
            j = j + 1;
        }
        proof {
            assert(g == (|j: int|
                only_if(
                    !local_ids(ps).contains(ps[i as int].regate[j]),
                    err(regate_missing_msg(ps[i as int].id, ps[i as int].regate[j])),
                )));
            assert(cat_map(phase.regate@.len() as int, g) == f(i as int));
            lemma_cat_map_step(i as int, f);
            assert(views(out@) =~= before + f(i as int));
        }
        i = i + 1;
    }
}


// ---------------------------------------------------------------------
// Per-phase rules
// ---------------------------------------------------------------------

/// The argument a phase's `when:` refers to: leading `!` and `args.`
/// prefixes removed.
pub open spec fn when_arg_spec(w: Seq<char>) -> Seq<char> {
    trim_start_seq(trim_start_char(w, '!'), "args."@)
}

/// The message of a `when:` naming an undeclared argument.
pub open spec fn when_undefined_msg(id: Seq<char>, arg: Seq<char>) -> Seq<char> {
    "phase '"@ + id + "': when references undefined arg '"@ + arg + "'"@
}

/// A phase whose `when:` names an argument the pipeline does not declare.
pub open spec fn when_diags(p: PhaseModel, args: Map<Seq<char>, (crate::model::ArgType, Option<crate::json::JsonModel>)>) -> Seq<(Severity, Seq<char>)> {
    match p.when {
        Some(w) => only_if(
            when_arg_spec(w).len() > 0 && !args.contains_key(when_arg_spec(w)),
            err(when_undefined_msg(p.id, when_arg_spec(w))),
        ),
        None => Seq::empty(),
    }
}

/// A `when:` of the form `args.<x>` or `!args.<x>` refers to the argument
/// `<x>` (one that does not itself begin with `args.`): lint is silent about
/// it when `<x>` is declared, and reports exactly `<x>` as undefined when it
/// is not.
pub proof fn law_when_names_its_argument(
    p: PhaseModel,
    x: Seq<char>,
    negated: bool,
    args: Map<Seq<char>, (crate::model::ArgType, Option<crate::json::JsonModel>)>,
)
    requires
        x.len() > 0,
        !has_prefix(x, "args."@),
        p.when == Some(if negated { "!args."@ + x } else { "args."@ + x }),
    ensures
        args.contains_key(x) ==> when_diags(p, args).len() == 0,
        !args.contains_key(x) ==> when_diags(p, args) == seq![err(
            "phase '"@ + p.id + "': when references undefined arg '"@ + x + "'"@,
        )],
{
    reveal_strlit("args.");
    reveal_strlit("!args.");
    let a = "args."@ + x;
    assert(a.len() > 0 && a[0] == 'a');
    assert(trim_start_char(a, '!') == a);
    if negated {
        let w = "!args."@ + x;
        assert(w.len() > 0 && w[0] == '!');
        assert(w.drop_first() =~= a);
        assert(trim_start_char(w, '!') == trim_start_char(a, '!'));
    }
    assert(has_prefix(a, "args."@));
    assert(a.skip(5) =~= x);
    assert(trim_start_seq(a, "args."@) == trim_start_seq(x, "args."@));
    assert(trim_start_seq(x, "args."@) == x);
    assert(when_arg_spec(p.when->0) == x);
}

fn phase_when(phase: &Phase, args: &StrMap<ArgDef>, out: &mut Vec<LintDiagnostic>)
    ensures
        views(final(out)@) == views(old(out)@) + when_diags(phase@, args@),
{
    match &phase.when {
        Some(w) => {
            let a = trim_start_char_exec(w.as_str(), '!');
            let arg = trim_start_str_exec(a.as_str(), "args.");
            if arg.unicode_len() > 0 && !args.contains_key(arg.as_str()) {
                let mut m = String::from_str("phase '");
                m.append(phase.id.as_str());
                m.append("': when references undefined arg '");
                m.append(arg.as_str());
                m.append("'");
                push_diag(out, Severity::Error, m);
            } else {
                assert(views(out@) =~= views(out@) + Seq::<(Severity, Seq<char>)>::empty());
            }
        },
        None => {
            assert(views(out@) =~= views(out@) + Seq::<(Severity, Seq<char>)>::empty());
        },
    }
}

/// The message of a leaf phase without description.
pub open spec fn leaf_desc_msg(id: Seq<char>) -> Seq<char> {
    "phase '"@ + id + "': leaf phase must have a description"@
}

/// A phase that does not delegate to a sub-pipeline and has no description.
pub open spec fn leaf_desc_diags(p: PhaseModel) -> Seq<(Severity, Seq<char>)> {
    only_if(
        !(p.invoke matches Some(InvokerModel::Pipeline { .. })) && p.description is None,
        err(leaf_desc_msg(p.id)),
    )
}

fn phase_leaf_desc(phase: &Phase, out: &mut Vec<LintDiagnostic>)
    ensures
        views(final(out)@) == views(old(out)@) + leaf_desc_diags(phase@),
{
    let delegates = match &phase.invoke {
        Some(Invoker::Pipeline { .. }) => true,
        _ => false,
    };
    if !delegates && phase.description.is_none() {
        let mut m = String::from_str("phase '");
        m.append(phase.id.as_str());
        m.append("': leaf phase must have a description");
        push_diag(out, Severity::Error, m);
    } else {
        assert(views(out@) =~= views(out@) + Seq::<(Severity, Seq<char>)>::empty());
    }
}

/// The message of a phase that does nothing.
pub open spec fn empty_phase_msg(id: Seq<char>) -> Seq<char> {
    "phase '"@ + id + "' has neither invoke, gate, validate, nor confirm — add at least one"@
}

/// A phase with no invoke, gate, validate or confirm.
pub open spec fn empty_phase_diags(p: PhaseModel) -> Seq<(Severity, Seq<char>)> {
    only_if(
        p.invoke is None && p.gate.len() == 0 && p.validate.len() == 0 && !p.confirm,
        err(empty_phase_msg(p.id)),
    )
}

/// Reports a phase that has no action, no verification and no interaction.
pub fn check_empty_phase(phase: &Phase, diagnostics: &mut Vec<LintDiagnostic>)
    ensures
        views(final(diagnostics)@) == views(old(diagnostics)@) + empty_phase_diags(phase@),
{
    let has_action = phase.invoke.is_some();
    let has_verification = phase.gate.len() > 0 || phase.validate.len() > 0;
    let has_interaction = phase.confirm;
    if !has_action && !has_verification && !has_interaction {
        let mut m = String::from_str("phase '");
        m.append(phase.id.as_str());
        m.append("' has neither invoke, gate, validate, nor confirm — add at least one");
        push_diag(diagnostics, Severity::Error, m);
    } else {
        assert(views(diagnostics@) =~= views(diagnostics@) + Seq::<(Severity, Seq<char>)>::empty());
    }
}

/// A `gate: uses:` reference that does not exist.
pub open spec fn gate_uses_item(p: PhaseModel, g: GateModel, existing: Seq<Seq<char>>) -> Seq<(Severity, Seq<char>)> {
    match g {
        GateModel::Uses { uses, .. } => only_if(
            !existing.contains(uses),
            err("phase '"@ + p.id + "': gate uses '"@ + uses + "' not found"@),
        ),
        _ => Seq::empty(),
    }
}

fn gate_uses_one(phase: &Phase, g: &GateCheck, existing: &Vec<String>, out: &mut Vec<LintDiagnostic>)
    ensures
        views(final(out)@) == views(old(out)@) + gate_uses_item(phase@, g@, views(existing@)),
{
    match g {
        GateCheck::Uses { uses, .. } => {
            if !contains_string(existing, uses.as_str()) {
                let mut m = String::from_str("phase '");
                m.append(phase.id.as_str());
                m.append("': gate uses '");
                m.append(uses.as_str());
                m.append("' not found");
                push_diag(out, Severity::Error, m);
                return;
            }
        },
        _ => {},
    }
    assert(views(out@) =~= views(out@) + Seq::<(Severity, Seq<char>)>::empty());
}

/// The `gate: uses:` findings of one phase.
fn phase_gate_uses(phase: &Phase, existing: &Vec<String>, out: &mut Vec<LintDiagnostic>)
    ensures
        views(final(out)@) == views(old(out)@) + cat_map(phase@.gate.len() as int, |j: int| gate_uses_item(phase@, phase@.gate[j], views(existing@))),
{
    let ghost p = phase@;
    let ghost g = |j: int| gate_uses_item(p, p.gate[j], views(existing@));
    let ghost base = views(out@);
    let mut j: usize = 0;
    assert(views(out@) =~= base + cat_map(0, g));
    while j < phase.gate.len()
        invariant
            j <= phase.gate@.len(),
            p == phase@,
            g == (|j: int| gate_uses_item(p, p.gate[j], views(existing@))),
            views(out@) == base + cat_map(j as int, g),
        decreases phase.gate@.len() - j,
    {
        let ghost before = views(out@);
        assert(phase.gate@[j as int]@ == p.gate[j as int]);
        gate_uses_one(phase, &phase.gate[j], existing, out);
        proof {
            lemma_cat_map_step(j as int, g);
            assert(views(out@) =~= before + g(j as int));
        }
        j = j + 1;
    }
}

/// The message of an empty skill.
pub open spec fn skill_empty_msg(id: Seq<char>) -> Seq<char> {
    "phase '"@ + id + "': invoke skill is empty"@
}

/// The message of a skill without leading slash.
pub open spec fn skill_slash_msg(id: Seq<char>, skill: Seq<char>) -> Seq<char> {
    "phase '"@ + id + "': invoke skill '"@ + skill + "' must start with a leading slash (e.g. '/"@ + skill + "')"@
}

/// A skill invocation that is empty or lacks its leading slash.
pub open spec fn skill_diags(p: PhaseModel) -> Seq<(Severity, Seq<char>)> {
    match p.invoke {
        Some(InvokerModel::Skill { skill, .. }) => if skill.len() == 0 {
            seq![err(skill_empty_msg(p.id))]
        } else if !has_prefix(skill, "/"@) {
            seq![err(skill_slash_msg(p.id, skill))]
        } else {
            Seq::empty()
        },
        _ => Seq::empty(),
    }
}

fn phase_skill(phase: &Phase, out: &mut Vec<LintDiagnostic>)
    ensures
        views(final(out)@) == views(old(out)@) + skill_diags(phase@),
{
    match &phase.invoke {
        Some(Invoker::Skill { skill, .. }) => {
            if skill.unicode_len() == 0 {
                let mut m = String::from_str("phase '");
                m.append(phase.id.as_str());
                m.append("': invoke skill is empty");
                push_diag(out, Severity::Error, m);
                return;
            } else if !starts_with(skill.as_str(), "/") {
                let mut m = String::from_str("phase '");
                m.append(phase.id.as_str());
                m.append("': invoke skill '");
                m.append(skill.as_str());
                m.append("' must start with a leading slash (e.g. '/");
                m.append(skill.as_str());
                m.append("')");
                push_diag(out, Severity::Error, m);
                return;
            }
        },
        _ => {},
    }
    assert(views(out@) =~= views(out@) + Seq::<(Severity, Seq<char>)>::empty());
}

/// A `validate: { file: ... }` reference that does not exist.
pub open spec fn validate_item(p: PhaseModel, v: ValidationModel, existing: Seq<Seq<char>>) -> Seq<(Severity, Seq<char>)> {
    match v {
        ValidationModel::File(f) => only_if(
            !existing.contains(f),
            err("phase '"@ + p.id + "': validate file '"@ + f + "' not found"@),
        ),
        _ => Seq::empty(),
    }
}

fn validate_one(phase: &Phase, v: &ValidationSource, existing: &Vec<String>, out: &mut Vec<LintDiagnostic>)
    ensures
        views(final(out)@) == views(old(out)@) + validate_item(phase@, v@, views(existing@)),
{
    match v {
        ValidationSource::File { file } => {
            if !contains_string(existing, file.as_str()) {
                let mut m = String::from_str("phase '");
                m.append(phase.id.as_str());
                m.append("': validate file '");
                m.append(file.as_str());
                m.append("' not found");
                push_diag(out, Severity::Error, m);
                return;
            }
        },
        _ => {},
    }
    assert(views(out@) =~= views(out@) + Seq::<(Severity, Seq<char>)>::empty());
}

/// The `validate: { file: ... }` findings of one phase.
fn phase_validate(phase: &Phase, existing: &Vec<String>, out: &mut Vec<LintDiagnostic>)
    ensures
        views(final(out)@) == views(old(out)@) + cat_map(phase@.validate.len() as int, |j: int| validate_item(phase@, phase@.validate[j], views(existing@))),
{
    let ghost p = phase@;
    let ghost g = |j: int| validate_item(p, p.validate[j], views(existing@));
    let ghost base = views(out@);
    let mut j: usize = 0;
    assert(views(out@) =~= base + cat_map(0, g));
    while j < phase.validate.len()
        invariant
            j <= phase.validate@.len(),
            p == phase@,
            g == (|j: int| validate_item(p, p.validate[j], views(existing@))),
            views(out@) == base + cat_map(j as int, g),
        decreases phase.validate@.len() - j,
    {
        let ghost before = views(out@);
        assert(phase.validate@[j as int]@ == p.validate[j as int]);
        validate_one(phase, &phase.validate[j], existing, out);
        proof {
            lemma_cat_map_step(j as int, g);
            assert(views(out@) =~= before + g(j as int));
        }
        j = j + 1;
    }
}

/// Some gate of the phase checks `path` with `file_exists`, or checks
/// `has_output: true`.
pub open spec fn gate_protects(gates: Seq<GateModel>, path: Seq<char>) -> bool {
    exists|k: int|
        0 <= k < gates.len() && (#[trigger] gates[k] == GateModel::FileExists { file_exists: path } || gates[k]
            == GateModel::HasOutput { has_output: true })
}

/// A produced artifact that no gate of its phase protects.
pub open spec fn protected_item(p: PhaseModel, a: ArtifactModel) -> Seq<(Severity, Seq<char>)> {
    only_if(
        !gate_protects(p.gate, a.path),
        warn("phase '"@ + p.id + "': produces '"@ + a.name + "' path '"@ + a.path + "' is not protected by gate"@),
    )
}

fn protects(gates: &Vec<GateCheck>, path: &str) -> (r: bool)
    ensures
        r == gate_protects(views(gates@), path@),
{
    let ghost gs = views(gates@);
    let mut k: usize = 0;
    while k < gates.len()
        invariant
            k <= gates@.len(),
            gs == views(gates@),
            forall|j: int|
                0 <= j < k ==> !(gs[j] == GateModel::FileExists { file_exists: path@ } || gs[j]
                    == GateModel::HasOutput { has_output: true }),
        decreases gates@.len() - k,
    {
        assert(gs[k as int] == gates@[k as int]@);
        let hit = match &gates[k] {
            GateCheck::FileExists { file_exists } => str_eq(file_exists.as_str(), path),
            GateCheck::HasOutput { has_output } => *has_output,
            _ => false,
        };
        if hit {
            return true;
        }
        k = k + 1;
    }
    false
}

fn protected_one(phase: &Phase, a: &crate::model::Artifact, out: &mut Vec<LintDiagnostic>)
    ensures
        views(final(out)@) == views(old(out)@) + protected_item(phase@, a@),
{
    if !protects(&phase.gate, a.path.as_str()) {
        let mut m = String::from_str("phase '");
        m.append(phase.id.as_str());
        m.append("': produces '");
        m.append(a.name.as_str());
        m.append("' path '");
        m.append(a.path.as_str());
        m.append("' is not protected by gate");
        push_diag(out, Severity::Warning, m);
    } else {
        assert(views(out@) =~= views(out@) + Seq::<(Severity, Seq<char>)>::empty());
    }
}

/// Findings on artifacts of one phase that no gate checks.
fn phase_protected(phase: &Phase, out: &mut Vec<LintDiagnostic>)
    ensures
        views(final(out)@) == views(old(out)@) + cat_map(phase@.produces.len() as int, |j: int| protected_item(phase@, phase@.produces[j])),
{
    let ghost p = phase@;
    let ghost g = |j: int| protected_item(p, p.produces[j]);
    let ghost base = views(out@);
    let mut j: usize = 0;
    assert(views(out@) =~= base + cat_map(0, g));
    while j < phase.produces.len()
        invariant
            j <= phase.produces@.len(),
            p == phase@,
            g == (|j: int| protected_item(p, p.produces[j])),
            views(out@) == base + cat_map(j as int, g),
        decreases phase.produces@.len() - j,
    {
        let ghost before = views(out@);
        assert(phase.produces@[j as int]@ == p.produces[j as int]);
        protected_one(phase, &phase.produces[j], out);
        proof {
            lemma_cat_map_step(j as int, g);
            assert(views(out@) =~= before + g(j as int));
        }
        j = j + 1;
    }
}

/// The message of an artifact `when:` of another shape than `args.<flag>`.
pub open spec fn art_when_unsupported_msg(id: Seq<char>, name: Seq<char>, e: Seq<char>) -> Seq<char> {
    "phase '"@ + id + "' artifact '"@ + name + "' has unsupported when expression '"@ + e
        + "'; only `args.<flag>` is supported"@
}

/// The message of an artifact `when:` naming an undeclared argument.
pub open spec fn art_when_undefined_msg(id: Seq<char>, name: Seq<char>, arg: Seq<char>) -> Seq<char> {
    "phase '"@ + id + "' artifact '"@ + name + "' references undefined arg '"@ + arg + "' in when clause"@
}

/// An artifact `when:` that is not `args.<flag>` or names an undeclared argument.
pub open spec fn art_when_item(p: PhaseModel, a: ArtifactModel, args: Map<Seq<char>, (crate::model::ArgType, Option<crate::json::JsonModel>)>) -> Seq<(Severity, Seq<char>)> {
    match a.when {
        None => Seq::empty(),
        Some(expr) => {
            let e = trim_ws(expr);
            if !has_prefix(e, "args."@) {
                seq![warn(art_when_unsupported_msg(p.id, a.name, e))]
            } else {
                only_if(!args.contains_key(e.skip(5)), warn(art_when_undefined_msg(p.id, a.name, e.skip(5))))
            }
        },
    }
}

fn art_when_one(phase: &Phase, a: &crate::model::Artifact, args: &StrMap<ArgDef>, out: &mut Vec<LintDiagnostic>)
    ensures
        views(final(out)@) == views(old(out)@) + art_when_item(phase@, a@, args@),
{
    proof {
        reveal_strlit("args.");
    }
    match &a.when {
        None => {},
        Some(expr) => {
            let e = trim_exec(expr.as_str());
            if !starts_with(e.as_str(), "args.") {
                let mut m = String::from_str("phase '");
                m.append(phase.id.as_str());
                m.append("' artifact '");
                m.append(a.name.as_str());
                m.append("' has unsupported when expression '");
                m.append(e.as_str());
                m.append("'; only `args.<flag>` is supported");
                push_diag(out, Severity::Warning, m);
                return;
            }
            let n = e.unicode_len();
            let arg = e.as_str().substring_char(5, n);
            assert(arg@ =~= e@.skip(5));
            if !args.contains_key(arg) {
                let mut m = String::from_str("phase '");
                m.append(phase.id.as_str());
                m.append("' artifact '");
                m.append(a.name.as_str());
                m.append("' references undefined arg '");
                m.append(arg);
                m.append("' in when clause");
                push_diag(out, Severity::Warning, m);
                return;
            }
        },
    }
    assert(views(out@) =~= views(out@) + Seq::<(Severity, Seq<char>)>::empty());
}

/// The artifact `when:` findings of one phase.
fn phase_art_when(phase: &Phase, args: &StrMap<ArgDef>, out: &mut Vec<LintDiagnostic>)
    ensures
        views(final(out)@) == views(old(out)@) + cat_map(phase@.produces.len() as int, |j: int| art_when_item(phase@, phase@.produces[j], args@)),
{
    let ghost p = phase@;
    let ghost g = |j: int| art_when_item(p, p.produces[j], args@);
    let ghost base = views(out@);
    let mut j: usize = 0;
    assert(views(out@) =~= base + cat_map(0, g));
    while j < phase.produces.len()
        invariant
            j <= phase.produces@.len(),
            p == phase@,
            g == (|j: int| art_when_item(p, p.produces[j], args@)),
            views(out@) == base + cat_map(j as int, g),
        decreases phase.produces@.len() - j,
    {
        let ghost before = views(out@);
        assert(phase.produces@[j as int]@ == p.produces[j as int]);
        art_when_one(phase, &phase.produces[j], args, out);
        proof {
            lemma_cat_map_step(j as int, g);
            assert(views(out@) =~= before + g(j as int));
        }
        j = j + 1;
    }
}

/// The findings for a forbidden `.belt/runs/` literal or `{run_id}`
/// template in field `field` of phase `id`.
pub open spec fn lit_diags(s: Seq<char>, id: Seq<char>, field: Seq<char>) -> Seq<(Severity, Seq<char>)> {
    only_if(
        contains_seq(s, ".belt/runs/"@),
        err("phase '"@ + id + "': "@ + field + " contains forbidden '.belt/runs/' literal — use belt://current/<path>"@),
    ) + only_if(
        contains_seq(s, "{run_id}"@),
        err("phase '"@ + id + "': "@ + field + " contains forbidden '{run_id}' template — use belt://current/<path>"@),
    )
}

fn check_string(s: &str, phase_id: &str, field: &str, out: &mut Vec<LintDiagnostic>)
    ensures
        views(final(out)@) == views(old(out)@) + lit_diags(s@, phase_id@, field@),
{
    let ghost base = views(out@);
    if contains_str(s, ".belt/runs/") {
        let mut m = String::from_str("phase '");
        m.append(phase_id);
        m.append("': ");
        m.append(field);
        m.append(" contains forbidden '.belt/runs/' literal — use belt://current/<path>");
        push_diag(out, Severity::Error, m);
    }
    let ghost mid = views(out@);
    if contains_str(s, "{run_id}") {
        let mut m = String::from_str("phase '");
        m.append(phase_id);
        m.append("': ");
        m.append(field);
        m.append(" contains forbidden '{run_id}' template — use belt://current/<path>");
        push_diag(out, Severity::Error, m);
    }
    assert(views(out@) =~= base + lit_diags(s@, phase_id@, field@));
}

/// The literal findings of one produced artifact's path.
pub open spec fn lit_art_item(p: PhaseModel, a: ArtifactModel) -> Seq<(Severity, Seq<char>)> {
    lit_diags(a.path, p.id, "produces.path"@)
}

/// The literal findings of one gate's path or command.
pub open spec fn lit_gate_item(p: PhaseModel, g: GateModel) -> Seq<(Severity, Seq<char>)> {
    match g {
        GateModel::FileExists { file_exists } => lit_diags(file_exists, p.id, "gate.file_exists"@),
        GateModel::Cmd { cmd, .. } => lit_diags(cmd, p.id, "gate.cmd"@),
        _ => Seq::empty(),
    }
}

fn lit_art_one(phase: &Phase, a: &crate::model::Artifact, out: &mut Vec<LintDiagnostic>)
    ensures
        views(final(out)@) == views(old(out)@) + lit_art_item(phase@, a@),
{
    check_string(a.path.as_str(), phase.id.as_str(), "produces.path", out);
}

fn lit_gate_one(phase: &Phase, g: &GateCheck, out: &mut Vec<LintDiagnostic>)
    ensures
        views(final(out)@) == views(old(out)@) + lit_gate_item(phase@, g@),
{
    match g {
        GateCheck::FileExists { file_exists } => check_string(file_exists.as_str(), phase.id.as_str(), "gate.file_exists", out),
        GateCheck::Cmd { cmd, .. } => check_string(cmd.as_str(), phase.id.as_str(), "gate.cmd", out),
        _ => {
            assert(views(out@) =~= views(out@) + Seq::<(Severity, Seq<char>)>::empty());
        },
    }
}

/// The literal findings of one phase's produced paths.
fn phase_lit_arts(phase: &Phase, out: &mut Vec<LintDiagnostic>)
    ensures
        views(final(out)@) == views(old(out)@) + cat_map(phase@.produces.len() as int, |j: int| lit_art_item(phase@, phase@.produces[j])),
{
    let ghost p = phase@;
    let ghost g = |j: int| lit_art_item(p, p.produces[j]);
    let ghost base = views(out@);
    let mut j: usize = 0;
    assert(views(out@) =~= base + cat_map(0, g));
    while j < phase.produces.len()
        invariant
            j <= phase.produces@.len(),
            p == phase@,
            g == (|j: int| lit_art_item(p, p.produces[j])),
            views(out@) == base + cat_map(j as int, g),
        decreases phase.produces@.len() - j,
    {
        let ghost before = views(out@);
        assert(phase.produces@[j as int]@ == p.produces[j as int]);
        lit_art_one(phase, &phase.produces[j], out);
        proof {
            lemma_cat_map_step(j as int, g);
            assert(views(out@) =~= before + g(j as int));
        }
        j = j + 1;
    }
}

/// The literal findings of one phase's gates.
fn phase_lit_gates(phase: &Phase, out: &mut Vec<LintDiagnostic>)
    ensures
        views(final(out)@) == views(old(out)@) + cat_map(phase@.gate.len() as int, |j: int| lit_gate_item(phase@, phase@.gate[j])),
{
    let ghost p = phase@;
    let ghost g = |j: int| lit_gate_item(p, p.gate[j]);
    let ghost base = views(out@);
    let mut j: usize = 0;
    assert(views(out@) =~= base + cat_map(0, g));
    while j < phase.gate.len()
        invariant
            j <= phase.gate@.len(),
            p == phase@,
            g == (|j: int| lit_gate_item(p, p.gate[j])),
            views(out@) == base + cat_map(j as int, g),
        decreases phase.gate@.len() - j,
    {
        let ghost before = views(out@);
        assert(phase.gate@[j as int]@ == p.gate[j as int]);
        lit_gate_one(phase, &phase.gate[j], out);
        proof {
            lemma_cat_map_step(j as int, g);
            assert(views(out@) =~= before + g(j as int));
        }
        j = j + 1;
    }
}

/// The literal findings of one phase: produced paths first, then gates.
pub open spec fn lit_phase_diags(p: PhaseModel) -> Seq<(Severity, Seq<char>)> {
    cat_map(p.produces.len() as int, |j: int| lit_art_item(p, p.produces[j])) + cat_map(
        p.gate.len() as int,
        |j: int| lit_gate_item(p, p.gate[j]),
    )
}

fn phase_lit(phase: &Phase, out: &mut Vec<LintDiagnostic>)
    ensures
        views(final(out)@) == views(old(out)@) + lit_phase_diags(phase@),
{
    let ghost base = views(out@);
    phase_lit_arts(phase, out);
    phase_lit_gates(phase, out);
    assert(views(out@) =~= base + lit_phase_diags(phase@));
}

/// The URI findings of one consumed reference: an external URI whose text
/// does not parse back.
pub open spec fn uri_item(p: PhaseModel, c: ArtifactRefModel) -> Seq<(Severity, Seq<char>)> {
    match c {
        ArtifactRefModel::External { name, uri } => match parse_spec(render_spec(uri)) {
            Err(e) => seq![err("phase '"@ + p.id + "': consumes '"@ + name + "' URI invalid: "@ + crate::uri::uri_error_message(e))],
            Ok(_) => Seq::empty(),
        },
        _ => Seq::empty(),
    }
}

fn uri_one(phase: &Phase, c: &ArtifactRef, out: &mut Vec<LintDiagnostic>)
    ensures
        views(final(out)@) == views(old(out)@) + uri_item(phase@, c@),
{
    match c {
        ArtifactRef::External { name, uri } => {
            let s = uri.to_uri_string();
            match BeltUri::parse(s.as_str()) {
                Err(e) => {
                    let mut m = String::from_str("phase '");
                    m.append(phase.id.as_str());
                    m.append("': consumes '");
                    m.append(name.as_str());
                    m.append("' URI invalid: ");
                    let em = e.message();
                    m.append(em.as_str());
                    push_diag(out, Severity::Error, m);
                    return;
                },
                Ok(_) => {},
            }
        },
        _ => {},
    }
    assert(views(out@) =~= views(out@) + Seq::<(Severity, Seq<char>)>::empty());
}

/// The message of an external producer without sibling definition.
pub open spec fn sibling_msg(id: Seq<char>, name: Seq<char>, q: Seq<char>) -> Seq<char> {
    "phase '"@ + id + "': consumes '"@ + name + "' references pipeline '"@ + q
        + "' but no sibling YAML found (looked for '"@ + q + ".yml' and '"@ + q + "/pipeline.yml')"@
}

/// The producer pipeline a `latest` or `workspace` URI names.
pub open spec fn producer_of(u: UriModel) -> Option<Seq<char>> {
    match u {
        UriModel::Latest { pipeline, .. } => Some(pipeline),
        UriModel::WorkspaceLatest { pipeline, .. } => Some(pipeline),
        _ => None,
    }
}

/// An external reference to a producer pipeline with neither
/// `<producer>.yml` nor `<producer>/pipeline.yml` beside this pipeline.
pub open spec fn sibling_item(p: PhaseModel, c: ArtifactRefModel, files: Seq<Seq<char>>) -> Seq<(Severity, Seq<char>)> {
    match c {
        ArtifactRefModel::External { name, uri } => match producer_of(uri) {
            Some(q) => only_if(
                !files.contains(q + ".yml"@) && !files.contains(q + "/pipeline.yml"@),
                warn(sibling_msg(p.id, name, q)),
            ),
            None => Seq::empty(),
        },
        _ => Seq::empty(),
    }
}

fn sibling_one(phase: &Phase, c: &ArtifactRef, files: &Vec<String>, out: &mut Vec<LintDiagnostic>)
    ensures
        views(final(out)@) == views(old(out)@) + sibling_item(phase@, c@, views(files@)),
{
    match c {
        ArtifactRef::External { name, uri } => {
            let producer: Option<&String> = match uri {
                BeltUri::Latest { pipeline, .. } => Some(pipeline),
                BeltUri::WorkspaceLatest { pipeline, .. } => Some(pipeline),
                _ => None,
            };
            match producer {
                Some(q) => {
                    let mut f1 = String::from_str(q.as_str());
                    f1.append(".yml");
                    let mut f2 = String::from_str(q.as_str());
                    f2.append("/pipeline.yml");
                    if !contains_string(files, f1.as_str()) && !contains_string(files, f2.as_str()) {
                        let mut m = String::from_str("phase '");
                        m.append(phase.id.as_str());
                        m.append("': consumes '");
                        m.append(name.as_str());
                        m.append("' references pipeline '");
                        m.append(q.as_str());
                        m.append("' but no sibling YAML found (looked for '");
                        m.append(q.as_str());
                        m.append(".yml' and '");
                        m.append(q.as_str());
                        m.append("/pipeline.yml')");
                        push_diag(out, Severity::Warning, m);
                        return;
                    }
                },
                None => {},
            }
        },
        _ => {},
    }
    assert(views(out@) =~= views(out@) + Seq::<(Severity, Seq<char>)>::empty());
}

/// The URI grammar findings of one phase.
fn phase_uri(phase: &Phase, out: &mut Vec<LintDiagnostic>)
    ensures
        views(final(out)@) == views(old(out)@) + cat_map(phase@.consumes.len() as int, |j: int| uri_item(phase@, phase@.consumes[j])),
{
    let ghost p = phase@;
    let ghost g = |j: int| uri_item(p, p.consumes[j]);
    let ghost base = views(out@);
    let mut j: usize = 0;
    assert(views(out@) =~= base + cat_map(0, g));
    while j < phase.consumes.len()
        invariant
            j <= phase.consumes@.len(),
            p == phase@,
            g == (|j: int| uri_item(p, p.consumes[j])),
            views(out@) == base + cat_map(j as int, g),
        decreases phase.consumes@.len() - j,
    {
        let ghost before = views(out@);
        assert(phase.consumes@[j as int]@ == p.consumes[j as int]);
        uri_one(phase, &phase.consumes[j], out);
        proof {
            lemma_cat_map_step(j as int, g);
            assert(views(out@) =~= before + g(j as int));
        }
        j = j + 1;
    }
}

/// The sibling-producer findings of one phase.
fn phase_sibling(phase: &Phase, files: &Vec<String>, out: &mut Vec<LintDiagnostic>)
    ensures
        views(final(out)@) == views(old(out)@) + cat_map(phase@.consumes.len() as int, |j: int| sibling_item(phase@, phase@.consumes[j], views(files@))),
{
    let ghost p = phase@;
    let ghost g = |j: int| sibling_item(p, p.consumes[j], views(files@));
    let ghost base = views(out@);
    let mut j: usize = 0;
    assert(views(out@) =~= base + cat_map(0, g));
    while j < phase.consumes.len()
        invariant
            j <= phase.consumes@.len(),
            p == phase@,
            g == (|j: int| sibling_item(p, p.consumes[j], views(files@))),
            views(out@) == base + cat_map(j as int, g),
        decreases phase.consumes@.len() - j,
    {
        let ghost before = views(out@);
        assert(phase.consumes@[j as int]@ == p.consumes[j as int]);
        sibling_one(phase, &phase.consumes[j], files, out);
        proof {
            lemma_cat_map_step(j as int, g);
            assert(views(out@) =~= before + g(j as int));
        }
        j = j + 1;
    }
}

/// The `gate: uses:` findings of a phase.
pub open spec fn gate_uses_diags(p: PhaseModel, existing: Seq<Seq<char>>) -> Seq<(Severity, Seq<char>)> {
    cat_map(p.gate.len() as int, |j: int| gate_uses_item(p, p.gate[j], existing))
}

/// The `validate: { file: ... }` findings of a phase.
pub open spec fn validate_diags(p: PhaseModel, existing: Seq<Seq<char>>) -> Seq<(Severity, Seq<char>)> {
    cat_map(p.validate.len() as int, |j: int| validate_item(p, p.validate[j], existing))
}

/// Findings on artifacts of a phase that no gate checks.
pub open spec fn protected_diags(p: PhaseModel) -> Seq<(Severity, Seq<char>)> {
    cat_map(p.produces.len() as int, |j: int| protected_item(p, p.produces[j]))
}

/// The artifact `when:` findings of a phase.
pub open spec fn art_when_diags(p: PhaseModel, args: Map<Seq<char>, (crate::model::ArgType, Option<crate::json::JsonModel>)>) -> Seq<(Severity, Seq<char>)> {
    cat_map(p.produces.len() as int, |j: int| art_when_item(p, p.produces[j], args))
}

/// The URI grammar findings of a phase.
pub open spec fn uri_diags(p: PhaseModel) -> Seq<(Severity, Seq<char>)> {
    cat_map(p.consumes.len() as int, |j: int| uri_item(p, p.consumes[j]))
}

/// The sibling-producer findings of a phase.
pub open spec fn sibling_diags(p: PhaseModel, files: Seq<Seq<char>>) -> Seq<(Severity, Seq<char>)> {
    cat_map(p.consumes.len() as int, |j: int| sibling_item(p, p.consumes[j], files))
}

/// Reports `when:` clauses naming undeclared arguments.
fn check_when_args(phases: &Vec<Phase>, args: &StrMap<ArgDef>, out: &mut Vec<LintDiagnostic>)
    ensures
        views(final(out)@) == views(old(out)@) + cat_map(views(phases@).len() as int, |i: int| when_diags(views(phases@)[i], args@)),
{
    let ghost ps = views(phases@);
    let ghost f = |i: int| when_diags(ps[i], args@);
    let ghost base = views(out@);
    let mut i: usize = 0;
    assert(views(out@) =~= base + cat_map(0, f));
    while i < phases.len()
        invariant
            i <= phases@.len(),
            ps == views(phases@),
            f == (|i: int| when_diags(ps[i], args@)),
            views(out@) == base + cat_map(i as int, f),
        decreases phases@.len() - i,
    {
        let ghost before = views(out@);
        assert(phases@[i as int]@ == ps[i as int]);
        phase_when(&phases[i], args, out);
        proof {
            lemma_cat_map_step(i as int, f);
            assert(views(out@) =~= before + f(i as int));
        }
        i = i + 1;
    }
}

/// Reports leaf phases without description.
fn check_leaf_descriptions(phases: &Vec<Phase>, out: &mut Vec<LintDiagnostic>)
    ensures
        views(final(out)@) == views(old(out)@) + cat_map(views(phases@).len() as int, |i: int| leaf_desc_diags(views(phases@)[i])),
{
    let ghost ps = views(phases@);
    let ghost f = |i: int| leaf_desc_diags(ps[i]);
    let ghost base = views(out@);
    let mut i: usize = 0;
    assert(views(out@) =~= base + cat_map(0, f));
    while i < phases.len()
        invariant
            i <= phases@.len(),
            ps == views(phases@),
            f == (|i: int| leaf_desc_diags(ps[i])),
            views(out@) == base + cat_map(i as int, f),
        decreases phases@.len() - i,
    {
        let ghost before = views(out@);
        assert(phases@[i as int]@ == ps[i as int]);
        phase_leaf_desc(&phases[i], out);
        proof {
            lemma_cat_map_step(i as int, f);
            assert(views(out@) =~= before + f(i as int));
        }
        i = i + 1;
    }
}

/// Reports phases that do nothing.
fn check_empty_phases(phases: &Vec<Phase>, out: &mut Vec<LintDiagnostic>)
    ensures
        views(final(out)@) == views(old(out)@) + cat_map(views(phases@).len() as int, |i: int| empty_phase_diags(views(phases@)[i])),
{
    let ghost ps = views(phases@);
    let ghost f = |i: int| empty_phase_diags(ps[i]);
    let ghost base = views(out@);
    let mut i: usize = 0;
    assert(views(out@) =~= base + cat_map(0, f));
    while i < phases.len()
        invariant
            i <= phases@.len(),
            ps == views(phases@),
            f == (|i: int| empty_phase_diags(ps[i])),
            views(out@) == base + cat_map(i as int, f),
        decreases phases@.len() - i,
    {
        let ghost before = views(out@);
        assert(phases@[i as int]@ == ps[i as int]);
        check_empty_phase(&phases[i], out);
        proof {
            lemma_cat_map_step(i as int, f);
            assert(views(out@) =~= before + f(i as int));
        }
        i = i + 1;
    }
}

/// Reports `gate: uses:` references that do not exist.
fn check_gate_uses_exist(phases: &Vec<Phase>, existing: &Vec<String>, out: &mut Vec<LintDiagnostic>)
    ensures
        views(final(out)@) == views(old(out)@) + cat_map(views(phases@).len() as int, |i: int| gate_uses_diags(views(phases@)[i], views(existing@))),
{
    let ghost ps = views(phases@);
    let ghost f = |i: int| gate_uses_diags(ps[i], views(existing@));
    let ghost base = views(out@);
    let mut i: usize = 0;
    assert(views(out@) =~= base + cat_map(0, f));
    while i < phases.len()
        invariant
            i <= phases@.len(),
            ps == views(phases@),
            f == (|i: int| gate_uses_diags(ps[i], views(existing@))),
            views(out@) == base + cat_map(i as int, f),
        decreases phases@.len() - i,
    {
        let ghost before = views(out@);
        assert(phases@[i as int]@ == ps[i as int]);
        phase_gate_uses(&phases[i], existing, out);
        proof {
            lemma_cat_map_step(i as int, f);
            assert(views(out@) =~= before + f(i as int));
        }
        i = i + 1;
    }
}

/// Reports skill invocations that are empty or lack the leading slash.
fn check_invoke_skill_format(phases: &Vec<Phase>, out: &mut Vec<LintDiagnostic>)
    ensures
        views(final(out)@) == views(old(out)@) + cat_map(views(phases@).len() as int, |i: int| skill_diags(views(phases@)[i])),
{
    let ghost ps = views(phases@);
    let ghost f = |i: int| skill_diags(ps[i]);
    let ghost base = views(out@);
    let mut i: usize = 0;
    assert(views(out@) =~= base + cat_map(0, f));
    while i < phases.len()
        invariant
            i <= phases@.len(),
            ps == views(phases@),
            f == (|i: int| skill_diags(ps[i])),
            views(out@) == base + cat_map(i as int, f),
        decreases phases@.len() - i,
    {
        let ghost before = views(out@);
        assert(phases@[i as int]@ == ps[i as int]);
        phase_skill(&phases[i], out);
        proof {
            lemma_cat_map_step(i as int, f);
            assert(views(out@) =~= before + f(i as int));
        }
        i = i + 1;
    }
}

/// Reports external URIs whose text does not parse back.
fn check_external_uri_grammar(phases: &Vec<Phase>, out: &mut Vec<LintDiagnostic>)
    ensures
        views(final(out)@) == views(old(out)@) + cat_map(views(phases@).len() as int, |i: int| uri_diags(views(phases@)[i])),
{
    let ghost ps = views(phases@);
    let ghost f = |i: int| uri_diags(ps[i]);
    let ghost base = views(out@);
    let mut i: usize = 0;
    assert(views(out@) =~= base + cat_map(0, f));
    while i < phases.len()
        invariant
            i <= phases@.len(),
            ps == views(phases@),
            f == (|i: int| uri_diags(ps[i])),
            views(out@) == base + cat_map(i as int, f),
        decreases phases@.len() - i,
    {
        let ghost before = views(out@);
        assert(phases@[i as int]@ == ps[i as int]);
        phase_uri(&phases[i], out);
        proof {
            lemma_cat_map_step(i as int, f);
            assert(views(out@) =~= before + f(i as int));
        }
        i = i + 1;
    }
}

/// Warns about external producers with no sibling definition.
fn check_external_uri_sibling_producer(phases: &Vec<Phase>, files: &Vec<String>, out: &mut Vec<LintDiagnostic>)
    ensures
        views(final(out)@) == views(old(out)@) + cat_map(views(phases@).len() as int, |i: int| sibling_diags(views(phases@)[i], views(files@))),
{
    let ghost ps = views(phases@);
    let ghost f = |i: int| sibling_diags(ps[i], views(files@));
    let ghost base = views(out@);
    let mut i: usize = 0;
    assert(views(out@) =~= base + cat_map(0, f));
    while i < phases.len()
        invariant
            i <= phases@.len(),
            ps == views(phases@),
            f == (|i: int| sibling_diags(ps[i], views(files@))),
            views(out@) == base + cat_map(i as int, f),
        decreases phases@.len() - i,
    {
        let ghost before = views(out@);
        assert(phases@[i as int]@ == ps[i as int]);
        phase_sibling(&phases[i], files, out);
        proof {
            lemma_cat_map_step(i as int, f);
            assert(views(out@) =~= before + f(i as int));
        }
        i = i + 1;
    }
}

/// Warns about produced artifacts no gate protects.
fn check_produces_protected_by_gate(phases: &Vec<Phase>, out: &mut Vec<LintDiagnostic>)
    ensures
        views(final(out)@) == views(old(out)@) + cat_map(views(phases@).len() as int, |i: int| protected_diags(views(phases@)[i])),
{
    let ghost ps = views(phases@);
    let ghost f = |i: int| protected_diags(ps[i]);
    let ghost base = views(out@);
    let mut i: usize = 0;
    assert(views(out@) =~= base + cat_map(0, f));
    while i < phases.len()
        invariant
            i <= phases@.len(),
            ps == views(phases@),
            f == (|i: int| protected_diags(ps[i])),
            views(out@) == base + cat_map(i as int, f),
        decreases phases@.len() - i,
    {
        let ghost before = views(out@);
        assert(phases@[i as int]@ == ps[i as int]);
        phase_protected(&phases[i], out);
        proof {
            lemma_cat_map_step(i as int, f);
            assert(views(out@) =~= before + f(i as int));
        }
        i = i + 1;
    }
}

/// Reports `validate: { file: ... }` references that do not exist.
fn check_validate_file_refs(phases: &Vec<Phase>, existing: &Vec<String>, out: &mut Vec<LintDiagnostic>)
    ensures
        views(final(out)@) == views(old(out)@) + cat_map(views(phases@).len() as int, |i: int| validate_diags(views(phases@)[i], views(existing@))),
{
    let ghost ps = views(phases@);
    let ghost f = |i: int| validate_diags(ps[i], views(existing@));
    let ghost base = views(out@);
    let mut i: usize = 0;
    assert(views(out@) =~= base + cat_map(0, f));
    while i < phases.len()
        invariant
            i <= phases@.len(),
            ps == views(phases@),
            f == (|i: int| validate_diags(ps[i], views(existing@))),
            views(out@) == base + cat_map(i as int, f),
        decreases phases@.len() - i,
    {
        let ghost before = views(out@);
        assert(phases@[i as int]@ == ps[i as int]);
        phase_validate(&phases[i], existing, out);
        proof {
            lemma_cat_map_step(i as int, f);
            assert(views(out@) =~= before + f(i as int));
        }
        i = i + 1;
    }
}

/// Warns about artifact `when:` clauses that cannot hold.
fn check_artifact_when_references(phases: &Vec<Phase>, args: &StrMap<ArgDef>, out: &mut Vec<LintDiagnostic>)
    ensures
        views(final(out)@) == views(old(out)@) + cat_map(views(phases@).len() as int, |i: int| art_when_diags(views(phases@)[i], args@)),
{
    let ghost ps = views(phases@);
    let ghost f = |i: int| art_when_diags(ps[i], args@);
    let ghost base = views(out@);
    let mut i: usize = 0;
    assert(views(out@) =~= base + cat_map(0, f));
    while i < phases.len()
        invariant
            i <= phases@.len(),
            ps == views(phases@),
            f == (|i: int| art_when_diags(ps[i], args@)),
            views(out@) == base + cat_map(i as int, f),
        decreases phases@.len() - i,
    {
        let ghost before = views(out@);
        assert(phases@[i as int]@ == ps[i as int]);
        phase_art_when(&phases[i], args, out);
        proof {
            lemma_cat_map_step(i as int, f);
            assert(views(out@) =~= before + f(i as int));
        }
        i = i + 1;
    }
}

/// Reports forbidden run-directory literals and templates.
fn check_belt_runs_literal(phases: &Vec<Phase>, out: &mut Vec<LintDiagnostic>)
    ensures
        views(final(out)@) == views(old(out)@) + cat_map(views(phases@).len() as int, |i: int| lit_phase_diags(views(phases@)[i])),
{
    let ghost ps = views(phases@);
    let ghost f = |i: int| lit_phase_diags(ps[i]);
    let ghost base = views(out@);
    let mut i: usize = 0;
    assert(views(out@) =~= base + cat_map(0, f));
    while i < phases.len()
        invariant
            i <= phases@.len(),
            ps == views(phases@),
            f == (|i: int| lit_phase_diags(ps[i])),
            views(out@) == base + cat_map(i as int, f),
        decreases phases@.len() - i,
    {
        let ghost before = views(out@);
        assert(phases@[i as int]@ == ps[i as int]);
        phase_lit(&phases[i], out);
        proof {
            lemma_cat_map_step(i as int, f);
            assert(views(out@) =~= before + f(i as int));
        }
        i = i + 1;
    }
}


// ---------------------------------------------------------------------
// Artifact flow
// ---------------------------------------------------------------------

/// The names a phase produces, in order.
pub open spec fn produce_names(p: PhaseModel) -> Seq<Seq<char>> {
    p.produces.map_values(|a: ArtifactModel| a.name)
}

/// The message of a name produced twice by one phase.
pub open spec fn dup_produces_msg(id: Seq<char>, name: Seq<char>) -> Seq<char> {
    "phase '"@ + id + "': duplicate produces name '"@ + name + "'"@
}

/// Each produced artifact whose name an earlier artifact of the same phase has.
pub open spec fn dup_produces_diags(p: PhaseModel) -> Seq<(Severity, Seq<char>)> {
    cat_map(
        p.produces.len() as int,
        |j: int| only_if(produce_names(p).take(j).contains(p.produces[j].name), err(dup_produces_msg(p.id, p.produces[j].name))),
    )
}

fn produces_in_prefix(phase: &Phase, n: usize, name: &str) -> (r: bool)
    requires
        n <= phase.produces@.len(),
    ensures
        r == produce_names(phase@).take(n as int).contains(name@),
{
    let ghost names = produce_names(phase@).take(n as int);
    let mut k: usize = 0;
    while k < n
        invariant
            k <= n,
            n <= phase.produces@.len(),
            names == produce_names(phase@).take(n as int),
            forall|q: int| 0 <= q < k ==> names[q] != name@,
        decreases n - k,
    {
        assert(names[k as int] == phase.produces@[k as int].name@);
        if str_eq(phase.produces[k].name.as_str(), name) {
            return true;
        }
        k = k + 1;
    }
    false
}

fn phase_dup_produces(phase: &Phase, out: &mut Vec<LintDiagnostic>)
    ensures
        views(final(out)@) == views(old(out)@) + dup_produces_diags(phase@),
{
    let ghost p = phase@;
    let ghost g = |j: int| only_if(produce_names(p).take(j).contains(p.produces[j].name), err(dup_produces_msg(p.id, p.produces[j].name)));
    let ghost base = views(out@);
    let mut j: usize = 0;
    assert(views(out@) =~= base + cat_map(0, g));
    while j < phase.produces.len()
        invariant
            j <= phase.produces@.len(),
            p == phase@,
            g == (|j: int| only_if(produce_names(p).take(j).contains(p.produces[j].name), err(dup_produces_msg(p.id, p.produces[j].name)))),
            views(out@) == base + cat_map(j as int, g),
        decreases phase.produces@.len() - j,
    {
        let ghost before = views(out@);
        let name = phase.produces[j].name.as_str();
        assert(p.produces[j as int].name == name@);
        if produces_in_prefix(phase, j, name) {
            let mut m = String::from_str("phase '");
            m.append(phase.id.as_str());
            m.append("': duplicate produces name '");
            m.append(name);
            m.append("'");
            push_diag(out, Severity::Error, m);
        } else {
            assert(views(out@) =~= views(out@) + Seq::<(Severity, Seq<char>)>::empty());
        }
        proof {
            lemma_cat_map_step(j as int, g);
            assert(views(out@) =~= before + g(j as int));
        }
        j = j + 1;
    }
}

/// Reports names produced twice by one phase.
fn check_duplicate_produces(phases: &Vec<Phase>, out: &mut Vec<LintDiagnostic>)
    ensures
        views(final(out)@) == views(old(out)@) + cat_map(views(phases@).len() as int, |i: int| dup_produces_diags(views(phases@)[i])),
{
    let ghost ps = views(phases@);
    let ghost f = |i: int| dup_produces_diags(ps[i]);
    let ghost base = views(out@);
    let mut i: usize = 0;
    assert(views(out@) =~= base + cat_map(0, f));
    while i < phases.len()
        invariant
            i <= phases@.len(),
            ps == views(phases@),
            f == (|i: int| dup_produces_diags(ps[i])),
            views(out@) == base + cat_map(i as int, f),
        decreases phases@.len() - i,
    {
        let ghost before = views(out@);
        assert(phases@[i as int]@ == ps[i as int]);
        phase_dup_produces(&phases[i], out);
        proof {
            lemma_cat_map_step(i as int, f);
            assert(views(out@) =~= before + f(i as int));
        }
        i = i + 1;
    }
}

/// Some phase before position `i` produces `name`.
pub open spec fn produced_before(ps: Seq<PhaseModel>, i: int, name: Seq<char>) -> bool {
    exists|j: int| 0 <= j < i && #[trigger] produce_names(ps[j]).contains(name)
}

/// The phase `from`, placed before position `i`, produces `name`.
pub open spec fn produced_by_before(ps: Seq<PhaseModel>, i: int, name: Seq<char>, from: Seq<char>) -> bool {
    exists|j: int| 0 <= j < i && ps[j].id == from && #[trigger] produce_names(ps[j]).contains(name)
}

/// The message of a consumed name no earlier phase produces.
pub open spec fn consume_named_msg(id: Seq<char>, name: Seq<char>) -> Seq<char> {
    "phase '"@ + id + "': consumes '"@ + name + "' not produced by any earlier phase"@
}

/// The message of a qualified consumed name not found.
pub open spec fn consume_qualified_msg(id: Seq<char>, name: Seq<char>, from: Seq<char>) -> Seq<char> {
    "phase '"@ + id + "': consumes {name: '"@ + name + "', from: '"@ + from + "'} not found in earlier phases"@
}

/// The finding of a reference consumed by the phase at position `i`.
pub open spec fn consume_item(ps: Seq<PhaseModel>, i: int, c: ArtifactRefModel) -> Seq<(Severity, Seq<char>)> {
    match c {
        ArtifactRefModel::Named(n) => only_if(!produced_before(ps, i, n), err(consume_named_msg(ps[i].id, n))),
        ArtifactRefModel::Qualified { name, from } => only_if(
            !produced_by_before(ps, i, name, from),
            err(consume_qualified_msg(ps[i].id, name, from)),
        ),
        ArtifactRefModel::External { .. } => Seq::empty(),
    }
}

/// The consume findings of all phases.
pub open spec fn consume_diags(ps: Seq<PhaseModel>) -> Seq<(Severity, Seq<char>)> {
    cat_map(
        ps.len() as int,
        |i: int| cat_map(ps[i].consumes.len() as int, |j: int| consume_item(ps, i, ps[i].consumes[j])),
    )
}

/// All artifact-flow findings: duplicate produced names first, then
/// unresolved consumed references.
pub open spec fn artifact_flow_diags(ps: Seq<PhaseModel>) -> Seq<(Severity, Seq<char>)> {
    cat_map(ps.len() as int, |i: int| dup_produces_diags(ps[i])) + consume_diags(ps)
}

fn phase_produces(phase: &Phase, name: &str) -> (r: bool)
    ensures
        r == produce_names(phase@).contains(name@),
{
    let n = phase.produces.len();
    let r = produces_in_prefix(phase, n, name);
    assert(produce_names(phase@).take(n as int) =~= produce_names(phase@));
    r
}

fn find_producer(phases: &Vec<Phase>, i: usize, name: &str, from: Option<&str>) -> (r: bool)
    requires
        i <= phases@.len(),
    ensures
        r == match from {
            None => produced_before(views(phases@), i as int, name@),
            Some(f) => produced_by_before(views(phases@), i as int, name@, f@),
        },
{
    let ghost ps = views(phases@);
    let mut j: usize = 0;
    while j < i
        invariant
            j <= i,
            i <= phases@.len(),
            ps == views(phases@),
            forall|q: int|
                0 <= q < j ==> !(#[trigger] produce_names(ps[q]).contains(name@) && match from {
                    None => true,
                    Some(f) => ps[q].id == f@,
                }),
        decreases i - j,
    {
        assert(ps[j as int] == phases@[j as int]@);
        let id_ok = match from {
            None => true,
            Some(f) => str_eq(phases[j].id.as_str(), f),
        };
        if id_ok && phase_produces(&phases[j], name) {
            return true;
        }
        j = j + 1;
    }
    false
}

fn check_consumes(phases: &Vec<Phase>, out: &mut Vec<LintDiagnostic>)
    ensures
        views(final(out)@) == views(old(out)@) + consume_diags(views(phases@)),
{
    let ghost ps = views(phases@);
    let ghost f = |i: int| cat_map(ps[i].consumes.len() as int, |j: int| consume_item(ps, i, ps[i].consumes[j]));
    let ghost base = views(out@);
    let n = phases.len();
    let mut i: usize = 0;
    assert(views(out@) =~= base + cat_map(0, f));
    while i < n
        invariant
            i <= n,
            n == phases@.len(),
            ps == views(phases@),
            f == (|i: int| cat_map(ps[i].consumes.len() as int, |j: int| consume_item(ps, i, ps[i].consumes[j]))),
            views(out@) == base + cat_map(i as int, f),
        decreases n - i,
    {
        let ghost before = views(out@);
        let phase = &phases[i];
        assert(phase@ == ps[i as int]);
        let ghost g = |j: int| consume_item(ps, i as int, ps[i as int].consumes[j]);
        let mut j: usize = 0;
        assert(views(out@) =~= before + cat_map(0, g));
        while j < phase.consumes.len()
            invariant
                j <= phase.consumes@.len(),
                phase == &phases@[i as int],
                phase@ == ps[i as int],
                i < n,
                n == phases@.len(),
                ps == views(phases@),
                g == (|j: int| consume_item(ps, i as int, ps[i as int].consumes[j])),
                views(out@) == before + cat_map(j as int, g),
            decreases phase.consumes@.len() - j,
        {
            let ghost b2 = views(out@);
            assert(phase.consumes@[j as int]@ == ps[i as int].consumes[j as int]);
            match &phase.consumes[j] {
                ArtifactRef::Named(name) => {
                    if !find_producer(phases, i, name.as_str(), None) {
                        let mut m = String::from_str("phase '");
                        m.append(phase.id.as_str());
                        m.append("': consumes '");
                        m.append(name.as_str());
                        m.append("' not produced by any earlier phase");
                        push_diag(out, Severity::Error, m);
                    } else {
                        assert(views(out@) =~= views(out@) + Seq::<(Severity, Seq<char>)>::empty());
                    }
                },
                ArtifactRef::Qualified { name, from } => {
                    if !find_producer(phases, i, name.as_str(), Some(from.as_str())) {
                        let mut m = String::from_str("phase '");
                        m.append(phase.id.as_str());
                        m.append("': consumes {name: '");
                        m.append(name.as_str());
                        m.append("', from: '");
                        m.append(from.as_str());
                        m.append("'} not found in earlier phases");
                        push_diag(out, Severity::Error, m);
                    } else {
                        assert(views(out@) =~= views(out@) + Seq::<(Severity, Seq<char>)>::empty());
                    }
                },
                ArtifactRef::External { .. } => {
                    assert(views(out@) =~= views(out@) + Seq::<(Severity, Seq<char>)>::empty());
                },
            }
            proof {
                lemma_cat_map_step(j as int, g);
                assert(views(out@) =~= b2 + g(j as int));
            }
            j = j + 1;
        }
        proof {
            assert(cat_map(phase.consumes@.len() as int, g) == f(i as int));
            lemma_cat_map_step(i as int, f);
            assert(views(out@) =~= before + f(i as int));
        }
        i = i + 1;
    }
}

/// Reports names produced twice within a phase and consumed references that
/// no earlier phase produces.
pub fn check_artifact_flow(pipeline: &Pipeline, diagnostics: &mut Vec<LintDiagnostic>)
    ensures
        views(final(diagnostics)@) == views(old(diagnostics)@) + artifact_flow_diags(views(pipeline.phases@)),
{
    let ghost base = views(diagnostics@);
    check_duplicate_produces(&pipeline.phases, diagnostics);
    check_consumes(&pipeline.phases, diagnostics);
    assert(views(diagnostics@) =~= base + artifact_flow_diags(views(pipeline.phases@)));
}


// ---------------------------------------------------------------------
// Sub-pipeline references
// ---------------------------------------------------------------------

/// The presence recorded at position `i`; absent means not found.
pub open spec fn present_at(present: Seq<bool>, i: int) -> bool {
    if 0 <= i < present.len() {
        present[i]
    } else {
        false
    }
}

/// The files not yet on the reference path.
pub open spec fn unvisited(files: Map<Seq<char>, LoadedModel>, visited: Seq<Seq<char>>) -> Set<Seq<char>> {
    files.dom().difference(visited.to_set())
}

/// Putting a file of the set on the reference path shrinks the set of files
/// not yet on it.
pub proof fn lemma_unvisited_shrinks(files: Map<Seq<char>, LoadedModel>, visited: Seq<Seq<char>>, link: Seq<char>)
    requires
        files.dom().finite(),
        files.contains_key(link),
        !visited.contains(link),
    ensures
        unvisited(files, visited.push(link)).len() < unvisited(files, visited).len(),
{
    let d = unvisited(files, visited);
    vstd::set_lib::lemma_len_subset(d, files.dom());
    assert(visited.push(link).to_set() =~= visited.to_set().insert(link)) by {
        assert forall|x: Seq<char>| visited.push(link).to_set().contains(x) <==> visited.to_set().insert(link).contains(x) by {
            if visited.push(link).contains(x) {
                let i = choose|i: int| 0 <= i < visited.push(link).len() && visited.push(link)[i] == x;
                if i < visited.len() {
                    assert(visited[i] == x);
                }
            }
            if visited.contains(x) {
                let i = choose|i: int| 0 <= i < visited.len() && visited[i] == x;
                assert(visited.push(link)[i] == x);
            }
            if x == link {
                assert(visited.push(link)[visited.len() as int] == x);
            }
        }
    }
    assert(unvisited(files, visited.push(link)) =~= d.remove(link));
    assert(d.contains(link));
}

/// The message of a referenced sub-pipeline that does not exist.
pub open spec fn invoke_missing_msg(ns: Seq<char>, id: Seq<char>, sub: Seq<char>) -> Seq<char> {
    "phase '"@ + ns + id + "': invoke pipeline '"@ + sub + "' not found"@
}

/// The missing-reference findings of the first `n` phases of a file,
/// following references into the files reached (each file at most once on a
/// reference path).
pub open spec fn invoke_prefix(
    ps: Seq<PhaseModel>,
    links: Seq<Seq<char>>,
    present: Seq<bool>,
    ns: Seq<char>,
    visited: Seq<Seq<char>>,
    files: Map<Seq<char>, LoadedModel>,
    n: int,
) -> Seq<(Severity, Seq<char>)>
    decreases unvisited(files, visited).len(), n,
    when files.dom().finite()
{
    if n <= 0 {
        Seq::empty()
    } else {
        invoke_prefix(ps, links, present, ns, visited, files, n - 1) + invoke_one(
            ps[n - 1],
            link_at(links, n - 1),
            present_at(present, n - 1),
            ns,
            visited,
            files,
        )
    }
}

/// The missing-reference findings of one phase.
pub open spec fn invoke_one(
    p: PhaseModel,
    link: Seq<char>,
    present: bool,
    ns: Seq<char>,
    visited: Seq<Seq<char>>,
    files: Map<Seq<char>, LoadedModel>,
) -> Seq<(Severity, Seq<char>)>
    decreases unvisited(files, visited).len(), 0int,
    when files.dom().finite()
{
    match p.invoke {
        Some(InvokerModel::Pipeline { pipeline: sub, .. }) => {
            if !present {
                seq![err(invoke_missing_msg(ns, p.id, sub))]
            } else if visited.contains(link) || !files.contains_key(link) {
                Seq::empty()
            } else {
                match files[link] {
                    LoadedModel::Parsed(cps, clinks, cpres) => {
                        proof {
                            lemma_unvisited_shrinks(files, visited, link);
                        }
                        invoke_prefix(cps, clinks, cpres, ns + p.id + "/"@, visited.push(link), files, cps.len() as int)
                    },
                    LoadedModel::Failed(_) => Seq::empty(),
                }
            }
        },
        _ => Seq::empty(),
    }
}

fn present_of(present: &Vec<bool>, i: usize) -> (r: bool)
    ensures
        r == present_at(present@, i as int),
{
    if i < present.len() {
        present[i]
    } else {
        false
    }
}

fn link_str(links: &Vec<String>, i: usize) -> (r: &str)
    ensures
        r@ == link_at(views(links@), i as int),
{
    proof {
        reveal_strlit("");
    }
    if i < links.len() {
        links[i].as_str()
    } else {
        let e = "";
        assert(e@ =~= Seq::<char>::empty());
        e
    }
}

/// Reports sub-pipeline references that do not exist, through every file
/// the references reach.
pub fn check_phases_invoke_pipeline(
    phases: &Vec<Phase>,
    links: &Vec<String>,
    present: &Vec<bool>,
    ns: &str,
    visited: &Vec<String>,
    files: &StrMap<LoadedFile>,
    diagnostics: &mut Vec<LintDiagnostic>,
)
    ensures
        views(final(diagnostics)@) == views(old(diagnostics)@) + invoke_prefix(
            views(phases@),
            views(links@),
            present@,
            ns@,
            views(visited@),
            files@,
            phases@.len() as int,
        ),
    decreases unvisited(files@, views(visited@)).len(), 1int,
{
    files.lemma_dom_finite();
    let ghost ps = views(phases@);
    let ghost base = views(diagnostics@);
    let mut i: usize = 0;
    assert(views(diagnostics@) =~= base + Seq::<(Severity, Seq<char>)>::empty());
    while i < phases.len()
        invariant
            i <= phases@.len(),
            ps == views(phases@),
            files@.dom().finite(),
            views(diagnostics@) == base + invoke_prefix(ps, views(links@), present@, ns@, views(visited@), files@, i as int),
        decreases phases@.len() - i,
    {
        let ghost before = views(diagnostics@);
        let link = link_str(links, i);
        let pres = present_of(present, i);
        assert(phases@[i as int]@ == ps[i as int]);
        invoke_check_one(&phases[i], link, pres, ns, visited, files, diagnostics);
        assert(views(diagnostics@) =~= base + invoke_prefix(ps, views(links@), present@, ns@, views(visited@), files@, i + 1));
        i = i + 1;
    }
}

fn invoke_check_one(
    phase: &Phase,
    link: &str,
    present: bool,
    ns: &str,
    visited: &Vec<String>,
    files: &StrMap<LoadedFile>,
    diagnostics: &mut Vec<LintDiagnostic>,
)
    requires
        files@.dom().finite(),
    ensures
        views(final(diagnostics)@) == views(old(diagnostics)@) + invoke_one(phase@, link@, present, ns@, views(visited@), files@),
    decreases unvisited(files@, views(visited@)).len(), 0int,
{
    match &phase.invoke {
        Some(Invoker::Pipeline { pipeline: sub, .. }) => {
            if !present {
                let mut m = String::from_str("phase '");
                m.append(ns);
                m.append(phase.id.as_str());
                m.append("': invoke pipeline '");
                m.append(sub.as_str());
                m.append("' not found");
                push_diag(diagnostics, Severity::Error, m);
                return;
            }
            if contains_string(visited, link) {
                assert(views(diagnostics@) =~= views(diagnostics@) + Seq::<(Severity, Seq<char>)>::empty());
                return;
            }
            match files.get(link) {
                Some(LoadedFile::Parsed(sf)) => {
                    let mut child_ns = String::from_str(ns);
                    child_ns.append(phase.id.as_str());
                    child_ns.append("/");
                    let mut child_visited = crate::model::clone_vec(visited);
                    child_visited.push(String::from_str(link));
                    assert(views(child_visited@) =~= views(visited@).push(link@));
                    proof {
                        lemma_unvisited_shrinks(files@, views(visited@), link@);
                    }
                    check_phases_invoke_pipeline(
                        &sf.phases,
                        &sf.links,
                        &sf.present,
                        child_ns.as_str(),
                        &child_visited,
                        files,
                        diagnostics,
                    );
                    return;
                },
                _ => {},
            }
        },
        _ => {},
    }
    assert(views(diagnostics@) =~= views(diagnostics@) + Seq::<(Severity, Seq<char>)>::empty());
}

// ---------------------------------------------------------------------
// Obsolete invoke keys in the raw document
// ---------------------------------------------------------------------

/// The obsolete `invoke` key at position `k` of the retired list.
pub open spec fn obsolete_key(k: int) -> Seq<char> {
    if k == 0 {
        "agent"@
    } else if k == 1 {
        "agents"@
    } else {
        "iterations"@
    }
}

/// The migration hint for the obsolete key at position `k`.
pub open spec fn obsolete_hint(k: int) -> Seq<char> {
    if k == 0 {
        "Use `invoke.skill: /<plugin>:<skill-name>` where the skill forks a subagent via `context: fork` + `agent:`."@
    } else if k == 1 {
        "Dispatch subagents from inside a parent skill via Task tool, and reference the skill from `invoke.skill: /<plugin>:<skill-name>`."@
    } else {
        "N-way voting is not part of the belt pipeline surface."@
    }
}

/// The first retired key, from position `k` on, that an `invoke` mapping holds.
pub open spec fn first_obsolete(invoke: crate::json::JsonModel, k: int) -> Option<int>
    decreases 3 - k,
{
    if k < 0 || k >= 3 {
        None
    } else if json_get(invoke, obsolete_key(k)) is Some {
        Some(k)
    } else {
        first_obsolete(invoke, k + 1)
    }
}

/// How a phase of the raw document is named in messages.
pub open spec fn phase_label(phase: crate::json::JsonModel) -> Seq<char> {
    match json_get(phase, "id"@) {
        Some(crate::json::JsonModel::Str(s)) => s,
        _ => "<unnamed>"@,
    }
}

/// The message for the retired key `k` in phase number `idx`.
pub open spec fn obsolete_msg(idx: nat, id: Seq<char>, k: int) -> Seq<char> {
    "phase["@ + crate::error::decimal(idx) + "] '"@ + id + "': `invoke."@ + obsolete_key(k)
        + "` is no longer supported (removed 2026-04-16). "@ + obsolete_hint(k)
}

/// The message for phase number `idx` of the raw document, if its `invoke`
/// holds a retired key.
pub open spec fn raw_phase_error(idx: nat, phase: crate::json::JsonModel) -> Option<Seq<char>> {
    match json_get(phase, "invoke"@) {
        None => None,
        Some(inv) => match first_obsolete(inv, 0) {
            None => None,
            Some(k) => Some(obsolete_msg(idx, phase_label(phase), k)),
        },
    }
}

/// The message for the first phase, from position `i` on, whose `invoke`
/// holds a retired key.
pub open spec fn raw_from(items: Seq<crate::json::JsonModel>, i: int) -> Option<Seq<char>>
    decreases items.len() - i,
{
    if i < 0 || i >= items.len() {
        None
    } else {
        match raw_phase_error(i as nat, items[i]) {
            Some(m) => Some(m),
            None => raw_from(items, i + 1),
        }
    }
}

/// The message for the first phase of the raw document whose `invoke`
/// holds a retired key; nothing when none does or there is no `phases` list.
pub open spec fn raw_lint_spec(doc: crate::json::JsonModel) -> Option<Seq<char>> {
    match json_get(doc, "phases"@) {
        Some(crate::json::JsonModel::Array(items)) => raw_from(items, 0),
        _ => None,
    }
}

fn obsolete_key_exec(k: usize) -> (r: &'static str)
    requires
        k < 3,
    ensures
        r@ == obsolete_key(k as int),
{
    if k == 0 {
        "agent"
    } else if k == 1 {
        "agents"
    } else {
        "iterations"
    }
}

fn obsolete_hint_exec(k: usize) -> (r: &'static str)
    requires
        k < 3,
    ensures
        r@ == obsolete_hint(k as int),
{
    if k == 0 {
        "Use `invoke.skill: /<plugin>:<skill-name>` where the skill forks a subagent via `context: fork` + `agent:`."
    } else if k == 1 {
        "Dispatch subagents from inside a parent skill via Task tool, and reference the skill from `invoke.skill: /<plugin>:<skill-name>`."
    } else {
        "N-way voting is not part of the belt pipeline surface."
    }
}

fn first_obsolete_exec(invoke: &JsonValue) -> (r: Option<usize>)
    ensures
        match r {
            Some(k) => k < 3 && first_obsolete(invoke@, 0) == Some(k as int),
            None => first_obsolete(invoke@, 0) is None,
        },
{
    let mut k: usize = 0;
    while k < 3
        invariant
            k <= 3,
            first_obsolete(invoke@, 0) == first_obsolete(invoke@, k as int),
        decreases 3 - k,
    {
        if crate::json::json_get_exec(invoke, obsolete_key_exec(k)).is_some() {
            return Some(k);
        }
        k = k + 1;
    }
    None
}

fn raw_phase_error_exec(idx: usize, phase: &JsonValue) -> (r: Option<String>)
    ensures
        match r {
            Some(m) => raw_phase_error(idx as nat, phase@) == Some(m@),
            None => raw_phase_error(idx as nat, phase@) is None,
        },
{
    let inv = match crate::json::json_get_exec(phase, "invoke") {
        None => {
            return None;
        },
        Some(i) => i,
    };
    let k = match first_obsolete_exec(inv) {
        None => {
            return None;
        },
        Some(k) => k,
    };
    let label: &str = match crate::json::json_get_exec(phase, "id") {
        Some(JsonValue::String(s)) => s.as_str(),
        _ => "<unnamed>",
    };
    assert(label@ == phase_label(phase@));
    let mut m = String::from_str("phase[");
    let d = crate::error::decimal_text(idx as u64);
    m.append(d.as_str());
    m.append("] '");
    m.append(label);
    m.append("': `invoke.");
    m.append(obsolete_key_exec(k));
    m.append("` is no longer supported (removed 2026-04-16). ");
    m.append(obsolete_hint_exec(k));
    Some(m)
}

/// Detects the retired `invoke.agent`, `invoke.agents` and
/// `invoke.iterations` keys in a pipeline document, so that a migration hint
/// can be given before the typed parse fails on them.
pub fn lint_raw_pipeline_yaml(doc: &JsonValue) -> (r: Result<(), BeltError>)
    ensures
        match r {
            Ok(()) => raw_lint_spec(doc@) is None,
            Err(e) => raw_lint_spec(doc@) matches Some(m) && e@ == crate::error::ErrorModel::InvalidPipeline {
                message: m,
            },
        },
{
    broadcast use vstd::std_specs::vec::group_vec_axioms;

    let phases = match crate::json::json_get_exec(doc, "phases") {
        Some(JsonValue::Array(items)) => items,
        _ => {
            return Ok(());
        },
    };
    let ghost items = match json_get(doc@, "phases"@) {
        Some(crate::json::JsonModel::Array(x)) => x,
        _ => Seq::empty(),
    };
    assert(items.len() == phases@.len());
    let mut i: usize = 0;
    while i < phases.len()
        invariant
            i <= phases@.len(),
            items.len() == phases@.len(),
            forall|j: int| 0 <= j < phases@.len() ==> #[trigger] items[j] == phases@[j]@,
            raw_lint_spec(doc@) == raw_from(items, i as int),
        decreases phases@.len() - i,
    {
        assert(items[i as int] == phases@[i as int]@);
        match raw_phase_error_exec(i, &phases[i]) {
            Some(m) => {
                return Err(BeltError::InvalidPipeline { message: m });
            },
            None => {},
        }
        i = i + 1;
    }
    Ok(())
}

// ---------------------------------------------------------------------
// The whole lint
// ---------------------------------------------------------------------

/// What the caller read and observed around a pipeline file.
#[derive(Debug)]
pub struct LintSources {
    /// For each phase of the pipeline that invokes a sub-pipeline, the key
    /// of the referenced file, at the phase's position.
    pub links: Vec<String>,
    /// For each such phase, whether the referenced path exists.
    pub present: Vec<bool>,
    /// The key (canonical path) of the pipeline file itself.
    pub root_key: String,
    /// Every sub-pipeline file the references reach, by key.
    pub files: StrMap<LoadedFile>,
    /// Which referenced paths exist or are regular files.
    pub facts: PathFacts,
}

/// The findings of the static checks, in the order the checks run.
pub open spec fn static_diags(
    ps: Seq<PhaseModel>,
    args: Map<Seq<char>, (crate::model::ArgType, Option<crate::json::JsonModel>)>,
    links: Seq<Seq<char>>,
    present: Seq<bool>,
    root_key: Seq<char>,
    files: Map<Seq<char>, LoadedModel>,
    existing: Seq<Seq<char>>,
    regular: Seq<Seq<char>>,
) -> Seq<(Severity, Seq<char>)> {
    dup_id_diags(ps) + regate_diags(ps) + cat_map(ps.len() as int, |i: int| when_diags(ps[i], args)) + cat_map(
        ps.len() as int,
        |i: int| leaf_desc_diags(ps[i]),
    ) + cat_map(ps.len() as int, |i: int| empty_phase_diags(ps[i])) + cat_map(
        ps.len() as int,
        |i: int| gate_uses_diags(ps[i], existing),
    ) + invoke_prefix(ps, links, present, Seq::empty(), seq![root_key], files, ps.len() as int) + cat_map(
        ps.len() as int,
        |i: int| skill_diags(ps[i]),
    ) + artifact_flow_diags(ps) + cat_map(ps.len() as int, |i: int| uri_diags(ps[i])) + cat_map(
        ps.len() as int,
        |i: int| sibling_diags(ps[i], regular),
    ) + cat_map(ps.len() as int, |i: int| protected_diags(ps[i])) + cat_map(
        ps.len() as int,
        |i: int| validate_diags(ps[i], existing),
    ) + cat_map(ps.len() as int, |i: int| art_when_diags(ps[i], args)) + cat_map(
        ps.len() as int,
        |i: int| lit_phase_diags(ps[i]),
    )
}

/// Some finding is an error.
pub open spec fn has_error(ds: Seq<(Severity, Seq<char>)>) -> bool {
    exists|k: int| 0 <= k < ds.len() && #[trigger] ds[k].0 == Severity::Error
}

/// The findings after the expansion stage, which runs only when the static
/// checks found no error.
pub open spec fn with_expansion(
    ds: Seq<(Severity, Seq<char>)>,
    ps: Seq<PhaseModel>,
    links: Seq<Seq<char>>,
    root_key: Seq<char>,
    files: Map<Seq<char>, LoadedModel>,
) -> Seq<(Severity, Seq<char>)> {
    if has_error(ds) {
        ds
    } else {
        match crate::expander::expand_prefix(ps, links, Seq::empty(), Map::empty(), seq![root_key], files, ps.len() as int) {
            Err(e) => ds.push(err("expansion error: "@ + message_spec(e))),
            Ok(_) => ds,
        }
    }
}

/// The findings of a pipeline file: the retired-key finding alone when the
/// raw document has one; else the parse error alone when the typed parse
/// failed; else the static findings, then an expansion error if any.
pub open spec fn lint_spec(
    raw: Option<crate::json::JsonModel>,
    parsed: Result<(Seq<PhaseModel>, Map<Seq<char>, (crate::model::ArgType, Option<crate::json::JsonModel>)>), crate::error::ErrorModel>,
    links: Seq<Seq<char>>,
    present: Seq<bool>,
    root_key: Seq<char>,
    files: Map<Seq<char>, LoadedModel>,
    existing: Seq<Seq<char>>,
    regular: Seq<Seq<char>>,
) -> Seq<(Severity, Seq<char>)> {
    if raw matches Some(d) && raw_lint_spec(d) is Some {
        seq![err(message_spec(crate::error::ErrorModel::InvalidPipeline { message: raw_lint_spec(raw->Some_0)->Some_0 }))]
    } else {
        match parsed {
            Err(e) => seq![err("parse error: "@ + message_spec(e))],
            Ok((ps, args)) => with_expansion(
                static_diags(ps, args, links, present, root_key, files, existing, regular),
                ps,
                links,
                root_key,
                files,
            ),
        }
    }
}

/// The model of a parse outcome.
pub open spec fn parsed_view(parsed: Result<Pipeline, BeltError>) -> Result<
    (Seq<PhaseModel>, Map<Seq<char>, (crate::model::ArgType, Option<crate::json::JsonModel>)>),
    crate::error::ErrorModel,
> {
    match parsed {
        Ok(p) => Ok((views(p.phases@), p.args@)),
        Err(e) => Err(e@),
    }
}

fn any_error(ds: &Vec<LintDiagnostic>) -> (r: bool)
    ensures
        r == has_error(views(ds@)),
{
    let ghost vs = views(ds@);
    let mut k: usize = 0;
    while k < ds.len()
        invariant
            k <= ds@.len(),
            vs == views(ds@),
            forall|j: int| 0 <= j < k ==> vs[j].0 != Severity::Error,
        decreases ds@.len() - k,
    {
        assert(vs[k as int] == ds@[k as int]@);
        if ds[k].severity == Severity::Error {
            return true;
        }
        k = k + 1;
    }
    false
}

/// Lints a pipeline file, given its raw document (`None` when it is not
/// well-formed YAML), the outcome of its typed parse, and what the caller
/// observed around it.
pub fn lint_pipeline(raw: Option<&JsonValue>, parsed: &Result<Pipeline, BeltError>, sources: &LintSources) -> (r: Vec<
    LintDiagnostic,
>)
    ensures
        views(r@) == lint_spec(
            match raw {
                Some(d) => Some(d@),
                None => None,
            },
            parsed_view(*parsed),
            views(sources.links@),
            sources.present@,
            sources.root_key@,
            sources.files@,
            views(sources.facts.existing@),
            views(sources.facts.regular_files@),
        ),
{
    let mut diagnostics: Vec<LintDiagnostic> = Vec::new();
    match raw {
        Some(d) => match lint_raw_pipeline_yaml(d) {
            Err(e) => {
                push_diag(&mut diagnostics, Severity::Error, e.message());
                assert(views(diagnostics@) =~= seq![err(message_spec(e@))]);
                return diagnostics;
            },
            Ok(()) => {},
        },
        None => {},
    }
    let pipeline = match parsed {
        Err(e) => {
            let mut m = String::from_str("parse error: ");
            let em = e.message();
            m.append(em.as_str());
            push_diag(&mut diagnostics, Severity::Error, m);
            assert(views(diagnostics@) =~= seq![err("parse error: "@ + message_spec(e@))]);
            return diagnostics;
        },
        Ok(p) => p,
    };
    let phases = &pipeline.phases;
    let ghost ps = views(phases@);
    let ghost args = pipeline.args@;
    let ghost links = views(sources.links@);
    let ghost existing = views(sources.facts.existing@);
    let ghost regular = views(sources.facts.regular_files@);
    assert(views(diagnostics@) =~= Seq::<(Severity, Seq<char>)>::empty());
    check_duplicate_ids(phases, &mut diagnostics);
    check_regate_targets(phases, &mut diagnostics);
    check_when_args(phases, &pipeline.args, &mut diagnostics);
    check_leaf_descriptions(phases, &mut diagnostics);
    check_empty_phases(phases, &mut diagnostics);
    check_gate_uses_exist(phases, &sources.facts.existing, &mut diagnostics);
    sources.files.lemma_dom_finite();
    let mut visited: Vec<String> = Vec::new();
    visited.push(sources.root_key.clone());
    assert(views(visited@) =~= seq![sources.root_key@]);
    proof {
        reveal_strlit("");
    }
    let ns = "";
    assert(ns@ =~= Seq::<char>::empty());
    check_phases_invoke_pipeline(phases, &sources.links, &sources.present, ns, &visited, &sources.files, &mut diagnostics);
    check_invoke_skill_format(phases, &mut diagnostics);
    check_artifact_flow(pipeline, &mut diagnostics);
    check_external_uri_grammar(phases, &mut diagnostics);
    check_external_uri_sibling_producer(phases, &sources.facts.regular_files, &mut diagnostics);
    check_produces_protected_by_gate(phases, &mut diagnostics);
    check_validate_file_refs(phases, &sources.facts.existing, &mut diagnostics);
    check_artifact_when_references(phases, &pipeline.args, &mut diagnostics);
    check_belt_runs_literal(phases, &mut diagnostics);
    let ghost ds = views(diagnostics@);
    assert(ds =~= static_diags(ps, args, links, sources.present@, sources.root_key@, sources.files@, existing, regular));
    if !any_error(&diagnostics) {
        match expand_pipeline(phases, &sources.links, sources.root_key.as_str(), &sources.files) {
            Err(e) => {
                let mut m = String::from_str("expansion error: ");
                let em = e.message();
                m.append(em.as_str());
                push_diag(&mut diagnostics, Severity::Error, m);
            },
            Ok(_) => {},
        }
    }
    diagnostics
}
} // verus!
