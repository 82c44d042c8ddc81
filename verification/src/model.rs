//! Pipeline, phase and run-state types.
use vstd::prelude::*;
use crate::json::{JsonModel, JsonValue};
use crate::strmap::StrMap;
use crate::uri::{BeltUri, UriModel};

verus! {

/// The models of a sequence of values.
pub open spec fn views<T: View>(s: Seq<T>) -> Seq<T::V> {
    s.map_values(|x: T| x@)
}

/// The model of an optional string.
pub open spec fn opt_view(o: Option<String>) -> Option<Seq<char>> {
    match o {
        Some(s) => Some(s@),
        None => None,
    }
}

/// Types whose values can be copied with the same model.
pub trait DeepClone: View + Sized {
    fn deep_clone(&self) -> (r: Self)
        ensures
            r@ == self@,
    ;
}

impl DeepClone for String {
    fn deep_clone(&self) -> (r: String) {
        self.clone()
    }
}

impl DeepClone for JsonValue {
    fn deep_clone(&self) -> (r: JsonValue) {
        JsonValue::deep_clone(self)
    }
}

impl DeepClone for StrMap<JsonValue> {
    fn deep_clone(&self) -> (r: StrMap<JsonValue>) {
        StrMap::<JsonValue>::deep_clone(self)
    }
}

/// A copy of a vector, element by element.
pub fn clone_vec<T: DeepClone>(v: &Vec<T>) -> (r: Vec<T>)
    ensures
        views(r@) == views(v@),
{
    let mut out: Vec<T> = Vec::new();
    let mut i: usize = 0;
    while i < v.len()
        invariant
            i <= v.len(),
            out@.len() == i,
            forall|j: int| 0 <= j < i ==> out@[j]@ == v@[j]@,
        decreases v.len() - i,
    {
        out.push(v[i].deep_clone());
        i = i + 1;
    }
    assert(views(out@) =~= views(v@));
    out
}

/// A copy of an optional string.
pub fn clone_opt(o: &Option<String>) -> (r: Option<String>)
    ensures
        opt_view(r) == opt_view(*o),
{
    match o {
        Some(s) => Some(s.clone()),
        None => None,
    }
}

/// Supported argument / input types for pipeline args and sub-pipeline inputs.
#[derive(Debug, Clone, Copy, PartialEq, Eq, Structural)]
pub enum ArgType {
    Bool,
    String,
    Number,
    List,
}

/// Argument definition for pipeline-level `args`.
#[derive(Debug)]
pub struct ArgDef {
    pub arg_type: ArgType,
    pub default: Option<JsonValue>,
}

/// A single gate check.
#[derive(Debug)]
pub enum GateCheck {
    Cmd { cmd: String, timeout: u64 },
    FileExists { file_exists: String },
    GitClean { git_clean: bool },
    HasOutput { has_output: bool },
    Uses { uses: String, with: StrMap<JsonValue> },
}

/// Model of a [`GateCheck`].
pub enum GateModel {
    Cmd { cmd: Seq<char>, timeout: u64 },
    FileExists { file_exists: Seq<char> },
    GitClean { git_clean: bool },
    HasOutput { has_output: bool },
    Uses { uses: Seq<char>, with: Map<Seq<char>, JsonModel> },
}

impl View for GateCheck {
    type V = GateModel;

    open spec fn view(&self) -> GateModel {
        match self {
            GateCheck::Cmd { cmd, timeout } => GateModel::Cmd { cmd: cmd@, timeout: *timeout },
            GateCheck::FileExists { file_exists } => GateModel::FileExists { file_exists: file_exists@ },
            GateCheck::GitClean { git_clean } => GateModel::GitClean { git_clean: *git_clean },
            GateCheck::HasOutput { has_output } => GateModel::HasOutput { has_output: *has_output },
            GateCheck::Uses { uses, with } => GateModel::Uses { uses: uses@, with: with@ },
        }
    }
}

impl DeepClone for GateCheck {
    fn deep_clone(&self) -> (r: GateCheck) {
        match self {
            GateCheck::Cmd { cmd, timeout } => GateCheck::Cmd { cmd: cmd.clone(), timeout: *timeout },
            GateCheck::FileExists { file_exists } => GateCheck::FileExists { file_exists: file_exists.clone() },
            GateCheck::GitClean { git_clean } => GateCheck::GitClean { git_clean: *git_clean },
            GateCheck::HasOutput { has_output } => GateCheck::HasOutput { has_output: *has_output },
            GateCheck::Uses { uses, with } => GateCheck::Uses { uses: uses.clone(), with: with.deep_clone() },
        }
    }
}

/// Default gate command timeout in seconds (30 minutes).
pub fn default_gate_timeout() -> (r: u64)
    ensures
        r == 1800,
{
    1800
}

/// A validation criterion: inline text, or a file holding the criteria.
#[derive(Debug)]
pub enum ValidationSource {
    Inline(String),
    File { file: String },
}

/// Model of a [`ValidationSource`].
pub enum ValidationModel {
    Inline(Seq<char>),
    File(Seq<char>),
}

impl View for ValidationSource {
    type V = ValidationModel;

    open spec fn view(&self) -> ValidationModel {
        match self {
            ValidationSource::Inline(s) => ValidationModel::Inline(s@),
            ValidationSource::File { file } => ValidationModel::File(file@),
        }
    }
}

impl DeepClone for ValidationSource {
    fn deep_clone(&self) -> (r: ValidationSource) {
        match self {
            ValidationSource::Inline(s) => ValidationSource::Inline(s.clone()),
            ValidationSource::File { file } => ValidationSource::File { file: file.clone() },
        }
    }
}

/// The scalar shorthand of `validate:`: a string starting with `./` or `/`
/// names a file, anything else is an inline criterion.
pub open spec fn classify_scalar_spec(s: Seq<char>) -> ValidationModel {
    if crate::text::has_prefix(s, seq!['.', '/']) || crate::text::has_prefix(s, seq!['/']) {
        ValidationModel::File(s)
    } else {
        ValidationModel::Inline(s)
    }
}

/// Classifies a scalar `validate:` value as a one-element list.
pub fn classify_scalar(s: String) -> (r: Vec<ValidationSource>)
    ensures
        r@.len() == 1,
        r@[0]@ == classify_scalar_spec(s@),
{
    proof {
        reveal_strlit("./");
        reveal_strlit("/");
        assert("./"@ =~= seq!['.', '/']);
        assert("/"@ =~= seq!['/']);
    }
    if crate::text::starts_with(s.as_str(), "./") || crate::text::starts_with(s.as_str(), "/") {
        let mut v = Vec::new();
        v.push(ValidationSource::File { file: s });
        v
    } else {
        let mut v = Vec::new();
        v.push(ValidationSource::Inline(s));
        v
    }
}

/// A typed artifact produced by a phase.
#[derive(Debug)]
pub struct Artifact {
    pub name: String,
    pub path: String,
    pub description: Option<String>,
    pub when: Option<String>,
}

/// Model of an [`Artifact`].
pub struct ArtifactModel {
    pub name: Seq<char>,
    pub path: Seq<char>,
    pub description: Option<Seq<char>>,
    pub when: Option<Seq<char>>,
}

impl View for Artifact {
    type V = ArtifactModel;

    open spec fn view(&self) -> ArtifactModel {
        ArtifactModel {
            name: self.name@,
            path: self.path@,
            description: opt_view(self.description),
            when: opt_view(self.when),
        }
    }
}

impl DeepClone for Artifact {
    fn deep_clone(&self) -> (r: Artifact) {
        Artifact {
            name: self.name.clone(),
            path: self.path.clone(),
            description: clone_opt(&self.description),
            when: clone_opt(&self.when),
        }
    }
}

/// A reference to an artifact consumed by a phase.
#[derive(Debug)]
pub enum ArtifactRef {
    Named(String),
    External { name: String, uri: BeltUri },
    Qualified { name: String, from: String },
}

/// Model of an [`ArtifactRef`].
pub enum ArtifactRefModel {
    Named(Seq<char>),
    External { name: Seq<char>, uri: UriModel },
    Qualified { name: Seq<char>, from: Seq<char> },
}

impl View for ArtifactRef {
    type V = ArtifactRefModel;

    open spec fn view(&self) -> ArtifactRefModel {
        match self {
            ArtifactRef::Named(n) => ArtifactRefModel::Named(n@),
            ArtifactRef::External { name, uri } => ArtifactRefModel::External { name: name@, uri: uri@ },
            ArtifactRef::Qualified { name, from } => ArtifactRefModel::Qualified { name: name@, from: from@ },
        }
    }
}

/// A copy of a URI with the same model.
pub fn clone_uri(u: &BeltUri) -> (r: BeltUri)
    ensures
        r@ == u@,
{
    match u {
        BeltUri::Latest { pipeline, path } => BeltUri::Latest { pipeline: pipeline.clone(), path: path.clone() },
        BeltUri::WorkspaceLatest { branch, pipeline, path } => BeltUri::WorkspaceLatest {
            branch: branch.clone(),
            pipeline: pipeline.clone(),
            path: path.clone(),
        },
        BeltUri::Run { run_id, path } => BeltUri::Run { run_id: run_id.clone(), path: path.clone() },
        BeltUri::Current { path } => BeltUri::Current { path: path.clone() },
    }
}

impl DeepClone for ArtifactRef {
    fn deep_clone(&self) -> (r: ArtifactRef) {
        match self {
            ArtifactRef::Named(n) => ArtifactRef::Named(n.clone()),
            ArtifactRef::External { name, uri } => ArtifactRef::External { name: name.clone(), uri: clone_uri(uri) },
            ArtifactRef::Qualified { name, from } => ArtifactRef::Qualified { name: name.clone(), from: from.clone() },
        }
    }
}

/// Typed invocation target for a phase.
#[derive(Debug)]
pub enum Invoker {
    Skill { skill: String, args: StrMap<JsonValue> },
    Pipeline { pipeline: String, with: StrMap<JsonValue> },
}

/// Model of an [`Invoker`].
pub enum InvokerModel {
    Skill { skill: Seq<char>, args: Map<Seq<char>, JsonModel> },
    Pipeline { pipeline: Seq<char>, with: Map<Seq<char>, JsonModel> },
}

impl View for Invoker {
    type V = InvokerModel;

    open spec fn view(&self) -> InvokerModel {
        match self {
            Invoker::Skill { skill, args } => InvokerModel::Skill { skill: skill@, args: args@ },
            Invoker::Pipeline { pipeline, with } => InvokerModel::Pipeline { pipeline: pipeline@, with: with@ },
        }
    }
}

impl DeepClone for Invoker {
    fn deep_clone(&self) -> (r: Invoker) {
        match self {
            Invoker::Skill { skill, args } => Invoker::Skill { skill: skill.clone(), args: args.deep_clone() },
            Invoker::Pipeline { pipeline, with } => Invoker::Pipeline {
                pipeline: pipeline.clone(),
                with: with.deep_clone(),
            },
        }
    }
}

/// The model of an optional invoker.
pub open spec fn opt_invoker_view(o: Option<Invoker>) -> Option<InvokerModel> {
    match o {
        Some(i) => Some(i@),
        None => None,
    }
}

/// A single phase within a pipeline or sub-pipeline.
#[derive(Debug)]
pub struct Phase {
    pub id: String,
    pub description: Option<String>,
    pub with: StrMap<JsonValue>,
    pub when: Option<String>,
    pub invoke: Option<Invoker>,
    pub config: StrMap<JsonValue>,
    pub produces: Vec<Artifact>,
    pub consumes: Vec<ArtifactRef>,
    pub gate: Vec<GateCheck>,
    pub validate: Vec<ValidationSource>,
    pub regate: Vec<String>,
    pub confirm: bool,
    pub max_retries: u32,
}

/// Model of a [`Phase`].
pub struct PhaseModel {
    pub id: Seq<char>,
    pub description: Option<Seq<char>>,
    pub with: Map<Seq<char>, JsonModel>,
    pub when: Option<Seq<char>>,
    pub invoke: Option<InvokerModel>,
    pub config: Map<Seq<char>, JsonModel>,
    pub produces: Seq<ArtifactModel>,
    pub consumes: Seq<ArtifactRefModel>,
    pub gate: Seq<GateModel>,
    pub validate: Seq<ValidationModel>,
    pub regate: Seq<Seq<char>>,
    pub confirm: bool,
    pub max_retries: u32,
}

impl View for Phase {
    type V = PhaseModel;

    open spec fn view(&self) -> PhaseModel {
        PhaseModel {
            id: self.id@,
            description: opt_view(self.description),
            with: self.with@,
            when: opt_view(self.when),
            invoke: opt_invoker_view(self.invoke),
            config: self.config@,
            produces: views(self.produces@),
            consumes: views(self.consumes@),
            gate: views(self.gate@),
            validate: views(self.validate@),
            regate: views(self.regate@),
            confirm: self.confirm,
            max_retries: self.max_retries,
        }
    }
}

/// Top-level pipeline definition.
#[derive(Debug)]
pub struct Pipeline {
    pub name: String,
    pub description: Option<String>,
    pub version: u32,
    pub args: StrMap<ArgDef>,
    pub phases: Vec<Phase>,
}

/// Input definition for gate definitions and sub-pipelines.
#[derive(Debug)]
pub struct InputDef {
    pub input_type: ArgType,
    pub default: Option<JsonValue>,
    pub required: bool,
}

/// Reusable gate definition.
#[derive(Debug)]
pub struct GateDefinition {
    pub name: String,
    pub description: Option<String>,
    pub inputs: StrMap<InputDef>,
    pub checks: Vec<GateCheck>,
}

/// A sub-pipeline referenced via `invoke: { pipeline: ... }`.
#[derive(Debug)]
pub struct SubPipeline {
    pub name: String,
    pub description: Option<String>,
    pub version: u32,
    pub inputs: StrMap<InputDef>,
    pub phases: Vec<Phase>,
}

impl View for ArgDef {
    type V = (ArgType, Option<JsonModel>);

    open spec fn view(&self) -> (ArgType, Option<JsonModel>) {
        (self.arg_type, match self.default { Some(d) => Some(d@), None => None })
    }
}

impl View for InputDef {
    type V = (ArgType, Option<JsonModel>, bool);

    open spec fn view(&self) -> (ArgType, Option<JsonModel>, bool) {
        (self.input_type, match self.default { Some(d) => Some(d@), None => None }, self.required)
    }
}

/// Terminal status of a run.
#[derive(Debug, Clone, Copy, PartialEq, Eq, Structural)]
pub enum RunStatus {
    InProgress,
    Completed,
    Failed,
}

impl Default for RunStatus {
    fn default() -> (r: RunStatus)
        ensures
            r == RunStatus::InProgress,
    {
        RunStatus::InProgress
    }
}

/// A phase after sub-pipeline expansion.
#[derive(Debug)]
pub struct ExpandedPhase {
    pub id: String,
    pub description: String,
    pub config: StrMap<JsonValue>,
    pub produces: Vec<Artifact>,
    pub consumes: Vec<ArtifactRef>,
    pub gate: Vec<GateCheck>,
    pub validate: Vec<ValidationSource>,
    pub regate: Vec<String>,
    pub confirm: bool,
    pub max_retries: u32,
    pub when: Option<String>,
    pub invoke: Option<Invoker>,
    pub output_dir: Option<String>,
}

/// Model of an [`ExpandedPhase`].
pub struct ExpandedModel {
    pub id: Seq<char>,
    pub description: Seq<char>,
    pub config: Map<Seq<char>, JsonModel>,
    pub produces: Seq<ArtifactModel>,
    pub consumes: Seq<ArtifactRefModel>,
    pub gate: Seq<GateModel>,
    pub validate: Seq<ValidationModel>,
    pub regate: Seq<Seq<char>>,
    pub confirm: bool,
    pub max_retries: u32,
    pub when: Option<Seq<char>>,
    pub invoke: Option<InvokerModel>,
    pub output_dir: Option<Seq<char>>,
}

impl View for ExpandedPhase {
    type V = ExpandedModel;

    open spec fn view(&self) -> ExpandedModel {
        ExpandedModel {
            id: self.id@,
            description: self.description@,
            config: self.config@,
            produces: views(self.produces@),
            consumes: views(self.consumes@),
            gate: views(self.gate@),
            validate: views(self.validate@),
            regate: views(self.regate@),
            confirm: self.confirm,
            max_retries: self.max_retries,
            when: opt_view(self.when),
            invoke: opt_invoker_view(self.invoke),
            output_dir: opt_view(self.output_dir),
        }
    }
}

/// Persisted run state for a pipeline execution.
#[derive(Debug)]
pub struct RunState {
    pub run_id: String,
    pub pipeline: String,
    pub pipeline_file: String,
    pub version: u32,
    pub branch: Option<String>,
    pub resolved_consumes: StrMap<String>,
    pub args: StrMap<JsonValue>,
    pub current_phase: String,
    pub completed_phases: Vec<String>,
    pub skipped_phases: Vec<String>,
    pub phase_attempts: StrMap<u32>,
    pub phase_verify_passed: StrMap<bool>,
    pub regate_passed: StrMap<bool>,
    /// Time stamp (text) at which each phase was first entered.
    pub phase_start_times: StrMap<String>,
    pub status: RunStatus,
    pub created_at: String,
    pub updated_at: String,
}

/// Model of a [`RunState`].
pub struct RunModel {
    pub run_id: Seq<char>,
    pub pipeline: Seq<char>,
    pub pipeline_file: Seq<char>,
    pub version: u32,
    pub branch: Option<Seq<char>>,
    pub resolved_consumes: Map<Seq<char>, Seq<char>>,
    pub args: Map<Seq<char>, JsonModel>,
    pub current_phase: Seq<char>,
    pub completed_phases: Seq<Seq<char>>,
    pub skipped_phases: Seq<Seq<char>>,
    pub phase_attempts: Map<Seq<char>, u32>,
    pub phase_verify_passed: Map<Seq<char>, bool>,
    pub regate_passed: Map<Seq<char>, bool>,
    pub phase_start_times: Map<Seq<char>, Seq<char>>,
    pub status: RunStatus,
    pub created_at: Seq<char>,
    pub updated_at: Seq<char>,
}

impl View for RunState {
    type V = RunModel;

    open spec fn view(&self) -> RunModel {
        RunModel {
            run_id: self.run_id@,
            pipeline: self.pipeline@,
            pipeline_file: self.pipeline_file@,
            version: self.version,
            branch: opt_view(self.branch),
            resolved_consumes: self.resolved_consumes@,
            args: self.args@,
            current_phase: self.current_phase@,
            completed_phases: views(self.completed_phases@),
            skipped_phases: views(self.skipped_phases@),
            phase_attempts: self.phase_attempts@,
            phase_verify_passed: self.phase_verify_passed@,
            regate_passed: self.regate_passed@,
            phase_start_times: self.phase_start_times@,
            status: self.status,
            created_at: self.created_at@,
            updated_at: self.updated_at@,
        }
    }
}

} // verus!
