//! Pipeline model types of `pipeline.yml` documents.
//!
//! Every public field corresponds to a key of the document. Extension-only
//! fields are held as dynamic [`Value`]s so later revisions can give them
//! richer meaning without breaking the parser. Keyed blocks are held in
//! string-keyed maps.
use vstd::prelude::*;
use crate::model::views;
use crate::strmap::StrMap;
use crate::yaml::Value;

verus! {

/// Top-level document kind. Pipeline documents always declare `kind: pipeline`.
#[derive(Debug, Clone, Copy, PartialEq, Eq, Structural)]
pub enum PipelineKind {
    /// The only legal value of the `kind` field.
    Pipeline,
}

/// A pipeline definition (root of `pipeline.yml`).
#[derive(Debug)]
pub struct Pipeline {
    /// Document kind discriminator.
    pub kind: PipelineKind,
    /// Pipeline identifier (e.g. `feature-dev`).
    pub name: String,
    /// Schema version.
    pub version: u32,
    /// Free-form description for humans.
    pub description: Option<String>,
    /// Rule set paths to import before evaluation, in order.
    pub imports: Vec<String>,
    /// CLI flag declarations keyed by the flag's long form (e.g. `--linear`).
    pub flags: StrMap<FlagDef>,
    /// Pipeline-level settings.
    pub settings: StrMap<Value>,
    /// Declared artifacts produced and consumed by the phases.
    pub artifacts: StrMap<Artifact>,
    /// Phases, in execution order.
    pub phases: Vec<Phase>,
    /// Pipeline-level `uses:` directives.
    pub uses: Vec<Value>,
    /// Lifecycle triggers.
    pub triggers: Vec<Trigger>,
    /// Integration plugin declarations.
    pub integrations: Vec<Integration>,
    /// Skill file to execute before the first phase starts.
    pub pre_pipeline_start: Option<PrePipelineStart>,
    /// Hook directives run when the pipeline begins.
    pub on_pipeline_start: Vec<Value>,
    /// Hook directives run after the pipeline completes.
    pub on_pipeline_complete: Vec<Value>,
}

/// Flag definition (from the `flags:` block).
#[derive(Debug)]
pub struct FlagDef {
    /// Flag type name (`bool`, `string`, `int`, ...); `bool` when absent.
    pub flag_type: String,
    /// Optional default value.
    pub default: Option<Value>,
    /// What this flag enables when set.
    pub enables: Option<FlagEnables>,
    /// Optional binding of the flag's value to a rule set parameter.
    pub binds_to_param: Option<BindsToParam>,
}

/// Nested `enables:` block of a flag definition.
#[derive(Debug)]
pub struct FlagEnables {
    /// Integration names that become active when the flag is set.
    pub integrations: Vec<String>,
    /// Phase ids that become reachable when the flag is set.
    pub phases: Vec<String>,
    /// Parameter overrides, by rule set name and then parameter name.
    pub params: StrMap<StrMap<Value>>,
}

/// The flag type assumed when a flag declares none.
pub fn default_flag_type() -> (r: String)
    ensures
        r@ == "bool"@,
{
    String::from_str("bool")
}

/// Binds a pipeline flag to a rule set parameter.
#[derive(Debug)]
pub struct BindsToParam {
    /// Target rule set name.
    pub rule_set: String,
    /// Parameter name inside the rule set.
    pub param: String,
}

/// Artifact declaration of a pipeline's `artifacts:` mapping.
#[derive(Debug)]
pub struct Artifact {
    /// Artifact kind (`file`, `directory`, `commit`, ...).
    pub artifact_type: String,
    /// Optional glob pattern identifying the artifact location.
    pub pattern: Option<String>,
    /// Phase id that produces this artifact.
    pub produced_by: Option<String>,
    /// Phase ids that consume this artifact.
    pub consumed_by: Vec<String>,
}

/// A phase of a pipeline's `phases:` sequence.
#[derive(Debug)]
pub struct Phase {
    /// Stable phase identifier.
    pub id: String,
    /// Confirmation directive: `before`, `after`, or `none`.
    pub confirm: Option<String>,
    /// Optional path to a phase file.
    pub phase_file: Option<String>,
    /// Optional condition that disables this phase when false.
    pub skip_unless: Option<String>,
    /// Rule set invocations scoped to this phase.
    pub uses: Vec<Value>,
}

/// An integration plugin (Linear, Slack, ...) enabled by a flag.
#[derive(Debug)]
pub struct Integration {
    /// Plugin name.
    pub name: String,
    /// Flag long name that activates this integration.
    pub enabled_by: Option<String>,
    /// Hook commands keyed by lifecycle event name.
    pub hooks: StrMap<HookCommand>,
    /// Optional skill file invoked when the integration boots.
    pub pre_pipeline_start: Option<PrePipelineStart>,
}

/// Hook command value: a single string or a list of strings.
#[derive(Debug)]
pub enum HookCommand {
    /// A single hook command.
    Single(String),
    /// Several hook commands, run in declaration order.
    Multiple(Vec<String>),
}

/// The commands of a hook value, in order.
pub open spec fn hook_commands(h: HookCommand) -> Seq<Seq<char>> {
    match h {
        HookCommand::Single(s) => seq![s@],
        HookCommand::Multiple(v) => views(v@),
    }
}

impl HookCommand {
    /// The hook commands as a list: one element for a single command.
    pub fn as_slice(&self) -> (r: Vec<String>)
        ensures
            views(r@) == hook_commands(*self),
    {
        match self {
            HookCommand::Single(s) => {
                let mut v: Vec<String> = Vec::new();
                v.push(s.clone());
                assert(views(v@) =~= seq![s@]);
                v
            },
            HookCommand::Multiple(v) => crate::model::clone_vec(v),
        }
    }
}

/// Pre-pipeline-start hook: a skill file to invoke before the first phase.
#[derive(Debug)]
pub struct PrePipelineStart {
    /// Relative path to the skill file.
    pub skill_file: String,
}

/// Trigger declaration: fires on a lifecycle event and may rewind the
/// pipeline to a named phase.
#[derive(Debug)]
pub struct Trigger {
    /// Lifecycle event name that fires this trigger.
    pub event: String,
    /// Phase id to rewind to.
    pub rewind_to: Option<String>,
    /// Strategy file for the rewind.
    pub rewind_strategy: Option<String>,
    /// Optional guard expression.
    pub when: Option<String>,
}

} // verus!
