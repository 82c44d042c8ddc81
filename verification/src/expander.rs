//! Expansion of `invoke: { pipeline: ... }` references into flat, namespaced
//! phases.
//!
//! The referenced sub-pipeline files are read by the caller and handed in as
//! a [`SourceSet`] keyed by canonical path; everything else (cycle and depth
//! checks, namespacing, `with:` substitution and inheritance) happens here.
use vstd::prelude::*;
use crate::error::{BeltError, ErrorModel};
use crate::json::{JsonModel, JsonValue};
use crate::model::{
    clone_opt, clone_vec, opt_invoker_view, opt_view, views, DeepClone, ExpandedModel, ExpandedPhase, Invoker,
    InvokerModel, Phase, PhaseModel,
};
use crate::strmap::{has_key, StrMap};
use crate::text::{has_char, has_prefix, starts_with, str_eq};

verus! {

/// Maximum sub-pipeline reference depth (root pipeline = depth 0).
pub const MAX_EXPANSION_DEPTH: usize = 4;

/// The argument name of a template of the exact shape `args.<name>`, where
/// `<name>` is non-empty and holds no `.`.
pub open spec fn template_arg(t: Seq<char>) -> Option<Seq<char>> {
    if has_prefix(t, "args."@) && t.len() > 5 && !t.skip(5).contains('.') {
        Some(t.skip(5))
    } else {
        None
    }
}

/// The value a template stands for under `with`, when it names one of its keys.
pub open spec fn subst_arg_spec(t: Seq<char>, with: Map<Seq<char>, JsonModel>) -> Option<JsonModel> {
    match template_arg(t) {
        Some(n) => if with.contains_key(n) {
            Some(with[n])
        } else {
            None
        },
        None => None,
    }
}

/// The `when:` text of a substituted value: booleans by their literal,
/// strings as they are; nothing for other values.
pub open spec fn when_text_spec(v: JsonModel) -> Option<Seq<char>> {
    match v {
        JsonModel::Bool(b) => Some(if b { "true"@ } else { "false"@ }),
        JsonModel::Str(s) => Some(s),
        _ => None,
    }
}

/// A `when:` clause after substitution against `with`.
pub open spec fn substituted_when_spec(when: Option<Seq<char>>, with: Map<Seq<char>, JsonModel>) -> Option<Seq<char>> {
    match when {
        None => None,
        Some(w) => match subst_arg_spec(w, with) {
            Some(v) => match when_text_spec(v) {
                Some(t) => Some(t),
                None => Some(w),
            },
            None => Some(w),
        },
    }
}

/// A map value after substitution: a string template naming a key of `with`
/// becomes that key's value; anything else stays.
pub open spec fn subst_value_spec(v: JsonModel, with: Map<Seq<char>, JsonModel>) -> JsonModel {
    match v {
        JsonModel::Str(s) => match subst_arg_spec(s, with) {
            Some(r) => r,
            None => v,
        },
        _ => v,
    }
}

/// A map with each of its values substituted.
pub open spec fn subst_map_spec(m: Map<Seq<char>, JsonModel>, with: Map<Seq<char>, JsonModel>) -> Map<
    Seq<char>,
    JsonModel,
> {
    m.map_values(|v: JsonModel| subst_value_spec(v, with))
}

/// An invoker with its `args` (skill) or `with` (pipeline) map substituted.
pub open spec fn subst_invoker_spec(i: InvokerModel, with: Map<Seq<char>, JsonModel>) -> InvokerModel {
    match i {
        InvokerModel::Skill { skill, args } => InvokerModel::Skill { skill, args: subst_map_spec(args, with) },
        InvokerModel::Pipeline { pipeline, with: inner } => InvokerModel::Pipeline {
            pipeline,
            with: subst_map_spec(inner, with),
        },
    }
}

/// If `template` has the exact shape `args.<name>` and `<name>` is a key of
/// `with_map`, a copy of that key's value.
pub fn substitute_arg_in_value(template: &str, with_map: &StrMap<JsonValue>) -> (r: Option<JsonValue>)
    ensures
        match r {
            Some(v) => subst_arg_spec(template@, with_map@) == Some(v@),
            None => subst_arg_spec(template@, with_map@) is None,
        },
{
    proof {
        reveal_strlit("args.");
    }
    if !starts_with(template, "args.") {
        return None;
    }
    let n = template.unicode_len();
    if n <= 5 {
        return None;
    }
    let name = template.substring_char(5, n);
    assert(name@ =~= template@.skip(5));
    if has_char(name, '.') {
        return None;
    }
    match with_map.get(name) {
        Some(v) => Some(v.deep_clone()),
        None => None,
    }
}

/// Renders a substituted `with` value as a `when:` text, when it can be one.
pub fn value_to_when_string(v: &JsonValue) -> (r: Option<String>)
    ensures
        opt_view(r) == when_text_spec(v@),
{
    match v {
        JsonValue::Bool(b) => {
            proof {
                reveal_strlit("true");
                reveal_strlit("false");
            }
            if *b {
                Some(String::from_str("true"))
            } else {
                Some(String::from_str("false"))
            }
        },
        JsonValue::String(s) => Some(s.clone()),
        _ => None,
    }
}

/// Substitutes a `when:` template against a `with` scope.
pub fn substituted_when(when: Option<&str>, with: &StrMap<JsonValue>) -> (r: Option<String>)
    ensures
        opt_view(r) == substituted_when_spec(
            match when {
                Some(w) => Some(w@),
                None => None,
            },
            with@,
        ),
{
    let w = match when {
        None => {
            return None;
        },
        Some(w) => w,
    };
    match substitute_arg_in_value(w, with) {
        Some(replacement) => match value_to_when_string(&replacement) {
            Some(rewritten) => Some(rewritten),
            None => Some(String::from_str(w)),
        },
        None => Some(String::from_str(w)),
    }
}

fn substitute_value(v: &JsonValue, with_map: &StrMap<JsonValue>) -> (r: JsonValue)
    ensures
        r@ == subst_value_spec(v@, with_map@),
{
    match v {
        JsonValue::String(s) => match substitute_arg_in_value(s.as_str(), with_map) {
            Some(r) => r,
            None => v.deep_clone(),
        },
        _ => v.deep_clone(),
    }
}

/// Replaces every string value of `map` of the shape `args.<name>`, with
/// `<name>` a key of `with_map`, by that key's value.
pub fn substitute_in_value_map(map: &mut StrMap<JsonValue>, with_map: &StrMap<JsonValue>)
    ensures
        final(map)@ == subst_map_spec(old(map)@, with_map@),
{
    map.lemma_entries();
    let ghost e = map.entry_seq();
    let ghost m0 = map@;
    let entries = map.entries();
    let mut out: StrMap<JsonValue> = StrMap::new();
    let mut i: usize = 0;
    while i < entries.len()
        invariant
            i <= entries@.len(),
            entries@ == e,
            m0 == map@,
            forall|j: int| 0 <= j < e.len() ==> #[trigger] m0.contains_key(e[j].0@) && m0[e[j].0@] == e[j].1@,
            forall|k: Seq<char>| #[trigger] out@.contains_key(k) <==> has_key(e.take(i as int), k),
            forall|k: Seq<char>| #[trigger] out@.contains_key(k) ==> m0.contains_key(k) && out@[k] == subst_value_spec(
                m0[k],
                with_map@,
            ),
        decreases entries@.len() - i,
    {
        let (k, v) = (&entries[i].0, &entries[i].1);
        let nv = substitute_value(v, with_map);
        let ghost before = out@;
        out.insert(k.clone(), nv);
        proof {
            assert(m0.contains_key(e[i as int].0@) && m0[e[i as int].0@] == e[i as int].1@);
            let t0 = e.take(i as int);
            let t1 = e.take(i + 1);
            assert forall|key: Seq<char>| #[trigger] out@.contains_key(key) <==> has_key(t1, key) by {
                if has_key(t1, key) {
                    let w = choose|w: int| 0 <= w < t1.len() && #[trigger] t1[w].0@ == key;
                    if w < i {
                        assert(t0[w] == t1[w]);
                        assert(has_key(t0, key));
                    }
                }
                if before.contains_key(key) {
                    let w = choose|w: int| 0 <= w < t0.len() && #[trigger] t0[w].0@ == key;
                    assert(t1[w] == t0[w]);
                }
                if key == e[i as int].0@ {
                    assert(t1[i as int] == e[i as int]);
                }
            }
        }
        i = i + 1;
    }
    proof {
        assert(e.take(e.len() as int) =~= e);
        assert(out@ =~= subst_map_spec(m0, with_map@)) by {
            assert forall|k: Seq<char>| out@.contains_key(k) <==> m0.contains_key(k) by {
                if m0.contains_key(k) {
                    assert(has_key(e, k));
                }
            }
        }
    }
    *map = out;
}

/// Applies `with_map` substitution to the map of an invoker.
pub fn substitute_in_invoker(invoker: &mut Invoker, with_map: &StrMap<JsonValue>)
    ensures
        final(invoker)@ == subst_invoker_spec(old(invoker)@, with_map@),
{
    match invoker {
        Invoker::Skill { args, .. } => {
            substitute_in_value_map(args, with_map);
        },
        Invoker::Pipeline { with: inner_with, .. } => {
            substitute_in_value_map(inner_with, with_map);
        },
    }
}


/// A `regate` list with each target that names a sibling phase of the same
/// file renamed into the namespace `ns`.
pub open spec fn leaf_regate_spec(regate: Seq<Seq<char>>, ns: Seq<char>, local: Seq<Seq<char>>) -> Seq<Seq<char>> {
    regate.map_values(|t: Seq<char>| if local.contains(t) { ns + t } else { t })
}

/// The message of a leaf phase lacking a description.
pub open spec fn leaf_no_description_msg(ns: Seq<char>, id: Seq<char>) -> Seq<char> {
    "leaf phase '"@ + ns + id + "' must have a description"@
}

/// A leaf phase materialized at namespace `ns` under the `with` scope.
pub open spec fn leaf_spec(p: PhaseModel, ns: Seq<char>, with: Map<Seq<char>, JsonModel>, local: Seq<Seq<char>>) -> Result<
    ExpandedModel,
    ErrorModel,
> {
    match p.description {
        None => Err(ErrorModel::InvalidPipeline { message: leaf_no_description_msg(ns, p.id) }),
        Some(d) => Ok(
            ExpandedModel {
                id: ns + p.id,
                description: d,
                config: subst_map_spec(p.config, with),
                produces: p.produces,
                consumes: p.consumes,
                gate: p.gate,
                validate: p.validate,
                regate: leaf_regate_spec(p.regate, ns, local),
                confirm: p.confirm,
                max_retries: p.max_retries,
                when: substituted_when_spec(p.when, with),
                invoke: match p.invoke {
                    Some(i) => Some(subst_invoker_spec(i, with)),
                    None => None,
                },
                output_dir: None,
            },
        ),
    }
}

fn concat3(a: &str, b: &str, c: &str) -> (r: String)
    ensures
        r@ == a@ + b@ + c@,
{
    let mut s = String::from_str(a);
    s.append(b);
    s.append(c);
    s
}

fn concat2(a: &str, b: &str) -> (r: String)
    ensures
        r@ == a@ + b@,
{
    let mut s = String::from_str(a);
    s.append(b);
    s
}

fn vec_contains_str(v: &Vec<String>, x: &str) -> (r: bool)
    ensures
        r == views(v@).contains(x@),
{
    let mut i: usize = 0;
    while i < v.len()
        invariant
            i <= v@.len(),
            forall|j: int| 0 <= j < i ==> v@[j]@ != x@,
        decreases v@.len() - i,
    {
        if str_eq(v[i].as_str(), x) {
            assert(views(v@)[i as int] == x@);
            return true;
        }
        i = i + 1;
    }
    proof {
        if views(v@).contains(x@) {
            let j = choose|j: int| 0 <= j < views(v@).len() && views(v@)[j] == x@;
            assert(v@[j]@ == x@);
        }
    }
    false
}

fn rename_regate(regate: &Vec<String>, ns: &str, local_ids: &Vec<String>) -> (r: Vec<String>)
    ensures
        views(r@) == leaf_regate_spec(views(regate@), ns@, views(local_ids@)),
{
    let ghost want = leaf_regate_spec(views(regate@), ns@, views(local_ids@));
    let mut out: Vec<String> = Vec::new();
    let mut i: usize = 0;
    while i < regate.len()
        invariant
            i <= regate@.len(),
            want == leaf_regate_spec(views(regate@), ns@, views(local_ids@)),
            out@.len() == i,
            forall|j: int| 0 <= j < i ==> #[trigger] out@[j]@ == want[j],
        decreases regate@.len() - i,
    {
        let t = &regate[i];
        if vec_contains_str(local_ids, t.as_str()) {
            out.push(concat2(ns, t.as_str()));
        } else {
            out.push(t.clone());
        }
        i = i + 1;
    }
    assert(views(out@) =~= want);
    out
}

fn opt_string_str(o: &Option<String>) -> (r: Option<&str>)
    ensures
        match r {
            Some(s) => opt_view(*o) == Some(s@),
            None => o.is_none(),
        },
{
    match o {
        Some(s) => Some(s.as_str()),
        None => None,
    }
}

/// Materializes a leaf phase at namespace `ns`, applying this level's `with`
/// substitution to `when`, `config` and the invoker, and renaming
/// sibling-scoped `regate` targets into the namespace.
pub fn leaf_phase(phase: &Phase, ns: &str, with: &StrMap<JsonValue>, local_ids: &Vec<String>) -> (r: Result<
    ExpandedPhase,
    BeltError,
>)
    ensures
        match r {
            Ok(x) => leaf_spec(phase@, ns@, with@, views(local_ids@)) == Ok::<ExpandedModel, ErrorModel>(x@),
            Err(e) => leaf_spec(phase@, ns@, with@, views(local_ids@)) == Err::<ExpandedModel, ErrorModel>(e@),
        },
{
    proof {
        reveal_strlit("leaf phase '");
        reveal_strlit("' must have a description");
    }
    let description = match &phase.description {
        Some(d) => d.clone(),
        None => {
            let mut m = concat3("leaf phase '", ns, phase.id.as_str());
            m.append("' must have a description");
            return Err(BeltError::InvalidPipeline { message: m });
        },
    };
    let mut config = phase.config.deep_clone();
    substitute_in_value_map(&mut config, with);
    let invoke = match &phase.invoke {
        Some(i) => {
            let mut inv = i.deep_clone();
            substitute_in_invoker(&mut inv, with);
            Some(inv)
        },
        None => None,
    };
    let regate = rename_regate(&phase.regate, ns, local_ids);
    let x = ExpandedPhase {
        id: concat2(ns, phase.id.as_str()),
        description,
        config,
        produces: clone_vec(&phase.produces),
        consumes: clone_vec(&phase.consumes),
        gate: clone_vec(&phase.gate),
        validate: clone_vec(&phase.validate),
        regate,
        confirm: phase.confirm,
        max_retries: phase.max_retries,
        when: substituted_when(opt_string_str(&phase.when), with),
        invoke,
        output_dir: None,
    };
    Ok(x)
}

/// A pipeline file as read by the caller.
#[derive(Debug)]
pub struct SourceFile {
    pub phases: Vec<Phase>,
    /// For each phase that invokes a sub-pipeline, the key (canonical path)
    /// of the referenced file, at the phase's position; unused for other
    /// phases.
    pub links: Vec<String>,
    /// For each phase that invokes a sub-pipeline, whether the referenced
    /// path exists, at the phase's position.
    pub present: Vec<bool>,
}

/// A referenced file: its parsed content, or the error reading it gave.
#[derive(Debug)]
pub enum LoadedFile {
    Parsed(SourceFile),
    Failed(BeltError),
}

/// Model of a [`LoadedFile`].
pub enum LoadedModel {
    Parsed(Seq<PhaseModel>, Seq<Seq<char>>, Seq<bool>),
    Failed(ErrorModel),
}

impl View for LoadedFile {
    type V = LoadedModel;

    open spec fn view(&self) -> LoadedModel {
        match self {
            LoadedFile::Parsed(f) => LoadedModel::Parsed(views(f.phases@), views(f.links@), f.present@),
            LoadedFile::Failed(e) => LoadedModel::Failed(e@),
        }
    }
}

/// The link recorded at position `i`; empty when none is.
pub open spec fn link_at(links: Seq<Seq<char>>, i: int) -> Seq<char> {
    if 0 <= i < links.len() {
        links[i]
    } else {
        Seq::empty()
    }
}

/// The ids of the phases of one file.
pub open spec fn local_ids(ps: Seq<PhaseModel>) -> Seq<Seq<char>> {
    ps.map_values(|p: PhaseModel| p.id)
}

/// The message of a cyclic sub-pipeline reference.
pub open spec fn cycle_msg(ns: Seq<char>, id: Seq<char>, sub_ref: Seq<char>) -> Seq<char> {
    "phase '"@ + ns + id + "': cyclic sub-pipeline reference '"@ + sub_ref + "'"@
}

/// The message of a reference nested too deep.
pub open spec fn depth_msg(ns: Seq<char>, id: Seq<char>) -> Seq<char> {
    "phase '"@ + ns + id + "': sub-pipeline nesting exceeds depth 4"@
}

/// The message of a sub-pipeline that expands to nothing.
pub open spec fn empty_msg(ns: Seq<char>, id: Seq<char>, sub_ref: Seq<char>) -> Seq<char> {
    "phase '"@ + ns + id + "': sub-pipeline '"@ + sub_ref + "' has no phases"@
}

/// A leaf of a sub-pipeline expansion after inheriting the referencing
/// phase's `when:` (only where it has none of its own).
pub open spec fn inherit_when(x: ExpandedModel, w: Option<Seq<char>>) -> ExpandedModel {
    if x.when is None {
        ExpandedModel { when: w, ..x }
    } else {
        x
    }
}

/// The last leaf of an expansion after the referencing phase's `gate`,
/// `regate` and `validate` entries are appended and its `config` merged in
/// (the referencing phase's keys win).
pub open spec fn merge_last(x: ExpandedModel, p: PhaseModel, with: Map<Seq<char>, JsonModel>) -> ExpandedModel {
    ExpandedModel {
        gate: x.gate + p.gate,
        regate: x.regate + p.regate,
        validate: x.validate + p.validate,
        config: x.config.union_prefer_right(subst_map_spec(p.config, with)),
        ..x
    }
}

/// The expansion of a sub-pipeline after the inheritance rules of the
/// referencing phase `p` are applied.
pub open spec fn inherit_spec(sub: Seq<ExpandedModel>, p: PhaseModel, with: Map<Seq<char>, JsonModel>) -> Seq<
    ExpandedModel,
> {
    let w = substituted_when_spec(p.when, with);
    let s1 = sub.map_values(|x: ExpandedModel| inherit_when(x, w));
    s1.update(s1.len() - 1, merge_last(s1.last(), p, with))
}

/// The expansion of the first `n` phases of a file, in order; the first
/// error met ends it.
pub open spec fn expand_prefix(
    ps: Seq<PhaseModel>,
    links: Seq<Seq<char>>,
    ns: Seq<char>,
    with: Map<Seq<char>, JsonModel>,
    visited: Seq<Seq<char>>,
    files: Map<Seq<char>, LoadedModel>,
    n: int,
) -> Result<Seq<ExpandedModel>, ErrorModel>
    decreases 5 - visited.len(), n,
{
    if n <= 0 {
        Ok(Seq::empty())
    } else {
        match expand_prefix(ps, links, ns, with, visited, files, n - 1) {
            Err(e) => Err(e),
            Ok(acc) => match expand_one_spec(
                ps[n - 1],
                link_at(links, n - 1),
                ns,
                with,
                visited,
                files,
                local_ids(ps),
            ) {
                Err(e) => Err(e),
                Ok(xs) => Ok(acc + xs),
            },
        }
    }
}

/// The expansion of one phase at namespace `ns`: a leaf becomes one
/// expanded phase; a phase invoking a sub-pipeline becomes that
/// sub-pipeline's expansion under the namespace `ns + id + "/"`.
pub open spec fn expand_one_spec(
    p: PhaseModel,
    link: Seq<char>,
    ns: Seq<char>,
    with: Map<Seq<char>, JsonModel>,
    visited: Seq<Seq<char>>,
    files: Map<Seq<char>, LoadedModel>,
    local: Seq<Seq<char>>,
) -> Result<Seq<ExpandedModel>, ErrorModel>
    decreases 5 - visited.len(), 0int,
{
    match p.invoke {
        Some(InvokerModel::Pipeline { pipeline: sub_ref, with: pw }) => {
            if visited.contains(link) {
                Err(ErrorModel::InvalidPipeline { message: cycle_msg(ns, p.id, sub_ref) })
            } else if visited.len() > 4 {
                Err(ErrorModel::InvalidPipeline { message: depth_msg(ns, p.id) })
            } else if !files.contains_key(link) {
                Err(ErrorModel::FileNotFound { path: link })
            } else {
                match files[link] {
                    LoadedModel::Failed(e) => Err(e),
                    LoadedModel::Parsed(cps, clinks, _) => match expand_prefix(
                        cps,
                        clinks,
                        ns + p.id + "/"@,
                        subst_map_spec(pw, with),
                        visited.push(link),
                        files,
                        cps.len() as int,
                    ) {
                        Err(e) => Err(e),
                        Ok(sub) => if sub.len() == 0 {
                            Err(ErrorModel::InvalidPipeline { message: empty_msg(ns, p.id, sub_ref) })
                        } else {
                            Ok(inherit_spec(sub, p, with))
                        },
                    },
                }
            }
        },
        _ => match leaf_spec(p, ns, with, local) {
            Ok(x) => Ok(seq![x]),
            Err(e) => Err(e),
        },
    }
}

proof fn lemma_prefix_err_sticks(
    ps: Seq<PhaseModel>,
    links: Seq<Seq<char>>,
    ns: Seq<char>,
    with: Map<Seq<char>, JsonModel>,
    visited: Seq<Seq<char>>,
    files: Map<Seq<char>, LoadedModel>,
    n: int,
    m: int,
)
    requires
        0 <= n <= m,
        expand_prefix(ps, links, ns, with, visited, files, n) is Err,
    ensures
        expand_prefix(ps, links, ns, with, visited, files, m) == expand_prefix(ps, links, ns, with, visited, files, n),
    decreases m - n,
{
    if m > n {
        lemma_prefix_err_sticks(ps, links, ns, with, visited, files, n, m - 1);
    }
}

/// Stores every entry of `src` in `dst`, replacing existing values.
fn merge_into(dst: &mut StrMap<JsonValue>, src: &StrMap<JsonValue>)
    ensures
        final(dst)@ == old(dst)@.union_prefer_right(src@),
{
    src.lemma_entries();
    let ghost e = src.entry_seq();
    let ghost d0 = dst@;
    let entries = src.entries();
    let mut i: usize = 0;
    while i < entries.len()
        invariant
            i <= entries@.len(),
            entries@ == e,
            forall|j: int| 0 <= j < e.len() ==> #[trigger] src@.contains_key(e[j].0@) && src@[e[j].0@] == e[j].1@,
            forall|k: Seq<char>| #[trigger] dst@.contains_key(k) <==> (d0.contains_key(k) || has_key(e.take(i as int), k)),
            forall|k: Seq<char>| #[trigger] dst@.contains_key(k) ==> dst@[k] == if has_key(e.take(i as int), k) {
                src@[k]
            } else {
                d0[k]
            },
        decreases entries@.len() - i,
    {
        let ghost before = dst@;
        dst.insert(entries[i].0.clone(), entries[i].1.deep_clone());
        proof {
            let t0 = e.take(i as int);
            let t1 = e.take(i + 1);
            assert(src@.contains_key(e[i as int].0@) && src@[e[i as int].0@] == e[i as int].1@);
            assert(t1[i as int] == e[i as int]);
            assert forall|key: Seq<char>| has_key(t1, key) <==> (has_key(t0, key) || key == e[i as int].0@) by {
                if has_key(t1, key) {
                    let w = choose|w: int| 0 <= w < t1.len() && #[trigger] t1[w].0@ == key;
                    if w < i {
                        assert(t0[w] == t1[w]);
                    }
                }
                if has_key(t0, key) {
                    let w = choose|w: int| 0 <= w < t0.len() && #[trigger] t0[w].0@ == key;
                    assert(t1[w] == t0[w]);
                }
            }
        }
        i = i + 1;
    }
    proof {
        assert(e.take(e.len() as int) =~= e);
        assert forall|k: Seq<char>| #[trigger] src@.contains_key(k) <==> has_key(e, k) by {
            if has_key(e, k) {
                let w = choose|w: int| 0 <= w < e.len() && #[trigger] e[w].0@ == k;
                assert(src@.contains_key(e[w].0@));
            }
        }
        assert(dst@ =~= d0.union_prefer_right(src@));
    }
}

fn ids_of(phases: &Vec<Phase>) -> (r: Vec<String>)
    ensures
        views(r@) == local_ids(views(phases@)),
{
    let mut out: Vec<String> = Vec::new();
    let mut i: usize = 0;
    while i < phases.len()
        invariant
            i <= phases@.len(),
            out@.len() == i,
            forall|j: int| 0 <= j < i ==> #[trigger] out@[j]@ == phases@[j].id@,
        decreases phases@.len() - i,
    {
        out.push(phases[i].id.clone());
        i = i + 1;
    }
    assert(views(out@) =~= local_ids(views(phases@)));
    out
}

/// Applies the inheritance rules of phase `phase` to the non-empty
/// expansion `sub` of the sub-pipeline it invokes.
fn inherit(sub: Vec<ExpandedPhase>, phase: &Phase, with: &StrMap<JsonValue>) -> (r: Vec<ExpandedPhase>)
    requires
        sub@.len() > 0,
    ensures
        views(r@) == inherit_spec(views(sub@), phase@, with@),
{
    let parent_when = substituted_when(opt_string_str(&phase.when), with);
    let ghost w = substituted_when_spec(phase@.when, with@);
    let ghost s0 = views(sub@);
    let ghost s1 = s0.map_values(|x: ExpandedModel| inherit_when(x, w));
    let n = sub.len();
    let mut rest = sub;
    let mut out: Vec<ExpandedPhase> = Vec::new();
    let mut k: usize = 0;
    assert(views(out@) =~= s1.take(0));
    assert(views(rest@) =~= s0.skip(0));
    while rest.len() > 0
        invariant
            opt_view(parent_when) == w,
            s1 == s0.map_values(|x: ExpandedModel| inherit_when(x, w)),
            n == s0.len(),
            k + rest@.len() == n,
            views(rest@) == s0.skip(k as int),
            views(out@) == s1.take(k as int),
        decreases rest@.len(),
    {
        let ghost r0 = rest@;
        let mut x = rest.remove(0);
        assert(x@ == s0[k as int]) by {
            assert(views(r0)[0] == s0.skip(k as int)[0]);
        }
        assert(views(rest@) =~= s0.skip(k + 1)) by {
            assert(rest@ =~= r0.subrange(1, r0.len() as int));
            assert forall|j: int| 0 <= j < rest@.len() implies views(rest@)[j] == s0.skip(k + 1)[j] by {
                assert(views(r0)[j + 1] == s0.skip(k as int)[j + 1]);
            }
        }
        if x.when.is_none() {
            x.when = clone_opt(&parent_when);
        }
        let ghost before = views(out@);
        out.push(x);
        proof {
            assert(views(out@) =~= before.push(s1[k as int]));
            assert(views(out@) =~= s1.take(k + 1));
        }
        k = k + 1;
    }
    assert(views(out@) =~= s1);
    let ghost before = out@;
    let mut last = out.pop().unwrap();
    assert(last@ == s1.last() && views(out@) =~= s1.drop_last()) by {
        assert(views(before)[before.len() - 1] == last@);
    }
    let ghost l0 = last@;
    let mut g = clone_vec(&phase.gate);
    let ghost g0 = last.gate@;
    let ghost g1 = g@;
    last.gate.append(&mut g);
    assert(views(last.gate@) =~= views(g0) + views(g1));
    let mut rg = clone_vec(&phase.regate);
    let ghost r0 = last.regate@;
    let ghost r1 = rg@;
    last.regate.append(&mut rg);
    assert(views(last.regate@) =~= views(r0) + views(r1));
    let mut vl = clone_vec(&phase.validate);
    let ghost v0 = last.validate@;
    let ghost v1 = vl@;
    last.validate.append(&mut vl);
    assert(views(last.validate@) =~= views(v0) + views(v1));
    let mut parent_config = phase.config.deep_clone();
    substitute_in_value_map(&mut parent_config, with);
    merge_into(&mut last.config, &parent_config);
    assert(last@ == merge_last(l0, phase@, with@));
    let ghost mid = views(out@);
    out.push(last);
    assert(views(out@) =~= inherit_spec(views(sub@), phase@, with@)) by {
        assert(views(out@) =~= mid.push(merge_last(s1.last(), phase@, with@)));
    }
    out
}

fn link_of(links: &Vec<String>, i: usize) -> (r: &str)
    ensures
        r@ == link_at(views(links@), i as int),
{
    proof {
        reveal_strlit("");
    }
    if i < links.len() {
        links[i].as_str()
    } else {
        let e = "";
        assert(e@ =~= Seq::<char>::empty());
        e
    }
}

fn cycle_message(ns: &str, id: &str, sub_ref: &str) -> (r: String)
    ensures
        r@ == cycle_msg(ns@, id@, sub_ref@),
{
    let mut m = concat3("phase '", ns, id);
    m.append("': cyclic sub-pipeline reference '");
    m.append(sub_ref);
    m.append("'");
    m
}

fn depth_message(ns: &str, id: &str) -> (r: String)
    ensures
        r@ == depth_msg(ns@, id@),
{
    let mut m = concat3("phase '", ns, id);
    m.append("': sub-pipeline nesting exceeds depth 4");
    m
}

fn empty_message(ns: &str, id: &str, sub_ref: &str) -> (r: String)
    ensures
        r@ == empty_msg(ns@, id@, sub_ref@),
{
    let mut m = concat3("phase '", ns, id);
    m.append("': sub-pipeline '");
    m.append(sub_ref);
    m.append("' has no phases");
    m
}

/// Expands one level of phases, recursing into sub-pipeline references.
///
/// - `ns`: namespace prefix, empty at the root and `"{parent}/"` below.
/// - `with`: the substitution scope this level's phases were referenced
///   with (empty at the root).
/// - `visited`: the keys of the files on the current reference path.
pub fn expand_phase_list(
    phases: &Vec<Phase>,
    links: &Vec<String>,
    ns: &str,
    with: &StrMap<JsonValue>,
    visited: &Vec<String>,
    files: &StrMap<LoadedFile>,
) -> (r: Result<Vec<ExpandedPhase>, BeltError>)
    ensures
        match r {
            Ok(v) => expand_prefix(
                views(phases@),
                views(links@),
                ns@,
                with@,
                views(visited@),
                files@,
                phases@.len() as int,
            ) == Ok::<Seq<ExpandedModel>, ErrorModel>(views(v@)),
            Err(e) => expand_prefix(
                views(phases@),
                views(links@),
                ns@,
                with@,
                views(visited@),
                files@,
                phases@.len() as int,
            ) == Err::<Seq<ExpandedModel>, ErrorModel>(e@),
        },
    decreases 5 - visited@.len(), 1int,
{
    let ghost ps = views(phases@);
    let ghost ls = views(links@);
    let ghost vs = views(visited@);
    let local = ids_of(phases);
    let mut acc: Vec<ExpandedPhase> = Vec::new();
    let mut i: usize = 0;
    assert(views(acc@) =~= Seq::<ExpandedModel>::empty());
    while i < phases.len()
        invariant
            i <= phases@.len(),
            ps == views(phases@),
            ls == views(links@),
            vs == views(visited@),
            views(local@) == local_ids(ps),
            expand_prefix(ps, ls, ns@, with@, vs, files@, i as int) == Ok::<Seq<ExpandedModel>, ErrorModel>(
                views(acc@),
            ),
        decreases phases@.len() - i,
    {
        let link = link_of(links, i);
        let one = expand_one(&phases[i], link, ns, with, visited, files, &local);
        match one {
            Err(e) => {
                proof {
                    lemma_prefix_err_sticks(ps, ls, ns@, with@, vs, files@, i + 1, ps.len() as int);
                }
                return Err(e);
            },
            Ok(xs) => {
                let ghost a0 = views(acc@);
                let mut xs = xs;
                let ghost x0 = views(xs@);
                acc.append(&mut xs);
                assert(views(acc@) =~= a0 + x0);
            },
        }
        i = i + 1;
    }
    Ok(acc)
}

fn expand_one(
    phase: &Phase,
    link: &str,
    ns: &str,
    with: &StrMap<JsonValue>,
    visited: &Vec<String>,
    files: &StrMap<LoadedFile>,
    local: &Vec<String>,
) -> (r: Result<Vec<ExpandedPhase>, BeltError>)
    ensures
        match r {
            Ok(v) => expand_one_spec(phase@, link@, ns@, with@, views(visited@), files@, views(local@)) == Ok::<
                Seq<ExpandedModel>,
                ErrorModel,
            >(views(v@)),
            Err(e) => expand_one_spec(phase@, link@, ns@, with@, views(visited@), files@, views(local@)) == Err::<
                Seq<ExpandedModel>,
                ErrorModel,
            >(e@),
        },
    decreases 5 - visited@.len(), 0int,
{
    match &phase.invoke {
        Some(Invoker::Pipeline { pipeline: sub_ref, with: phase_with }) => {
            let mut child_with = phase_with.deep_clone();
            substitute_in_value_map(&mut child_with, with);
            if vec_contains_str(visited, link) {
                return Err(
                    BeltError::InvalidPipeline {
                        message: cycle_message(ns, phase.id.as_str(), sub_ref.as_str()),
                    },
                );
            }
            if visited.len() > MAX_EXPANSION_DEPTH {
                return Err(BeltError::InvalidPipeline { message: depth_message(ns, phase.id.as_str()) });
            }
            match files.get(link) {
                None => Err(BeltError::FileNotFound { path: String::from_str(link) }),
                Some(LoadedFile::Failed(e)) => Err(e.deep_clone()),
                Some(LoadedFile::Parsed(sf)) => {
                    let child_ns = concat3(ns, phase.id.as_str(), "/");
                    let mut child_visited = clone_vec(visited);
                    child_visited.push(String::from_str(link));
                    assert(views(child_visited@) =~= views(visited@).push(link@));
                    let sub = expand_phase_list(&sf.phases, &sf.links, child_ns.as_str(), &child_with, &child_visited, files);
                    match sub {
                        Err(e) => Err(e),
                        Ok(sub) => {
                            if sub.len() == 0 {
                                Err(
                                    BeltError::InvalidPipeline {
                                        message: empty_message(ns, phase.id.as_str(), sub_ref.as_str()),
                                    },
                                )
                            } else {
                                Ok(inherit(sub, phase, with))
                            }
                        },
                    }
                },
            }
        },
        _ => match leaf_phase(phase, ns, with, local) {
            Ok(x) => {
                let mut v: Vec<ExpandedPhase> = Vec::new();
                v.push(x);
                assert(views(v@) =~= seq![v@[0]@]);
                Ok(v)
            },
            Err(e) => Err(e),
        },
    }
}

/// Expands the phases of a root pipeline file with key `root_key` (with the
/// sub-pipeline keys `links`), given every file its references reach.
pub fn expand_pipeline(phases: &Vec<Phase>, links: &Vec<String>, root_key: &str, files: &StrMap<LoadedFile>) -> (r:
    Result<Vec<ExpandedPhase>, BeltError>)
    ensures
        match r {
            Ok(v) => expand_prefix(
                views(phases@),
                views(links@),
                Seq::empty(),
                Map::empty(),
                seq![root_key@],
                files@,
                phases@.len() as int,
            ) == Ok::<Seq<ExpandedModel>, ErrorModel>(views(v@)),
            Err(e) => expand_prefix(
                views(phases@),
                views(links@),
                Seq::empty(),
                Map::empty(),
                seq![root_key@],
                files@,
                phases@.len() as int,
            ) == Err::<Seq<ExpandedModel>, ErrorModel>(e@),
        },
{
    let mut visited: Vec<String> = Vec::new();
    visited.push(String::from_str(root_key));
    assert(views(visited@) =~= seq![root_key@]);
    let empty: StrMap<JsonValue> = StrMap::new();
    proof {
        reveal_strlit("");
    }
    let ns = "";
    assert(ns@ =~= Seq::<char>::empty());
    expand_phase_list(phases, links, ns, &empty, &visited, files)
}

proof fn lemma_prefix_of_concat(s: Seq<char>, a: Seq<char>, b: Seq<char>)
    requires
        has_prefix(s, a + b),
    ensures
        has_prefix(s, a),
{
    let k = (a + b).len() as int;
    assert(s.subrange(0, k) == a + b);
    assert forall|j: int| 0 <= j < a.len() implies s[j] == a[j] by {
        assert(s.subrange(0, k)[j] == (a + b)[j]);
    }
    assert(s.subrange(0, a.len() as int) =~= a);
}

/// Every phase that the expansion of a file's first `n` phases yields lies
/// in that file's namespace: its id starts with `ns`.
pub proof fn law_expanded_ids_in_namespace(
    ps: Seq<PhaseModel>,
    links: Seq<Seq<char>>,
    ns: Seq<char>,
    with: Map<Seq<char>, JsonModel>,
    visited: Seq<Seq<char>>,
    files: Map<Seq<char>, LoadedModel>,
    n: int,
)
    requires
        expand_prefix(ps, links, ns, with, visited, files, n) is Ok,
    ensures
        forall|i: int|
            0 <= i < expand_prefix(ps, links, ns, with, visited, files, n)->Ok_0.len() ==> has_prefix(
                #[trigger] expand_prefix(ps, links, ns, with, visited, files, n)->Ok_0[i].id,
                ns,
            ),
    decreases 5 - visited.len(), n,
{
    if n > 0 {
        law_expanded_ids_in_namespace(ps, links, ns, with, visited, files, n - 1);
        lemma_one_ids_in_namespace(ps[n - 1], link_at(links, n - 1), ns, with, visited, files, local_ids(ps));
        let acc = expand_prefix(ps, links, ns, with, visited, files, n - 1)->Ok_0;
        let xs = expand_one_spec(ps[n - 1], link_at(links, n - 1), ns, with, visited, files, local_ids(ps))->Ok_0;
        let all = expand_prefix(ps, links, ns, with, visited, files, n)->Ok_0;
        assert(all == acc + xs);
        assert forall|i: int| 0 <= i < all.len() implies has_prefix(#[trigger] all[i].id, ns) by {
            if i < acc.len() {
                assert(all[i] == acc[i]);
            } else {
                assert(all[i] == xs[i - acc.len()]);
            }
        }
    }
}

/// A phase that invokes a sub-pipeline hands its checks to the last leaf of
/// the sub-pipeline's expansion: the expansion has the sub-pipeline's leaves,
/// in order and with their ids; the last leaf's `validate`, `gate` and
/// `regate` lists are its own followed by the invoking phase's; every other
/// leaf keeps its own lists.
pub proof fn law_invoking_phase_checks_go_to_last_leaf(
    p: PhaseModel,
    link: Seq<char>,
    ns: Seq<char>,
    with: Map<Seq<char>, JsonModel>,
    visited: Seq<Seq<char>>,
    files: Map<Seq<char>, LoadedModel>,
    local: Seq<Seq<char>>,
)
    requires
        p.invoke matches Some(InvokerModel::Pipeline { .. }),
        expand_one_spec(p, link, ns, with, visited, files, local) is Ok,
    ensures
        match (p.invoke, files[link]) {
            (Some(InvokerModel::Pipeline { with: pw, .. }), LoadedModel::Parsed(cps, clinks, _)) => {
                let sub = expand_prefix(
                    cps,
                    clinks,
                    ns + p.id + "/"@,
                    subst_map_spec(pw, with),
                    visited.push(link),
                    files,
                    cps.len() as int,
                )->Ok_0;
                let out = expand_one_spec(p, link, ns, with, visited, files, local)->Ok_0;
                &&& 0 < sub.len() == out.len()
                &&& forall|i: int| 0 <= i < out.len() ==> #[trigger] out[i].id == sub[i].id
                &&& out.last().validate == sub.last().validate + p.validate
                &&& out.last().gate == sub.last().gate + p.gate
                &&& out.last().regate == sub.last().regate + p.regate
                &&& forall|i: int|
                    0 <= i < out.len() - 1 ==> {
                        &&& (#[trigger] out[i]).validate == sub[i].validate
                        &&& out[i].gate == sub[i].gate
                        &&& out[i].regate == sub[i].regate
                    }
            },
            _ => false,
        },
{
    match (p.invoke, files[link]) {
        (Some(InvokerModel::Pipeline { with: pw, .. }), LoadedModel::Parsed(cps, clinks, _)) => {
            let sub = expand_prefix(
                cps,
                clinks,
                ns + p.id + "/"@,
                subst_map_spec(pw, with),
                visited.push(link),
                files,
                cps.len() as int,
            )->Ok_0;
            let out = expand_one_spec(p, link, ns, with, visited, files, local)->Ok_0;
            assert(out == inherit_spec(sub, p, with));
            let w = substituted_when_spec(p.when, with);
            let s1 = sub.map_values(|x: ExpandedModel| inherit_when(x, w));
            assert(s1.last() == inherit_when(sub.last(), w));
        },
        _ => {},
    }
}

proof fn lemma_one_ids_in_namespace(
    p: PhaseModel,
    link: Seq<char>,
    ns: Seq<char>,
    with: Map<Seq<char>, JsonModel>,
    visited: Seq<Seq<char>>,
    files: Map<Seq<char>, LoadedModel>,
    local: Seq<Seq<char>>,
)
    requires
        expand_one_spec(p, link, ns, with, visited, files, local) is Ok,
    ensures
        forall|i: int|
            0 <= i < expand_one_spec(p, link, ns, with, visited, files, local)->Ok_0.len() ==> has_prefix(
                #[trigger] expand_one_spec(p, link, ns, with, visited, files, local)->Ok_0[i].id,
                ns,
            ),
    decreases 5 - visited.len(), 0int,
{
    let out = expand_one_spec(p, link, ns, with, visited, files, local)->Ok_0;
    match p.invoke {
        Some(InvokerModel::Pipeline { pipeline: sub_ref, with: pw }) => {
            if !visited.contains(link) && visited.len() <= 4 && files.contains_key(link) {
                match files[link] {
                    LoadedModel::Parsed(cps, clinks, _) => {
                        let cns = ns + p.id + "/"@;
                        law_expanded_ids_in_namespace(
                            cps,
                            clinks,
                            cns,
                            subst_map_spec(pw, with),
                            visited.push(link),
                            files,
                            cps.len() as int,
                        );
                        let sub = expand_prefix(
                            cps,
                            clinks,
                            cns,
                            subst_map_spec(pw, with),
                            visited.push(link),
                            files,
                            cps.len() as int,
                        )->Ok_0;
                        assert forall|i: int| 0 <= i < out.len() implies has_prefix(#[trigger] out[i].id, ns) by {
                            assert(out[i].id == sub[i].id);
                            assert(has_prefix(sub[i].id, cns));
                            assert(ns + p.id + "/"@ =~= ns + (p.id + "/"@));
                            lemma_prefix_of_concat(sub[i].id, ns, p.id + "/"@);
                        }
                    },
                    _ => {},
                }
            }
        },
        _ => {
            assert(out[0].id == ns + p.id);
            assert((ns + p.id).take(ns.len() as int) =~= ns);
        },
    }
}
} // verus!
