//! The named teams of a configuration, resolved and checked.

use vstd::prelude::*;
use crate::models;
use crate::models::{ModelRegistry, ResolvedModel};
use crate::order;
use crate::pipeline::config::{Config, PipelineDefinition};
use crate::pipeline::registry;
use crate::pipeline::registry::{SubAgentError, SubAgentRegistry};
use crate::table;
use crate::text;

verus! {

/// A team that is ready to run.
#[derive(Debug, PartialEq)]
pub struct ResolvedPipeline {
    pub name: String,
    /// The model of the orchestrator.
    pub orchestrator: ResolvedModel,
    /// Extra instructions for the orchestrator.
    pub orchestrator_prompt: Option<String>,
    /// A persona that replaces the global one.
    pub orchestrator_persona: Option<String>,
    /// The roles that the orchestrator can delegate to.
    pub registry: SubAgentRegistry,
}

/// What views show of a team.
#[derive(Debug, PartialEq)]
pub struct PipelineInfo {
    pub name: String,
    pub orchestrator_model: String,
    /// `(role, model alias)` pairs in alphabetical order of the roles.
    pub members: Vec<(String, String)>,
}

/// Why a configuration's teams are refused.
#[derive(Debug, PartialEq)]
pub enum PipelineSetError {
    BothShapes,
    LegacyBlock,
    EmptyName(usize),
    InvalidName { name: String, index: usize },
    ReservedName(String),
    DuplicateName { name: String, first: usize, second: usize },
    EmptyAgents(String),
    ReservedMember { pipeline: String },
    UnknownOrchestrator { pipeline: String, alias: String, available: String },
    SubAgent { pipeline: String, source: SubAgentError },
}

impl PipelineSetError {
    /// The message for the error.
    pub open spec fn text(self) -> Seq<char> {
        match self {
            PipelineSetError::BothShapes =>
                "pipeline config: declare either the legacy 'pipeline:' block or 'pipelines:', not both. Remove one and restart."@,
            PipelineSetError::LegacyBlock =>
                "pipeline config: legacy 'pipeline:' block is no longer supported. Migrate to 'pipelines:' (move agents under a named pipelines entry, move orchestrator_prompt to orchestrator.prompt, drop enabled — or delete the block entirely if it was disabled). See docs/migration."@,
            PipelineSetError::EmptyName(i) => "pipeline config: pipelines["@ + text::decimal(
                i as nat,
            ) + "] has an empty name."@,
            PipelineSetError::InvalidName { name, .. } => "pipeline config: name '"@ + name@
                + "' must match ^[A-Za-z0-9_ .-]+$ (no control characters)."@,
            PipelineSetError::ReservedName(name) => "pipeline config: name '"@ + name@
                + "' is a reserved pipeline name — it means \"no pipeline\"."@,
            PipelineSetError::DuplicateName { name, first, second } =>
                "pipeline config: duplicate pipeline name '"@ + name@ + "' (pipelines["@
                + text::decimal(first as nat) + "] and pipelines["@ + text::decimal(second as nat)
                + "])."@,
            PipelineSetError::EmptyAgents(name) => "pipeline '"@ + name@
                + "': needs at least one sub-agent under 'agents:'."@,
            PipelineSetError::ReservedMember { pipeline } => "pipeline '"@ + pipeline@
                + "': 'orchestrator' is a reserved member name — configure it under 'orchestrator:', not inside 'agents:'."@,
            PipelineSetError::UnknownOrchestrator { pipeline, alias, available } => "pipeline '"@
                + pipeline@ + "': orchestrator names unknown model alias '"@ + alias@
                + "'. Available: "@ + available@,
            PipelineSetError::SubAgent { pipeline, source } => "pipeline '"@ + pipeline@ + "': "@
                + source.text(),
        }
    }

    /// The message for the error.
    pub fn message(&self) -> (r: String)
        ensures
            r@ == self.text(),
    {
        match self {
            PipelineSetError::BothShapes => {
                "pipeline config: declare either the legacy 'pipeline:' block or 'pipelines:', not both. Remove one and restart.".to_owned()
            },
            PipelineSetError::LegacyBlock => {
                "pipeline config: legacy 'pipeline:' block is no longer supported. Migrate to 'pipelines:' (move agents under a named pipelines entry, move orchestrator_prompt to orchestrator.prompt, drop enabled — or delete the block entirely if it was disabled). See docs/migration.".to_owned()
            },
            PipelineSetError::EmptyName(i) => {
                let mut m = "pipeline config: pipelines[".to_owned();
                m.append(text::decimal_text(*i as u64).as_str());
                m.append("] has an empty name.");
                m
            },
            PipelineSetError::InvalidName { name, .. } => {
                let mut m = "pipeline config: name '".to_owned();
                m.append(name.as_str());
                m.append("' must match ^[A-Za-z0-9_ .-]+$ (no control characters).");
                m
            },
            PipelineSetError::ReservedName(name) => {
                let mut m = "pipeline config: name '".to_owned();
                m.append(name.as_str());
                m.append("' is a reserved pipeline name — it means \"no pipeline\".");
                m
            },
            PipelineSetError::DuplicateName { name, first, second } => {
                let mut m = "pipeline config: duplicate pipeline name '".to_owned();
                m.append(name.as_str());
                m.append("' (pipelines[");
                m.append(text::decimal_text(*first as u64).as_str());
                m.append("] and pipelines[");
                m.append(text::decimal_text(*second as u64).as_str());
                m.append("]).");
                m
            },
            PipelineSetError::EmptyAgents(name) => {
                let mut m = "pipeline '".to_owned();
                m.append(name.as_str());
                m.append("': needs at least one sub-agent under 'agents:'.");
                m
            },
            PipelineSetError::ReservedMember { pipeline } => {
                let mut m = "pipeline '".to_owned();
                m.append(pipeline.as_str());
                m.append(
                    "': 'orchestrator' is a reserved member name — configure it under 'orchestrator:', not inside 'agents:'.",
                );
                m
            },
            PipelineSetError::UnknownOrchestrator { pipeline, alias, available } => {
                let mut m = "pipeline '".to_owned();
                m.append(pipeline.as_str());
                m.append("': orchestrator names unknown model alias '");
                m.append(alias.as_str());
                m.append("'. Available: ");
                m.append(available.as_str());
                m
            },
            PipelineSetError::SubAgent { pipeline, source } => {
                let mut m = "pipeline '".to_owned();
                m.append(pipeline.as_str());
                m.append("': ");
                m.append(source.message().as_str());
                m
            },
        }
    }
}

// ---------------------------------------------------------------------------
// Names
// ---------------------------------------------------------------------------

/// The characters that a team's name may hold.
pub open spec fn is_name_char(c: char) -> bool {
    ||| 'A' <= c <= 'Z'
    ||| 'a' <= c <= 'z'
    ||| '0' <= c <= '9'
    ||| c == ' '
    ||| c == '_'
    ||| c == '-'
    ||| c == '.'
}

/// Whether `s` may name a team.
pub open spec fn is_name(s: Seq<char>) -> bool {
    s.len() > 0 && forall|i: int| 0 <= i < s.len() ==> is_name_char(#[trigger] s[i])
}

/// Whether `s` may name a team.
pub fn is_valid_pipeline_name(s: &str) -> (r: bool)
    ensures
        r == is_name(s@),
{
    let cs = text::chars_of(s);
    let mut i: usize = 0;
    while i < cs.len()
        invariant
            i <= cs@.len(),
            cs@ == s@,
            forall|j: int| 0 <= j < i ==> is_name_char(#[trigger] cs@[j]),
        decreases cs@.len() - i,
    {
        let c = cs[i];
        let ok = ('A' <= c && c <= 'Z') || ('a' <= c && c <= 'z') || ('0' <= c && c <= '9') || c
            == ' ' || c == '_' || c == '-' || c == '.';
        if !ok {
            assert(!is_name_char(s@[i as int]));
            return false;
        }
        i += 1;
    }
    cs.len() > 0
}

/// Whether a list of teams is well named: every name is valid, none is the
/// reserved `none`, and no two are the same.
pub open spec fn well_named(s: Seq<ResolvedPipeline>) -> bool {
    &&& forall|i: int|
        0 <= i < s.len() ==> is_name((#[trigger] s[i]).name@) && s[i].name@ != "none"@
    &&& forall|i: int, j: int|
        0 <= i < j < s.len() ==> (#[trigger] s[i]).name@ != (#[trigger] s[j]).name@
}

/// The names of the teams.
pub open spec fn team_names(s: Seq<ResolvedPipeline>) -> Seq<Seq<char>> {
    Seq::new(s.len(), |i: int| s[i].name@)
}

/// The team with this name.
pub open spec fn find_team(s: Seq<ResolvedPipeline>, name: Seq<char>) -> Option<ResolvedPipeline>
    decreases s.len(),
{
    if s.len() == 0 {
        None
    } else if s[0].name@ == name {
        Some(s[0])
    } else {
        find_team(s.drop_first(), name)
    }
}

/// A team is found exactly where one has the name, and it has that name.
pub proof fn law_found_team(s: Seq<ResolvedPipeline>, name: Seq<char>)
    ensures
        find_team(s, name) is Some <==> team_names(s).contains(name),
        find_team(s, name) matches Some(p) ==> p.name@ == name && s.contains(p),
    decreases s.len(),
{
    if s.len() > 0 {
        let rest = s.drop_first();
        law_found_team(rest, name);
        if s[0].name@ == name {
            assert(team_names(s)[0] == name);
        } else {
            if let Some(p) = find_team(rest, name) {
                let i = choose|i: int| 0 <= i < rest.len() && rest[i] == p;
                assert(s[i + 1] == p);
                assert(team_names(s)[i + 1] == name);
            }
            if team_names(s).contains(name) {
                let i = choose|i: int| 0 <= i < s.len() && team_names(s)[i] == name;
                assert(team_names(rest)[i - 1] == name);
            }
        }
    }
}

// ---------------------------------------------------------------------------
// Checking a configuration
// ---------------------------------------------------------------------------

/// The name of a configured team: without the white space around it.
pub open spec fn def_name(def: PipelineDefinition) -> Seq<char> {
    text::trim(def.name@)
}

/// The first of the teams before `i` that has the same name as the team at `i`.
pub open spec fn earlier(defs: Seq<PipelineDefinition>, i: int) -> Option<int> {
    first_named(defs.take(i), def_name(defs[i]))
}

/// The first team with this name.
pub open spec fn first_named(defs: Seq<PipelineDefinition>, name: Seq<char>) -> Option<int>
    decreases defs.len(),
{
    if defs.len() == 0 {
        None
    } else {
        match first_named(defs.drop_last(), name) {
            Some(j) => Some(j),
            None => if def_name(defs.last()) == name {
                Some(defs.len() - 1)
            } else {
                None
            },
        }
    }
}

/// What is wrong with a configured team.
pub enum PipelineProblem {
    EmptyName,
    ReservedName,
    InvalidName,
    DuplicateName(int),
    EmptyAgents,
    ReservedMember,
    UnknownOrchestrator,
    Roles,
}

/// What is wrong with the team at `i`, checked in this order.
pub open spec fn pipeline_problem(
    defs: Seq<PipelineDefinition>,
    i: int,
    models: ModelRegistry,
    known: Option<Seq<Seq<char>>>,
) -> Option<PipelineProblem> {
    let def = defs[i];
    let name = def_name(def);
    if name.len() == 0 {
        Some(PipelineProblem::EmptyName)
    } else if name == "none"@ {
        Some(PipelineProblem::ReservedName)
    } else if !is_name(name) {
        Some(PipelineProblem::InvalidName)
    } else if earlier(defs, i) is Some {
        Some(PipelineProblem::DuplicateName(earlier(defs, i)->0))
    } else if def.agents@.len() == 0 {
        Some(PipelineProblem::EmptyAgents)
    } else if table::names(def.agents@).contains("orchestrator"@) {
        Some(PipelineProblem::ReservedMember)
    } else if models::find_alias(
        models.models@,
        registry::wanted_alias(def.orchestrator.model, models),
    ) is None {
        Some(PipelineProblem::UnknownOrchestrator)
    } else if !registry::roles_ok(def.agents@, models, known) {
        Some(PipelineProblem::Roles)
    } else {
        None
    }
}

/// Whether `e` reports the problem `p` of the team at `i`.
pub open spec fn problem_reported(
    e: PipelineSetError,
    p: PipelineProblem,
    defs: Seq<PipelineDefinition>,
    i: int,
    models: ModelRegistry,
    known: Option<Seq<Seq<char>>>,
) -> bool {
    let def = defs[i];
    let n = def_name(def);
    match p {
        PipelineProblem::EmptyName => e matches PipelineSetError::EmptyName(k) && k == i,
        PipelineProblem::ReservedName => e matches PipelineSetError::ReservedName(name) && name@
            == n,
        PipelineProblem::InvalidName => e matches PipelineSetError::InvalidName { name, index }
            && name@ == n && index == i,
        PipelineProblem::DuplicateName(j) => e matches PipelineSetError::DuplicateName {
            name,
            first,
            second,
        } && name@ == n && first == j && second == i,
        PipelineProblem::EmptyAgents => e matches PipelineSetError::EmptyAgents(name) && name@ == n,
        PipelineProblem::ReservedMember => e matches PipelineSetError::ReservedMember { pipeline }
            && pipeline@ == n,
        PipelineProblem::UnknownOrchestrator => e matches PipelineSetError::UnknownOrchestrator {
            pipeline,
            alias,
            available,
        } && pipeline@ == n && alias@ == registry::wanted_alias(def.orchestrator.model, models)
            && available@ == models::alias_listing(models.models@),
        PipelineProblem::Roles => e matches PipelineSetError::SubAgent { pipeline, source }
            && pipeline@ == n && exists|k: int| #[trigger]
            registry::first_reported(source, def.agents@, models, known, k),
    }
}

/// Whether the first `n` teams have no problem.
pub open spec fn pipelines_ok(
    defs: Seq<PipelineDefinition>,
    n: int,
    models: ModelRegistry,
    known: Option<Seq<Seq<char>>>,
) -> bool {
    forall|i: int| 0 <= i < n ==> #[trigger] pipeline_problem(defs, i, models, known) is None
}

/// Whether `e` reports the team at `i`, the first that has a problem.
pub open spec fn first_problem(
    e: PipelineSetError,
    defs: Seq<PipelineDefinition>,
    models: ModelRegistry,
    known: Option<Seq<Seq<char>>>,
    i: int,
) -> bool {
    &&& 0 <= i < defs.len()
    &&& pipelines_ok(defs, i, models, known)
    &&& pipeline_problem(defs, i, models, known) matches Some(p) && problem_reported(
        e,
        p,
        defs,
        i,
        models,
        known,
    )
}

/// Whether `p` is what `def` resolves to.
pub open spec fn pipeline_resolved(
    def: PipelineDefinition,
    models: ModelRegistry,
    p: ResolvedPipeline,
) -> bool {
    &&& p.name@ == def_name(def)
    &&& models::find_alias(
        models.models@,
        registry::wanted_alias(def.orchestrator.model, models),
    ) == Some(p.orchestrator)
    &&& p.orchestrator_prompt == def.orchestrator.prompt
    &&& p.orchestrator_persona == def.orchestrator.persona
    &&& registry::all_resolved(def.agents@, models, p.registry@)
}

/// Whether `s` are the teams that a configuration resolves to, in its order.
pub open spec fn set_resolved(
    defs: Seq<PipelineDefinition>,
    models: ModelRegistry,
    s: Seq<ResolvedPipeline>,
) -> bool {
    &&& s.len() == defs.len()
    &&& forall|i: int| 0 <= i < s.len() ==> pipeline_resolved(defs[i], models, #[trigger] s[i])
}

proof fn lemma_first_named(defs: Seq<PipelineDefinition>, name: Seq<char>)
    ensures
        match first_named(defs, name) {
            Some(j) => 0 <= j < defs.len() && def_name(defs[j]) == name && forall|k: int|
                0 <= k < j ==> def_name(#[trigger] defs[k]) != name,
            None => forall|k: int| 0 <= k < defs.len() ==> def_name(#[trigger] defs[k]) != name,
        },
    decreases defs.len(),
{
    if defs.len() > 0 {
        let d = defs.drop_last();
        lemma_first_named(d, name);
        match first_named(d, name) {
            Some(j) => {
                assert(d[j] == defs[j]);
                assert forall|k: int| 0 <= k < j implies def_name(#[trigger] defs[k]) != name by {
                    assert(d[k] == defs[k]);
                }
            },
            None => {
                assert forall|k: int| 0 <= k < d.len() implies def_name(#[trigger] defs[k])
                    != name by {
                    assert(d[k] == defs[k]);
                }
            },
        }
    }
}

proof fn lemma_first_named_at(defs: Seq<PipelineDefinition>, name: Seq<char>, j: int)
    requires
        0 <= j < defs.len(),
        def_name(defs[j]) == name,
        forall|k: int| 0 <= k < j ==> def_name(#[trigger] defs[k]) != name,
    ensures
        first_named(defs, name) == Some(j),
{
    lemma_first_named(defs, name);
    let f = first_named(defs, name);
    assert(f is Some);
    let x = f->0;
    if x < j {
        assert(def_name(defs[x]) != name);
    }
    if j < x {
        assert(def_name(defs[j]) != name);
    }
}

// ---------------------------------------------------------------------------
// The set
// ---------------------------------------------------------------------------

/// The teams of a configuration, in the order in which it declares them.
#[derive(Debug, PartialEq)]
pub struct PipelineSet(Vec<ResolvedPipeline>);

impl View for PipelineSet {
    type V = Seq<ResolvedPipeline>;

    closed spec fn view(&self) -> Seq<ResolvedPipeline> {
        self.0@
    }
}

/// Whether `r` is what a configuration's teams come to: all of them resolved, or
/// the first problem in the order of declaration.
pub open spec fn built(
    cfg: Config,
    models: ModelRegistry,
    known: Option<Seq<Seq<char>>>,
    r: Result<PipelineSet, PipelineSetError>,
) -> bool {
    match r {
        Ok(set) => {
            &&& cfg.pipeline is None
            &&& pipelines_ok(cfg.pipelines@, cfg.pipelines@.len() as int, models, known)
            &&& set_resolved(cfg.pipelines@, models, set@)
            &&& well_named(set@)
        },
        Err(PipelineSetError::BothShapes) => cfg.pipeline is Some && cfg.pipelines@.len() > 0,
        Err(PipelineSetError::LegacyBlock) => cfg.pipeline is Some && cfg.pipelines@.len() == 0,
        Err(e) => cfg.pipeline is None && exists|i: int| #[trigger]
            first_problem(e, cfg.pipelines@, models, known, i),
    }
}

/// The warning for a saved team that is gone.
pub open spec fn gone_warning(name: Seq<char>) -> Seq<char> {
    "⚠ Pipeline '"@ + name
        + "' from this conversation is no longer configured; loaded without a pipeline."@
}

/// The members that views show: the roles in alphabetical order.
pub open spec fn shown_members(p: ResolvedPipeline) -> Seq<(Seq<char>, Seq<char>)> {
    let all = registry::role_aliases(p.registry@);
    order::pick(all, order::stable_order(all.len(), order::by_text(table::names(p.registry@))))
}

/// Whether `info` shows `p`.
pub open spec fn shows(info: PipelineInfo, p: ResolvedPipeline) -> bool {
    &&& info.name@ == p.name@
    &&& info.orchestrator_model@ == p.orchestrator.alias@
    &&& registry::pairs(info.members@) == shown_members(p)
}

fn info_of(p: &ResolvedPipeline) -> (r: PipelineInfo)
    ensures
        shows(r, *p),
        table::names(p.registry@).no_duplicates(),
{
    let all = p.registry.role_model_aliases();
    let keys = p.registry.list_agents();
    let order = order::arrange_by_text(&keys);
    let ghost o = order::positions(order@);
    assert(keys@.len() == text::strs(keys@).len());
    assert(all@.len() == registry::pairs(all@).len());
    let mut members: Vec<(String, String)> = Vec::new();
    let mut i: usize = 0;
    while i < order.len()
        invariant
            i <= order@.len(),
            o == order::positions(order@),
            order::arranges(o, all@.len(), order::by_text(text::strs(keys@))),
            members@.len() == i,
            forall|j: int|
                0 <= j < i ==> (#[trigger] members@[j]).0@ == all@[order@[j] as int].0@
                    && members@[j].1@ == all@[order@[j] as int].1@,
        decreases order@.len() - i,
    {
        assert(0 <= o[i as int] < all@.len());
        let k: usize = order[i];
        members.push((all[k].0.clone(), all[k].1.clone()));
        i += 1;
    }
    assert(registry::pairs(members@) =~= shown_members(*p)) by {
        assert forall|j: int| 0 <= j < members@.len() implies registry::pairs(members@)[j]
            == shown_members(*p)[j] by {
            assert(0 <= o[j] < all@.len());
            assert(registry::pairs(all@)[order@[j] as int] == registry::role_aliases(
                p.registry@,
            )[o[j]]);
        }
    }
    PipelineInfo {
        name: p.name.clone(),
        orchestrator_model: p.orchestrator.alias.clone(),
        members,
    }
}

impl Default for PipelineSet {
    /// The set without teams.
    fn default() -> (r: Self)
        ensures
            r@.len() == 0,
    {
        PipelineSet(Vec::new())
    }
}

impl PipelineSet {
    #[verifier::type_invariant]
    spec fn inv(&self) -> bool {
        well_named(self.0@)
    }

    /// Resolves and checks the teams of a configuration. The first problem in
    /// the order of declaration is reported. Without a list of skills, the
    /// roles' skill filters are not checked.
    pub fn build(cfg: &Config, models: &ModelRegistry, known_skills: Option<&[String]>) -> (r:
        Result<Self, PipelineSetError>)
        ensures
            built(*cfg, *models, registry::known(known_skills), r),
    {
        if cfg.pipeline.is_some() {
            if cfg.pipelines.len() > 0 {
                return Err(PipelineSetError::BothShapes);
            }
            return Err(PipelineSetError::LegacyBlock);
        }
        let ghost defs = cfg.pipelines@;
        let ghost known = registry::known(known_skills);
        let mut resolved: Vec<ResolvedPipeline> = Vec::new();
        let mut i: usize = 0;
        while i < cfg.pipelines.len()
            invariant
                defs == cfg.pipelines@,
                known == registry::known(known_skills),
                cfg.pipeline is None,
                i <= defs.len(),
                pipelines_ok(defs, i as int, *models, known),
                resolved@.len() == i,
                forall|j: int|
                    0 <= j < i ==> pipeline_resolved(defs[j], *models, #[trigger] resolved@[j]),
                well_named(resolved@),
            decreases defs.len() - i,
        {
            let def = &cfg.pipelines[i];
            let name = text::trim_text(def.name.as_str());
            let ghost prob = pipeline_problem(defs, i as int, *models, known);
            proof {
                lemma_first_named(defs.take(i as int), name@);
            }
            if name.as_str().is_empty() {
                let e = PipelineSetError::EmptyName(i);
                assert(first_problem(e, defs, *models, known, i as int));
                return Err(e);
            }
            if text::same(name.as_str(), "none") {
                let e = PipelineSetError::ReservedName(name);
                assert(first_problem(e, defs, *models, known, i as int));
                return Err(e);
            }
            if !is_valid_pipeline_name(name.as_str()) {
                let e = PipelineSetError::InvalidName { name, index: i };
                assert(first_problem(e, defs, *models, known, i as int));
                return Err(e);
            }
            let mut j: usize = 0;
            while j < i
                invariant
                    i < defs.len(),
                    j <= i,
                    resolved@.len() == i,
                    defs == cfg.pipelines@,
                    known == registry::known(known_skills),
                    cfg.pipeline is None,
                    pipelines_ok(defs, i as int, *models, known),
                    name@ == def_name(defs[i as int]),
                    name@.len() > 0,
                    name@ != "none"@,
                    is_name(name@),
                    forall|k: int|
                        0 <= k < i ==> pipeline_resolved(defs[k], *models, #[trigger] resolved@[k]),
                    forall|k: int| 0 <= k < j ==> (#[trigger] resolved@[k]).name@ != name@,
                decreases i - j,
            {
                if text::same(resolved[j].name.as_str(), name.as_str()) {
                    proof {
                        let d = defs.take(i as int);
                        assert(pipeline_resolved(defs[j as int], *models, resolved@[j as int]));
                        assert forall|k: int| 0 <= k < j implies def_name(#[trigger] d[k])
                            != name@ by {
                            assert(pipeline_resolved(defs[k], *models, resolved@[k]));
                        }
                        lemma_first_named_at(d, name@, j as int);
                    }
                    let e = PipelineSetError::DuplicateName { name, first: j, second: i };
                    assert(first_problem(e, defs, *models, known, i as int));
                    return Err(e);
                }
                j += 1;
            }
            proof {
                let d = defs.take(i as int);
                lemma_first_named(d, name@);
                assert(earlier(defs, i as int) is None) by {
                    if let Some(k) = first_named(d, name@) {
                        assert(d[k] == defs[k]);
                        assert(pipeline_resolved(defs[k], *models, resolved@[k]));
                    }
                }
            }
            if def.agents.is_empty() {
                let e = PipelineSetError::EmptyAgents(name);
                assert(first_problem(e, defs, *models, known, i as int));
                return Err(e);
            }
            if def.agents.contains_key("orchestrator") {
                let e = PipelineSetError::ReservedMember { pipeline: name };
                assert(first_problem(e, defs, *models, known, i as int));
                return Err(e);
            }
            let alias: &str = match &def.orchestrator.model {
                Some(a) => a.as_str(),
                None => models.default_alias(),
            };
            let orchestrator: ResolvedModel = match models.resolve(alias) {
                Some(m) => m.copy(),
                None => {
                    let e = PipelineSetError::UnknownOrchestrator {
                        pipeline: name,
                        alias: alias.to_owned(),
                        available: text::join_text(&models.aliases_sorted(), ", "),
                    };
                    assert(first_problem(e, defs, *models, known, i as int));
                    return Err(e);
                },
            };
            let registry = match SubAgentRegistry::from_members(&def.agents, models, known_skills) {
                Ok(r) => r,
                Err(source) => {
                    proof {
                        let k = choose|k: int| #[trigger]
                            registry::first_reported(source, def.agents@, *models, known, k);
                        assert(!registry::roles_ok(def.agents@, *models, known)) by {
                            assert(registry::role_problem(
                                def.agents@[k].0,
                                def.agents@[k].1,
                                *models,
                                known,
                            ) is Some);
                        }
                    }
                    let e = PipelineSetError::SubAgent { pipeline: name, source };
                    assert(first_problem(e, defs, *models, known, i as int));
                    return Err(e);
                },
            };
            assert(prob is None);
            resolved.push(
                ResolvedPipeline {
                    name,
                    orchestrator,
                    orchestrator_prompt: text::copy_option(&def.orchestrator.prompt),
                    orchestrator_persona: text::copy_option(&def.orchestrator.persona),
                    registry,
                },
            );
            i += 1;
        }
        Ok(PipelineSet(resolved))
    }

    /// Whether there are no teams.
    pub fn is_empty(&self) -> (r: bool)
        ensures
            r == (self@.len() == 0),
    {
        self.0.len() == 0
    }

    /// How many teams there are.
    pub fn len(&self) -> (n: usize)
        ensures
            n == self@.len(),
            well_named(self@),
    {
        proof {
            use_type_invariant(self);
        }
        self.0.len()
    }

    /// The team with this name.
    pub fn get(&self, name: &str) -> (r: Option<&ResolvedPipeline>)
        ensures
            match r {
                Some(p) => find_team(self@, name@) == Some(*p),
                None => find_team(self@, name@) is None,
            },
    {
        let mut i: usize = 0;
        assert(self.0@.skip(0) =~= self.0@);
        while i < self.0.len()
            invariant
                i <= self.0@.len(),
                self@ == self.0@,
                find_team(self@, name@) == find_team(self.0@.skip(i as int), name@),
            decreases self.0@.len() - i,
        {
            assert(self.0@.skip(i as int)[0] == self.0@[i as int]);
            assert(self.0@.skip(i as int).drop_first() =~= self.0@.skip(i + 1));
            if text::same(self.0[i].name.as_str(), name) {
                return Some(&self.0[i]);
            }
            i += 1;
        }
        None
    }

    /// The teams in the order of declaration.
    pub fn iter(&self) -> (r: core::slice::Iter<'_, ResolvedPipeline>)
        ensures
            vstd::std_specs::iter::IteratorSpec::remaining(&r) == self@.as_ref(),
    {
        broadcast use vstd::std_specs::slice::axiom_spec_slice_iter;

        self.0.as_slice().iter()
    }

    /// The names of the teams in the order of declaration.
    pub fn names(&self) -> (r: Vec<String>)
        ensures
            text::strs(r@) == team_names(self@),
    {
        let mut r: Vec<String> = Vec::new();
        let mut i: usize = 0;
        while i < self.0.len()
            invariant
                i <= self.0@.len(),
                self@ == self.0@,
                r@.len() == i,
                forall|j: int| 0 <= j < i ==> (#[trigger] r@[j])@ == self@[j].name@,
            decreases self.0@.len() - i,
        {
            r.push(self.0[i].name.clone());
            i += 1;
        }
        assert(text::strs(r@) =~= team_names(self@));
        r
    }

    /// The names of the teams as one text.
    pub fn names_joined(&self) -> (r: String)
        ensures
            r@ == text::join(team_names(self@), ", "@),
    {
        let names = self.names();
        text::join_text(&names, ", ")
    }

    /// What views show of the teams.
    pub fn infos(&self) -> (r: Vec<PipelineInfo>)
        ensures
            r@.len() == self@.len(),
            forall|i: int| 0 <= i < r@.len() ==> shows(#[trigger] r@[i], self@[i]),
            forall|i: int|
                0 <= i < self@.len() ==> table::names(
                    (#[trigger] self@[i]).registry@,
                ).no_duplicates(),
    {
        let mut r: Vec<PipelineInfo> = Vec::new();
        let mut i: usize = 0;
        while i < self.0.len()
            invariant
                i <= self.0@.len(),
                self@ == self.0@,
                r@.len() == i,
                forall|j: int| 0 <= j < i ==> shows(#[trigger] r@[j], self@[j]),
                forall|j: int|
                    0 <= j < i ==> table::names((#[trigger] self@[j]).registry@).no_duplicates(),
            decreases self.0@.len() - i,
        {
            r.push(info_of(&self.0[i]));
            i += 1;
        }
        r
    }

    /// Resolves a saved selection. A team that is gone gives a warning; no
    /// selection gives nothing.
    pub fn resolve_saved(&self, saved: Option<&str>) -> (r: (
        Option<&ResolvedPipeline>,
        Option<String>,
    ))
        ensures
            match saved {
                Some(name) => match find_team(self@, name@) {
                    Some(p) => r.0 == Some(&p) && r.1 is None,
                    None => r.0 is None && text::opt(r.1) == Some(gone_warning(name@)),
                },
                None => r.0 is None && r.1 is None,
            },
    {
        match saved {
            Some(name) => match self.get(name) {
                Some(p) => (Some(p), None),
                None => {
                    let mut w = "⚠ Pipeline '".to_owned();
                    w.append(name);
                    w.append(
                        "' from this conversation is no longer configured; loaded without a pipeline.",
                    );
                    (None, Some(w))
                },
            },
            None => (None, None),
        }
    }
}

/// Where the names are valid, each team is found again by its own name.
pub proof fn law_teams_found_by_name(s: Seq<ResolvedPipeline>, i: int)
    requires
        well_named(s),
        0 <= i < s.len(),
    ensures
        find_team(s, s[i].name@) == Some(s[i]),
    decreases i,
{
    if i > 0 {
        let t = s.drop_first();
        assert(s[0].name@ != s[i].name@);
        assert(well_named(t)) by {
            assert forall|j: int, k: int| 0 <= j < k < t.len() implies (#[trigger] t[j]).name@ != (
            #[trigger] t[k]).name@ by {
                assert(s[j + 1].name@ != s[k + 1].name@);
            }
            assert forall|j: int| 0 <= j < t.len() implies is_name((#[trigger] t[j]).name@)
                && t[j].name@ != "none"@ by {
                assert(t[j] == s[j + 1]);
            }
        }
        law_teams_found_by_name(t, i - 1);
    }
}

/// The joined names can be told apart again: splitting them gives the names back.
pub proof fn law_joined_names_split_back(s: Seq<ResolvedPipeline>)
    requires
        well_named(s),
        s.len() > 0,
    ensures
        text::split(text::join(team_names(s), ", "@), ", "@) == team_names(s),
{
    reveal_strlit(", ");
    let names = team_names(s);
    assert forall|i: int| 0 <= i < names.len() implies text::lacks(#[trigger] names[i], ", "@[0]) by {
        assert(is_name(s[i].name@));
        assert forall|j: int| 0 <= j < names[i].len() implies #[trigger] names[i][j] != ',' by {
            assert(is_name_char(s[i].name@[j]));
        }
    }
    text::law_split_undoes_join(names, ", "@);
}

/// The members that views show are the team's roles, each once, in alphabetical
/// order: as many as the team has, every role with its model among them, and of
/// two of them the first stands strictly before the second.
pub proof fn law_members_sorted(p: ResolvedPipeline)
    requires
        table::names(p.registry@).no_duplicates(),
    ensures
        shown_members(p).len() == p.registry@.len(),
        forall|m: (Seq<char>, Seq<char>)| #[trigger]
            shown_members(p).contains(m) <==> registry::role_aliases(p.registry@).contains(m),
        forall|i: int, j: int|
            0 <= i < j < shown_members(p).len() ==> order::text_le(
                (#[trigger] shown_members(p)[i]).0,
                (#[trigger] shown_members(p)[j]).0,
            ) && shown_members(p)[i].0 != shown_members(p)[j].0,
{
    let keys = table::names(p.registry@);
    let all = registry::role_aliases(p.registry@);
    order::lemma_by_text_orders(keys);
    order::law_stable_order_arranges(keys.len(), order::by_text(keys));
    let o = order::stable_order(keys.len(), order::by_text(keys));
    let shown = shown_members(p);
    assert forall|i: int, j: int| 0 <= i < j < shown.len() implies order::text_le(
        (#[trigger] shown[i]).0,
        (#[trigger] shown[j]).0,
    ) && shown[i].0 != shown[j].0 by {
        assert(order::by_text(keys)(o[i], o[j]));
        assert(o[i] != o[j]);
        assert(keys[o[i]] != keys[o[j]]);
    }
    assert forall|m: (Seq<char>, Seq<char>)| #[trigger] shown.contains(m) <==> all.contains(m) by {
        if shown.contains(m) {
            let i = choose|i: int| 0 <= i < shown.len() && shown[i] == m;
            assert(all[o[i]] == m);
        }
        if all.contains(m) {
            let k = choose|k: int| 0 <= k < all.len() && all[k] == m;
            order::lemma_position(o, keys.len(), k);
            let i = choose|i: int| 0 <= i < o.len() && o[i] == k;
            assert(shown[i] == m);
        }
    }
}

/// Whether the team at `k` is the first with this name.
pub open spec fn stands_at(s: Seq<ResolvedPipeline>, name: Seq<char>, k: int) -> bool {
    &&& 0 <= k < s.len()
    &&& s[k].name@ == name
    &&& forall|j: int| 0 <= j < k ==> (#[trigger] s[j]).name@ != name
}

/// A name leads to the first team that has it, and to none where no team has it.
pub proof fn law_name_leads_to_the_first(s: Seq<ResolvedPipeline>, name: Seq<char>, k: int)
    ensures
        0 <= k < s.len() && s[k].name@ == name && (forall|j: int|
            0 <= j < k ==> (#[trigger] s[j]).name@ != name) ==> find_team(s, name) == Some(s[k]),
        (forall|j: int| 0 <= j < s.len() ==> (#[trigger] s[j]).name@ != name) ==> find_team(
            s,
            name,
        ) is None,
    decreases s.len(),
{
    if s.len() > 0 {
        let d = s.drop_first();
        law_name_leads_to_the_first(d, name, k - 1);
        if 0 < k < s.len() && s[k].name@ == name && (forall|j: int|
            0 <= j < k ==> (#[trigger] s[j]).name@ != name) {
            assert(s[0].name@ != name);
            assert(d[k - 1] == s[k]);
            assert forall|j: int| 0 <= j < k - 1 implies (#[trigger] d[j]).name@ != name by {
                assert(d[j] == s[j + 1]);
            }
        }
        if forall|j: int| 0 <= j < s.len() ==> (#[trigger] s[j]).name@ != name {
            assert(s[0].name@ != name);
            assert forall|j: int| 0 <= j < d.len() implies (#[trigger] d[j]).name@ != name by {
                assert(d[j] == s[j + 1]);
            }
        }
    }
}

/// A configured team is refused exactly where its name is missing, reserved, not
/// allowed or taken, where it has no members or one with the orchestrator's name,
/// where no declared model has the orchestrator's alias, or where a role is bad.
pub proof fn law_team_is_refused_iff_bad(
    defs: Seq<PipelineDefinition>,
    i: int,
    models: ModelRegistry,
    known: Option<Seq<Seq<char>>>,
)
    requires
        0 <= i < defs.len(),
    ensures
        pipeline_problem(defs, i, models, known) is None <==> {
            let name = text::trim(defs[i].name@);
            &&& name.len() > 0
            &&& name != "none"@
            &&& forall|k: int|
                0 <= k < name.len() ==> is_name_char(#[trigger] name[k])
            &&& forall|j: int| 0 <= j < i ==> text::trim((#[trigger] defs[j]).name@) != name
            &&& defs[i].agents@.len() > 0
            &&& forall|k: int|
                0 <= k < defs[i].agents@.len() ==> (#[trigger] defs[i].agents@[k]).0
                    != "orchestrator"@
            &&& exists|k: int|
                0 <= k < models.models@.len() && (#[trigger] models.models@[k]).alias@ == (
                match defs[i].orchestrator.model {
                    Some(a) => a@,
                    None => models.default_alias@,
                })
            &&& forall|k: int|
                0 <= k < defs[i].agents@.len() ==> registry::role_problem(
                    (#[trigger] defs[i].agents@[k]).0,
                    defs[i].agents@[k].1,
                    models,
                    known,
                ) is None
        },
{
    let name = text::trim(defs[i].name@);
    let d = defs.take(i);
    lemma_first_named(d, name);
    assert forall|j: int| 0 <= j < i implies def_name(d[j]) == text::trim(
        (#[trigger] defs[j]).name@,
    ) by {}
    if earlier(defs, i) is Some {
        let j = earlier(defs, i)->0;
        assert(d[j] == defs[j]);
        assert(text::trim(defs[j].name@) == name);
    } else {
        assert forall|j: int| 0 <= j < i implies text::trim((#[trigger] defs[j]).name@)
            != name by {
            assert(def_name(d[j]) != name);
        }
    }
    let names = table::names(defs[i].agents@);
    if names.contains("orchestrator"@) {
        let k = choose|k: int| 0 <= k < names.len() && names[k] == "orchestrator"@;
        assert(defs[i].agents@[k].0 == "orchestrator"@);
    } else {
        assert forall|k: int| 0 <= k < defs[i].agents@.len() implies (
        #[trigger] defs[i].agents@[k]).0 != "orchestrator"@ by {
            assert(names[k] == defs[i].agents@[k].0);
        }
    }
    let alias = registry::wanted_alias(defs[i].orchestrator.model, models);
    models::law_alias_is_known_iff_declared(models.models@, alias);
}

/// A configuration is taken exactly where it is of the new form and every team is
/// fine; what is reported is the first team that is not.
pub proof fn law_configuration_is_taken_iff_good(
    cfg: Config,
    models: ModelRegistry,
    known: Option<Seq<Seq<char>>>,
    r: Result<PipelineSet, PipelineSetError>,
)
    requires
        built(cfg, models, known, r),
    ensures
        r is Ok <==> cfg.pipeline is None && forall|i: int|
            0 <= i < cfg.pipelines@.len() ==> #[trigger] pipeline_problem(
                cfg.pipelines@,
                i,
                models,
                known,
            ) is None,
        cfg.pipeline is Some ==> (r matches Err(e) && (e is BothShapes || e is LegacyBlock)),
        r matches Err(e) ==> (e is BothShapes <==> cfg.pipeline is Some && cfg.pipelines@.len() > 0),
        r matches Err(e) ==> (e is LegacyBlock <==> cfg.pipeline is Some && cfg.pipelines@.len()
            == 0),
        r matches Err(e) ==> (cfg.pipeline is None ==> exists|i: int| #[trigger]
            first_problem(e, cfg.pipelines@, models, known, i)),
{
}

/// A team is what was declared: its name without blanks around it, the model that
/// its orchestrator names or else the default one, its instructions, its persona,
/// and all of its roles in their order.
pub proof fn law_team_is_what_was_declared(
    cfg: Config,
    models: ModelRegistry,
    known: Option<Seq<Seq<char>>>,
    set: PipelineSet,
    i: int,
)
    requires
        built(cfg, models, known, Ok::<PipelineSet, PipelineSetError>(set)),
        0 <= i < cfg.pipelines@.len(),
    ensures
        set@.len() == cfg.pipelines@.len(),
        set@[i].name@ == text::trim(cfg.pipelines@[i].name@),
        set@[i].orchestrator.alias@ == (match cfg.pipelines@[i].orchestrator.model {
            Some(a) => a@,
            None => models.default_alias@,
        }),
        models.models@.contains(set@[i].orchestrator),
        set@[i].orchestrator_prompt == cfg.pipelines@[i].orchestrator.prompt,
        set@[i].orchestrator_persona == cfg.pipelines@[i].orchestrator.persona,
        set@[i].registry@.len() == cfg.pipelines@[i].agents@.len(),
        registry::all_resolved(cfg.pipelines@[i].agents@, models, set@[i].registry@),
        forall|k: int|
            0 <= k < set@[i].registry@.len() ==> (#[trigger] set@[i].registry@[k]).0
                == cfg.pipelines@[i].agents@[k].0 && set@[i].registry@[k].1.prompt@
                == cfg.pipelines@[i].agents@[k].1.prompt@,
{
    let def = cfg.pipelines@[i];
    assert(pipeline_resolved(def, models, set@[i]));
    models::law_found_by_alias(
        models.models@,
        registry::wanted_alias(def.orchestrator.model, models),
    );
    assert forall|k: int| 0 <= k < set@[i].registry@.len() implies (
    #[trigger] set@[i].registry@[k]).0 == def.agents@[k].0 && set@[i].registry@[k].1.prompt@
        == def.agents@[k].1.prompt@ by {
        registry::law_role_is_what_was_declared(def.agents@, models, set@[i].registry@, k);
    }
}

/// What views show of a team is its name, its orchestrator's alias, and each of its
/// roles with the alias of that role's model.
pub proof fn law_views_show_the_team(info: PipelineInfo, p: ResolvedPipeline)
    requires
        shows(info, p),
        table::names(p.registry@).no_duplicates(),
    ensures
        info.name@ == p.name@,
        info.orchestrator_model@ == p.orchestrator.alias@,
        info.members@.len() == p.registry@.len(),
        forall|k: int|
            0 <= k < p.registry@.len() ==> exists|i: int|
                0 <= i < info.members@.len() && (#[trigger] info.members@[i]).0@
                    == (#[trigger] p.registry@[k]).0 && info.members@[i].1@
                    == p.registry@[k].1.model.alias@,
        forall|i: int, j: int|
            0 <= i < j < info.members@.len() ==> order::text_le(
                (#[trigger] info.members@[i]).0@,
                (#[trigger] info.members@[j]).0@,
            ) && info.members@[i].0@ != info.members@[j].0@,
{
    law_members_sorted(p);
    let shown = shown_members(p);
    let all = registry::role_aliases(p.registry@);
    let ps = registry::pairs(info.members@);
    assert forall|i: int| 0 <= i < ps.len() implies ps[i] == (
        (#[trigger] info.members@[i]).0@,
        info.members@[i].1@,
    ) by {}
    assert forall|k: int| 0 <= k < p.registry@.len() implies exists|i: int|
        0 <= i < info.members@.len() && (#[trigger] info.members@[i]).0@
            == (#[trigger] p.registry@[k]).0 && info.members@[i].1@
            == p.registry@[k].1.model.alias@ by {
        assert(all[k] == (p.registry@[k].0, p.registry@[k].1.model.alias@));
        assert(all.contains(all[k]));
        assert(shown.contains(all[k]));
        let i = choose|i: int| 0 <= i < shown.len() && shown[i] == all[k];
        assert(ps[i] == all[k]);
        assert(info.members@[i].0@ == p.registry@[k].0);
    }
    assert forall|i: int, j: int| 0 <= i < j < info.members@.len() implies order::text_le(
        (#[trigger] info.members@[i]).0@,
        (#[trigger] info.members@[j]).0@,
    ) && info.members@[i].0@ != info.members@[j].0@ by {
        assert(shown[i] == ps[i]);
        assert(shown[j] == ps[j]);
    }
}

/// The message for a refused configuration names all that it is refused for: the place or
/// the name of the team, both places of a name that occurs twice, the alias that was asked
/// for and those that there are, and what is wrong with a role.
pub proof fn law_set_errors_name_their_cause(e: PipelineSetError) -> (r: Seq<Seq<char>>)
    ensures
        r.len() == 4,
        e matches PipelineSetError::EmptyName(i) ==> e.text() == r[0] + text::decimal(i as nat)
            + r[1],
        e matches PipelineSetError::InvalidName { name, .. } ==> e.text() == r[0] + name@ + r[1],
        e matches PipelineSetError::ReservedName(name) ==> e.text() == r[0] + name@ + r[1],
        e matches PipelineSetError::DuplicateName { name, first, second } ==> e.text() == r[0]
            + name@ + r[1] + text::decimal(first as nat) + r[2] + text::decimal(second as nat)
            + r[3],
        e matches PipelineSetError::EmptyAgents(name) ==> e.text() == r[0] + name@ + r[1],
        e matches PipelineSetError::ReservedMember { pipeline } ==> e.text() == r[0] + pipeline@
            + r[1],
        e matches PipelineSetError::UnknownOrchestrator { pipeline, alias, available } ==> e.text()
            == r[0] + pipeline@ + r[1] + alias@ + r[2] + available@,
        e matches PipelineSetError::SubAgent { pipeline, source } ==> e.text() == r[0] + pipeline@
            + r[1] + source.text(),
{
    let none = Seq::<char>::empty();
    match e {
        PipelineSetError::BothShapes | PipelineSetError::LegacyBlock => seq![none, none, none, none],
        PipelineSetError::EmptyName(_) => seq![
            "pipeline config: pipelines["@,
            "] has an empty name."@,
            none,
            none,
        ],
        PipelineSetError::InvalidName { .. } => seq![
            "pipeline config: name '"@,
            "' must match ^[A-Za-z0-9_ .-]+$ (no control characters)."@,
            none,
            none,
        ],
        PipelineSetError::ReservedName(_) => seq![
            "pipeline config: name '"@,
            "' is a reserved pipeline name — it means \"no pipeline\"."@,
            none,
            none,
        ],
        PipelineSetError::DuplicateName { .. } => seq![
            "pipeline config: duplicate pipeline name '"@,
            "' (pipelines["@,
            "] and pipelines["@,
            "])."@,
        ],
        PipelineSetError::EmptyAgents(_) => seq![
            "pipeline '"@,
            "': needs at least one sub-agent under 'agents:'."@,
            none,
            none,
        ],
        PipelineSetError::ReservedMember { .. } => seq![
            "pipeline '"@,
            "': 'orchestrator' is a reserved member name — configure it under 'orchestrator:', not inside 'agents:'."@,
            none,
            none,
        ],
        PipelineSetError::UnknownOrchestrator { .. } => seq![
            "pipeline '"@,
            "': orchestrator names unknown model alias '"@,
            "'. Available: "@,
            none,
        ],
        PipelineSetError::SubAgent { .. } => seq!["pipeline '"@, "': "@, none, none],
    }
}

/// A load without its team says which team is gone.
pub proof fn law_gone_team_is_named(name: Seq<char>, other: Seq<char>)
    requires
        name != other,
    ensures
        gone_warning(name) != gone_warning(other),
{
    text::lemma_middle_differs(
        "⚠ Pipeline '"@,
        name,
        other,
        "' from this conversation is no longer configured; loaded without a pipeline."@,
    );
}

/// A name is made of ASCII letters and digits, underscores, spaces, dots and hyphens.
pub proof fn law_name_characters(c: char)
    ensures
        is_name_char(c) <==> ('a' <= c <= 'z') || ('A' <= c <= 'Z') || ('0' <= c <= '9') || c == '_'
            || c == ' ' || c == '.' || c == '-',
{
}

/// What is reported of a configuration is the first team that is not fine, for the first
/// reason that there is, with everything that the reason is about.
pub proof fn law_first_bad_team_is_reported(
    e: PipelineSetError,
    defs: Seq<PipelineDefinition>,
    models: ModelRegistry,
    known: Option<Seq<Seq<char>>>,
    i: int,
)
    requires
        first_problem(e, defs, models, known, i),
    ensures
        0 <= i < defs.len(),
        forall|j: int| 0 <= j < i ==> #[trigger] pipeline_problem(defs, j, models, known) is None,
        ({
            let name = text::trim(defs[i].name@);
            let allowed = forall|k: int| 0 <= k < name.len() ==> is_name_char(#[trigger] name[k]);
            let taken = exists|j: int| 0 <= j < i && text::trim((#[trigger] defs[j]).name@) == name;
            &&& e is EmptyName <==> name.len() == 0
            &&& e is ReservedName <==> name == "none"@
            &&& e is InvalidName <==> name.len() > 0 && name != "none"@ && !allowed
            &&& e is DuplicateName <==> name.len() > 0 && name != "none"@ && allowed && taken
            &&& e is EmptyAgents ==> allowed && !taken && defs[i].agents@.len() == 0
            &&& e matches PipelineSetError::EmptyName(k) ==> k == i
            &&& e matches PipelineSetError::ReservedName(n) ==> n@ == name
            &&& e matches PipelineSetError::InvalidName { name: n, index } ==> n@ == name && index
                == i
            &&& e matches PipelineSetError::DuplicateName { name: n, first, second } ==> n@ == name
                && second == i && first < i && text::trim(defs[first as int].name@) == name && (
            forall|j: int| 0 <= j < first ==> text::trim((#[trigger] defs[j]).name@) != name)
            &&& e matches PipelineSetError::EmptyAgents(n) ==> n@ == name
            &&& e matches PipelineSetError::ReservedMember { pipeline } ==> pipeline@ == name
                && exists|k: int|
                0 <= k < defs[i].agents@.len() && (#[trigger] defs[i].agents@[k]).0
                    == "orchestrator"@
            &&& e matches PipelineSetError::UnknownOrchestrator { pipeline, alias, available }
                ==> pipeline@ == name && alias@ == (match defs[i].orchestrator.model {
                Some(a) => a@,
                None => models.default_alias@,
            }) && available@ == models::alias_listing(models.models@) && (forall|k: int|
                0 <= k < models.models@.len() ==> (#[trigger] models.models@[k]).alias@ != alias@)
            &&& e matches PipelineSetError::SubAgent { pipeline, source } ==> pipeline@ == name
                && exists|k: int| #[trigger]
                registry::first_reported(source, defs[i].agents@, models, known, k)
            &&& !(e is BothShapes) && !(e is LegacyBlock)
        }),
{
    let name = text::trim(defs[i].name@);
    let d = defs.take(i);
    reveal_strlit("none");
    lemma_first_named(d, name);
    assert forall|j: int| 0 <= j < i implies def_name(d[j]) == text::trim(
        (#[trigger] defs[j]).name@,
    ) by {}
    if earlier(defs, i) is Some {
        let j = earlier(defs, i)->0;
        assert(d[j] == defs[j]);
        assert(text::trim(defs[j].name@) == name);
        assert forall|k: int| 0 <= k < j implies text::trim((#[trigger] defs[k]).name@)
            != name by {
            assert(def_name(d[k]) != name);
        }
    } else {
        assert forall|j: int| 0 <= j < i implies text::trim((#[trigger] defs[j]).name@)
            != name by {
            assert(def_name(d[j]) != name);
        }
    }
    let names = table::names(defs[i].agents@);
    if names.contains("orchestrator"@) {
        let k = choose|k: int| 0 <= k < names.len() && names[k] == "orchestrator"@;
        assert(defs[i].agents@[k].0 == "orchestrator"@);
    }
    models::law_alias_is_known_iff_declared(
        models.models@,
        registry::wanted_alias(defs[i].orchestrator.model, models),
    );
}

} // verus!
