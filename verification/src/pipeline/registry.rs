//! The roles of a team, resolved against the declared models.

use vstd::prelude::*;
use crate::models;
use crate::models::{ModelRegistry, ResolvedModel};
use crate::order;
use crate::pipeline::config;
use crate::pipeline::config::{AgentDefinition, Members, PipelineConfig, SkillFilter};
use crate::table;
use crate::table::{StringMap, TextMap};
use crate::text;

verus! {

/// A role that is ready to be built: its model, its prompt and what its agent
/// may see.
#[derive(Debug, PartialEq)]
pub struct ResolvedRole {
    pub model: ResolvedModel,
    pub prompt: String,
    pub env: Option<TextMap>,
    pub skills: SkillFilter,
    pub agents_md: bool,
}

/// Why a team's roles cannot be resolved.
#[derive(Debug, PartialEq)]
pub enum SubAgentError {
    EmptyRoleName,
    EmptyPrompt(String),
    UnknownModel { role: String, alias: String, available: String },
    BadSkillFilter(String),
}

impl SubAgentError {
    /// The message for the error.
    pub open spec fn text(self) -> Seq<char> {
        match self {
            SubAgentError::EmptyRoleName => "Role name cannot be empty"@,
            SubAgentError::EmptyPrompt(role) => "Role '"@ + role@ + "' has an empty prompt"@,
            SubAgentError::UnknownModel { role, alias, available } => "Role '"@ + role@
                + "' names unknown model alias `"@ + alias@ + "`. Available: "@ + available@,
            SubAgentError::BadSkillFilter(m) => m@,
        }
    }

    /// The message for the error.
    pub fn message(&self) -> (r: String)
        ensures
            r@ == self.text(),
    {
        match self {
            SubAgentError::EmptyRoleName => "Role name cannot be empty".to_owned(),
            SubAgentError::EmptyPrompt(role) => {
                let mut m = "Role '".to_owned();
                m.append(role.as_str());
                m.append("' has an empty prompt");
                m
            },
            SubAgentError::UnknownModel { role, alias, available } => {
                let mut m = "Role '".to_owned();
                m.append(role.as_str());
                m.append("' names unknown model alias `");
                m.append(alias.as_str());
                m.append("`. Available: ");
                m.append(available.as_str());
                m
            },
            SubAgentError::BadSkillFilter(m) => m.clone(),
        }
    }
}

/// What is wrong with a role.
#[verifier::ext_equal]
pub enum RoleProblem {
    EmptyName,
    EmptyPrompt,
    BadSkills(config::SkillProblem),
    UnknownModel,
}

/// The alias of the model that a role asks for: its own, or the default.
pub open spec fn wanted_alias(model: Option<String>, models: ModelRegistry) -> Seq<char> {
    match model {
        Some(a) => a@,
        None => models.default_alias@,
    }
}

/// What is wrong with a role, checked in this order. Where no list of skills is
/// given, the skill filter is not checked.
pub open spec fn role_problem(
    name: Seq<char>,
    def: AgentDefinition,
    models: ModelRegistry,
    known: Option<Seq<Seq<char>>>,
) -> Option<RoleProblem> {
    let bad_skills = match known {
        Some(k) => config::skill_problem(def.skills, k),
        None => None,
    };
    if name.len() == 0 {
        Some(RoleProblem::EmptyName)
    } else if def.prompt@.len() == 0 {
        Some(RoleProblem::EmptyPrompt)
    } else if bad_skills is Some {
        Some(RoleProblem::BadSkills(bad_skills->0))
    } else if models::find_alias(models.models@, wanted_alias(def.model, models)) is None {
        Some(RoleProblem::UnknownModel)
    } else {
        None
    }
}

/// Whether `e` reports the problem `p` of a role.
pub open spec fn reports(
    e: SubAgentError,
    p: RoleProblem,
    name: Seq<char>,
    def: AgentDefinition,
    models: ModelRegistry,
) -> bool {
    match p {
        RoleProblem::EmptyName => e is EmptyRoleName,
        RoleProblem::EmptyPrompt => e matches SubAgentError::EmptyPrompt(role) && role@ == name,
        RoleProblem::BadSkills(s) => e matches SubAgentError::BadSkillFilter(m) && m@
            == config::skill_message(name, s),
        RoleProblem::UnknownModel => e matches SubAgentError::UnknownModel {
            role,
            alias,
            available,
        } && role@ == name && alias@ == wanted_alias(def.model, models) && available@
            == models::alias_listing(models.models@),
    }
}

/// Whether every role of a team can be resolved.
pub open spec fn roles_ok(
    members: Seq<(Seq<char>, AgentDefinition)>,
    models: ModelRegistry,
    known: Option<Seq<Seq<char>>>,
) -> bool {
    forall|i: int|
        0 <= i < members.len() ==> role_problem(
            (#[trigger] members[i]).0,
            members[i].1,
            models,
            known,
        ) is None
}

/// Whether `e` reports the role at `i`, the first that cannot be resolved.
pub open spec fn first_reported(
    e: SubAgentError,
    members: Seq<(Seq<char>, AgentDefinition)>,
    models: ModelRegistry,
    known: Option<Seq<Seq<char>>>,
    i: int,
) -> bool {
    &&& 0 <= i < members.len()
    &&& roles_ok(members.take(i), models, known)
    &&& role_problem(members[i].0, members[i].1, models, known) matches Some(p) && reports(
        e,
        p,
        members[i].0,
        members[i].1,
        models,
    )
}

/// Whether two optional environments hold the same.
pub open spec fn same_env(a: Option<TextMap>, b: Option<TextMap>) -> bool {
    match (a, b) {
        (Some(x), Some(y)) => x@ == y@,
        (None, None) => true,
        _ => false,
    }
}

/// Whether two roles are alike in everything that an agent is built from.
pub open spec fn same_role(a: ResolvedRole, b: ResolvedRole) -> bool {
    &&& a.model == b.model
    &&& a.prompt == b.prompt
    &&& same_env(a.env, b.env)
    &&& a.skills.enabled == b.skills.enabled
    &&& a.skills.disabled@ == b.skills.disabled@
    &&& a.skills.only@ == b.skills.only@
    &&& a.agents_md == b.agents_md
}

impl ResolvedRole {
    /// A copy of the role.
    pub fn copy(&self) -> (r: Self)
        ensures
            same_role(r, *self),
    {
        let env: Option<TextMap> = match &self.env {
            Some(e) => Some(e.copy()),
            None => None,
        };
        ResolvedRole {
            model: self.model.copy(),
            prompt: self.prompt.clone(),
            env,
            skills: self.skills.copy(),
            agents_md: self.agents_md,
        }
    }
}

/// Whether `role` is what `def` resolves to.
pub open spec fn resolves_to(def: AgentDefinition, models: ModelRegistry, role: ResolvedRole) -> bool {
    &&& models::find_alias(models.models@, wanted_alias(def.model, models)) == Some(role.model)
    &&& role.prompt == def.prompt
    &&& same_env(role.env, def.env)
    &&& role.skills.enabled == def.skills.enabled
    &&& role.skills.disabled@ == def.skills.disabled@
    &&& role.skills.only@ == def.skills.only@
    &&& role.agents_md == def.agents_md
}

/// Whether `roles` are the resolved members, in their order.
pub open spec fn all_resolved(
    members: Seq<(Seq<char>, AgentDefinition)>,
    models: ModelRegistry,
    roles: Seq<(Seq<char>, ResolvedRole)>,
) -> bool {
    &&& roles.len() == members.len()
    &&& forall|i: int|
        0 <= i < roles.len() ==> (#[trigger] roles[i]).0 == members[i].0 && resolves_to(
            members[i].1,
            models,
            roles[i].1,
        )
}

/// The `(role, model alias)` pairs of a team.
pub open spec fn role_aliases(roles: Seq<(Seq<char>, ResolvedRole)>) -> Seq<
    (Seq<char>, Seq<char>),
> {
    Seq::new(roles.len(), |i: int| (roles[i].0, roles[i].1.model.alias@))
}

/// The characters of a list of pairs of strings.
pub open spec fn pairs(v: Seq<(String, String)>) -> Seq<(Seq<char>, Seq<char>)> {
    Seq::new(v.len(), |i: int| (v[i].0@, v[i].1@))
}

proof fn lemma_stored_new<V>(s: Seq<(Seq<char>, V)>, key: Seq<char>, value: V)
    requires
        !table::names(s).contains(key),
    ensures
        table::stored(s, key, value) == s.push((key, value)),
    decreases s.len(),
{
    if s.len() == 0 {
        assert(s.push((key, value)) =~= seq![(key, value)]);
    } else {
        assert(table::names(s)[0] == s[0].0);
        let t = s.drop_first();
        if table::names(t).contains(key) {
            let i = choose|i: int| 0 <= i < table::names(t).len() && table::names(t)[i] == key;
            assert(table::names(s)[i + 1] == key);
        }
        lemma_stored_new(t, key, value);
        assert(seq![s[0]] + t.push((key, value)) =~= s.push((key, value)));
    }
}

/// The roles of a team by name.
#[derive(Debug, PartialEq)]
pub struct SubAgentRegistry {
    roles: StringMap<ResolvedRole>,
}

impl View for SubAgentRegistry {
    type V = Seq<(Seq<char>, ResolvedRole)>;

    closed spec fn view(&self) -> Seq<(Seq<char>, ResolvedRole)> {
        self.roles@
    }
}

impl SubAgentRegistry {
    /// Resolves the roles of a single team against the declared models and the
    /// discovered skills.
    pub fn new(
        pipeline_config: &PipelineConfig,
        model_registry: &ModelRegistry,
        known_skills: &[String],
    ) -> (r: Result<Self, SubAgentError>)
        ensures
            match r {
                Ok(reg) => roles_ok(
                    pipeline_config.agents@,
                    *model_registry,
                    Some(text::strs(known_skills@)),
                ) && all_resolved(pipeline_config.agents@, *model_registry, reg@),
                Err(e) => exists|i: int| #[trigger]
                    first_reported(
                        e,
                        pipeline_config.agents@,
                        *model_registry,
                        Some(text::strs(known_skills@)),
                        i,
                    ),
            },
    {
        Self::from_members(&pipeline_config.agents, model_registry, Some(known_skills))
    }

    /// Resolves the roles of a team. Without a list of skills, the roles' skill
    /// filters are not checked.
    pub fn from_members(
        members: &Members,
        model_registry: &ModelRegistry,
        known_skills: Option<&[String]>,
    ) -> (r: Result<Self, SubAgentError>)
        ensures
            match r {
                Ok(reg) => roles_ok(members@, *model_registry, known(known_skills))
                    && all_resolved(members@, *model_registry, reg@),
                Err(e) => exists|i: int| #[trigger]
                    first_reported(e, members@, *model_registry, known(known_skills), i),
            },
    {
        let mut roles: StringMap<ResolvedRole> = StringMap::new();
        let n: usize = members.len();
        let mut i: usize = 0;
        while i < n
            invariant
                n == members@.len(),
                table::names(members@).no_duplicates(),
                i <= members@.len(),
                roles_ok(members@.take(i as int), *model_registry, known(known_skills)),
                all_resolved(members@.take(i as int), *model_registry, roles@),
            decreases members@.len() - i,
        {
            let name = members.name_at(i);
            let def = members.value_at(i);
            let ghost entry = members@[i as int];
            if name.as_str().is_empty() {
                let e = SubAgentError::EmptyRoleName;
                assert(first_reported(
                    e,
                    members@,
                    *model_registry,
                    known(known_skills),
                    i as int,
                ));
                return Err(e);
            }
            if def.prompt.as_str().is_empty() {
                let e = SubAgentError::EmptyPrompt(name.clone());
                assert(first_reported(
                    e,
                    members@,
                    *model_registry,
                    known(known_skills),
                    i as int,
                ));
                return Err(e);
            }
            if let Some(skills) = known_skills {
                if let Err(m) = def.skills.validate(name.as_str(), skills) {
                    let e = SubAgentError::BadSkillFilter(m);
                    assert(first_reported(
                        e,
                        members@,
                        *model_registry,
                        known(known_skills),
                        i as int,
                    ));
                    return Err(e);
                }
            }
            let alias: &str = match &def.model {
                Some(a) => a.as_str(),
                None => model_registry.default_alias(),
            };
            let model: ResolvedModel = match model_registry.resolve(alias) {
                Some(m) => m.copy(),
                None => {
                    let e = SubAgentError::UnknownModel {
                        role: name.clone(),
                        alias: alias.to_owned(),
                        available: text::join_text(&model_registry.aliases_sorted(), ", "),
                    };
                    assert(first_reported(
                        e,
                        members@,
                        *model_registry,
                        known(known_skills),
                        i as int,
                    ));
                    return Err(e);
                },
            };
            let env: Option<TextMap> = match &def.env {
                Some(e) => Some(e.copy()),
                None => None,
            };
            let role = ResolvedRole {
                model,
                prompt: def.prompt.clone(),
                env,
                skills: def.skills.copy(),
                agents_md: def.agents_md,
            };
            let ghost before = roles@;
            proof {
                if table::names(before).contains(entry.0) {
                    let j = choose|j: int|
                        0 <= j < table::names(before).len() && table::names(before)[j] == entry.0;
                    assert(before[j].0 == members@.take(i as int)[j].0);
                    assert(table::names(members@)[j] == table::names(members@)[i as int]);
                }
                lemma_stored_new(before, entry.0, role);
            }
            roles.insert(name.clone(), role);
            assert(members@.take(i + 1) =~= members@.take(i as int).push(entry));
            i += 1;
        }
        assert(members@.take(n as int) =~= members@);
        Ok(SubAgentRegistry { roles })
    }

    /// A copy of the roles, for an agent that outlives the set of teams.
    pub fn copy(&self) -> (r: Self)
        ensures
            table::names(r@) == table::names(self@),
            forall|i: int| 0 <= i < r@.len() ==> same_role((#[trigger] r@[i]).1, self@[i].1),
    {
        let mut roles: StringMap<ResolvedRole> = StringMap::new();
        let n: usize = self.roles.len();
        let mut i: usize = 0;
        while i < n
            invariant
                n == self.roles@.len(),
                table::names(self.roles@).no_duplicates(),
                i <= n,
                roles@.len() == i,
                forall|j: int|
                    0 <= j < i ==> (#[trigger] roles@[j]).0 == self.roles@[j].0 && same_role(
                        roles@[j].1,
                        self.roles@[j].1,
                    ),
            decreases n - i,
        {
            let name = self.roles.name_at(i);
            let role = self.roles.value_at(i).copy();
            let ghost before = roles@;
            proof {
                if table::names(before).contains(name@) {
                    let j = choose|j: int|
                        0 <= j < table::names(before).len() && table::names(before)[j] == name@;
                    assert(before[j].0 == self.roles@[j].0);
                    assert(table::names(self.roles@)[j] == table::names(self.roles@)[i as int]);
                }
                lemma_stored_new(before, name@, role);
            }
            roles.insert(name.clone(), role);
            i += 1;
        }
        let r = SubAgentRegistry { roles };
        assert(table::names(r@) =~= table::names(self@));
        r
    }

    /// Whether the team has this role.
    pub fn has_agent(&self, name: &str) -> (r: bool)
        ensures
            r == table::names(self@).contains(name@),
    {
        self.roles.contains_key(name)
    }

    /// The names of the roles: each once, and exactly those that the team has.
    pub fn list_agents(&self) -> (r: Vec<String>)
        ensures
            text::strs(r@) == table::names(self@),
            table::names(self@).no_duplicates(),
            text::strs(r@).no_duplicates(),
            forall|n: Seq<char>| #[trigger]
                text::strs(r@).contains(n) <==> table::names(self@).contains(n),
    {
        self.roles.names()
    }

    /// The names of the roles in alphabetical order, for tool descriptions and
    /// error messages.
    pub fn available_roles(&self) -> (r: Vec<String>)
        ensures
            text::strs(r@) == order::sorted_texts(table::names(self@)),
    {
        let names = self.list_agents();
        order::sort_strings(&names)
    }

    /// The role with this name.
    pub fn role(&self, name: &str) -> (r: Option<&ResolvedRole>)
        ensures
            match r {
                Some(x) => table::lookup(self@, name@) == Some(*x),
                None => table::lookup(self@, name@) is None,
            },
    {
        self.roles.get(name)
    }

    /// Each role with the alias of its model.
    pub fn role_model_aliases(&self) -> (r: Vec<(String, String)>)
        ensures
            pairs(r@) == role_aliases(self@),
    {
        let mut r: Vec<(String, String)> = Vec::new();
        let n: usize = self.roles.len();
        let mut i: usize = 0;
        while i < n
            invariant
                n == self.roles@.len(),
                i <= n,
                r@.len() == i,
                forall|j: int|
                    0 <= j < i ==> (#[trigger] r@[j]).0@ == self.roles@[j].0 && r@[j].1@
                        == self.roles@[j].1.model.alias@,
            decreases n - i,
        {
            r.push((self.roles.name_at(i).clone(), self.roles.value_at(i).model.alias.clone()));
            i += 1;
        }
        assert(pairs(r@) =~= role_aliases(self@));
        r
    }
}

/// The discovered skills as character sequences, where they are given.
pub open spec fn known(skills: Option<&[String]>) -> Option<Seq<Seq<char>>> {
    match skills {
        Some(s) => Some(text::strs(s@)),
        None => None,
    }
}

/// A role is refused exactly where its name or its prompt is missing, its skill
/// filter is bad, or no declared model has the alias it asks for.
pub proof fn law_role_is_refused_iff_bad(
    name: Seq<char>,
    def: AgentDefinition,
    models: ModelRegistry,
    known: Option<Seq<Seq<char>>>,
)
    ensures
        role_problem(name, def, models, known) is None <==> {
            &&& name.len() > 0
            &&& def.prompt@.len() > 0
            &&& known matches Some(k) ==> config::skill_problem(def.skills, k) is None
            &&& exists|i: int|
                0 <= i < models.models@.len() && (#[trigger] models.models@[i]).alias@ == (
                match def.model {
                    Some(a) => a@,
                    None => models.default_alias@,
                })
        },
        role_problem(name, def, models, known) matches Some(RoleProblem::EmptyName) <==> name.len()
            == 0,
        role_problem(name, def, models, known) matches Some(RoleProblem::EmptyPrompt) <==> name.len()
            > 0 && def.prompt@.len() == 0,
{
    let alias = match def.model {
        Some(a) => a@,
        None => models.default_alias@,
    };
    models::law_alias_is_known_iff_declared(models.models@, alias);
}

/// A role runs on the model whose alias it names, or on the default one; and its
/// prompt, its environment, its skills and its wish for `agents.md` are its own.
pub proof fn law_role_is_what_was_declared(
    members: Seq<(Seq<char>, AgentDefinition)>,
    models: ModelRegistry,
    roles: Seq<(Seq<char>, ResolvedRole)>,
    i: int,
)
    requires
        all_resolved(members, models, roles),
        0 <= i < members.len(),
    ensures
        roles.len() == members.len(),
        roles[i].0 == members[i].0,
        roles[i].1.model.alias@ == (match members[i].1.model {
            Some(a) => a@,
            None => models.default_alias@,
        }),
        models.models@.contains(roles[i].1.model),
        roles[i].1.prompt@ == members[i].1.prompt@,
        roles[i].1.env is Some <==> members[i].1.env is Some,
        roles[i].1.env matches Some(e) ==> e@ == members[i].1.env->0@,
        roles[i].1.skills.enabled == members[i].1.skills.enabled,
        roles[i].1.skills.disabled@ == members[i].1.skills.disabled@,
        roles[i].1.skills.only@ == members[i].1.skills.only@,
        roles[i].1.agents_md == members[i].1.agents_md,
{
    assert(resolves_to(members[i].1, models, roles[i].1));
    models::law_found_by_alias(models.models@, wanted_alias(members[i].1.model, models));
}

/// The first role that is reported is the first with a problem: all before it are
/// fine, and the report names that very role.
pub proof fn law_first_bad_role_is_named(
    e: SubAgentError,
    members: Seq<(Seq<char>, AgentDefinition)>,
    models: ModelRegistry,
    known: Option<Seq<Seq<char>>>,
    i: int,
)
    requires
        first_reported(e, members, models, known, i),
    ensures
        0 <= i < members.len(),
        role_problem(members[i].0, members[i].1, models, known) is Some,
        forall|j: int|
            0 <= j < i ==> role_problem(
                (#[trigger] members[j]).0,
                members[j].1,
                models,
                known,
            ) is None,
        e matches SubAgentError::EmptyPrompt(role) ==> role@ == members[i].0
            && members[i].1.prompt@.len() == 0,
        e is EmptyRoleName ==> members[i].0.len() == 0,
        e matches SubAgentError::UnknownModel { role, alias, .. } ==> role@ == members[i].0
            && alias@ == (match members[i].1.model {
            Some(a) => a@,
            None => models.default_alias@,
        }) && forall|k: int|
            0 <= k < models.models@.len() ==> (#[trigger] models.models@[k]).alias@ != alias@,
        e is BadSkillFilter ==> known is Some && config::skill_problem(
            members[i].1.skills,
            known->0,
        ) is Some,
{
    assert forall|j: int| 0 <= j < i implies role_problem(
        (#[trigger] members[j]).0,
        members[j].1,
        models,
        known,
    ) is None by {
        assert(members.take(i)[j] == members[j]);
    }
    if let SubAgentError::UnknownModel { role, alias, .. } = e {
        models::law_found_by_alias(models.models@, alias@);
        assert forall|k: int| 0 <= k < models.models@.len() implies (
        #[trigger] models.models@[k]).alias@ != alias@ by {
            if models.models@[k].alias@ == alias@ {
                assert(models::aliases(models.models@)[k] == alias@);
            }
        }
    }
}

/// The pairs that views are made of name each role with the alias of its model.
pub proof fn law_role_aliases(roles: Seq<(Seq<char>, ResolvedRole)>, i: int)
    requires
        0 <= i < roles.len(),
    ensures
        role_aliases(roles).len() == roles.len(),
        role_aliases(roles)[i].0 == roles[i].0,
        role_aliases(roles)[i].1 == roles[i].1.model.alias@,
{
}

/// The message for an error names all that the error is about: the role, and for a model
/// the alias that was asked for and those that there are.
pub proof fn law_role_errors_name_their_cause(e: SubAgentError) -> (r: Seq<Seq<char>>)
    ensures
        r.len() == 3,
        e matches SubAgentError::EmptyPrompt(role) ==> e.text() == r[0] + role@ + r[1],
        e matches SubAgentError::UnknownModel { role, alias, available } ==> e.text() == r[0] + role@
            + r[1] + alias@ + r[2] + available@,
        e matches SubAgentError::BadSkillFilter(m) ==> e.text() == m@,
        e.text().len() == 0 ==> e is BadSkillFilter,
{
    reveal_strlit("Role name cannot be empty");
    reveal_strlit("Role '");
    if e is EmptyPrompt {
        seq!["Role '"@, "' has an empty prompt"@, Seq::empty()]
    } else {
        seq!["Role '"@, "' names unknown model alias `"@, "`. Available: "@]
    }
}

/// The skills that are known are all that were found.
pub proof fn law_known_skills(skills: &[String])
    ensures
        known(None) is None,
        known(Some(skills)) is Some,
        known(Some(skills))->0.len() == skills@.len(),
        forall|i: int|
            0 <= i < skills@.len() ==> #[trigger] known(Some(skills))->0[i] == skills@[i]@,
{
}

/// What is reported of a role holds everything that the report is about: the message for a
/// bad filter, and for a model that is not known all the aliases that there are. A filter
/// counts before a model.
pub proof fn law_role_report_is_complete(
    e: SubAgentError,
    members: Seq<(Seq<char>, AgentDefinition)>,
    models: ModelRegistry,
    known: Option<Seq<Seq<char>>>,
    i: int,
)
    requires
        first_reported(e, members, models, known, i),
    ensures
        e matches SubAgentError::UnknownModel { available, .. } ==> available@
            == models::alias_listing(models.models@) && (known matches Some(k)
            ==> config::skill_problem(members[i].1.skills, k) is None),
        e matches SubAgentError::BadSkillFilter(m) ==> m@ == config::skill_message(
            members[i].0,
            config::skill_problem(members[i].1.skills, known->0)->0,
        ),
        e is EmptyRoleName <==> members[i].0.len() == 0,
        e is EmptyPrompt <==> members[i].0.len() > 0 && members[i].1.prompt@.len() == 0,
        e is BadSkillFilter <==> members[i].0.len() > 0 && members[i].1.prompt@.len() > 0 && (
        known matches Some(k) && config::skill_problem(members[i].1.skills, k) is Some),
{
}

/// A copy of a role is alike in everything that an agent is built from.
pub proof fn law_copies_are_alike(a: ResolvedRole, b: ResolvedRole)
    requires
        same_role(a, b),
    ensures
        a.model == b.model,
        a.prompt@ == b.prompt@,
        a.env is Some <==> b.env is Some,
        a.env is Some ==> a.env->0@ == b.env->0@,
        a.skills.enabled == b.skills.enabled,
        a.skills.disabled@ == b.skills.disabled@,
        a.skills.only@ == b.skills.only@,
        a.agents_md == b.agents_md,
{
}

/// Two environments hold the same exactly where both are there with the same entries, or
/// neither is.
pub proof fn law_same_environment(a: Option<TextMap>, b: Option<TextMap>)
    ensures
        same_env(a, b) <==> (a is Some <==> b is Some) && (a is Some ==> a->0@ == b->0@),
{
}

/// Pairs of texts are shown one by one.
pub proof fn law_pairs_are_shown_one_by_one(v: Seq<(String, String)>)
    ensures
        pairs(v).len() == v.len(),
        forall|i: int|
            0 <= i < v.len() ==> #[trigger] pairs(v)[i].0 == v[i].0@ && pairs(v)[i].1 == v[i].1@,
{
}

} // verus!
