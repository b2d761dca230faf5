//! How teams are configured.

use vstd::prelude::*;
use crate::table;
use crate::table::{StringMap, TextMap};
use crate::text;

verus! {

/// Which of the discovered skills a role sees.
#[derive(Debug, PartialEq)]
pub struct SkillFilter {
    pub enabled: bool,
    /// Skills that are hidden.
    pub disabled: Vec<String>,
    /// Where it is not empty, the only skills that are shown.
    pub only: Vec<String>,
}

/// What is wrong with a skill filter.
#[verifier::ext_equal]
pub enum SkillProblem {
    /// Both lists are set.
    BothLists,
    /// This skill was not discovered.
    Unknown(Seq<char>),
}

/// The first name of `listed` that is not one of `known`.
pub open spec fn first_unknown(listed: Seq<Seq<char>>, known: Seq<Seq<char>>) -> Option<Seq<char>>
    decreases listed.len(),
{
    if listed.len() == 0 {
        None
    } else if !known.contains(listed[0]) {
        Some(listed[0])
    } else {
        first_unknown(listed.drop_first(), known)
    }
}

/// What is wrong with a filter, where only the `known` skills exist.
pub open spec fn skill_problem(f: SkillFilter, known: Seq<Seq<char>>) -> Option<SkillProblem> {
    if f.disabled@.len() > 0 && f.only@.len() > 0 {
        Some(SkillProblem::BothLists)
    } else {
        match first_unknown(text::strs(f.disabled@) + text::strs(f.only@), known) {
            Some(name) => Some(SkillProblem::Unknown(name)),
            None => None,
        }
    }
}

/// The message for a bad filter.
pub open spec fn skill_message(role: Seq<char>, p: SkillProblem) -> Seq<char> {
    match p {
        SkillProblem::BothLists => "Role '"@ + role
            + "': set either 'disabled' or 'only' under 'skills:', not both"@,
        SkillProblem::Unknown(name) => "Role '"@ + role + "': unknown skill '"@ + name
            + "' under 'skills:'"@,
    }
}

/// The first of `listed` that is not one of `known`.
fn find_unknown<'a>(listed: &'a Vec<String>, known: &[String]) -> (r: Option<&'a String>)
    ensures
        match r {
            Some(s) => first_unknown(text::strs(listed@), text::strs(known@)) == Some(s@),
            None => first_unknown(text::strs(listed@), text::strs(known@)) is None,
        },
{
    let ghost all = text::strs(listed@);
    let ghost k = text::strs(known@);
    let mut i: usize = 0;
    assert(all.skip(0) =~= all);
    while i < listed.len()
        invariant
            i <= listed@.len(),
            all == text::strs(listed@),
            k == text::strs(known@),
            first_unknown(all, k) == first_unknown(all.skip(i as int), k),
        decreases listed@.len() - i,
    {
        assert(all.skip(i as int)[0] == listed@[i as int]@);
        assert(all.skip(i as int).drop_first() =~= all.skip(i + 1));
        if !text::contains_string(known, listed[i].as_str()) {
            return Some(&listed[i]);
        }
        i += 1;
    }
    None
}

proof fn lemma_first_unknown_concat(a: Seq<Seq<char>>, b: Seq<Seq<char>>, known: Seq<Seq<char>>)
    ensures
        first_unknown(a + b, known) == (if first_unknown(a, known) is Some {
            first_unknown(a, known)
        } else {
            first_unknown(b, known)
        }),
    decreases a.len(),
{
    if a.len() == 0 {
        assert(a + b =~= b);
    } else {
        assert((a + b).drop_first() =~= a.drop_first() + b);
        lemma_first_unknown_concat(a.drop_first(), b, known);
    }
}

impl SkillFilter {
    /// Checks the filter against the discovered skills.
    pub fn validate(&self, role: &str, known: &[String]) -> (r: Result<(), String>)
        ensures
            match r {
                Ok(_) => skill_problem(*self, text::strs(known@)) is None,
                Err(m) => skill_problem(*self, text::strs(known@)) matches Some(p) && m@
                    == skill_message(role@, p),
            },
    {
        if self.disabled.len() > 0 && self.only.len() > 0 {
            let mut m = "Role '".to_owned();
            m.append(role);
            m.append("': set either 'disabled' or 'only' under 'skills:', not both");
            return Err(m);
        }
        proof {
            lemma_first_unknown_concat(
                text::strs(self.disabled@),
                text::strs(self.only@),
                text::strs(known@),
            );
        }
        let found: Option<&String> = match find_unknown(&self.disabled, known) {
            Some(s) => Some(s),
            None => find_unknown(&self.only, known),
        };
        match found {
            Some(name) => {
                let mut m = "Role '".to_owned();
                m.append(role);
                m.append("': unknown skill '");
                m.append(name.as_str());
                m.append("' under 'skills:'");
                Err(m)
            },
            None => Ok(()),
        }
    }

    /// A copy of the filter.
    pub fn copy(&self) -> (r: Self)
        ensures
            r.enabled == self.enabled,
            r.disabled@ == self.disabled@,
            r.only@ == self.only@,
    {
        SkillFilter {
            enabled: self.enabled,
            disabled: text::copy_strings(&self.disabled),
            only: text::copy_strings(&self.only),
        }
    }
}

/// A role that tasks can be delegated to.
#[derive(Debug, PartialEq)]
pub struct AgentDefinition {
    /// The model's alias; the default model where it is missing.
    pub model: Option<String>,
    /// The role's prompt.
    pub prompt: String,
    /// Environment variables for the role's shell.
    pub env: Option<TextMap>,
    /// Which skills the role sees.
    pub skills: SkillFilter,
    /// Whether the role's prompt carries the repository's `agents.md`.
    pub agents_md: bool,
    /// Cap on the tokens of an answer; the provider's own where it is missing.
    pub max_tokens: Option<u64>,
}

/// The roles of a team by name.
pub type Members = StringMap<AgentDefinition>;

/// A single team, with the switch that turns it on.
#[derive(Debug, PartialEq)]
pub struct PipelineConfig {
    pub enabled: bool,
    pub agents: Members,
}

/// What is wrong with a team.
#[derive(Debug, PartialEq)]
pub enum PipelineValidationError {
    EmptyAgentName,
    EmptyPrompt(String),
}

impl PipelineValidationError {
    /// The message for the error.
    pub fn message(&self) -> (r: String)
        ensures
            r@ == match self {
                PipelineValidationError::EmptyAgentName => "Agent name cannot be empty"@,
                PipelineValidationError::EmptyPrompt(name) => "Agent '"@ + name@
                    + "' has an empty prompt"@,
            },
    {
        match self {
            PipelineValidationError::EmptyAgentName => "Agent name cannot be empty".to_owned(),
            PipelineValidationError::EmptyPrompt(name) => {
                let mut m = "Agent '".to_owned();
                m.append(name.as_str());
                m.append("' has an empty prompt");
                m
            },
        }
    }
}

/// Whether a role of a team is well configured: it has a name and a prompt.
pub open spec fn agent_ok(e: (Seq<char>, AgentDefinition)) -> bool {
    e.0.len() > 0 && e.1.prompt@.len() > 0
}

/// Whether `e` reports the role at `i`, the first that is not well configured.
pub open spec fn reported(
    e: PipelineValidationError,
    agents: Seq<(Seq<char>, AgentDefinition)>,
    i: int,
) -> bool {
    &&& 0 <= i < agents.len()
    &&& !agent_ok(agents[i])
    &&& forall|j: int| 0 <= j < i ==> agent_ok(#[trigger] agents[j])
    &&& match e {
        PipelineValidationError::EmptyAgentName => agents[i].0.len() == 0,
        PipelineValidationError::EmptyPrompt(name) => agents[i].0.len() > 0 && name@ == agents[i].0,
    }
}

impl Default for PipelineConfig {
    /// A team without roles, turned off.
    fn default() -> (r: Self)
        ensures
            !r.enabled,
            r.agents@.len() == 0,
    {
        PipelineConfig { enabled: false, agents: StringMap::new() }
    }
}

impl PipelineConfig {
    /// Whether the team has roles.
    pub fn has_agents(&self) -> (r: bool)
        ensures
            r == (self.agents@.len() > 0),
    {
        !self.agents.is_empty()
    }

    /// The names of the roles in the order in which they are declared.
    pub fn agent_names(&self) -> (r: Vec<String>)
        ensures
            text::strs(r@) == table::names(self.agents@),
    {
        self.agents.names()
    }

    /// The role with this name.
    pub fn get_agent(&self, name: &str) -> (r: Option<&AgentDefinition>)
        ensures
            match r {
                Some(d) => table::lookup(self.agents@, name@) == Some(*d),
                None => table::lookup(self.agents@, name@) is None,
            },
    {
        self.agents.get(name)
    }

    /// Checks the team; the first bad role is reported.
    pub fn validate(&self) -> (r: Result<(), PipelineValidationError>)
        ensures
            match r {
                Ok(_) => forall|i: int|
                    0 <= i < self.agents@.len() ==> agent_ok(#[trigger] self.agents@[i]),
                Err(e) => exists|i: int| #[trigger] reported(e, self.agents@, i),
            },
    {
        let mut i: usize = 0;
        while i < self.agents.len()
            invariant
                i <= self.agents@.len(),
                forall|j: int| 0 <= j < i ==> agent_ok(#[trigger] self.agents@[j]),
            decreases self.agents@.len() - i,
        {
            let name = self.agents.name_at(i);
            if name.as_str().is_empty() {
                assert(reported(
                    PipelineValidationError::EmptyAgentName,
                    self.agents@,
                    i as int,
                ));
                return Err(PipelineValidationError::EmptyAgentName);
            }
            if self.agents.value_at(i).prompt.as_str().is_empty() {
                let e = PipelineValidationError::EmptyPrompt(name.clone());
                assert(reported(e, self.agents@, i as int));
                return Err(e);
            }
            i += 1;
        }
        Ok(())
    }
}

/// How the orchestrator of a team is configured.
#[derive(Debug, PartialEq)]
pub struct OrchestratorDefinition {
    /// The model's alias; the default model where it is missing.
    pub model: Option<String>,
    /// Extra instructions for the orchestrator.
    pub prompt: Option<String>,
    /// A persona that replaces the global one.
    pub persona: Option<String>,
}

/// A named team.
#[derive(Debug, PartialEq)]
pub struct PipelineDefinition {
    pub name: String,
    pub orchestrator: OrchestratorDefinition,
    pub agents: Members,
}

/// What the configuration says of teams.
#[derive(Debug, PartialEq)]
pub struct Config {
    /// The old form, a single anonymous team.
    pub pipeline: Option<PipelineConfig>,
    /// The named teams.
    pub pipelines: Vec<PipelineDefinition>,
}

/// A skill filter is refused exactly where it sets both lists or names a skill that
/// was not discovered.
pub proof fn law_filter_is_refused_iff_bad(f: SkillFilter, known: Seq<Seq<char>>)
    ensures
        skill_problem(f, known) is None <==> {
            &&& f.disabled@.len() == 0 || f.only@.len() == 0
            &&& forall|i: int| 0 <= i < f.disabled@.len() ==> known.contains((#[trigger] f.disabled@[i])@)
            &&& forall|i: int| 0 <= i < f.only@.len() ==> known.contains((#[trigger] f.only@[i])@)
        },
        skill_problem(f, known) matches Some(SkillProblem::Unknown(name)) ==> !known.contains(name)
            && ((exists|i: int| 0 <= i < f.disabled@.len() && (#[trigger] f.disabled@[i])@ == name)
            || (exists|i: int| 0 <= i < f.only@.len() && (#[trigger] f.only@[i])@ == name)),
        skill_problem(f, known) matches Some(SkillProblem::BothLists) ==> f.disabled@.len() > 0
            && f.only@.len() > 0,
{
    let a = text::strs(f.disabled@);
    let b = text::strs(f.only@);
    let all = a + b;
    lemma_first_unknown(all, known);
    assert forall|i: int| 0 <= i < f.disabled@.len() implies all[i] == (#[trigger] f.disabled@[i])@ by {}
    assert forall|i: int| 0 <= i < f.only@.len() implies all[a.len() + i] == (
    #[trigger] f.only@[i])@ by {}
    if let Some(name) = first_unknown(all, known) {
        let k = choose|k: int| 0 <= k < all.len() && all[k] == name;
        if k < a.len() {
            assert(f.disabled@[k]@ == name);
        } else {
            assert(f.only@[k - a.len()]@ == name);
        }
    } else {
        assert forall|i: int| 0 <= i < f.disabled@.len() implies known.contains(
            (#[trigger] f.disabled@[i])@,
        ) by {
            assert(known.contains(all[i]));
        }
        assert forall|i: int| 0 <= i < f.only@.len() implies known.contains(
            (#[trigger] f.only@[i])@,
        ) by {
            assert(known.contains(all[a.len() + i]));
        }
    }
}

proof fn lemma_first_unknown(listed: Seq<Seq<char>>, known: Seq<Seq<char>>)
    ensures
        match first_unknown(listed, known) {
            Some(name) => !known.contains(name) && listed.contains(name),
            None => forall|i: int| 0 <= i < listed.len() ==> known.contains(#[trigger] listed[i]),
        },
    decreases listed.len(),
{
    if listed.len() > 0 {
        let d = listed.drop_first();
        lemma_first_unknown(d, known);
        if !known.contains(listed[0]) {
            assert(listed.contains(listed[0]));
        } else {
            match first_unknown(d, known) {
                Some(name) => {
                    let k = choose|k: int| 0 <= k < d.len() && d[k] == name;
                    assert(listed[k + 1] == name);
                },
                None => {
                    assert forall|i: int| 0 <= i < listed.len() implies known.contains(
                        #[trigger] listed[i],
                    ) by {
                        if i > 0 {
                            assert(d[i - 1] == listed[i]);
                        }
                    }
                },
            }
        }
    }
}

/// The first role that is reported is the first without a name or a prompt: every
/// role before it has both.
pub proof fn law_first_bad_role_is_reported(
    e: PipelineValidationError,
    agents: Seq<(Seq<char>, AgentDefinition)>,
    i: int,
)
    requires
        reported(e, agents, i),
    ensures
        0 <= i < agents.len(),
        agents[i].0.len() == 0 || agents[i].1.prompt@.len() == 0,
        forall|j: int|
            0 <= j < i ==> (#[trigger] agents[j]).0.len() > 0 && agents[j].1.prompt@.len() > 0,
        e is EmptyAgentName <==> agents[i].0.len() == 0,
        e matches PipelineValidationError::EmptyPrompt(name) ==> name@ == agents[i].0,
{
}

/// The message for a bad filter names the role, and an unknown skill where that is what is
/// wrong.
pub proof fn law_filter_errors_name_their_cause(role: Seq<char>, p: SkillProblem) -> (r: Seq<
    Seq<char>,
>)
    ensures
        r.len() == 3,
        p is BothLists ==> skill_message(role, p) == r[0] + role + r[1],
        p matches SkillProblem::Unknown(name) ==> skill_message(role, p) == r[0] + role + r[1] + name
            + r[2],
        r[0] == "Role '"@,
{
    if p is BothLists {
        seq![
            "Role '"@,
            "': set either 'disabled' or 'only' under 'skills:', not both"@,
            Seq::empty(),
        ]
    } else {
        seq!["Role '"@, "': unknown skill '"@, "' under 'skills:'"@]
    }
}

/// The unknown skill that is reported is the first: all that are listed before it are known,
/// those that are turned off before those that are picked.
pub proof fn law_first_unknown_skill_is_reported(f: SkillFilter, known: Seq<Seq<char>>) -> (k: int)
    requires
        skill_problem(f, known) is Some,
        skill_problem(f, known)->0 is Unknown,
    ensures
        ({
            let n = f.disabled@.len() as int;
            let name = skill_problem(f, known)->0->Unknown_0;
            &&& 0 <= k < n + f.only@.len()
            &&& k < n ==> f.disabled@[k]@ == name
            &&& k >= n ==> f.only@[k - n]@ == name
            &&& forall|j: int| 0 <= j < n && j < k ==> known.contains((#[trigger] f.disabled@[j])@)
            &&& forall|j: int|
                0 <= j < f.only@.len() && n + j < k ==> known.contains((#[trigger] f.only@[j])@)
        }),
{
    let a = text::strs(f.disabled@);
    let b = text::strs(f.only@);
    let all = a + b;
    let k = lemma_first_unknown_at(all, known);
    assert forall|j: int| 0 <= j < a.len() && j < k implies known.contains(
        (#[trigger] f.disabled@[j])@,
    ) by {
        assert(known.contains(all[j]));
    }
    assert forall|j: int| 0 <= j < b.len() && a.len() + j < k implies known.contains(
        (#[trigger] f.only@[j])@,
    ) by {
        assert(known.contains(all[a.len() + j]));
    }
    if k >= a.len() {
        assert(all[k] == b[k - a.len()]);
    }
    k
}

proof fn lemma_first_unknown_at(listed: Seq<Seq<char>>, known: Seq<Seq<char>>) -> (k: int)
    requires
        first_unknown(listed, known) is Some,
    ensures
        0 <= k < listed.len(),
        listed[k] == first_unknown(listed, known)->0,
        forall|j: int| 0 <= j < k ==> known.contains(#[trigger] listed[j]),
    decreases listed.len(),
{
    if !known.contains(listed[0]) {
        0
    } else {
        let d = listed.drop_first();
        let k = lemma_first_unknown_at(d, known);
        assert forall|j: int| 0 <= j < k + 1 implies known.contains(#[trigger] listed[j]) by {
            if j > 0 {
                assert(d[j - 1] == listed[j]);
            }
        }
        k + 1
    }
}

} // verus!
