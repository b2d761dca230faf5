//! Rebuilding the agent: switching models, binding a team, changing the
//! directory, and what loading or beginning a conversation calls for.
//!
//! Each command is decided in steps. The first checks it and plans the agent; the
//! program then builds the agent; the last step says what follows, be it built or
//! not.

use vstd::prelude::*;
use crate::effect;
use crate::effect::{Effect, EffectView, Effects};
use crate::models;
use crate::models::{ModelRegistry, ResolvedModel};
use crate::pipeline;
use crate::pipeline::set::{PipelineSet, ResolvedPipeline};
use crate::prompt;
use crate::prompt::{Environment, PromptTexts, ShellKind};
use crate::reload;
use crate::reload::{FreshConfig, RebuildContext, Reloaded};
use crate::selection;
use crate::selection::PipelineChoice;
use crate::text;

verus! {

/// What the commands read of a session.
#[derive(Debug, PartialEq)]
pub struct Session {
    /// The team that the conversation is bound to.
    pub selected: Option<String>,
    /// Whether the conversation has turns.
    pub has_turns: bool,
    /// The active model.
    pub alias: String,
    pub provider_name: String,
    pub model: String,
    /// The session's working directory.
    pub cwd: String,
}

/// What the program builds an agent from.
#[derive(Debug, PartialEq)]
pub struct RebuildPlan {
    /// The model that the command asked for.
    pub requested: ResolvedModel,
    /// The model that the agent runs on: the selected team's, where one is.
    pub resolved: ResolvedModel,
    /// The selected team, whose roles can be delegated to.
    pub team: Option<String>,
    /// The team's own instructions.
    pub orchestrator_prompt: Option<String>,
    /// Who the agent is told to be.
    pub persona: Option<String>,
    /// Whether the agent is told of the memory.
    pub memory_enabled: bool,
}

/// The team that a selection stands for: none where it is gone.
pub open spec fn active_team(
    teams: Seq<ResolvedPipeline>,
    selected: Option<Seq<char>>,
) -> Option<ResolvedPipeline> {
    match selected {
        Some(name) => pipeline::set::find_team(teams, name),
        None => None,
    }
}

/// Whether `p` is the plan for a requested model under a selection. The team owns
/// its orchestrator's model, and its persona replaces the configured one.
pub open spec fn planned(
    ctx: RebuildContext,
    selected: Option<Seq<char>>,
    requested: ResolvedModel,
    p: RebuildPlan,
) -> bool {
    &&& p.requested == requested
    &&& p.memory_enabled == ctx.memory_enabled
    &&& match active_team(ctx.pipelines@, selected) {
        Some(team) => {
            &&& p.resolved == team.orchestrator
            &&& text::opt(p.team) == Some(team.name@)
            &&& text::opt(p.orchestrator_prompt) == text::opt(team.orchestrator_prompt)
            &&& text::opt(p.persona) == (if team.orchestrator_persona is Some {
                text::opt(team.orchestrator_persona)
            } else {
                text::opt(ctx.persona)
            })
        },
        None => {
            &&& p.resolved == requested
            &&& p.team is None
            &&& p.orchestrator_prompt is None
            &&& text::opt(p.persona) == text::opt(ctx.persona)
        },
    }
}

/// Plans the agent for a requested model under a selection.
pub fn plan_rebuild(ctx: &RebuildContext, selected: Option<&str>, requested: &ResolvedModel) -> (p:
    RebuildPlan)
    ensures
        planned(*ctx, text::opt_str(selected), *requested, p),
{
    let active: Option<&ResolvedPipeline> = match selected {
        Some(name) => {
            proof {
                pipeline::set::law_found_team(ctx.pipelines@, name@);
            }
            ctx.pipelines.get(name)
        },
        None => None,
    };
    match active {
        Some(team) => RebuildPlan {
            requested: requested.copy(),
            resolved: team.orchestrator.copy(),
            team: Some(team.name.clone()),
            orchestrator_prompt: text::copy_option(&team.orchestrator_prompt),
            persona: if team.orchestrator_persona.is_some() {
                text::copy_option(&team.orchestrator_persona)
            } else {
                text::copy_option(&ctx.persona)
            },
            memory_enabled: ctx.memory_enabled,
        },
        None => RebuildPlan {
            requested: requested.copy(),
            resolved: requested.copy(),
            team: None,
            orchestrator_prompt: None,
            persona: text::copy_option(&ctx.persona),
            memory_enabled: ctx.memory_enabled,
        },
    }
}

/// While a team is selected every command's agent runs on that team's model,
/// whatever was asked for; without one it runs on what was asked for.
pub proof fn law_team_owns_its_model(
    ctx: RebuildContext,
    selected: Option<Seq<char>>,
    requested: ResolvedModel,
    p: RebuildPlan,
)
    requires
        planned(ctx, selected, requested, p),
    ensures
        active_team(ctx.pipelines@, selected) matches Some(team) ==> p.resolved
            == team.orchestrator,
        selected is None ==> p.resolved == requested && p.team is None,
        p.team is Some <==> active_team(ctx.pipelines@, selected) is Some,
{
}

/// What a prompt is made of beside the plan, as read when the agent is built.
#[derive(Debug, PartialEq)]
pub struct PromptSources<'a> {
    pub texts: &'a PromptTexts,
    /// The section that lists the skills.
    pub skills: &'a str,
    pub shell_kind: Option<&'a ShellKind>,
    pub env: &'a Environment,
    /// The content of the repository's `agents.md`.
    pub agents_md: Option<&'a str>,
}

/// The prompt under these conditions.
pub open spec fn prompt_of(
    s: PromptSources<'_>,
    memory_enabled: bool,
    team: bool,
    orchestrator_prompt: Option<Seq<char>>,
    persona: Option<Seq<char>>,
) -> Seq<char> {
    prompt::system_prompt(
        *s.texts,
        s.skills@,
        prompt::shell_of(s.shell_kind),
        *s.env,
        text::opt_str(s.agents_md),
        memory_enabled,
        team,
        orchestrator_prompt,
        persona,
    )
}

/// The prompt of a plan.
pub open spec fn planned_prompt(plan: RebuildPlan, s: PromptSources<'_>) -> Seq<char> {
    prompt_of(
        s,
        plan.memory_enabled,
        plan.team is Some,
        text::opt(plan.orchestrator_prompt),
        text::opt(plan.persona),
    )
}

/// Builds the prompt of a planned agent. It is built anew with every agent.
pub fn plan_prompt(plan: &RebuildPlan, s: &PromptSources<'_>) -> (r: String)
    ensures
        r@ == planned_prompt(*plan, *s),
{
    prompt::build_system_prompt(
        s.texts,
        s.skills,
        s.shell_kind,
        s.env,
        s.agents_md,
        plan.memory_enabled,
        plan.team.is_some(),
        text::as_str_option(&plan.orchestrator_prompt),
        text::as_str_option(&plan.persona),
    )
}

/// The prompt tracks the selection and what was configured last: it is framed for
/// an orchestrator exactly where a team is selected, carries that team's own
/// instructions, and opens with the team's persona where it has one.
pub proof fn law_prompt_tracks_the_selection(
    ctx: RebuildContext,
    selected: Option<Seq<char>>,
    requested: ResolvedModel,
    p: RebuildPlan,
    s: PromptSources<'_>,
)
    requires
        planned(ctx, selected, requested, p),
    ensures
        planned_prompt(p, s) == (match active_team(ctx.pipelines@, selected) {
            Some(team) => prompt_of(
                s,
                ctx.memory_enabled,
                true,
                text::opt(team.orchestrator_prompt),
                if team.orchestrator_persona is Some {
                    text::opt(team.orchestrator_persona)
                } else {
                    text::opt(ctx.persona)
                },
            ),
            None => prompt_of(s, ctx.memory_enabled, false, None, text::opt(ctx.persona)),
        }),
{
}

// ---------------------------------------------------------------------------
// Building
// ---------------------------------------------------------------------------

/// The error where compaction is on and its model cannot be had.
pub open spec fn compaction_error(alias: Seq<char>, reason: Seq<char>) -> Seq<char> {
    "compaction model unavailable for `"@ + alias + "`: "@ + reason
        + " — set context.enabled=false to switch without compaction"@
}

/// Decides over the compaction model, before anything changes. With compaction on
/// it has to be there; with compaction off the agent does without. The result says
/// whether there is one.
pub fn check_compaction(enabled: bool, alias: &str, model: Result<(), String>) -> (r: Result<
    bool,
    String,
>)
    ensures
        match model {
            Ok(_) => r == Ok::<bool, String>(true),
            Err(reason) => if enabled {
                r matches Err(m) && m@ == compaction_error(alias@, reason@)
            } else {
                r == Ok::<bool, String>(false)
            },
        },
{
    match model {
        Ok(_) => Ok(true),
        Err(reason) => if enabled {
            let mut m = "compaction model unavailable for `".to_owned();
            m.append(alias);
            m.append("`: ");
            m.append(reason.as_str());
            m.append(" — set context.enabled=false to switch without compaction");
            Err(m)
        } else {
            Ok(false)
        },
    }
}

/// The error where compaction is on and its model cannot be had at start.
pub open spec fn boot_error() -> Seq<char> {
    "Failed to construct compaction model for the active provider. The active provider config is what's read for compaction (same credentials as the main model). To boot without compaction, set `context.enabled: false` in config.yaml."@
}

/// Decides over the compaction model at start, in the same way, and sizes the
/// context manager.
pub fn boot(enabled: bool, has_model: bool, attached: bool, context_size: usize) -> (r: Result<
    Effects,
    String,
>)
    ensures
        match r {
            Ok(out) => (has_model || !enabled) && out@ == context_effects(
                attached,
                context_size,
                has_model,
            ),
            Err(m) => enabled && !has_model && m@ == boot_error(),
        },
{
    if enabled && !has_model {
        return Err(
            "Failed to construct compaction model for the active provider. The active provider config is what's read for compaction (same credentials as the main model). To boot without compaction, set `context.enabled: false` in config.yaml.".to_owned(),
        );
    }
    let mut out = Effects::new();
    add_context(&mut out, attached, context_size, has_model);
    assert(out@ =~= context_effects(attached, context_size, has_model));
    Ok(out)
}

/// The context manager and the title model set up, where there is a session.
pub open spec fn context_effects(attached: bool, context_size: usize, has_model: bool) -> Seq<
    EffectView,
> {
    if !attached {
        Seq::empty()
    } else if has_model {
        seq![Effect::InitContextManager { context_size }, Effect::InitTitleModel]
    } else {
        seq![Effect::InitContextManager { context_size }]
    }
}

fn add_context(out: &mut Effects, attached: bool, context_size: usize, has_model: bool)
    ensures
        final(out)@ == old(out)@ + context_effects(attached, context_size, has_model),
{
    if attached {
        out.push(Effect::InitContextManager { context_size });
        if has_model {
            out.push(Effect::InitTitleModel);
        }
    }
    assert(out@ =~= old(out)@ + context_effects(attached, context_size, has_model));
}

/// What is known of an agent that was built.
#[derive(Debug, PartialEq)]
pub struct Built {
    /// The kind of its provider.
    pub provider: String,
    /// How many tokens an answer may have.
    pub max_tokens: usize,
    pub preserve_reasoning: bool,
    pub display_reasoning: bool,
    /// Whether it reports events.
    pub has_events: bool,
}

/// The error where the agent cannot be built.
pub open spec fn build_error(alias: Seq<char>, reason: Seq<char>) -> Seq<char> {
    "failed to build agent for `"@ + alias + "`: "@ + reason
}

/// What puts a new agent in place.
pub open spec fn publish_effects(plan: RebuildPlan, b: Built, has_compaction: bool) -> Seq<
    EffectView,
> {
    let m = plan.resolved;
    let head: Seq<EffectView> = seq![
        Effect::SetWireReasoning(b.provider@ == "anthropic"@ && b.preserve_reasoning),
        Effect::SetDisplayReasoning(b.display_reasoning),
        Effect::PublishAgent,
        Effect::UpdateWelcomeModel {
            provider_name: m.provider_name@,
            model: m.model_name@,
            max_tokens: b.max_tokens,
        },
    ];
    let tail: Seq<EffectView> = if b.has_events {
        seq![Effect::StopEventProcessor, Effect::RestartEventProcessor]
    } else {
        seq![Effect::StopEventProcessor]
    };
    head + context_effects(true, m.context_size, has_compaction) + tail
}

/// Decides what follows the building of an agent. Reasoning goes back over the wire
/// for one provider alone. An agent that was not built leaves the previous one in
/// place.
pub fn finish_rebuild(plan: &RebuildPlan, has_compaction: bool, agent: Result<Built, String>) -> (r:
    Result<Effects, String>)
    ensures
        match agent {
            Ok(b) => r matches Ok(out) && out@ == publish_effects(*plan, b, has_compaction),
            Err(reason) => r matches Err(m) && m@ == build_error(plan.resolved.alias@, reason@),
        },
{
    let b = match agent {
        Ok(b) => b,
        Err(reason) => {
            let mut m = "failed to build agent for `".to_owned();
            m.append(plan.resolved.alias.as_str());
            m.append("`: ");
            m.append(reason.as_str());
            return Err(m);
        },
    };
    let mut out = Effects::new();
    let replays = text::same(b.provider.as_str(), "anthropic") && b.preserve_reasoning;
    out.push(Effect::SetWireReasoning(replays));
    out.push(Effect::SetDisplayReasoning(b.display_reasoning));
    out.push(Effect::PublishAgent);
    out.push(
        Effect::UpdateWelcomeModel {
            provider_name: plan.resolved.provider_name.clone(),
            model: plan.resolved.model_name.clone(),
            max_tokens: b.max_tokens,
        },
    );
    add_context(&mut out, true, plan.resolved.context_size, has_compaction);
    out.push(Effect::StopEventProcessor);
    if b.has_events {
        out.push(Effect::RestartEventProcessor);
    }
    assert(out@ =~= publish_effects(*plan, b, has_compaction));
    Ok(out)
}

/// Reasoning of another provider's model never goes back over the wire.
pub proof fn law_only_one_provider_replays_reasoning(
    plan: RebuildPlan,
    b: Built,
    has_compaction: bool,
)
    requires
        b.provider@ != "anthropic"@,
    ensures
        publish_effects(plan, b, has_compaction)[0] == (Effect::<
            Seq<char>,
            Seq<crate::message::Media>,
        >::SetWireReasoning(false)),
{
}

// ---------------------------------------------------------------------------
// Steps that several commands share
// ---------------------------------------------------------------------------

/// The active model in the registry: by its alias, else by its wire identity.
pub open spec fn current_model(registry: ModelRegistry, s: Session) -> Option<ResolvedModel> {
    match models::find_alias(registry.models@, s.alias@) {
        Some(m) => Some(m),
        None => models::find_wire(registry.models@, s.provider_name@, s.model@),
    }
}

fn find_current<'a>(registry: &'a ModelRegistry, s: &Session) -> (r: Option<&'a ResolvedModel>)
    ensures
        match r {
            Some(m) => current_model(*registry, *s) == Some(*m),
            None => current_model(*registry, *s) is None,
        },
{
    match registry.resolve(s.alias.as_str()) {
        Some(m) => Some(m),
        None => registry.find_by_wire_id(s.provider_name.as_str(), s.model.as_str()),
    }
}

/// The display state set to a model.
pub open spec fn stamp(m: ResolvedModel) -> Seq<EffectView> {
    seq![
        Effect::SetModel(m.model_name@),
        Effect::SetProviderName(m.provider_name@),
        Effect::SetModelAlias(m.alias@),
    ]
}

fn add_stamp(out: &mut Effects, m: &ResolvedModel)
    ensures
        final(out)@ == old(out)@ + stamp(*m),
{
    out.push(Effect::SetModel(m.model_name.clone()));
    out.push(Effect::SetProviderName(m.provider_name.clone()));
    out.push(Effect::SetModelAlias(m.alias.clone()));
    assert(out@ =~= old(out)@ + stamp(*m));
}

/// A conversation begun on a model in a directory, with its banner.
pub open spec fn fresh_conversation(m: ResolvedModel, cwd: Seq<char>, banner: Seq<char>) -> Seq<
    EffectView,
> {
    seq![
        Effect::ResetConversation,
        Effect::CreateConversation {
            provider_name: m.provider_name@,
            model: m.model_name@,
            cwd,
        },
    ] + stamp(m) + seq![Effect::SystemMessage(banner)]
}

fn begin_conversation(m: &ResolvedModel, cwd: &str, banner: String) -> (r: Effects)
    ensures
        r@ == fresh_conversation(*m, cwd@, banner@),
{
    let mut out = Effects::new();
    out.push(Effect::ResetConversation);
    out.push(
        Effect::CreateConversation {
            provider_name: m.provider_name.clone(),
            model: m.model_name.clone(),
            cwd: cwd.to_owned(),
        },
    );
    add_stamp(&mut out, m);
    out.say(banner);
    assert(out@ =~= fresh_conversation(*m, cwd@, banner@));
    out
}

/// The warning for a selection that the teams no longer hold.
pub open spec fn dropped(teams: Seq<ResolvedPipeline>, selected: Option<Seq<char>>) -> Option<
    Seq<char>,
> {
    match selected {
        Some(name) if pipeline::set::find_team(teams, name) is None => Some(
            selection::dropped_warning(name),
        ),
        _ => None,
    }
}

/// What a reload said, shown, and a selection without its team cleared.
pub open spec fn surfaced(
    teams: Seq<ResolvedPipeline>,
    selected: Option<Seq<char>>,
    warnings: Seq<Seq<char>>,
) -> Seq<EffectView> {
    match dropped(teams, selected) {
        Some(w) => seq![Effect::BindPipeline(None)] + effect::say_all(warnings.push(w)),
        None => effect::say_all(warnings),
    }
}

/// Shows what a reload said, once the conversation that is to show it has begun,
/// and clears a selection whose team is gone.
pub fn surface(selected: Option<String>, pipelines: &PipelineSet, warnings: Vec<String>) -> (r:
    Effects)
    ensures
        r@ == surfaced(pipelines@, text::opt(selected), text::strs(warnings@)),
{
    let mut out = Effects::new();
    let ghost said = text::strs(warnings@);
    let ghost chosen = text::opt(selected);
    let mut kept = selected;
    let mut all = warnings;
    if let Some(w) = selection::reconcile_pipeline_selection(&mut kept, pipelines) {
        out.push(Effect::BindPipeline(None));
        all.push(w);
        assert(text::strs(all@) =~= said.push(w@));
    }
    effect::say_each(&mut out, &all);
    assert(out@ =~= surfaced(pipelines@, chosen, said));
    out
}

/// What the first step of a command came to.
#[derive(Debug, PartialEq)]
pub struct Begun {
    /// What a reload came to, where the command got that far.
    pub reloaded: Option<Reloaded>,
    /// What is to be done before the agent is built, and its plan; or the error.
    pub outcome: Result<(Effects, RebuildPlan), String>,
}

// ---------------------------------------------------------------------------
// Switching models
// ---------------------------------------------------------------------------

/// The error for an alias that no model has.
pub open spec fn unknown_alias(alias: Seq<char>, registry: ModelRegistry) -> Seq<char> {
    "unknown alias `"@ + alias + "`. Available: "@ + models::alias_listing(registry.models@)
}

/// Why a model cannot be switched at all.
pub open spec fn switch_refused(has_context: bool, attached: bool) -> Option<Seq<char>> {
    if !has_context {
        Some(
            "model registry not configured (legacy single-provider boot — restart with a `providers:` block to enable model switching)"@,
        )
    } else if !attached {
        Some("state manager required for /model"@)
    } else {
        None
    }
}

/// Whether a model can be switched at all: not without models to switch to, and not
/// without a session.
pub fn refuse_switch(has_context: bool, attached: bool) -> (r: Option<String>)
    ensures
        text::opt(r) == switch_refused(has_context, attached),
{
    if !has_context {
        Some(
            "model registry not configured (legacy single-provider boot — restart with a `providers:` block to enable model switching)".to_owned(),
        )
    } else if !attached {
        Some("state manager required for /model".to_owned())
    } else {
        None
    }
}

/// Whether `b` is what a switch begins with. A selected team owns the model, so
/// there is nothing to switch.
pub open spec fn switch_begun(
    before: RebuildContext,
    session: Session,
    alias: Seq<char>,
    read: Result<FreshConfig, String>,
    after: RebuildContext,
    b: Begun,
) -> bool {
    match session.selected {
        Some(team) => {
            &&& after == before
            &&& b.reloaded is None
            &&& b.outcome matches Err(e) && e@ == selection::locked_text(team@)
        },
        None => {
            &&& b.reloaded matches Some(r) && reload::reloaded(before, read, after, r)
            &&& match models::find_alias(after.registry.models@, alias) {
                Some(m) => b.outcome matches Ok((out, plan)) && out@.len() == 0 && planned(
                    after,
                    None,
                    m,
                    plan,
                ),
                None => b.outcome matches Err(e) && e@ == unknown_alias(alias, after.registry),
            }
        },
    }
}

/// Begins a switch to another model. It is refused while a team is selected; else
/// the configuration is read anew first, so that a model that was just added can be
/// switched to.
pub fn begin_switch_model(
    ctx: &mut RebuildContext,
    session: &Session,
    alias: &str,
    read: Result<FreshConfig, String>,
) -> (b: Begun)
    ensures
        switch_begun(*old(ctx), *session, alias@, read, *final(ctx), b),
{
    if let Some(team) = &session.selected {
        return Begun {
            reloaded: None,
            outcome: Err(selection::model_locked_message(team.as_str())),
        };
    }
    let r = reload::reload_session_config(ctx, read);
    let outcome: Result<(Effects, RebuildPlan), String> = match ctx.registry.resolve(alias) {
        Some(m) => Ok((Effects::new(), plan_rebuild(ctx, None, m))),
        None => {
            let mut e = "unknown alias `".to_owned();
            e.append(alias);
            e.append("`. Available: ");
            e.append(text::join_text(&ctx.registry.aliases_sorted(), ", ").as_str());
            Err(e)
        },
    };
    Begun { reloaded: Some(r), outcome }
}

/// What the user is told of a switch.
pub open spec fn switched_banner(m: ResolvedModel) -> Seq<char> {
    "🔁 New conversation on "@ + m.alias@ + " ("@ + m.provider_name@ + " · "@ + m.model_name@
        + ")"@
}

/// Ends a switch, once the agent is in place: a conversation begins on the model.
pub fn finish_switch_model(requested: &ResolvedModel, cwd: &str) -> (r: Effects)
    ensures
        r@ == fresh_conversation(*requested, cwd@, switched_banner(*requested)),
{
    let mut banner = "🔁 New conversation on ".to_owned();
    banner.append(requested.alias.as_str());
    banner.append(" (");
    banner.append(requested.provider_name.as_str());
    banner.append(" · ");
    banner.append(requested.model_name.as_str());
    banner.append(")");
    begin_conversation(requested, cwd, banner)
}

/// A model is never switched while a team is selected: nothing is reloaded, planned
/// or changed.
pub proof fn law_selected_team_locks_the_model(
    before: RebuildContext,
    session: Session,
    alias: Seq<char>,
    read: Result<FreshConfig, String>,
    after: RebuildContext,
    b: Begun,
)
    requires
        switch_begun(before, session, alias, read, after, b),
        session.selected is Some,
    ensures
        after == before,
        b.outcome is Err,
        b.reloaded is None,
{
}

// ---------------------------------------------------------------------------
// Binding a team
// ---------------------------------------------------------------------------

/// What a request to bind a team begins with.
#[derive(Debug, PartialEq)]
pub enum SelectBegun {
    /// It is bound like that already.
    Unchanged,
    Refused(String),
    /// The binding is recorded and the agent rebuilt.
    Rebuild { target: Option<String>, previous: Option<String>, plan: RebuildPlan },
}

/// The model to run on under a binding: the team's, else the default one.
pub open spec fn bound_model(ctx: RebuildContext, target: Option<Seq<char>>) -> Option<
    ResolvedModel,
> {
    match target {
        Some(name) => match pipeline::set::find_team(ctx.pipelines@, name) {
            Some(team) => Some(team.orchestrator),
            None => None,
        },
        None => models::find_alias(ctx.registry.models@, ctx.registry.default_alias@),
    }
}

/// Whether `b` is what a request to bind begins with, where the request is decided
/// as `c`.
pub open spec fn select_begun(
    ctx: RebuildContext,
    session: Session,
    c: PipelineChoice,
    b: SelectBegun,
) -> bool {
    match c {
        PipelineChoice::Unchanged => b is Unchanged,
        PipelineChoice::Refused(m) => b matches SelectBegun::Refused(e) && e@ == m@,
        PipelineChoice::Apply(t) => match bound_model(ctx, text::opt(t)) {
            Some(m) => b matches SelectBegun::Rebuild { target, previous, plan } && text::opt(
                target,
            ) == text::opt(t) && text::opt(previous) == text::opt(session.selected) && planned(
                ctx,
                text::opt(t),
                m,
                plan,
            ),
            None => b matches SelectBegun::Refused(e) && e@ == (match text::opt(t) {
                Some(name) => "unknown pipeline '"@ + name + "'"@,
                None => "no default model configured"@,
            }),
        },
    }
}

/// Why no team can be bound at all.
pub open spec fn select_refused(has_context: bool, attached: bool) -> Option<Seq<char>> {
    if !has_context {
        Some("model registry not configured — restart with a `providers:` block"@)
    } else if !attached {
        Some("state manager required"@)
    } else {
        None
    }
}

/// Whether a team can be bound at all.
pub fn refuse_select(has_context: bool, attached: bool) -> (r: Option<String>)
    ensures
        text::opt(r) == select_refused(has_context, attached),
{
    if !has_context {
        Some("model registry not configured — restart with a `providers:` block".to_owned())
    } else if !attached {
        Some("state manager required".to_owned())
    } else {
        None
    }
}

/// Begins to bind the conversation to a team, or to none.
pub fn begin_select_pipeline(ctx: &RebuildContext, session: &Session, name: Option<&str>) -> (b:
    SelectBegun)
    ensures
        exists|c: PipelineChoice| #[trigger]
            selection::chosen(
                text::opt(session.selected),
                session.has_turns,
                text::opt_str(name),
                pipeline::set::team_names(ctx.pipelines@),
                c,
            ) && select_begun(*ctx, *session, c, b),
{
    let available = ctx.pipelines.names();
    let choice = selection::resolve_pipeline_choice(
        text::as_str_option(&session.selected),
        session.has_turns,
        name,
        &available,
    );
    let ghost c0 = choice;
    assert(selection::chosen(
        text::opt(session.selected),
        session.has_turns,
        text::opt_str(name),
        pipeline::set::team_names(ctx.pipelines@),
        c0,
    ));
    match choice {
        PipelineChoice::Unchanged => SelectBegun::Unchanged,
        PipelineChoice::Refused(m) => SelectBegun::Refused(m),
        PipelineChoice::Apply(target) => {
            let requested: ResolvedModel = match &target {
                Some(n) => match ctx.pipelines.get(n.as_str()) {
                    Some(team) => team.orchestrator.copy(),
                    None => {
                        let mut e = "unknown pipeline '".to_owned();
                        e.append(n.as_str());
                        e.append("'");
                        return SelectBegun::Refused(e);
                    },
                },
                None => match ctx.registry.resolve(ctx.registry.default_alias()) {
                    Some(m) => m.copy(),
                    None => {
                        return SelectBegun::Refused("no default model configured".to_owned());
                    },
                },
            };
            let plan = plan_rebuild(ctx, text::as_str_option(&target), &requested);
            SelectBegun::Rebuild {
                target,
                previous: text::copy_option(&session.selected),
                plan,
            }
        },
    }
}

/// What the user is told of a binding.
pub open spec fn bound_text(target: Option<Seq<char>>, alias: Seq<char>) -> Seq<char> {
    match target {
        Some(name) => "🧩 Pipeline '"@ + name + "' selected — orchestrator on "@ + alias
            + ". Your messages always go to the orchestrator, which decides what to delegate."@,
        None => "🧩 Pipeline cleared — single agent on "@ + alias + "."@,
    }
}

/// What follows a binding: where the agent was not built, the binding goes back to
/// what it was.
pub open spec fn select_finished(
    target: Option<Seq<char>>,
    previous: Option<Seq<char>>,
    requested: ResolvedModel,
    built: bool,
) -> Seq<EffectView> {
    if built {
        stamp(requested) + seq![
            Effect::SetConversationWireId {
                provider_name: requested.provider_name@,
                model: requested.model_name@,
            },
            Effect::SystemMessage(bound_text(target, requested.alias@)),
        ]
    } else {
        seq![Effect::BindPipeline(previous)]
    }
}

/// What is recorded before the agent is rebuilt.
pub open spec fn bind_effects(target: Option<Seq<char>>) -> Seq<EffectView> {
    seq![Effect::BindPipeline(target)]
}

/// Records a binding. The agent is built from it.
pub fn record_binding(target: Option<&str>) -> (r: Effects)
    ensures
        r@ == bind_effects(text::opt_str(target)),
{
    let mut out = Effects::new();
    out.push(Effect::BindPipeline(text::own_option(target)));
    assert(out@ =~= bind_effects(text::opt_str(target)));
    out
}

/// Ends a binding: it is announced, or taken back.
pub fn finish_select_pipeline(
    target: Option<&str>,
    previous: Option<&str>,
    requested: &ResolvedModel,
    built: bool,
) -> (r: Effects)
    ensures
        r@ == select_finished(
            text::opt_str(target),
            text::opt_str(previous),
            *requested,
            built,
        ),
{
    let mut out = Effects::new();
    if !built {
        out.push(Effect::BindPipeline(text::own_option(previous)));
    } else {
        add_stamp(&mut out, requested);
        out.push(
            Effect::SetConversationWireId {
                provider_name: requested.provider_name.clone(),
                model: requested.model_name.clone(),
            },
        );
        match target {
            Some(name) => {
                let mut m = "🧩 Pipeline '".to_owned();
                m.append(name);
                m.append("' selected — orchestrator on ");
                m.append(requested.alias.as_str());
                m.append(
                    ". Your messages always go to the orchestrator, which decides what to delegate.",
                );
                out.say(m);
            },
            None => {
                let mut m = "🧩 Pipeline cleared — single agent on ".to_owned();
                m.append(requested.alias.as_str());
                m.append(".");
                out.say(m);
            },
        }
    }
    assert(out@ =~= select_finished(
        text::opt_str(target),
        text::opt_str(previous),
        *requested,
        built,
    ));
    out
}

/// The binding after effects, in their order.
pub open spec fn binding_after(start: Option<Seq<char>>, effects: Seq<EffectView>) -> Option<
    Seq<char>,
>
    decreases effects.len(),
{
    if effects.len() == 0 {
        start
    } else {
        match effects.last() {
            Effect::BindPipeline(n) => n,
            _ => binding_after(start, effects.drop_last()),
        }
    }
}

/// A binding whose agent was not built leaves the conversation bound as it was;
/// one whose agent was built leaves it bound as asked.
pub proof fn law_failed_binding_is_taken_back(
    target: Option<Seq<char>>,
    previous: Option<Seq<char>>,
    requested: ResolvedModel,
    built: bool,
)
    ensures
        binding_after(
            previous,
            bind_effects(target) + select_finished(target, previous, requested, built),
        ) == (if built {
            target
        } else {
            previous
        }),
{
    let end = select_finished(target, previous, requested, built);
    let all = bind_effects(target) + end;
    if built {
        reveal_with_fuel(binding_after, 7);
        assert(all.len() == 6);
        let a1 = all.drop_last();
        let a2 = a1.drop_last();
        let a3 = a2.drop_last();
        let a4 = a3.drop_last();
        let a5 = a4.drop_last();
        assert(all.last() == end[4]);
        assert(a1.last() == end[3]);
        assert(a2.last() == end[2]);
        assert(a3.last() == end[1]);
        assert(a4.last() == end[0]);
        assert(a5.last() == bind_effects(target)[0]);
    } else {
        assert(all.last() == end[0]);
    }
}

// ---------------------------------------------------------------------------
// Changing the directory
// ---------------------------------------------------------------------------

/// Why the directory cannot be changed at all.
pub open spec fn cd_refused(has_context: bool, is_dir: bool, attached: bool, path: Seq<char>)
    -> Option<Seq<char>> {
    if !has_context {
        Some(
            "model registry not configured (legacy single-provider boot — restart with a `providers:` block to enable /cd)"@,
        )
    } else if !is_dir {
        Some("not a directory: "@ + path)
    } else if !attached {
        Some("state manager required for /cd"@)
    } else {
        None
    }
}

/// Whether the directory can be changed at all.
pub fn refuse_cd(has_context: bool, is_dir: bool, attached: bool, path: &str) -> (r: Option<
    String,
>)
    ensures
        text::opt(r) == cd_refused(has_context, is_dir, attached, path@),
{
    if !has_context {
        Some(
            "model registry not configured (legacy single-provider boot — restart with a `providers:` block to enable /cd)".to_owned(),
        )
    } else if !is_dir {
        let mut e = "not a directory: ".to_owned();
        e.append(path);
        Some(e)
    } else if !attached {
        Some("state manager required for /cd".to_owned())
    } else {
        None
    }
}

/// The session moved into a directory. The background processes die first, so that
/// none sees both directories.
pub open spec fn move_effects(path: Seq<char>) -> Seq<EffectView> {
    seq![Effect::ClearBg, Effect::SetCwd(path), Effect::UpdateWelcomeCwd(path)]
}

fn add_move(out: &mut Effects, path: &str)
    ensures
        final(out)@ == old(out)@ + move_effects(path@),
{
    out.push(Effect::ClearBg);
    out.push(Effect::SetCwd(path.to_owned()));
    out.push(Effect::UpdateWelcomeCwd(path.to_owned()));
    assert(out@ =~= old(out)@ + move_effects(path@));
}

/// Whether `b` is what a change of directory begins with.
pub open spec fn cd_begun(
    before: RebuildContext,
    session: Session,
    path: Seq<char>,
    read: Result<FreshConfig, String>,
    after: RebuildContext,
    b: Begun,
) -> bool {
    &&& b.reloaded matches Some(r) && reload::reloaded(before, read, after, r)
    &&& match current_model(after.registry, session) {
        Some(m) => b.outcome matches Ok((out, plan)) && out@ == move_effects(path) && planned(
            after,
            text::opt(session.selected),
            m,
            plan,
        ),
        None => b.outcome matches Err(e) && e@ == "current model not found in registry"@,
    }
}

/// Begins a change of directory. `read` is the configuration as the new directory
/// has it. The model stays.
pub fn begin_change_cwd(
    ctx: &mut RebuildContext,
    session: &Session,
    path: &str,
    read: Result<FreshConfig, String>,
) -> (b: Begun)
    ensures
        cd_begun(*old(ctx), *session, path@, read, *final(ctx), b),
{
    let r = reload::reload_session_config(ctx, read);
    let outcome: Result<(Effects, RebuildPlan), String> = match find_current(
        &ctx.registry,
        session,
    ) {
        Some(m) => {
            let mut out = Effects::new();
            add_move(&mut out, path);
            assert(out@ =~= move_effects(path@));
            Ok((out, plan_rebuild(ctx, text::as_str_option(&session.selected), m)))
        },
        None => Err("current model not found in registry".to_owned()),
    };
    Begun { reloaded: Some(r), outcome }
}

/// Ends a change of directory, once the agent is in place: a conversation begins
/// there.
pub fn finish_change_cwd(requested: &ResolvedModel, path: &str) -> (r: Effects)
    ensures
        r@ == fresh_conversation(*requested, path@, "📁 New conversation in "@ + path@),
{
    let mut banner = "📁 New conversation in ".to_owned();
    banner.append(path);
    begin_conversation(requested, path, banner)
}

/// The background processes die before the session moves.
pub proof fn law_background_dies_before_the_move(path: Seq<char>, i: int)
    requires
        0 <= i < move_effects(path).len(),
        move_effects(path)[i] is SetCwd,
    ensures
        exists|j: int| 0 <= j < i && #[trigger] move_effects(path)[j] is ClearBg,
{
    assert(move_effects(path)[0] is ClearBg);
}

// ---------------------------------------------------------------------------
// After loading a conversation
// ---------------------------------------------------------------------------

/// What is known of the directory that a conversation was saved with.
#[derive(Debug, PartialEq, Eq, Structural, Copy, Clone)]
pub struct SavedDir {
    /// It is a directory still.
    pub is_dir: bool,
    /// It is the session's directory.
    pub is_current: bool,
}

/// What is read of a conversation that was loaded.
#[derive(Debug, PartialEq)]
pub struct LoadedConversation {
    pub provider_name: String,
    pub model: String,
    /// Empty for one that was saved without.
    pub cwd: String,
}

/// Whether the saved directory is gone back to.
pub open spec fn restores(conv: LoadedConversation, dir: SavedDir) -> bool {
    conv.cwd@.len() > 0 && dir.is_dir
}

/// The directory whose configuration a load reads: the saved one where it is still
/// there, else the session's.
pub fn reload_base(conv: &LoadedConversation, dir: SavedDir, session: &Session) -> (r: String)
    ensures
        r@ == (if restores(*conv, dir) {
            conv.cwd@
        } else {
            session.cwd@
        }),
{
    if !conv.cwd.as_str().is_empty() && dir.is_dir {
        conv.cwd.clone()
    } else {
        session.cwd.clone()
    }
}

/// What a load comes to before an agent is built.
#[derive(Debug, PartialEq)]
pub struct LoadBegun {
    pub reloaded: Reloaded,
    pub effects: Effects,
    /// The plan, where the agent has to be rebuilt.
    pub plan: Option<RebuildPlan>,
}

/// A saved selection whose team is gone, cleared with a warning.
pub open spec fn gone_effects(teams: Seq<ResolvedPipeline>, selected: Option<Seq<char>>) -> Seq<
    EffectView,
> {
    match selected {
        Some(name) if pipeline::set::find_team(teams, name) is None => seq![
            Effect::BindPipeline(None),
            Effect::SystemMessage(pipeline::set::gone_warning(name)),
        ],
        _ => Seq::empty(),
    }
}

/// The saved directory gone back to, or a warning that it is no longer there.
pub open spec fn restore_effects(conv: LoadedConversation, dir: SavedDir) -> Seq<EffectView> {
    if restores(conv, dir) {
        if dir.is_current {
            Seq::empty()
        } else {
            move_effects(conv.cwd@)
        }
    } else if conv.cwd@.len() > 0 {
        seq![
            Effect::SystemMessage(
                "⚠ /load: saved working directory no longer exists: "@ + conv.cwd@,
            ),
        ]
    } else {
        Seq::empty()
    }
}

/// Whether a load calls for another agent: another model, another directory or
/// another team.
pub open spec fn load_moves(
    session: Session,
    conv: LoadedConversation,
    dir: SavedDir,
    before: Option<Seq<char>>,
    after: Option<Seq<char>>,
) -> bool {
    ||| session.provider_name@ != conv.provider_name@
    ||| session.model@ != conv.model@
    ||| restores(conv, dir) && !dir.is_current
    ||| after != before
}

/// The model to run on after a load: the team's, else the saved one.
pub open spec fn loaded_model(
    ctx: RebuildContext,
    conv: LoadedConversation,
    selected: Option<Seq<char>>,
) -> Option<ResolvedModel> {
    match active_team(ctx.pipelines@, selected) {
        Some(team) => Some(team.orchestrator),
        None => models::find_wire(ctx.registry.models@, conv.provider_name@, conv.model@),
    }
}

/// Whether `b` is what a load comes to before an agent is built. The session is
/// that after the load, but for the display of the model.
pub open spec fn load_begun(
    before: RebuildContext,
    session: Session,
    conv: LoadedConversation,
    dir: SavedDir,
    selection_before: Option<Seq<char>>,
    read: Result<FreshConfig, String>,
    after: RebuildContext,
    b: LoadBegun,
) -> bool {
    let selected = text::opt(session.selected);
    let kept = selection::reconciled(selected, after.pipelines@);
    &&& reload::reloaded(before, read, after, b.reloaded)
    &&& b.effects@ == effect::say_all(text::strs(b.reloaded.warnings@)) + gone_effects(
        after.pipelines@,
        selected,
    ) + restore_effects(conv, dir)
    &&& match loaded_model(after, conv, selected) {
        Some(m) if load_moves(session, conv, dir, selection_before, kept) => b.plan matches Some(
            plan,
        ) && planned(after, kept, m, plan),
        _ => b.plan is None,
    }
}

/// Decides what a load comes to: the configuration is read anew, a team that is
/// gone is dropped, the saved directory gone back to, and the agent rebuilt where
/// any of it moved.
pub fn begin_after_load(
    ctx: &mut RebuildContext,
    session: &Session,
    conv: &LoadedConversation,
    dir: SavedDir,
    selection_before: Option<&str>,
    read: Result<FreshConfig, String>,
) -> (b: LoadBegun)
    ensures
        load_begun(
            *old(ctx),
            *session,
            *conv,
            dir,
            text::opt_str(selection_before),
            read,
            *final(ctx),
            b,
        ),
{
    let reloaded = reload::reload_session_config(ctx, read);
    let mut out = Effects::new();
    effect::say_each(&mut out, &reloaded.warnings);
    let ghost said = out@;
    assert(said =~= effect::say_all(text::strs(reloaded.warnings@)));
    let wire_changed = !text::same(session.provider_name.as_str(), conv.provider_name.as_str())
        || !text::same(session.model.as_str(), conv.model.as_str());
    let selected = text::as_str_option(&session.selected);
    let (team, warning) = ctx.pipelines.resolve_saved(selected);
    let kept: Option<&str> = if warning.is_some() {
        None
    } else {
        selected
    };
    assert(text::opt_str(kept) == selection::reconciled(
        text::opt(session.selected),
        ctx.pipelines@,
    ));
    if let Some(w) = warning {
        out.push(Effect::BindPipeline(None));
        out.say(w);
    }
    assert(out@ =~= said + gone_effects(ctx.pipelines@, text::opt(session.selected)));
    let ghost cleared = out@;
    let selection_changed = !text::same_option(kept, selection_before);
    let mut cwd_changed = false;
    if !conv.cwd.as_str().is_empty() {
        if dir.is_dir {
            if !dir.is_current {
                add_move(&mut out, conv.cwd.as_str());
                cwd_changed = true;
            }
        } else {
            let mut m = "⚠ /load: saved working directory no longer exists: ".to_owned();
            m.append(conv.cwd.as_str());
            out.say(m);
        }
    }
    assert(out@ =~= cleared + restore_effects(*conv, dir));
    let plan: Option<RebuildPlan> = if wire_changed || cwd_changed || selection_changed {
        match team {
            Some(t) => Some(plan_rebuild(ctx, kept, &t.orchestrator)),
            None => match ctx.registry.find_by_wire_id(
                conv.provider_name.as_str(),
                conv.model.as_str(),
            ) {
                Some(m) => Some(plan_rebuild(ctx, kept, m)),
                None => None,
            },
        }
    } else {
        None
    };
    LoadBegun { reloaded, effects: out, plan }
}

/// What follows a load whose agent was rebuilt, or was not.
pub open spec fn load_finished(requested: ResolvedModel, fault: Option<Seq<char>>) -> Seq<
    EffectView,
> {
    match fault {
        Some(e) => seq![Effect::SystemMessage("❌ /load: failed to rebuild agent: "@ + e)],
        None => seq![
            Effect::SetProviderName(requested.provider_name@),
            Effect::SetModel(requested.model_name@),
            Effect::SetModelAlias(requested.alias@),
        ],
    }
}

/// Ends a load: the display follows the new agent, or the error is shown and the
/// display stays with the previous one.
pub fn finish_after_load(requested: &ResolvedModel, fault: Option<&str>) -> (r: Effects)
    ensures
        r@ == load_finished(*requested, text::opt_str(fault)),
{
    let mut out = Effects::new();
    match fault {
        Some(e) => {
            let mut m = "❌ /load: failed to rebuild agent: ".to_owned();
            m.append(e);
            out.say(m);
        },
        None => {
            out.push(Effect::SetProviderName(requested.provider_name.clone()));
            out.push(Effect::SetModel(requested.model_name.clone()));
            out.push(Effect::SetModelAlias(requested.alias.clone()));
        },
    }
    assert(out@ =~= load_finished(*requested, text::opt_str(fault)));
    out
}

/// A load that changes neither model, directory nor team leaves the agent alone.
pub proof fn law_load_without_change_keeps_the_agent(
    before: RebuildContext,
    session: Session,
    conv: LoadedConversation,
    dir: SavedDir,
    selection_before: Option<Seq<char>>,
    read: Result<FreshConfig, String>,
    after: RebuildContext,
    b: LoadBegun,
)
    requires
        load_begun(before, session, conv, dir, selection_before, read, after, b),
        session.provider_name@ == conv.provider_name@,
        session.model@ == conv.model@,
        dir.is_current,
        selection::reconciled(text::opt(session.selected), after.pipelines@) == selection_before,
    ensures
        b.plan is None,
{
}

/// After a load the agent runs on the model of the conversation's team where that
/// team is still there, else on the model the conversation was saved with.
pub proof fn law_load_restores_the_model(
    before: RebuildContext,
    session: Session,
    conv: LoadedConversation,
    dir: SavedDir,
    selection_before: Option<Seq<char>>,
    read: Result<FreshConfig, String>,
    after: RebuildContext,
    b: LoadBegun,
)
    requires
        load_begun(before, session, conv, dir, selection_before, read, after, b),
        b.plan is Some,
    ensures
        match active_team(after.pipelines@, text::opt(session.selected)) {
            Some(team) => b.plan->0.resolved == team.orchestrator,
            None => b.plan->0.resolved.provider_name@ == conv.provider_name@
                && b.plan->0.resolved.model_name@ == conv.model@,
        },
{
    lemma_found_wire(after.registry.models@, conv.provider_name@, conv.model@);
}

proof fn lemma_found_wire(all: Seq<ResolvedModel>, provider: Seq<char>, model: Seq<char>)
    ensures
        models::find_wire(all, provider, model) matches Some(m) ==> m.provider_name@ == provider
            && m.model_name@ == model,
    decreases all.len(),
{
    if all.len() > 0 {
        lemma_found_wire(all.drop_first(), provider, model);
    }
}

// ---------------------------------------------------------------------------
// After beginning a conversation
// ---------------------------------------------------------------------------

/// Whether `b` is what a new conversation comes to before an agent is built.
pub open spec fn new_begun(
    before: RebuildContext,
    session: Session,
    read: Result<FreshConfig, String>,
    after: RebuildContext,
    b: LoadBegun,
) -> bool {
    let selected = text::opt(session.selected);
    &&& reload::reloaded(before, read, after, b.reloaded)
    &&& b.effects@ == surfaced(after.pipelines@, selected, text::strs(b.reloaded.warnings@))
    &&& match current_model(after.registry, session) {
        Some(m) => b.plan matches Some(plan) && planned(
            after,
            selection::reconciled(selected, after.pipelines@),
            m,
            plan,
        ),
        None => b.plan is None,
    }
}

/// Decides what a new conversation comes to: the configuration is read anew and the
/// agent rebuilt on the active model, where it is still declared.
pub fn begin_after_new(
    ctx: &mut RebuildContext,
    session: &Session,
    read: Result<FreshConfig, String>,
) -> (b: LoadBegun)
    ensures
        new_begun(*old(ctx), *session, read, *final(ctx), b),
{
    let reloaded = reload::reload_session_config(ctx, read);
    let effects = surface(
        text::copy_option(&session.selected),
        &ctx.pipelines,
        text::copy_strings(&reloaded.warnings),
    );
    let mut kept = text::copy_option(&session.selected);
    let _ = selection::reconcile_pipeline_selection(&mut kept, &ctx.pipelines);
    let plan: Option<RebuildPlan> = match find_current(&ctx.registry, session) {
        Some(m) => Some(plan_rebuild(ctx, text::as_str_option(&kept), m)),
        None => None,
    };
    LoadBegun { reloaded, effects, plan }
}

/// What follows a new conversation whose agent was rebuilt, or was not.
pub open spec fn new_finished(fault: Option<Seq<char>>) -> Seq<EffectView> {
    match fault {
        Some(e) => seq![Effect::SystemMessage("❌ /new: failed to rebuild agent: "@ + e)],
        None => Seq::empty(),
    }
}

/// Ends a new conversation: an error is shown.
pub fn finish_after_new(fault: Option<&str>) -> (r: Effects)
    ensures
        r@ == new_finished(text::opt_str(fault)),
{
    let mut out = Effects::new();
    if let Some(e) = fault {
        let mut m = "❌ /new: failed to rebuild agent: ".to_owned();
        m.append(e);
        out.say(m);
    }
    assert(out@ =~= new_finished(text::opt_str(fault)));
    out
}

/// What a reload said is shown after the conversation was reset, so that the reset
/// cannot take it away.
pub proof fn law_warnings_survive_the_reset(
    m: ResolvedModel,
    cwd: Seq<char>,
    banner: Seq<char>,
    teams: Seq<ResolvedPipeline>,
    selected: Option<Seq<char>>,
    warnings: Seq<Seq<char>>,
    i: int,
)
    requires
        0 <= i < warnings.len(),
    ensures
        ({
            let all = fresh_conversation(m, cwd, banner) + surfaced(teams, selected, warnings);
            exists|k: int|
                0 < k < all.len() && #[trigger] all[k] == (Effect::<
                    Seq<char>,
                    Seq<crate::message::Media>,
                >::SystemMessage(warnings[i])) && forall|j: int|
                    k <= j < all.len() ==> !(#[trigger] all[j] is ResetConversation)
        }),
{
    let first = fresh_conversation(m, cwd, banner);
    let rest = surfaced(teams, selected, warnings);
    let all = first + rest;
    let at = match dropped(teams, selected) {
        Some(_) => i + 1,
        None => i,
    };
    let k = first.len() + at;
    assert(rest[at] == (Effect::<Seq<char>, Seq<crate::message::Media>>::SystemMessage(
        warnings[i],
    )));
    assert(all[k] == rest[at]);
    assert forall|j: int| k <= j < all.len() implies !(#[trigger] all[j]
        is ResetConversation) by {
        assert(all[j] == rest[j - first.len()]);
    }
}

// ---------------------------------------------------------------------------
// What every rebuild keeps
// ---------------------------------------------------------------------------

/// A plan under a selection whose team is there names that team, runs on its
/// orchestrator's model and carries its instructions and persona. Without such a
/// team it runs on the model that was asked for, as a single agent.
pub proof fn law_plan_follows_the_selection(
    ctx: RebuildContext,
    selected: Option<Seq<char>>,
    requested: ResolvedModel,
    plan: RebuildPlan,
)
    requires
        planned(ctx, selected, requested, plan),
    ensures
        plan.requested == requested,
        plan.memory_enabled == ctx.memory_enabled,
        forall|name: Seq<char>, k: int|
            selected == Some(name) && #[trigger] pipeline::set::stands_at(
                ctx.pipelines@,
                name,
                k,
            ) ==> {
                let team = ctx.pipelines@[k];
                &&& plan.team is Some && plan.team->0@ == name
                &&& plan.resolved == team.orchestrator
                &&& text::opt(plan.orchestrator_prompt) == text::opt(team.orchestrator_prompt)
                &&& text::opt(plan.persona) == (if team.orchestrator_persona is Some {
                    text::opt(team.orchestrator_persona)
                } else {
                    text::opt(ctx.persona)
                })
            },
        (selected matches Some(name) ==> forall|k: int|
            0 <= k < ctx.pipelines@.len() ==> (#[trigger] ctx.pipelines@[k]).name@ != name) ==> {
            &&& plan.team is None
            &&& plan.orchestrator_prompt is None
            &&& plan.resolved == requested
            &&& text::opt(plan.persona) == text::opt(ctx.persona)
        },
{
    assert forall|name: Seq<char>, k: int|
        selected == Some(name) && #[trigger] pipeline::set::stands_at(
            ctx.pipelines@,
            name,
            k,
        ) implies active_team(ctx.pipelines@, selected) == Some(ctx.pipelines@[k]) by {
        pipeline::set::law_name_leads_to_the_first(ctx.pipelines@, name, k);
    }
    if let Some(name) = selected {
        pipeline::set::law_name_leads_to_the_first(ctx.pipelines@, name, 0);
    }
}

/// The active model is the first declared with its alias; where no model has that
/// alias, it is one with the same provider and name on the wire; and where there is
/// none of these, there is no active model.
pub proof fn law_active_model_is_found(registry: ModelRegistry, s: Session, i: int)
    ensures
        0 <= i < registry.models@.len() && registry.models@[i].alias@ == s.alias@ && (forall|j: int|
            0 <= j < i ==> (#[trigger] registry.models@[j]).alias@ != s.alias@) ==> current_model(
            registry,
            s,
        ) == Some(registry.models@[i]),
        current_model(registry, s) matches Some(m) ==> registry.models@.contains(m) && (m.alias@
            == s.alias@ || (m.provider_name@ == s.provider_name@ && m.model_name@ == s.model@)),
        current_model(registry, s) is None <==> forall|j: int|
            0 <= j < registry.models@.len() ==> (#[trigger] registry.models@[j]).alias@ != s.alias@
                && !(registry.models@[j].provider_name@ == s.provider_name@
                && registry.models@[j].model_name@ == s.model@),
{
    let all = registry.models@;
    models::law_alias_leads_to_the_first(all, s.alias@, i);
    models::law_alias_is_known_iff_declared(all, s.alias@);
    models::law_wire_is_known_iff_declared(all, s.provider_name@, s.model@);
}

/// A change of directory keeps the bound team: where it is among the teams that the
/// new directory has, the agent is that team's.
pub proof fn law_cd_keeps_the_team(
    before: RebuildContext,
    session: Session,
    path: Seq<char>,
    read: Result<FreshConfig, String>,
    after: RebuildContext,
    b: Begun,
    name: Seq<char>,
    k: int,
)
    requires
        cd_begun(before, session, path, read, after, b),
        b.outcome is Ok,
        session.selected matches Some(s) && s@ == name,
        0 <= k < after.pipelines@.len(),
        after.pipelines@[k].name@ == name,
        forall|j: int| 0 <= j < k ==> (#[trigger] after.pipelines@[j]).name@ != name,
    ensures
        ({
            let plan = b.outcome->Ok_0.1;
            let team = after.pipelines@[k];
            &&& plan.team is Some && plan.team->0@ == name
            &&& plan.resolved == team.orchestrator
            &&& text::opt(plan.orchestrator_prompt) == text::opt(team.orchestrator_prompt)
            &&& text::opt(plan.persona) == (if team.orchestrator_persona is Some {
                text::opt(team.orchestrator_persona)
            } else {
                text::opt(after.persona)
            })
        }),
{
    assert(pipeline::set::stands_at(after.pipelines@, name, k));
    let m = current_model(after.registry, session)->0;
    law_plan_follows_the_selection(
        after,
        text::opt(session.selected),
        m,
        b.outcome->Ok_0.1,
    );
}

/// A change of directory keeps the model: the plan asks for the active one, which is
/// also what the agent runs on where no team of the new directory is bound. It is
/// refused only where the new configuration does not declare that model.
pub proof fn law_cd_keeps_the_model(
    before: RebuildContext,
    session: Session,
    path: Seq<char>,
    read: Result<FreshConfig, String>,
    after: RebuildContext,
    b: Begun,
)
    requires
        cd_begun(before, session, path, read, after, b),
    ensures
        b.reloaded is Some,
        b.outcome is Err <==> forall|j: int|
            0 <= j < after.registry.models@.len() ==> (#[trigger] after.registry.models@[j]).alias@
                != session.alias@ && !(after.registry.models@[j].provider_name@
                == session.provider_name@ && after.registry.models@[j].model_name@
                == session.model@),
        b.outcome matches Ok((_, plan)) ==> (plan.requested.alias@ == session.alias@ || (
        plan.requested.provider_name@ == session.provider_name@ && plan.requested.model_name@
            == session.model@)) && after.registry.models@.contains(plan.requested),
        b.outcome matches Ok((_, plan)) ==> plan.memory_enabled == after.memory_enabled,
        b.outcome matches Ok((_, plan)) ==> (session.selected is None || forall|k: int|
            0 <= k < after.pipelines@.len() ==> (#[trigger] after.pipelines@[k]).name@
                != session.selected->0@) ==> plan.team is None && plan.resolved == plan.requested,
        b.outcome matches Ok((out, _)) ==> exists|i: int|
            0 <= i < out@.len() && #[trigger] out@[i] == (Effect::<
                Seq<char>,
                Seq<crate::message::Media>,
            >::SetCwd(path)),
{
    law_active_model_is_found(after.registry, session, 0);
    if let Ok((out, plan)) = b.outcome {
        let m = current_model(after.registry, session)->0;
        law_plan_follows_the_selection(after, text::opt(session.selected), m, plan);
        assert(out@[1] == (Effect::<Seq<char>, Seq<crate::message::Media>>::SetCwd(path)));
    }
}

/// A switch goes to the model that was asked for, and to no team; it is refused
/// exactly where no model has the alias.
pub proof fn law_switch_goes_to_the_model(
    before: RebuildContext,
    session: Session,
    alias: Seq<char>,
    read: Result<FreshConfig, String>,
    after: RebuildContext,
    b: Begun,
)
    requires
        switch_begun(before, session, alias, read, after, b),
        session.selected is None,
    ensures
        b.reloaded is Some,
        b.outcome is Ok <==> exists|j: int|
            0 <= j < after.registry.models@.len() && (#[trigger] after.registry.models@[j]).alias@
                == alias,
        b.outcome matches Ok((_, plan)) ==> {
            &&& plan.requested.alias@ == alias
            &&& after.registry.models@.contains(plan.requested)
            &&& plan.resolved == plan.requested
            &&& plan.team is None
            &&& plan.orchestrator_prompt is None
            &&& text::opt(plan.persona) == text::opt(after.persona)
            &&& plan.memory_enabled == after.memory_enabled
        },
{
    models::law_alias_is_known_iff_declared(after.registry.models@, alias);
    if let Ok((_, plan)) = b.outcome {
        let m = models::find_alias(after.registry.models@, alias)->0;
        law_plan_follows_the_selection(after, None, m, plan);
    }
}

/// Binding a team rebuilds the agent as that team's orchestrator; clearing the
/// binding rebuilds it on the default model. The binding that it goes back to, should
/// the agent not be built, is the one before.
pub proof fn law_binding_rebuilds_for_the_team(
    ctx: RebuildContext,
    session: Session,
    target: Option<Seq<char>>,
    c: PipelineChoice,
    b: SelectBegun,
    k: int,
)
    requires
        selection::chosen(
            text::opt(session.selected),
            session.has_turns,
            target,
            pipeline::set::team_names(ctx.pipelines@),
            c,
        ),
        select_begun(ctx, session, c, b),
    ensures
        b is Unchanged <==> text::opt(session.selected) == target,
        target matches Some(name) ==> (b is Rebuild <==> text::opt(session.selected) != target
            && !session.has_turns && exists|j: int|
            0 <= j < ctx.pipelines@.len() && (#[trigger] ctx.pipelines@[j]).name@ == name),
        b matches SelectBegun::Rebuild { target: t, previous, plan } ==> text::opt(t) == target
            && text::opt(previous) == text::opt(session.selected) && plan.memory_enabled
            == ctx.memory_enabled,
        b matches SelectBegun::Rebuild { plan, .. } ==> target is None ==> plan.team is None
            && plan.resolved.alias@ == ctx.registry.default_alias@ && plan.requested
            == plan.resolved && plan.orchestrator_prompt is None,
        b matches SelectBegun::Rebuild { plan, .. } ==> 0 <= k < ctx.pipelines@.len() && target
            == Some(ctx.pipelines@[k].name@) && (forall|j: int|
            0 <= j < k ==> (#[trigger] ctx.pipelines@[j]).name@ != ctx.pipelines@[k].name@) ==> {
            let team = ctx.pipelines@[k];
            &&& plan.team is Some && plan.team->0@ == team.name@
            &&& plan.resolved == team.orchestrator
            &&& plan.requested == team.orchestrator
            &&& text::opt(plan.orchestrator_prompt) == text::opt(team.orchestrator_prompt)
            &&& text::opt(plan.persona) == (if team.orchestrator_persona is Some {
                text::opt(team.orchestrator_persona)
            } else {
                text::opt(ctx.persona)
            })
        },
{
    let teams = ctx.pipelines@;
    let names = pipeline::set::team_names(teams);
    match target {
        Some(name) => {
            pipeline::set::law_found_team(teams, name);
            if names.contains(name) {
                let j = choose|j: int| 0 <= j < names.len() && names[j] == name;
                assert(teams[j].name@ == name);
            }
            if exists|j: int| 0 <= j < teams.len() && (#[trigger] teams[j]).name@ == name {
                let j = choose|j: int| 0 <= j < teams.len() && (#[trigger] teams[j]).name@ == name;
                assert(names[j] == name);
            }
            pipeline::set::law_name_leads_to_the_first(teams, name, k);
        },
        None => {
            models::law_alias_is_known_iff_declared(
                ctx.registry.models@,
                ctx.registry.default_alias@,
            );
        },
    }
    if let SelectBegun::Rebuild { plan, .. } = b {
        let m = bound_model(ctx, target)->0;
        assert(text::opt(c->Apply_0) == target);
        law_plan_follows_the_selection(ctx, target, m, plan);
        if 0 <= k < teams.len() && target == Some(teams[k].name@) && (forall|j: int|
            0 <= j < k ==> (#[trigger] teams[j]).name@ != teams[k].name@) {
            assert(pipeline::set::stands_at(teams, teams[k].name@, k));
        }
    }
}

/// A load goes on with the team that the conversation was bound to, where that team
/// is there: the agent is its orchestrator. A team that is gone is cleared with a
/// warning, and the agent runs on the saved model.
pub proof fn law_load_goes_on_with_the_team(
    before: RebuildContext,
    session: Session,
    conv: LoadedConversation,
    dir: SavedDir,
    selection_before: Option<Seq<char>>,
    read: Result<FreshConfig, String>,
    after: RebuildContext,
    b: LoadBegun,
    name: Seq<char>,
    k: int,
)
    requires
        load_begun(before, session, conv, dir, selection_before, read, after, b),
        session.selected matches Some(s) && s@ == name,
    ensures
        b.plan matches Some(plan) ==> 0 <= k < after.pipelines@.len() && after.pipelines@[k].name@
            == name && (forall|j: int|
            0 <= j < k ==> (#[trigger] after.pipelines@[j]).name@ != name) ==> {
            let team = after.pipelines@[k];
            &&& plan.team is Some && plan.team->0@ == name
            &&& plan.resolved == team.orchestrator
            &&& plan.requested == team.orchestrator
            &&& text::opt(plan.orchestrator_prompt) == text::opt(team.orchestrator_prompt)
            &&& text::opt(plan.persona) == (if team.orchestrator_persona is Some {
                text::opt(team.orchestrator_persona)
            } else {
                text::opt(after.persona)
            })
        },
        (forall|j: int|
            0 <= j < after.pipelines@.len() ==> (#[trigger] after.pipelines@[j]).name@ != name)
            ==> {
            &&& exists|i: int|
                0 <= i < b.effects@.len() && #[trigger] b.effects@[i] == (Effect::<
                    Seq<char>,
                    Seq<crate::message::Media>,
                >::BindPipeline(None))
            &&& b.plan matches Some(plan) ==> plan.team is None && plan.resolved == plan.requested
                && plan.resolved.provider_name@ == conv.provider_name@
                && plan.resolved.model_name@ == conv.model@
        },
        (exists|j: int|
            0 <= j < after.pipelines@.len() && (#[trigger] after.pipelines@[j]).name@ == name)
            ==> forall|i: int|
            0 <= i < b.effects@.len() ==> !(#[trigger] b.effects@[i] is BindPipeline),
{
    let teams = after.pipelines@;
    pipeline::set::law_found_team(teams, name);
    pipeline::set::law_name_leads_to_the_first(teams, name, k);
    models::law_wire_is_known_iff_declared(
        after.registry.models@,
        conv.provider_name@,
        conv.model@,
    );
    let said = effect::say_all(text::strs(b.reloaded.warnings@));
    let gone = gone_effects(teams, Some(name));
    if forall|j: int| 0 <= j < teams.len() ==> (#[trigger] teams[j]).name@ != name {
        assert(b.effects@[said.len() as int] == gone[0]);
    }
    if exists|j: int| 0 <= j < teams.len() && (#[trigger] teams[j]).name@ == name {
        let j = choose|j: int| 0 <= j < teams.len() && (#[trigger] teams[j]).name@ == name;
        assert(pipeline::set::team_names(teams)[j] == name);
    }
    if let Some(plan) = b.plan {
        let kept = selection::reconciled(Some(name), teams);
        let m = loaded_model(after, conv, Some(name))->0;
        law_plan_follows_the_selection(after, kept, m, plan);
        if 0 <= k < teams.len() && teams[k].name@ == name && (forall|j: int|
            0 <= j < k ==> (#[trigger] teams[j]).name@ != name) {
            assert(pipeline::set::stands_at(teams, name, k));
        }
    }
}

/// A load rebuilds the agent where the model, the directory or the team is another
/// than before, so long as there is a model to run on; and says what the reload said.
pub proof fn law_load_rebuilds_where_something_changed(
    before: RebuildContext,
    session: Session,
    conv: LoadedConversation,
    dir: SavedDir,
    selection_before: Option<Seq<char>>,
    read: Result<FreshConfig, String>,
    after: RebuildContext,
    b: LoadBegun,
)
    requires
        load_begun(before, session, conv, dir, selection_before, read, after, b),
    ensures
        session.selected is None && (session.provider_name@ != conv.provider_name@
            || session.model@ != conv.model@ || selection_before is Some || (conv.cwd@.len() > 0
            && dir.is_dir && !dir.is_current)) ==> (b.plan is Some <==> exists|j: int|
            0 <= j < after.registry.models@.len() && (
            #[trigger] after.registry.models@[j]).provider_name@ == conv.provider_name@
                && after.registry.models@[j].model_name@ == conv.model@),
        session.selected is None && session.provider_name@ == conv.provider_name@ && session.model@
            == conv.model@ && selection_before is None && (conv.cwd@.len() == 0 || !dir.is_dir
            || dir.is_current) ==> b.plan is None,
        session.selected is None ==> (b.plan matches Some(plan) ==> plan.team is None
            && plan.resolved.provider_name@ == conv.provider_name@ && plan.resolved.model_name@
            == conv.model@),
        forall|i: int|
            0 <= i < b.reloaded.warnings@.len() ==> i < b.effects@.len() && #[trigger] b.effects@[i]
                == (Effect::<Seq<char>, Seq<crate::message::Media>>::SystemMessage(
                b.reloaded.warnings@[i]@,
            )),
        conv.cwd@.len() > 0 && dir.is_dir && !dir.is_current <==> exists|i: int|
            0 <= i < b.effects@.len() && #[trigger] b.effects@[i] is SetCwd,
        forall|i: int|
            0 <= i < b.effects@.len() && #[trigger] b.effects@[i] is SetCwd ==> b.effects@[i]
                == (Effect::<Seq<char>, Seq<crate::message::Media>>::SetCwd(conv.cwd@)),
{
    models::law_wire_is_known_iff_declared(
        after.registry.models@,
        conv.provider_name@,
        conv.model@,
    );
    let said = effect::say_all(text::strs(b.reloaded.warnings@));
    let gone = gone_effects(after.pipelines@, text::opt(session.selected));
    let back = restore_effects(conv, dir);
    if let Some(plan) = b.plan {
        let kept = selection::reconciled(text::opt(session.selected), after.pipelines@);
        law_plan_follows_the_selection(
            after,
            kept,
            loaded_model(after, conv, text::opt(session.selected))->0,
            plan,
        );
    }
    if conv.cwd@.len() > 0 && dir.is_dir && !dir.is_current {
        assert(b.effects@[(said + gone).len() as int + 1] == back[1]);
    }
}

/// A new conversation keeps the bound team where it is still there, and the active
/// model; it rebuilds the agent exactly where that model is still declared.
pub proof fn law_new_keeps_the_team(
    before: RebuildContext,
    session: Session,
    read: Result<FreshConfig, String>,
    after: RebuildContext,
    b: LoadBegun,
    k: int,
)
    requires
        new_begun(before, session, read, after, b),
    ensures
        b.plan is None <==> forall|j: int|
            0 <= j < after.registry.models@.len() ==> (#[trigger] after.registry.models@[j]).alias@
                != session.alias@ && !(after.registry.models@[j].provider_name@
                == session.provider_name@ && after.registry.models@[j].model_name@
                == session.model@),
        b.plan matches Some(plan) ==> after.registry.models@.contains(plan.requested) && (
        plan.requested.alias@ == session.alias@ || (plan.requested.provider_name@
            == session.provider_name@ && plan.requested.model_name@ == session.model@)),
        b.plan matches Some(plan) ==> session.selected is Some && 0 <= k < after.pipelines@.len()
            && after.pipelines@[k].name@ == session.selected->0@ && (forall|j: int|
            0 <= j < k ==> (#[trigger] after.pipelines@[j]).name@ != session.selected->0@) ==> {
            let team = after.pipelines@[k];
            &&& plan.team is Some && plan.team->0@ == team.name@
            &&& plan.resolved == team.orchestrator
            &&& text::opt(plan.orchestrator_prompt) == text::opt(team.orchestrator_prompt)
            &&& text::opt(plan.persona) == (if team.orchestrator_persona is Some {
                text::opt(team.orchestrator_persona)
            } else {
                text::opt(after.persona)
            })
        },
        b.plan matches Some(plan) ==> (session.selected is None || forall|j: int|
            0 <= j < after.pipelines@.len() ==> (#[trigger] after.pipelines@[j]).name@
                != session.selected->0@) ==> plan.team is None && plan.resolved == plan.requested,
{
    let teams = after.pipelines@;
    law_active_model_is_found(after.registry, session, 0);
    let kept = selection::reconciled(text::opt(session.selected), teams);
    if let Some(s) = session.selected {
        pipeline::set::law_found_team(teams, s@);
        pipeline::set::law_name_leads_to_the_first(teams, s@, k);
    }
    if let Some(plan) = b.plan {
        law_plan_follows_the_selection(
            after,
            kept,
            current_model(after.registry, session)->0,
            plan,
        );
        if session.selected is Some && 0 <= k < teams.len() && teams[k].name@
            == session.selected->0@ && (forall|j: int|
            0 <= j < k ==> (#[trigger] teams[j]).name@ != session.selected->0@) {
            assert(pipeline::set::stands_at(teams, session.selected->0@, k));
        }
    }
}

/// What a reload said is shown in full and in its order, and the binding is cleared
/// exactly where its team is gone, which is then said too.
pub proof fn law_reload_is_surfaced(
    teams: Seq<ResolvedPipeline>,
    selected: Option<Seq<char>>,
    warnings: Seq<Seq<char>>,
) -> (at: int)
    ensures
        at == 0 || at == 1,
        at == 1 <==> (selected matches Some(name) && forall|j: int|
            0 <= j < teams.len() ==> (#[trigger] teams[j]).name@ != name),
        at == 1 ==> surfaced(teams, selected, warnings)[0] == (Effect::<
            Seq<char>,
            Seq<crate::message::Media>,
        >::BindPipeline(None)) && surfaced(teams, selected, warnings).len() == warnings.len() + 2,
        at == 0 ==> surfaced(teams, selected, warnings).len() == warnings.len(),
        forall|i: int|
            0 <= i < warnings.len() ==> #[trigger] surfaced(teams, selected, warnings)[at + i] == (
            Effect::<Seq<char>, Seq<crate::message::Media>>::SystemMessage(warnings[i])),
        at == 1 ==> surfaced(teams, selected, warnings)[warnings.len() as int + 1] == (Effect::<
            Seq<char>,
            Seq<crate::message::Media>,
        >::SystemMessage(
            "⚠ Pipeline '"@ + selected->0
                + "' is not configured here — continuing without a pipeline."@,
        )),
{
    if let Some(name) = selected {
        pipeline::set::law_name_leads_to_the_first(teams, name, 0);
        pipeline::set::law_found_team(teams, name);
        if pipeline::set::find_team(teams, name) is Some {
            let p = pipeline::set::find_team(teams, name)->0;
            let j = choose|j: int| 0 <= j < teams.len() && teams[j] == p;
            assert(teams[j].name@ == name);
        } else {
            let names = pipeline::set::team_names(teams);
            assert forall|j: int| 0 <= j < teams.len() implies (#[trigger] teams[j]).name@
                != name by {
                assert(names[j] == teams[j].name@);
            }
        }
    }
    if dropped(teams, selected) is Some {
        1
    } else {
        0
    }
}

/// A conversation that begins is reset before anything else, is recorded with the
/// model and the directory, and the display shows that model.
pub proof fn law_conversation_begins_on_the_model(
    m: ResolvedModel,
    cwd: Seq<char>,
    banner: Seq<char>,
)
    ensures
        ({
            let all = fresh_conversation(m, cwd, banner);
            &&& all.len() > 0 && all[0] is ResetConversation
            &&& all.contains(
                Effect::CreateConversation {
                    provider_name: m.provider_name@,
                    model: m.model_name@,
                    cwd,
                },
            )
            &&& all.contains(Effect::SetModel(m.model_name@))
            &&& all.contains(Effect::SetProviderName(m.provider_name@))
            &&& all.contains(Effect::SetModelAlias(m.alias@))
            &&& all.last() == (Effect::<Seq<char>, Seq<crate::message::Media>>::SystemMessage(
                banner,
            ))
            &&& all.len() == 6
        }),
{
    let all = fresh_conversation(m, cwd, banner);
    assert(all[1] is CreateConversation);
    assert(all[2] is SetModel);
    assert(all[3] is SetProviderName);
    assert(all[4] is SetModelAlias);
    assert(all.contains(all[1]));
    assert(all.contains(all[2]));
    assert(all.contains(all[3]));
    assert(all.contains(all[4]));
}

/// A built agent is published with the display of the model that it runs on; its
/// events are processed anew, after the old processor was stopped; reasoning goes
/// over the wire only where it is kept and the provider takes it.
pub proof fn law_built_agent_is_published(plan: RebuildPlan, b: Built, has_compaction: bool)
    ensures
        ({
            let all = publish_effects(plan, b, has_compaction);
            let n = all.len() as int;
            &&& all.contains(Effect::PublishAgent)
            &&& all.contains(
                Effect::UpdateWelcomeModel {
                    provider_name: plan.resolved.provider_name@,
                    model: plan.resolved.model_name@,
                    max_tokens: b.max_tokens,
                },
            )
            &&& all.contains(Effect::SetDisplayReasoning(b.display_reasoning))
            &&& all.contains(
                Effect::InitContextManager { context_size: plan.resolved.context_size },
            )
            &&& all.contains(Effect::InitTitleModel) <==> has_compaction
            &&& b.has_events ==> all[n - 1] is RestartEventProcessor && all[n - 2]
                is StopEventProcessor
            &&& !b.has_events ==> all[n - 1] is StopEventProcessor && !all.contains(
                Effect::RestartEventProcessor,
            )
            &&& forall|i: int|
                0 <= i < n && #[trigger] all[i] is SetWireReasoning ==> (all[i]
                    == Effect::<Seq<char>, Seq<crate::message::Media>>::SetWireReasoning(true)
                    <==> b.preserve_reasoning && b.provider@ == "anthropic"@)
            &&& all[0] is SetWireReasoning
        }),
{
    let all = publish_effects(plan, b, has_compaction);
    assert(all.contains(all[1]));
    assert(all.contains(all[2]));
    assert(all.contains(all[3]));
    assert(all.contains(all[4]));
    if has_compaction {
        assert(all[5] is InitTitleModel);
        assert(all.contains(all[5]));
    }
}

/// A refusal says what cannot be had: the alias with all aliases, the directory, the model
/// and the reason.
pub proof fn law_rebuild_errors_name_their_cause(
    alias: Seq<char>,
    reason: Seq<char>,
    registry: ModelRegistry,
) -> (r: Seq<Seq<char>>)
    ensures
        r.len() == 8,
        unknown_alias(alias, registry) == r[0] + alias + r[1] + models::alias_listing(
            registry.models@,
        ),
        compaction_error(alias, reason) == r[2] + alias + r[3] + reason + r[4],
        build_error(alias, reason) == r[5] + alias + r[6] + reason,
        cd_refused(true, false, true, alias) == Some(r[7] + alias),
{
    seq![
        "unknown alias `"@,
        "`. Available: "@,
        "compaction model unavailable for `"@,
        "`: "@,
        " — set context.enabled=false to switch without compaction"@,
        "failed to build agent for `"@,
        "`: "@,
        "not a directory: "@,
    ]
}

/// A rebuilding command is refused exactly where there is no configuration, no session or,
/// for a change of directory, no such directory.
pub proof fn law_rebuilds_are_refused_iff_impossible(
    has_context: bool,
    is_dir: bool,
    attached: bool,
    path: Seq<char>,
)
    ensures
        switch_refused(has_context, attached) is None <==> has_context && attached,
        select_refused(has_context, attached) is None <==> has_context && attached,
        cd_refused(has_context, is_dir, attached, path) is None <==> has_context && is_dir
            && attached,
{
}

/// A switch and a change of directory announce where the conversation goes on: the banner
/// names the model's alias, its provider and its name. A binding names the team and the
/// model that it runs on.
pub proof fn law_banners_name_the_model(
    m: ResolvedModel,
    target: Option<Seq<char>>,
    alias: Seq<char>,
) -> (r: Seq<Seq<char>>)
    ensures
        r.len() == 7,
        switched_banner(m) == r[0] + m.alias@ + r[1] + m.provider_name@ + r[2] + m.model_name@
            + r[3],
        target is Some ==> bound_text(target, alias) == r[4] + target->0 + r[5] + alias + r[6],
        target is None ==> bound_text(target, alias) == r[4] + alias + r[6],
{
    if target is Some {
        seq![
            "🔁 New conversation on "@,
            " ("@,
            " · "@,
            ")"@,
            "🧩 Pipeline '"@,
            "' selected — orchestrator on "@,
            ". Your messages always go to the orchestrator, which decides what to delegate."@,
        ]
    } else {
        seq![
            "🔁 New conversation on "@,
            " ("@,
            " · "@,
            ")"@,
            "🧩 Pipeline cleared — single agent on "@,
            Seq::empty(),
            "."@,
        ]
    }
}

/// A binding whose agent was built shows that agent's model, saves it with the conversation
/// and announces it; one whose agent was not built only goes back.
pub proof fn law_binding_is_shown(
    target: Option<Seq<char>>,
    previous: Option<Seq<char>>,
    m: ResolvedModel,
)
    ensures
        ({
            let all = select_finished(target, previous, m, true);
            &&& all.len() == 5
            &&& all[0] == (Effect::<Seq<char>, Seq<crate::message::Media>>::SetModel(m.model_name@))
            &&& all[1] == (Effect::<Seq<char>, Seq<crate::message::Media>>::SetProviderName(m.provider_name@))
            &&& all[2] == (Effect::<Seq<char>, Seq<crate::message::Media>>::SetModelAlias(m.alias@))
            &&& all[3] == (Effect::<Seq<char>, Seq<crate::message::Media>>::SetConversationWireId {
                provider_name: m.provider_name@,
                model: m.model_name@,
            })
            &&& all[4] == (Effect::<Seq<char>, Seq<crate::message::Media>>::SystemMessage(bound_text(target, m.alias@)))
        }),
        select_finished(target, previous, m, false).len() == 1,
        select_finished(target, previous, m, false)[0] == (Effect::<Seq<char>, Seq<crate::message::Media>>::BindPipeline(previous)),
        bind_effects(target).len() == 1,
        bind_effects(target)[0] == (Effect::<Seq<char>, Seq<crate::message::Media>>::BindPipeline(target)),
{
}

/// A load ends with the model of the agent shown, and a new conversation without more; where
/// the agent was not built both end with the error.
pub proof fn law_load_and_new_are_closed(m: ResolvedModel, fault: Option<Seq<char>>)
    ensures
        fault is None ==> load_finished(m, fault).len() == 3,
        fault is None ==> load_finished(m, fault)[0] == (Effect::<Seq<char>, Seq<crate::message::Media>>::SetProviderName(m.provider_name@)),
        fault is None ==> load_finished(m, fault)[1] == (Effect::<Seq<char>, Seq<crate::message::Media>>::SetModel(m.model_name@)),
        fault is None ==> load_finished(m, fault)[2] == (Effect::<Seq<char>, Seq<crate::message::Media>>::SetModelAlias(m.alias@)),
        fault is None ==> new_finished(fault).len() == 0,
        fault is Some ==> load_finished(m, fault).len() == 1,
        fault is Some ==> load_finished(m, fault)[0] == (Effect::<Seq<char>, Seq<crate::message::Media>>::SystemMessage(
            "❌ /load: failed to rebuild agent: "@ + fault->0,
        )),
        fault is Some ==> new_finished(fault).len() == 1,
        fault is Some ==> new_finished(fault)[0] == (Effect::<Seq<char>, Seq<crate::message::Media>>::SystemMessage(
            "❌ /new: failed to rebuild agent: "@ + fault->0,
        )),
{
}

/// The session moves whole: the background processes die, then the directory is set and
/// the banner shows it.
pub proof fn law_session_moves_whole(path: Seq<char>)
    ensures
        move_effects(path).len() == 3,
        move_effects(path)[0] is ClearBg,
        move_effects(path).contains(Effect::SetCwd(path)),
        move_effects(path).contains(Effect::UpdateWelcomeCwd(path)),
{
    let all = move_effects(path);
    assert(all.contains(all[1]));
    assert(all.contains(all[2]));
}

/// A saved directory that is gone is named in a warning; one that the session is in
/// already, and a conversation saved without one, cause nothing.
pub proof fn law_saved_directory_is_accounted_for(conv: LoadedConversation, dir: SavedDir)
    ensures
        conv.cwd@.len() == 0 ==> restore_effects(conv, dir).len() == 0,
        conv.cwd@.len() > 0 && !dir.is_dir ==> restore_effects(conv, dir).len() == 1
            && restore_effects(conv, dir)[0] == (Effect::<Seq<char>, Seq<crate::message::Media>>::SystemMessage(
            "⚠ /load: saved working directory no longer exists: "@ + conv.cwd@,
        )),
        conv.cwd@.len() > 0 && dir.is_dir && dir.is_current ==> restore_effects(conv, dir).len()
            == 0,
        conv.cwd@.len() > 0 && dir.is_dir && !dir.is_current ==> restore_effects(conv, dir)
            == move_effects(conv.cwd@),
{
}

/// The context manager is sized for the model wherever there is a session, and titles use
/// the compaction model where there is one.
pub proof fn law_context_is_sized(attached: bool, context_size: usize, has_model: bool)
    ensures
        ({
            let all = context_effects(attached, context_size, has_model);
            &&& !attached ==> all.len() == 0
            &&& attached ==> all.len() == (if has_model {
                2int
            } else {
                1int
            }) && all[0] == (Effect::<Seq<char>, Seq<crate::message::Media>>::InitContextManager { context_size })
            &&& attached && has_model ==> all[1] is InitTitleModel
        }),
{
}

/// The prompt of a plan is built from everything that the plan and its sources hold: the
/// texts, the skills, the shell, the environment, `agents.md`, the memory setting, the
/// team, its instructions and the persona.
pub proof fn law_plan_prompt_uses_every_source(plan: RebuildPlan, s: PromptSources<'_>)
    ensures
        planned_prompt(plan, s) == prompt::system_prompt(
            *s.texts,
            s.skills@,
            match s.shell_kind {
                Some(k) => Some(*k),
                None => None,
            },
            *s.env,
            match s.agents_md {
                Some(c) => Some(c@),
                None => None,
            },
            plan.memory_enabled,
            plan.team is Some,
            match plan.orchestrator_prompt {
                Some(p) => Some(p@),
                None => None,
            },
            match plan.persona {
                Some(p) => Some(p@),
                None => None,
            },
        ),
{
}

/// A saved binding is cleared with a warning that names the team exactly where no team has
/// that name.
pub proof fn law_gone_binding_is_cleared(teams: Seq<ResolvedPipeline>, selected: Option<Seq<char>>)
    ensures
        ({
            let all = gone_effects(teams, selected);
            let gone = selected is Some && forall|j: int|
                0 <= j < teams.len() ==> (#[trigger] teams[j]).name@ != selected->0;
            &&& gone ==> all.len() == 2 && all[0] == (Effect::<Seq<char>, Seq<crate::message::Media>>::BindPipeline(None)) && all[1] == (
            Effect::<Seq<char>, Seq<crate::message::Media>>::SystemMessage(
                "⚠ Pipeline '"@ + selected->0
                    + "' from this conversation is no longer configured; loaded without a pipeline."@,
            ))
            &&& !gone ==> all.len() == 0
        }),
{
    if let Some(name) = selected {
        pipeline::set::law_found_team(teams, name);
        pipeline::set::law_name_leads_to_the_first(teams, name, 0);
        if exists|j: int| 0 <= j < teams.len() && (#[trigger] teams[j]).name@ == name {
            let j = choose|j: int| 0 <= j < teams.len() && (#[trigger] teams[j]).name@ == name;
            assert(pipeline::set::team_names(teams)[j] == name);
        }
    }
}

} // verus!
