//! Reloading the configuration and rebuilding the agent.

use peakbot::effect::Effect;
use peakbot::message::Media;
use peakbot::models::{ModelRegistry, ResolvedModel};
use peakbot::pipeline::config::{
    AgentDefinition, Config, Members, OrchestratorDefinition, PipelineConfig, PipelineDefinition,
    SkillFilter,
};
use peakbot::pipeline::set::PipelineSet;
use peakbot::prompt::{Environment, PromptTexts};
use peakbot::rebuild::{
    begin_after_load, begin_after_new, begin_change_cwd, begin_select_pipeline,
    begin_switch_model, boot, check_compaction, finish_after_load, finish_after_new,
    finish_change_cwd, finish_rebuild, finish_select_pipeline, finish_switch_model, plan_prompt,
    plan_rebuild,
    record_binding, refuse_cd, refuse_select, refuse_switch, reload_base, surface, Built,
    LoadedConversation, PromptSources, SavedDir, SelectBegun, Session,
};
use peakbot::reload::{reload_session_config, BootKeys, FreshConfig, RebuildContext};

type E = Effect<String, Vec<Media>>;

fn model(alias: &str, provider: &str, name: &str) -> ResolvedModel {
    ResolvedModel {
        alias: alias.to_string(),
        provider_name: provider.to_string(),
        model_name: name.to_string(),
        context_size: 200_000,
    }
}

fn sonnet() -> ResolvedModel {
    model("sonnet", "anthropic", "sonnet-4")
}

fn local() -> ResolvedModel {
    model("local", "ollama", "llama3")
}

fn registry() -> ModelRegistry {
    ModelRegistry { models: vec![sonnet(), local()], default_alias: "sonnet".to_string() }
}

fn team(name: &str, orchestrator: Option<&str>, persona: Option<&str>) -> PipelineDefinition {
    let mut agents = Members::new();
    agents.insert(
        "r".to_string(),
        AgentDefinition {
            model: None,
            prompt: "p".to_string(),
            env: None,
            skills: SkillFilter { enabled: true, disabled: vec![], only: vec![] },
            agents_md: false,
            max_tokens: None,
        },
    );
    PipelineDefinition {
        name: name.to_string(),
        orchestrator: OrchestratorDefinition {
            model: orchestrator.map(str::to_string),
            prompt: Some("lead".to_string()),
            persona: persona.map(str::to_string),
        },
        agents,
    }
}

fn teams(pipelines: Vec<PipelineDefinition>) -> Config {
    Config { pipeline: None, pipelines }
}

fn set_of(pipelines: Vec<PipelineDefinition>) -> PipelineSet {
    match PipelineSet::build(&teams(pipelines), &registry(), None) {
        Ok(set) => set,
        Err(e) => panic!("{}", e.message()),
    }
}

fn context(pipelines: Vec<PipelineDefinition>) -> RebuildContext {
    RebuildContext {
        registry: registry(),
        pipelines: set_of(pipelines),
        skills: vec![],
        memory_enabled: false,
        persona: Some("global".to_string()),
    }
}

fn fresh(pipelines: Vec<PipelineDefinition>) -> FreshConfig {
    FreshConfig {
        registry: Ok(registry()),
        tools: Ok(()),
        timeouts: Ok(()),
        changed: BootKeys { mcp_servers: false, vector_db: false, web: false, http: false },
        skills: vec!["s".to_string()],
        skill_warnings: vec![],
        teams: teams(pipelines),
        memory_enabled: true,
        persona: Some("fresh".to_string()),
    }
}

fn session(selected: Option<&str>) -> Session {
    Session {
        selected: selected.map(str::to_string),
        has_turns: false,
        alias: "sonnet".to_string(),
        provider_name: "anthropic".to_string(),
        model: "sonnet-4".to_string(),
        cwd: "/old".to_string(),
    }
}

fn built(provider: &str) -> Built {
    Built {
        provider: provider.to_string(),
        max_tokens: 8192,
        preserve_reasoning: true,
        display_reasoning: false,
        has_events: true,
    }
}

fn say(m: &str) -> E {
    Effect::SystemMessage(m.to_string())
}

#[test]
fn model_switch_anthropic_to_ollama_closes_wire_reasoning_gate() {
    let ctx = context(vec![]);
    let on_sonnet = plan_rebuild(&ctx, None, &sonnet());
    let out = finish_rebuild(&on_sonnet, false, Ok(built("anthropic"))).unwrap().into_vec();
    assert_eq!(out[0], Effect::SetWireReasoning(true));
    let on_local = plan_rebuild(&ctx, None, &local());
    let out = finish_rebuild(&on_local, true, Ok(built("ollama"))).unwrap().into_vec();
    assert_eq!(
        out,
        vec![
            Effect::SetWireReasoning(false),
            Effect::SetDisplayReasoning(false),
            Effect::PublishAgent,
            Effect::UpdateWelcomeModel {
                provider_name: "ollama".to_string(),
                model: "llama3".to_string(),
                max_tokens: 8192,
            },
            Effect::InitContextManager { context_size: 200_000 },
            Effect::InitTitleModel,
            Effect::StopEventProcessor,
            Effect::RestartEventProcessor,
        ]
    );
}

#[test]
fn a_failed_build_is_an_error() {
    let plan = plan_rebuild(&context(vec![]), None, &local());
    assert_eq!(
        finish_rebuild(&plan, true, Err("no key".to_string())).err().as_deref(),
        Some("failed to build agent for `local`: no key")
    );
    assert_eq!(check_compaction(true, "local", Ok(())), Ok(true));
    assert_eq!(check_compaction(false, "local", Err("x".to_string())), Ok(false));
    assert_eq!(
        check_compaction(true, "local", Err("x".to_string())),
        Err("compaction model unavailable for `local`: x — set context.enabled=false to switch without compaction".to_string())
    );
}

#[test]
fn booting() {
    assert_eq!(
        boot(true, true, true, 7).unwrap().into_vec(),
        vec![Effect::InitContextManager { context_size: 7 }, Effect::InitTitleModel]
    );
    assert_eq!(boot(false, false, true, 7).unwrap().len(), 1);
    assert_eq!(boot(false, false, false, 7).unwrap().len(), 0);
    assert!(boot(true, false, true, 7)
        .err()
        .unwrap()
        .starts_with("Failed to construct compaction model for the active provider."));
}

#[test]
fn the_selected_team_owns_the_model_and_may_own_the_persona() {
    let ctx = context(vec![team("a", Some("local"), Some("mine")), team("b", None, None)]);
    let plan = plan_rebuild(&ctx, Some("a"), &sonnet());
    assert_eq!(plan.resolved, local());
    assert_eq!(plan.requested, sonnet());
    assert_eq!(plan.persona.as_deref(), Some("mine"));
    assert_eq!(plan.orchestrator_prompt.as_deref(), Some("lead"));
    let plan = plan_rebuild(&ctx, Some("b"), &local());
    assert_eq!(plan.resolved, sonnet());
    assert_eq!(plan.persona.as_deref(), Some("global"));
}

#[test]
fn a_reload_that_fails_changes_nothing() {
    let mut ctx = context(vec![team("a", None, None)]);
    let r = reload_session_config(&mut ctx, Err("bad yaml".to_string()));
    assert_eq!(
        r.warnings,
        vec!["⚠ config reload failed: bad yaml — keeping previous config.".to_string()]
    );
    assert!(!r.adopted);
    let mut broken = fresh(vec![]);
    broken.registry = Err("no default".to_string());
    let r = reload_session_config(&mut ctx, Ok(broken));
    assert_eq!(
        r.warnings[0],
        "⚠ config reload: model registry invalid (no default) — keeping previous config."
    );
    let mut broken = fresh(vec![]);
    broken.tools = Err("both lists".to_string());
    broken.timeouts = Err("zero".to_string());
    let r = reload_session_config(&mut ctx, Ok(broken));
    assert_eq!(r.warnings, vec!["⚠ config reload: both lists — keeping previous config.".to_string()]);
    let mut broken = fresh(vec![]);
    broken.timeouts = Err("zero".to_string());
    let r = reload_session_config(&mut ctx, Ok(broken));
    assert_eq!(r.warnings, vec!["⚠ config reload: zero — keeping previous config.".to_string()]);
    assert_eq!(ctx, context(vec![team("a", None, None)]));
}

#[test]
fn a_reload_adopts_and_warns_in_order() {
    let mut ctx = context(vec![team("a", None, None)]);
    let mut read = fresh(vec![team("b", None, None)]);
    read.changed = BootKeys { mcp_servers: true, vector_db: false, web: true, http: true };
    read.skill_warnings = vec!["skill x is broken".to_string()];
    let r = reload_session_config(&mut ctx, Ok(read));
    assert_eq!(
        r.warnings,
        vec![
            "⚠ mcp_servers change ignored — restart to apply.".to_string(),
            "⚠ web change ignored — restart to apply.".to_string(),
            "⚠ http change ignored — restart to apply.".to_string(),
            "skill x is broken".to_string(),
            "🧩 Pipelines available here: b — /pipeline <name> to select.".to_string(),
        ]
    );
    assert!(r.adopted);
    assert_eq!(r.catalogue.unwrap()[0].name, "b");
    assert!(ctx.memory_enabled);
    assert_eq!(ctx.persona.as_deref(), Some("fresh"));
    assert_eq!(ctx.skills, vec!["s".to_string()]);
}

#[test]
fn invalid_teams_keep_the_previous_ones() {
    let mut ctx = context(vec![team("a", None, None)]);
    let mut read = fresh(vec![]);
    read.teams.pipeline = Some(PipelineConfig::default());
    let r = reload_session_config(&mut ctx, Ok(read));
    assert!(r.adopted);
    assert!(r.catalogue.is_none());
    assert_eq!(r.warnings.len(), 1);
    assert!(r.warnings[0].starts_with("⚠ config reload: pipelines invalid ("));
    assert!(r.warnings[0].ends_with(") — keeping the previous pipelines."));
    assert!(ctx.pipelines.get("a").is_some());
    assert!(ctx.memory_enabled);
}

#[test]
fn switching_models() {
    assert!(refuse_switch(false, true).unwrap().starts_with("model registry not configured"));
    assert_eq!(refuse_switch(true, false).as_deref(), Some("state manager required for /model"));
    assert_eq!(refuse_switch(true, true), None);

    let mut ctx = context(vec![team("a", None, None)]);
    let b = begin_switch_model(&mut ctx, &session(Some("a")), "local", Ok(fresh(vec![])));
    assert!(b.reloaded.is_none());
    assert!(b.outcome.err().unwrap().contains("fixed by pipeline 'a'"));
    assert_eq!(ctx, context(vec![team("a", None, None)]));

    let b = begin_switch_model(&mut ctx, &session(None), "nope", Ok(fresh(vec![])));
    assert_eq!(
        b.outcome.err().as_deref(),
        Some("unknown alias `nope`. Available: local, sonnet")
    );
    assert!(b.reloaded.unwrap().adopted);

    let b = begin_switch_model(&mut ctx, &session(None), "local", Ok(fresh(vec![])));
    let (out, plan) = b.outcome.unwrap();
    assert_eq!(out.len(), 0);
    assert_eq!(plan.resolved, local());
    assert_eq!(
        finish_switch_model(&plan.requested, "/old").into_vec(),
        vec![
            Effect::ResetConversation,
            Effect::CreateConversation {
                provider_name: "ollama".to_string(),
                model: "llama3".to_string(),
                cwd: "/old".to_string(),
            },
            Effect::SetModel("llama3".to_string()),
            Effect::SetProviderName("ollama".to_string()),
            Effect::SetModelAlias("local".to_string()),
            say("🔁 New conversation on local (ollama · llama3)"),
        ]
    );
}

#[test]
fn warnings_are_shown_and_a_gone_team_dropped() {
    let out = surface(
        Some("ghost".to_string()),
        &PipelineSet::default(),
        vec!["w".to_string()],
    )
    .into_vec();
    assert_eq!(
        out,
        vec![
            Effect::BindPipeline(None),
            say("w"),
            say("⚠ Pipeline 'ghost' is not configured here — continuing without a pipeline."),
        ]
    );
    assert_eq!(surface(None, &PipelineSet::default(), vec![]).len(), 0);
}

#[test]
fn binding_a_team() {
    assert_eq!(refuse_select(true, true), None);
    assert!(refuse_select(false, true).unwrap().starts_with("model registry not configured"));
    assert_eq!(refuse_select(true, false).as_deref(), Some("state manager required"));

    let mut ctx = context(vec![team("a", Some("local"), None)]);
    assert_eq!(begin_select_pipeline(&ctx, &session(None), None), SelectBegun::Unchanged);
    let mut busy = session(None);
    busy.has_turns = true;
    assert!(matches!(
        begin_select_pipeline(&ctx, &busy, Some("a")),
        SelectBegun::Refused(m) if m.contains("locked")
    ));
    match begin_select_pipeline(&ctx, &session(None), Some("a")) {
        SelectBegun::Rebuild { target, previous, plan } => {
            assert_eq!(target.as_deref(), Some("a"));
            assert_eq!(previous, None);
            assert_eq!(plan.resolved, local());
        }
        other => panic!("got {other:?}"),
    }
    match begin_select_pipeline(&ctx, &session(Some("a")), None) {
        SelectBegun::Rebuild { plan, .. } => assert_eq!(plan.resolved, sonnet()),
        other => panic!("got {other:?}"),
    }
    ctx.registry.default_alias = "gone".to_string();
    assert_eq!(
        begin_select_pipeline(&ctx, &session(Some("a")), None),
        SelectBegun::Refused("no default model configured".to_string())
    );
}

#[test]
fn a_binding_is_announced_or_taken_back() {
    assert_eq!(
        record_binding(Some("a")).into_vec(),
        vec![Effect::BindPipeline(Some("a".to_string()))]
    );
    assert_eq!(
        finish_select_pipeline(Some("a"), Some("b"), &local(), false).into_vec(),
        vec![Effect::BindPipeline(Some("b".to_string()))]
    );
    let out = finish_select_pipeline(Some("a"), None, &local(), true).into_vec();
    assert_eq!(
        out[3],
        Effect::SetConversationWireId {
            provider_name: "ollama".to_string(),
            model: "llama3".to_string()
        }
    );
    assert_eq!(
        out[4],
        say("🧩 Pipeline 'a' selected — orchestrator on local. Your messages always go to the orchestrator, which decides what to delegate.")
    );
    let out = finish_select_pipeline(None, Some("a"), &sonnet(), true).into_vec();
    assert_eq!(out[4], say("🧩 Pipeline cleared — single agent on sonnet."));
}

#[test]
fn changing_the_directory() {
    assert!(refuse_cd(false, true, true, "/n").unwrap().contains("enable /cd"));
    assert_eq!(refuse_cd(true, false, false, "/n").as_deref(), Some("not a directory: /n"));
    assert_eq!(
        refuse_cd(true, true, false, "/n").as_deref(),
        Some("state manager required for /cd")
    );
    assert_eq!(refuse_cd(true, true, true, "/n"), None);

    let mut ctx = context(vec![]);
    let b = begin_change_cwd(&mut ctx, &session(None), "/n", Ok(fresh(vec![])));
    let (out, plan) = b.outcome.unwrap();
    assert_eq!(
        out.into_vec(),
        vec![
            Effect::ClearBg,
            Effect::SetCwd("/n".to_string()),
            Effect::UpdateWelcomeCwd("/n".to_string()),
        ]
    );
    assert_eq!(plan.resolved, sonnet());
    let out = finish_change_cwd(&plan.requested, "/n").into_vec();
    assert_eq!(out.last(), Some(&say("📁 New conversation in /n")));

    let mut renamed = session(None);
    renamed.alias = "old-alias".to_string();
    let b = begin_change_cwd(&mut ctx, &renamed, "/n", Ok(fresh(vec![])));
    assert_eq!(b.outcome.unwrap().1.resolved, sonnet());
    renamed.model = "old-model".to_string();
    let b = begin_change_cwd(&mut ctx, &renamed, "/n", Ok(fresh(vec![])));
    assert_eq!(b.outcome.err().as_deref(), Some("current model not found in registry"));
}

fn loaded(provider: &str, name: &str, cwd: &str) -> LoadedConversation {
    LoadedConversation {
        provider_name: provider.to_string(),
        model: name.to_string(),
        cwd: cwd.to_string(),
    }
}

const HERE: SavedDir = SavedDir { is_dir: true, is_current: true };
const THERE: SavedDir = SavedDir { is_dir: true, is_current: false };
const GONE: SavedDir = SavedDir { is_dir: false, is_current: false };

#[test]
fn loading_the_same_conversation_keeps_the_agent() {
    let mut ctx = context(vec![]);
    let conv = loaded("anthropic", "sonnet-4", "/old");
    let b = begin_after_load(&mut ctx, &session(None), &conv, HERE, None, Ok(fresh(vec![])));
    assert!(b.plan.is_none());
    assert_eq!(b.effects.len(), 0);
}

#[test]
fn loading_another_model_or_directory_rebuilds() {
    let mut ctx = context(vec![]);
    let conv = loaded("ollama", "llama3", "/old");
    let b = begin_after_load(&mut ctx, &session(None), &conv, HERE, None, Ok(fresh(vec![])));
    let plan = b.plan.unwrap();
    assert_eq!(plan.resolved, local());
    assert_eq!(
        finish_after_load(&plan.requested, None).into_vec(),
        vec![
            Effect::SetProviderName("ollama".to_string()),
            Effect::SetModel("llama3".to_string()),
            Effect::SetModelAlias("local".to_string()),
        ]
    );
    assert_eq!(
        finish_after_load(&plan.requested, Some("e")).into_vec(),
        vec![say("❌ /load: failed to rebuild agent: e")]
    );

    let conv = loaded("anthropic", "sonnet-4", "/new");
    assert_eq!(reload_base(&conv, THERE, &session(None)), "/new");
    assert_eq!(reload_base(&conv, GONE, &session(None)), "/old");
    let b = begin_after_load(&mut ctx, &session(None), &conv, THERE, None, Ok(fresh(vec![])));
    assert!(b.plan.is_some());
    assert_eq!(b.effects.into_vec()[1], Effect::SetCwd("/new".to_string()));

    let b = begin_after_load(&mut ctx, &session(None), &conv, GONE, None, Ok(fresh(vec![])));
    assert!(b.plan.is_none());
    assert_eq!(
        b.effects.into_vec(),
        vec![say("⚠ /load: saved working directory no longer exists: /new")]
    );
}

#[test]
fn loading_another_team_rebuilds_and_a_gone_team_is_dropped() {
    let mut ctx = context(vec![team("a", Some("local"), None)]);
    let conv = loaded("anthropic", "sonnet-4", "");
    let read = || Ok(fresh(vec![team("a", Some("local"), None)]));
    let b = begin_after_load(&mut ctx, &session(Some("a")), &conv, GONE, None, read());
    assert_eq!(b.plan.unwrap().resolved, local());
    let b = begin_after_load(&mut ctx, &session(Some("a")), &conv, GONE, Some("a"), read());
    assert!(b.plan.is_none());
    let b = begin_after_load(&mut ctx, &session(Some("x")), &conv, GONE, Some("x"), read());
    assert_eq!(
        b.effects.into_vec(),
        vec![
            Effect::BindPipeline(None),
            say("⚠ Pipeline 'x' from this conversation is no longer configured; loaded without a pipeline."),
        ]
    );
    assert_eq!(b.plan.unwrap().resolved, sonnet());
}

#[test]
fn a_new_conversation_refreshes_the_agent() {
    let mut ctx = context(vec![team("a", Some("local"), None)]);
    let b = begin_after_new(&mut ctx, &session(Some("a")), Ok(fresh(vec![])));
    assert_eq!(
        b.effects.into_vec(),
        vec![
            Effect::BindPipeline(None),
            say("🧩 No pipelines configured here."),
            say("⚠ Pipeline 'a' is not configured here — continuing without a pipeline."),
        ]
    );
    let plan = b.plan.unwrap();
    assert_eq!(plan.resolved, sonnet());
    assert!(plan.team.is_none());
    let mut gone = session(None);
    gone.alias = "x".to_string();
    gone.model = "y".to_string();
    assert!(begin_after_new(&mut ctx, &gone, Ok(fresh(vec![]))).plan.is_none());
    assert_eq!(finish_after_new(None).len(), 0);
    assert_eq!(
        finish_after_new(Some("e")).into_vec(),
        vec![say("❌ /new: failed to rebuild agent: e")]
    );
}

#[test]
fn the_prompt_tracks_the_selection() {
    let ctx = context(vec![team("a", None, Some("team persona")), team("b", None, None)]);
    let texts = PromptTexts {
        persona: "built-in".to_string(),
        core: "[core]".to_string(),
        memory: "[memory]".to_string(),
    };
    let env = Environment {
        cwd: "/old".to_string(),
        current_time: "now".to_string(),
        version: "1".to_string(),
        os: "linux".to_string(),
        binary_path: "/bin/peakbot".to_string(),
    };
    let sources = PromptSources {
        texts: &texts,
        skills: "[skills]",
        shell_kind: None,
        env: &env,
        agents_md: None,
    };
    let alone = plan_prompt(&plan_rebuild(&ctx, None, &local()), &sources);
    assert!(alone.starts_with("global\n[core][skills]"), "got: {alone}");
    assert!(!alone.contains("# Orchestrator Instructions"));
    let lead = plan_prompt(&plan_rebuild(&ctx, Some("a"), &local()), &sources);
    assert!(lead.starts_with("team persona\n[core]"), "got: {lead}");
    assert!(lead.ends_with("\n# Orchestrator Instructions\n\nlead\n"), "got: {lead}");
    let other = plan_prompt(&plan_rebuild(&ctx, Some("b"), &local()), &sources);
    assert!(other.starts_with("global\n[core]"), "got: {other}");
    let mut remembering = plan_rebuild(&ctx, None, &local());
    remembering.memory_enabled = true;
    assert!(plan_prompt(&remembering, &sources).starts_with("global\n[core][memory][skills]"));
}
