//! Which team a conversation is bound to, and what reloads do to it.

use peakbot::models::{ModelRegistry, ResolvedModel};
use peakbot::pipeline::config::{
    AgentDefinition, Config, Members, OrchestratorDefinition, PipelineDefinition, SkillFilter,
};
use peakbot::pipeline::set::{PipelineInfo, PipelineSet};
use peakbot::rebuild::plan_rebuild;
use peakbot::reload::RebuildContext;
use peakbot::selection::{
    model_locked_message, pipeline_catalogue_message, reconcile_pipeline_selection,
    render_pipeline_list, resolve_pipeline_choice, stop_message, PipelineChoice, StopTally,
};

fn model(alias: &str, name: &str) -> ResolvedModel {
    ResolvedModel {
        alias: alias.to_string(),
        provider_name: "openrouter".to_string(),
        model_name: name.to_string(),
        context_size: 128_000,
    }
}

fn two_model_registry() -> ModelRegistry {
    ModelRegistry {
        models: vec![
            model("flash", "google/gemini-2.0-flash-001"),
            model("sonnet", "anthropic/sonnet-3.7"),
        ],
        default_alias: "flash".to_string(),
    }
}

fn role(prompt: &str, alias: Option<&str>) -> AgentDefinition {
    AgentDefinition {
        model: alias.map(str::to_string),
        prompt: prompt.to_string(),
        env: None,
        skills: SkillFilter { enabled: true, disabled: vec![], only: vec![] },
        agents_md: false,
        max_tokens: None,
    }
}

fn team(name: &str, role_name: &str, alias: Option<&str>) -> PipelineDefinition {
    let mut agents = Members::new();
    agents.insert(role_name.to_string(), role("p", alias));
    PipelineDefinition {
        name: name.to_string(),
        orchestrator: OrchestratorDefinition { model: None, prompt: None, persona: None },
        agents,
    }
}

fn set_of(pipelines: Vec<PipelineDefinition>) -> PipelineSet {
    let cfg = Config { pipeline: None, pipelines };
    let known: [String; 0] = [];
    match PipelineSet::build(&cfg, &two_model_registry(), Some(&known)) {
        Ok(set) => set,
        Err(e) => panic!("set builds: {}", e.message()),
    }
}

fn context(pipelines: PipelineSet) -> RebuildContext {
    RebuildContext {
        registry: two_model_registry(),
        pipelines,
        skills: vec![],
        memory_enabled: false,
        persona: None,
    }
}

#[test]
fn model_locked_message_mentions_fixed_by_pipeline_and_name() {
    let msg = model_locked_message("web-team");
    assert!(msg.contains("fixed by pipeline"), "got: {msg:?}");
    assert!(msg.contains("web-team"), "got: {msg:?}");
}

#[test]
fn stop_message_renders_tally() {
    assert_eq!(
        stop_message(StopTally { shell: true }),
        "Agent stopped by user (killed 1 bash process)"
    );
    assert_eq!(stop_message(StopTally { shell: false }), "Agent stopped by user");
}

#[test]
fn pipeline_catalogue_message_is_silent_when_names_unchanged() {
    let a = PipelineSet::default();
    let b = PipelineSet::default();
    assert!(pipeline_catalogue_message(&a, &b).is_none());

    let set = set_of(vec![team("web-team", "r", None), team("research-crew", "r2", None)]);
    assert!(pipeline_catalogue_message(&set, &set).is_none());
}

#[test]
fn another_order_or_roster_says_nothing() {
    let set = set_of(vec![team("web-team", "r", None), team("research-crew", "r2", None)]);
    let turned = set_of(vec![team("research-crew", "r2", None), team("web-team", "r", None)]);
    assert!(pipeline_catalogue_message(&set, &turned).is_none());
    let other = set_of(vec![
        team("web-team", "critic", Some("sonnet")),
        team("research-crew", "r2", None),
    ]);
    assert!(pipeline_catalogue_message(&set, &other).is_none());
    let more = set_of(vec![team("web-team", "r", None)]);
    assert_eq!(
        pipeline_catalogue_message(&set, &more).as_deref(),
        Some("🧩 Pipelines available here: web-team — /pipeline <name> to select.")
    );
}

#[test]
fn pipeline_catalogue_message_lists_new_names() {
    let before = PipelineSet::default();
    let after = set_of(vec![team("alpha", "r", None), team("beta", "r2", None)]);
    let msg = pipeline_catalogue_message(&before, &after).expect("one line");
    assert!(msg.contains("alpha") && msg.contains("beta"), "got: {msg}");
    assert!(msg.contains("/pipeline"), "got: {msg}");
}

#[test]
fn pipeline_catalogue_message_reports_emptied_set() {
    let before = set_of(vec![team("alpha", "r", None)]);
    let after = PipelineSet::default();
    let msg = pipeline_catalogue_message(&before, &after).expect("the emptied-set line");
    assert_eq!(msg, "🧩 No pipelines configured here.");
}

#[test]
fn reconcile_drops_selection_missing_from_new_set() {
    let mut selected = Some("ghost".to_string());
    let warning = reconcile_pipeline_selection(&mut selected, &PipelineSet::default())
        .expect("missing selection must emit the canonical warning");
    assert!(warning.contains("ghost"), "got: {warning}");
    assert!(
        warning.contains("not configured") || warning.contains("continuing without a pipeline"),
        "got: {warning}"
    );
    assert_eq!(selected, None);
}

#[test]
fn reconcile_keeps_selection_present_in_new_set() {
    let mut selected = Some("web-team".to_string());
    let set = set_of(vec![team("web-team", "r", None)]);
    let result = reconcile_pipeline_selection(&mut selected, &set);
    assert!(result.is_none(), "got: {result:?}");
    assert_eq!(selected.as_deref(), Some("web-team"));
}

#[test]
fn reconcile_is_silent_with_no_selection() {
    let mut selected: Option<String> = None;
    let result = reconcile_pipeline_selection(&mut selected, &PipelineSet::default());
    assert!(result.is_none(), "got: {result:?}");
    assert_eq!(selected, None);
}

#[test]
fn dangling_selection_resolves_to_none_at_the_rebuild_seam() {
    let ctx = context(set_of(vec![team("web-team", "r", None)]));
    assert!(ctx.pipelines.get("ghost").is_none());
    let plan = plan_rebuild(&ctx, Some("ghost"), &model("sonnet", "anthropic/sonnet-3.7"));
    assert!(plan.team.is_none());
    assert_eq!(plan.resolved.alias, "sonnet");
}

#[test]
fn selection_survives_a_new_conversation_mint_at_the_rebuild_seam() {
    // Neither resetting nor creating a conversation binds it, so the selection is
    // what it was when the plan is made.
    let ctx = context(set_of(vec![team("web-team", "r", None)]));
    let plan =
        plan_rebuild(&ctx, Some("web-team"), &model("sonnet", "anthropic/sonnet-3.7"));
    assert_eq!(plan.team.as_deref(), Some("web-team"));
    assert_eq!(plan.resolved.alias, "flash");
}

#[test]
fn choices() {
    let available = vec!["web-team".to_string(), "crew".to_string()];
    assert_eq!(
        resolve_pipeline_choice(Some("crew"), true, Some("crew"), &available),
        PipelineChoice::Unchanged
    );
    assert_eq!(
        resolve_pipeline_choice(None, true, None, &available),
        PipelineChoice::Unchanged
    );
    assert_eq!(
        resolve_pipeline_choice(None, true, Some("crew"), &available),
        PipelineChoice::Refused(
            "the pipeline is locked once the conversation has started — /new for a fresh one."
                .to_string()
        )
    );
    assert_eq!(
        resolve_pipeline_choice(None, false, Some("nope"), &available),
        PipelineChoice::Refused(
            "unknown pipeline 'nope'. Available pipelines: web-team, crew".to_string()
        )
    );
    assert_eq!(
        resolve_pipeline_choice(None, false, Some("nope"), &[]),
        PipelineChoice::Refused(
            "unknown pipeline 'nope'. Available pipelines: (none configured — add a `pipelines:` block to config.yaml and restart)".to_string()
        )
    );
    assert_eq!(
        resolve_pipeline_choice(None, false, Some("crew"), &available),
        PipelineChoice::Apply(Some("crew".to_string()))
    );
    assert_eq!(
        resolve_pipeline_choice(Some("crew"), false, None, &available),
        PipelineChoice::Apply(None)
    );
}

#[test]
fn listing_of_teams() {
    assert_eq!(
        render_pipeline_list(&[], None),
        "🧩 No pipelines configured. Add a `pipelines:` block to config.yaml (or this repo's .peakbot/config.yaml) — /new picks it up."
    );
    let infos = vec![
        PipelineInfo {
            name: "web-team".to_string(),
            orchestrator_model: "flash".to_string(),
            members: vec![
                ("coder".to_string(), "sonnet".to_string()),
                ("tester".to_string(), "flash".to_string()),
            ],
        },
        PipelineInfo {
            name: "crew".to_string(),
            orchestrator_model: "sonnet".to_string(),
            members: vec![],
        },
    ];
    assert_eq!(
        render_pipeline_list(&infos, Some("web-team")),
        "Available pipelines:\n→ web-team  (orchestrator · flash) — coder · sonnet, tester · flash\n  crew  (orchestrator · sonnet) — \n\nUse /pipeline <name> to select one, /pipeline none to clear (only before the first turn)."
    );
}
