//! Teams: how they are configured, resolved and listed.

use peakbot::models::{ModelRegistry, ResolvedModel};
use peakbot::pipeline::config::{
    AgentDefinition, Config, Members, OrchestratorDefinition, PipelineConfig, PipelineDefinition,
    PipelineValidationError, SkillFilter,
};
use peakbot::pipeline::registry::{SubAgentError, SubAgentRegistry};
use peakbot::pipeline::set::{
    is_valid_pipeline_name, PipelineInfo, PipelineSet, PipelineSetError,
};
use peakbot::table::TextMap;

fn model(alias: &str, name: &str) -> ResolvedModel {
    ResolvedModel {
        alias: alias.to_string(),
        provider_name: "openrouter".to_string(),
        model_name: name.to_string(),
        context_size: 128_000,
    }
}

/// Two models: `flash`, the default, and `sonnet`.
fn two_model_registry() -> ModelRegistry {
    ModelRegistry {
        models: vec![
            model("flash", "google/gemini-2.0-flash-001"),
            model("sonnet", "anthropic/sonnet-3.7"),
        ],
        default_alias: "flash".to_string(),
    }
}

fn all_skills() -> SkillFilter {
    SkillFilter { enabled: true, disabled: vec![], only: vec![] }
}

fn role(model: Option<&str>, prompt: &str) -> AgentDefinition {
    AgentDefinition {
        model: model.map(str::to_string),
        prompt: prompt.to_string(),
        env: None,
        skills: all_skills(),
        agents_md: false,
        max_tokens: None,
    }
}

fn members(agents: Vec<(&str, AgentDefinition)>) -> Members {
    let mut m = Members::new();
    for (n, d) in agents {
        m.insert(n.to_string(), d);
    }
    m
}

fn pipeline_with(agents: Vec<(&str, AgentDefinition)>) -> PipelineConfig {
    PipelineConfig { enabled: true, agents: members(agents) }
}

fn plain_lead() -> OrchestratorDefinition {
    OrchestratorDefinition { model: None, prompt: None, persona: None }
}

fn team(name: &str, agents: Vec<(&str, AgentDefinition)>) -> PipelineDefinition {
    PipelineDefinition {
        name: name.to_string(),
        orchestrator: plain_lead(),
        agents: members(agents),
    }
}

fn teams(pipelines: Vec<PipelineDefinition>) -> Config {
    Config { pipeline: None, pipelines }
}

fn build(cfg: &Config) -> Result<PipelineSet, PipelineSetError> {
    PipelineSet::build(cfg, &two_model_registry(), None)
}

fn refused(cfg: &Config) -> String {
    build(cfg).expect_err("the teams must be refused").message()
}

// --- the configuration of a single team ---

#[test]
fn test_pipeline_config_defaults() {
    let config = PipelineConfig::default();
    assert!(!config.enabled);
    assert!(config.agents.is_empty());
    assert!(!config.has_agents());
}

#[test]
fn test_pipeline_config_parsing() {
    let config = pipeline_with(vec![
        ("researcher", role(Some("gemini-flash"), "You research topics")),
        ("coder", role(Some("sonnet"), "You write code")),
    ]);
    assert!(config.enabled);
    assert!(config.has_agents());
    assert_eq!(config.agents.len(), 2);
    assert_eq!(config.agent_names(), vec!["researcher", "coder"]);
    assert_eq!(
        config.get_agent("coder").map(|a| a.prompt.as_str()),
        Some("You write code")
    );
    assert!(config.get_agent("nobody").is_none());
    assert_eq!(config.validate(), Ok(()));
}

#[test]
fn test_validate_empty_name() {
    let config = pipeline_with(vec![("", role(None, "Test"))]);
    assert!(config.validate().is_err());
    let e = config.validate().unwrap_err();
    assert_eq!(e, PipelineValidationError::EmptyAgentName);
    assert_eq!(e.message(), "Agent name cannot be empty");
}

#[test]
fn test_validate_empty_prompt() {
    let config = pipeline_with(vec![("test", role(None, ""))]);
    assert!(config.validate().is_err());
    assert_eq!(config.validate().unwrap_err().message(), "Agent 'test' has an empty prompt");
}

#[test]
fn skill_filters_are_checked() {
    let known = vec!["github".to_string()];
    let both = SkillFilter {
        enabled: true,
        disabled: vec!["github".to_string()],
        only: vec!["github".to_string()],
    };
    assert_eq!(
        both.validate("r", &known).unwrap_err(),
        "Role 'r': set either 'disabled' or 'only' under 'skills:', not both"
    );
    let typo = SkillFilter {
        enabled: true,
        disabled: vec!["github".to_string(), "gihub".to_string()],
        only: vec![],
    };
    assert_eq!(
        typo.validate("r", &known).unwrap_err(),
        "Role 'r': unknown skill 'gihub' under 'skills:'"
    );
    assert_eq!(all_skills().validate("r", &known), Ok(()));
}

// --- the roles of a team ---

#[test]
fn role_model_resolves_against_registry_alias() {
    let cfg = pipeline_with(vec![("critic", role(Some("sonnet"), "review"))]);
    let reg = SubAgentRegistry::new(&cfg, &two_model_registry(), &[]).expect("registry builds");
    let resolved = &reg.role("critic").expect("role resolved").model;
    assert_eq!(resolved.alias, "sonnet");
    assert_eq!(resolved.model_name, "anthropic/sonnet-3.7");
}

#[test]
fn role_without_model_falls_back_to_default_alias() {
    let cfg = pipeline_with(vec![("researcher", role(None, "research"))]);
    let reg = SubAgentRegistry::new(&cfg, &two_model_registry(), &[]).expect("registry builds");
    let resolved = &reg.role("researcher").expect("role resolved").model;
    assert_eq!(resolved.alias, "flash", "default_model is `flash`");
}

#[test]
fn unknown_role_alias_is_rejected_at_construction() {
    let cfg = pipeline_with(vec![("ghost", role(Some("does-not-exist"), "x"))]);
    let err = SubAgentRegistry::new(&cfg, &two_model_registry(), &[])
        .expect_err("unknown alias must fail construction");
    match err {
        SubAgentError::UnknownModel { role, alias, available } => {
            assert_eq!(role, "ghost");
            assert_eq!(alias, "does-not-exist");
            assert_eq!(available, "flash, sonnet");
        }
        other => panic!("expected UnknownModel, got {other:?}"),
    }
}

#[test]
fn empty_prompt_is_rejected() {
    let cfg = pipeline_with(vec![("blank", role(Some("flash"), ""))]);
    let err = SubAgentRegistry::new(&cfg, &two_model_registry(), &[])
        .expect_err("empty prompt must fail");
    assert!(matches!(err, SubAgentError::EmptyPrompt(name) if name == "blank"));
}

#[test]
fn empty_role_name_is_rejected() {
    let cfg = pipeline_with(vec![("", role(Some("flash"), "prompt"))]);
    let err = SubAgentRegistry::new(&cfg, &two_model_registry(), &[])
        .expect_err("empty name must fail");
    assert!(matches!(err, SubAgentError::EmptyRoleName));
}

#[test]
fn unknown_skill_name_is_rejected() {
    let mut def = role(Some("flash"), "research");
    def.skills =
        SkillFilter { enabled: true, disabled: vec![], only: vec!["ghost-skill".to_string()] };
    let cfg = pipeline_with(vec![("researcher", def)]);
    let err = SubAgentRegistry::new(&cfg, &two_model_registry(), &["github".to_string()])
        .expect_err("unknown skill must fail construction");
    assert!(matches!(err, SubAgentError::BadSkillFilter(_)));
}

#[test]
fn role_skill_filter_is_stored() {
    let mut def = role(Some("flash"), "research");
    def.skills = SkillFilter { enabled: true, disabled: vec![], only: vec!["github".to_string()] };
    let cfg = pipeline_with(vec![("researcher", def)]);
    let reg = SubAgentRegistry::new(&cfg, &two_model_registry(), &["github".to_string()])
        .expect("registry builds");
    assert_eq!(
        reg.role("researcher").map(|r| r.skills.only.clone()),
        Some(vec!["github".to_string()]),
    );
}

#[test]
fn role_env_is_stored_through_construction() {
    let mut def = role(Some("flash"), "research");
    let mut vars = TextMap::new();
    vars.insert("REVIEW_STRICT".to_string(), "1".to_string());
    def.env = Some(vars);
    let cfg = pipeline_with(vec![("researcher", def)]);
    let reg = SubAgentRegistry::new(&cfg, &two_model_registry(), &[]).expect("registry builds");
    assert_eq!(
        reg.role("researcher")
            .and_then(|r| r.env.as_ref())
            .and_then(|e| e.get("REVIEW_STRICT"))
            .map(String::as_str),
        Some("1"),
    );
}

#[test]
fn roles_are_listed_as_declared_and_offered_sorted() {
    let cfg = pipeline_with(vec![
        ("tester", role(Some("sonnet"), "t")),
        ("coder", role(None, "c")),
    ]);
    let reg = SubAgentRegistry::new(&cfg, &two_model_registry(), &[]).expect("registry builds");
    assert!(reg.has_agent("coder"));
    assert!(!reg.has_agent("Coder"));
    assert_eq!(reg.list_agents(), vec!["tester", "coder"]);
    assert_eq!(reg.available_roles(), vec!["coder", "tester"]);
    assert_eq!(
        reg.role_model_aliases(),
        vec![
            ("tester".to_string(), "sonnet".to_string()),
            ("coder".to_string(), "flash".to_string()),
        ]
    );
}

// --- the teams of a configuration ---

#[test]
fn legacy_pipeline_block_enabled_is_hard_error_with_migration_hint() {
    let cfg = Config {
        pipeline: Some(pipeline_with(vec![("researcher", role(None, "research"))])),
        pipelines: vec![],
    };
    let msg = refused(&cfg);
    assert!(
        msg.contains("pipelines:") || msg.contains("migrate") || msg.contains("migration"),
        "got: {msg}"
    );
}

#[test]
fn legacy_pipeline_block_disabled_is_hard_error_per_amendment_5() {
    let cfg = Config { pipeline: Some(PipelineConfig::default()), pipelines: vec![] };
    let msg = refused(&cfg);
    assert!(
        msg.contains("pipelines:") || msg.contains("migrate") || msg.contains("migration"),
        "got: {msg}"
    );
}

#[test]
fn both_pipeline_shapes_is_a_hard_error() {
    let cfg = Config {
        pipeline: Some(pipeline_with(vec![("researcher", role(None, "p"))])),
        pipelines: vec![team("web-team", vec![("r", role(None, "p"))])],
    };
    let msg = refused(&cfg);
    assert!(
        msg.contains("not both")
            && (msg.contains("legacy") || msg.contains("'pipeline:'"))
            && msg.contains("'pipelines:'"),
        "got: {msg}"
    );
}

#[test]
fn empty_pipeline_name_is_rejected() {
    let msg = refused(&teams(vec![team("", vec![("r", role(None, "p"))])]));
    assert!(msg.contains("empty name"), "got: {msg}");
    assert_eq!(msg, "pipeline config: pipelines[0] has an empty name.");
}

#[test]
fn pipeline_name_with_space_passes_charset_check() {
    let cfg = teams(vec![team("web team", vec![("r", role(None, "p"))])]);
    let set = PipelineSet::build(&cfg, &two_model_registry(), Some(&[]))
        .expect("name with space must build");
    assert_eq!(
        set.iter().map(|p| p.name.as_str()).collect::<Vec<_>>(),
        vec!["web team"]
    );
}

#[test]
fn pipeline_name_whitespace_only_is_rejected_as_empty() {
    let msg = refused(&teams(vec![team("   ", vec![("r", role(None, "p"))])]));
    assert!(msg.contains("empty name"), "got: {msg}");
}

#[test]
fn pipeline_name_with_control_char_is_rejected() {
    let msg = refused(&teams(vec![team("web\tteam", vec![("r", role(None, "p"))])]));
    assert!(msg.contains("web\tteam") && msg.contains("^[A-Za-z0-9_ .-]+$"), "got: {msg}");
}

#[test]
fn pipeline_name_none_is_reserved() {
    let msg = refused(&teams(vec![team("none", vec![("r", role(None, "p"))])]));
    assert!(msg.contains("'none'") && msg.contains("reserved"), "got: {msg}");
}

#[test]
fn duplicate_pipeline_names_are_rejected() {
    let cfg = teams(vec![
        team("web-team", vec![("r", role(None, "p"))]),
        team("web-team", vec![("r2", role(None, "p"))]),
    ]);
    let msg = refused(&cfg);
    assert!(msg.contains("duplicate") && msg.contains("web-team"), "got: {msg}");
    assert_eq!(
        build(&cfg).unwrap_err(),
        PipelineSetError::DuplicateName { name: "web-team".to_string(), first: 0, second: 1 }
    );
}

#[test]
fn empty_agents_map_in_new_shape_is_rejected() {
    let msg = refused(&teams(vec![team("web-team", vec![])]));
    assert!(msg.contains("web-team") && msg.contains("at least one"), "got: {msg}");
}

#[test]
fn member_named_orchestrator_is_rejected_as_reserved() {
    let msg = refused(&teams(vec![team("web-team", vec![("orchestrator", role(None, "p"))])]));
    assert!(msg.contains("'orchestrator'") && msg.contains("reserved"), "got: {msg}");
}

#[test]
fn unknown_orchestrator_alias_is_rejected_naming_available() {
    let mut t = team("web-team", vec![("r", role(None, "p"))]);
    t.orchestrator.model = Some("does-not-exist".to_string());
    let msg = refused(&teams(vec![t]));
    assert!(msg.contains("web-team"), "got: {msg}");
    assert!(msg.contains("does-not-exist"), "got: {msg}");
    assert!(
        msg.contains("Available:") && msg.contains("flash") && msg.contains("sonnet"),
        "got: {msg}"
    );
}

#[test]
fn unknown_member_alias_is_wrapped_with_pipeline_name_prefix() {
    let cfg =
        teams(vec![team("web-team", vec![("ghost", role(Some("does-not-exist"), "p"))])]);
    let msg = refused(&cfg);
    assert!(msg.contains("pipeline 'web-team':"), "got: {msg}");
    assert!(msg.contains("ghost") && msg.contains("does-not-exist"), "got: {msg}");
}

#[test]
fn happy_path_two_pipelines_default_model_fallback() {
    let web = PipelineDefinition {
        name: "web-team".to_string(),
        orchestrator: OrchestratorDefinition {
            model: Some("sonnet".to_string()),
            prompt: Some("You lead the web team.".to_string()),
            persona: Some("focused orchestrator persona".to_string()),
        },
        agents: members(vec![
            ("writer", role(Some("flash"), "review")),
            ("tester", role(None, "test")),
        ]),
    };
    let cfg = teams(vec![web, team("research-crew", vec![("critic", role(None, "critique"))])]);
    let set = PipelineSet::build(&cfg, &two_model_registry(), Some(&[]))
        .expect("two-pipeline set must build cleanly");

    assert!(!set.is_empty());
    let names: Vec<&str> = set.iter().map(|p| p.name.as_str()).collect();
    assert_eq!(names, vec!["web-team", "research-crew"]);

    let web = set.get("web-team").expect("web-team must resolve");
    assert_eq!(web.name, "web-team");
    assert!(set.get("nope").is_none(), "an unknown name must return None, not panic");

    assert_eq!(web.orchestrator.alias, "sonnet");
    assert_eq!(web.orchestrator_prompt.as_deref(), Some("You lead the web team."));
    assert_eq!(web.orchestrator_persona.as_deref(), Some("focused orchestrator persona"));
    let live = web.registry.list_agents();
    assert_eq!(live.len(), 2);
    assert!(live.contains(&"writer".to_string()));
    assert!(live.contains(&"tester".to_string()));

    let research = set.get("research-crew").expect("research-crew must resolve");
    assert_eq!(research.orchestrator.alias, "flash");
    assert!(research.orchestrator_prompt.is_none());
    assert!(research.orchestrator_persona.is_none());

    let joined = set.names_joined();
    assert!(joined.contains("web-team") && joined.contains("research-crew"));
    assert!(!joined.starts_with([',', ' ', '|']));
    assert!(!joined.ends_with([',', ' ', '|']));
    assert_eq!(joined, "web-team, research-crew");

    let infos = set.infos();
    assert_eq!(infos.len(), 2);
    let web_info = infos.iter().find(|i| i.name == "web-team").expect("web-team info");
    assert_eq!(web_info.orchestrator_model, "sonnet");
    let mut sorted = web_info.members.clone();
    sorted.sort_by(|a, b| a.0.cmp(&b.0));
    assert_eq!(web_info.members, sorted, "PipelineInfo.members must be sorted");
    assert!(web_info.members.iter().any(|(r, _)| r == "writer"));
    assert!(web_info.members.iter().any(|(r, _)| r == "tester"));

    let research_info =
        infos.iter().find(|i| i.name == "research-crew").expect("research-crew info");
    assert_eq!(research_info.orchestrator_model, "flash");
    assert_eq!(research_info.members.len(), 1);
    assert_eq!(research_info.members[0].0, "critic");
}

fn one_team() -> PipelineSet {
    let cfg = teams(vec![team("web-team", vec![("r", role(None, "p"))])]);
    PipelineSet::build(&cfg, &two_model_registry(), Some(&[])).expect("build ok")
}

#[test]
fn resolve_saved_returns_pipeline_for_existing_name() {
    let set = one_team();
    let (resolved, warning) = set.resolve_saved(Some("web-team"));
    assert!(resolved.is_some(), "existing name must resolve");
    assert_eq!(resolved.unwrap().name, "web-team");
    assert!(warning.is_none(), "got: {warning:?}");
}

#[test]
fn resolve_saved_returns_none_and_warning_for_missing_name() {
    let set = one_team();
    let (resolved, warning) = set.resolve_saved(Some("ghost"));
    assert!(resolved.is_none(), "missing name must resolve to None");
    assert!(warning.is_some(), "missing name must emit a warning");
    let w = warning.unwrap();
    assert!(w.contains("ghost"), "warning must name the missing pipeline; got: {w}");
}

#[test]
fn resolve_saved_returns_none_tuple_for_none_input() {
    let set = one_team();
    let (resolved, warning) = set.resolve_saved(None);
    assert!(resolved.is_none(), "no selection, no pipeline");
    assert!(warning.is_none(), "got: {warning:?}");
}

#[test]
fn without_teams_there_is_an_empty_set() {
    let set = build(&teams(vec![])).expect("no teams is fine");
    assert!(set.is_empty());
    assert_eq!(set.len(), 0);
    assert_eq!(set, PipelineSet::default());
    assert_eq!(set.names_joined(), "");
    assert_eq!(set.infos(), Vec::<PipelineInfo>::new());
}

#[test]
fn names_are_trimmed_before_they_are_compared() {
    let cfg = teams(vec![
        team(" web ", vec![("r", role(None, "p"))]),
        team("web", vec![("r", role(None, "p"))]),
    ]);
    assert_eq!(
        build(&cfg).unwrap_err().message(),
        "pipeline config: duplicate pipeline name 'web' (pipelines[0] and pipelines[1])."
    );
}

#[test]
fn skills_are_checked_only_against_a_list() {
    let mut def = role(None, "p");
    def.skills = SkillFilter { enabled: true, disabled: vec![], only: vec!["typo".to_string()] };
    let cfg = teams(vec![team("web", vec![("r", def)])]);
    assert!(PipelineSet::build(&cfg, &two_model_registry(), None).is_ok());
    let err = PipelineSet::build(&cfg, &two_model_registry(), Some(&[])).unwrap_err();
    assert_eq!(
        err.message(),
        "pipeline 'web': Role 'r': unknown skill 'typo' under 'skills:'"
    );
}

#[test]
fn every_set_error_has_its_words() {
    assert_eq!(
        PipelineSetError::ReservedName("none".to_string()).message(),
        "pipeline config: name 'none' is a reserved pipeline name — it means \"no pipeline\"."
    );
    assert_eq!(
        PipelineSetError::InvalidName { name: "a/b".to_string(), index: 2 }.message(),
        "pipeline config: name 'a/b' must match ^[A-Za-z0-9_ .-]+$ (no control characters)."
    );
    assert_eq!(
        PipelineSetError::EmptyAgents("t".to_string()).message(),
        "pipeline 't': needs at least one sub-agent under 'agents:'."
    );
    assert_eq!(
        PipelineSetError::SubAgent {
            pipeline: "t".to_string(),
            source: SubAgentError::EmptyRoleName,
        }
        .message(),
        "pipeline 't': Role name cannot be empty"
    );
}

#[test]
fn names_of_teams() {
    assert!(is_valid_pipeline_name("Generic Dev Team 1.0_x-y"));
    assert!(!is_valid_pipeline_name(""));
    assert!(!is_valid_pipeline_name("a/b"));
    assert!(!is_valid_pipeline_name("é"));
}

#[test]
fn every_role_is_listed_once() {
    let cfg = pipeline_with(vec![
        ("tester", role(None, "t")),
        ("coder", role(None, "c")),
        ("tester", role(Some("sonnet"), "again")),
    ]);
    let reg = SubAgentRegistry::new(&cfg, &two_model_registry(), &[]).expect("resolves");
    let mut listed = reg.list_agents();
    for name in &listed {
        assert!(reg.has_agent(name));
    }
    assert!(!reg.has_agent("nobody"));
    listed.sort();
    assert_eq!(listed, vec!["coder", "tester"]);
}

#[test]
fn shown_members_stand_in_strict_order() {
    let cfg = teams(vec![team(
        "web-team",
        vec![("b", role(None, "p")), ("a", role(Some("sonnet"), "p")), ("c", role(None, "p"))],
    )]);
    let set = PipelineSet::build(&cfg, &two_model_registry(), Some(&[])).expect("builds");
    let infos = set.infos();
    assert_eq!(
        infos[0].members,
        vec![
            ("a".to_string(), "sonnet".to_string()),
            ("b".to_string(), "flash".to_string()),
            ("c".to_string(), "flash".to_string()),
        ]
    );
}

#[test]
fn joined_names_split_back() {
    let cfg = teams(vec![
        team("web team", vec![("a", role(None, "p"))]),
        team("research-crew", vec![("a", role(None, "p"))]),
    ]);
    let set = PipelineSet::build(&cfg, &two_model_registry(), Some(&[])).expect("builds");
    let joined = set.names_joined();
    assert_eq!(joined.split(", ").collect::<Vec<_>>(), set.names());
}

#[test]
fn a_copied_registry_has_the_same_roles() {
    let cfg = pipeline_with(vec![
        ("tester", role(None, "t")),
        ("coder", role(Some("sonnet"), "c")),
    ]);
    let reg = SubAgentRegistry::new(&cfg, &two_model_registry(), &[]).expect("resolves");
    assert_eq!(reg.copy(), reg);
}
