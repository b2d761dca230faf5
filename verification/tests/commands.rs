//! Commands: what they ask for and how they are answered.

use peakbot::commands::{
    answer, compact_done, delete_done, export_done, load_done, parse_command, peek_done,
    process_command, read_command, rename_done, save_done, Command, CommandContext, CommandHelp,
    ContextUsage, Lane, Stats, WireId,
};
use peakbot::conversation::ConversationSummary;
use peakbot::effect::Effect;
use peakbot::message::Media;
use peakbot::models::{ModelRegistry, ResolvedModel};
use peakbot::pipeline::set::PipelineInfo;
use peakbot::rebuild::Session;
use peakbot::turn::CompactionCounts;

type E = Effect<String, Vec<Media>>;

fn model(alias: &str, provider: &str, name: &str) -> ResolvedModel {
    ResolvedModel {
        alias: alias.to_string(),
        provider_name: provider.to_string(),
        model_name: name.to_string(),
        context_size: 1000,
    }
}

fn registry_with_two_aliases() -> ModelRegistry {
    ModelRegistry {
        models: vec![
            model("sonnet", "openrouter", "anthropic/sonnet-3.7"),
            model("gpt4o", "openrouter", "openai/gpt-4o"),
        ],
        default_alias: "sonnet".to_string(),
    }
}

fn help(name: &str, takes_args: bool, description: &str) -> CommandHelp {
    CommandHelp { name: name.to_string(), takes_args, description: description.to_string() }
}

fn context() -> CommandContext {
    CommandContext {
        session: Session {
            selected: None,
            has_turns: false,
            alias: "".to_string(),
            provider_name: "openrouter".to_string(),
            model: "".to_string(),
            cwd: "/work".to_string(),
        },
        stats: Stats {
            model: "m".to_string(),
            model_alias: "".to_string(),
            total_api_calls: 3,
            total_cost: "0.4200".to_string(),
            total_input_tokens: 1234,
            total_output_tokens: 567,
            cumulative_input_tokens: 2000,
            lanes: vec![],
        },
        context: ContextUsage {
            messages: 7,
            current_usage: 500,
            window_size: 1000,
            usage_percent: "50.0".to_string(),
            compaction_enabled: true,
            threshold_percent: "80".to_string(),
            needs_compaction: false,
        },
        conversations: None,
        current: None,
        registry: Ok(registry_with_two_aliases()),
        background: vec![],
        commands: vec![
            help("help", false, "Show this help"),
            help("stats", false, "Show session statistics"),
            help("load", true, "Load a conversation"),
            help("delete", true, "Delete a conversation"),
            help("export", true, "Export a conversation"),
            help("rename", true, "Rename the conversation"),
        ],
        pipelines: vec![],
        config_model: "config-model".to_string(),
    }
}

/// Conversations with the ids 1, 2, … that were saved this many hours ago.
fn seeded(specs: &[(&str, i128)]) -> Vec<ConversationSummary> {
    specs
        .iter()
        .enumerate()
        .map(|(i, (name, hours_ago))| ConversationSummary {
            id: (i as u128) + 1,
            name: name.to_string(),
            message_count: 4,
            updated_at: 1_000_000 - hours_ago * 3600,
            updated_text: "2026-01-01 10:00".to_string(),
            provider_name: "openrouter".to_string(),
            model: "openai/gpt-4o".to_string(),
        })
        .collect()
}

fn with_list(specs: &[(&str, i128)]) -> CommandContext {
    let mut ctx = context();
    ctx.conversations = Some(seeded(specs));
    ctx
}

fn run(cmd: &str, ctx: &CommandContext) -> Vec<E> {
    process_command(cmd, Some(ctx)).into_vec()
}

fn said(effects: &[E]) -> String {
    match effects {
        [Effect::SystemMessage(m)] => m.clone(),
        other => panic!("expected one system message, got {other:?}"),
    }
}

#[test]
fn help_command_emits_system_message_listing_all_builtin_commands() {
    let ctx = context();
    let body = said(&run("/help", &ctx));
    assert!(body.starts_with("Available commands:"));
    for c in &ctx.commands {
        assert!(body.contains(&format!("/{}", c.name)));
        assert!(body.contains(&c.description));
    }
}

#[test]
fn help_command_marks_arg_taking_commands_with_args_placeholder() {
    let body = said(&run("/help", &context()));
    assert!(body.contains("/load <args>"));
    assert!(body.contains("/delete <args>"));
    assert!(body.contains("/export <args>"));
    assert!(body.contains("/rename <args>"));
    assert!(body.contains("/stats —"));
    assert!(!body.contains("/stats <args>"));
    assert!(!body.contains("/help <args>"));
    assert!(body.contains("  /load <args> — Load a conversation\n"));
}

#[test]
fn conversations_empty_list_emits_explicit_message() {
    assert_eq!(said(&run("/conversations", &with_list(&[]))), "No saved conversations.");
}

#[test]
fn conversations_no_storage_emits_distinct_message() {
    assert_eq!(
        said(&run("/conversations", &context())),
        "Conversation storage is not configured."
    );
}

#[test]
fn conversations_lists_every_saved_name_with_index() {
    let body =
        said(&run("/conversations", &with_list(&[("Alpha", 1), ("Beta", 2), ("Gamma", 3)])));
    for name in ["Alpha", "Beta", "Gamma"] {
        assert!(body.contains(name), "missing {name} in:\n{body}");
    }
    assert!(body.contains("  1  "), "{body}");
    assert!(body.contains("  2  "), "{body}");
    assert!(body.contains("  3  "), "{body}");
}

#[test]
fn conversations_sorted_newest_first() {
    let body =
        said(&run("/conversations", &with_list(&[("Older", 3), ("Newest", 1), ("Middle", 2)])));
    let newest = body.find("Newest").unwrap();
    let middle = body.find("Middle").unwrap();
    let older = body.find("Older").unwrap();
    assert!(newest < middle && middle < older, "{body}");
}

#[test]
fn conversations_marks_current() {
    let mut ctx = with_list(&[("Alpha", 1), ("Beta", 2)]);
    ctx.current = Some(2);
    let body = said(&run("/conversations", &ctx));
    assert_eq!(body.matches("▶ ").count(), 1, "{body}");
    let beta = body.lines().find(|l| l.contains("Beta")).unwrap();
    assert!(beta.contains("▶ "), "{beta}");
}

#[test]
fn conversations_hides_uuids() {
    let body = said(&run("/conversations", &with_list(&[("Alpha", 1), ("Beta", 2)])));
    for token in body.split_whitespace() {
        assert!(!(token.len() == 36 && token.matches('-').count() == 4), "{body}");
    }
}

#[test]
fn load_by_index_resolves_to_correct_uuid() {
    let ctx = with_list(&[("Alpha", 1), ("Beta", 2), ("Gamma", 3)]);
    assert_eq!(run("/load 2", &ctx), vec![Effect::PeekConversation(2)]);
}

#[test]
fn load_by_uuid_still_works() {
    let ctx = with_list(&[("Alpha", 1), ("Beta", 2)]);
    let id = uuid::Uuid::from_u128(0x1234_5678_9abc_def0_1122_3344_5566_7788);
    let cmd = format!("/load {id}");
    assert_eq!(
        run(&cmd, &ctx),
        vec![Effect::PeekConversation(0x1234_5678_9abc_def0_1122_3344_5566_7788)]
    );
}

#[test]
fn load_index_zero_emits_helpful_error() {
    let body = said(&run("/load 0", &with_list(&[("Alpha", 1)])));
    assert!(body.contains("1-based"), "{body}");
    assert!(body.contains("/conversations"), "{body}");
    assert!(body.starts_with("❌ "), "{body}");
}

#[test]
fn load_index_out_of_range_emits_count() {
    let body = said(&run("/load 99", &with_list(&[("Alpha", 1), ("Beta", 2)])));
    assert_eq!(body, "❌ Index 99 not found. /conversations shows 2 saved conversation(s).");
}

#[test]
fn load_invalid_arg_emits_uniform_error() {
    let body = said(&run("/load not-a-uuid-or-int", &with_list(&[("Alpha", 1)])));
    assert!(body.contains("Invalid argument"), "{body}");
}

fn wire(provider: &str, model: &str) -> Result<WireId, String> {
    Ok(WireId { provider_name: provider.to_string(), model: model.to_string() })
}

#[test]
fn load_with_unavailable_wire_id_returns_clean_error_and_does_not_teardown() {
    let registry = registry_with_two_aliases();
    let out = peek_done(7, wire("ghost-provider", "ghost-model"), Some(&registry)).into_vec();
    assert_eq!(said(&out), "❌ Model 'ghost-provider/ghost-model' not available.");
}

#[test]
fn load_pre_v5_file_treated_as_unavailable() {
    let registry = registry_with_two_aliases();
    let out = peek_done(7, wire("", "anthropic/sonnet-3.7"), Some(&registry)).into_vec();
    assert_eq!(said(&out), "❌ Model 'anthropic/sonnet-3.7' not available.");
}

#[test]
fn load_does_not_prestamp_display_identity() {
    let registry = registry_with_two_aliases();
    let mut all = run("/load 1", &with_list(&[("Saved", 1)]));
    all.extend(peek_done(1, wire("openrouter", "openai/gpt-4o"), Some(&registry)).into_vec());
    all.extend(load_done(Ok(Some("Saved".to_string()))).into_vec());
    assert_eq!(
        all,
        vec![
            Effect::PeekConversation(1),
            Effect::LoadConversation(1),
            Effect::SystemMessage("Loaded conversation: 'Saved'".to_string()),
        ]
    );
}

#[test]
fn load_succeeds_when_alias_is_renamed_but_wire_id_is_stable() {
    let mut registry = registry_with_two_aliases();
    registry.models[1].alias = "renamed".to_string();
    let out = peek_done(9, wire("openrouter", "openai/gpt-4o"), Some(&registry)).into_vec();
    assert_eq!(out, vec![Effect::LoadConversation(9)]);
}

#[test]
fn delete_by_index_works() {
    let ctx = with_list(&[("Alpha", 1), ("Beta", 2), ("Gamma", 3)]);
    assert_eq!(run("/delete 1", &ctx), vec![Effect::DeleteConversation(1)]);
    assert_eq!(said(&delete_done(None).into_vec()), "Conversation deleted.");
    assert_eq!(said(&delete_done(Some("gone")).into_vec()), "❌ Failed to delete: gone");
}

#[test]
fn export_by_index_works() {
    let ctx = with_list(&[("OnlyOne", 1)]);
    assert_eq!(
        run("/export 1 Markdown", &ctx),
        vec![Effect::ExportConversation { id: 1, format: "markdown".to_string() }]
    );
    let body = said(&export_done(Ok("# OnlyOne".to_string())).into_vec());
    assert!(body.starts_with("Export:"));
    assert!(body.contains("OnlyOne"));
    assert_eq!(
        said(&run("/export 1", &ctx)),
        "Usage: /export <n|uuid> <json|markdown>"
    );
    assert_eq!(
        said(&export_done(Err("no such format".to_string())).into_vec()),
        "❌ Export failed: no such format"
    );
}

#[test]
fn new_command_clears_chat_messages() {
    let out = run("/new", &context());
    assert_eq!(
        out,
        vec![
            Effect::ResetConversation,
            Effect::CreateConversation {
                provider_name: "openrouter".to_string(),
                model: "config-model".to_string(),
                cwd: "/work".to_string(),
            },
            Effect::SystemMessage("Started a new conversation.".to_string()),
        ]
    );
}

#[test]
fn new_command_swaps_in_a_fresh_conversation() {
    let mut ctx = context();
    ctx.session.model = "active-model".to_string();
    let out = run("/NEW", &ctx);
    assert!(matches!(
        &out[1],
        Effect::CreateConversation { model, .. } if model == "active-model"
    ));
}

#[test]
fn bare_model_command_lists_available_models() {
    let msg = said(&run("/model", &context()));
    assert!(msg.contains("Available models:"));
    assert!(msg.contains("sonnet"));
    assert!(msg.contains("gpt4o"));
}

#[test]
fn model_with_trailing_whitespace_lists_available_models() {
    let msg = said(&run("/model ", &context()));
    assert!(msg.contains("Available models:"), "{msg}");
    assert!(!msg.contains("not available in this build"), "{msg}");
}

#[test]
fn models_are_listed_in_order_with_the_active_one_marked() {
    let mut ctx = context();
    ctx.session.alias = "sonnet".to_string();
    assert_eq!(
        said(&run("/model", &ctx)),
        "Available models:\n  gpt4o  (openrouter · openai/gpt-4o)\n→ sonnet  (openrouter · anthropic/sonnet-3.7)\n\nUse /model <alias> to switch (starts a new conversation)."
    );
    ctx.session.selected = Some("web-team".to_string());
    assert!(said(&run("/model", &ctx))
        .contains("→ sonnet  (openrouter · anthropic/sonnet-3.7)  [fixed by pipeline 'web-team']\n"));
    ctx.registry = Ok(ModelRegistry { models: vec![], default_alias: "".to_string() });
    assert_eq!(
        said(&run("/model", &ctx)),
        "No models declared. Add a `providers:` block to config.yaml. See `multi-model.md`."
    );
    ctx.registry = Err("bad".to_string());
    assert_eq!(said(&run("/model", &ctx)), "❌ /model: model registry not configured: bad");
}

#[test]
fn bare_model_command_marks_fixed_alias_when_pipeline_selected() {
    let mut ctx = context();
    ctx.session.selected = Some("web-team".to_string());
    let msg = said(&run("/model", &ctx));
    assert!(msg.contains("Available models:"), "{msg}");
    assert!(msg.contains("fixed by pipeline") && msg.contains("web-team"), "{msg}");
}

#[test]
fn bare_model_command_unmarked_when_no_pipeline_selected() {
    let msg = said(&run("/model", &context()));
    assert!(msg.contains("Available models:"));
    assert!(!msg.contains("fixed by pipeline"), "{msg}");
}

#[test]
fn model_alias_command_refused_when_pipeline_selected() {
    let mut ctx = context();
    ctx.session.selected = Some("web-team".to_string());
    let msg = said(&run("/model gpt4o", &ctx));
    assert!(msg.contains("fixed by pipeline"), "{msg}");
    ctx.session.selected = None;
    assert_eq!(
        said(&run("/model gpt4o", &ctx)),
        "❌ /model: not available in this build. Configure a `providers:` block in config.yaml and restart. See `multi-model.md`."
    );
}

fn team(name: &str) -> PipelineInfo {
    PipelineInfo {
        name: name.to_string(),
        orchestrator_model: "sonnet".to_string(),
        members: vec![],
    }
}

#[test]
fn pipeline_selection_locked_after_first_turn() {
    let mut ctx = context();
    ctx.session.has_turns = true;
    let last = said(&run("/pipeline web-team", &ctx));
    assert!(last.to_lowercase().contains("lock"), "{last}");
}

#[test]
fn pipeline_selection_idempotent_for_current_name() {
    let mut ctx = context();
    ctx.session.selected = Some("web-team".to_string());
    assert_eq!(run("/pipeline web-team", &ctx), vec![]);
}

#[test]
fn pipeline_selection_unknown_name_errors_listing_available() {
    let mut ctx = context();
    ctx.pipelines = vec![team("web-team")];
    let last = said(&run("/pipeline nope-not-a-pipe", &ctx));
    assert!(last.contains("nope-not-a-pipe"), "{last}");
    assert!(last.contains("Available pipelines: web-team"), "{last}");
}

#[test]
fn pipeline_selection_with_bad_name_does_not_mutate_previous() {
    let mut ctx = context();
    ctx.session.selected = Some("web-team".to_string());
    let out = run("/pipeline nope-not-a-pipe", &ctx);
    assert!(!out.iter().any(|e| matches!(e, Effect::BindPipeline(_))));
    said(&out);
}

#[test]
fn picking_a_team_without_an_agent_loop() {
    let mut ctx = context();
    ctx.pipelines = vec![team("Web-Team")];
    assert_eq!(
        said(&run("/PIPELINE x", &ctx)),
        "❌ /pipeline: unknown pipeline ''. Available pipelines: Web-Team"
    );
    assert_eq!(
        said(&run("/pipeline Web-Team", &ctx)),
        "❌ /pipeline: not available in this build (no agent loop attached)."
    );
    assert_eq!(run("/pipeline NONE", &ctx), vec![]);
    assert!(said(&run("/pipeline  ", &ctx)).starts_with("Available pipelines:\n"));
}

#[test]
fn reset_command_zeros_session_stats() {
    assert_eq!(run("/reset", &context())[0], Effect::ResetStats);
}

#[test]
fn reset_command_preserves_chat_history() {
    let out = run("/reset", &context());
    assert!(!out.iter().any(|e| matches!(e, Effect::ResetConversation)));
}

#[test]
fn reset_command_emits_system_banner() {
    let out = run("/reset", &context());
    assert_eq!(
        out,
        vec![
            Effect::ResetStats,
            Effect::SystemMessage("Session statistics reset.".to_string())
        ]
    );
}

#[test]
fn exit_command_sets_exit_requested_flag() {
    assert_eq!(run("/exit", &context()), vec![Effect::RequestExit]);
}

#[test]
fn exit_command_does_not_clear_chat_or_stats() {
    assert_eq!(run("/EXIT", &context()).len(), 1);
}

#[test]
fn statistics() {
    let mut ctx = context();
    assert_eq!(
        said(&run("/stats", &ctx)),
        "## Session Statistics\n\n**Model:** m\n**API Calls:** 3\n**Total Cost:** $0.4200\n**Input Tokens (last request):** 1234\n**Output Tokens (last request):** 567\n**Cumulative Input Tokens:** 2000"
    );
    let lane = |name: &str| Lane {
        name: name.to_string(),
        input_tokens: 10,
        output_tokens: 5,
        api_calls: 1,
        cost: "0.0100".to_string(),
    };
    ctx.stats.model_alias = "sonnet".to_string();
    ctx.stats.lanes = vec![lane("orchestrator")];
    assert!(!said(&run("/stats", &ctx)).contains("By lane"));
    assert!(said(&run("/stats", &ctx)).contains("**Model:** sonnet\n"));
    ctx.stats.lanes = vec![lane("orchestrator"), lane("coder")];
    assert!(said(&run("/stats", &ctx)).ends_with(
        "\n\n### By lane (cumulative)\n\n| Lane | In | Out | Calls | Cost |\n|---|---|---|---|---|\n| orchestrator | 10 | 5 | 1 | $0.0100 |\n| coder | 10 | 5 | 1 | $0.0100 |"
    ));
}

#[test]
fn context_usage() {
    let mut ctx = context();
    assert_eq!(
        said(&run("/context", &ctx)),
        "## Context Usage\n\n**Messages:** 7\n**Context Tokens:** 500 / 1000 (50.0%)\n**Compaction:** enabled\n**Threshold:** 80%"
    );
    ctx.context.compaction_enabled = false;
    ctx.context.needs_compaction = true;
    assert!(said(&run("/context", &ctx))
        .ends_with("**Compaction:** disabled\n**Threshold:** 80% — ⚠️ threshold reached"));
}

#[test]
fn compaction_on_request() {
    assert_eq!(
        run("/compact", &context()),
        vec![
            Effect::SetStatus(Some("Compacting context...".to_string())),
            Effect::ForceCompact
        ]
    );
    let counts = CompactionCounts { original_count: 10, compacted_count: 3, num_discarded: 7 };
    assert_eq!(
        compact_done(Some(counts)).into_vec(),
        vec![
            Effect::SetStatus(None),
            Effect::SystemMessage("Context compacted: 10 → 3 messages, 7 discarded".to_string()),
        ]
    );
    assert_eq!(
        compact_done(None).into_vec()[1],
        Effect::SystemMessage("Nothing to compact.".to_string())
    );
}

#[test]
fn saving_and_renaming() {
    let ctx = context();
    assert_eq!(run("/save", &ctx), vec![Effect::SaveConversation]);
    assert_eq!(said(&save_done(Some("A")).into_vec()), "Conversation saved: A");
    assert_eq!(save_done(None).len(), 0);
    assert_eq!(
        run("/rename My Talk", &ctx),
        vec![Effect::RenameConversation("My Talk".to_string())]
    );
    assert_eq!(said(&rename_done("My Talk", None).into_vec()), "Conversation renamed to: My Talk");
    assert_eq!(
        said(&rename_done("x", Some("no storage")).into_vec()),
        "❌ Failed to rename: no storage"
    );
}

#[test]
fn loading_that_fails() {
    assert_eq!(
        said(&peek_done(1, Err("io".to_string()), None).into_vec()),
        "❌ Failed to read conversation: io"
    );
    assert_eq!(
        said(&peek_done(1, wire("p", "m"), None).into_vec()),
        "❌ Model 'p/m' not available."
    );
    assert_eq!(
        said(&load_done(Err("io".to_string())).into_vec()),
        "❌ Failed to load conversation: io"
    );
    assert_eq!(load_done(Ok(None)).len(), 0);
}

#[test]
fn other_commands() {
    let ctx = context();
    assert_eq!(said(&run("/cd", &ctx)), "/work");
    assert!(said(&run("/cd /tmp", &ctx)).starts_with("❌ /cd: not available in this build."));
    assert!(said(&run("/subagents on", &ctx)).starts_with("🧩 /subagents is gone"));
    assert_eq!(said(&run("/bg", &ctx)), "No background processes.");
    assert_eq!(run("/nonsense", &ctx), vec![]);
    assert_eq!(run("/loader", &ctx), vec![]);
    assert_eq!(process_command("/help", None).len(), 0);
    assert_eq!(said(&run("/HELP", &context())), said(&run("/help", &context())));
}

#[test]
fn blanks_around_a_command_do_not_count() {
    assert_eq!(parse_command("  /new"), Command::New);
    assert_eq!(parse_command("/new\n"), Command::New);
    assert_eq!(parse_command("\t/HELP \n"), Command::Help);
    assert_eq!(parse_command(" /load 1"), Command::Load("1".to_string()));
    assert_eq!(parse_command(" /pipeline none"), Command::PickPipeline(None));
    assert_eq!(parse_command(" /rename a "), Command::Rename("a ".to_string()));
    assert_eq!(parse_command("/load "), Command::Load(String::new()));
    assert_eq!(parse_command("/ new"), Command::Unknown);
}

#[test]
fn the_word_of_an_argument_command_is_lower_case() {
    assert_eq!(parse_command("/LOAD 1"), Command::Unknown);
    assert_eq!(parse_command("/load  1 "), Command::Load("1".to_string()));
    assert_eq!(parse_command("/rename Ä b"), Command::Rename("Ä b".to_string()));
    assert_eq!(
        parse_command("/export 1  json"),
        Command::Export("1".to_string(), Some(" json".to_string()))
    );
    assert_eq!(
        read_command("/export 1", "/export 1"),
        Command::Export("1".to_string(), None)
    );
    assert_eq!(parse_command("/Model"), Command::ListModels);
    assert_eq!(parse_command("/MODEL x"), Command::SwitchModel);
}

#[test]
fn answers_for_given_outside_results() {
    let ctx = with_list(&[("Alpha", 1)]);
    assert_eq!(
        answer(Command::Load("x".to_string()), Some(77), String::new(), &ctx).into_vec(),
        vec![Effect::PeekConversation(77)]
    );
    assert_eq!(
        answer(
            Command::Export("1".to_string(), Some("JSON".to_string())),
            None,
            "json".to_string(),
            &ctx
        )
        .into_vec(),
        vec![Effect::ExportConversation { id: 1, format: "json".to_string() }]
    );
}
