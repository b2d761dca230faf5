//! What a delegation that died hands back.

use peakbot::message::{
    assistant_text as assistant, user_text as user, AssistantContent, Media, MediaSource, Message,
    ToolCall, ToolResult, ToolResultContent, UserContent,
};
use peakbot::pipeline::handoff::{
    begin_handoff, cap_error, classify, elide, finish_handoff, format_result, has_work,
    last_assistant_text, render_transcript, tool_result_text, Handoff, HandoffStep, Header,
    PromptFailure, ASSISTANT_TEXT_CAP, ERROR_CAP, FAILED_GUIDANCE, FALLBACK_CAP, SUMMARY_CAP,
    SUMMARY_PROMPT, TOOL_ARGS_CAP, TOOL_RESULT_CAP, TRANSCRIPT_CAP, USER_TEXT_CAP,
};

fn user_text(t: &str) -> Message {
    user(t.to_string())
}

fn assistant_text(t: &str) -> Message {
    assistant(t.to_string())
}

fn assistant_call(id: &str, name: &str, args: serde_json::Value) -> Message {
    Message::Assistant {
        id: None,
        content: vec![AssistantContent::ToolCall(ToolCall {
            id: id.to_string(),
            call_id: None,
            name: name.to_string(),
            arguments: args.to_string(),
        })],
    }
}

fn tool_result(id: &str, text: &str) -> Message {
    Message::User {
        content: vec![UserContent::ToolResult(ToolResult {
            id: id.to_string(),
            call_id: None,
            content: vec![ToolResultContent::Text(text.to_string())],
        })],
    }
}

fn command(value: &str) -> serde_json::Value {
    let mut m = serde_json::Map::new();
    m.insert("command".to_string(), serde_json::Value::String(value.to_string()));
    serde_json::Value::Object(m)
}

fn picture() -> Media {
    Media {
        source: MediaSource::Base64("aGVsbG8=".to_string()),
        media_type: Some("image/png".to_string()),
    }
}

#[test]
fn classify_stop_aborts() {
    let err = PromptFailure::PromptCancelled {
        chat_history: vec![assistant_text("work")],
        reason: "stop".to_string(),
    };
    match classify(err, vec![]) {
        Handoff::Abort(PromptFailure::PromptCancelled { reason, .. }) => {
            assert_eq!(reason, "stop");
        }
        _ => panic!("stop must classify as Abort"),
    }
}

#[test]
fn classify_subagent_context_is_context_exceeded() {
    let err = PromptFailure::PromptCancelled {
        chat_history: vec![assistant_text("did a thing")],
        reason: "subagent-context".to_string(),
    };
    match classify(err, vec![]) {
        Handoff::ContextExceeded { history } => assert_eq!(history.len(), 1),
        _ => panic!("subagent-context must classify as ContextExceeded"),
    }
}

#[test]
fn classify_other_cancel_is_failed_with_reason() {
    let err = PromptFailure::PromptCancelled {
        chat_history: vec![assistant_text("x")],
        reason: "compact".to_string(),
    };
    match classify(err, vec![]) {
        Handoff::Failed { error, history } => {
            assert_eq!(error, "cancelled: compact");
            assert_eq!(history.len(), 1);
        }
        _ => panic!("unknown cancel reason must classify as Failed"),
    }
}

#[test]
fn classify_empty_error_history_falls_back_to_snapshot() {
    let err = PromptFailure::PromptCancelled {
        chat_history: vec![],
        reason: "subagent-context".to_string(),
    };
    let snapshot = vec![user_text("task"), assistant_text("progress")];
    match classify(err, snapshot) {
        Handoff::ContextExceeded { history } => assert_eq!(history.len(), 2),
        _ => panic!("expected ContextExceeded"),
    }
}

#[test]
fn classify_max_turns_is_failed_with_limit() {
    let err = PromptFailure::MaxTurns {
        max_turns: 42,
        chat_history: vec![assistant_text("looping")],
    };
    match classify(err, vec![]) {
        Handoff::Failed { error, history } => {
            assert_eq!(error, "reached its max turn limit (42)");
            assert_eq!(history.len(), 1);
        }
        _ => panic!("an exhausted run must classify as Failed"),
    }
}

#[test]
fn classify_unknown_tool_call_is_failed_with_tool_name() {
    let err = PromptFailure::UnknownToolCall {
        tool_name: "teleport".to_string(),
        available_tools: vec!["bash".to_string()],
        allowed_tools: vec!["bash".to_string()],
        chat_history: vec![assistant_text("hm")],
    };
    match classify(err, vec![]) {
        Handoff::Failed { error, history } => {
            assert_eq!(error, "called an unknown tool `teleport`");
            assert_eq!(history.len(), 1);
        }
        _ => panic!("an unknown tool must classify as Failed"),
    }
}

#[test]
fn classify_completion_error_uses_snapshot_and_caps_message() {
    let long = "x".repeat(5000);
    let inner = rig_core::completion::CompletionError::ProviderError(long);
    let err = PromptFailure::Completion { message: inner.to_string() };
    match classify(err, vec![assistant_text("snapshotted")]) {
        Handoff::Failed { error, history } => {
            assert!(error.len() <= ERROR_CAP + "…".len(), "got {} bytes", error.len());
            assert!(error.ends_with('…'), "a cut error must be marked");
            assert_eq!(history.len(), 1);
        }
        _ => panic!("a provider error must classify as Failed"),
    }
}

#[test]
fn classify_tool_error_uses_snapshot() {
    let inner = rig_core::tool::ToolSetError::ToolNotFoundError("nope".to_string());
    let err = PromptFailure::Tool { message: inner.to_string() };
    match classify(err, vec![assistant_text("snapshotted")]) {
        Handoff::Failed { error, history } => {
            assert!(error.contains("nope"));
            assert_eq!(history.len(), 1);
        }
        _ => panic!("a tool error must classify as Failed"),
    }
}

#[test]
fn classify_tool_server_error_uses_snapshot_and_caps_message() {
    let long = "s".repeat(800);
    let inner = rig_core::tool::server::ToolServerError::ToolsetError(
        rig_core::tool::ToolSetError::ToolNotFoundError(long),
    );
    let err = PromptFailure::ToolServer { message: inner.to_string() };
    match classify(err, vec![assistant_text("snapshotted")]) {
        Handoff::Failed { error, history } => {
            assert!(error.len() <= ERROR_CAP + "…".len(), "got {} bytes", error.len());
            assert!(error.ends_with('…'), "a cut error must be marked");
            assert_eq!(history.len(), 1, "snapshot is the only history");
        }
        _ => panic!("a tool server error must classify as Failed"),
    }
}

#[test]
fn classify_empty_history_falls_back_for_other_prompt_cancelled_reasons() {
    let err = PromptFailure::PromptCancelled {
        chat_history: vec![],
        reason: "compact".to_string(),
    };
    match classify(err, vec![assistant_text("from snapshot")]) {
        Handoff::Failed { error, history } => {
            assert_eq!(error, "cancelled: compact");
            assert_eq!(history.len(), 1, "snapshot must be used");
        }
        _ => panic!("expected Failed"),
    }
}

#[test]
fn classify_empty_history_falls_back_for_max_turns() {
    let err = PromptFailure::MaxTurns { max_turns: 7, chat_history: vec![] };
    match classify(err, vec![assistant_text("from snapshot")]) {
        Handoff::Failed { error, history } => {
            assert_eq!(error, "reached its max turn limit (7)");
            assert_eq!(history.len(), 1, "snapshot must be used");
        }
        _ => panic!("expected Failed"),
    }
}

#[test]
fn classify_empty_history_falls_back_for_unknown_tool_call() {
    let err = PromptFailure::UnknownToolCall {
        tool_name: "ghost".to_string(),
        available_tools: vec!["bash".to_string()],
        allowed_tools: vec!["bash".to_string()],
        chat_history: vec![],
    };
    match classify(err, vec![assistant_text("from snapshot")]) {
        Handoff::Failed { error, history } => {
            assert_eq!(error, "called an unknown tool `ghost`");
            assert_eq!(history.len(), 1, "snapshot must be used");
        }
        _ => panic!("expected Failed"),
    }
}

#[test]
fn cap_error_is_idempotent() {
    let once = cap_error(&"é".repeat(400));
    assert_eq!(cap_error(&once), once);
}

#[test]
fn cap_error_keeps_whole_characters() {
    let long = "é".repeat(400);
    let mut want = "é".repeat(150);
    want.push('…');
    assert_eq!(cap_error(&long), want);
    let fits = "e".repeat(300);
    assert_eq!(cap_error(&fits), fits);
}

#[test]
fn render_transcript_labels_tool_results() {
    let history = vec![
        user_text("do the thing"),
        assistant_call("c1", "bash", command("ls")),
        tool_result("c1", "a.rs\nb.rs"),
        tool_result("unmatched", "orphan"),
        assistant_text("found two files"),
    ];
    let out = render_transcript(&history);
    assert!(out.contains("User: do the thing"));
    assert!(out.contains(r#"Assistant called bash({"command":"ls"})"#));
    assert!(out.contains("Tool [bash] returned: a.rs\nb.rs"));
    assert!(out.contains("Tool [tool] returned: orphan"));
    assert!(out.contains("Assistant: found two files"));
}

#[test]
fn render_transcript_skips_system_and_non_text() {
    let history = vec![
        Message::System { content: "system preamble".to_string() },
        assistant_text("visible"),
    ];
    let out = render_transcript(&history);
    assert!(!out.contains("system preamble"));
    assert_eq!(out, "Assistant: visible");
}

#[test]
fn render_transcript_says_nothing_of_media() {
    let history = vec![
        Message::User { content: vec![UserContent::Image(picture())] },
        Message::Assistant {
            id: None,
            content: vec![
                AssistantContent::Reasoning("thought".to_string()),
                AssistantContent::Image(picture()),
            ],
        },
    ];
    assert_eq!(render_transcript(&history), "");
}

#[test]
fn render_transcript_finds_the_call_by_its_provider_id_first() {
    let history = vec![
        Message::Assistant {
            id: None,
            content: vec![
                AssistantContent::ToolCall(ToolCall {
                    id: "a".to_string(),
                    call_id: Some("p".to_string()),
                    name: "grep".to_string(),
                    arguments: "{}".to_string(),
                }),
                AssistantContent::ToolCall(ToolCall {
                    id: "b".to_string(),
                    call_id: None,
                    name: "bash".to_string(),
                    arguments: "{}".to_string(),
                }),
            ],
        },
        Message::User {
            content: vec![UserContent::ToolResult(ToolResult {
                id: "b".to_string(),
                call_id: Some("p".to_string()),
                content: vec![ToolResultContent::Text("hit".to_string())],
            })],
        },
    ];
    assert_eq!(
        render_transcript(&history),
        "Assistant called grep({})\nAssistant called bash({})\nTool [grep] returned: hit"
    );
}

#[test]
fn render_transcript_caps_each_block_type() {
    let history = vec![
        user_text(&"u".repeat(9000)),
        assistant_call("c1", "bash", command(&"z".repeat(9000))),
        tool_result("c1", &"t".repeat(9000)),
        assistant_text(&"a".repeat(9000)),
    ];
    let rendered = render_transcript(&history);
    let blocks: Vec<&str> = rendered.split('\n').collect();
    assert_eq!(blocks.len(), 4);
    assert!(blocks[0].len() <= "User: ".len() + USER_TEXT_CAP + 3);
    assert!(blocks[0].starts_with("User: uuu"));
    assert!(blocks[1].len() <= "Assistant called bash()".len() + TOOL_ARGS_CAP + 3);
    assert!(blocks[2].len() <= "Tool [bash] returned: ".len() + TOOL_RESULT_CAP + 3);
    assert!(blocks[3].len() <= "Assistant: ".len() + ASSISTANT_TEXT_CAP + 3);
}

#[test]
fn render_transcript_no_elision_when_small() {
    let history = vec![user_text("a"), assistant_text("b")];
    assert_eq!(render_transcript(&history), "User: a\nAssistant: b");
}

#[test]
fn render_transcript_elides_middle_keeping_head_and_tail() {
    let mut history = vec![user_text(&"h".repeat(1000))];
    for _ in 0..99 {
        history.push(assistant_text(&"m".repeat(1000)));
    }
    history.push(assistant_text("FINAL BLOCK"));

    let out = render_transcript(&history);
    assert!(out.len() <= TRANSCRIPT_CAP, "elided transcript must fit the cap");
    assert!(out.starts_with("User: hhh"), "the task brief must survive");
    assert!(out.ends_with("Assistant: FINAL BLOCK"), "the tail must survive");

    let total = history.len();
    let kept = out
        .lines()
        .filter(|l| l.starts_with("User: ") || l.starts_with("Assistant: "))
        .count();
    let marker = format!("[... {} earlier steps elided ...]", total - kept);
    assert!(out.contains(&marker), "marker must count exactly the dropped blocks");
    for line in out.lines() {
        assert!(
            line.starts_with("User: ")
                || line.starts_with("Assistant: ")
                || line.starts_with("[... "),
            "unexpected partial block: {line:?}"
        );
    }
}

#[test]
fn elide_drops_a_block_that_fits_neither_end() {
    let blocks = vec!["task".to_string(), "x".repeat(60_000), "end".to_string()];
    assert_eq!(elide(&blocks), "task\n[... 1 earlier steps elided ...]\nend");
    let only = vec!["x".repeat(60_000)];
    assert_eq!(elide(&only), "[... 1 earlier steps elided ...]");
    assert_eq!(elide(&[]), "");
}

#[test]
fn tool_result_text_joins_the_text_items() {
    let content = vec![
        ToolResultContent::Text("one".to_string()),
        ToolResultContent::Image(picture()),
        ToolResultContent::Text("two".to_string()),
    ];
    assert_eq!(tool_result_text(&content), "one\ntwo");
}

#[test]
fn has_work_detects_assistant_text_and_tool_results() {
    assert!(has_work(&[assistant_text("something")]));
    assert!(has_work(&[tool_result("c1", "output")]));
}

#[test]
fn has_work_false_without_progress() {
    assert!(!has_work(&[]));
    assert!(!has_work(&[user_text("just the task")]));
    assert!(
        !has_work(&[assistant_text("   \n ")]),
        "whitespace-only assistant text is not work"
    );
    assert!(!has_work(&[assistant_call(
        "c1",
        "bash",
        serde_json::Value::Object(serde_json::Map::new())
    )]));
}

#[test]
fn last_assistant_text_picks_the_most_recent_non_empty() {
    let history = vec![
        assistant_text("first"),
        tool_result("c1", "out"),
        assistant_text("second"),
        assistant_text("  "),
    ];
    assert_eq!(last_assistant_text(&history).as_deref(), Some("second"));
}

#[test]
fn last_assistant_text_none_without_assistant_text() {
    assert_eq!(last_assistant_text(&[]), None);
    assert_eq!(last_assistant_text(&[user_text("task")]), None);
}

#[test]
fn format_result_context_exceeded_with_summary() {
    let out = format_result("critic", &Header::ContextExceeded, Some("Read 3 files."));
    assert_eq!(
        out,
        "[delegate:critic] INTERRUPTED — the subagent context exceeded its max threshold.\n\
         \n\
         Here is a summary of what it was doing:\n\
         \n\
         Read 3 files.\n\
         \n\
         [The task was NOT completed. Your call: re-delegate only the remaining slice, split it across several smaller delegations, pick a different role, or finish it yourself. Re-sending this same task will hit the same limit again.]"
    );
}

#[test]
fn format_result_context_exceeded_without_summary() {
    let out = format_result("critic", &Header::ContextExceeded, None);
    assert_eq!(
        out,
        "[delegate:critic] INTERRUPTED — the subagent context exceeded its max threshold.\n\
         \n\
         No summary of its work is recoverable.\n\
         \n\
         [The task was NOT completed. Your call: re-delegate only the remaining slice, split it across several smaller delegations, pick a different role, or finish it yourself. Re-sending this same task will hit the same limit again.]"
    );
}

#[test]
fn format_result_failed_with_summary() {
    let out = format_result(
        "coder",
        &Header::Failed { error: "reached its max turn limit (30)".to_string() },
        Some("Edited src/main.rs."),
    );
    assert_eq!(
        out,
        "[delegate:coder] INTERRUPTED — error: reached its max turn limit (30)\n\
         \n\
         Here is a summary of what it was doing:\n\
         \n\
         Edited src/main.rs.\n\
         \n\
         [The task was NOT completed. Your call: if that error looks transient, re-delegate as-is; otherwise narrow the task, split it across several delegations, or pick a different role.]"
    );
}

#[test]
fn format_result_failed_without_summary() {
    let out = format_result(
        "coder",
        &Header::Failed { error: "ProviderError: 502".to_string() },
        None,
    );
    assert_eq!(
        out,
        "[delegate:coder] INTERRUPTED — error: ProviderError: 502\n\
         \n\
         No summary of its work is recoverable.\n\
         \n\
         [The task was NOT completed. Your call: if that error looks transient, re-delegate as-is; otherwise narrow the task, split it across several delegations, or pick a different role.]"
    );
}

#[test]
fn format_result_caps_summary_and_error() {
    let out = format_result(
        "coder",
        &Header::Failed { error: "e".repeat(5000) },
        Some(&"s".repeat(20_000)),
    );
    assert!(
        out.len() < ERROR_CAP + SUMMARY_CAP + 1000,
        "both summary and error must be capped, got {} bytes",
        out.len()
    );
}

#[test]
fn timeout_handoff_is_rendered_as_an_interrupted_result() {
    let history = vec![
        user_text("the original task brief"),
        assistant_text("in-progress work the sub-agent did — must survive"),
    ];
    let step = begin_handoff(
        "critic",
        Handoff::Failed {
            error: "exceeded its 1800s wall-clock budget and was cancelled".to_string(),
            history,
        },
    );
    let out = match step {
        HandoffStep::Summarise { header, history, prompt } => {
            assert!(prompt.starts_with(SUMMARY_PROMPT));
            finish_handoff("critic", &header, &history, None)
        }
        HandoffStep::Done(_) => panic!("there is work to summarise"),
    };
    assert!(out.starts_with(
        "[delegate:critic] INTERRUPTED — error: exceeded its 1800s wall-clock budget and was cancelled"
    ));
    assert!(out.contains("in-progress work the sub-agent did — must survive"));
    assert!(out.ends_with(FAILED_GUIDANCE));
}

#[test]
fn a_summary_beats_the_last_answer_unless_it_is_blank() {
    let history = vec![assistant_text(&"w".repeat(2000))];
    let header = Header::ContextExceeded;
    let told = finish_handoff("r", &header, &history, Some("the summary".to_string()));
    assert_eq!(told, format_result("r", &header, Some("the summary")));
    let mut cut = "w".repeat(FALLBACK_CAP);
    cut.push('…');
    let blank = finish_handoff("r", &header, &history, Some(" \n".to_string()));
    assert_eq!(blank, format_result("r", &header, Some(&cut)));
}

#[test]
fn without_work_nothing_is_summarised() {
    let step = begin_handoff("r", Handoff::ContextExceeded { history: vec![user_text("task")] });
    assert_eq!(step, HandoffStep::Done(format_result("r", &Header::ContextExceeded, None)));
    let stopped = PromptFailure::PromptCancelled {
        chat_history: vec![assistant_text("work")],
        reason: "stop".to_string(),
    };
    let header = Header::Failed { error: "PromptCancelled: stop".to_string() };
    assert_eq!(header.class(), "failed");
    assert_eq!(Header::ContextExceeded.class(), "context-exceeded");
    assert_eq!(
        begin_handoff("r", Handoff::Abort(stopped)),
        HandoffStep::Done(format_result("r", &header, None))
    );
}

#[test]
fn failures_describe_themselves() {
    let unknown = PromptFailure::UnknownToolCall {
        tool_name: "teleport".to_string(),
        available_tools: vec!["ba\"sh".to_string(), "grep".to_string()],
        allowed_tools: vec![],
        chat_history: vec![],
    };
    assert_eq!(
        unknown.describe(),
        "UnknownToolCall: model attempted to call unknown or disallowed tool `teleport`. Available tools: [\"ba\\\"sh\", \"grep\"]. Allowed tools for this turn: []"
    );
    let turns = PromptFailure::MaxTurns { max_turns: 3, chat_history: vec![] };
    assert_eq!(turns.describe(), "MaxTurnsError: reached max turns limit: 3");
    let provider = PromptFailure::Completion { message: "ProviderError: 502".to_string() };
    assert_eq!(provider.describe(), "CompletionError: ProviderError: 502");
    let tool = PromptFailure::Tool { message: "t".to_string() };
    assert_eq!(tool.describe(), "ToolCallError: t");
    let server = PromptFailure::ToolServer { message: "s".to_string() };
    assert_eq!(server.describe(), "ToolServerError: s");
}
