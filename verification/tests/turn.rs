//! Turns: events, retries and what the next request carries.

use peakbot::effect::{CompletionResult, Effect};
use peakbot::message::{
    assistant_text, user_text, AssistantContent, Media, MediaSource, Message, ToolCall,
    ToolResult, ToolResultContent, UserContent,
};
use peakbot::turn::{
    derive_history_for_iteration, refresh_attempt_from_transcript, resume_attempt,
    shown_error, CompactionCounts, Turn, TurnEvent, TurnNext,
};

fn message_texts(msg: &Message) -> Vec<String> {
    let mut out = Vec::new();
    match msg {
        Message::User { content } => {
            for c in content {
                match c {
                    UserContent::Text(t) => out.push(t.clone()),
                    UserContent::ToolResult(tr) => {
                        for rc in &tr.content {
                            if let ToolResultContent::Text(t) = rc {
                                out.push(t.clone());
                            }
                        }
                    }
                    _ => {}
                }
            }
        }
        Message::Assistant { content, .. } => {
            for c in content {
                match c {
                    AssistantContent::Text(t) => out.push(t.clone()),
                    AssistantContent::ToolCall(tc) => out.push(tc.arguments.clone()),
                    _ => {}
                }
            }
        }
        Message::System { .. } => {}
    }
    out
}

fn count_occurrences(msgs: &[Message], needle: &str) -> usize {
    msgs.iter().flat_map(message_texts).filter(|t| t.contains(needle)).count()
}

fn call(id: &str, name: &str, arguments: &str) -> Message {
    Message::Assistant {
        id: None,
        content: vec![AssistantContent::ToolCall(ToolCall {
            id: id.to_string(),
            call_id: None,
            name: name.to_string(),
            arguments: arguments.to_string(),
        })],
    }
}

fn result(id: &str, text: &str) -> Message {
    Message::User {
        content: vec![UserContent::ToolResult(ToolResult {
            id: id.to_string(),
            call_id: None,
            content: vec![ToolResultContent::Text(text.to_string())],
        })],
    }
}

/// A transcript that ends in a tool result, and the resumption that its end gives:
/// the result as the prompt, everything before it as the history.
fn roundtrip(question: &str, marker: &str) -> (Vec<Message>, (Message, Vec<Message>)) {
    let before = vec![
        user_text(question.to_string()),
        assistant_text("I'll run ls for you".to_string()),
        call("c1", "bash", r#"{"command":"ls"}"#),
    ];
    let mut all = before.clone();
    all.push(result("c1", marker));
    (all, (result("c1", marker), before))
}

#[test]
fn derive_history_for_iteration_does_not_duplicate_toolresult_on_resume() {
    let marker = "UNIQUE_TOOLRESULT_MARKER_12345";
    let (transcript, (prompt, resumption_history)) = roundtrip("list files", marker);
    let mut history_override = Some(resumption_history);
    let derived = derive_history_for_iteration(&mut history_override, Some(transcript));
    let total = count_occurrences(std::slice::from_ref(&prompt), marker)
        + count_occurrences(&derived, marker);
    assert_eq!(total, 1);
    assert!(history_override.is_none());
}

#[test]
fn derive_history_for_iteration_falls_through_to_state_manager_when_no_override() {
    let history =
        vec![user_text("hello".to_string()), assistant_text("hi there".to_string())];
    let mut history_override: Option<Vec<Message>> = None;
    let derived = derive_history_for_iteration(&mut history_override, Some(history.clone()));
    assert_eq!(derived.len(), history.len());
    assert_eq!(derived, history);
}

#[test]
fn derive_history_for_iteration_handles_no_state_manager() {
    let mut history_override: Option<Vec<Message>> = None;
    let derived = derive_history_for_iteration(&mut history_override, None);
    assert!(derived.is_empty());
}

#[test]
fn retry_after_tool_roundtrip_must_not_resend_the_original_user_turn() {
    let question = "read /tmp/screencap.png";
    let (transcript, tail) = roundtrip(question, "ok");
    let mut history_override: Option<Vec<Message>> = None;
    let mut prompt = user_text(question.to_string());
    refresh_attempt_from_transcript(Some(tail), &mut prompt, &mut history_override);
    let history = derive_history_for_iteration(&mut history_override, Some(transcript));
    let occurrences = count_occurrences(&history, question)
        + count_occurrences(std::slice::from_ref(&prompt), question);
    assert_eq!(occurrences, 1);
}

#[test]
fn refresh_attempt_from_transcript_after_tool_roundtrip_promotes_the_toolresult() {
    let (_, tail) = roundtrip("read /tmp/screencap.png", "ok");
    let mut current_turn = user_text("read /tmp/screencap.png".to_string());
    let mut history_override: Option<Vec<Message>> = None;
    assert!(refresh_attempt_from_transcript(
        Some(tail),
        &mut current_turn,
        &mut history_override
    ));
    match &current_turn {
        Message::User { content } => match &content[0] {
            UserContent::ToolResult(tr) => assert_eq!(tr.id, "c1"),
            other => panic!("expected ToolResult content, got {other:?}"),
        },
        other => panic!("expected User message, got {other:?}"),
    }
    let history = history_override.expect("an override");
    match history.last() {
        Some(Message::Assistant { content, .. }) => {
            assert!(matches!(&content[0], AssistantContent::ToolCall(tc) if tc.id == "c1"))
        }
        other => panic!("expected the call, got {other:?}"),
    }
}

#[test]
fn refresh_attempt_from_transcript_on_a_fresh_turn_leaves_the_turn_alone() {
    let original = user_text("just a fresh question".to_string());
    let mut current_turn = original.clone();
    let mut history_override: Option<Vec<Message>> = None;
    assert!(!refresh_attempt_from_transcript(None, &mut current_turn, &mut history_override));
    assert_eq!(current_turn, original);
    assert!(history_override.is_none());
}

#[test]
fn refresh_attempt_from_transcript_preserves_user_image_attachments() {
    let mut current_turn = Message::User {
        content: vec![
            UserContent::Text("what is in this image?".to_string()),
            UserContent::Image(Media {
                source: MediaSource::Base64("AQIDBA==".to_string()),
                media_type: Some("image/png".to_string()),
            }),
        ],
    };
    let mut history_override: Option<Vec<Message>> = None;
    let _ = refresh_attempt_from_transcript(None, &mut current_turn, &mut history_override);
    match &current_turn {
        Message::User { content } => {
            assert!(content.iter().any(|c| matches!(c, UserContent::Image(_))))
        }
        other => panic!("expected User message, got {other:?}"),
    }
}

#[test]
fn resuming_falls_back_to_the_turn_built_anew() {
    let mut current_turn = user_text("old".to_string());
    let mut history_override: Option<Vec<Message>> = None;
    resume_attempt(
        None,
        Some(user_text("new".to_string())),
        &mut current_turn,
        &mut history_override,
    );
    assert_eq!(current_turn, user_text("new".to_string()));
    resume_attempt(
        Some((user_text("tail".to_string()), vec![])),
        Some(user_text("unused".to_string())),
        &mut current_turn,
        &mut history_override,
    );
    assert_eq!(current_turn, user_text("tail".to_string()));
    assert_eq!(history_override, Some(vec![]));
}

fn failed(transient: bool) -> TurnEvent {
    TurnEvent::Failed { transient, error: "boom".to_string(), delay: "1.5".to_string() }
}

#[test]
fn a_turn_that_is_answered() {
    let mut turn = Turn::new();
    let (out, next) = turn.step(TurnEvent::Answered("hi".to_string()), true, 3);
    assert_eq!(next, TurnNext::Done(CompletionResult::Success));
    assert_eq!(
        out.into_vec(),
        vec![
            Effect::AddAssistantMessage { content: "hi".to_string() },
            Effect::SetFinalBroadcast(true),
            Effect::MaybeGenerateTitle,
        ]
    );
    let (out, next) = Turn::new().step(TurnEvent::Stopped, true, 3);
    assert_eq!(next, TurnNext::Done(CompletionResult::Stopped));
    assert_eq!(out.len(), 0);
}

#[test]
fn transient_failures_are_retried_up_to_the_limit() {
    let mut turn = Turn::new();
    let (out, next) = turn.step(failed(true), true, 2);
    assert_eq!(next, TurnNext::Retry);
    assert_eq!(
        out.into_vec(),
        vec![Effect::SetStatus(Some("Retrying (attempt 1/2) after 1.5s…".to_string()))]
    );
    let (_, next) = turn.step(failed(true), true, 2);
    assert_eq!(next, TurnNext::Retry);
    assert_eq!(turn.retry_count, 2);
    let (out, next) = turn.step(failed(true), true, 2);
    assert_eq!(next, TurnNext::Done(CompletionResult::Error));
    assert_eq!(
        out.into_vec(),
        vec![
            Effect::SetStatus(None),
            Effect::SystemMessage("❌ LLM request failed after 2 retries: boom".to_string()),
        ]
    );
}

#[test]
fn other_failures_end_the_turn() {
    let (out, next) = Turn::new().step(failed(false), true, 5);
    assert_eq!(next, TurnNext::Done(CompletionResult::Error));
    assert_eq!(
        out.into_vec(),
        vec![
            Effect::SetStatus(None),
            Effect::SystemMessage("❌ LLM request failed: boom".to_string()),
        ]
    );
    let (out, next) = Turn::new().step(
        TurnEvent::Cancelled { reason: "stop".to_string() },
        true,
        5,
    );
    assert_eq!(next, TurnNext::Done(CompletionResult::Error));
    assert_eq!(out.len(), 0);
}

#[test]
fn a_full_context_is_compacted_on_the_way() {
    let compact = || TurnEvent::Cancelled { reason: "compact".to_string() };
    let mut turn = Turn::new();
    let (out, next) = turn.step(compact(), true, 5);
    assert_eq!(next, TurnNext::Compact);
    assert_eq!(
        out.into_vec(),
        vec![Effect::SetStatus(Some("Compacting context...".to_string()))]
    );
    let counts =
        CompactionCounts { original_count: 40, compacted_count: 12, num_discarded: 28 };
    let (out, next) = turn.step(TurnEvent::Compacted(Some(counts)), true, 5);
    assert_eq!(next, TurnNext::Resume);
    assert_eq!(
        out.into_vec(),
        vec![
            Effect::SetStatus(None),
            Effect::SystemMessage(
                "Context compacted: 40 → 12 messages, 28 compacted".to_string()
            ),
        ]
    );
    let (out, next) = turn.step(TurnEvent::Compacted(None), true, 5);
    assert_eq!(next, TurnNext::Done(CompletionResult::Error));
    assert_eq!(out.len(), 3);
    let (_, next) = turn.step(compact(), false, 5);
    assert_eq!(next, TurnNext::Done(CompletionResult::Error));
}

#[test]
fn a_long_error_is_cut() {
    let short = "e".repeat(2000);
    assert_eq!(shown_error(&short), short);
    assert_eq!(shown_error(&"e".repeat(2001)), format!("{short}…"));
}

#[test]
fn a_turn_shows_no_more_of_an_error() {
    let mut turn = Turn::new();
    let failed = TurnEvent::Failed {
        transient: false,
        error: "e".repeat(3000),
        delay: String::new(),
    };
    let (out, next) = turn.step(failed, true, 3);
    assert_eq!(next, TurnNext::Done(CompletionResult::Error));
    assert_eq!(
        out.into_vec()[1],
        Effect::SystemMessage(format!("❌ LLM request failed: {}…", "e".repeat(2000)))
    );
}
