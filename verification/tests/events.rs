//! What the agents' events come to.

use peakbot::effect::{Effect, MessageSource};
use peakbot::events::{process_event_for_ui, AgentEvent, SourcedEvent};

fn sub(role: &str) -> MessageSource<String> {
    MessageSource::SubAgent { role: role.to_string() }
}

fn answer(content: &str, input: u64, output: u64, cost: f64) -> AgentEvent {
    AgentEvent::CompletionResponse {
        content: content.to_string(),
        input_tokens: input,
        output_tokens: output,
        cost_bits: cost.to_bits(),
        thinking: vec![],
    }
}

#[test]
fn sub_agent_completion_response_rolls_cost_into_stats() {
    let out = process_event_for_ui(
        true,
        SourcedEvent { source: sub("researcher"), event: answer("done", 100, 50, 0.02) },
    )
    .into_vec();
    match &out[0] {
        Effect::AddRequest { source, input_tokens, output_tokens, cost_bits } => {
            assert_eq!(*source, sub("researcher"));
            assert_eq!(*input_tokens, 100);
            assert_eq!(*output_tokens, 50);
            assert!((f64::from_bits(*cost_bits) - 0.02).abs() < f64::EPSILON);
        }
        other => panic!("expected the request to be counted, got {other:?}"),
    }
    assert_eq!(out.iter().filter(|e| matches!(e, Effect::AddRequest { .. })).count(), 1);
}

#[test]
fn sub_agent_tool_call_is_stamped_with_sub_agent_source() {
    let out = process_event_for_ui(
        true,
        SourcedEvent {
            source: sub("researcher"),
            event: AgentEvent::ToolCall {
                tool_name: "bash".to_string(),
                arguments: r#"{"command":"ls"}"#.to_string(),
                call_id: Some("c1".to_string()),
                response_id: None,
            },
        },
    )
    .into_vec();
    assert_eq!(out[0], Effect::SetStatus(Some("bash".to_string())));
    assert_eq!(
        out.last(),
        Some(&Effect::AddToolCall {
            source: sub("researcher"),
            response_id: None,
            tool_name: "bash".to_string(),
            arguments: r#"{"command":"ls"}"#.to_string(),
            call_id: Some("c1".to_string()),
        })
    );
}

#[test]
fn orchestrator_tool_call_stays_human_lane() {
    let out = process_event_for_ui(
        true,
        SourcedEvent {
            source: MessageSource::Human,
            event: AgentEvent::ToolCall {
                tool_name: "bash".to_string(),
                arguments: "{}".to_string(),
                call_id: None,
                response_id: None,
            },
        },
    )
    .into_vec();
    assert!(matches!(
        out.last(),
        Some(Effect::AddToolCall { source: MessageSource::Human, .. })
    ));
}

#[test]
fn sub_agent_completion_prose_lands_on_its_lane() {
    let text = "The diff looks solid; one nit on naming.";
    let out = process_event_for_ui(
        true,
        SourcedEvent { source: sub("critic"), event: answer(text, 10, 8, 0.0) },
    )
    .into_vec();
    assert_eq!(
        out.last(),
        Some(&Effect::AddSourcedMessage { source: sub("critic"), content: text.to_string() })
    );
}

#[test]
fn orchestrator_completion_prose_is_not_double_added() {
    let out = process_event_for_ui(
        true,
        SourcedEvent {
            source: MessageSource::Human,
            event: answer("I'll handle that.", 5, 3, 0.0),
        },
    )
    .into_vec();
    assert_eq!(out.len(), 1);
    assert!(matches!(out[0], Effect::AddRequest { .. }));
}

#[test]
fn thinking_goes_with_a_sub_agents_answer() {
    let event = AgentEvent::CompletionResponse {
        content: "".to_string(),
        input_tokens: 1,
        output_tokens: 2,
        cost_bits: 0,
        thinking: vec!["hm".to_string()],
    };
    let out = process_event_for_ui(true, SourcedEvent { source: sub("r"), event }).into_vec();
    assert_eq!(
        out[1],
        Effect::AddThinkingMessage {
            source: sub("r"),
            content: "".to_string(),
            thinking: vec!["hm".to_string()],
        }
    );
}

#[test]
fn blank_answers_and_silent_events_add_nothing() {
    let out = process_event_for_ui(
        true,
        SourcedEvent { source: sub("r"), event: answer(" \n", 1, 1, 0.0) },
    );
    assert_eq!(out.len(), 1);
    for event in [AgentEvent::SessionStart, AgentEvent::CompletionRequest, AgentEvent::SessionEnd] {
        assert_eq!(
            process_event_for_ui(true, SourcedEvent { source: MessageSource::Human, event }).len(),
            0
        );
    }
    let detached = process_event_for_ui(
        false,
        SourcedEvent { source: sub("r"), event: answer("x", 1, 1, 0.0) },
    );
    assert_eq!(detached.len(), 0);
}

#[test]
fn a_tool_result_clears_the_status() {
    let out = process_event_for_ui(
        true,
        SourcedEvent {
            source: MessageSource::Human,
            event: AgentEvent::ToolResult {
                tool_name: "bash".to_string(),
                arguments: "{}".to_string(),
                result: "ok".to_string(),
                call_id: None,
            },
        },
    )
    .into_vec();
    assert_eq!(
        out,
        vec![
            Effect::SetStatus(None),
            Effect::AddToolResult {
                source: MessageSource::Human,
                tool_name: "bash".to_string(),
                arguments: "{}".to_string(),
                result: "ok".to_string(),
                call_id: None,
            },
        ]
    );
}
