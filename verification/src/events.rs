//! What the agent's events come to on the screen and in the statistics.

use vstd::prelude::*;
use crate::effect::{Effect, EffectView, Effects, MessageSource};
use crate::text;

verus! {

/// What an agent reports.
#[derive(Debug, PartialEq)]
pub enum AgentEvent {
    SessionStart,
    CompletionRequest,
    /// A model answered. The cost is passed through as its bits.
    CompletionResponse {
        content: String,
        input_tokens: u64,
        output_tokens: u64,
        cost_bits: u64,
        thinking: Vec<String>,
    },
    ToolCall {
        tool_name: String,
        arguments: String,
        call_id: Option<String>,
        response_id: Option<String>,
    },
    ToolResult {
        tool_name: String,
        arguments: String,
        result: String,
        call_id: Option<String>,
    },
    SessionEnd,
}

/// An event with the agent that reports it.
#[derive(Debug, PartialEq)]
pub struct SourcedEvent {
    pub source: MessageSource<String>,
    pub event: AgentEvent,
}

/// Whether an event is the orchestrator's own.
pub open spec fn is_orchestrator_lane<S>(source: MessageSource<S>) -> bool {
    source is Human
}

/// What a sub-agent's answer comes to. What the orchestrator says is written when
/// its turn ends.
pub open spec fn prose_effects(
    source: MessageSource<Seq<char>>,
    content: Seq<char>,
    thinking: Vec<String>,
) -> Seq<EffectView> {
    if is_orchestrator_lane(source) {
        Seq::empty()
    } else if thinking@.len() > 0 {
        seq![Effect::AddThinkingMessage { source, content, thinking }]
    } else if !text::is_blank(content) {
        seq![Effect::AddSourcedMessage { source, content }]
    } else {
        Seq::empty()
    }
}

/// What an event comes to.
pub open spec fn event_effects(attached: bool, e: SourcedEvent) -> Seq<EffectView> {
    if !attached {
        Seq::empty()
    } else {
        match e.event {
            AgentEvent::CompletionResponse {
                content,
                input_tokens,
                output_tokens,
                cost_bits,
                thinking,
            } => seq![
                Effect::AddRequest { source: e.source@, input_tokens, output_tokens, cost_bits },
            ] + prose_effects(e.source@, content@, thinking),
            AgentEvent::ToolCall { tool_name, arguments, call_id, response_id } => seq![
                Effect::SetStatus(Some(tool_name@)),
                Effect::AddToolCall {
                    source: e.source@,
                    response_id: text::opt(response_id),
                    tool_name: tool_name@,
                    arguments: arguments@,
                    call_id: text::opt(call_id),
                },
            ],
            AgentEvent::ToolResult { tool_name, arguments, result, call_id } => seq![
                Effect::SetStatus(None),
                Effect::AddToolResult {
                    source: e.source@,
                    tool_name: tool_name@,
                    arguments: arguments@,
                    result: result@,
                    call_id: text::opt(call_id),
                },
            ],
            AgentEvent::SessionStart | AgentEvent::CompletionRequest | AgentEvent::SessionEnd =>
                Seq::empty(),
        }
    }
}

fn copy_source(s: &MessageSource<String>) -> (r: MessageSource<String>)
    ensures
        r@ == s@,
{
    match s {
        MessageSource::Human => MessageSource::Human,
        MessageSource::SubAgent { role } => MessageSource::SubAgent { role: role.clone() },
    }
}

/// Decides what an event comes to. Every answer counts in the statistics, a
/// sub-agent's like the orchestrator's. Each message is marked with the agent that
/// it comes from.
pub fn process_event_for_ui(attached: bool, sourced: SourcedEvent) -> (r: Effects)
    ensures
        r@ == event_effects(attached, sourced),
{
    let mut out = Effects::new();
    if !attached {
        return out;
    }
    let ghost sourced0 = sourced;
    let source = sourced.source;
    match sourced.event {
        AgentEvent::CompletionResponse {
            content,
            input_tokens,
            output_tokens,
            cost_bits,
            thinking,
        } => {
            out.push(
                Effect::AddRequest {
                    source: copy_source(&source),
                    input_tokens,
                    output_tokens,
                    cost_bits,
                },
            );
            let own = match &source {
                MessageSource::Human => true,
                MessageSource::SubAgent { .. } => false,
            };
            if !own {
                if thinking.len() > 0 {
                    out.push(Effect::AddThinkingMessage { source, content, thinking });
                } else if !text::text_is_blank(content.as_str()) {
                    out.push(Effect::AddSourcedMessage { source, content });
                }
            }
        },
        AgentEvent::ToolCall { tool_name, arguments, call_id, response_id } => {
            out.push(Effect::SetStatus(Some(tool_name.clone())));
            out.push(
                Effect::AddToolCall { source, response_id, tool_name, arguments, call_id },
            );
        },
        AgentEvent::ToolResult { tool_name, arguments, result, call_id } => {
            out.push(Effect::SetStatus(None));
            out.push(Effect::AddToolResult { source, tool_name, arguments, result, call_id });
        },
        AgentEvent::SessionStart | AgentEvent::CompletionRequest | AgentEvent::SessionEnd => {},
    }
    assert(out@ =~= event_effects(attached, sourced0));
    out
}

/// The cost of an answer is counted whichever agent gave it: a delegation's cost is
/// never silent.
pub proof fn law_every_answer_is_counted(e: SourcedEvent)
    requires
        e.event is CompletionResponse,
    ensures
        event_effects(true, e).len() >= 1,
        event_effects(true, e)[0] == (Effect::<Seq<char>, Seq<crate::message::Media>>::AddRequest {
            source: e.source@,
            input_tokens: e.event->input_tokens,
            output_tokens: e.event->output_tokens,
            cost_bits: e.event->cost_bits,
        }),
{
}

/// The orchestrator's own answer is never written here: it would stand in the chat
/// twice.
pub proof fn law_orchestrator_prose_is_not_doubled(e: SourcedEvent, i: int)
    requires
        is_orchestrator_lane(e.source),
        0 <= i < event_effects(true, e).len(),
    ensures
        !(event_effects(true, e)[i] is AddSourcedMessage),
        !(event_effects(true, e)[i] is AddThinkingMessage),
        !(event_effects(true, e)[i] is AddAssistantMessage),
{
}

/// A tool call and its result are recorded whole, each for the agent that made it, with
/// the ids that bind them together. The status names the tool while it runs.
pub proof fn law_tool_calls_are_recorded(e: SourcedEvent)
    ensures
        e.event matches AgentEvent::ToolCall { tool_name, arguments, call_id, response_id } ==> {
            let all = event_effects(true, e);
            &&& all.len() == 2
            &&& all.contains(Effect::SetStatus(Some(tool_name@)))
            &&& all.contains(
                Effect::AddToolCall {
                    source: e.source@,
                    response_id: text::opt(response_id),
                    tool_name: tool_name@,
                    arguments: arguments@,
                    call_id: text::opt(call_id),
                },
            )
        },
        e.event matches AgentEvent::ToolResult { tool_name, arguments, result, call_id } ==> {
            let all = event_effects(true, e);
            &&& all.len() == 2
            &&& all.contains(Effect::SetStatus(None))
            &&& all.contains(
                Effect::AddToolResult {
                    source: e.source@,
                    tool_name: tool_name@,
                    arguments: arguments@,
                    result: result@,
                    call_id: text::opt(call_id),
                },
            )
        },
        event_effects(false, e).len() == 0,
        e.event is SessionStart || e.event is CompletionRequest || e.event is SessionEnd
            ==> event_effects(true, e).len() == 0,
{
    let all = event_effects(true, e);
    if all.len() == 2 {
        assert(all.contains(all[0]));
        assert(all.contains(all[1]));
    }
}

/// What a sub-agent says is shown once, marked with the sub-agent: with its reasoning
/// where it has any, else where it is not blank.
pub proof fn law_sub_agent_prose_is_shown(e: SourcedEvent)
    requires
        e.event is CompletionResponse,
        e.source is SubAgent,
    ensures
        ({
            let all = event_effects(true, e);
            let content = e.event->content@;
            let thinking = e.event->thinking;
            &&& thinking@.len() > 0 ==> all.len() == 2 && all[1] == (Effect::<
                Seq<char>,
                Seq<crate::message::Media>,
            >::AddThinkingMessage { source: e.source@, content, thinking })
            &&& thinking@.len() == 0 && text::trim(content).len() > 0 ==> all.len() == 2 && all[1]
                == (Effect::<Seq<char>, Seq<crate::message::Media>>::AddSourcedMessage {
                source: e.source@,
                content,
            })
            &&& thinking@.len() == 0 && text::trim(content).len() == 0 ==> all.len() == 1
        }),
{
}

} // verus!
