//! Saved conversations.

use peakbot::conversation::{
    convert_conversation_to_rig_messages, render_conversations, resolve_conversation_id,
    resolve_reference, restore_call, Conversation, ConversationSummary, StoredMessage,
};
use peakbot::message::{
    assistant_text, user_text, AssistantContent, Media, MediaSource, Message, ToolCall,
    ToolResult, ToolResultContent, UserContent,
};
use peakbot::models::{ModelRegistry, ResolvedModel};

fn saved(messages: Vec<StoredMessage>) -> Vec<Message> {
    convert_conversation_to_rig_messages(&Conversation {
        id: 1,
        name: "n".to_string(),
        provider_name: "openrouter".to_string(),
        model: "m".to_string(),
        cwd: "/w".to_string(),
        messages,
    })
}

fn call(arguments: &str, call_id: Option<&str>) -> StoredMessage {
    StoredMessage::ToolCall {
        tool_name: "bash".to_string(),
        arguments: arguments.to_string(),
        call_id: call_id.map(str::to_string),
    }
}

fn result(text: &str, call_id: Option<&str>) -> StoredMessage {
    StoredMessage::ToolResult {
        tool_name: "bash".to_string(),
        result: text.to_string(),
        call_id: call_id.map(str::to_string),
    }
}

fn sent_call(m: &Message) -> &ToolCall {
    match m {
        Message::Assistant { content, .. } => match &content[0] {
            AssistantContent::ToolCall(tc) => tc,
            other => panic!("expected a call, got {other:?}"),
        },
        other => panic!("expected an assistant message, got {other:?}"),
    }
}

fn sent_result(m: &Message) -> &ToolResult {
    match m {
        Message::User { content } => match &content[0] {
            UserContent::ToolResult(tr) => tr,
            other => panic!("expected a result, got {other:?}"),
        },
        other => panic!("expected a user message, got {other:?}"),
    }
}

#[test]
fn texts_go_back_as_they_are() {
    let out = saved(vec![
        StoredMessage::User { content: "hi".to_string() },
        StoredMessage::Assistant { content: "hello".to_string() },
        StoredMessage::Summary { content: "so far".to_string() },
    ]);
    assert_eq!(
        out,
        vec![
            user_text("hi".to_string()),
            assistant_text("hello".to_string()),
            user_text("[Conversation summary] so far".to_string()),
        ]
    );
}

#[test]
fn a_call_and_its_result_share_an_id() {
    let out = saved(vec![
        call(r#"{"command":"ls"}"#, Some("c1")),
        result("a.rs", Some("c1")),
        call("{}", None),
        result("b.rs", None),
    ]);
    assert_eq!(sent_call(&out[0]).id, "c1");
    assert_eq!(sent_call(&out[0]).arguments, r#"{"command":"ls"}"#);
    assert_eq!(sent_result(&out[1]).id, "c1");
    assert_eq!(
        sent_result(&out[1]).content,
        vec![ToolResultContent::Text("a.rs".to_string())]
    );
    assert_eq!(sent_call(&out[2]).id, "bash");
    assert_eq!(sent_result(&out[3]).id, "bash");
}

#[test]
fn arguments_that_are_no_json_are_dropped() {
    let out = saved(vec![call("{broken", Some("c1"))]);
    assert_eq!(sent_call(&out[0]).arguments, "{}");
    let kept = restore_call(&"t".to_string(), &"[1]".to_string(), &None, true);
    assert_eq!(
        kept,
        AssistantContent::ToolCall(ToolCall {
            id: "t".to_string(),
            call_id: None,
            name: "t".to_string(),
            arguments: "[1]".to_string(),
        })
    );
}

#[test]
fn images_in_results_are_recognised() {
    let out = saved(vec![
        result(r#"{"type":"image","data":"aGk=","mimeType":"image/png"}"#, None),
        result(r#"{"response":"r","parts":[{"type":"image","data":"https://h/i.jpg","mimeType":"image/jpeg"}]}"#, None),
    ]);
    assert_eq!(
        sent_result(&out[0]).content,
        vec![ToolResultContent::Image(Media {
            source: MediaSource::Base64("aGk=".to_string()),
            media_type: Some("image/png".to_string()),
        })]
    );
    assert_eq!(
        sent_result(&out[1]).content,
        vec![
            ToolResultContent::Text("\"r\"".to_string()),
            ToolResultContent::Image(Media {
                source: MediaSource::Url("https://h/i.jpg".to_string()),
                media_type: Some("image/jpeg".to_string()),
            }),
        ]
    );
}

fn summary(id: u128, name: &str, at: i128, provider: &str, model: &str) -> ConversationSummary {
    ConversationSummary {
        id,
        name: name.to_string(),
        message_count: 3,
        updated_at: at,
        updated_text: format!("t{at}"),
        provider_name: provider.to_string(),
        model: model.to_string(),
    }
}

fn list() -> Vec<ConversationSummary> {
    vec![
        summary(10, "old", 1, "openrouter", "gone"),
        summary(20, "new", 9, "openrouter", "flash-wire"),
        summary(30, "same", 9, "", "ancient"),
    ]
}

const ID: &str = "67e55044-10b1-426f-9247-bb680e5fe0c8";

#[test]
fn numbers_count_the_listing() {
    let l = list();
    assert_eq!(resolve_conversation_id("1", Some(&l)), Ok(20));
    assert_eq!(resolve_conversation_id("2", Some(&l)), Ok(30), "equal ages keep their order");
    assert_eq!(resolve_conversation_id("3", Some(&l)), Ok(10));
    assert_eq!(
        resolve_conversation_id("4", Some(&l)).unwrap_err(),
        "Index 4 not found. /conversations shows 3 saved conversation(s)."
    );
    assert_eq!(
        resolve_conversation_id("0", Some(&l)).unwrap_err(),
        "Indices are 1-based. Use /conversations to see available items."
    );
    assert_eq!(
        resolve_conversation_id("1", None).unwrap_err(),
        "Conversation storage is not configured."
    );
}

#[test]
fn identifiers_are_read_in_any_notation() {
    let id: u128 = 0x67e5504410b1426f9247bb680e5fe0c8;
    assert_eq!(resolve_conversation_id(ID, None), Ok(id));
    assert_eq!(resolve_conversation_id("67e5504410b1426f9247bb680e5fe0c8", None), Ok(id));
    assert_eq!(
        resolve_conversation_id("nonsense", None).unwrap_err(),
        "Invalid argument. Pass an index from /conversations or a full UUID."
    );
    assert_eq!(resolve_reference("word", Some(7), None), Ok(7));
    assert_eq!(resolve_reference("1", Some(7), Some(&list())), Ok(20));
}

#[test]
fn the_listing_exactly() {
    let registry = ModelRegistry {
        models: vec![ResolvedModel {
            alias: "flash".to_string(),
            provider_name: "openrouter".to_string(),
            model_name: "flash-wire".to_string(),
            context_size: 1000,
        }],
        default_alias: "flash".to_string(),
    };
    assert_eq!(
        render_conversations(Some(&list()), Some(30), Some(&registry)),
        "Saved conversations (3):\n     1  new  3 msgs  t9  flash · openrouter/flash-wire\n▶   2  same  3 msgs  t9  (pre-v5) ancient ⚠ unavailable\n     3  old  3 msgs  t1  openrouter/gone ⚠ unavailable\n\nUse /load <n> to resume, /delete <n> to remove. UUIDs also accepted."
    );
    assert_eq!(
        render_conversations(Some(&list()[2..]), None, None),
        "Saved conversations (1):\n     1  same  3 msgs  t9  ancient\n\nUse /load <n> to resume, /delete <n> to remove. UUIDs also accepted."
    );
    assert_eq!(render_conversations(Some(&[]), None, None), "No saved conversations.");
    assert_eq!(
        render_conversations(None, None, None),
        "Conversation storage is not configured."
    );
}
