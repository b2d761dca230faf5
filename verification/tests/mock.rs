//! The mock model.

use peakbot::message::{user_text, AssistantContent};
use peakbot::mock::{
    MockCompletionModel, MockModelResponse, MockResponse, RecordedRequest, TokenUsage, Usage,
};

fn request() -> RecordedRequest {
    RecordedRequest {
        preamble: None,
        chat_history: vec![user_text("test".to_string())],
        tool_count: 0,
    }
}

#[test]
fn test_text_response() {
    let mut mock = MockCompletionModel::new();
    mock.add_response(MockResponse::text("Hello, world!"));
    let response = mock.completion(request(), "1").unwrap();
    match &response.choice[0] {
        AssistantContent::Text(t) => assert_eq!(t, "Hello, world!"),
        _ => panic!("Expected text response"),
    }
    assert_eq!(
        response.raw_response,
        MockModelResponse { content: "Hello, world!".to_string(), is_tool_call: false }
    );
}

#[test]
fn test_tool_call_response() {
    let mut mock = MockCompletionModel::new();
    mock.add_response(MockResponse::tool_call(
        "todo",
        r#"{"action":"add","tasks":["Test task"]}"#,
    ));
    let response = mock.completion(request(), "4f").unwrap();
    match &response.choice[0] {
        AssistantContent::ToolCall(tc) => {
            assert_eq!(tc.name, "todo");
            assert_eq!(tc.id, "call_4f");
            assert_eq!(tc.arguments, r#"{"action":"add","tasks":["Test task"]}"#);
        }
        _ => panic!("Expected tool call response"),
    }
    assert_eq!(response.choice.len(), 1);
    assert_eq!(
        response.raw_response,
        MockModelResponse { content: "Tool call: todo".to_string(), is_tool_call: true }
    );
}

#[test]
fn test_empty_queue_error() {
    let mut mock = MockCompletionModel::new();
    let result = mock.completion(request(), "1");
    assert!(result.is_err());
    assert_eq!(result.unwrap_err(), "MockCompletionModel: no responses queued");
    assert_eq!(mock.request_count(), 1, "the request is recorded all the same");
}

#[test]
fn test_multiple_responses() {
    let mut mock = MockCompletionModel::new();
    mock.add_responses(vec![
        MockResponse::text("First"),
        MockResponse::text("Second"),
        MockResponse::text("Third"),
    ]);
    assert_eq!(mock.remaining(), 3);
    let r1 = mock.completion(request(), "1").unwrap();
    assert_eq!(mock.remaining(), 2);
    let r2 = mock.completion(request(), "1").unwrap();
    assert_eq!(mock.remaining(), 1);
    let r3 = mock.completion(request(), "1").unwrap();
    assert_eq!(mock.remaining(), 0);
    assert_eq!(
        [r1, r2, r3].map(|r| r.raw_response.content),
        ["First".to_string(), "Second".to_string(), "Third".to_string()]
    );
}

#[test]
fn a_follow_up_stands_behind_the_call() {
    let mut mock = MockCompletionModel::new();
    mock.add_response(MockResponse::tool_call_with_follow_up("t", "{}", "then this"));
    let r = mock.completion(request(), "1").unwrap();
    assert_eq!(r.choice[1], AssistantContent::Text("then this".to_string()));
    assert_eq!(r.raw_response.content, "then this");
}

#[test]
fn tokens_are_counted() {
    let mut mock = MockCompletionModel::default();
    let used = Usage { input_tokens: 7, output_tokens: 5 };
    mock.add_response(MockResponse::text_with_usage("a", used));
    mock.add_response(MockResponse::text("b"));
    mock.add_response(MockResponse::tool_call_with_usage("t", "{}", Usage::default()));
    mock.add_response(MockResponse::text("c").with_usage(Usage { input_tokens: 1, output_tokens: 1 }));
    mock.set_default_usage(10, 20);
    let totals: Vec<u64> =
        (0..4).map(|_| mock.completion(request(), "1").unwrap().usage.total_tokens).collect();
    assert_eq!(totals, vec![12, 30, 150, 2]);
    let raw = MockModelResponse { content: String::new(), is_tool_call: false };
    assert_eq!(
        raw.token_usage(),
        Some(TokenUsage { input_tokens: 100, output_tokens: 50, total_tokens: 150 })
    );
    let failed = MockResponse::error("e").with_usage(Usage::default());
    assert_eq!(failed, MockResponse::error("e"));
}

#[test]
fn clearing_keeps_what_was_recorded() {
    let mut mock = MockCompletionModel::new();
    mock.add_response(MockResponse::text("a"));
    mock.add_response(MockResponse::text("b"));
    assert!(mock.has_responses());
    let _ = mock.completion(request(), "1");
    mock.clear();
    assert!(!mock.has_responses());
    assert_eq!(mock.get_recorded_requests(), &[request()]);
}
