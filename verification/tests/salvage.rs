//! What is saved of a sub-agent's own messages.

use peakbot::message::{
    assistant_text as assistant, user_text as user, AssistantContent, Message, ToolCall,
};
use peakbot::pipeline::sub_agent_messages::{
    assistant_texts, attach_note, file_name, note, plan_salvage, render, KEEP,
};

fn user_text(t: &str) -> Message {
    user(t.to_string())
}

fn assistant_text(t: &str) -> Message {
    assistant(t.to_string())
}

fn assistant_two_texts(a: &str, b: &str) -> Message {
    Message::Assistant {
        id: None,
        content: vec![
            AssistantContent::Text(a.to_string()),
            AssistantContent::Text(b.to_string()),
        ],
    }
}

fn system(t: &str) -> Message {
    Message::System { content: t.to_string() }
}

#[test]
fn assistant_texts_returns_assistant_texts_oldest_first_and_excludes_user_and_system() {
    let h = vec![
        system("you are a helper"),
        user_text("orchestrator task"),
        assistant_text("first answer"),
        user_text("tool result"),
        assistant_text("second answer"),
        system("another system"),
    ];
    assert_eq!(
        assistant_texts(&h),
        vec!["first answer".to_string(), "second answer".to_string()],
        "oldest-first, user/system/tool results excluded"
    );
}

#[test]
fn assistant_texts_excludes_tool_call_reasoning_and_image_assistant_blocks() {
    let tool_only = Message::Assistant {
        id: None,
        content: vec![AssistantContent::ToolCall(ToolCall {
            id: "call-1".to_string(),
            call_id: None,
            name: "bash".to_string(),
            arguments: r#"{"command":"ls"}"#.to_string(),
        })],
    };
    let reasoning_only = Message::Assistant {
        id: None,
        content: vec![AssistantContent::Reasoning("thinking…".to_string())],
    };
    let h = vec![tool_only, reasoning_only, assistant_text("kept text")];
    assert_eq!(assistant_texts(&h), vec!["kept text".to_string()]);
}

#[test]
fn assistant_texts_joins_multiple_text_blocks_in_one_turn_with_newline() {
    let h = vec![assistant_two_texts("line one", "line two"), assistant_text("alone")];
    assert_eq!(
        assistant_texts(&h),
        vec!["line one\nline two".to_string(), "alone".to_string()]
    );
}

#[test]
fn assistant_texts_drops_whitespace_only_text_turns() {
    let h = vec![
        assistant_text("   \n\t  "),
        assistant_text(""),
        assistant_text("real content"),
        assistant_text(" \n "),
    ];
    assert_eq!(assistant_texts(&h), vec!["real content".to_string()]);
}

#[test]
fn assistant_texts_empty_history_returns_empty_vec() {
    assert!(assistant_texts(&[]).is_empty());
}

#[test]
fn file_name_two_consecutive_calls_yield_different_names() {
    let a = file_name("researcher", 31337, 0);
    let b = file_name("researcher", 31337, 1);
    assert_ne!(a, b, "the counter must advance so two calls never collide");
    assert_eq!(a, "delegate_researcher_31337_0.txt");
}

#[test]
fn file_name_sanitises_role_path_separators_and_spaces() {
    for hostile in ["../etc/passwd", "weird/role name", "a b c", "x/y/../z"] {
        let name = file_name(hostile, 7, 0);
        assert!(name.starts_with("delegate_") && name.ends_with(".txt"), "{name:?}");
        assert!(!name.contains('/') && !name.contains('\\'), "{name:?}");
        let body = name
            .strip_prefix("delegate_")
            .and_then(|s| s.strip_suffix(".txt"))
            .unwrap_or_else(|| panic!("shape: {name:?}"));
        let (after_counter, _counter) = peel_numeric_segment(body);
        let (role, _pid) = peel_numeric_segment(&after_counter);
        assert!(!role.is_empty(), "role segment must be non-empty: {name:?}");
        assert!(
            role.chars().all(|c| c.is_ascii_alphanumeric() || c == '_' || c == '-'),
            "role={role:?} name={name:?}"
        );
    }
}

fn peel_numeric_segment(s: &str) -> (String, String) {
    let bytes = s.as_bytes();
    let mut i = bytes.len();
    while i > 0 && bytes[i - 1].is_ascii_digit() {
        i -= 1;
    }
    assert!(i < bytes.len(), "expected trailing digits: {s:?}");
    assert!(i > 0, "no separator before digits: {s:?}");
    let sep = bytes[i - 1];
    assert!(sep == b'_' || sep == b'-', "unexpected separator in {s:?}");
    (s[..i - 1].to_string(), s[i - 1..].to_string())
}

#[test]
fn render_contains_every_kept_message_body_verbatim() {
    let kept: Vec<String> = vec!["alpha".into(), "beta".into(), "gamma".into()];
    let body = render("researcher", &kept, kept.len());
    for k in &kept {
        assert!(body.contains(k.as_str()), "missing {k:?} in:\n{body}");
    }
}

#[test]
fn render_header_says_last_x_of_y_when_truncated_and_all_n_otherwise() {
    let kept: Vec<String> = (0..10).map(|i| format!("m{i}")).collect();
    let truncated = render("researcher", &kept, 14);
    assert!(truncated.contains("last 10 of 14"), "{truncated}");
    let complete = render("researcher", &kept, 10);
    assert!(complete.contains("all 10"), "{complete}");
    assert!(!complete.contains("last 10 of 10"), "{complete}");
}

#[test]
fn render_contains_numbered_message_banners_one_through_n() {
    let kept: Vec<String> = vec!["x".into(), "y".into(), "z".into()];
    let body = render("researcher", &kept, kept.len());
    for i in 1..=kept.len() {
        let banner = format!("===== message {i}/{} =====", kept.len());
        assert!(body.contains(&banner), "missing banner {banner:?} in:\n{body}");
    }
}

#[test]
fn note_contains_role_count_exact_path_and_file_read_keyword() {
    let p = "/tmp/peakbot/delegate_researcher_31337_0.txt";
    let n = note("researcher", 8, p);
    assert!(n.contains("researcher"), "missing role: {n}");
    assert!(n.contains("8"), "missing count: {n}");
    assert!(n.contains(p), "missing exact path string: {n}");
    assert!(n.contains("file_read"), "missing `file_read`: {n}");
}

#[test]
fn note_uses_singular_message_was_when_kept_is_one() {
    let n = note("one", 1, "/tmp/peakbot/delegate_one_1_0.txt");
    assert!(n.contains("message was"), "expected singular: {n}");
    assert!(!n.contains("messages were"), "must not be plural: {n}");
}

#[test]
fn attach_note_in_returns_result_unchanged_and_creates_no_file_when_no_assistant_text() {
    let h: Vec<Message> = vec![user_text("orchestrator task"), system("sys")];
    assert!(plan_salvage("researcher", &h).is_none(), "nothing is to be saved");
}

#[test]
fn attach_note_in_with_three_assistant_texts_appends_pointer_and_writes_file_with_all_three() {
    let result = "final report from sub-agent".to_string();
    let h = vec![
        user_text("task"),
        assistant_text("draft one"),
        assistant_text("draft two"),
        assistant_text("draft three"),
    ];
    let plan = plan_salvage("researcher", &h).expect("there is text to save");
    assert_eq!(plan.kept, 3);
    for txt in ["draft one", "draft two", "draft three"] {
        assert!(plan.body.contains(txt), "missing {txt:?} in:\n{}", plan.body);
    }
    let path = "/tmp/peakbot/delegate_researcher_1_0.txt";
    let out = attach_note(result.clone(), "researcher", plan.kept, Some(path));
    assert!(out.starts_with(&result), "got {out:?}");
    assert!(out.len() > result.len(), "note must extend the result");
    let path_token = out
        .split("saved to ")
        .nth(1)
        .and_then(|s| s.split_whitespace().next())
        .expect("note must contain 'saved to <path>'");
    assert_eq!(path_token, path);
}

#[test]
fn attach_note_in_with_fourteen_assistant_texts_keeps_last_ten_and_drops_earliest() {
    let h: Vec<Message> = (1..=14).map(|i| assistant_text(&format!("turn-{i:02}"))).collect();
    let plan = plan_salvage("researcher", &h).expect("there is text to save");
    assert_eq!(plan.kept, KEEP);
    assert!(plan.body.contains("last 10 of 14"), "{}", plan.body);
    let out = attach_note("final".to_string(), "researcher", plan.kept, Some("/tmp/f.txt"));
    assert!(out.contains("Its 10 earlier"), "{out}");
    for i in 5..=14 {
        let token = format!("turn-{i:02}");
        assert!(plan.body.contains(&token), "{token:?} in:\n{}", plan.body);
    }
    assert!(!plan.body.contains("turn-01"), "{}", plan.body);
}

#[test]
fn attach_note_in_saved_file_does_not_contain_the_final_reply() {
    let result = "SENTINEL_FINAL_REPLY_zX7q9B";
    let h = vec![user_text("task"), assistant_text("draft one"), assistant_text("draft two")];
    let plan = plan_salvage("researcher", &h).expect("there is text to save");
    assert!(!plan.body.contains(result), "{}", plan.body);
}

#[test]
fn attach_note_in_degrades_silently_when_target_dir_cannot_be_created() {
    let result = "untouched final result".to_string();
    let out = attach_note(result.clone(), "researcher", 1, None);
    assert_eq!(out, result, "a failed write leaves the result as it is");
}

#[test]
fn attach_note_in_two_back_to_back_calls_write_to_different_paths() {
    let h = vec![user_text("task"), assistant_text("a"), assistant_text("b")];
    let plan = plan_salvage("researcher", &h).expect("there is text to save");
    let out1 = attach_note("r".to_string(), "researcher", plan.kept, Some(&file_name("researcher", 9, 4)));
    let out2 = attach_note("r".to_string(), "researcher", plan.kept, Some(&file_name("researcher", 9, 5)));
    assert_ne!(out1, out2, "two calls must name two distinct files");
    assert!(plan.body.contains("a") && plan.body.contains("b"));
}
