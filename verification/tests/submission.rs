//! Routing of submitted texts.

use peakbot::message::{Media, MediaSource};
use peakbot::submission::{
    classify_submission, means_none, needs_scan, AttachmentScan, PipelineSubmission, SubmitKind,
};

fn no_images(msg: &str) -> AttachmentScan {
    AttachmentScan::Parsed { text: msg.to_string(), attachments: vec![] }
}

fn classify(msg: &str) -> SubmitKind {
    classify_submission(msg, no_images(msg))
}

#[test]
fn classify_plain_text_is_user_message() {
    assert!(matches!(
        classify("hello world"),
        SubmitKind::UserMessage(s) if s == "hello world"
    ));
}

#[test]
fn classify_slash_new_is_command() {
    assert!(matches!(classify("/new"), SubmitKind::Command(s) if s == "/new"));
}

#[test]
fn classify_slash_help_is_command() {
    assert!(matches!(classify("/help"), SubmitKind::Command(s) if s == "/help"));
}

#[test]
fn classify_slash_with_args_is_command() {
    assert!(matches!(
        classify("/load 123e4567-e89b-12d3-a456-426614174000"),
        SubmitKind::Command(_)
    ));
}

#[test]
fn classify_slash_stop_is_stop_command() {
    assert!(matches!(classify("/stop"), SubmitKind::StopCommand));
}

#[test]
fn classify_trims_whitespace_before_deciding() {
    assert!(matches!(classify("/new\n"), SubmitKind::Command(_)));
    assert!(matches!(classify("  /stop  "), SubmitKind::StopCommand));
}

#[test]
fn classify_mid_sentence_slash_stays_user_message() {
    assert!(matches!(classify("TODO: /foo or /bar?"), SubmitKind::UserMessage(_)));
}

#[test]
fn classify_empty_is_user_message() {
    assert!(matches!(classify(""), SubmitKind::UserMessage(_)));
    assert!(matches!(classify("   "), SubmitKind::UserMessage(_)));
}

#[test]
fn classify_pipeline_bare_lists() {
    assert!(matches!(
        classify("/pipeline"),
        SubmitKind::PipelineCommand(PipelineSubmission::List)
    ));
}

#[test]
fn classify_pipeline_single_word_selects() {
    assert!(matches!(
        classify("/pipeline web-team"),
        SubmitKind::PipelineCommand(PipelineSubmission::Bind(Some(s))) if s == "web-team"
    ));
}

#[test]
fn classify_pipeline_spaced_name_selects_rest_of_line() {
    assert!(matches!(
        classify("/pipeline Generic Dev Team"),
        SubmitKind::PipelineCommand(PipelineSubmission::Bind(Some(s))) if s == "Generic Dev Team"
    ));
}

#[test]
fn classify_pipeline_none_clears() {
    assert!(matches!(
        classify("/pipeline none"),
        SubmitKind::PipelineCommand(PipelineSubmission::Bind(None))
    ));
    assert!(matches!(
        classify("/pipeline off"),
        SubmitKind::PipelineCommand(PipelineSubmission::Bind(None))
    ));
}

#[test]
fn classify_pipeline_trims_whitespace() {
    assert!(matches!(
        classify("  /pipeline Generic Dev Team  "),
        SubmitKind::PipelineCommand(PipelineSubmission::Bind(Some(s))) if s == "Generic Dev Team"
    ));
}

#[test]
fn classify_inline_image_path_is_multimodal() {
    let scan = AttachmentScan::Parsed {
        text: "describe ".to_string(),
        attachments: vec![Media {
            source: MediaSource::Base64("eA==".to_string()),
            media_type: Some("image/png".to_string()),
        }],
    };
    match classify_submission("describe [img:/tmp/peakbot-classify.png]", scan) {
        SubmitKind::MultimodalMessage { text, attachments } => {
            assert_eq!(text, "describe");
            assert_eq!(attachments.len(), 1);
        }
        other => panic!("expected MultimodalMessage, got {other:?}"),
    }
}

#[test]
fn classify_inline_image_missing_is_invalid_attachment() {
    let input = "look at [img:/does/not/exist-7f8a.png]";
    assert!(needs_scan(input));
    assert!(matches!(
        classify_submission(input, AttachmentScan::Failed("no such file".to_string())),
        SubmitKind::InvalidAttachment(_)
    ));
}

#[test]
fn classify_pipeline_command_variants() {
    assert!(matches!(
        classify("/pipeline"),
        SubmitKind::PipelineCommand(PipelineSubmission::List)
    ));
    assert!(matches!(
        classify("  /pipeline  "),
        SubmitKind::PipelineCommand(PipelineSubmission::List)
    ));
    assert!(matches!(
        classify("/pipeline web-team"),
        SubmitKind::PipelineCommand(PipelineSubmission::Bind(ref s)) if s.as_deref() == Some("web-team")
    ));
    assert!(matches!(
        classify("/pipeline research-crew"),
        SubmitKind::PipelineCommand(PipelineSubmission::Bind(ref s)) if s.as_deref() == Some("research-crew")
    ));
    for clear in ["/pipeline none", "/pipeline off", "/pipeline OFF", "/pipeline None"] {
        assert!(
            matches!(
                classify(clear),
                SubmitKind::PipelineCommand(PipelineSubmission::Bind(None))
            ),
            "{clear:?} must clear the selection"
        );
    }
    assert!(matches!(classify("/pipelines"), SubmitKind::Command(_)));
    assert!(matches!(classify("/pipelinex"), SubmitKind::Command(_)));
    assert!(matches!(classify("TODO: /pipeline foo"), SubmitKind::UserMessage(_)));
}

#[test]
fn commands_win_over_a_failed_scan() {
    let failed = AttachmentScan::Failed("bad".to_string());
    assert!(matches!(
        classify_submission("/new [img:x]", failed),
        SubmitKind::Command(_)
    ));
    assert!(!needs_scan("/new"));
    assert!(!needs_scan("  /stop"));
    assert!(!needs_scan(" /new"));
    assert!(needs_scan(" what does /new do?"));
}

#[test]
fn a_command_keeps_its_blanks() {
    assert!(matches!(classify("/new\n"), SubmitKind::Command(s) if s == "/new\n"));
    assert!(matches!(classify("/ quit"), SubmitKind::Command(s) if s == "/ quit"));
    assert!(matches!(classify(" /quit"), SubmitKind::Command(s) if s == " /quit"));
    assert!(matches!(classify("  /new"), SubmitKind::Command(s) if s == "  /new"));
    assert!(matches!(classify("\t/pipelines "), SubmitKind::Command(s) if s == "\t/pipelines "));
    assert!(matches!(classify(" a /b"), SubmitKind::UserMessage(s) if s == " a /b"));
}

#[test]
fn words_for_none() {
    assert!(means_none("none"));
    assert!(means_none("OFF"));
    assert!(!means_none("nonesuch"));
    assert!(!means_none(""));
}
