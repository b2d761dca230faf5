//! The event loop and the agent loop.

use peakbot::agent_loop::{
    background_done, drain_background, memory_begun, memory_done, turn_done, verb_done,
    AgentLoop, BackgroundMessage, DequeueContext, Verb,
};
use peakbot::effect::{CompletionResult, Effect, QueueMessage};
use peakbot::event_loop::{bridge_forwards, on_action, on_stopped, BridgeEvent, EventContext, UiAction};
use peakbot::message::{Media, MediaSource};
use peakbot::selection::StopTally;
use peakbot::submission::AttachmentScan;

type E = Effect<String, Vec<Media>>;
type Q = QueueMessage<String, Vec<Media>>;

fn event_context(running: bool) -> EventContext<'static> {
    EventContext {
        attached: true,
        running,
        supports_vision: false,
        model: "text-only",
        vision_examples: "`gpt-4o`",
        pipelines: &[],
        selected: None,
    }
}

fn act(action: UiAction, scan: AttachmentScan, ctx: &EventContext) -> Vec<E> {
    on_action(action, scan, ctx).into_vec()
}

fn plain(text: &str) -> AttachmentScan {
    AttachmentScan::Parsed { text: text.to_string(), attachments: vec![] }
}

fn send(text: &str, ctx: &EventContext) -> Vec<E> {
    act(UiAction::SendMessage(text.to_string()), plain(text), ctx)
}

fn image() -> Media {
    Media { source: MediaSource::Url("http://x/y.png".to_string()), media_type: None }
}

#[test]
fn text_is_queued_and_never_written_by_the_event_loop() {
    let out = send("hi", &event_context(true));
    assert_eq!(
        out,
        vec![
            Effect::IncrementPending,
            Effect::Enqueue(QueueMessage::UserMessage {
                text: "hi".to_string(),
                attachments: vec![]
            }),
        ]
    );
    let mut ctx = event_context(true);
    ctx.attached = false;
    assert_eq!(send("hi", &ctx).len(), 1);
}

#[test]
fn commands_are_queued_uncounted() {
    assert_eq!(
        send("/help", &event_context(false)),
        vec![Effect::Enqueue(QueueMessage::Command("/help".to_string()))]
    );
}

#[test]
fn a_stop_drains_only_while_a_turn_runs() {
    assert_eq!(send("/stop", &event_context(false)), vec![]);
    let expected = vec![
        Effect::BeginDrain,
        Effect::ClearPending,
        Effect::SetStatus(Some("Stop requested...".to_string())),
        Effect::StopTurnProcesses,
    ];
    assert_eq!(send("/stop", &event_context(true)), expected);
    assert_eq!(act(UiAction::RequestStop, plain(""), &event_context(true)), expected);
    assert_eq!(
        on_stopped(StopTally { shell: true }).into_vec(),
        vec![Effect::Enqueue(QueueMessage::StopMarker {
            message: "Agent stopped by user (killed 1 bash process)".to_string()
        })]
    );
}

#[test]
fn images_need_a_model_that_sees() {
    let scan = || AttachmentScan::Parsed {
        text: "look ".to_string(),
        attachments: vec![image()],
    };
    let mut ctx = event_context(false);
    let action = || UiAction::SendMessage("look [img:y]".to_string());
    match &act(action(), scan(), &ctx)[..] {
        [Effect::SystemMessage(m)] => {
            assert_eq!(
                m,
                "❌ Model `text-only` does not support vision. Switch to a vision-capable model in config.yaml (e.g. `gpt-4o`)."
            )
        }
        other => panic!("got {other:?}"),
    }
    ctx.supports_vision = true;
    assert_eq!(
        act(action(), scan(), &ctx)[1],
        Effect::Enqueue(QueueMessage::UserMessage {
            text: "look".to_string(),
            attachments: vec![image()]
        })
    );
    let failed = AttachmentScan::Failed("too large".to_string());
    assert_eq!(
        act(action(), failed, &ctx),
        vec![Effect::SystemMessage("❌ too large".to_string())]
    );
}

#[test]
fn rebuilding_actions_are_counted_and_queued() {
    let ctx = event_context(false);
    assert_eq!(
        act(UiAction::SwitchModel("a".to_string()), plain(""), &ctx),
        vec![
            Effect::IncrementPending,
            Effect::Enqueue(QueueMessage::SwitchModel("a".to_string()))
        ]
    );
    assert_eq!(
        act(UiAction::ChangeCwd("/t".to_string()), plain(""), &ctx)[1],
        Effect::Enqueue(QueueMessage::ChangeCwd("/t".to_string()))
    );
    assert_eq!(
        act(UiAction::SelectPipeline(None), plain(""), &ctx)[1],
        Effect::Enqueue(QueueMessage::SelectPipeline(None))
    );
    assert_eq!(
        send("/pipeline crew", &ctx)[1],
        Effect::Enqueue(QueueMessage::SelectPipeline(Some("crew".to_string())))
    );
    match &send("/pipeline", &ctx)[..] {
        [Effect::SystemMessage(m)] => assert!(m.starts_with("🧩 No pipelines configured.")),
        other => panic!("got {other:?}"),
    }
}

#[test]
fn the_bridge_ends_with_the_session() {
    assert!(bridge_forwards(BridgeEvent::Ping));
    assert!(bridge_forwards(BridgeEvent::CooldownOver));
    assert!(!bridge_forwards(BridgeEvent::SenderDropped));
}

fn dequeue_context<'a>() -> DequeueContext<'a> {
    DequeueContext {
        attached: true,
        memory_enabled: true,
        has_compaction_model: true,
        selected: Some("crew"),
    }
}

fn user(text: &str) -> Q {
    QueueMessage::UserMessage { text: text.to_string(), attachments: vec![] }
}

#[test]
fn the_users_text_is_written_before_its_turn_and_memory_looked_at_once() {
    let mut agent = AgentLoop::new();
    let ctx = dequeue_context();
    let first = agent.dequeue(Some(user("a")), &ctx).into_vec();
    assert_eq!(
        first,
        vec![
            Effect::AddUserMessage { text: "a".to_string(), attachments: vec![] },
            Effect::DecrementPending,
            Effect::ResetBgCooldowns,
            Effect::SetRunning(true),
            Effect::CompactMemory,
            Effect::RunTurn { text: "a".to_string() },
        ]
    );
    let second = agent.dequeue(Some(user("b")), &ctx).into_vec();
    assert_eq!(second.len(), 5);
    assert!(!second.contains(&Effect::CompactMemory));
}

#[test]
fn a_stop_throws_the_queue_away_up_to_its_marker() {
    let mut agent = AgentLoop::new();
    let ctx = dequeue_context();
    agent.begin_drain();
    for m in [
        user("x"),
        QueueMessage::Command("/new".to_string()),
        QueueMessage::SwitchModel("a".to_string()),
        QueueMessage::ChangeCwd("/t".to_string()),
        QueueMessage::SelectPipeline(None),
        QueueMessage::BackgroundOutputReady,
    ] {
        assert_eq!(agent.dequeue(Some(m), &ctx).len(), 0);
        assert!(agent.draining);
    }
    let marker = QueueMessage::StopMarker { message: "stopped".to_string() };
    assert_eq!(
        agent.dequeue(Some(marker), &ctx).into_vec(),
        vec![
            Effect::SetStatus(None),
            Effect::SystemMessage("stopped".to_string()),
            Effect::Complete(CompletionResult::Stopped),
        ]
    );
    assert!(!agent.draining);
    assert!(!agent.memory_compaction_done);
}

#[test]
fn commands_and_what_follows_them() {
    let mut agent = AgentLoop::new();
    let ctx = dequeue_context();
    let command = |c: &str| -> Option<Q> { Some(QueueMessage::Command(c.to_string())) };
    assert_eq!(
        agent.dequeue(command("/help"), &ctx).into_vec(),
        vec![
            Effect::SetRunning(true),
            Effect::RunCommand("/help".to_string()),
            Effect::SetRunning(false),
            Effect::Complete(CompletionResult::CommandDone),
        ]
    );
    assert_eq!(
        agent.dequeue(command(" /LOAD 3"), &ctx).into_vec()[2],
        Effect::RebuildAfterLoad { selection_before: Some("crew".to_string()) }
    );
    assert_eq!(agent.dequeue(command("/New\n"), &ctx).into_vec()[2], Effect::RefreshAfterNew);
}

#[test]
fn the_end_of_the_queue() {
    let ctx = dequeue_context();
    assert_eq!(
        AgentLoop::new().dequeue(None, &ctx).into_vec(),
        vec![Effect::StopEventProcessor, Effect::Exit]
    );
    let mut draining = AgentLoop::new();
    draining.begin_drain();
    assert_eq!(draining.dequeue(None, &ctx).into_vec(), vec![Effect::Exit]);
}

#[test]
fn after_a_turn() {
    assert_eq!(
        turn_done(true, CompletionResult::Success, Some("00:05")).into_vec(),
        vec![
            Effect::SetRunning(false),
            Effect::SystemMessage("worked for 00:05".to_string()),
            Effect::Complete(CompletionResult::Success),
            Effect::DrainBackground,
        ]
    );
    assert_eq!(turn_done(false, CompletionResult::Error, Some("x")).len(), 2);
}

#[test]
fn background_output_gets_a_turn_of_its_own() {
    let pending = || {
        Some(BackgroundMessage { text: "[bg output]".to_string(), proc_ids: vec![1, 4] })
    };
    assert_eq!(
        drain_background(true, pending()).into_vec(),
        vec![
            Effect::AddBackgroundMessage {
                text: "[bg output]".to_string(),
                proc_ids: vec![1, 4]
            },
            Effect::SetRunning(true),
            Effect::RunTurn { text: "[bg output]".to_string() },
        ]
    );
    assert_eq!(drain_background(true, None).len(), 0);
    assert_eq!(drain_background(false, pending()).len(), 0);
    assert_eq!(
        background_done(CompletionResult::Success).into_vec(),
        vec![
            Effect::SetRunning(false),
            Effect::Complete(CompletionResult::Success)
        ]
    );
}

#[test]
fn rebuilding_commands_end_with_their_error_shown() {
    for (verb, shown) in [
        (Verb::Model, "❌ /model: bad"),
        (Verb::Cd, "❌ /cd: bad"),
        (Verb::Pipeline, "❌ /pipeline: bad"),
    ] {
        assert_eq!(
            verb_done(true, verb, Some("bad")).into_vec(),
            vec![
                Effect::DecrementPending,
                Effect::SetRunning(false),
                Effect::SystemMessage(shown.to_string()),
                Effect::Complete(CompletionResult::CommandDone),
            ]
        );
        assert_eq!(verb_done(true, verb, None).len(), 3);
        assert_eq!(verb_done(false, verb, Some("bad")).len(), 1);
    }
}

#[test]
fn compacting_the_memory() {
    assert_eq!(
        memory_begun().into_vec(),
        vec![Effect::SetStatus(Some("Compacting memory.md...".to_string()))]
    );
    assert_eq!(
        memory_done(true, 5120).into_vec(),
        vec![
            Effect::SystemMessage("memory.md compacted (was 5120 bytes)".to_string()),
            Effect::SetStatus(None),
        ]
    );
    assert_eq!(memory_done(false, 5120).into_vec(), vec![Effect::SetStatus(None)]);
}
