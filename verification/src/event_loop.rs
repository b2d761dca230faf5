//! The event loop: what the user's actions come to.
//!
//! The event loop never writes the user's text into the chat. It queues it, and
//! the agent loop writes it between two turns, so that it cannot come between a
//! tool call and its result.

use vstd::prelude::*;
use crate::effect::{Effect, EffectView, Effects, Queued, QueueMessage};
use crate::message::Media;
use crate::pipeline::set::PipelineInfo;
use crate::selection;
use crate::selection::StopTally;
use crate::submission;
use crate::submission::{AttachmentScan, PipelineSubmission, SubmitKind};
use crate::text;

verus! {

/// What the user does.
#[derive(Debug, PartialEq)]
pub enum UiAction {
    SendMessage(String),
    RequestStop,
    SwitchModel(String),
    ChangeCwd(String),
    SelectPipeline(Option<String>),
}

/// What the event loop reads of the session.
#[derive(Debug, PartialEq)]
pub struct EventContext<'a> {
    /// Whether there is a session state to write to.
    pub attached: bool,
    /// Whether a turn runs.
    pub running: bool,
    /// Whether the active model takes images.
    pub supports_vision: bool,
    /// The active model.
    pub model: &'a str,
    /// Models that take images, as the user is to see them.
    pub vision_examples: &'a str,
    pub pipelines: &'a [PipelineInfo],
    pub selected: Option<&'a str>,
}

/// What the user is told when the model takes no images.
pub open spec fn no_vision_text(model: Seq<char>, examples: Seq<char>) -> Seq<char> {
    "❌ Model `"@ + model
        + "` does not support vision. Switch to a vision-capable model in config.yaml (e.g. "@
        + examples + ")."@
}

/// A system message, where there is a session to show it.
pub open spec fn told(attached: bool, message: Seq<char>) -> Seq<EffectView> {
    if attached {
        seq![Effect::SystemMessage(message)]
    } else {
        Seq::empty()
    }
}

/// A message that is queued and counted as pending.
pub open spec fn counted(attached: bool, m: QueueMessage<Seq<char>, Seq<Media>>) -> Seq<EffectView> {
    if attached {
        seq![Effect::IncrementPending, Effect::Enqueue(m)]
    } else {
        seq![Effect::Enqueue(m)]
    }
}

/// What a stop comes to: nothing where nothing runs; else the queue is drained
/// and the turn's processes die.
pub open spec fn stop_effects(attached: bool, running: bool) -> Seq<EffectView> {
    if attached && running {
        seq![
            Effect::BeginDrain,
            Effect::ClearPending,
            Effect::SetStatus(Some("Stop requested..."@)),
            Effect::StopTurnProcesses,
        ]
    } else {
        Seq::empty()
    }
}

/// What a routed text comes to.
pub open spec fn submit_effects(k: SubmitKind, ctx: EventContext<'_>) -> Seq<EffectView> {
    match k {
        SubmitKind::StopCommand => stop_effects(ctx.attached, ctx.running),
        SubmitKind::Command(c) => seq![Effect::Enqueue(QueueMessage::Command(c@))],
        SubmitKind::UserMessage(t) => counted(
            ctx.attached,
            QueueMessage::UserMessage { text: t@, attachments: Seq::empty() },
        ),
        SubmitKind::MultimodalMessage { text, attachments } => if ctx.supports_vision {
            counted(
                ctx.attached,
                QueueMessage::UserMessage { text: text@, attachments: attachments@ },
            )
        } else {
            told(ctx.attached, no_vision_text(ctx.model@, ctx.vision_examples@))
        },
        SubmitKind::InvalidAttachment(e) => told(ctx.attached, "❌ "@ + e@),
        SubmitKind::PipelineCommand(PipelineSubmission::List) => told(
            ctx.attached,
            selection::list_text(ctx.pipelines@, text::opt_str(ctx.selected)),
        ),
        SubmitKind::PipelineCommand(PipelineSubmission::Bind(n)) => counted(
            ctx.attached,
            QueueMessage::SelectPipeline(text::opt(n)),
        ),
    }
}

fn tell(out: &mut Effects, attached: bool, message: String)
    ensures
        final(out)@ == old(out)@ + told(attached, message@),
{
    if attached {
        out.say(message);
    }
}

fn count_and_queue(out: &mut Effects, attached: bool, m: Queued)
    ensures
        final(out)@ == old(out)@ + counted(attached, m@),
{
    if attached {
        out.push(Effect::IncrementPending);
    }
    out.push(Effect::Enqueue(m));
}

fn request_stop(out: &mut Effects, attached: bool, running: bool)
    ensures
        final(out)@ == old(out)@ + stop_effects(attached, running),
{
    if attached && running {
        out.push(Effect::BeginDrain);
        out.push(Effect::ClearPending);
        out.push(Effect::SetStatus(Some("Stop requested...".to_owned())));
        out.push(Effect::StopTurnProcesses);
    }
}

fn submit(out: &mut Effects, k: SubmitKind, ctx: &EventContext<'_>)
    ensures
        final(out)@ == old(out)@ + submit_effects(k, *ctx),
{
    match k {
        SubmitKind::StopCommand => request_stop(out, ctx.attached, ctx.running),
        SubmitKind::Command(c) => {
            out.push(Effect::Enqueue(QueueMessage::Command(c)));
        },
        SubmitKind::UserMessage(text) => {
            let none: Vec<Media> = Vec::new();
            count_and_queue(
                out,
                ctx.attached,
                QueueMessage::UserMessage { text, attachments: none },
            )
        },
        SubmitKind::MultimodalMessage { text, attachments } => if ctx.supports_vision {
            count_and_queue(out, ctx.attached, QueueMessage::UserMessage { text, attachments })
        } else {
            let mut m = "❌ Model `".to_owned();
            m.append(ctx.model);
            m.append(
                "` does not support vision. Switch to a vision-capable model in config.yaml (e.g. ",
            );
            m.append(ctx.vision_examples);
            m.append(").");
            tell(out, ctx.attached, m)
        },
        SubmitKind::InvalidAttachment(e) => {
            let mut m = "❌ ".to_owned();
            m.append(e.as_str());
            tell(out, ctx.attached, m)
        },
        SubmitKind::PipelineCommand(PipelineSubmission::List) => {
            let m = selection::render_pipeline_list(ctx.pipelines, ctx.selected);
            tell(out, ctx.attached, m)
        },
        SubmitKind::PipelineCommand(PipelineSubmission::Bind(n)) => count_and_queue(
            out,
            ctx.attached,
            QueueMessage::SelectPipeline(n),
        ),
    }
}

/// Whether `effects` are what an action comes to.
pub open spec fn acted(
    action: UiAction,
    scan: AttachmentScan,
    ctx: EventContext<'_>,
    effects: Seq<EffectView>,
) -> bool {
    match action {
        UiAction::SendMessage(msg) => exists|k: SubmitKind| #[trigger]
            submission::routed(msg@, scan, k) && effects == submit_effects(k, ctx),
        UiAction::RequestStop => effects == stop_effects(ctx.attached, ctx.running),
        UiAction::SwitchModel(a) => effects == counted(ctx.attached, QueueMessage::SwitchModel(a@)),
        UiAction::ChangeCwd(p) => effects == counted(ctx.attached, QueueMessage::ChangeCwd(p@)),
        UiAction::SelectPipeline(n) => effects == counted(
            ctx.attached,
            QueueMessage::SelectPipeline(text::opt(n)),
        ),
    }
}

/// Decides what an action of the user comes to. The scan for images counts for
/// chat content alone.
pub fn on_action(action: UiAction, scan: AttachmentScan, ctx: &EventContext<'_>) -> (r: Effects)
    ensures
        acted(action, scan, *ctx, r@),
{
    let mut out = Effects::new();
    match action {
        UiAction::SendMessage(msg) => {
            let k = submission::classify_submission(msg.as_str(), scan);
            let ghost k0 = k;
            submit(&mut out, k, ctx);
            assert(submission::routed(msg@, scan, k0));
            assert(out@ =~= submit_effects(k0, *ctx));
        },
        UiAction::RequestStop => {
            request_stop(&mut out, ctx.attached, ctx.running);
            assert(out@ =~= stop_effects(ctx.attached, ctx.running));
        },
        UiAction::SwitchModel(a) => {
            count_and_queue(&mut out, ctx.attached, QueueMessage::SwitchModel(a));
            assert(out@ =~= counted(ctx.attached, QueueMessage::SwitchModel(a@)));
        },
        UiAction::ChangeCwd(p) => {
            count_and_queue(&mut out, ctx.attached, QueueMessage::ChangeCwd(p));
            assert(out@ =~= counted(ctx.attached, QueueMessage::ChangeCwd(p@)));
        },
        UiAction::SelectPipeline(n) => {
            let ghost v = text::opt(n);
            count_and_queue(&mut out, ctx.attached, QueueMessage::SelectPipeline(n));
            assert(out@ =~= counted(ctx.attached, QueueMessage::SelectPipeline(v)));
        },
    }
    out
}

/// The marker that ends the draining.
pub open spec fn marker_effects(message: Seq<char>) -> Seq<EffectView> {
    seq![Effect::Enqueue(QueueMessage::StopMarker { message })]
}

/// What follows once a turn's processes are dead: the marker that ends the
/// draining, with what the user is told.
pub fn on_stopped(tally: StopTally) -> (r: Effects)
    ensures
        r@ == marker_effects(selection::stop_text(tally)),
{
    let mut out = Effects::new();
    out.push(
        Effect::Enqueue(QueueMessage::StopMarker { message: selection::stop_message(tally) }),
    );
    out
}

/// Whether an effect writes the user's text into the chat.
pub open spec fn writes_user_text(e: EffectView) -> bool {
    e is AddUserMessage
}

/// The event loop never writes the user's text into the chat: that is the agent
/// loop's alone, between two turns.
pub proof fn law_event_loop_never_writes_user_text(
    action: UiAction,
    scan: AttachmentScan,
    ctx: EventContext<'_>,
    effects: Seq<EffectView>,
    i: int,
)
    requires
        acted(action, scan, ctx, effects),
        0 <= i < effects.len(),
    ensures
        !writes_user_text(effects[i]),
{
    if let UiAction::SendMessage(msg) = action {
        let k = choose|k: SubmitKind| #[trigger]
            submission::routed(msg@, scan, k) && effects == submit_effects(k, ctx);
        assert(effects == submit_effects(k, ctx));
    }
}

/// A stop while nothing runs does nothing.
pub proof fn law_idle_stop_does_nothing(
    scan: AttachmentScan,
    ctx: EventContext<'_>,
    effects: Seq<EffectView>,
)
    requires
        !ctx.running,
        acted(UiAction::RequestStop, scan, ctx, effects),
    ensures
        effects.len() == 0,
{
}

/// At most one message is queued for an action, and behind it nothing more is
/// done.
pub proof fn law_one_message_per_action(
    action: UiAction,
    scan: AttachmentScan,
    ctx: EventContext<'_>,
    effects: Seq<EffectView>,
    i: int,
)
    requires
        acted(action, scan, ctx, effects),
        0 <= i < effects.len(),
        effects[i] is Enqueue,
    ensures
        i == effects.len() - 1,
{
    if let UiAction::SendMessage(msg) = action {
        let k = choose|k: SubmitKind| #[trigger]
            submission::routed(msg@, scan, k) && effects == submit_effects(k, ctx);
        assert(effects == submit_effects(k, ctx));
    }
}

/// What the background bridge meets.
#[derive(Debug, PartialEq, Eq, Structural, Copy, Clone)]
pub enum BridgeEvent {
    /// A process has output.
    Ping,
    /// A process's cooldown is over.
    CooldownOver,
    /// The session is gone.
    SenderDropped,
}

/// Whether the bridge wakes the agent loop for background output; it ends where
/// the session is gone.
pub fn bridge_forwards(event: BridgeEvent) -> (r: bool)
    ensures
        r == (event != BridgeEvent::SenderDropped),
{
    event != BridgeEvent::SenderDropped
}

/// What the user sends as chat content is queued word for word, and counted as pending
/// where there is a session; images go with it where the model takes them, and else the
/// user hears that it does not.
pub proof fn law_chat_is_queued(k: SubmitKind, ctx: EventContext<'_>)
    ensures
        ({
            let all = submit_effects(k, ctx);
            let n = all.len() as int;
            &&& k matches SubmitKind::UserMessage(t) ==> n >= 1 && all[n - 1] == (Effect::<Seq<char>, Seq<crate::message::Media>>::Enqueue(
                QueueMessage::UserMessage { text: t@, attachments: Seq::<Media>::empty() },
            ))
            &&& k matches SubmitKind::MultimodalMessage { text, attachments } ==> {
                &&& ctx.supports_vision ==> n >= 1 && all[n - 1] == (Effect::<Seq<char>, Seq<crate::message::Media>>::Enqueue(
                    QueueMessage::UserMessage { text: text@, attachments: attachments@ },
                ))
                &&& !ctx.supports_vision && ctx.attached ==> n == 1 && all[0] == (
                Effect::<Seq<char>, Seq<crate::message::Media>>::SystemMessage(
                    "❌ Model `"@ + ctx.model@
                        + "` does not support vision. Switch to a vision-capable model in config.yaml (e.g. "@
                        + ctx.vision_examples@ + ")."@,
                ))
                &&& !ctx.supports_vision && !ctx.attached ==> n == 0
            }
            &&& n >= 1 && all[n - 1] is Enqueue && !(k is Command) && ctx.attached ==> n == 2
                && all[0] is IncrementPending
            &&& n >= 1 && all[n - 1] is Enqueue && !ctx.attached ==> n == 1
        }),
{
}

/// A command is queued word for word and not counted; a team is bound through the queue;
/// the list of teams and a bad attachment are answered at once.
pub proof fn law_commands_are_queued(k: SubmitKind, ctx: EventContext<'_>)
    requires
        ctx.attached,
    ensures
        ({
            let all = submit_effects(k, ctx);
            &&& k matches SubmitKind::Command(c) ==> all.len() == 1 && all[0] == (Effect::<Seq<char>, Seq<crate::message::Media>>::Enqueue(
                QueueMessage::Command(c@),
            ))
            &&& k matches SubmitKind::PipelineCommand(PipelineSubmission::Bind(name)) ==> all.len()
                == 2 && all[1] == (Effect::<Seq<char>, Seq<crate::message::Media>>::Enqueue(QueueMessage::SelectPipeline(text::opt(name))))
            &&& k matches SubmitKind::PipelineCommand(PipelineSubmission::List) ==> all.len() == 1
                && all[0] == (Effect::<Seq<char>, Seq<crate::message::Media>>::SystemMessage(
                selection::list_text(ctx.pipelines@, text::opt_str(ctx.selected)),
            ))
            &&& k matches SubmitKind::InvalidAttachment(e) ==> all.len() == 1 && all[0] == (
            Effect::<Seq<char>, Seq<crate::message::Media>>::SystemMessage("❌ "@ + e@))
        }),
{
}

/// A stop while a turn runs throws away what is pending, says that it is under way and
/// kills the turn's processes, in this order: what is queued is drained first. The marker
/// behind the queue then carries the message.
pub proof fn law_stop_drains_first(
    scan: AttachmentScan,
    ctx: EventContext<'_>,
    effects: Seq<EffectView>,
    message: Seq<char>,
)
    requires
        ctx.attached,
        ctx.running,
        acted(UiAction::RequestStop, scan, ctx, effects),
    ensures
        effects.len() == 4,
        effects[0] is BeginDrain,
        effects[1] is ClearPending,
        effects[2] == (Effect::<Seq<char>, Seq<crate::message::Media>>::SetStatus(Some("Stop requested..."@))),
        effects[3] is StopTurnProcesses,
        submit_effects(SubmitKind::StopCommand, ctx) == effects,
        marker_effects(message).len() == 1,
        marker_effects(message)[0] == (Effect::<Seq<char>, Seq<crate::message::Media>>::Enqueue(QueueMessage::StopMarker { message })),
{
}

/// A rebuilding command is queued with exactly what the user picked.
pub proof fn law_picks_are_queued(
    action: UiAction,
    scan: AttachmentScan,
    ctx: EventContext<'_>,
    effects: Seq<EffectView>,
)
    requires
        ctx.attached,
        acted(action, scan, ctx, effects),
    ensures
        action matches UiAction::SwitchModel(a) ==> effects.len() == 2 && effects[1] == (
        Effect::<Seq<char>, Seq<crate::message::Media>>::Enqueue(QueueMessage::SwitchModel(a@))),
        action matches UiAction::ChangeCwd(p) ==> effects.len() == 2 && effects[1] == (
        Effect::<Seq<char>, Seq<crate::message::Media>>::Enqueue(QueueMessage::ChangeCwd(p@))),
        action matches UiAction::SelectPipeline(name) ==> effects.len() == 2 && effects[1] == (
        Effect::<Seq<char>, Seq<crate::message::Media>>::Enqueue(QueueMessage::SelectPipeline(text::opt(name)))),
        action matches UiAction::SendMessage(msg) ==> exists|k: SubmitKind| #[trigger]
            submission::routed(msg@, scan, k) && effects == submit_effects(k, ctx),
        effects.len() == 2 ==> effects[0] is IncrementPending,
{
    if let UiAction::SendMessage(msg) = action {
        let k = choose|k: SubmitKind| #[trigger]
            submission::routed(msg@, scan, k) && effects == submit_effects(k, ctx);
        assert(effects == submit_effects(k, ctx));
    }
}

} // verus!
