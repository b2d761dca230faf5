//! The agent loop: what each queued message comes to.
//!
//! This loop alone writes the user's text into the chat, when it takes the
//! message from the queue and before the turn is built. After a stop it throws
//! away everything that is queued in front of the stop's marker.

use vstd::prelude::*;
use crate::commands;
use crate::commands::Command;
use crate::effect::{CompletionResult, Effect, EffectView, Effects, Queued, QueuedView, QueueMessage};
use crate::event_loop;
use crate::memory;
use crate::text;

verus! {

/// What the agent loop keeps between two messages.
#[derive(Debug, PartialEq, Eq, Structural, Copy, Clone)]
pub struct AgentLoop {
    /// Whether a stop is under way.
    pub draining: bool,
    /// Whether `memory.md` was looked at. It is once, at the first message.
    pub memory_compaction_done: bool,
}

/// What the agent loop reads of the session.
#[derive(Debug, PartialEq)]
pub struct DequeueContext<'a> {
    /// Whether there is a session state to write to.
    pub attached: bool,
    /// Whether the configuration has the memory on.
    pub memory_enabled: bool,
    /// Whether there is a model to compact with.
    pub has_compaction_model: bool,
    /// The team that the conversation is bound to.
    pub selected: Option<&'a str>,
}

/// What is done for the user's message before and as its turn runs.
pub open spec fn turn_effects(
    l: AgentLoop,
    m: QueuedView,
    ctx: DequeueContext<'_>,
) -> Seq<EffectView>
    recommends
        m is UserMessage,
{
    let compacts = !l.memory_compaction_done && ctx.memory_enabled && ctx.has_compaction_model;
    if !ctx.attached {
        seq![Effect::RunTurn { text: m->text }]
    } else if compacts {
        seq![
            Effect::AddUserMessage { text: m->text, attachments: m->attachments },
            Effect::DecrementPending,
            Effect::ResetBgCooldowns,
            Effect::SetRunning(true),
            Effect::CompactMemory,
            Effect::RunTurn { text: m->text },
        ]
    } else {
        seq![
            Effect::AddUserMessage { text: m->text, attachments: m->attachments },
            Effect::DecrementPending,
            Effect::ResetBgCooldowns,
            Effect::SetRunning(true),
            Effect::RunTurn { text: m->text },
        ]
    }
}

/// A command, trimmed and in small letters.
pub open spec fn shape(command: Seq<char>) -> Seq<char> {
    text::ascii_lowercase(text::trim(command))
}

/// What follows a command before the session is idle again: loading a
/// conversation may call for another agent, and so does beginning one.
pub open spec fn follow_up(command: Seq<char>, selected: Option<Seq<char>>) -> Seq<EffectView> {
    if text::starts_with(shape(command), "/load "@) {
        seq![Effect::RebuildAfterLoad { selection_before: selected }]
    } else if shape(command) == "/new"@ {
        seq![Effect::RefreshAfterNew]
    } else {
        Seq::empty()
    }
}

/// The session marked busy or idle, where there is one.
pub open spec fn running(attached: bool, on: bool) -> Seq<EffectView> {
    if attached {
        seq![Effect::SetRunning(on)]
    } else {
        Seq::empty()
    }
}

/// What the marker of a stop comes to.
pub open spec fn stopped_effects(attached: bool, message: Seq<char>) -> Seq<EffectView> {
    if attached {
        seq![
            Effect::SetStatus(None),
            Effect::SystemMessage(message),
            Effect::Complete(CompletionResult::Stopped),
        ]
    } else {
        seq![Effect::Complete(CompletionResult::Stopped)]
    }
}

/// The loop's state after a message.
pub open spec fn next_state(l: AgentLoop, m: Option<QueuedView>, memory_enabled: bool) -> AgentLoop {
    AgentLoop {
        draining: l.draining && !(m is Some && m->0 is StopMarker),
        memory_compaction_done: l.memory_compaction_done || (!l.draining && m is Some
            && m->0 is UserMessage && memory_enabled),
    }
}

/// What a message comes to. `None` is the end of the queue.
pub open spec fn dequeued(
    l: AgentLoop,
    m: Option<QueuedView>,
    ctx: DequeueContext<'_>,
) -> Seq<EffectView> {
    if l.draining {
        match m {
            Some(QueueMessage::StopMarker { message }) => stopped_effects(ctx.attached, message),
            Some(_) => Seq::empty(),
            None => seq![Effect::Exit],
        }
    } else {
        match m {
            Some(QueueMessage::UserMessage { .. }) => turn_effects(l, m->0, ctx),
            Some(QueueMessage::BackgroundOutputReady) => seq![Effect::DrainBackground],
            Some(QueueMessage::Command(c)) => running(ctx.attached, true).push(
                Effect::RunCommand(c),
            ) + follow_up(c, text::opt_str(ctx.selected)) + running(ctx.attached, false).push(
                Effect::Complete(CompletionResult::CommandDone),
            ),
            Some(QueueMessage::StopMarker { message }) => stopped_effects(ctx.attached, message),
            Some(QueueMessage::SwitchModel(a)) => running(ctx.attached, true).push(
                Effect::SwitchModel(a),
            ),
            Some(QueueMessage::ChangeCwd(p)) => running(ctx.attached, true).push(
                Effect::ChangeCwd(p),
            ),
            Some(QueueMessage::SelectPipeline(n)) => running(ctx.attached, true).push(
                Effect::SelectPipeline(n),
            ),
            None => seq![Effect::StopEventProcessor, Effect::Exit],
        }
    }
}

/// The view of an optional message.
pub open spec fn queued_view(m: Option<Queued>) -> Option<QueuedView> {
    match m {
        Some(m) => Some(m@),
        None => None,
    }
}

fn mark(out: &mut Effects, attached: bool, on: bool)
    ensures
        final(out)@ == old(out)@ + running(attached, on),
{
    if attached {
        out.push(Effect::SetRunning(on));
    }
    assert(out@ =~= old(out)@ + running(attached, on));
}

fn acknowledge_stop(out: &mut Effects, attached: bool, message: String)
    ensures
        final(out)@ == old(out)@ + stopped_effects(attached, message@),
{
    if attached {
        out.push(Effect::SetStatus(None));
        out.say(message);
    }
    out.push(Effect::Complete(CompletionResult::Stopped));
    assert(out@ =~= old(out)@ + stopped_effects(attached, message@));
}

fn add_follow_up(out: &mut Effects, command: &str, selected: Option<&str>)
    ensures
        final(out)@ == old(out)@ + follow_up(command@, text::opt_str(selected)),
{
    let trimmed = text::trim_text(command);
    let lower = text::ascii_lowercase_text(trimmed.as_str());
    if text::text_starts_with(lower.as_str(), "/load ") {
        out.push(Effect::RebuildAfterLoad { selection_before: text::own_option(selected) });
    } else if text::same(lower.as_str(), "/new") {
        out.push(Effect::RefreshAfterNew);
    }
    assert(out@ =~= old(out)@ + follow_up(command@, text::opt_str(selected)));
}

impl AgentLoop {
    /// A loop that has seen no message yet.
    pub fn new() -> (r: Self)
        ensures
            r == (AgentLoop { draining: false, memory_compaction_done: false }),
    {
        AgentLoop { draining: false, memory_compaction_done: false }
    }

    /// A stop has begun: what is queued is thrown away up to its marker.
    pub fn begin_drain(&mut self)
        ensures
            *final(self) == (AgentLoop { draining: true, ..*old(self) }),
    {
        self.draining = true;
    }

    /// Decides what a message comes to.
    pub fn dequeue(&mut self, message: Option<Queued>, ctx: &DequeueContext<'_>) -> (r: Effects)
        ensures
            *final(self) == next_state(*old(self), queued_view(message), ctx.memory_enabled),
            r@ == dequeued(*old(self), queued_view(message), *ctx),
    {
        let ghost before = *self;
        let ghost seen = queued_view(message);
        let mut out = Effects::new();
        if self.draining {
            match message {
                Some(QueueMessage::StopMarker { message }) => {
                    self.draining = false;
                    acknowledge_stop(&mut out, ctx.attached, message);
                },
                Some(_) => {},
                None => out.push(Effect::Exit),
            }
            assert(out@ =~= dequeued(before, seen, *ctx));
            return out;
        }
        match message {
            Some(QueueMessage::UserMessage { text, attachments }) => {
                if ctx.attached {
                    out.push(Effect::AddUserMessage { text: text.clone(), attachments });
                    out.push(Effect::DecrementPending);
                    out.push(Effect::ResetBgCooldowns);
                    out.push(Effect::SetRunning(true));
                }
                if !self.memory_compaction_done && ctx.memory_enabled {
                    self.memory_compaction_done = true;
                    if ctx.attached && ctx.has_compaction_model {
                        out.push(Effect::CompactMemory);
                    }
                }
                out.push(Effect::RunTurn { text });
            },
            Some(QueueMessage::BackgroundOutputReady) => out.push(Effect::DrainBackground),
            Some(QueueMessage::Command(c)) => {
                mark(&mut out, ctx.attached, true);
                out.push(Effect::RunCommand(c.clone()));
                add_follow_up(&mut out, c.as_str(), ctx.selected);
                mark(&mut out, ctx.attached, false);
                out.push(Effect::Complete(CompletionResult::CommandDone));
            },
            Some(QueueMessage::StopMarker { message }) => {
                acknowledge_stop(&mut out, ctx.attached, message);
            },
            Some(QueueMessage::SwitchModel(a)) => {
                mark(&mut out, ctx.attached, true);
                out.push(Effect::SwitchModel(a));
            },
            Some(QueueMessage::ChangeCwd(p)) => {
                mark(&mut out, ctx.attached, true);
                out.push(Effect::ChangeCwd(p));
            },
            Some(QueueMessage::SelectPipeline(n)) => {
                mark(&mut out, ctx.attached, true);
                out.push(Effect::SelectPipeline(n));
            },
            None => {
                out.push(Effect::StopEventProcessor);
                out.push(Effect::Exit);
            },
        }
        assert(out@ =~= dequeued(before, seen, *ctx));
        out
    }
}

/// The note of how long a turn took.
pub open spec fn worked_note(worked_for: Option<Seq<char>>) -> Seq<EffectView> {
    match worked_for {
        Some(t) => seq![Effect::SystemMessage("worked for "@ + t)],
        None => Seq::empty(),
    }
}

/// What follows the user's turn.
pub open spec fn turn_done_effects(
    attached: bool,
    result: CompletionResult,
    worked_for: Option<Seq<char>>,
) -> Seq<EffectView> {
    let end: Seq<EffectView> = seq![Effect::Complete(result), Effect::DrainBackground];
    if attached {
        running(true, false) + worked_note(worked_for) + end
    } else {
        end
    }
}

/// Decides what follows the user's turn: the session is idle, the user learns how
/// long it took, and background output has its chance.
pub fn turn_done(attached: bool, result: CompletionResult, worked_for: Option<&str>) -> (r: Effects)
    ensures
        r@ == turn_done_effects(attached, result, text::opt_str(worked_for)),
{
    let mut out = Effects::new();
    if attached {
        mark(&mut out, true, false);
        if let Some(t) = worked_for {
            let mut m = "worked for ".to_owned();
            m.append(t);
            out.say(m);
        }
    }
    out.push(Effect::Complete(result));
    out.push(Effect::DrainBackground);
    assert(out@ =~= turn_done_effects(attached, result, text::opt_str(worked_for)));
    out
}

/// Output of background processes, as a message to the agent.
#[derive(Debug, PartialEq)]
pub struct BackgroundMessage {
    pub text: String,
    pub proc_ids: Vec<u32>,
}

/// What pending background output comes to.
pub open spec fn background_effects(attached: bool, pending: Option<BackgroundMessage>) -> Seq<
    EffectView,
> {
    match pending {
        Some(p) if attached => seq![
            Effect::AddBackgroundMessage { text: p.text@, proc_ids: p.proc_ids },
            Effect::SetRunning(true),
            Effect::RunTurn { text: p.text@ },
        ],
        _ => Seq::empty(),
    }
}

/// Decides what pending background output comes to: a turn of its own, where there
/// is any.
pub fn drain_background(attached: bool, pending: Option<BackgroundMessage>) -> (r: Effects)
    ensures
        r@ == background_effects(attached, pending),
{
    let mut out = Effects::new();
    if attached {
        if let Some(p) = pending {
            out.push(
                Effect::AddBackgroundMessage { text: p.text.clone(), proc_ids: p.proc_ids },
            );
            out.push(Effect::SetRunning(true));
            out.push(Effect::RunTurn { text: p.text });
        }
    }
    assert(out@ =~= background_effects(attached, pending));
    out
}

/// What follows a turn on background output.
pub open spec fn background_done_effects(result: CompletionResult) -> Seq<EffectView> {
    seq![Effect::SetRunning(false), Effect::Complete(result)]
}

/// Decides what follows a turn on background output. It does not look for more:
/// the next wake-up does.
pub fn background_done(result: CompletionResult) -> (r: Effects)
    ensures
        r@ == background_done_effects(result),
{
    let mut out = Effects::new();
    mark(&mut out, true, false);
    out.push(Effect::Complete(result));
    assert(out@ =~= background_done_effects(result));
    out
}

/// Which of the three rebuilding commands ended.
#[derive(Debug, PartialEq, Eq, Structural, Copy, Clone)]
pub enum Verb {
    Model,
    Cd,
    Pipeline,
}

/// What precedes the error of a command.
pub open spec fn verb_label(v: Verb) -> Seq<char> {
    match v {
        Verb::Model => "❌ /model: "@,
        Verb::Cd => "❌ /cd: "@,
        Verb::Pipeline => "❌ /pipeline: "@,
    }
}

/// What follows one of the three rebuilding commands.
pub open spec fn verb_done_effects(attached: bool, verb: Verb, fault: Option<Seq<char>>) -> Seq<
    EffectView,
> {
    let end: Seq<EffectView> = seq![Effect::Complete(CompletionResult::CommandDone)];
    if !attached {
        end
    } else {
        match fault {
            Some(m) => seq![
                Effect::DecrementPending,
                Effect::SetRunning(false),
                Effect::SystemMessage(verb_label(verb) + m),
            ] + end,
            None => seq![Effect::DecrementPending, Effect::SetRunning(false)] + end,
        }
    }
}

/// Decides what follows one of the three rebuilding commands: its input is no
/// longer pending, the session is idle, and an error is shown.
pub fn verb_done(attached: bool, verb: Verb, fault: Option<&str>) -> (r: Effects)
    ensures
        r@ == verb_done_effects(attached, verb, text::opt_str(fault)),
{
    let mut out = Effects::new();
    if attached {
        out.push(Effect::DecrementPending);
        out.push(Effect::SetRunning(false));
        if let Some(f) = fault {
            let mut m = match verb {
                Verb::Model => "❌ /model: ".to_owned(),
                Verb::Cd => "❌ /cd: ".to_owned(),
                Verb::Pipeline => "❌ /pipeline: ".to_owned(),
            };
            m.append(f);
            out.say(m);
        }
    }
    out.push(Effect::Complete(CompletionResult::CommandDone));
    assert(out@ =~= verb_done_effects(attached, verb, text::opt_str(fault)));
    out
}

/// What follows an attempt to compact `memory.md`.
pub open spec fn memory_done_effects(written: bool, size_before: nat) -> Seq<EffectView> {
    if written {
        seq![
            Effect::SystemMessage(memory::compacted_text(size_before)),
            Effect::SetStatus(None),
        ]
    } else {
        seq![Effect::SetStatus(None)]
    }
}

/// What precedes an attempt to compact `memory.md`.
pub open spec fn memory_begun_effects() -> Seq<EffectView> {
    seq![Effect::SetStatus(Some("Compacting memory.md..."@))]
}

/// Says that `memory.md` is being compacted.
pub fn memory_begun() -> (r: Effects)
    ensures
        r@ == memory_begun_effects(),
{
    let mut out = Effects::new();
    out.push(Effect::SetStatus(Some("Compacting memory.md...".to_owned())));
    assert(out@ =~= memory_begun_effects());
    out
}

/// Decides what follows an attempt to compact `memory.md`. One that failed is
/// passed over in silence.
pub fn memory_done(written: bool, size_before: usize) -> (r: Effects)
    ensures
        r@ == memory_done_effects(written, size_before as nat),
{
    let mut out = Effects::new();
    if written {
        out.say(memory::compacted_message(size_before));
    }
    out.push(Effect::SetStatus(None));
    assert(out@ =~= memory_done_effects(written, size_before as nat));
    out
}

/// The state after a run of messages.
pub open spec fn state_after(
    l: AgentLoop,
    messages: Seq<QueuedView>,
    memory_enabled: bool,
) -> AgentLoop
    decreases messages.len(),
{
    if messages.len() == 0 {
        l
    } else {
        next_state(
            state_after(l, messages.drop_last(), memory_enabled),
            Some(messages.last()),
            memory_enabled,
        )
    }
}

/// After a stop nothing that is queued in front of the marker is done: no message
/// reaches the chat or the model, no command runs, and background output stays
/// where it is. The marker then ends the draining.
pub proof fn law_stop_discards_the_queue(
    l: AgentLoop,
    messages: Seq<QueuedView>,
    ctx: DequeueContext<'_>,
    i: int,
)
    requires
        l.draining,
        0 <= i < messages.len(),
        forall|j: int| 0 <= j < i ==> !(#[trigger] messages[j] is StopMarker),
    ensures
        state_after(l, messages.take(i), ctx.memory_enabled) == l,
        !(messages[i] is StopMarker) ==> dequeued(
            state_after(l, messages.take(i), ctx.memory_enabled),
            Some(messages[i]),
            ctx,
        ).len() == 0,
        messages[i] is StopMarker ==> !next_state(
            state_after(l, messages.take(i), ctx.memory_enabled),
            Some(messages[i]),
            ctx.memory_enabled,
        ).draining,
    decreases i,
{
    let done = messages.take(i);
    if i > 0 {
        law_stop_discards_the_queue(l, messages, ctx, i - 1);
        assert(done.drop_last() =~= messages.take(i - 1));
        assert(done.last() == messages[i - 1]);
    }
}

/// Every message that was counted as pending is counted off once: at the dequeue
/// of the user's message, and at the end of a rebuilding command.
pub proof fn law_pending_balances(
    l: AgentLoop,
    m: QueuedView,
    ctx: DequeueContext<'_>,
    verb: Verb,
    fault: Option<Seq<char>>,
)
    requires
        ctx.attached,
        !l.draining,
        m is UserMessage || m is SwitchModel || m is ChangeCwd || m is SelectPipeline,
    ensures
        pending_change(event_loop::counted(true, m)) == 1,
        m is UserMessage ==> pending_change(dequeued(l, Some(m), ctx)) == -1,
        !(m is UserMessage) ==> pending_change(dequeued(l, Some(m), ctx)) == 0 && pending_change(
            verb_done_effects(true, verb, fault),
        ) == -1,
{
    let all = dequeued(l, Some(m), ctx);
    let end = verb_done_effects(true, verb, fault);
    lemma_pending_sum(all);
    lemma_pending_sum(end);
    lemma_pending_sum(event_loop::counted(true, m));
}

/// By how much effects change the number of pending inputs.
pub open spec fn pending_change(effects: Seq<EffectView>) -> int
    decreases effects.len(),
{
    if effects.len() == 0 {
        0
    } else {
        pending_change(effects.drop_last()) + (match effects.last() {
            Effect::IncrementPending => 1int,
            Effect::DecrementPending => -1int,
            _ => 0int,
        })
    }
}

proof fn lemma_pending_sum(s: Seq<EffectView>)
    requires
        s.len() <= 6,
    ensures
        pending_change(s) == pending_at(s, 0) + pending_at(s, 1) + pending_at(s, 2) + pending_at(
            s,
            3,
        ) + pending_at(s, 4) + pending_at(s, 5),
    decreases s.len(),
{
    if s.len() > 0 {
        lemma_pending_sum(s.drop_last());
    }
}

spec fn pending_at(s: Seq<EffectView>, i: int) -> int {
    if 0 <= i < s.len() {
        match s[i] {
            Effect::IncrementPending => 1,
            Effect::DecrementPending => -1,
            _ => 0,
        }
    } else {
        0
    }
}

/// The user's text is in the chat before the turn that answers it runs.
pub proof fn law_text_is_written_before_its_turn(
    l: AgentLoop,
    m: QueuedView,
    ctx: DequeueContext<'_>,
)
    requires
        ctx.attached,
        !l.draining,
        m is UserMessage,
    ensures
        dequeued(l, Some(m), ctx).first() == (Effect::<Seq<char>, _>::AddUserMessage {
            text: m->text,
            attachments: m->attachments,
        }),
        dequeued(l, Some(m), ctx).last() == (Effect::<Seq<char>, Seq<crate::message::Media>>::RunTurn {
            text: m->text,
        }),
{
}

/// `memory.md` is compacted for one message at most.
pub proof fn law_memory_is_compacted_once(
    l: AgentLoop,
    first: QueuedView,
    later: QueuedView,
    ctx: DequeueContext<'_>,
    i: int,
)
    requires
        dequeued(l, Some(first), ctx).contains(Effect::CompactMemory),
        0 <= i < dequeued(next_state(l, Some(first), ctx.memory_enabled), Some(later), ctx).len(),
    ensures
        !(dequeued(next_state(l, Some(first), ctx.memory_enabled), Some(later), ctx)[i]
            is CompactMemory),
{
}

/// The handler and the loop read a command alike, blanks around it or not: the
/// agent is refreshed exactly where the command begins a conversation, and rebuilt
/// wherever it names one to load.
pub proof fn law_follow_up_matches_the_command(cmd: Seq<char>, selected: Option<Seq<char>>)
    ensures
        commands::asked(cmd, text::ascii_lowercase(cmd)) is New <==> follow_up(cmd, selected)
            == seq![EffectView::RefreshAfterNew],
        commands::asked(cmd, text::ascii_lowercase(cmd)) matches Command::Load(a) ==> a.len() > 0
            ==> follow_up(cmd, selected) == seq![
            EffectView::RebuildAfterLoad { selection_before: selected },
        ],
{
    let low = text::ascii_lowercase(cmd);
    let typed = text::trim_start(cmd);
    let small = text::trim_start(low);
    text::lemma_trim_lowercase(cmd);
    assert(shape(cmd) == text::trim_end(small));
    assert(small == text::ascii_lowercase(typed));
    reveal_strlit("/load ");
    reveal_strlit("/new");
    reveal_strlit("/reset");
    reveal_strlit("/stats");
    reveal_strlit("/context");
    reveal_strlit("/compact");
    reveal_strlit("/conversations");
    reveal_strlit("/exit");
    reveal_strlit("/bg");
    reveal_strlit("/help");
    let f = follow_up(cmd, selected);
    if shape(cmd) == "/new"@ {
        assert(shape(cmd).len() == 4);
        assert(commands::one_word(shape(cmd)) == Some(Command::<Seq<char>>::New));
        assert(!text::starts_with(shape(cmd), "/load "@));
        assert(f == seq![EffectView::RefreshAfterNew]);
    } else {
        assert(commands::one_word(shape(cmd)) != Some(Command::<Seq<char>>::New));
        assert(!(commands::asked(cmd, low) is New));
        assert(f.len() > 0 ==> !(f[0] is RefreshAfterNew));
        assert(seq![EffectView::RefreshAfterNew][0] is RefreshAfterNew);
        assert(!(f =~= seq![EffectView::RefreshAfterNew]));
    }
    if let Command::Load(a) = commands::asked(cmd, low) {
        if a.len() > 0 {
            let arg = typed.skip(6);
            assert(!text::is_blank(arg));
            text::lemma_blank(arg);
            let j = choose|j: int| 0 <= j < arg.len() && !text::is_space(#[trigger] arg[j]);
            assert(arg[j] == typed[j + 6]);
            assert(small[j + 6] == text::ascii_lower(typed[j + 6]));
            text::lemma_trim_end_keeps(small, j + 6);
            assert(shape(cmd).take(6) =~= small.take(6)) by {
                assert(shape(cmd).take(j + 7).take(6) =~= shape(cmd).take(6));
                assert(small.take(j + 7).take(6) =~= small.take(6));
            }
        }
    }
}

/// A user's message, taken from the queue outside of a stop: it is written, counted off
/// and answered, in this order and once each; the session is busy before the turn runs;
/// and `memory.md` is compacted first, exactly where that is due.
pub proof fn law_user_message_is_taken(l: AgentLoop, m: QueuedView, ctx: DequeueContext<'_>)
    requires
        !l.draining,
        m is UserMessage,
    ensures
        ({
            let all = dequeued(l, Some(m), ctx);
            let n = all.len() as int;
            let due = !l.memory_compaction_done && ctx.memory_enabled && ctx.has_compaction_model;
            &&& n >= 1 && all[n - 1] == (Effect::<Seq<char>, Seq<crate::message::Media>>::RunTurn { text: m->text })
            &&& !ctx.attached ==> n == 1
            &&& ctx.attached ==> {
                &&& n == (if due {
                    6int
                } else {
                    5int
                })
                &&& all[0] == (Effect::<Seq<char>, Seq<crate::message::Media>>::AddUserMessage { text: m->text, attachments: m->attachments })
                &&& all[1] is DecrementPending
                &&& all[2] is ResetBgCooldowns
                &&& all[3] == (Effect::<Seq<char>, Seq<crate::message::Media>>::SetRunning(true))
                &&& due ==> all[4] is CompactMemory
            }
        }),
        next_state(l, Some(m), ctx.memory_enabled).memory_compaction_done
            == (l.memory_compaction_done || ctx.memory_enabled),
{
}

/// A command runs between the session being busy and idle, what it calls for follows on
/// it, and it is then done. Another rebuilding command is handed on as it is.
pub proof fn law_command_is_run(l: AgentLoop, m: QueuedView, ctx: DequeueContext<'_>)
    requires
        !l.draining,
        ctx.attached,
    ensures
        ({
            let all = dequeued(l, Some(m), ctx);
            let n = all.len() as int;
            &&& m is Command || m is SwitchModel || m is ChangeCwd || m is SelectPipeline ==> n >= 2
                && all[0] == (Effect::<Seq<char>, Seq<crate::message::Media>>::SetRunning(true))
            &&& m matches QueueMessage::Command(c) ==> {
                &&& all[1] == (Effect::<Seq<char>, Seq<crate::message::Media>>::RunCommand(c))
                &&& all[n - 2] == (Effect::<Seq<char>, Seq<crate::message::Media>>::SetRunning(false))
                &&& all[n - 1] == (Effect::<Seq<char>, Seq<crate::message::Media>>::Complete(CompletionResult::CommandDone))
                &&& all.subrange(2, n - 2) == follow_up(c, text::opt_str(ctx.selected))
            }
            &&& m matches QueueMessage::SwitchModel(a) ==> n == 2 && all[1] == (Effect::<Seq<char>, Seq<crate::message::Media>>::SwitchModel(a))
            &&& m matches QueueMessage::ChangeCwd(p) ==> n == 2 && all[1] == (Effect::<Seq<char>, Seq<crate::message::Media>>::ChangeCwd(p))
            &&& m matches QueueMessage::SelectPipeline(s) ==> n == 2 && all[1] == (
            Effect::<Seq<char>, Seq<crate::message::Media>>::SelectPipeline(s))
            &&& m is BackgroundOutputReady ==> n == 1 && all[0] is DrainBackground
        }),
{
    let all = dequeued(l, Some(m), ctx);
    if let QueueMessage::Command(c) = m {
        assert(all.subrange(2, all.len() - 2) =~= follow_up(c, text::opt_str(ctx.selected)));
    }
}

/// The marker of a stop is answered alike while draining and not: the status is cleared,
/// the message shown and the stop completed. At the end of the queue the loop leaves.
pub proof fn law_stop_is_acknowledged(l: AgentLoop, m: QueuedView, ctx: DequeueContext<'_>)
    ensures
        m matches QueueMessage::StopMarker { message } ==> {
            let all = dequeued(l, Some(m), ctx);
            let n = all.len() as int;
            &&& n >= 1 && all[n - 1] == (Effect::<Seq<char>, Seq<crate::message::Media>>::Complete(CompletionResult::Stopped))
            &&& ctx.attached ==> n == 3 && all[0] == (Effect::<Seq<char>, Seq<crate::message::Media>>::SetStatus(None)) && all[1] == (
            Effect::<Seq<char>, Seq<crate::message::Media>>::SystemMessage(message))
            &&& !ctx.attached ==> n == 1
            &&& !next_state(l, Some(m), ctx.memory_enabled).draining
        },
        !(m is StopMarker) ==> next_state(l, Some(m), ctx.memory_enabled).draining == l.draining,
        l.draining ==> next_state(l, Some(m), ctx.memory_enabled).memory_compaction_done
            == l.memory_compaction_done,
        dequeued(l, None, ctx).len() > 0 && dequeued(l, None, ctx).last() is Exit,
        !l.draining ==> dequeued(l, None, ctx).contains(Effect::StopEventProcessor),
        next_state(l, None, ctx.memory_enabled) == l,
{
    if !l.draining {
        assert(dequeued(l, None, ctx)[0] is StopEventProcessor);
        assert(dequeued(l, None, ctx).contains(dequeued(l, None, ctx)[0]));
    }
}

/// A load is followed by a rebuild that knows the team bound before, a new conversation by
/// a refresh, and no other command by anything.
pub proof fn law_follow_up(command: Seq<char>, selected: Option<Seq<char>>)
    ensures
        ({
            let low = text::ascii_lowercase(text::trim(command));
            let loads = low.len() >= 6 && low.take(6) == "/load "@;
            let all = follow_up(command, selected);
            &&& loads ==> all.len() == 1 && all[0] == (Effect::<Seq<char>, Seq<crate::message::Media>>::RebuildAfterLoad {
                selection_before: selected,
            })
            &&& !loads && low == "/new"@ ==> all.len() == 1 && all[0] is RefreshAfterNew
            &&& !loads && low != "/new"@ ==> all.len() == 0
        }),
{
    reveal_strlit("/load ");
}

/// After a turn the session is idle first, then the user hears how long it took, where
/// that is known; the result is completed, and background output has its chance last.
pub proof fn law_turn_is_closed(
    attached: bool,
    result: CompletionResult,
    worked_for: Option<Seq<char>>,
)
    ensures
        ({
            let all = turn_done_effects(attached, result, worked_for);
            let n = all.len() as int;
            &&& n >= 2 && all[n - 2] == (Effect::<Seq<char>, Seq<crate::message::Media>>::Complete(result)) && all[n - 1] is DrainBackground
            &&& attached ==> all[0] == (Effect::<Seq<char>, Seq<crate::message::Media>>::SetRunning(false))
            &&& attached && worked_for is Some ==> n == 4 && all[1] == (Effect::<Seq<char>, Seq<crate::message::Media>>::SystemMessage(
                "worked for "@ + worked_for->0,
            ))
            &&& attached && worked_for is None ==> n == 3
            &&& !attached ==> n == 2
        }),
        ({
            let all = background_done_effects(result);
            all.len() == 2 && all[0] == (Effect::<Seq<char>, Seq<crate::message::Media>>::SetRunning(false)) && all[1] == (Effect::<Seq<char>, Seq<crate::message::Media>>::Complete(result))
        }),
{
}

/// Background output becomes a turn of its own, written before it runs, with the processes
/// that it comes from; without output or without a session nothing happens.
pub proof fn law_background_output_becomes_a_turn(
    attached: bool,
    pending: Option<BackgroundMessage>,
)
    ensures
        ({
            let all = background_effects(attached, pending);
            &&& !attached || pending is None ==> all.len() == 0
            &&& attached && pending is Some ==> {
                &&& all.len() == 3
                &&& all[0] == (Effect::<Seq<char>, Seq<crate::message::Media>>::AddBackgroundMessage {
                    text: pending->0.text@,
                    proc_ids: pending->0.proc_ids,
                })
                &&& all[1] == (Effect::<Seq<char>, Seq<crate::message::Media>>::SetRunning(true))
                &&& all[2] == (Effect::<Seq<char>, Seq<crate::message::Media>>::RunTurn { text: pending->0.text@ })
            }
        }),
{
}

/// A rebuilding command ends with its input counted off, the session idle and the command
/// done; its error is shown behind its name.
pub proof fn law_rebuilding_command_is_closed(
    attached: bool,
    verb: Verb,
    fault: Option<Seq<char>>,
)
    ensures
        ({
            let all = verb_done_effects(attached, verb, fault);
            let n = all.len() as int;
            &&& n >= 1 && all[n - 1] == (Effect::<Seq<char>, Seq<crate::message::Media>>::Complete(CompletionResult::CommandDone))
            &&& !attached ==> n == 1
            &&& attached ==> n == (if fault is Some {
                4int
            } else {
                3int
            }) && all[0] is DecrementPending && all[1] == (Effect::<Seq<char>, Seq<crate::message::Media>>::SetRunning(false))
            &&& attached && fault is Some ==> all[2] == (Effect::<Seq<char>, Seq<crate::message::Media>>::SystemMessage(
                (match verb {
                    Verb::Model => "❌ /model: "@,
                    Verb::Cd => "❌ /cd: "@,
                    Verb::Pipeline => "❌ /pipeline: "@,
                }) + fault->0,
            ))
        }),
{
}

/// While `memory.md` is compacted the status says so; afterwards it is cleared, and the
/// user hears of the size before exactly where a new file was written.
pub proof fn law_memory_compaction_is_told(written: bool, size_before: nat)
    ensures
        memory_begun_effects().len() == 1 && memory_begun_effects()[0] == (Effect::<Seq<char>, Seq<crate::message::Media>>::SetStatus(
            Some("Compacting memory.md..."@),
        )),
        ({
            let all = memory_done_effects(written, size_before);
            &&& all.len() == (if written {
                2int
            } else {
                1int
            })
            &&& all.last() == (Effect::<Seq<char>, Seq<crate::message::Media>>::SetStatus(None))
            &&& written ==> all[0] == (Effect::<Seq<char>, Seq<crate::message::Media>>::SystemMessage(
                "memory.md compacted (was "@ + text::decimal(size_before) + " bytes)"@,
            ))
        }),
{
}

/// A message from the queue is decided on as it stands.
pub proof fn law_queue_is_read_as_it_stands(m: Queued)
    ensures
        queued_view(Some(m)) == Some(m@),
        queued_view(None) is None,
{
}

} // verus!
