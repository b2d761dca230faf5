//! A turn of the agent: requests to the model, compaction on the way, and retries.

use vstd::prelude::*;
use crate::effect::{CompletionResult, Effect, EffectView, Effects};
use crate::message::Message;
use crate::text;

verus! {

/// What a compaction did.
#[derive(Debug, PartialEq, Eq, Structural, Copy, Clone)]
pub struct CompactionCounts {
    pub original_count: usize,
    pub compacted_count: usize,
    pub num_discarded: usize,
}

/// How many bytes of a provider's error are shown.
pub const SHOWN_ERROR_CAP: usize = 2000;

/// A provider's error as the user sees it: cut where it is long.
pub open spec fn shown(error: Seq<char>) -> Seq<char> {
    text::truncated(error, SHOWN_ERROR_CAP as nat, "…"@)
}

/// Cuts a provider's error where it is long.
pub fn shown_error(error: &str) -> (r: String)
    ensures
        r@ == shown(error@),
{
    text::truncate_with_suffix(error, SHOWN_ERROR_CAP, "…")
}

/// What happens to a turn.
#[derive(Debug, PartialEq)]
pub enum TurnEvent {
    /// The user stopped it.
    Stopped,
    /// The model answered.
    Answered(String),
    /// The request was cancelled from inside, for this reason.
    Cancelled { reason: String },
    /// A compaction ended: with these counts, or without result.
    Compacted(Option<CompactionCounts>),
    /// The request failed. `transient` says whether another attempt may help;
    /// `error` is the error's own text; `delay` is ready to be shown.
    Failed { transient: bool, error: String, delay: String },
}

/// What a turn does next.
#[derive(Debug, PartialEq, Eq, Structural, Copy, Clone)]
pub enum TurnNext {
    /// The turn is over.
    Done(CompletionResult),
    /// Compact the context.
    Compact,
    /// Go on from the compacted transcript.
    Resume,
    /// Wait, and go on from the transcript.
    Retry,
}

/// What a turn keeps.
#[derive(Debug, PartialEq, Eq, Structural, Copy, Clone)]
pub struct Turn {
    /// How often it was retried.
    pub retry_count: u32,
}

/// The reason with which a request is cancelled when the context is full.
pub open spec fn over_budget(reason: Seq<char>) -> bool {
    reason == "compact"@
}

/// What the user is told of a compaction on the way.
pub open spec fn compacted_text(c: CompactionCounts, verb: Seq<char>) -> Seq<char> {
    "Context compacted: "@ + text::decimal(c.original_count as nat) + " → "@ + text::decimal(
        c.compacted_count as nat,
    ) + " messages, "@ + text::decimal(c.num_discarded as nat) + " "@ + verb
}

/// Renders what the user is told of a compaction.
pub fn compaction_message(c: CompactionCounts, verb: &str) -> (r: String)
    ensures
        r@ == compacted_text(c, verb@),
{
    let mut m = "Context compacted: ".to_owned();
    m.append(text::decimal_text(c.original_count as u64).as_str());
    m.append(" → ");
    m.append(text::decimal_text(c.compacted_count as u64).as_str());
    m.append(" messages, ");
    m.append(text::decimal_text(c.num_discarded as u64).as_str());
    m.append(" ");
    m.append(verb);
    m
}

/// What a turn does next.
pub open spec fn next_of(t: Turn, e: TurnEvent, attached: bool, max_retries: u32) -> TurnNext {
    match e {
        TurnEvent::Stopped => TurnNext::Done(CompletionResult::Stopped),
        TurnEvent::Answered(_) => TurnNext::Done(CompletionResult::Success),
        TurnEvent::Cancelled { reason } => if over_budget(reason@) && attached {
            TurnNext::Compact
        } else {
            TurnNext::Done(CompletionResult::Error)
        },
        TurnEvent::Compacted(Some(_)) => TurnNext::Resume,
        TurnEvent::Compacted(None) => TurnNext::Done(CompletionResult::Error),
        TurnEvent::Failed { transient, .. } => if transient && t.retry_count < max_retries {
            TurnNext::Retry
        } else {
            TurnNext::Done(CompletionResult::Error)
        },
    }
}

/// What the turn keeps after an event.
pub open spec fn after(t: Turn, e: TurnEvent, attached: bool, max_retries: u32) -> Turn {
    if next_of(t, e, attached, max_retries) == TurnNext::Retry {
        Turn { retry_count: (t.retry_count + 1) as u32 }
    } else {
        t
    }
}

/// What is done about a failed request.
pub open spec fn failed_effects(
    t: Turn,
    transient: bool,
    error: Seq<char>,
    delay: Seq<char>,
    max_retries: u32,
) -> Seq<EffectView> {
    if !transient {
        seq![
            Effect::SetStatus(None),
            Effect::SystemMessage("❌ LLM request failed: "@ + shown(error)),
        ]
    } else if t.retry_count >= max_retries {
        seq![
            Effect::SetStatus(None),
            Effect::SystemMessage(
                "❌ LLM request failed after "@ + text::decimal(max_retries as nat) + " retries: "@
                    + shown(error),
            ),
        ]
    } else {
        seq![
            Effect::SetStatus(
                Some(
                    "Retrying (attempt "@ + text::decimal((t.retry_count + 1) as nat) + "/"@
                        + text::decimal(max_retries as nat) + ") after "@ + delay + "s…"@,
                ),
            ),
        ]
    }
}

/// What is done about an event.
pub open spec fn turn_effects(t: Turn, e: TurnEvent, attached: bool, max_retries: u32) -> Seq<
    EffectView,
> {
    if !attached {
        Seq::empty()
    } else {
        match e {
            TurnEvent::Stopped => Seq::empty(),
            TurnEvent::Answered(content) => seq![
                Effect::AddAssistantMessage { content: content@ },
                Effect::SetFinalBroadcast(true),
                Effect::MaybeGenerateTitle,
            ],
            TurnEvent::Cancelled { reason } => if over_budget(reason@) {
                seq![Effect::SetStatus(Some("Compacting context..."@))]
            } else {
                Seq::empty()
            },
            TurnEvent::Compacted(Some(c)) => seq![
                Effect::SetStatus(None),
                Effect::SystemMessage(compacted_text(c, "compacted"@)),
            ],
            TurnEvent::Compacted(None) => seq![
                Effect::SetStatus(None),
                Effect::SystemMessage(
                    "❌ Compaction failed — the conversation could not be summarised. Aborting this turn. Try a new conversation, or check your compaction model configuration."@,
                ),
                Effect::SetFinalBroadcast(true),
            ],
            TurnEvent::Failed { transient, error, delay } => failed_effects(
                t,
                transient,
                error@,
                delay@,
                max_retries,
            ),
        }
    }
}

impl Turn {
    /// A turn that begins.
    pub fn new() -> (r: Self)
        ensures
            r.retry_count == 0,
    {
        Turn { retry_count: 0 }
    }

    /// Decides what follows an event. Only a transient failure is retried, and only
    /// so often. A compaction without result ends the turn, and so does a
    /// cancellation for any other reason than a full context.
    pub fn step(&mut self, event: TurnEvent, attached: bool, max_retries: u32) -> (r: (
        Effects,
        TurnNext,
    ))
        ensures
            *final(self) == after(*old(self), event, attached, max_retries),
            r.0@ == turn_effects(*old(self), event, attached, max_retries),
            r.1 == next_of(*old(self), event, attached, max_retries),
    {
        let ghost before = *self;
        let ghost event0 = event;
        let mut out = Effects::new();
        let next: TurnNext = match event {
            TurnEvent::Stopped => TurnNext::Done(CompletionResult::Stopped),
            TurnEvent::Answered(content) => {
                if attached {
                    out.push(Effect::AddAssistantMessage { content });
                    out.push(Effect::SetFinalBroadcast(true));
                    out.push(Effect::MaybeGenerateTitle);
                }
                TurnNext::Done(CompletionResult::Success)
            },
            TurnEvent::Cancelled { reason } => if text::same(reason.as_str(), "compact")
                && attached {
                out.push(Effect::SetStatus(Some("Compacting context...".to_owned())));
                TurnNext::Compact
            } else {
                TurnNext::Done(CompletionResult::Error)
            },
            TurnEvent::Compacted(Some(c)) => {
                if attached {
                    out.push(Effect::SetStatus(None));
                    out.say(compaction_message(c, "compacted"));
                }
                TurnNext::Resume
            },
            TurnEvent::Compacted(None) => {
                if attached {
                    out.push(Effect::SetStatus(None));
                    out.say(
                        "❌ Compaction failed — the conversation could not be summarised. Aborting this turn. Try a new conversation, or check your compaction model configuration.".to_owned(),
                    );
                    out.push(Effect::SetFinalBroadcast(true));
                }
                TurnNext::Done(CompletionResult::Error)
            },
            TurnEvent::Failed { transient, error, delay } => if !transient {
                if attached {
                    out.push(Effect::SetStatus(None));
                    let mut m = "❌ LLM request failed: ".to_owned();
                    m.append(shown_error(error.as_str()).as_str());
                    out.say(m);
                }
                TurnNext::Done(CompletionResult::Error)
            } else if self.retry_count >= max_retries {
                if attached {
                    out.push(Effect::SetStatus(None));
                    let mut m = "❌ LLM request failed after ".to_owned();
                    m.append(text::decimal_text(max_retries as u64).as_str());
                    m.append(" retries: ");
                    m.append(shown_error(error.as_str()).as_str());
                    out.say(m);
                }
                TurnNext::Done(CompletionResult::Error)
            } else {
                let attempt: u32 = self.retry_count + 1;
                if attached {
                    let mut m = "Retrying (attempt ".to_owned();
                    m.append(text::decimal_text(attempt as u64).as_str());
                    m.append("/");
                    m.append(text::decimal_text(max_retries as u64).as_str());
                    m.append(") after ");
                    m.append(delay.as_str());
                    m.append("s…");
                    out.push(Effect::SetStatus(Some(m)));
                }
                self.retry_count = attempt;
                TurnNext::Retry
            },
        };
        assert(out@ =~= turn_effects(before, event0, attached, max_retries));
        (out, next)
    }
}

/// What a turn keeps after a run of events.
pub open spec fn after_all(t: Turn, events: Seq<TurnEvent>, attached: bool, max_retries: u32)
    -> Turn
    decreases events.len(),
{
    if events.len() == 0 {
        t
    } else {
        after(
            after_all(t, events.drop_last(), attached, max_retries),
            events.last(),
            attached,
            max_retries,
        )
    }
}

/// How often a run of events made the turn retry.
pub open spec fn retries(t: Turn, events: Seq<TurnEvent>, attached: bool, max_retries: u32) -> nat
    decreases events.len(),
{
    if events.len() == 0 {
        0
    } else {
        retries(t, events.drop_last(), attached, max_retries) + if next_of(
            after_all(t, events.drop_last(), attached, max_retries),
            events.last(),
            attached,
            max_retries,
        ) == TurnNext::Retry {
            1nat
        } else {
            0nat
        }
    }
}

/// Whatever happens, a turn is retried no more often than it may be.
pub proof fn law_retries_are_bounded(events: Seq<TurnEvent>, attached: bool, max_retries: u32)
    ensures
        retries(Turn { retry_count: 0 }, events, attached, max_retries) <= max_retries,
        after_all(Turn { retry_count: 0 }, events, attached, max_retries).retry_count == retries(
            Turn { retry_count: 0 },
            events,
            attached,
            max_retries,
        ),
    decreases events.len(),
{
    if events.len() > 0 {
        law_retries_are_bounded(events.drop_last(), attached, max_retries);
    }
}

/// A failure that another attempt cannot help is never retried.
pub proof fn law_only_transient_failures_are_retried(
    t: Turn,
    e: TurnEvent,
    attached: bool,
    max_retries: u32,
)
    ensures
        next_of(t, e, attached, max_retries) == TurnNext::Retry ==> e is Failed
            && e->transient && t.retry_count < max_retries,
{
}

/// Whatever a provider reports, no more than a bounded part of it is shown.
pub proof fn law_shown_errors_are_bounded(error: Seq<char>)
    ensures
        text::byte_len(shown(error)) <= SHOWN_ERROR_CAP + 3,
        text::byte_len(error) <= SHOWN_ERROR_CAP ==> shown(error) == error,
{
    reveal_strlit("…");
    text::law_truncated_bounded(error, SHOWN_ERROR_CAP as nat, "…"@);
    assert("…"@.drop_first() =~= Seq::<char>::empty());
    assert(text::byte_len("…"@.drop_first()) == 0);
}

// ---------------------------------------------------------------------------
// What the next request carries
// ---------------------------------------------------------------------------

/// The history for the next request: the override where there is one, which is then
/// used up; else the session's.
pub fn derive_history_for_iteration(
    history_override: &mut Option<Vec<Message>>,
    session_history: Option<Vec<Message>>,
) -> (r: Vec<Message>)
    ensures
        *final(history_override) is None,
        match (*old(history_override), session_history) {
            (Some(h), _) => r == h,
            (None, Some(h)) => r == h,
            (None, None) => r@.len() == 0,
        },
{
    let mut taken: Option<Vec<Message>> = None;
    std::mem::swap(&mut taken, history_override);
    match taken {
        Some(h) => h,
        None => match session_history {
            Some(h) => h,
            None => Vec::new(),
        },
    }
}

/// Takes the next attempt, prompt and history together, from the end of the
/// transcript. `false` says that there is nothing to go on from; the turn then
/// stays as it is.
pub fn refresh_attempt_from_transcript(
    tail: Option<(Message, Vec<Message>)>,
    current_turn: &mut Message,
    history_override: &mut Option<Vec<Message>>,
) -> (r: bool)
    ensures
        r == tail is Some,
        match tail {
            Some((prompt, history)) => *final(current_turn) == prompt && *final(history_override)
                == Some(history),
            None => *final(current_turn) == *old(current_turn) && *final(history_override) == *old(history_override),
        },
{
    match tail {
        Some((prompt, history)) => {
            *current_turn = prompt;
            *history_override = Some(history);
            true
        },
        None => false,
    }
}

/// Takes the next attempt after a compaction: from the end of the transcript, else
/// the turn as it is built anew.
pub fn resume_attempt(
    tail: Option<(Message, Vec<Message>)>,
    rebuilt: Option<Message>,
    current_turn: &mut Message,
    history_override: &mut Option<Vec<Message>>,
)
    ensures
        match (tail, rebuilt) {
            (Some((prompt, history)), _) => *final(current_turn) == prompt && *final(history_override) == Some(history),
            (None, Some(turn)) => *final(current_turn) == turn && *final(history_override) == *old(history_override),
            (None, None) => *final(current_turn) == *old(current_turn) && *final(history_override)
                == *old(history_override),
        },
{
    if !refresh_attempt_from_transcript(tail, current_turn, history_override) {
        if let Some(turn) = rebuilt {
            *current_turn = turn;
        }
    }
}

/// What a turn does next, for every event: it succeeds exactly where the model answered,
/// stops exactly where the user stopped it, compacts exactly where the context is full
/// and there is a session, goes on exactly where the compaction gave a result, and retries
/// exactly where the failure is transient and attempts are left. Else it ends in an error.
pub proof fn law_every_event_has_its_consequence(
    t: Turn,
    e: TurnEvent,
    attached: bool,
    max_retries: u32,
)
    ensures
        ({
            let next = next_of(t, e, attached, max_retries);
            &&& next == TurnNext::Done(CompletionResult::Success) <==> e is Answered
            &&& next == TurnNext::Done(CompletionResult::Stopped) <==> e is Stopped
            &&& next == TurnNext::Compact <==> attached && (e matches TurnEvent::Cancelled { reason }
                && reason@ == "compact"@)
            &&& next == TurnNext::Resume <==> (e matches TurnEvent::Compacted(c) && c is Some)
            &&& next == TurnNext::Retry <==> t.retry_count < max_retries && (
            e matches TurnEvent::Failed { transient, .. } && transient)
            &&& next is Done && !(e is Answered) && !(e is Stopped) ==> next == TurnNext::Done(
                CompletionResult::Error,
            )
        }),
        after(t, e, attached, max_retries).retry_count == t.retry_count + (if next_of(
            t,
            e,
            attached,
            max_retries,
        ) == TurnNext::Retry {
            1int
        } else {
            0
        }),
{
}

/// An answer is written into the chat word for word, before the turn is told to be over.
pub proof fn law_answer_is_written(t: Turn, content: String, max_retries: u32)
    ensures
        ({
            let all = turn_effects(t, TurnEvent::Answered(content), true, max_retries);
            &&& all.len() == 3
            &&& all[0] == (Effect::<Seq<char>, Seq<crate::message::Media>>::AddAssistantMessage { content: content@ })
            &&& all[1] == (Effect::<Seq<char>, Seq<crate::message::Media>>::SetFinalBroadcast(true))
            &&& all[2] == (Effect::<Seq<char>, Seq<crate::message::Media>>::MaybeGenerateTitle)
        }),
{
}

/// A failure that ends the turn is told with the provider's own words, as far as they are
/// shown, and the status is cleared; one that is retried shows which attempt of how many
/// it is and how long it waits. Without a session nothing is told.
pub proof fn law_failure_is_told(
    t: Turn,
    transient: bool,
    error: String,
    delay: String,
    max_retries: u32,
) -> (head: Seq<char>)
    ensures
        ({
            let e = TurnEvent::Failed { transient, error, delay };
            let all = turn_effects(t, e, true, max_retries);
            let ends = next_of(t, e, true, max_retries) is Done;
            &&& ends ==> all.len() == 2 && all[0] == (Effect::<Seq<char>, Seq<crate::message::Media>>::SetStatus(None)) && all[1] == (
            Effect::<Seq<char>, Seq<crate::message::Media>>::SystemMessage(head + text::truncated(error@, 2000, "…"@)))
            &&& ends && transient ==> head == "❌ LLM request failed after "@ + text::decimal(
                max_retries as nat,
            ) + " retries: "@
            &&& ends && !transient ==> head == "❌ LLM request failed: "@
            &&& !ends ==> all.len() == 1 && all[0] == (Effect::<Seq<char>, Seq<crate::message::Media>>::SetStatus(
                Some(
                    "Retrying (attempt "@ + text::decimal((t.retry_count + 1) as nat) + "/"@
                        + text::decimal(max_retries as nat) + ") after "@ + delay@ + "s…"@,
                ),
            ))
            &&& turn_effects(t, e, false, max_retries).len() == 0
        }),
{
    if transient {
        "❌ LLM request failed after "@ + text::decimal(max_retries as nat) + " retries: "@
    } else {
        "❌ LLM request failed: "@
    }
}

/// A compaction on the way is shown while it runs, and what it did once it is done: how
/// many messages there were, how many there are and how many went. One without result is
/// told as well, and ends the turn.
pub proof fn law_compaction_is_told(
    t: Turn,
    c: CompactionCounts,
    reason: String,
    max_retries: u32,
)
    ensures
        ({
            let all = turn_effects(t, TurnEvent::Compacted(Some(c)), true, max_retries);
            &&& all.len() == 2
            &&& all[0] == (Effect::<Seq<char>, Seq<crate::message::Media>>::SetStatus(None))
            &&& all[1] == (Effect::<Seq<char>, Seq<crate::message::Media>>::SystemMessage(
                "Context compacted: "@ + text::decimal(c.original_count as nat) + " → "@
                    + text::decimal(c.compacted_count as nat) + " messages, "@ + text::decimal(
                    c.num_discarded as nat,
                ) + " "@ + "compacted"@,
            ))
        }),
        ({
            let all = turn_effects(t, TurnEvent::Compacted(None), true, max_retries);
            &&& all.len() == 3
            &&& all[0] == (Effect::<Seq<char>, Seq<crate::message::Media>>::SetStatus(None))
            &&& all[1] is SystemMessage
            &&& all[2] == (Effect::<Seq<char>, Seq<crate::message::Media>>::SetFinalBroadcast(true))
        }),
        ({
            let all = turn_effects(t, TurnEvent::Cancelled { reason }, true, max_retries);
            &&& reason@ == "compact"@ ==> all.len() == 1 && all[0] == (Effect::<
                Seq<char>,
                Seq<crate::message::Media>,
            >::SetStatus(Some("Compacting context..."@)))
            &&& reason@ != "compact"@ ==> all.len() == 0
        }),
{
}

} // verus!
