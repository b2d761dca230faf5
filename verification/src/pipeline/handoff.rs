//! What a delegation that died turns into: a result for the orchestrator that
//! says what the sub-agent did before it stopped.
//!
//! A failure is classified, the sub-agent's transcript is put before a
//! summariser, and the summary comes back inside an ordinary tool result. Only
//! a stop by the user stays an error.

use vstd::prelude::*;
use crate::table;
use crate::table::TextMap;
use crate::message::{AssistantContent, Message, ToolResult, ToolResultContent, UserContent};
use crate::text;

verus! {

/// Error texts are capped at this many bytes.
pub const ERROR_CAP: usize = 300;

/// Cap on the summary in the result.
pub const SUMMARY_CAP: usize = 4096;

/// Cap on the assistant text that stands in for a summary.
pub const FALLBACK_CAP: usize = 1500;

/// Above this the transcript is elided.
pub const TRANSCRIPT_CAP: usize = 49152;

/// What an elided transcript keeps from the front: the task brief.
pub const HEAD_CAP: usize = 12288;

/// What an elided transcript keeps from the back: where the sub-agent stopped.
pub const TAIL_CAP: usize = 36864;

pub const USER_TEXT_CAP: usize = 2000;

pub const TOOL_RESULT_CAP: usize = 500;

pub const ASSISTANT_TEXT_CAP: usize = 1000;

pub const TOOL_ARGS_CAP: usize = 200;

/// What the summariser is asked.
pub const SUMMARY_PROMPT: &'static str =
    "A sub-agent was interrupted before it finished the task shown at the top of the transcript below. Write a handoff briefing for the orchestrator that delegated it. No preamble, no apology — just:\n\n1. What it actually did: files touched, commands run, searches made.\n2. What it found or concluded: concrete facts, names, paths, numbers.\n3. Exactly where it stopped, and what remains unfinished.\n\nBe specific and dense. 200 words maximum. If the transcript shows nothing was accomplished, say exactly that in one line.\n\n--- SUB-AGENT TRANSCRIPT ---\n";

pub const CONTEXT_GUIDANCE: &'static str =
    "[The task was NOT completed. Your call: re-delegate only the remaining slice, split it across several smaller delegations, pick a different role, or finish it yourself. Re-sending this same task will hit the same limit again.]";

pub const FAILED_GUIDANCE: &'static str =
    "[The task was NOT completed. Your call: if that error looks transient, re-delegate as-is; otherwise narrow the task, split it across several delegations, or pick a different role.]";

pub const NO_SUMMARY: &'static str = "No summary of its work is recoverable.";

/// How running a prompt failed.
#[derive(Debug, PartialEq)]
pub enum PromptFailure {
    /// The prompt loop was cancelled.
    PromptCancelled { chat_history: Vec<Message>, reason: String },
    /// The run used up its turns.
    MaxTurns { max_turns: usize, chat_history: Vec<Message> },
    /// The model called a tool that does not exist.
    UnknownToolCall {
        tool_name: String,
        available_tools: Vec<String>,
        allowed_tools: Vec<String>,
        chat_history: Vec<Message>,
    },
    /// The provider failed; the message is the provider error's own text.
    Completion { message: String },
    /// A tool failed; the message is the tool error's own text.
    Tool { message: String },
    /// The tool server failed; the message is the server error's own text.
    ToolServer { message: String },
}

/// The notation that `{:?}` gives a list of strings.
pub uninterp spec fn debug_list(v: Seq<Seq<char>>) -> Seq<char>;

/// The standard library's `Debug` notation of a list of strings, through
/// `format!`: the strings quoted and escaped, between square brackets.
#[verifier::external_body]
pub(crate) fn debug_strings(v: &Vec<String>) -> (r: String)
    ensures
        r@ == debug_list(text::strs(v@)),
{
    format!("{:?}", v)
}

/// The text that describes a failure.
pub open spec fn failure_text(e: PromptFailure) -> Seq<char> {
    match e {
        PromptFailure::PromptCancelled { reason, .. } => "PromptCancelled: "@ + reason@,
        PromptFailure::MaxTurns { max_turns, .. } => "MaxTurnsError: reached max turns limit: "@
            + text::decimal(max_turns as nat),
        PromptFailure::UnknownToolCall { tool_name, available_tools, allowed_tools, .. } => {
            "UnknownToolCall: model attempted to call unknown or disallowed tool `"@ + tool_name@
                + "`. Available tools: "@ + debug_list(text::strs(available_tools@))
                + ". Allowed tools for this turn: "@ + debug_list(text::strs(allowed_tools@))
        },
        PromptFailure::Completion { message } => "CompletionError: "@ + message@,
        PromptFailure::Tool { message } => "ToolCallError: "@ + message@,
        PromptFailure::ToolServer { message } => "ToolServerError: "@ + message@,
    }
}

impl PromptFailure {
    /// Describes the failure.
    pub fn describe(&self) -> (r: String)
        ensures
            r@ == failure_text(*self),
    {
        match self {
            PromptFailure::PromptCancelled { reason, .. } => {
                let mut s = "PromptCancelled: ".to_owned();
                s.append(reason.as_str());
                s
            },
            PromptFailure::MaxTurns { max_turns, .. } => {
                let mut s = "MaxTurnsError: reached max turns limit: ".to_owned();
                s.append(text::decimal_text(*max_turns as u64).as_str());
                s
            },
            PromptFailure::UnknownToolCall { tool_name, available_tools, allowed_tools, .. } => {
                let mut s =
                    "UnknownToolCall: model attempted to call unknown or disallowed tool `".to_owned();
                s.append(tool_name.as_str());
                s.append("`. Available tools: ");
                s.append(debug_strings(available_tools).as_str());
                s.append(". Allowed tools for this turn: ");
                s.append(debug_strings(allowed_tools).as_str());
                s
            },
            PromptFailure::Completion { message } => {
                let mut s = "CompletionError: ".to_owned();
                s.append(message.as_str());
                s
            },
            PromptFailure::Tool { message } => {
                let mut s = "ToolCallError: ".to_owned();
                s.append(message.as_str());
                s
            },
            PromptFailure::ToolServer { message } => {
                let mut s = "ToolServerError: ".to_owned();
                s.append(message.as_str());
                s
            },
        }
    }
}

/// What a failed delegation becomes.
#[derive(Debug, PartialEq)]
pub enum Handoff {
    /// The user pressed stop: the turn unwinds as an error.
    Abort(PromptFailure),
    /// The budget gate fired.
    ContextExceeded { history: Vec<Message> },
    /// Anything else.
    Failed { error: String, history: Vec<Message> },
}

/// Which banner the result carries.
#[derive(Debug, PartialEq)]
pub enum Header {
    ContextExceeded,
    Failed { error: String },
}

impl Header {
    /// The short name of the class.
    pub fn class(&self) -> (r: &'static str)
        ensures
            r@ == match self {
                Header::ContextExceeded => "context-exceeded"@,
                Header::Failed { .. } => "failed"@,
            },
    {
        match self {
            Header::ContextExceeded => "context-exceeded",
            Header::Failed { .. } => "failed",
        }
    }
}

// ---------------------------------------------------------------------------
// Classification
// ---------------------------------------------------------------------------

/// A text capped for use as an error: at most `ERROR_CAP` bytes, and an
/// ellipsis where something was cut.
pub open spec fn capped_error(s: Seq<char>) -> Seq<char> {
    text::truncated(s, ERROR_CAP as nat, "…"@)
}

/// The error's history where it has one, else the snapshot.
pub open spec fn picked(from_error: Seq<Message>, snapshot: Seq<Message>) -> Seq<Message> {
    if from_error.len() == 0 {
        snapshot
    } else {
        from_error
    }
}

fn pick(from_error: Vec<Message>, snapshot: Vec<Message>) -> (r: Vec<Message>)
    ensures
        r@ == picked(from_error@, snapshot@),
{
    if from_error.is_empty() {
        snapshot
    } else {
        from_error
    }
}

/// Caps an error text.
pub fn cap_error(s: &str) -> (r: String)
    ensures
        r@ == capped_error(s@),
{
    text::truncate_with_suffix(s, ERROR_CAP, "…")
}

/// Capping a capped error changes nothing: ellipses never stack.
pub proof fn law_cap_error_idempotent(s: Seq<char>)
    ensures
        capped_error(capped_error(s)) == capped_error(s),
{
    reveal_strlit("…");
    assert("…"@ =~= seq!['…']);
    text::law_truncated_idempotent(s, ERROR_CAP as nat, '…');
}

/// Whether `h` is a failure with this error text and history.
pub open spec fn is_failed(h: Handoff, error: Seq<char>, history: Seq<Message>) -> bool {
    h matches Handoff::Failed { error: e, history: g } && e@ == error && g@ == history
}

/// Whether `h` is what the failure `err` is classified as. Only a stop by the
/// user aborts.
pub open spec fn classified(err: PromptFailure, snapshot: Seq<Message>, h: Handoff) -> bool {
    match err {
        PromptFailure::PromptCancelled { chat_history, reason } => {
            if reason@ == "stop"@ {
                h == Handoff::Abort(err)
            } else if reason@ == "subagent-context"@ {
                h matches Handoff::ContextExceeded { history } && history@ == picked(
                    chat_history@,
                    snapshot,
                )
            } else {
                is_failed(h, "cancelled: "@ + reason@, picked(chat_history@, snapshot))
            }
        },
        PromptFailure::MaxTurns { max_turns, chat_history } => is_failed(
            h,
            "reached its max turn limit ("@ + text::decimal(max_turns as nat) + ")"@,
            picked(chat_history@, snapshot),
        ),
        PromptFailure::UnknownToolCall { tool_name, chat_history, .. } => is_failed(
            h,
            "called an unknown tool `"@ + tool_name@ + "`"@,
            picked(chat_history@, snapshot),
        ),
        PromptFailure::Completion { message } => is_failed(
            h,
            capped_error(message@),
            snapshot,
        ),
        PromptFailure::Tool { message } => is_failed(h, capped_error(message@), snapshot),
        PromptFailure::ToolServer { message } => is_failed(
            h,
            capped_error(message@),
            snapshot,
        ),
    }
}

/// Classifies a failed delegation. The snapshot is the sub-agent's history as
/// last seen; it is used only where the failure carries no history.
pub fn classify(err: PromptFailure, snapshot: Vec<Message>) -> (h: Handoff)
    ensures
        classified(err, snapshot@, h),
{
    match err {
        PromptFailure::PromptCancelled { chat_history, reason } => {
            if text::same(reason.as_str(), "stop") {
                return Handoff::Abort(PromptFailure::PromptCancelled { chat_history, reason });
            }
            if text::same(reason.as_str(), "subagent-context") {
                return Handoff::ContextExceeded { history: pick(chat_history, snapshot) };
            }
            let mut error = "cancelled: ".to_owned();
            error.append(reason.as_str());
            Handoff::Failed { error, history: pick(chat_history, snapshot) }
        },
        PromptFailure::MaxTurns { max_turns, chat_history } => {
            let mut error = "reached its max turn limit (".to_owned();
            error.append(text::decimal_text(max_turns as u64).as_str());
            error.append(")");
            Handoff::Failed { error, history: pick(chat_history, snapshot) }
        },
        PromptFailure::UnknownToolCall { tool_name, chat_history, .. } => {
            let mut error = "called an unknown tool `".to_owned();
            error.append(tool_name.as_str());
            error.append("`");
            Handoff::Failed { error, history: pick(chat_history, snapshot) }
        },
        PromptFailure::Completion { message } => {
            Handoff::Failed { error: cap_error(message.as_str()), history: snapshot }
        },
        PromptFailure::Tool { message } => {
            Handoff::Failed { error: cap_error(message.as_str()), history: snapshot }
        },
        PromptFailure::ToolServer { message } => {
            Handoff::Failed { error: cap_error(message.as_str()), history: snapshot }
        },
    }
}

// ---------------------------------------------------------------------------
// The transcript
// ---------------------------------------------------------------------------

/// The text items of a tool result.
pub open spec fn result_texts(content: Seq<ToolResultContent>) -> Seq<Seq<char>>
    decreases content.len(),
{
    if content.len() == 0 {
        Seq::empty()
    } else {
        let before = result_texts(content.drop_last());
        match content.last() {
            ToolResultContent::Text(t) => before.push(t@),
            ToolResultContent::Image(_) => before,
        }
    }
}

/// The text items of a tool result, a line break between each two.
pub fn tool_result_text(content: &[ToolResultContent]) -> (r: String)
    ensures
        r@ == text::join(result_texts(content@), "\n"@),
{
    let mut parts: Vec<String> = Vec::new();
    let mut i: usize = 0;
    assert(text::strs(parts@) =~= result_texts(content@.take(0)));
    while i < content.len()
        invariant
            i <= content@.len(),
            text::strs(parts@) == result_texts(content@.take(i as int)),
        decreases content@.len() - i,
    {
        let ghost p = content@.take(i + 1);
        let ghost before = parts@;
        assert(p.drop_last() =~= content@.take(i as int));
        match &content[i] {
            ToolResultContent::Text(t) => {
                parts.push(t.clone());
                assert(text::strs(parts@) =~= text::strs(before).push(t@));
            },
            ToolResultContent::Image(_) => {},
        }
        i += 1;
    }
    assert(content@.take(content@.len() as int) =~= content@);
    text::join_text(&parts, "\n")
}

/// A transcript in the making: the tool that each call id names, and the
/// blocks so far.
#[verifier::ext_equal]
pub struct Draft {
    pub tools: Seq<(Seq<char>, String)>,
    pub blocks: Seq<Seq<char>>,
}

/// The name to print for a tool result: the tool of the call it answers, found
/// by the provider's call id first and by the id second.
pub open spec fn result_label(tools: Seq<(Seq<char>, String)>, r: ToolResult) -> Seq<char> {
    let by_call = match r.call_id {
        Some(id) => table::lookup(tools, id@),
        None => None,
    };
    match by_call {
        Some(name) => name@,
        None => match table::lookup(tools, r.id@) {
            Some(name) => name@,
            None => "tool"@,
        },
    }
}

/// The draft after one item of a user message.
pub open spec fn with_user_item(d: Draft, c: UserContent) -> Draft {
    match c {
        UserContent::Text(t) => Draft {
            blocks: d.blocks.push("User: "@ + text::truncated(t@, USER_TEXT_CAP as nat, "…"@)),
            ..d
        },
        UserContent::ToolResult(r) => Draft {
            blocks: d.blocks.push(
                "Tool ["@ + result_label(d.tools, r) + "] returned: "@ + text::truncated(
                    text::join(result_texts(r.content@), "\n"@),
                    TOOL_RESULT_CAP as nat,
                    "…"@,
                ),
            ),
            ..d
        },
        _ => d,
    }
}

/// The draft after one item of an assistant message.
pub open spec fn with_assistant_item(d: Draft, c: AssistantContent) -> Draft {
    match c {
        AssistantContent::Text(t) => Draft {
            blocks: d.blocks.push(
                "Assistant: "@ + text::truncated(t@, ASSISTANT_TEXT_CAP as nat, "…"@),
            ),
            ..d
        },
        AssistantContent::ToolCall(call) => {
            let once = table::stored(d.tools, call.id@, call.name);
            Draft {
                tools: match call.call_id {
                    Some(id) => table::stored(once, id@, call.name),
                    None => once,
                },
                blocks: d.blocks.push(
                    "Assistant called "@ + call.name@ + "("@ + text::truncated(
                        call.arguments@,
                        TOOL_ARGS_CAP as nat,
                        "…"@,
                    ) + ")"@,
                ),
            }
        },
        _ => d,
    }
}

/// The draft after the items of a user message.
pub open spec fn with_user_items(d: Draft, s: Seq<UserContent>) -> Draft
    decreases s.len(),
{
    if s.len() == 0 {
        d
    } else {
        with_user_item(with_user_items(d, s.drop_last()), s.last())
    }
}

/// The draft after the items of an assistant message.
pub open spec fn with_assistant_items(d: Draft, s: Seq<AssistantContent>) -> Draft
    decreases s.len(),
{
    if s.len() == 0 {
        d
    } else {
        with_assistant_item(with_assistant_items(d, s.drop_last()), s.last())
    }
}

/// The draft after one message. System messages leave no trace.
pub open spec fn with_message(d: Draft, m: Message) -> Draft {
    match m {
        Message::System { .. } => d,
        Message::User { content } => with_user_items(d, content@),
        Message::Assistant { content, .. } => with_assistant_items(d, content@),
    }
}

/// The draft after a history.
pub open spec fn with_history(d: Draft, h: Seq<Message>) -> Draft
    decreases h.len(),
{
    if h.len() == 0 {
        d
    } else {
        with_message(with_history(d, h.drop_last()), h.last())
    }
}

/// The draft before the first message.
pub open spec fn empty_draft() -> Draft {
    Draft { tools: Seq::empty(), blocks: Seq::empty() }
}

/// The blocks of a history: one per text, tool call and tool result.
pub open spec fn transcript_blocks(h: Seq<Message>) -> Seq<Seq<char>> {
    with_history(empty_draft(), h).blocks
}

/// How many leading blocks fit into `cap` bytes when `used` bytes are taken,
/// counting one byte between blocks.
pub open spec fn head_count(blocks: Seq<Seq<char>>, used: nat) -> nat
    decreases blocks.len(),
{
    if blocks.len() == 0 || used + text::byte_len(blocks[0]) > HEAD_CAP {
        0
    } else {
        1 + head_count(blocks.drop_first(), used + text::byte_len(blocks[0]) + 1)
    }
}

/// How many trailing blocks fit into `TAIL_CAP` bytes when `used` bytes are
/// taken, counting one byte between blocks.
pub open spec fn tail_count(blocks: Seq<Seq<char>>, used: nat) -> nat
    decreases blocks.len(),
{
    if blocks.len() == 0 || used + text::byte_len(blocks.last()) > TAIL_CAP {
        0
    } else {
        1 + tail_count(blocks.drop_last(), used + text::byte_len(blocks.last()) + 1)
    }
}

/// The line that stands for `n` dropped blocks.
pub open spec fn elision_mark(n: nat) -> Seq<char> {
    "[... "@ + text::decimal(n) + " earlier steps elided ...]"@
}

/// The blocks, a line each; where that is too long, whole blocks are dropped
/// from the middle and a line says how many.
pub open spec fn elided(blocks: Seq<Seq<char>>) -> Seq<char> {
    let all = text::join(blocks, "\n"@);
    if text::byte_len(all) <= TRANSCRIPT_CAP {
        all
    } else {
        let head = head_count(blocks, 0);
        let tail = tail_count(blocks.skip(head as int), 0);
        let dropped = (blocks.len() - head - tail) as nat;
        if dropped == 0 {
            all
        } else {
            let front = if head > 0 {
                seq![text::join(blocks.take(head as int), "\n"@)]
            } else {
                Seq::empty()
            };
            let back = if tail > 0 {
                seq![text::join(blocks.skip(blocks.len() - tail), "\n"@)]
            } else {
                Seq::empty()
            };
            text::join(front.push(elision_mark(dropped)) + back, "\n"@)
        }
    }
}


/// The kept front stays within its budget.
proof fn lemma_head_fits(blocks: Seq<Seq<char>>, used: nat)
    ensures
        head_count(blocks, used) <= blocks.len(),
        head_count(blocks, used) > 0 ==> used + text::byte_len(
            text::join(blocks.take(head_count(blocks, used) as int), "\n"@),
        ) <= HEAD_CAP,
    decreases blocks.len(),
{
    let k = head_count(blocks, used);
    if k > 0 {
        reveal_strlit("\n");
        let rest = blocks.drop_first();
        let next = used + text::byte_len(blocks[0]) + 1;
        lemma_head_fits(rest, next);
        let t = rest.take(k - 1);
        text::lemma_join_front(blocks[0], t, "\n"@);
        assert(seq![blocks[0]] + t =~= blocks.take(k as int));
        if k > 1 {
            lemma_line_break();
            text::lemma_byte_len_concat(blocks[0], "\n"@);
            text::lemma_byte_len_concat(blocks[0] + "\n"@, text::join(t, "\n"@));
        }
    }
}

/// The kept back stays within its budget.
proof fn lemma_tail_fits(blocks: Seq<Seq<char>>, used: nat)
    ensures
        tail_count(blocks, used) <= blocks.len(),
        tail_count(blocks, used) > 0 ==> used + text::byte_len(
            text::join(blocks.skip(blocks.len() - tail_count(blocks, used)), "\n"@),
        ) <= TAIL_CAP,
    decreases blocks.len(),
{
    let k = tail_count(blocks, used);
    if k > 0 {
        let rest = blocks.drop_last();
        let next = used + text::byte_len(blocks.last()) + 1;
        lemma_tail_fits(rest, next);
        let t = blocks.skip(blocks.len() - k);
        if k > 1 {
            assert(t.drop_last() =~= rest.skip(rest.len() - (k - 1)));
            lemma_line_break();
            text::lemma_byte_len_concat(text::join(t.drop_last(), "\n"@), "\n"@);
            text::lemma_byte_len_concat(
                text::join(t.drop_last(), "\n"@) + "\n"@,
                blocks.last(),
            );
        } else {
            assert(t =~= seq![blocks.last()]);
        }
    }
}

proof fn lemma_line_break()
    ensures
        text::byte_len("\n"@) == 1,
{
    reveal_strlit("\n");
    assert("\n"@.drop_first() =~= Seq::<char>::empty());
    assert(text::byte_len("\n"@.drop_first()) == 0);
}

/// A transcript never grows beyond its budget by more than the line that counts
/// the dropped blocks.
pub proof fn law_transcript_bounded(blocks: Seq<Seq<char>>)
    requires
        blocks.len() <= u64::MAX,
    ensures
        text::byte_len(elided(blocks)) <= TRANSCRIPT_CAP + 256,
{
    let nl = "\n"@;
    lemma_line_break();
    let head = head_count(blocks, 0);
    lemma_head_fits(blocks, 0);
    let rest = blocks.skip(head as int);
    let tail = tail_count(rest, 0);
    lemma_tail_fits(rest, 0);
    let front = text::join(blocks.take(head as int), nl);
    let back = text::join(blocks.skip(blocks.len() - tail), nl);
    assert(rest.skip(rest.len() - tail) =~= blocks.skip(blocks.len() - tail));
    let dropped = (blocks.len() - head - tail) as nat;
    let m = elision_mark(dropped);
    assert(text::byte_len(m) <= 204) by {
        reveal_strlit("[... ");
        reveal_strlit(" earlier steps elided ...]");
        assert(text::ten_to(20) > u64::MAX) by {
            reveal_with_fuel(text::ten_to, 21);
        }
        text::lemma_decimal_len(dropped, 20);
        text::lemma_byte_len_bound(m);
        assert(m.len() <= 51);
    }
    if text::byte_len(text::join(blocks, nl)) > TRANSCRIPT_CAP {
        if dropped == 0 {
            if head == 0 {
                assert(blocks.skip(0) =~= blocks);
            } else if tail == 0 {
                assert(blocks.take(head as int) =~= blocks);
            } else {
                lemma_join_parts(blocks.take(head as int), blocks.skip(head as int), nl);
                assert(blocks.take(head as int) + blocks.skip(head as int) =~= blocks);
                text::lemma_byte_len_concat(front, nl);
                text::lemma_byte_len_concat(front + nl, back);
            }
        } else {
            if head > 0 && tail > 0 {
                let p = seq![front].push(m) + seq![back];
                assert(p =~= seq![front] + seq![m, back]);
                text::lemma_join_front(front, seq![m, back], nl);
                text::lemma_join_front(m, seq![back], nl);
                assert(seq![m] + seq![back] =~= seq![m, back]);
                text::lemma_byte_len_concat(m, nl);
                text::lemma_byte_len_concat(m + nl, back);
                text::lemma_byte_len_concat(front, nl);
                text::lemma_byte_len_concat(front + nl, m + nl + back);
            } else if head > 0 {
                let p = seq![front].push(m) + Seq::<Seq<char>>::empty();
                assert(p =~= seq![front] + seq![m]);
                text::lemma_join_front(front, seq![m], nl);
                text::lemma_byte_len_concat(front, nl);
                text::lemma_byte_len_concat(front + nl, m);
            } else if tail > 0 {
                let p = Seq::<Seq<char>>::empty().push(m) + seq![back];
                assert(p =~= seq![m] + seq![back]);
                text::lemma_join_front(m, seq![back], nl);
                text::lemma_byte_len_concat(m, nl);
                text::lemma_byte_len_concat(m + nl, back);
            } else {
                let p = Seq::<Seq<char>>::empty().push(m) + Seq::<Seq<char>>::empty();
                assert(p =~= seq![m]);
            }
        }
    }
}

proof fn lemma_join_parts(a: Seq<Seq<char>>, b: Seq<Seq<char>>, sep: Seq<char>)
    requires
        a.len() > 0,
        b.len() > 0,
    ensures
        text::join(a + b, sep) == text::join(a, sep) + sep + text::join(b, sep),
    decreases b.len(),
{
    assert((a + b).last() == b.last());
    assert((a + b).drop_last() =~= a + b.drop_last());
    if b.len() == 1 {
        assert(a + b.drop_last() =~= a);
    } else {
        lemma_join_parts(a, b.drop_last(), sep);
        assert(text::join(a + b, sep) =~= text::join(a, sep) + sep + text::join(b, sep));
    }
}

/// The blocks of `v` from `from` up to `to`, a line each.
fn join_range(blocks: &[String], from: usize, to: usize) -> (r: String)
    requires
        from <= to <= blocks@.len(),
    ensures
        r@ == text::join(text::strs(blocks@).subrange(from as int, to as int), "\n"@),
{
    let mut part: Vec<String> = Vec::new();
    let mut i: usize = from;
    while i < to
        invariant
            from <= i <= to <= blocks@.len(),
            text::strs(part@) == text::strs(blocks@).subrange(from as int, i as int),
        decreases to - i,
    {
        let ghost before = part@;
        part.push(blocks[i].clone());
        assert(text::strs(part@) =~= text::strs(before).push(blocks@[i as int]@));
        i += 1;
    }
    text::join_text(&part, "\n")
}

/// Joins the blocks, dropping whole blocks from the middle where the transcript
/// is over its budget. A block is never cut.
pub fn elide(blocks: &[String]) -> (r: String)
    ensures
        r@ == elided(text::strs(blocks@)),
{
    let ghost b = text::strs(blocks@);
    let joined = text::join_text(blocks, "\n");
    if text::byte_length(joined.as_str()) <= TRANSCRIPT_CAP {
        return joined;
    }
    let mut head: usize = 0;
    let mut used: usize = 0;
    assert(b.skip(0) =~= b);
    while head < blocks.len() && used <= HEAD_CAP && text::byte_length(blocks[head].as_str())
        <= HEAD_CAP - used
        invariant
            head <= blocks@.len(),
            used <= HEAD_CAP + 1,
            b == text::strs(blocks@),
            head_count(b, 0) == head + head_count(b.skip(head as int), used as nat),
        decreases blocks@.len() - head,
    {
        assert(b.skip(head as int)[0] == blocks@[head as int]@);
        assert(b.skip(head as int).drop_first() =~= b.skip(head + 1));
        used = used + text::byte_length(blocks[head].as_str()) + 1;
        head += 1;
    }
    assert(head_count(b.skip(head as int), used as nat) == 0) by {
        if head < b.len() {
            assert(b.skip(head as int)[0] == blocks@[head as int]@);
        }
    }
    let ghost rest = b.skip(head as int);
    let mut start: usize = blocks.len();
    let mut kept: usize = 0;
    assert(rest.take(start - head) =~= rest);
    while start > head && kept <= TAIL_CAP && text::byte_length(blocks[start - 1].as_str())
        <= TAIL_CAP - kept
        invariant
            head <= start <= blocks@.len(),
            kept <= TAIL_CAP + 1,
            b == text::strs(blocks@),
            rest == b.skip(head as int),
            tail_count(rest, 0) == blocks@.len() - start + tail_count(
                rest.take(start - head),
                kept as nat,
            ),
        decreases start,
    {
        let ghost cur = rest.take(start - head);
        assert(cur.last() == blocks@[start - 1]@);
        assert(cur.drop_last() =~= rest.take(start - 1 - head));
        kept = kept + text::byte_length(blocks[start - 1].as_str()) + 1;
        start -= 1;
    }
    assert(tail_count(rest.take(start - head), kept as nat) == 0) by {
        if start > head {
            assert(rest.take(start - head).last() == blocks@[start - 1]@);
        }
    }
    let dropped: usize = start - head;
    if dropped == 0 {
        return joined;
    }
    let mut parts: Vec<String> = Vec::new();
    assert(text::strs(parts@) =~= Seq::<Seq<char>>::empty());
    if head > 0 {
        parts.push(join_range(blocks, 0, head));
        assert(b.subrange(0, head as int) =~= b.take(head as int));
        assert(text::strs(parts@) =~= seq![text::join(b.take(head as int), "\n"@)]);
    }
    let ghost front = text::strs(parts@);
    let mut mark = "[... ".to_owned();
    mark.append(text::decimal_text(dropped as u64).as_str());
    mark.append(" earlier steps elided ...]");
    let ghost m = mark@;
    parts.push(mark);
    assert(text::strs(parts@) =~= front.push(m));
    if start < blocks.len() {
        let ghost before = parts@;
        parts.push(join_range(blocks, start, blocks.len()));
        assert(b.subrange(start as int, b.len() as int) =~= b.skip(start as int));
        assert(text::strs(parts@) =~= text::strs(before) + seq![
            text::join(b.skip(start as int), "\n"@),
        ]);
    } else {
        assert(text::strs(parts@) =~= front.push(m) + Seq::<Seq<char>>::empty());
    }
    text::join_text(&parts, "\n")
}

/// Renders a sub-agent's history as a plain-text transcript of bounded length.
pub fn render_transcript(history: &[Message]) -> (r: String)
    ensures
        r@ == elided(transcript_blocks(history@)),
{
    let mut tools: TextMap = TextMap::new();
    let mut blocks: Vec<String> = Vec::new();
    let mut i: usize = 0;
    assert(text::strs(blocks@) =~= Seq::<Seq<char>>::empty());
    assert(history@.take(0) =~= Seq::<Message>::empty());
    while i < history.len()
        invariant
            i <= history@.len(),
            (Draft { tools: tools@, blocks: text::strs(blocks@) }) == with_history(
                empty_draft(),
                history@.take(i as int),
            ),
        decreases history@.len() - i,
    {
        let ghost d = Draft { tools: tools@, blocks: text::strs(blocks@) };
        assert(history@.take(i + 1).drop_last() =~= history@.take(i as int));
        match &history[i] {
            Message::System { .. } => {},
            Message::User { content } => {
                add_user_items(&tools, &mut blocks, content, Ghost(d));
            },
            Message::Assistant { content, .. } => {
                add_assistant_items(&mut tools, &mut blocks, content, Ghost(d));
            },
        }
        i += 1;
    }
    assert(history@.take(history@.len() as int) =~= history@);
    elide(&blocks)
}

fn add_user_items(
    tools: &TextMap,
    blocks: &mut Vec<String>,
    content: &Vec<UserContent>,
    Ghost(d): Ghost<Draft>,
)
    requires
        d == (Draft { tools: tools@, blocks: text::strs(old(blocks)@) }),
    ensures
        (Draft { tools: tools@, blocks: text::strs(final(blocks)@) }) == with_user_items(
            d,
            content@,
        ),
{
    let mut k: usize = 0;
    assert(content@.take(0) =~= Seq::<UserContent>::empty());
    while k < content.len()
        invariant
            k <= content@.len(),
            (Draft { tools: tools@, blocks: text::strs(blocks@) }) == with_user_items(
                d,
                content@.take(k as int),
            ),
        decreases content@.len() - k,
    {
        let ghost before = Draft { tools: tools@, blocks: text::strs(blocks@) };
        assert(content@.take(k + 1).drop_last() =~= content@.take(k as int));
        match &content[k] {
            UserContent::Text(t) => {
                let mut b = "User: ".to_owned();
                b.append(text::truncate_with_suffix(t.as_str(), USER_TEXT_CAP, "…").as_str());
                let ghost v = b@;
                blocks.push(b);
                assert(text::strs(blocks@) =~= before.blocks.push(v));
            },
            UserContent::ToolResult(r) => {
                let by_call: Option<&String> = match &r.call_id {
                    Some(id) => tools.get(id.as_str()),
                    None => None,
                };
                let label: String = match by_call {
                    Some(name) => name.clone(),
                    None => match tools.get(r.id.as_str()) {
                        Some(name) => name.clone(),
                        None => "tool".to_owned(),
                    },
                };
                assert(label@ == result_label(tools@, *r));
                let all = tool_result_text(&r.content);
                let mut b = "Tool [".to_owned();
                b.append(label.as_str());
                b.append("] returned: ");
                b.append(text::truncate_with_suffix(all.as_str(), TOOL_RESULT_CAP, "…").as_str());
                let ghost v = b@;
                blocks.push(b);
                assert(text::strs(blocks@) =~= before.blocks.push(v));
            },
            UserContent::Image(_) => {},
            UserContent::Audio(_) => {},
            UserContent::Video(_) => {},
            UserContent::Document(_) => {},
        }
        k += 1;
    }
    assert(content@.take(content@.len() as int) =~= content@);
}

fn add_assistant_items(
    tools: &mut TextMap,
    blocks: &mut Vec<String>,
    content: &Vec<AssistantContent>,
    Ghost(d): Ghost<Draft>,
)
    requires
        d == (Draft { tools: old(tools)@, blocks: text::strs(old(blocks)@) }),
    ensures
        (Draft { tools: final(tools)@, blocks: text::strs(final(blocks)@) })
            == with_assistant_items(d, content@),
{
    let mut k: usize = 0;
    assert(content@.take(0) =~= Seq::<AssistantContent>::empty());
    while k < content.len()
        invariant
            k <= content@.len(),
            (Draft { tools: tools@, blocks: text::strs(blocks@) }) == with_assistant_items(
                d,
                content@.take(k as int),
            ),
        decreases content@.len() - k,
    {
        let ghost before = Draft { tools: tools@, blocks: text::strs(blocks@) };
        assert(content@.take(k + 1).drop_last() =~= content@.take(k as int));
        match &content[k] {
            AssistantContent::Text(t) => {
                let mut b = "Assistant: ".to_owned();
                b.append(text::truncate_with_suffix(t.as_str(), ASSISTANT_TEXT_CAP, "…").as_str());
                let ghost v = b@;
                blocks.push(b);
                assert(text::strs(blocks@) =~= before.blocks.push(v));
            },
            AssistantContent::ToolCall(call) => {
                tools.insert(call.id.clone(), call.name.clone());
                if let Some(id) = &call.call_id {
                    tools.insert(id.clone(), call.name.clone());
                }
                let mut b = "Assistant called ".to_owned();
                b.append(call.name.as_str());
                b.append("(");
                b.append(
                    text::truncate_with_suffix(
                        call.arguments.as_str(),
                        TOOL_ARGS_CAP,
                        "…",
                    ).as_str(),
                );
                b.append(")");
                let ghost v = b@;
                blocks.push(b);
                assert(text::strs(blocks@) =~= before.blocks.push(v));
            },
            AssistantContent::Reasoning(_) => {},
            AssistantContent::Image(_) => {},
        }
        k += 1;
    }
    assert(content@.take(content@.len() as int) =~= content@);
}

// ---------------------------------------------------------------------------
// What is worth telling
// ---------------------------------------------------------------------------

/// Whether an item of a user message is work: a tool result is.
pub open spec fn user_item_is_work(c: UserContent) -> bool {
    c is ToolResult
}

/// Whether an item of an assistant message is work: a text that is not blank is.
pub open spec fn assistant_item_is_work(c: AssistantContent) -> bool {
    c matches AssistantContent::Text(t) && !text::is_blank(t@)
}

/// Whether a message holds work.
pub open spec fn message_has_work(m: Message) -> bool {
    match m {
        Message::System { .. } => false,
        Message::User { content } => exists|i: int|
            0 <= i < content@.len() && user_item_is_work(#[trigger] content@[i]),
        Message::Assistant { content, .. } => exists|i: int|
            0 <= i < content@.len() && assistant_item_is_work(#[trigger] content@[i]),
    }
}

/// Whether a history holds anything worth summarising: assistant text or a tool
/// result.
pub fn has_work(history: &[Message]) -> (r: bool)
    ensures
        r == exists|i: int| 0 <= i < history@.len() && message_has_work(#[trigger] history@[i]),
{
    let mut i: usize = 0;
    while i < history.len()
        invariant
            i <= history@.len(),
            forall|j: int| 0 <= j < i ==> !message_has_work(#[trigger] history@[j]),
        decreases history@.len() - i,
    {
        match &history[i] {
            Message::System { .. } => {},
            Message::User { content } => {
                let mut k: usize = 0;
                while k < content.len()
                    invariant
                        i < history@.len(),
                        history@[i as int] matches Message::User { content: c } && c == content,
                        k <= content@.len(),
                        forall|j: int| 0 <= j < k ==> !user_item_is_work(#[trigger] content@[j]),
                    decreases content@.len() - k,
                {
                    if let UserContent::ToolResult(_) = &content[k] {
                        assert(user_item_is_work(content@[k as int]));
                        assert(message_has_work(history@[i as int]));
                        return true;
                    }
                    k += 1;
                }
            },
            Message::Assistant { content, .. } => {
                let mut k: usize = 0;
                while k < content.len()
                    invariant
                        i < history@.len(),
                        history@[i as int] matches Message::Assistant { content: c, .. } && c
                            == content,
                        k <= content@.len(),
                        forall|j: int|
                            0 <= j < k ==> !assistant_item_is_work(#[trigger] content@[j]),
                    decreases content@.len() - k,
                {
                    if let AssistantContent::Text(t) = &content[k] {
                        if !text::text_is_blank(t.as_str()) {
                            assert(assistant_item_is_work(content@[k as int]));
                            assert(message_has_work(history@[i as int]));
                            return true;
                        }
                    }
                    k += 1;
                }
            },
        }
        assert(!message_has_work(history@[i as int]));
        i += 1;
    }
    false
}

/// The last text among the items of an assistant message that is not blank.
pub open spec fn last_text_item(s: Seq<AssistantContent>) -> Option<Seq<char>>
    decreases s.len(),
{
    if s.len() == 0 {
        None
    } else {
        match s.last() {
            AssistantContent::Text(t) if !text::is_blank(t@) => Some(t@),
            _ => last_text_item(s.drop_last()),
        }
    }
}

/// The most recent assistant text that is not blank.
pub open spec fn latest_text(h: Seq<Message>) -> Option<Seq<char>>
    decreases h.len(),
{
    if h.len() == 0 {
        None
    } else {
        let here = match h.last() {
            Message::Assistant { content, .. } => last_text_item(content@),
            _ => None,
        };
        if here is Some {
            here
        } else {
            latest_text(h.drop_last())
        }
    }
}

/// The most recent assistant text that is not blank: what stands in when there
/// is no summary.
pub fn last_assistant_text(history: &[Message]) -> (r: Option<String>)
    ensures
        text::opt(r) == latest_text(history@),
{
    let mut i: usize = history.len();
    assert(history@.take(i as int) =~= history@);
    while i > 0
        invariant
            i <= history@.len(),
            latest_text(history@) == latest_text(history@.take(i as int)),
        decreases i,
    {
        let ghost h = history@.take(i as int);
        assert(h.last() == history@[i - 1]);
        assert(h.drop_last() =~= history@.take(i - 1));
        if let Message::Assistant { content, .. } = &history[i - 1] {
            let mut k: usize = content.len();
            assert(content@.take(k as int) =~= content@);
            while k > 0
                invariant
                    0 < i <= history@.len(),
                    h == history@.take(i as int),
                    h.last() == history@[i - 1],
                    latest_text(history@) == latest_text(h),
                    history@[i - 1] matches Message::Assistant { content: c, .. } && c == content,
                    k <= content@.len(),
                    last_text_item(content@) == last_text_item(content@.take(k as int)),
                decreases k,
            {
                let ghost c = content@.take(k as int);
                assert(c.last() == content@[k - 1]);
                assert(c.drop_last() =~= content@.take(k - 1));
                if let AssistantContent::Text(t) = &content[k - 1] {
                    if !text::text_is_blank(t.as_str()) {
                        return Some(t.clone());
                    }
                }
                k -= 1;
            }
        }
        i -= 1;
    }
    None
}

// ---------------------------------------------------------------------------
// The result
// ---------------------------------------------------------------------------

/// The first line of the result.
pub open spec fn banner(role: Seq<char>, header: Header) -> Seq<char> {
    match header {
        Header::ContextExceeded => "[delegate:"@ + role
            + "] INTERRUPTED — the subagent context exceeded its max threshold."@,
        Header::Failed { error } => "[delegate:"@ + role + "] INTERRUPTED — error: "@
            + capped_error(error@),
    }
}

/// What the orchestrator is told to do.
pub open spec fn guidance(header: Header) -> Seq<char> {
    match header {
        Header::ContextExceeded => CONTEXT_GUIDANCE@,
        Header::Failed { .. } => FAILED_GUIDANCE@,
    }
}

/// What the result says of the work done.
pub open spec fn summary_body(summary: Option<Seq<char>>) -> Seq<char> {
    match summary {
        Some(s) => "Here is a summary of what it was doing:\n\n"@ + text::truncated(
            s,
            SUMMARY_CAP as nat,
            "…"@,
        ),
        None => NO_SUMMARY@,
    }
}

/// The result of an interrupted delegation.
pub open spec fn interrupted(role: Seq<char>, header: Header, summary: Option<Seq<char>>) -> Seq<
    char,
> {
    banner(role, header) + "\n\n"@ + summary_body(summary) + "\n\n"@ + guidance(header)
}

/// Renders the tool result that the orchestrator sees.
pub fn format_result(role: &str, header: &Header, summary: Option<&str>) -> (r: String)
    ensures
        r@ == interrupted(role@, *header, text::opt_str(summary)),
{
    let mut s = "[delegate:".to_owned();
    s.append(role);
    match header {
        Header::ContextExceeded => {
            s.append("] INTERRUPTED — the subagent context exceeded its max threshold.");
        },
        Header::Failed { error } => {
            s.append("] INTERRUPTED — error: ");
            s.append(cap_error(error.as_str()).as_str());
        },
    }
    s.append("\n\n");
    let body: String = match summary {
        Some(t) => {
            let mut b = "Here is a summary of what it was doing:\n\n".to_owned();
            b.append(text::truncate_with_suffix(t, SUMMARY_CAP, "…").as_str());
            b
        },
        None => NO_SUMMARY.to_owned(),
    };
    s.append(body.as_str());
    s.append("\n\n");
    match header {
        Header::ContextExceeded => {
            s.append(CONTEXT_GUIDANCE);
        },
        Header::Failed { .. } => {
            s.append(FAILED_GUIDANCE);
        },
    }
    s
}

/// The result stays small however long the error and the summary are: beside
/// the role's name and the fixed guidance it takes the two caps and a bounded
/// number of bytes.
pub proof fn law_result_bounded(role: Seq<char>, header: Header, summary: Option<Seq<char>>)
    ensures
        text::byte_len(interrupted(role, header, summary)) <= text::byte_len(role) + ERROR_CAP
            + SUMMARY_CAP + text::byte_len(guidance(header)) + 600,
{
    let body = summary_body(summary);
    let ban = banner(role, header);
    let g = guidance(header);
    assert(text::byte_len("…"@) <= 4) by {
        reveal_strlit("…");
        text::lemma_byte_len_bound("…"@);
    }
    assert(text::byte_len("\n\n"@) <= 8) by {
        reveal_strlit("\n\n");
        text::lemma_byte_len_bound("\n\n"@);
    }
    assert(text::byte_len(ban) <= text::byte_len(role) + ERROR_CAP + 360) by {
        reveal_strlit("[delegate:");
        reveal_strlit("] INTERRUPTED — the subagent context exceeded its max threshold.");
        reveal_strlit("] INTERRUPTED — error: ");
        let open = "[delegate:"@;
        text::lemma_byte_len_bound(open);
        text::lemma_byte_len_concat(open, role);
        match header {
            Header::ContextExceeded => {
                let close = "] INTERRUPTED — the subagent context exceeded its max threshold."@;
                text::lemma_byte_len_bound(close);
                text::lemma_byte_len_concat(open + role, close);
            },
            Header::Failed { error } => {
                let close = "] INTERRUPTED — error: "@;
                text::lemma_byte_len_bound(close);
                text::lemma_byte_len_concat(open + role, close);
                text::lemma_byte_len_concat(open + role + close, capped_error(error@));
                text::law_truncated_bounded(error@, ERROR_CAP as nat, "…"@);
            },
        }
    }
    assert(text::byte_len(body) <= SUMMARY_CAP + 200) by {
        reveal_strlit("Here is a summary of what it was doing:\n\n");
        reveal_strlit("No summary of its work is recoverable.");
        match summary {
            Some(s) => {
                let intro = "Here is a summary of what it was doing:\n\n"@;
                text::lemma_byte_len_bound(intro);
                text::lemma_byte_len_concat(
                    intro,
                    text::truncated(s, SUMMARY_CAP as nat, "…"@),
                );
                text::law_truncated_bounded(s, SUMMARY_CAP as nat, "…"@);
            },
            None => {
                text::lemma_byte_len_bound(NO_SUMMARY@);
            },
        }
    }
    text::lemma_byte_len_concat(ban, "\n\n"@);
    text::lemma_byte_len_concat(ban + "\n\n"@, body);
    text::lemma_byte_len_concat(ban + "\n\n"@ + body, "\n\n"@);
    text::lemma_byte_len_concat(ban + "\n\n"@ + body + "\n\n"@, g);
}

/// What to do next with a failed delegation.
#[derive(Debug, PartialEq)]
pub enum HandoffStep {
    /// There is nothing to summarise: this is the result.
    Done(String),
    /// Put `prompt` before the role's own model and hand its answer to
    /// `finish_handoff`.
    Summarise { header: Header, history: Vec<Message>, prompt: String },
}

/// The header and the history of a handoff.
pub open spec fn header_matches(h: Handoff, header: Header, history: Seq<Message>) -> bool {
    match h {
        Handoff::Abort(e) => {
            &&& header matches Header::Failed { error } && error@ == failure_text(e)
            &&& history.len() == 0
        },
        Handoff::ContextExceeded { history: g } => header is ContextExceeded && history == g@,
        Handoff::Failed { error: e, history: g } => {
            &&& header == (Header::Failed { error: e })
            &&& history == g@
        },
    }
}

/// Whether a history holds anything worth summarising.
pub open spec fn worth_summarising(history: Seq<Message>) -> bool {
    exists|i: int| 0 <= i < history.len() && message_has_work(#[trigger] history[i])
}

/// Whether `step` is how the handoff `h` begins: the result where the history
/// shows no work, else the request for a summary.
pub open spec fn begun(role: Seq<char>, h: Handoff, step: HandoffStep) -> bool {
    match step {
        HandoffStep::Done(s) => exists|header: Header, history: Seq<Message>|
            #[trigger] header_matches(h, header, history) && !worth_summarising(history) && s@
                == interrupted(role, header, None),
        HandoffStep::Summarise { header, history, prompt } => {
            &&& header_matches(h, header, history@)
            &&& worth_summarising(history@)
            &&& prompt@ == SUMMARY_PROMPT@ + elided(transcript_blocks(history@))
        },
    }
}

/// Starts the handoff of a failed delegation. Where the history shows no work
/// the result is ready; otherwise the transcript goes to a summariser.
pub fn begin_handoff(role: &str, h: Handoff) -> (r: HandoffStep)
    ensures
        begun(role@, h, r),
{
    let ghost h0 = h;
    let (header, history): (Header, Vec<Message>) = match h {
        Handoff::Abort(e) => (Header::Failed { error: e.describe() }, Vec::new()),
        Handoff::ContextExceeded { history } => (Header::ContextExceeded, history),
        Handoff::Failed { error, history } => (Header::Failed { error }, history),
    };
    assert(header_matches(h0, header, history@));
    if history.is_empty() || !has_work(&history) {
        return HandoffStep::Done(format_result(role, &header, None));
    }
    let transcript = render_transcript(&history);
    let mut prompt = SUMMARY_PROMPT.to_owned();
    prompt.append(transcript.as_str());
    HandoffStep::Summarise { header, history, prompt }
}

/// The text to show for the work done: the summary unless it is missing or
/// blank, else the latest assistant text.
pub open spec fn shown_summary(summary: Option<Seq<char>>, history: Seq<Message>) -> Option<
    Seq<char>,
> {
    match summary {
        Some(s) if !text::is_blank(s) => Some(s),
        _ => match latest_text(history) {
            Some(t) => Some(text::truncated(t, FALLBACK_CAP as nat, "…"@)),
            None => None,
        },
    }
}

/// Ends the handoff with what the summariser answered; `None` where it could
/// not be asked or failed. A failed summary never fails the turn.
pub fn finish_handoff(role: &str, header: &Header, history: &[Message], summary: Option<String>)
    -> (r: String)
    ensures
        r@ == interrupted(role@, *header, shown_summary(text::opt(summary), history@)),
{
    if let Some(s) = &summary {
        if !text::text_is_blank(s.as_str()) {
            return format_result(role, header, Some(s.as_str()));
        }
    }
    match last_assistant_text(history) {
        Some(t) => {
            let cut = text::truncate_with_suffix(t.as_str(), FALLBACK_CAP, "…");
            format_result(role, header, Some(cut.as_str()))
        },
        None => format_result(role, header, None),
    }
}

// ---------------------------------------------------------------------------
// What the transcript holds
// ---------------------------------------------------------------------------

/// Whether one place in a history, a message and an item of it, comes before another.
pub open spec fn comes_before(a: (int, int), b: (int, int)) -> bool {
    a.0 < b.0 || (a.0 == b.0 && a.1 < b.1)
}

/// Whether an item that the transcript shows stands at a place of a history: a text,
/// a tool result or a tool call.
pub open spec fn is_shown(h: Seq<Message>, p: (int, int)) -> bool {
    &&& 0 <= p.0 < h.len()
    &&& match h[p.0] {
        Message::System { .. } => false,
        Message::User { content } => 0 <= p.1 < content@.len() && (content@[p.1] is Text
            || content@[p.1] is ToolResult),
        Message::Assistant { content, .. } => 0 <= p.1 < content@.len() && (content@[p.1] is Text
            || content@[p.1] is ToolCall),
    }
}

/// Whether the tool call `c` stands at a place of a history.
pub open spec fn is_call(h: Seq<Message>, p: (int, int), c: crate::message::ToolCall) -> bool {
    &&& 0 <= p.0 < h.len()
    &&& h[p.0] matches Message::Assistant { content, .. } && 0 <= p.1 < content@.len()
        && content@[p.1] == AssistantContent::ToolCall(c)
}

/// Whether the call `c` at `q` goes by this key: as its id or the provider's.
pub open spec fn goes_by(
    h: Seq<Message>,
    q: (int, int),
    c: crate::message::ToolCall,
    key: Seq<char>,
) -> bool {
    is_call(h, q, c) && (c.id@ == key || (c.call_id matches Some(id) && id@ == key))
}

/// Whether `name` is the tool of the latest call before `p` that goes by this key.
pub open spec fn latest_call(
    h: Seq<Message>,
    p: (int, int),
    key: Seq<char>,
    name: Seq<char>,
) -> bool {
    exists|q: (int, int), c: crate::message::ToolCall|
        #![trigger goes_by(h, q, c, key)]
        goes_by(h, q, c, key) && comes_before(q, p) && c.name@ == name && forall|
            r: (int, int),
            d: crate::message::ToolCall,
        |
            #![trigger goes_by(h, r, d, key)]
            goes_by(h, r, d, key) && comes_before(r, p) ==> r == q || comes_before(r, q)
}

/// Whether no call before `p` goes by this key.
pub open spec fn no_call(h: Seq<Message>, p: (int, int), key: Seq<char>) -> bool {
    forall|q: (int, int), c: crate::message::ToolCall|
        #![trigger goes_by(h, q, c, key)]
        goes_by(h, q, c, key) ==> !comes_before(q, p)
}

/// Whether `label` names a tool result at `p`: the tool of the latest call that goes by
/// the provider's id of the result; else of the latest that goes by its own id; else
/// the word for any tool.
pub open spec fn is_label(
    h: Seq<Message>,
    p: (int, int),
    r: ToolResult,
    label: Seq<char>,
) -> bool {
    ||| r.call_id matches Some(id) && latest_call(h, p, id@, label)
    ||| {
        &&& r.call_id matches Some(id) ==> no_call(h, p, id@)
        &&& latest_call(h, p, r.id@, label) || (no_call(h, p, r.id@) && label == "tool"@)
    }
}

/// Whether `b` is the block for the item at `p`.
pub open spec fn is_block(h: Seq<Message>, p: (int, int), b: Seq<char>) -> bool {
    match h[p.0] {
        Message::System { .. } => false,
        Message::User { content } => match content@[p.1] {
            UserContent::Text(t) => b == "User: "@ + text::truncated(t@, 2000, "…"@),
            UserContent::ToolResult(r) => exists|label: Seq<char>|
                #![trigger is_label(h, p, r, label)]
                is_label(h, p, r, label) && b == "Tool ["@ + label + "] returned: "@
                    + text::truncated(text::join(result_texts(r.content@), "\n"@), 500, "…"@),
            _ => false,
        },
        Message::Assistant { content, .. } => match content@[p.1] {
            AssistantContent::Text(t) => b == "Assistant: "@ + text::truncated(t@, 1000, "…"@),
            AssistantContent::ToolCall(c) => b == "Assistant called "@ + c.name@ + "("@
                + text::truncated(c.arguments@, 200, "…"@) + ")"@,
            _ => false,
        },
    }
}

/// Whether a draft holds what stands before `p`: a block for each shown item, at the
/// places `at`, and the tool of each call.
spec fn holds_upto(d: Draft, h: Seq<Message>, p: (int, int), at: Seq<(int, int)>) -> bool {
    &&& at.len() == d.blocks.len()
    &&& forall|k: int|
        0 <= k < at.len() ==> is_shown(h, #[trigger] at[k]) && comes_before(at[k], p) && is_block(
            h,
            at[k],
            d.blocks[k],
        )
    &&& forall|k: int, l: int|
        0 <= k < l < at.len() ==> comes_before(#[trigger] at[k], #[trigger] at[l])
    &&& forall|q: (int, int)|
        #[trigger] is_shown(h, q) && comes_before(q, p) ==> at.contains(q)
    &&& forall|key: Seq<char>|
        #[trigger] table::lookup(d.tools, key) is Some ==> latest_call(
            h,
            p,
            key,
            table::lookup(d.tools, key)->0@,
        )
    &&& forall|key: Seq<char>|
        #[trigger] table::lookup(d.tools, key) is None ==> no_call(h, p, key)
}

/// A place that no shown item and no call stands at can be passed.
proof fn lemma_pass(d: Draft, h: Seq<Message>, p: (int, int), n: (int, int), at: Seq<(int, int)>)
    requires
        holds_upto(d, h, p, at),
        forall|q: (int, int)| comes_before(q, p) ==> #[trigger] comes_before(q, n),
        forall|q: (int, int)|
            #[trigger] is_shown(h, q) && comes_before(q, n) ==> comes_before(q, p),
    ensures
        holds_upto(d, h, n, at),
{
    assert forall|q: (int, int), c: crate::message::ToolCall, key: Seq<char>|
        #![trigger goes_by(h, q, c, key)]
        goes_by(h, q, c, key) && comes_before(q, n) implies comes_before(q, p) by {
        assert(is_shown(h, q));
    }
    assert forall|key: Seq<char>| #[trigger]
        table::lookup(d.tools, key) is Some implies latest_call(
        h,
        n,
        key,
        table::lookup(d.tools, key)->0@,
    ) by {
        let name = table::lookup(d.tools, key)->0@;
        assert(latest_call(h, p, key, name));
        let (q, c) = choose|q: (int, int), c: crate::message::ToolCall|
            #![trigger goes_by(h, q, c, key)]
            goes_by(h, q, c, key) && comes_before(q, p) && c.name@ == name && forall|
                r: (int, int),
                d: crate::message::ToolCall,
            |
                #![trigger goes_by(h, r, d, key)]
                goes_by(h, r, d, key) && comes_before(r, p) ==> r == q || comes_before(r, q);
        assert(goes_by(h, q, c, key) && comes_before(q, n));
    }
}

/// One more block, for the item at `p`, which is no call.
proof fn lemma_one_more(
    d: Draft,
    h: Seq<Message>,
    p: (int, int),
    at: Seq<(int, int)>,
    b: Seq<char>,
) -> (r: Seq<(int, int)>)
    requires
        holds_upto(d, h, p, at),
        is_shown(h, p),
        is_block(h, p, b),
        forall|c: crate::message::ToolCall| !is_call(h, p, c),
    ensures
        holds_upto(Draft { blocks: d.blocks.push(b), ..d }, h, (p.0, p.1 + 1), r),
{
    let n = (p.0, p.1 + 1);
    let r = at.push(p);
    let e = Draft { blocks: d.blocks.push(b), ..d };
    assert forall|q: (int, int)| #[trigger]
        is_shown(h, q) && comes_before(q, n) implies r.contains(q) by {
        if q == p {
            assert(r[at.len() as int] == q);
        } else {
            assert(comes_before(q, p));
            let k = choose|k: int| 0 <= k < at.len() && at[k] == q;
            assert(r[k] == q);
        }
    }
    assert forall|q: (int, int), c: crate::message::ToolCall, key: Seq<char>|
        #![trigger goes_by(h, q, c, key)]
        goes_by(h, q, c, key) && comes_before(q, n) implies comes_before(q, p) by {
        assert(!is_call(h, p, c));
    }
    assert forall|key: Seq<char>| #[trigger]
        table::lookup(e.tools, key) is Some implies latest_call(
        h,
        n,
        key,
        table::lookup(e.tools, key)->0@,
    ) by {
        let name = table::lookup(d.tools, key)->0@;
        assert(latest_call(h, p, key, name));
        let (q, c) = choose|q: (int, int), c: crate::message::ToolCall|
            #![trigger goes_by(h, q, c, key)]
            goes_by(h, q, c, key) && comes_before(q, p) && c.name@ == name && forall|
                r: (int, int),
                d: crate::message::ToolCall,
            |
                #![trigger goes_by(h, r, d, key)]
                goes_by(h, r, d, key) && comes_before(r, p) ==> r == q || comes_before(r, q);
        assert(goes_by(h, q, c, key) && comes_before(q, n));
    }
    r
}

proof fn lemma_label(d: Draft, h: Seq<Message>, p: (int, int), at: Seq<(int, int)>, r: ToolResult)
    requires
        holds_upto(d, h, p, at),
    ensures
        is_label(h, p, r, result_label(d.tools, r)),
{
    if let Some(id) = r.call_id {
        assert(table::lookup(d.tools, id@) is Some || table::lookup(d.tools, id@) is None);
    }
    assert(table::lookup(d.tools, r.id@) is Some || table::lookup(d.tools, r.id@) is None);
}

proof fn lemma_user_items_held(d: Draft, h: Seq<Message>, i: int, n: int, at: Seq<(int, int)>) -> (r:
    Seq<(int, int)>)
    requires
        0 <= i < h.len(),
        h[i] is User,
        0 <= n <= h[i]->User_content@.len(),
        holds_upto(d, h, (i, 0int), at),
    ensures
        holds_upto(with_user_items(d, h[i]->User_content@.take(n)), h, (i, n), r),
    decreases n,
{
    let s = h[i]->User_content@;
    if n == 0 {
        at
    } else {
        let a = lemma_user_items_held(d, h, i, n - 1, at);
        let e = with_user_items(d, s.take(n - 1));
        let p = (i, n - 1);
        assert(s.take(n).drop_last() =~= s.take(n - 1));
        assert(s.take(n).last() == s[n - 1]);
        match s[n - 1] {
            UserContent::Text(t) => lemma_one_more(
                e,
                h,
                p,
                a,
                "User: "@ + text::truncated(t@, USER_TEXT_CAP as nat, "…"@),
            ),
            UserContent::ToolResult(r) => {
                lemma_label(e, h, p, a, r);
                let b = "Tool ["@ + result_label(e.tools, r) + "] returned: "@ + text::truncated(
                    text::join(result_texts(r.content@), "\n"@),
                    TOOL_RESULT_CAP as nat,
                    "…"@,
                );
                assert(is_label(h, p, r, result_label(e.tools, r)));
                assert(is_block(h, p, b));
                lemma_one_more(e, h, p, a, b)
            },
            _ => {
                assert(!is_shown(h, p));
                assert forall|q: (int, int)| #[trigger]
                    is_shown(h, q) && comes_before(q, (i, n)) implies comes_before(q, p) by {
                    assert(q != p);
                }
                lemma_pass(e, h, p, (i, n), a);
                a
            },
        }
    }
}

/// One more block, for the call at `p`, which is remembered.
proof fn lemma_one_call_more(
    d: Draft,
    h: Seq<Message>,
    p: (int, int),
    at: Seq<(int, int)>,
    call: crate::message::ToolCall,
    b: Seq<char>,
) -> (r: Seq<(int, int)>)
    requires
        holds_upto(d, h, p, at),
        is_call(h, p, call),
        b == "Assistant called "@ + call.name@ + "("@ + text::truncated(call.arguments@, 200, "…"@)
            + ")"@,
    ensures
        holds_upto(
            Draft {
                tools: match call.call_id {
                    Some(id) => table::stored(
                        table::stored(d.tools, call.id@, call.name),
                        id@,
                        call.name,
                    ),
                    None => table::stored(d.tools, call.id@, call.name),
                },
                blocks: d.blocks.push(b),
            },
            h,
            (p.0, p.1 + 1),
            r,
        ),
{
    let n = (p.0, p.1 + 1);
    let r = at.push(p);
    let once = table::stored(d.tools, call.id@, call.name);
    let tools = match call.call_id {
        Some(id) => table::stored(once, id@, call.name),
        None => once,
    };
    assert(is_shown(h, p));
    assert(is_block(h, p, b));
    assert forall|q: (int, int)| #[trigger]
        is_shown(h, q) && comes_before(q, n) implies r.contains(q) by {
        if q == p {
            assert(r[at.len() as int] == q);
        } else {
            assert(comes_before(q, p));
            let k = choose|k: int| 0 <= k < at.len() && at[k] == q;
            assert(r[k] == q);
        }
    }
    assert forall|key: Seq<char>| #[trigger]
        table::lookup(tools, key) is Some implies latest_call(
        h,
        n,
        key,
        table::lookup(tools, key)->0@,
    ) by {
        table::law_lookup_after_stored(d.tools, call.id@, call.name, key);
        if let Some(id) = call.call_id {
            table::law_lookup_after_stored(once, id@, call.name, key);
        }
        if call.id@ == key || (call.call_id is Some && call.call_id->0@ == key) {
            assert(goes_by(h, p, call, key));
            assert(comes_before(p, n));
        } else {
            let name = table::lookup(d.tools, key)->0@;
            assert(latest_call(h, p, key, name));
            let (q, c) = choose|q: (int, int), c: crate::message::ToolCall|
                #![trigger goes_by(h, q, c, key)]
                goes_by(h, q, c, key) && comes_before(q, p) && c.name@ == name && forall|
                    r: (int, int),
                    d: crate::message::ToolCall,
                |
                    #![trigger goes_by(h, r, d, key)]
                    goes_by(h, r, d, key) && comes_before(r, p) ==> r == q || comes_before(r, q);
            assert(goes_by(h, q, c, key) && comes_before(q, n));
            assert forall|r: (int, int), d: crate::message::ToolCall|
                #![trigger goes_by(h, r, d, key)]
                goes_by(h, r, d, key) && comes_before(r, n) implies r == q || comes_before(
                r,
                q,
            ) by {
                assert(r != p);
            }
        }
    }
    assert forall|key: Seq<char>| #[trigger]
        table::lookup(tools, key) is None implies no_call(h, n, key) by {
        table::law_lookup_after_stored(d.tools, call.id@, call.name, key);
        if let Some(id) = call.call_id {
            table::law_lookup_after_stored(once, id@, call.name, key);
        }
        assert(table::lookup(d.tools, key) is None);
        assert(no_call(h, p, key));
    }
    r
}

proof fn lemma_assistant_items_held(
    d: Draft,
    h: Seq<Message>,
    i: int,
    n: int,
    at: Seq<(int, int)>,
) -> (r: Seq<(int, int)>)
    requires
        0 <= i < h.len(),
        h[i] is Assistant,
        0 <= n <= h[i]->Assistant_content@.len(),
        holds_upto(d, h, (i, 0int), at),
    ensures
        holds_upto(with_assistant_items(d, h[i]->Assistant_content@.take(n)), h, (i, n), r),
    decreases n,
{
    let s = h[i]->Assistant_content@;
    if n == 0 {
        at
    } else {
        let a = lemma_assistant_items_held(d, h, i, n - 1, at);
        let e = with_assistant_items(d, s.take(n - 1));
        let p = (i, n - 1);
        assert(s.take(n).drop_last() =~= s.take(n - 1));
        assert(s.take(n).last() == s[n - 1]);
        match s[n - 1] {
            AssistantContent::Text(t) => lemma_one_more(
                e,
                h,
                p,
                a,
                "Assistant: "@ + text::truncated(t@, ASSISTANT_TEXT_CAP as nat, "…"@),
            ),
            AssistantContent::ToolCall(call) => lemma_one_call_more(
                e,
                h,
                p,
                a,
                call,
                "Assistant called "@ + call.name@ + "("@ + text::truncated(
                    call.arguments@,
                    TOOL_ARGS_CAP as nat,
                    "…"@,
                ) + ")"@,
            ),
            _ => {
                assert(!is_shown(h, p));
                assert forall|q: (int, int)| #[trigger]
                    is_shown(h, q) && comes_before(q, (i, n)) implies comes_before(q, p) by {
                    assert(q != p);
                }
                lemma_pass(e, h, p, (i, n), a);
                a
            },
        }
    }
}

proof fn lemma_history_held(h: Seq<Message>, n: int) -> (r: Seq<(int, int)>)
    requires
        0 <= n <= h.len(),
    ensures
        holds_upto(with_history(empty_draft(), h.take(n)), h, (n, 0int), r),
    decreases n,
{
    if n == 0 {
        assert(h.take(0) =~= Seq::<Message>::empty());
        Seq::empty()
    } else {
        let a = lemma_history_held(h, n - 1);
        let d = with_history(empty_draft(), h.take(n - 1));
        assert(h.take(n).drop_last() =~= h.take(n - 1));
        assert(h.take(n).last() == h[n - 1]);
        match h[n - 1] {
            Message::System { .. } => {
                lemma_pass(d, h, (n - 1, 0int), (n, 0int), a);
                a
            },
            Message::User { content } => {
                let len = content@.len() as int;
                let r = lemma_user_items_held(d, h, n - 1, len, a);
                assert(content@.take(len) =~= content@);
                lemma_pass(with_user_items(d, content@), h, (n - 1, len), (n, 0int), r);
                r
            },
            Message::Assistant { content, .. } => {
                let len = content@.len() as int;
                let r = lemma_assistant_items_held(d, h, n - 1, len, a);
                assert(content@.take(len) =~= content@);
                lemma_pass(with_assistant_items(d, content@), h, (n - 1, len), (n, 0int), r);
                r
            },
        }
    }
}

/// The transcript is complete: every text, tool call and tool result of the history
/// has its block, with its label and its capped text; the blocks stand in the order of
/// the items; and there are no others. `at` gives the item of each block.
pub proof fn law_transcript_is_complete(h: Seq<Message>) -> (at: Seq<(int, int)>)
    ensures
        at.len() == transcript_blocks(h).len(),
        forall|k: int|
            0 <= k < at.len() ==> is_shown(h, #[trigger] at[k]) && is_block(
                h,
                at[k],
                transcript_blocks(h)[k],
            ),
        forall|k: int, l: int|
            0 <= k < l < at.len() ==> comes_before(#[trigger] at[k], #[trigger] at[l]),
        forall|q: (int, int)| #[trigger] is_shown(h, q) ==> at.contains(q),
{
    let at = lemma_history_held(h, h.len() as int);
    assert(h.take(h.len() as int) =~= h);
    at
}

/// The text of a tool result is that of all its text items, in their order.
pub proof fn law_result_texts_are_complete(content: Seq<ToolResultContent>) -> (at: Seq<int>)
    ensures
        at.len() == result_texts(content).len(),
        forall|k: int|
            0 <= k < at.len() ==> 0 <= #[trigger] at[k] < content.len() && content[at[k]] is Text
                && result_texts(content)[k] == content[at[k]]->Text_0@,
        forall|k: int, l: int| 0 <= k < l < at.len() ==> #[trigger] at[k] < #[trigger] at[l],
        forall|i: int|
            0 <= i < content.len() && #[trigger] content[i] is Text ==> at.contains(i),
    decreases content.len(),
{
    if content.len() == 0 {
        Seq::empty()
    } else {
        let rest = content.drop_last();
        let n = content.len() - 1;
        let a = law_result_texts_are_complete(rest);
        let r = if content.last() is Text {
            a.push(n)
        } else {
            a
        };
        assert forall|i: int|
            0 <= i < content.len() && #[trigger] content[i] is Text implies r.contains(i) by {
            if i == n {
                assert(r[a.len() as int] == n);
            } else {
                assert(rest[i] is Text);
                let k = choose|k: int| 0 <= k < a.len() && a[k] == i;
                assert(r[k] == i);
            }
        }
        r
    }
}

/// Where the whole transcript fits into 48 KiB it is shown whole. Else a front of at most
/// 12 KiB and a back of at most 36 KiB stay, of whole blocks and each as long as it can be, and one line between them counts
/// what is left out.
pub proof fn law_elision_keeps_both_ends(blocks: Seq<Seq<char>>) -> (r: (int, int))
    ensures
        text::byte_len(text::join(blocks, "\n"@)) <= 49152 ==> elided(blocks)
            == text::join(blocks, "\n"@),
        0 <= r.0 && 0 <= r.1 && r.0 + r.1 <= blocks.len(),
        text::byte_len(text::join(blocks, "\n"@)) > 49152 ==> {
            &&& r.0 > 0 ==> text::byte_len(text::join(blocks.take(r.0), "\n"@)) <= 12288
            &&& r.0 < blocks.len() ==> text::byte_len(text::join(blocks.take(r.0 + 1), "\n"@))
                > 12288
            &&& r.1 > 0 ==> text::byte_len(text::join(blocks.skip(blocks.len() - r.1), "\n"@))
                <= 36864
            &&& r.0 + r.1 < blocks.len() ==> text::byte_len(
                text::join(blocks.skip(blocks.len() - r.1 - 1), "\n"@),
            ) > 36864
            &&& r.0 + r.1 == blocks.len() ==> elided(blocks) == text::join(blocks, "\n"@)
            &&& r.0 + r.1 < blocks.len() ==> elided(blocks) == text::join(
                blocks.take(r.0).push(
                    "[... "@ + text::decimal((blocks.len() - r.0 - r.1) as nat)
                        + " earlier steps elided ...]"@,
                ) + blocks.skip(blocks.len() - r.1),
                "\n"@,
            )
        },
{
    let nl = "\n"@;
    let head = head_count(blocks, 0);
    let rest = blocks.skip(head as int);
    let tail = tail_count(rest, 0);
    lemma_head_fits(blocks, 0);
    lemma_head_is_tight(blocks, 0);
    lemma_tail_fits(rest, 0);
    lemma_tail_is_tight(rest, 0);
    let n = blocks.len() as int;
    assert(rest.skip(rest.len() - tail) =~= blocks.skip(n - tail));
    if head + tail < n {
        assert(rest.skip(rest.len() - tail - 1) =~= blocks.skip(n - tail - 1));
        let m = elision_mark((n - head - tail) as nat);
        let f = blocks.take(head as int);
        let b = blocks.skip(n - tail);
        let front = if head > 0 {
            seq![text::join(f, nl)]
        } else {
            Seq::empty()
        };
        let back = if tail > 0 {
            seq![text::join(b, nl)]
        } else {
            Seq::empty()
        };
        let fm = front.push(m);
        assert(text::join(fm, nl) == text::join(f.push(m), nl)) by {
            assert(f.push(m).drop_last() =~= f);
            assert(fm.drop_last() =~= front);
            if head > 0 {
                assert(text::join(front, nl) == text::join(f, nl));
            } else {
                assert(f.push(m) =~= fm);
            }
        }
        if tail > 0 {
            lemma_join_parts(fm, back, nl);
            lemma_join_parts(f.push(m), b, nl);
        } else {
            assert(fm + back =~= fm);
            assert(f.push(m) + b =~= f.push(m));
        }
    }
    (head as int, tail as int)
}

proof fn lemma_head_is_tight(blocks: Seq<Seq<char>>, used: nat)
    ensures
        head_count(blocks, used) < blocks.len() ==> used + text::byte_len(
            text::join(blocks.take(head_count(blocks, used) as int + 1), "\n"@),
        ) > HEAD_CAP,
    decreases blocks.len(),
{
    let k = head_count(blocks, used);
    if k < blocks.len() {
        if k == 0 {
            assert(blocks.take(1) =~= seq![blocks[0]]);
        } else {
            let rest = blocks.drop_first();
            lemma_head_is_tight(rest, used + text::byte_len(blocks[0]) + 1);
            let t = rest.take(k as int);
            text::lemma_join_front(blocks[0], t, "\n"@);
            assert(seq![blocks[0]] + t =~= blocks.take(k as int + 1));
            lemma_line_break();
            text::lemma_byte_len_concat(blocks[0], "\n"@);
            text::lemma_byte_len_concat(blocks[0] + "\n"@, text::join(t, "\n"@));
        }
    }
}

proof fn lemma_tail_is_tight(blocks: Seq<Seq<char>>, used: nat)
    ensures
        tail_count(blocks, used) < blocks.len() ==> used + text::byte_len(
            text::join(blocks.skip(blocks.len() - tail_count(blocks, used) - 1), "\n"@),
        ) > TAIL_CAP,
    decreases blocks.len(),
{
    let k = tail_count(blocks, used);
    if k < blocks.len() {
        let t = blocks.skip(blocks.len() - k - 1);
        if k == 0 {
            assert(t =~= seq![blocks.last()]);
        } else {
            let rest = blocks.drop_last();
            lemma_tail_is_tight(rest, used + text::byte_len(blocks.last()) + 1);
            assert(t.drop_last() =~= rest.skip(rest.len() - k));
            lemma_line_break();
            text::lemma_byte_len_concat(text::join(t.drop_last(), "\n"@), "\n"@);
            text::lemma_byte_len_concat(
                text::join(t.drop_last(), "\n"@) + "\n"@,
                blocks.last(),
            );
        }
    }
}

// ---------------------------------------------------------------------------
// What a failure becomes
// ---------------------------------------------------------------------------

/// Only a stop by the user aborts, and the failure is then handed on as it is. A run
/// over its budget is told apart from every other failure.
pub proof fn law_only_a_stop_aborts(err: PromptFailure, snapshot: Seq<Message>, h: Handoff)
    requires
        classified(err, snapshot, h),
    ensures
        h is Abort <==> (err matches PromptFailure::PromptCancelled { reason, .. } && reason@
            == "stop"@),
        h matches Handoff::Abort(e) ==> e == err,
        h is ContextExceeded <==> (err matches PromptFailure::PromptCancelled { reason, .. }
            && reason@ == "subagent-context"@),
{
    reveal_strlit("stop");
    reveal_strlit("subagent-context");
    assert("stop"@.len() != "subagent-context"@.len());
}

/// A handoff goes on with the history that the failure itself carries; only where it
/// carries none, with the snapshot.
pub proof fn law_history_is_the_latest_known(
    err: PromptFailure,
    snapshot: Seq<Message>,
    h: Handoff,
)
    requires
        classified(err, snapshot, h),
        !(h is Abort),
    ensures
        ({
            let own: Seq<Message> = match err {
                PromptFailure::PromptCancelled { chat_history, .. } => chat_history@,
                PromptFailure::MaxTurns { chat_history, .. } => chat_history@,
                PromptFailure::UnknownToolCall { chat_history, .. } => chat_history@,
                _ => Seq::empty(),
            };
            let kept: Seq<Message> = match h {
                Handoff::ContextExceeded { history } => history@,
                Handoff::Failed { history, .. } => history@,
                Handoff::Abort(_) => Seq::empty(),
            };
            &&& own.len() > 0 ==> kept == own
            &&& own.len() == 0 ==> kept == snapshot
        }),
{
}

/// The error of a failure says what went wrong: the reason, the limit, the tool, or the
/// capped message.
pub proof fn law_error_says_what_failed(err: PromptFailure, snapshot: Seq<Message>, h: Handoff)
    requires
        classified(err, snapshot, h),
        h is Failed,
    ensures
        match err {
            PromptFailure::PromptCancelled { reason, .. } => h->error@ == "cancelled: "@ + reason@,
            PromptFailure::MaxTurns { max_turns, .. } => h->error@
                == "reached its max turn limit ("@ + text::decimal(max_turns as nat) + ")"@,
            PromptFailure::UnknownToolCall { tool_name, .. } => h->error@
                == "called an unknown tool `"@ + tool_name@ + "`"@,
            PromptFailure::Completion { message } => h->error@ == text::truncated(
                message@,
                300,
                "…"@,
            ),
            PromptFailure::Tool { message } => h->error@ == text::truncated(message@, 300, "…"@),
            PromptFailure::ToolServer { message } => h->error@ == text::truncated(
                message@,
                300,
                "…"@,
            ),
        },
{
}

/// There is work exactly where some message of the history has a tool result, or an
/// assistant text that is not blank.
pub proof fn law_work_is_results_and_texts(h: Seq<Message>)
    ensures
        worth_summarising(h) <==> exists|p: (int, int)|
            #[trigger] is_shown(h, p) && match h[p.0] {
                Message::User { content } => content@[p.1] is ToolResult,
                Message::Assistant { content, .. } => content@[p.1] is Text && text::trim(
                    content@[p.1]->Text_0@,
                ).len() > 0,
                Message::System { .. } => false,
            },
{
    if worth_summarising(h) {
        let i = choose|i: int| 0 <= i < h.len() && message_has_work(#[trigger] h[i]);
        match h[i] {
            Message::System { .. } => {},
            Message::User { content } => {
                let j = choose|j: int|
                    0 <= j < content@.len() && user_item_is_work(#[trigger] content@[j]);
                assert(is_shown(h, (i, j)));
            },
            Message::Assistant { content, .. } => {
                let j = choose|j: int|
                    0 <= j < content@.len() && assistant_item_is_work(#[trigger] content@[j]);
                assert(is_shown(h, (i, j)));
            },
        }
    }
    if exists|p: (int, int)|
        #[trigger] is_shown(h, p) && match h[p.0] {
            Message::User { content } => content@[p.1] is ToolResult,
            Message::Assistant { content, .. } => content@[p.1] is Text && text::trim(
                content@[p.1]->Text_0@,
            ).len() > 0,
            Message::System { .. } => false,
        } {
        let p = choose|p: (int, int)|
            #[trigger] is_shown(h, p) && match h[p.0] {
                Message::User { content } => content@[p.1] is ToolResult,
                Message::Assistant { content, .. } => content@[p.1] is Text && text::trim(
                    content@[p.1]->Text_0@,
                ).len() > 0,
                Message::System { .. } => false,
            };
        match h[p.0] {
            Message::System { .. } => {},
            Message::User { content } => {
                assert(user_item_is_work(content@[p.1]));
            },
            Message::Assistant { content, .. } => {
                assert(assistant_item_is_work(content@[p.1]));
            },
        }
        assert(message_has_work(h[p.0]));
    }
}

/// The latest text is an assistant text of the history that is not blank, and no such
/// text comes after it; there is none exactly where the history has none.
pub proof fn law_latest_text_is_the_last(h: Seq<Message>) -> (p: (int, int))
    ensures
        latest_text(h) is Some ==> {
            &&& 0 <= p.0 < h.len()
            &&& h[p.0] is Assistant
            &&& 0 <= p.1 < h[p.0]->Assistant_content@.len()
            &&& h[p.0]->Assistant_content@[p.1] is Text
            &&& latest_text(h)->0 == h[p.0]->Assistant_content@[p.1]->Text_0@
            &&& text::trim(latest_text(h)->0).len() > 0
        },
        forall|i: int, j: int|
            #![trigger h[i]->Assistant_content@[j]]
            0 <= i < h.len() && h[i] is Assistant && 0 <= j < h[i]->Assistant_content@.len()
                && h[i]->Assistant_content@[j] is Text && text::trim(
                h[i]->Assistant_content@[j]->Text_0@,
            ).len() > 0 ==> latest_text(h) is Some && ((i, j) == p || comes_before((i, j), p)),
    decreases h.len(),
{
    if h.len() == 0 {
        (0, 0)
    } else {
        let n = h.len() - 1;
        let d = h.drop_last();
        let q = law_latest_text_is_the_last(d);
        assert forall|i: int| 0 <= i < n implies d[i] == #[trigger] h[i] by {}
        if h[n] is Assistant {
            let s = h[n]->Assistant_content@;
            let k = lemma_last_text_item(s);
            if last_text_item(s) is Some {
                (n, k)
            } else {
                q
            }
        } else {
            q
        }
    }
}

proof fn lemma_last_text_item(s: Seq<AssistantContent>) -> (k: int)
    ensures
        last_text_item(s) is Some ==> 0 <= k < s.len() && s[k] is Text && last_text_item(s)->0
            == s[k]->Text_0@ && text::trim(last_text_item(s)->0).len() > 0,
        forall|j: int|
            0 <= j < s.len() && #[trigger] s[j] is Text && text::trim(s[j]->Text_0@).len() > 0
                ==> last_text_item(s) is Some && j <= k,
    decreases s.len(),
{
    if s.len() == 0 {
        0
    } else {
        let d = s.drop_last();
        let k = lemma_last_text_item(d);
        assert forall|j: int| 0 <= j < d.len() implies d[j] == #[trigger] s[j] by {}
        if s.last() is Text && !text::is_blank(s.last()->Text_0@) {
            s.len() - 1
        } else {
            k
        }
    }
}

/// What the orchestrator is shown of the work: the summary as it is, where there is one
/// that is not blank; else the latest assistant text, capped; and nothing only where
/// there is neither.
pub proof fn law_work_is_not_lost(summary: Option<Seq<char>>, history: Seq<Message>)
    ensures
        summary matches Some(s) && text::trim(s).len() > 0 ==> shown_summary(summary, history)
            == summary,
        (summary matches Some(s) ==> text::trim(s).len() == 0) ==> match latest_text(history) {
            Some(t) => shown_summary(summary, history) == Some(text::truncated(t, 1500, "…"@)),
            None => shown_summary(summary, history) is None,
        },
{
}

/// A handoff asks for a summary exactly where its history shows work, and then puts the
/// whole transcript behind the request; its header is that of the failure.
pub proof fn law_summary_is_asked_for_work(role: Seq<char>, h: Handoff, step: HandoffStep)
    requires
        begun(role, h, step),
    ensures
        h matches Handoff::ContextExceeded { history } ==> (step is Summarise <==> worth_summarising(
            history@,
        )),
        h matches Handoff::Failed { history, .. } ==> (step is Summarise <==> worth_summarising(
            history@,
        )),
        h is Abort ==> step is Done,
        step matches HandoffStep::Summarise { header, history, prompt } ==> {
            &&& h matches Handoff::ContextExceeded { history: g } ==> header is ContextExceeded
                && history@ == g@
            &&& h matches Handoff::Failed { error: e, history: g } ==> header == (
            Header::Failed { error: e }) && history@ == g@
            &&& prompt@ == SUMMARY_PROMPT@ + elided(transcript_blocks(history@))
        },
        step matches HandoffStep::Done(s) ==> match h {
            Handoff::ContextExceeded { .. } => s@ == interrupted(
                role,
                Header::ContextExceeded,
                None,
            ),
            Handoff::Failed { error, .. } => s@ == interrupted(role, Header::Failed { error }, None),
            Handoff::Abort(e) => exists|error: String|
                #![trigger error@]
                error@ == failure_text(e) && s@ == interrupted(
                    role,
                    Header::Failed { error },
                    None,
                ),
        },
{
    if let HandoffStep::Done(s) = step {
        let (header, history) = choose|header: Header, history: Seq<Message>|
            #[trigger] header_matches(h, header, history) && !worth_summarising(history) && s@
                == interrupted(role, header, None);
        assert(header_matches(h, header, history));
        if let Header::Failed { error } = header {
            assert(s@ == interrupted(role, Header::Failed { error }, None) && error@ == error@);
        }
    }
}

/// The result names the role, says what happened, gives all that is shown of the work
/// and ends with the advice for that kind of interruption.
pub proof fn law_result_has_every_part(role: Seq<char>, header: Header, summary: Option<Seq<char>>)
    ensures
        interrupted(role, header, summary) == "[delegate:"@ + role + (match header {
            Header::ContextExceeded =>
                "] INTERRUPTED — the subagent context exceeded its max threshold."@,
            Header::Failed { error } => "] INTERRUPTED — error: "@ + text::truncated(
                error@,
                300,
                "…"@,
            ),
        }) + "\n\n"@ + (match summary {
            Some(s) => "Here is a summary of what it was doing:\n\n"@ + text::truncated(
                s,
                4096,
                "…"@,
            ),
            None => NO_SUMMARY@,
        }) + "\n\n"@ + (if header is ContextExceeded {
            CONTEXT_GUIDANCE@
        } else {
            FAILED_GUIDANCE@
        }),
{
    if let Header::Failed { error } = header {
        assert(banner(role, header) =~= "[delegate:"@ + role + ("] INTERRUPTED — error: "@
            + text::truncated(error@, 300, "…"@)));
    }
}

/// The description of a failure says all that is known of it: the reason, the limit, the
/// tool with the tools that there are and those that were allowed, or the message.
pub proof fn law_failure_is_described(e: PromptFailure) -> (r: (Seq<char>, Seq<char>, Seq<char>))
    ensures
        e matches PromptFailure::PromptCancelled { reason, .. } ==> failure_text(e) == r.0 + reason@,
        e matches PromptFailure::MaxTurns { max_turns, .. } ==> failure_text(e) == r.0
            + text::decimal(max_turns as nat),
        e matches PromptFailure::UnknownToolCall {
            tool_name,
            available_tools,
            allowed_tools,
            ..
        } ==> failure_text(e) == r.0 + tool_name@ + r.1 + debug_list(
            Seq::new(available_tools@.len(), |i: int| available_tools@[i]@),
        ) + r.2 + debug_list(Seq::new(allowed_tools@.len(), |i: int| allowed_tools@[i]@)),
        e matches PromptFailure::Completion { message } ==> failure_text(e) == r.0 + message@,
        e matches PromptFailure::Tool { message } ==> failure_text(e) == r.0 + message@,
        e matches PromptFailure::ToolServer { message } ==> failure_text(e) == r.0 + message@,
{
    match e {
        PromptFailure::PromptCancelled { .. } => ("PromptCancelled: "@, Seq::empty(), Seq::empty()),
        PromptFailure::MaxTurns { .. } => (
            "MaxTurnsError: reached max turns limit: "@,
            Seq::empty(),
            Seq::empty(),
        ),
        PromptFailure::UnknownToolCall { available_tools, allowed_tools, .. } => {
            assert(text::strs(available_tools@) =~= Seq::new(
                available_tools@.len(),
                |i: int| available_tools@[i]@,
            ));
            assert(text::strs(allowed_tools@) =~= Seq::new(
                allowed_tools@.len(),
                |i: int| allowed_tools@[i]@,
            ));
            (
                "UnknownToolCall: model attempted to call unknown or disallowed tool `"@,
                "`. Available tools: "@,
                ". Allowed tools for this turn: "@,
            )
        },
        PromptFailure::Completion { .. } => ("CompletionError: "@, Seq::empty(), Seq::empty()),
        PromptFailure::Tool { .. } => ("ToolCallError: "@, Seq::empty(), Seq::empty()),
        PromptFailure::ToolServer { .. } => ("ToolServerError: "@, Seq::empty(), Seq::empty()),
    }
}

} // verus!
