//! A model for tests: it answers from a queue and records what it was asked.

use vstd::prelude::*;
use crate::message::{AssistantContent, Message, ToolCall};
use crate::text;

verus! {

/// The tokens that an answer used.
#[derive(Debug, PartialEq, Eq, Structural, Copy, Clone)]
pub struct Usage {
    pub input_tokens: u64,
    pub output_tokens: u64,
}

impl Default for Usage {
    fn default() -> (r: Self)
        ensures
            r == (Usage { input_tokens: 100, output_tokens: 50 }),
    {
        Usage { input_tokens: 100, output_tokens: 50 }
    }
}

/// The tokens that an answer used, with their sum.
#[derive(Debug, PartialEq, Eq, Structural, Copy, Clone)]
pub struct TokenUsage {
    pub input_tokens: u64,
    pub output_tokens: u64,
    pub total_tokens: u64,
}

/// Whether the sum of the tokens can be held.
pub open spec fn countable(u: Usage) -> bool {
    u.input_tokens + u.output_tokens <= u64::MAX
}

/// The tokens with their sum.
pub open spec fn counted(u: Usage) -> TokenUsage {
    TokenUsage {
        input_tokens: u.input_tokens,
        output_tokens: u.output_tokens,
        total_tokens: (u.input_tokens + u.output_tokens) as u64,
    }
}

fn count(u: Usage) -> (r: TokenUsage)
    requires
        countable(u),
    ensures
        r == counted(u),
{
    TokenUsage {
        input_tokens: u.input_tokens,
        output_tokens: u.output_tokens,
        total_tokens: u.input_tokens + u.output_tokens,
    }
}

/// An answer that is ready to be given.
#[derive(Debug, PartialEq)]
pub enum MockResponse {
    Text { content: String, usage: Option<Usage> },
    /// A call of a tool; the arguments are JSON.
    ToolCall { tool: String, args: String, follow_up: Option<String>, usage: Option<Usage> },
    Error { message: String },
}

impl MockResponse {
    /// A text.
    pub fn text(content: &str) -> (r: Self)
        ensures
            r matches MockResponse::Text { content: c, usage } && c@ == content@ && usage is None,
    {
        MockResponse::Text { content: content.to_owned(), usage: None }
    }

    /// A text that used these tokens.
    pub fn text_with_usage(content: &str, usage: Usage) -> (r: Self)
        ensures
            r matches MockResponse::Text { content: c, usage: u } && c@ == content@ && u == Some(
                usage,
            ),
    {
        MockResponse::Text { content: content.to_owned(), usage: Some(usage) }
    }

    /// A call of a tool.
    pub fn tool_call(tool: &str, args: &str) -> (r: Self)
        ensures
            r matches MockResponse::ToolCall { tool: t, args: a, follow_up, usage } && t@ == tool@
                && a@ == args@ && follow_up is None && usage is None,
    {
        MockResponse::ToolCall {
            tool: tool.to_owned(),
            args: args.to_owned(),
            follow_up: None,
            usage: None,
        }
    }

    /// A call of a tool with a text behind it.
    pub fn tool_call_with_follow_up(tool: &str, args: &str, follow_up: &str) -> (r: Self)
        ensures
            r matches MockResponse::ToolCall { tool: t, args: a, follow_up: f, usage } && t@
                == tool@ && a@ == args@ && text::opt(f) == Some(follow_up@)
                && usage is None,
    {
        MockResponse::ToolCall {
            tool: tool.to_owned(),
            args: args.to_owned(),
            follow_up: Some(follow_up.to_owned()),
            usage: None,
        }
    }

    /// A call of a tool that used these tokens.
    pub fn tool_call_with_usage(tool: &str, args: &str, usage: Usage) -> (r: Self)
        ensures
            r matches MockResponse::ToolCall { tool: t, args: a, follow_up, usage: u } && t@
                == tool@ && a@ == args@ && follow_up is None && u == Some(usage),
    {
        MockResponse::ToolCall {
            tool: tool.to_owned(),
            args: args.to_owned(),
            follow_up: None,
            usage: Some(usage),
        }
    }

    /// An error.
    pub fn error(message: &str) -> (r: Self)
        ensures
            r matches MockResponse::Error { message: m } && m@ == message@,
    {
        MockResponse::Error { message: message.to_owned() }
    }

    /// The same answer with these tokens. An error uses none.
    pub fn with_usage(self, usage: Usage) -> (r: Self)
        ensures
            r == (match self {
                MockResponse::Text { content, .. } => MockResponse::Text {
                    content,
                    usage: Some(usage),
                },
                MockResponse::ToolCall { tool, args, follow_up, .. } => MockResponse::ToolCall {
                    tool,
                    args,
                    follow_up,
                    usage: Some(usage),
                },
                MockResponse::Error { .. } => self,
            }),
    {
        match self {
            MockResponse::Text { content, .. } => MockResponse::Text {
                content,
                usage: Some(usage),
            },
            MockResponse::ToolCall { tool, args, follow_up, .. } => MockResponse::ToolCall {
                tool,
                args,
                follow_up,
                usage: Some(usage),
            },
            MockResponse::Error { message } => MockResponse::Error { message },
        }
    }
}

/// A request as it was recorded.
#[derive(Debug, PartialEq)]
pub struct RecordedRequest {
    pub preamble: Option<String>,
    /// The history with the prompt as its last message.
    pub chat_history: Vec<Message>,
    pub tool_count: usize,
}

/// What stands behind an answer.
#[derive(Debug, PartialEq)]
pub struct MockModelResponse {
    pub content: String,
    pub is_tool_call: bool,
}

impl MockModelResponse {
    /// The tokens that an answer is taken to have used.
    pub fn token_usage(&self) -> (r: Option<TokenUsage>)
        ensures
            r == Some(
                TokenUsage { input_tokens: 100, output_tokens: 50, total_tokens: 150 },
            ),
    {
        Some(TokenUsage { input_tokens: 100, output_tokens: 50, total_tokens: 150 })
    }
}

/// An answer.
#[derive(Debug, PartialEq)]
pub struct MockCompletion {
    pub choice: Vec<AssistantContent>,
    pub usage: TokenUsage,
    pub raw_response: MockModelResponse,
}

/// The tokens that a queued answer says it used.
pub open spec fn usage_of(m: MockResponse) -> Option<Usage> {
    match m {
        MockResponse::Text { usage, .. } => usage,
        MockResponse::ToolCall { usage, .. } => usage,
        MockResponse::Error { .. } => None,
    }
}

/// The tokens that an answer is given with.
pub open spec fn usage_or(u: Option<Usage>, default: TokenUsage) -> TokenUsage {
    match u {
        Some(u) => counted(u),
        None => default,
    }
}

/// Whether `r` is the answer for what stood first in the queue. `call_id` names a
/// call of a tool.
pub open spec fn replied(
    first: Option<MockResponse>,
    call_id: Seq<char>,
    default: TokenUsage,
    r: Result<MockCompletion, String>,
) -> bool {
    match first {
        None => r matches Err(m) && m@ == "MockCompletionModel: no responses queued"@,
        Some(MockResponse::Error { message }) => r matches Err(m) && m@ == message@,
        Some(MockResponse::Text { content, usage }) => {
            &&& r is Ok
            &&& r->Ok_0.choice@.len() == 1
            &&& r->Ok_0.choice@[0] matches AssistantContent::Text(t) && t@ == content@
            &&& r->Ok_0.usage == usage_or(usage, default)
            &&& r->Ok_0.raw_response.content@ == content@
            &&& !r->Ok_0.raw_response.is_tool_call
        },
        Some(MockResponse::ToolCall { tool, args, follow_up, usage }) => {
            &&& r is Ok
            &&& r->Ok_0.choice@.len() == (if follow_up is Some {
                2int
            } else {
                1int
            })
            &&& r->Ok_0.choice@[0] matches AssistantContent::ToolCall(c) && c.id@ == "call_"@
                + call_id && c.call_id is None && c.name@ == tool@ && c.arguments@ == args@
            &&& follow_up matches Some(f) ==> (r->Ok_0.choice@[1] matches AssistantContent::Text(t)
                && t@ == f@)
            &&& r->Ok_0.usage == usage_or(usage, default)
            &&& r->Ok_0.raw_response.content@ == (match follow_up {
                Some(f) => f@,
                None => "Tool call: "@ + tool@,
            })
            &&& r->Ok_0.raw_response.is_tool_call
        },
    }
}

/// A model that answers from a queue, first in, first out, and records every
/// request.
#[derive(Debug, PartialEq)]
pub struct MockCompletionModel {
    pub responses: Vec<MockResponse>,
    pub recorded_requests: Vec<RecordedRequest>,
    pub default_usage: TokenUsage,
}

impl MockCompletionModel {
    /// A model without answers.
    pub fn new() -> (r: Self)
        ensures
            r.responses@.len() == 0,
            r.recorded_requests@.len() == 0,
            r.default_usage == (TokenUsage { input_tokens: 0, output_tokens: 0, total_tokens: 0 }),
    {
        MockCompletionModel {
            responses: Vec::new(),
            recorded_requests: Vec::new(),
            default_usage: TokenUsage { input_tokens: 0, output_tokens: 0, total_tokens: 0 },
        }
    }

    /// Queues an answer.
    pub fn add_response(&mut self, response: MockResponse)
        ensures
            final(self).responses@ == old(self).responses@.push(response),
            final(self).recorded_requests == old(self).recorded_requests,
            final(self).default_usage == old(self).default_usage,
    {
        self.responses.push(response);
    }

    /// Queues answers in their order.
    pub fn add_responses(&mut self, responses: Vec<MockResponse>)
        ensures
            final(self).responses@ == old(self).responses@ + responses@,
            final(self).recorded_requests == old(self).recorded_requests,
            final(self).default_usage == old(self).default_usage,
    {
        let mut more = responses;
        self.responses.append(&mut more);
    }

    /// Sets the tokens of answers that do not say how many they used.
    pub fn set_default_usage(&mut self, input: u64, output: u64)
        requires
            input + output <= u64::MAX,
        ensures
            final(self).default_usage == counted(
                Usage { input_tokens: input, output_tokens: output },
            ),
            final(self).responses == old(self).responses,
            final(self).recorded_requests == old(self).recorded_requests,
    {
        self.default_usage = count(Usage { input_tokens: input, output_tokens: output });
    }

    /// Forgets the queued answers.
    pub fn clear(&mut self)
        ensures
            final(self).responses@.len() == 0,
            final(self).recorded_requests == old(self).recorded_requests,
            final(self).default_usage == old(self).default_usage,
    {
        self.responses = Vec::new();
    }

    /// Whether there is an answer.
    pub fn has_responses(&self) -> (r: bool)
        ensures
            r == (self.responses@.len() > 0),
    {
        self.responses.len() > 0
    }

    /// How many answers there are.
    pub fn remaining(&self) -> (n: usize)
        ensures
            n == self.responses@.len(),
    {
        self.responses.len()
    }

    /// The requests in their order.
    pub fn get_recorded_requests(&self) -> (r: &[RecordedRequest])
        ensures
            r@ == self.recorded_requests@,
    {
        self.recorded_requests.as_slice()
    }

    /// How many requests there were.
    pub fn request_count(&self) -> (n: usize)
        ensures
            n == self.recorded_requests@.len(),
    {
        self.recorded_requests.len()
    }

    /// Answers a request with what stands first in the queue. `call_id` makes the
    /// identifier of a call of a tool.
    pub fn completion(&mut self, request: RecordedRequest, call_id: &str) -> (r: Result<
        MockCompletion,
        String,
    >)
        requires
            old(self).responses@.len() > 0 && usage_of(old(self).responses@[0]) is Some
                ==> countable(usage_of(old(self).responses@[0])->0),
        ensures
            final(self).recorded_requests@ == old(self).recorded_requests@.push(request),
            final(self).default_usage == old(self).default_usage,
            final(self).responses@ == (if old(self).responses@.len() > 0 {
                old(self).responses@.drop_first()
            } else {
                old(self).responses@
            }),
            replied(
                if old(self).responses@.len() > 0 {
                    Some(old(self).responses@[0])
                } else {
                    None
                },
                call_id@,
                old(self).default_usage,
                r,
            ),
    {
        self.recorded_requests.push(request);
        if self.responses.len() == 0 {
            return Err("MockCompletionModel: no responses queued".to_owned());
        }
        let ghost before = self.responses@;
        let response = self.responses.remove(0);
        assert(self.responses@ =~= before.drop_first());
        match response {
            MockResponse::Text { content, usage } => {
                let mut choice: Vec<AssistantContent> = Vec::new();
                choice.push(AssistantContent::Text(content.clone()));
                let usage: TokenUsage = match usage {
                    Some(u) => count(u),
                    None => self.default_usage,
                };
                Ok(
                    MockCompletion {
                        choice,
                        usage,
                        raw_response: MockModelResponse { content, is_tool_call: false },
                    },
                )
            },
            MockResponse::ToolCall { tool, args, follow_up, usage } => {
                let mut id = "call_".to_owned();
                id.append(call_id);
                let mut raw = "Tool call: ".to_owned();
                raw.append(tool.as_str());
                let mut choice: Vec<AssistantContent> = Vec::new();
                choice.push(
                    AssistantContent::ToolCall(
                        ToolCall { id, call_id: None, name: tool, arguments: args },
                    ),
                );
                if let Some(f) = follow_up {
                    choice.push(AssistantContent::Text(f.clone()));
                    raw = f;
                }
                let usage: TokenUsage = match usage {
                    Some(u) => count(u),
                    None => self.default_usage,
                };
                Ok(
                    MockCompletion {
                        choice,
                        usage,
                        raw_response: MockModelResponse { content: raw, is_tool_call: true },
                    },
                )
            },
            MockResponse::Error { message } => Err(message),
        }
    }
}

impl Default for MockCompletionModel {
    fn default() -> (r: Self)
        ensures
            r.responses@.len() == 0,
            r.recorded_requests@.len() == 0,
            r.default_usage == (TokenUsage { input_tokens: 0, output_tokens: 0, total_tokens: 0 }),
    {
        MockCompletionModel::new()
    }
}

/// The queue after a number of requests.
pub open spec fn queue_after(queue: Seq<MockResponse>, requests: nat) -> Seq<MockResponse>
    decreases requests,
{
    if requests == 0 {
        queue
    } else {
        let q = queue_after(queue, (requests - 1) as nat);
        if q.len() > 0 {
            q.drop_first()
        } else {
            q
        }
    }
}

/// Answers are given in the order in which they were queued: the request after `n`
/// others is answered with the answer at `n`.
pub proof fn law_first_in_first_out(queue: Seq<MockResponse>, n: nat)
    requires
        n < queue.len(),
    ensures
        queue_after(queue, n).len() == queue.len() - n,
        queue_after(queue, n)[0] == queue[n as int],
        queue_after(queue, n) == queue.skip(n as int),
    decreases n,
{
    if n == 0 {
        assert(queue.skip(0) =~= queue);
    } else {
        law_first_in_first_out(queue, (n - 1) as nat);
        assert(queue.skip(n - 1).drop_first() =~= queue.skip(n as int));
    }
}

/// A queued text comes back word for word, a queued call as it was queued, with a call id
/// of its own and the text behind it where there is one; a queued error, and an empty
/// queue, give an error. The tokens are those of the answer, else the default ones, and
/// their sum.
pub proof fn law_answers_come_back_as_queued(
    first: Option<MockResponse>,
    call_id: Seq<char>,
    default: TokenUsage,
    r: Result<MockCompletion, String>,
)
    requires
        replied(first, call_id, default, r),
    ensures
        r is Err <==> first is None || first->0 is Error,
        first matches Some(MockResponse::Error { message }) ==> r->Err_0@ == message@,
        first matches Some(MockResponse::Text { content, usage }) ==> {
            &&& r->Ok_0.choice@.len() == 1
            &&& r->Ok_0.choice@[0] is Text && r->Ok_0.choice@[0]->Text_0@ == content@
            &&& usage is None ==> r->Ok_0.usage == default
            &&& usage is Some && usage->0.input_tokens + usage->0.output_tokens <= u64::MAX
                ==> r->Ok_0.usage.total_tokens == usage->0.input_tokens + usage->0.output_tokens
                && r->Ok_0.usage.input_tokens == usage->0.input_tokens
                && r->Ok_0.usage.output_tokens == usage->0.output_tokens
            &&& r->Ok_0.raw_response.content@ == content@ && !r->Ok_0.raw_response.is_tool_call
        },
        first matches Some(MockResponse::ToolCall { tool, args, follow_up, usage }) ==> {
            &&& r->Ok_0.choice@[0] is ToolCall
            &&& r->Ok_0.choice@[0]->ToolCall_0.name@ == tool@
            &&& r->Ok_0.choice@[0]->ToolCall_0.arguments@ == args@
            &&& r->Ok_0.choice@[0]->ToolCall_0.id@ == "call_"@ + call_id
            &&& follow_up is None ==> r->Ok_0.choice@.len() == 1
            &&& follow_up matches Some(f) ==> r->Ok_0.choice@.len() == 2
                && r->Ok_0.choice@[1] is Text && r->Ok_0.choice@[1]->Text_0@ == f@
            &&& usage is None ==> r->Ok_0.usage == default
            &&& usage is Some && usage->0.input_tokens + usage->0.output_tokens <= u64::MAX
                ==> r->Ok_0.usage.total_tokens == usage->0.input_tokens + usage->0.output_tokens
            &&& r->Ok_0.raw_response.is_tool_call
        },
{
}

/// Tokens are counted together with their sum.
pub proof fn law_tokens_are_summed(u: Usage)
    requires
        u.input_tokens + u.output_tokens <= u64::MAX,
    ensures
        counted(u).input_tokens == u.input_tokens,
        counted(u).output_tokens == u.output_tokens,
        counted(u).total_tokens == u.input_tokens + u.output_tokens,
{
}

} // verus!
