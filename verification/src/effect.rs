//! What the controller asks of the world around it.
//!
//! The controller decides; the program acts. Every decision is a list of
//! effects, to be carried out in order. The types are generic in their texts and
//! lists of images: the program has `String`s and `Vec`s, contracts speak of
//! sequences.

use vstd::prelude::*;
use crate::message::Media;
use crate::text;

verus! {

/// Who produced an event: the agent that the user talks to, or a sub-agent.
#[derive(Debug, Clone, PartialEq)]
pub enum MessageSource<S> {
    Human,
    SubAgent { role: S },
}

/// A message between the event loop and the agent loop.
#[derive(Debug, Clone, PartialEq)]
pub enum QueueMessage<S, A> {
    UserMessage { text: S, attachments: A },
    Command(S),
    /// Ends the draining that a stop began; carries what the user is told.
    StopMarker { message: S },
    SwitchModel(S),
    ChangeCwd(S),
    SelectPipeline(Option<S>),
    BackgroundOutputReady,
}

/// How a turn or a command ended.
#[derive(Debug, PartialEq, Eq, Structural, Copy, Clone)]
pub enum CompletionResult {
    Success,
    Stopped,
    Error,
    CommandDone,
}

/// One thing to do.
#[derive(Debug, Clone, PartialEq)]
pub enum Effect<S, A> {
    /// Show a system message.
    SystemMessage(S),
    /// Set or clear the status line.
    SetStatus(Option<S>),
    /// Mark the session as busy or idle.
    SetRunning(bool),
    /// Count one more queued input.
    IncrementPending,
    /// Count one queued input less.
    DecrementPending,
    /// Forget all queued inputs.
    ClearPending,
    /// Begin discarding what is queued.
    BeginDrain,
    /// Kill what the turn runs and report what died.
    StopTurnProcesses,
    /// Put a message into the queue of the agent loop.
    Enqueue(QueueMessage<S, A>),
    /// Tell the event loop how a turn or command ended.
    Complete(CompletionResult),
    /// Write the user's message into the chat.
    AddUserMessage { text: S, attachments: A },
    /// Write background output into the chat as a message of its own.
    AddBackgroundMessage { text: S, proc_ids: Vec<u32> },
    /// Let buffered background output through.
    ResetBgCooldowns,
    /// Compact `memory.md` where it is oversized.
    CompactMemory,
    /// Run a turn of the agent.
    RunTurn { text: S },
    /// Turn pending background output into a turn of its own.
    DrainBackground,
    /// Run a command.
    RunCommand(S),
    /// Rebuild the agent for a conversation that was just loaded.
    RebuildAfterLoad { selection_before: Option<S> },
    /// Rebuild the agent for a conversation that was just begun.
    RefreshAfterNew,
    /// Switch to another model.
    SwitchModel(S),
    /// Change the working directory.
    ChangeCwd(S),
    /// Bind the conversation to a team, or to none.
    SelectPipeline(Option<S>),
    /// Stop forwarding the agent's events.
    StopEventProcessor,
    /// Leave the loop.
    Exit,
    /// Count a request to a model. The cost is passed through as its bits.
    AddRequest { source: MessageSource<S>, input_tokens: u64, output_tokens: u64, cost_bits: u64 },
    /// Write the agent's answer into the chat.
    AddAssistantMessage { content: S },
    /// Write a sub-agent's answer into the chat.
    AddSourcedMessage { source: MessageSource<S>, content: S },
    /// Write a sub-agent's answer and its thinking into the chat.
    AddThinkingMessage { source: MessageSource<S>, content: S, thinking: Vec<String> },
    /// Write a tool call into the chat.
    AddToolCall {
        source: MessageSource<S>,
        response_id: Option<S>,
        tool_name: S,
        arguments: S,
        call_id: Option<S>,
    },
    /// Write a tool result into the chat.
    AddToolResult {
        source: MessageSource<S>,
        tool_name: S,
        arguments: S,
        result: S,
        call_id: Option<S>,
    },
    /// Mark the turn's last broadcast.
    SetFinalBroadcast(bool),
    /// Find a title after the first reply.
    MaybeGenerateTitle,
    /// Clear everything that belongs to the conversation.
    ResetConversation,
    /// Begin a conversation.
    CreateConversation { provider_name: S, model: S, cwd: S },
    /// Show this model, provider or alias as the active one.
    SetModel(S),
    SetProviderName(S),
    SetModelAlias(S),
    /// Save which model the conversation runs on.
    SetConversationWireId { provider_name: S, model: S },
    /// Record which team the conversation is bound to.
    BindPipeline(Option<S>),
    /// Kill the background processes.
    ClearBg,
    /// Set the session's working directory.
    SetCwd(S),
    /// Show the working directory in the banner.
    UpdateWelcomeCwd(S),
    /// Show the model and its limit of tokens in the banner.
    UpdateWelcomeModel { provider_name: S, model: S, max_tokens: usize },
    /// Whether reasoning goes back over the wire.
    SetWireReasoning(bool),
    /// Whether reasoning is shown.
    SetDisplayReasoning(bool),
    /// Put the new agent, its hook and its provider in place.
    PublishAgent,
    /// Size the context manager for this many tokens.
    InitContextManager { context_size: usize },
    /// Use the compaction model for titles too.
    InitTitleModel,
    /// Forward the new agent's events.
    RestartEventProcessor,
    /// Zero the statistics.
    ResetStats,
    /// Compact the context now.
    ForceCompact,
    /// Quit.
    RequestExit,
    /// Save the conversation.
    SaveConversation,
    /// Read which model a saved conversation runs on.
    PeekConversation(u128),
    /// Load a saved conversation.
    LoadConversation(u128),
    /// Delete a saved conversation.
    DeleteConversation(u128),
    /// Export a saved conversation.
    ExportConversation { id: u128, format: S },
    /// Rename the conversation.
    RenameConversation(S),
}

/// An effect as contracts speak of it.
pub type EffectView = Effect<Seq<char>, Seq<Media>>;

/// A queued message of the running program.
pub type Queued = QueueMessage<String, Vec<Media>>;

/// A queued message as contracts speak of it.
pub type QueuedView = QueueMessage<Seq<char>, Seq<Media>>;

impl View for MessageSource<String> {
    type V = MessageSource<Seq<char>>;

    open spec fn view(&self) -> MessageSource<Seq<char>> {
        match *self {
            MessageSource::Human => MessageSource::Human,
            MessageSource::SubAgent { role } => MessageSource::SubAgent { role: role@ },
        }
    }
}

impl View for QueueMessage<String, Vec<Media>> {
    type V = QueueMessage<Seq<char>, Seq<Media>>;

    open spec fn view(&self) -> QueueMessage<Seq<char>, Seq<Media>> {
        match *self {
            QueueMessage::UserMessage { text, attachments } => QueueMessage::UserMessage {
                text: text@,
                attachments: attachments@,
            },
            QueueMessage::Command(c) => QueueMessage::Command(c@),
            QueueMessage::StopMarker { message } => QueueMessage::StopMarker { message: message@ },
            QueueMessage::SwitchModel(a) => QueueMessage::SwitchModel(a@),
            QueueMessage::ChangeCwd(p) => QueueMessage::ChangeCwd(p@),
            QueueMessage::SelectPipeline(n) => QueueMessage::SelectPipeline(text::opt(n)),
            QueueMessage::BackgroundOutputReady => QueueMessage::BackgroundOutputReady,
        }
    }
}

impl View for Effect<String, Vec<Media>> {
    type V = EffectView;

    open spec fn view(&self) -> EffectView {
        match *self {
            Effect::SystemMessage(m) => Effect::SystemMessage(m@),
            Effect::SetStatus(s) => Effect::SetStatus(text::opt(s)),
            Effect::SetRunning(b) => Effect::SetRunning(b),
            Effect::IncrementPending => Effect::IncrementPending,
            Effect::DecrementPending => Effect::DecrementPending,
            Effect::ClearPending => Effect::ClearPending,
            Effect::BeginDrain => Effect::BeginDrain,
            Effect::StopTurnProcesses => Effect::StopTurnProcesses,
            Effect::Enqueue(m) => Effect::Enqueue(m@),
            Effect::Complete(c) => Effect::Complete(c),
            Effect::AddUserMessage { text, attachments } => Effect::AddUserMessage {
                text: text@,
                attachments: attachments@,
            },
            Effect::AddBackgroundMessage { text, proc_ids } => Effect::AddBackgroundMessage {
                text: text@,
                proc_ids,
            },
            Effect::ResetBgCooldowns => Effect::ResetBgCooldowns,
            Effect::CompactMemory => Effect::CompactMemory,
            Effect::RunTurn { text } => Effect::RunTurn { text: text@ },
            Effect::DrainBackground => Effect::DrainBackground,
            Effect::RunCommand(c) => Effect::RunCommand(c@),
            Effect::RebuildAfterLoad { selection_before } => Effect::RebuildAfterLoad {
                selection_before: text::opt(selection_before),
            },
            Effect::RefreshAfterNew => Effect::RefreshAfterNew,
            Effect::SwitchModel(a) => Effect::SwitchModel(a@),
            Effect::ChangeCwd(p) => Effect::ChangeCwd(p@),
            Effect::SelectPipeline(n) => Effect::SelectPipeline(text::opt(n)),
            Effect::StopEventProcessor => Effect::StopEventProcessor,
            Effect::Exit => Effect::Exit,
            Effect::AddRequest { source, input_tokens, output_tokens, cost_bits } =>
                Effect::AddRequest { source: source@, input_tokens, output_tokens, cost_bits },
            Effect::AddAssistantMessage { content } => Effect::AddAssistantMessage {
                content: content@,
            },
            Effect::AddSourcedMessage { source, content } => Effect::AddSourcedMessage {
                source: source@,
                content: content@,
            },
            Effect::AddThinkingMessage { source, content, thinking } => Effect::AddThinkingMessage {
                source: source@,
                content: content@,
                thinking,
            },
            Effect::AddToolCall { source, response_id, tool_name, arguments, call_id } =>
                Effect::AddToolCall {
                source: source@,
                response_id: text::opt(response_id),
                tool_name: tool_name@,
                arguments: arguments@,
                call_id: text::opt(call_id),
            },
            Effect::AddToolResult { source, tool_name, arguments, result, call_id } =>
                Effect::AddToolResult {
                source: source@,
                tool_name: tool_name@,
                arguments: arguments@,
                result: result@,
                call_id: text::opt(call_id),
            },
            Effect::SetFinalBroadcast(b) => Effect::SetFinalBroadcast(b),
            Effect::MaybeGenerateTitle => Effect::MaybeGenerateTitle,
            Effect::ResetConversation => Effect::ResetConversation,
            Effect::CreateConversation { provider_name, model, cwd } => Effect::CreateConversation {
                provider_name: provider_name@,
                model: model@,
                cwd: cwd@,
            },
            Effect::SetModel(m) => Effect::SetModel(m@),
            Effect::SetProviderName(p) => Effect::SetProviderName(p@),
            Effect::SetModelAlias(a) => Effect::SetModelAlias(a@),
            Effect::SetConversationWireId { provider_name, model } =>
                Effect::SetConversationWireId { provider_name: provider_name@, model: model@ },
            Effect::BindPipeline(n) => Effect::BindPipeline(text::opt(n)),
            Effect::ClearBg => Effect::ClearBg,
            Effect::SetCwd(p) => Effect::SetCwd(p@),
            Effect::UpdateWelcomeCwd(p) => Effect::UpdateWelcomeCwd(p@),
            Effect::UpdateWelcomeModel { provider_name, model, max_tokens } =>
                Effect::UpdateWelcomeModel {
                provider_name: provider_name@,
                model: model@,
                max_tokens,
            },
            Effect::SetWireReasoning(b) => Effect::SetWireReasoning(b),
            Effect::SetDisplayReasoning(b) => Effect::SetDisplayReasoning(b),
            Effect::PublishAgent => Effect::PublishAgent,
            Effect::InitContextManager { context_size } => Effect::InitContextManager {
                context_size,
            },
            Effect::InitTitleModel => Effect::InitTitleModel,
            Effect::RestartEventProcessor => Effect::RestartEventProcessor,
            Effect::ResetStats => Effect::ResetStats,
            Effect::ForceCompact => Effect::ForceCompact,
            Effect::RequestExit => Effect::RequestExit,
            Effect::SaveConversation => Effect::SaveConversation,
            Effect::PeekConversation(id) => Effect::PeekConversation(id),
            Effect::LoadConversation(id) => Effect::LoadConversation(id),
            Effect::DeleteConversation(id) => Effect::DeleteConversation(id),
            Effect::ExportConversation { id, format } => Effect::ExportConversation {
                id,
                format: format@,
            },
            Effect::RenameConversation(n) => Effect::RenameConversation(n@),
        }
    }
}

/// What the program has to do, in order.
#[derive(Debug, PartialEq)]
pub struct Effects {
    list: Vec<Effect<String, Vec<Media>>>,
}

impl View for Effects {
    type V = Seq<EffectView>;

    closed spec fn view(&self) -> Seq<EffectView> {
        Seq::new(self.list@.len(), |i: int| self.list@[i]@)
    }
}

impl Effects {
    /// Nothing to do.
    pub fn new() -> (r: Self)
        ensures
            r@ == Seq::<EffectView>::empty(),
    {
        let r = Effects { list: Vec::new() };
        assert(r@ =~= Seq::<EffectView>::empty());
        r
    }

    /// Adds one thing to do.
    pub fn push(&mut self, e: Effect<String, Vec<Media>>)
        ensures
            final(self)@ == old(self)@.push(e@),
    {
        let ghost before = self@;
        self.list.push(e);
        assert(self@ =~= before.push(e@));
    }

    /// Adds a system message.
    pub fn say(&mut self, message: String)
        ensures
            final(self)@ == old(self)@.push(Effect::SystemMessage(message@)),
    {
        self.push(Effect::SystemMessage(message));
    }

    /// How many things there are to do.
    pub fn len(&self) -> (n: usize)
        ensures
            n == self@.len(),
    {
        self.list.len()
    }

    /// The thing to do at `i`.
    pub fn get(&self, i: usize) -> (r: &Effect<String, Vec<Media>>)
        requires
            i < self@.len(),
        ensures
            r@ == self@[i as int],
    {
        &self.list[i]
    }

    /// The things to do as a list.
    pub fn into_vec(self) -> (r: Vec<Effect<String, Vec<Media>>>)
        ensures
            r@.len() == self@.len(),
            forall|i: int| 0 <= i < r@.len() ==> (#[trigger] r@[i])@ == self@[i],
    {
        self.list
    }
}

/// The effects that show each message of a list.
pub open spec fn say_all(messages: Seq<Seq<char>>) -> Seq<EffectView> {
    Seq::new(messages.len(), |i: int| Effect::SystemMessage(messages[i]))
}

/// Adds a system message for each text of a list.
pub fn say_each(out: &mut Effects, messages: &[String])
    ensures
        final(out)@ == old(out)@ + say_all(crate::text::strs(messages@)),
{
    let ghost before = out@;
    let mut i: usize = 0;
    while i < messages.len()
        invariant
            i <= messages@.len(),
            out@ == before + say_all(crate::text::strs(messages@)).take(i as int),
        decreases messages@.len() - i,
    {
        let ghost all = say_all(crate::text::strs(messages@));
        out.say(messages[i].clone());
        assert(all.take(i + 1) =~= all.take(i as int).push(all[i as int]));
        i += 1;
    }
    assert(say_all(crate::text::strs(messages@)).take(messages@.len() as int) =~= say_all(
        crate::text::strs(messages@),
    ));
}

/// What contracts speak of shows a queued message whole: its kind, its texts and its
/// images.
pub proof fn law_queued_messages_are_shown_whole(m: Queued)
    ensures
        m matches QueueMessage::UserMessage { text, attachments } ==> m@ == (QueuedView::UserMessage {
            text: text@,
            attachments: attachments@,
        }),
        m matches QueueMessage::Command(c) ==> m@ == QueuedView::Command(c@),
        m matches QueueMessage::StopMarker { message } ==> m@ == (QueuedView::StopMarker {
            message: message@,
        }),
        m matches QueueMessage::SwitchModel(a) ==> m@ == QueuedView::SwitchModel(a@),
        m matches QueueMessage::ChangeCwd(p) ==> m@ == QueuedView::ChangeCwd(p@),
        m matches QueueMessage::SelectPipeline(Some(n)) ==> m@ == QueuedView::SelectPipeline(
            Some(n@),
        ),
        m matches QueueMessage::SelectPipeline(None) ==> m@ == QueuedView::SelectPipeline(None),
        m is BackgroundOutputReady ==> m@ is BackgroundOutputReady,
{
}

/// What contracts speak of shows an effect whole: its kind, its texts, its numbers and its
/// images.
pub proof fn law_effects_are_shown_whole(e: Effect<String, Vec<Media>>)
    ensures
        e matches Effect::SystemMessage(m) ==> e@ == EffectView::SystemMessage(m@),
        e matches Effect::SetStatus(Some(m)) ==> e@ == EffectView::SetStatus(Some(m@)),
        e matches Effect::SetStatus(None) ==> e@ == EffectView::SetStatus(None),
        e matches Effect::SetRunning(b) ==> e@ == EffectView::SetRunning(b),
        e matches Effect::Enqueue(m) ==> e@ == EffectView::Enqueue(m@),
        e matches Effect::Complete(c) ==> e@ == EffectView::Complete(c),
        e matches Effect::AddUserMessage { text, attachments } ==> e@ == (
        EffectView::AddUserMessage { text: text@, attachments: attachments@ }),
        e matches Effect::AddBackgroundMessage { text, proc_ids } ==> e@ == (
        EffectView::AddBackgroundMessage { text: text@, proc_ids }),
        e matches Effect::RunTurn { text } ==> e@ == (EffectView::RunTurn { text: text@ }),
        e matches Effect::RunCommand(c) ==> e@ == EffectView::RunCommand(c@),
        e matches Effect::RebuildAfterLoad { selection_before: Some(n) } ==> e@ == (
        EffectView::RebuildAfterLoad { selection_before: Some(n@) }),
        e matches Effect::SwitchModel(a) ==> e@ == EffectView::SwitchModel(a@),
        e matches Effect::ChangeCwd(p) ==> e@ == EffectView::ChangeCwd(p@),
        e matches Effect::SelectPipeline(Some(n)) ==> e@ == EffectView::SelectPipeline(Some(n@)),
        e matches Effect::AddAssistantMessage { content } ==> e@ == (
        EffectView::AddAssistantMessage { content: content@ }),
        e matches Effect::CreateConversation { provider_name, model, cwd } ==> e@ == (
        EffectView::CreateConversation {
            provider_name: provider_name@,
            model: model@,
            cwd: cwd@,
        }),
        e matches Effect::SetModel(m) ==> e@ == EffectView::SetModel(m@),
        e matches Effect::SetProviderName(m) ==> e@ == EffectView::SetProviderName(m@),
        e matches Effect::SetModelAlias(m) ==> e@ == EffectView::SetModelAlias(m@),
        e matches Effect::SetConversationWireId { provider_name, model } ==> e@ == (
        EffectView::SetConversationWireId { provider_name: provider_name@, model: model@ }),
        e matches Effect::BindPipeline(Some(n)) ==> e@ == EffectView::BindPipeline(Some(n@)),
        e matches Effect::BindPipeline(None) ==> e@ == EffectView::BindPipeline(None),
        e matches Effect::SetCwd(p) ==> e@ == EffectView::SetCwd(p@),
        e matches Effect::UpdateWelcomeCwd(p) ==> e@ == EffectView::UpdateWelcomeCwd(p@),
        e matches Effect::UpdateWelcomeModel { provider_name, model, max_tokens } ==> e@ == (
        EffectView::UpdateWelcomeModel { provider_name: provider_name@, model: model@, max_tokens }),
        e matches Effect::InitContextManager { context_size } ==> e@ == (
        EffectView::InitContextManager { context_size }),
        e matches Effect::PeekConversation(id) ==> e@ == EffectView::PeekConversation(id),
        e matches Effect::LoadConversation(id) ==> e@ == EffectView::LoadConversation(id),
        e matches Effect::DeleteConversation(id) ==> e@ == EffectView::DeleteConversation(id),
        e matches Effect::ExportConversation { id, format } ==> e@ == (
        EffectView::ExportConversation { id, format: format@ }),
        e matches Effect::RenameConversation(n) ==> e@ == EffectView::RenameConversation(n@),
{
}

/// What an agent reports is shown whole, with the agent that it comes from.
pub proof fn law_reports_are_shown_whole(e: Effect<String, Vec<Media>>)
    ensures
        e matches Effect::AddRequest { source, input_tokens, output_tokens, cost_bits } ==> e@ == (
        EffectView::AddRequest { source: source@, input_tokens, output_tokens, cost_bits }),
        e matches Effect::AddSourcedMessage { source, content } ==> e@ == (
        EffectView::AddSourcedMessage { source: source@, content: content@ }),
        e matches Effect::AddThinkingMessage { source, content, thinking } ==> e@ == (
        EffectView::AddThinkingMessage { source: source@, content: content@, thinking }),
        e matches Effect::AddToolCall { source, response_id, tool_name, arguments, call_id } ==> e@
            == (EffectView::AddToolCall {
            source: source@,
            response_id: text::opt(response_id),
            tool_name: tool_name@,
            arguments: arguments@,
            call_id: text::opt(call_id),
        }),
        e matches Effect::AddToolResult { source, tool_name, arguments, result, call_id } ==> e@ == (
        EffectView::AddToolResult {
            source: source@,
            tool_name: tool_name@,
            arguments: arguments@,
            result: result@,
            call_id: text::opt(call_id),
        }),
        forall|role: String|
            #![trigger role@]
            (MessageSource::<String>::SubAgent { role })@ == (MessageSource::<Seq<char>>::SubAgent {
                role: role@,
            }),
        (MessageSource::<String>::Human)@ is Human,
{
}

/// Each text of a list is shown by a message of its own, in their order.
pub proof fn law_each_text_is_said(messages: Seq<Seq<char>>)
    ensures
        say_all(messages).len() == messages.len(),
        forall|i: int|
            0 <= i < messages.len() ==> #[trigger] say_all(messages)[i]
                == EffectView::SystemMessage(messages[i]),
{
}

} // verus!
