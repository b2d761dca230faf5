//! Chat messages as the library reads them: plain values, with tool arguments
//! held as JSON text.

use vstd::prelude::*;

verus! {

/// Where the data of a media item comes from.
#[derive(Debug, Clone, PartialEq)]
pub enum MediaSource {
    /// A URL that the provider fetches.
    Url(String),
    /// Base-64 encoded data.
    Base64(String),
    /// A file that was uploaded to the provider, by its identifier.
    FileId(String),
    /// The bytes themselves.
    Raw(Vec<u8>),
    /// A text.
    Plain(String),
    /// Nothing is known of the source.
    Unknown,
}

/// An image, a recording, a video or a document.
#[derive(Debug, Clone, PartialEq)]
pub struct Media {
    pub source: MediaSource,
    /// The MIME type, where it is known.
    pub media_type: Option<String>,
}

/// One item of what a tool gave back.
#[derive(Debug, Clone, PartialEq)]
pub enum ToolResultContent {
    Text(String),
    Image(Media),
}

/// What a tool gave back for one call.
#[derive(Debug, Clone, PartialEq)]
pub struct ToolResult {
    pub id: String,
    pub call_id: Option<String>,
    pub content: Vec<ToolResultContent>,
}

/// One item of a user message.
#[derive(Debug, Clone, PartialEq)]
pub enum UserContent {
    Text(String),
    ToolResult(ToolResult),
    Image(Media),
    Audio(Media),
    Video(Media),
    Document(Media),
}

/// A tool call that the assistant asked for.
#[derive(Debug, Clone, PartialEq)]
pub struct ToolCall {
    pub id: String,
    pub call_id: Option<String>,
    pub name: String,
    /// The arguments as JSON text.
    pub arguments: String,
}

/// One item of an assistant message.
#[derive(Debug, Clone, PartialEq)]
pub enum AssistantContent {
    Text(String),
    ToolCall(ToolCall),
    Reasoning(String),
    Image(Media),
}

/// A chat message.
#[allow(inconsistent_fields)]
#[derive(Debug, Clone, PartialEq)]
pub enum Message {
    System { content: String },
    User { content: Vec<UserContent> },
    Assistant { id: Option<String>, content: Vec<AssistantContent> },
}

/// A user message with one text item.
pub fn user_text(content: String) -> (m: Message)
    ensures
        m matches Message::User { content: c } && c@ == seq![UserContent::Text(content)],
{
    let mut c: Vec<UserContent> = Vec::new();
    c.push(UserContent::Text(content));
    assert(c@ =~= seq![UserContent::Text(content)]);
    Message::User { content: c }
}

/// An assistant message with one text item.
pub fn assistant_text(content: String) -> (m: Message)
    ensures
        m matches Message::Assistant { id, content: c } && id is None && c@ == seq![
            AssistantContent::Text(content),
        ],
{
    let mut c: Vec<AssistantContent> = Vec::new();
    c.push(AssistantContent::Text(content));
    assert(c@ =~= seq![AssistantContent::Text(content)]);
    Message::Assistant { id: None, content: c }
}

} // verus!
