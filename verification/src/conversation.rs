//! Saved conversations: how they go back to a model, how users refer to them,
//! and how they are listed.

use vstd::prelude::*;
use rig_core::completion::message::{
    DocumentSourceKind, MimeType, ToolResultContent as ProviderContent,
};
use crate::message::{
    assistant_text, user_text, AssistantContent, Media, MediaSource, Message, ToolCall, ToolResult,
    ToolResultContent, UserContent,
};
use crate::models;
use crate::models::ModelRegistry;
use crate::order;
use crate::text;

verus! {

/// A message as it is saved.
#[derive(Debug, PartialEq)]
pub enum StoredMessage {
    User { content: String },
    Assistant { content: String },
    ToolCall { tool_name: String, arguments: String, call_id: Option<String> },
    ToolResult { tool_name: String, result: String, call_id: Option<String> },
    Summary { content: String },
}

/// A saved conversation.
#[derive(Debug, PartialEq)]
pub struct Conversation {
    pub id: u128,
    pub name: String,
    pub provider_name: String,
    pub model: String,
    pub cwd: String,
    pub messages: Vec<StoredMessage>,
}

// ---------------------------------------------------------------------------
// Back to the model
// ---------------------------------------------------------------------------

/// Whether a text is a JSON document.
pub uninterp spec fn is_json(s: Seq<char>) -> bool;

/// `serde_json::from_str` into a generic value: succeeds exactly where the text
/// is a JSON document that the parser accepts.
#[verifier::external_body]
fn json_parses(s: &str) -> (r: bool)
    ensures
        r == is_json(s@),
{
    serde_json::from_str::<serde_json::Value>(s).is_ok()
}

/// One item of a tool's output: whether it is an image; for an image, where its
/// data comes from (0 a URL, 1 base-64 data, 2 an uploaded file, 3 bytes, 4 a text,
/// 5 unknown); its text; its bytes; and its MIME type where it is known.
pub open spec fn part_view(p: ToolResultContent) -> (
    bool,
    int,
    Seq<char>,
    Seq<u8>,
    Option<Seq<char>>,
) {
    match p {
        ToolResultContent::Text(t) => (false, 0, t@, Seq::empty(), None),
        ToolResultContent::Image(m) => {
            let mime = text::opt(m.media_type);
            match m.source {
                MediaSource::Url(u) => (true, 0, u@, Seq::empty(), mime),
                MediaSource::Base64(d) => (true, 1, d@, Seq::empty(), mime),
                MediaSource::FileId(f) => (true, 2, f@, Seq::empty(), mime),
                MediaSource::Raw(b) => (true, 3, Seq::empty(), b@, mime),
                MediaSource::Plain(t) => (true, 4, t@, Seq::empty(), mime),
                MediaSource::Unknown => (true, 5, Seq::empty(), Seq::empty(), mime),
            }
        },
    }
}

/// The items of a tool's output.
pub open spec fn part_views(s: Seq<ToolResultContent>) -> Seq<
    (bool, int, Seq<char>, Seq<u8>, Option<Seq<char>>),
> {
    Seq::new(s.len(), |i: int| part_view(s[i]))
}

/// The items that a tool's output holds.
pub uninterp spec fn tool_output_parts(s: Seq<char>) -> Seq<
    (bool, int, Seq<char>, Seq<u8>, Option<Seq<char>>),
>;

/// `rig_core`'s `ToolResultContent::from_tool_output`: reads a tool's output,
/// which may be JSON that describes images, as one or more items. Output that is
/// no JSON document is one text item, unchanged.
#[verifier::external_body]
fn read_tool_output(s: &str) -> (r: Vec<ToolResultContent>)
    ensures
        part_views(r@) == tool_output_parts(s@),
        r@.len() > 0,
        !is_json(s@) ==> r@.len() == 1 && part_view(r@[0]) == (
            false,
            0int,
            s@,
            Seq::<u8>::empty(),
            None::<Seq<char>>,
        ),
{
    ProviderContent::from_tool_output(s).into_iter().map(|p| match p {
        ProviderContent::Text(t) => ToolResultContent::Text(t.text),
        ProviderContent::Image(i) => ToolResultContent::Image(Media {
            source: match i.data {
                DocumentSourceKind::Url(u) => MediaSource::Url(u),
                DocumentSourceKind::Base64(d) => MediaSource::Base64(d),
                DocumentSourceKind::FileId(f) => MediaSource::FileId(f),
                DocumentSourceKind::Raw(b) => MediaSource::Raw(b),
                DocumentSourceKind::String(t) => MediaSource::Plain(t),
                _ => MediaSource::Unknown,
            },
            media_type: i.media_type.map(|m| m.to_mime_type().to_owned()),
        }),
    }).collect()
}

/// The arguments to send for a saved tool call: the saved ones, or none where
/// they are no JSON document.
pub open spec fn sent_arguments(arguments: Seq<char>, parses: bool) -> Seq<char> {
    if parses {
        arguments
    } else {
        "{}"@
    }
}

/// The id that ties a call to its result: the provider's, or the tool's name.
pub open spec fn call_key(call_id: Option<String>, tool_name: String) -> String {
    match call_id {
        Some(id) => id,
        None => tool_name,
    }
}

/// Whether `m` is what the saved message `s` goes back to the model as.
pub open spec fn restored(s: StoredMessage, m: Message) -> bool {
    match s {
        StoredMessage::User { content } => m matches Message::User { content: c } && c@ == seq![
            UserContent::Text(content),
        ],
        StoredMessage::Assistant { content } => m matches Message::Assistant { id, content: c }
            && id is None && c@ == seq![AssistantContent::Text(content)],
        StoredMessage::ToolCall { tool_name, arguments, call_id } => {
            m matches Message::Assistant { id, content: c } && id is None && c@.len() == 1
                && call_restored(c@[0], tool_name, arguments, call_id)
        },
        StoredMessage::ToolResult { tool_name, result, call_id } => {
            m matches Message::User { content: c } && c@.len() == 1 && result_restored(
                c@[0],
                tool_name,
                result,
                call_id,
            )
        },
        StoredMessage::Summary { content } => m matches Message::User { content: c } && c@.len() == 1
            && (c@[0] matches UserContent::Text(t) && t@ == "[Conversation summary] "@ + content@),
    }
}

/// Whether an item is what a saved tool call goes back as.
pub open spec fn call_restored(
    c: AssistantContent,
    tool_name: String,
    arguments: String,
    call_id: Option<String>,
) -> bool {
    c matches AssistantContent::ToolCall(t) && t.id == call_key(call_id, tool_name)
        && t.call_id is None && t.name == tool_name && t.arguments@ == sent_arguments(
        arguments@,
        is_json(arguments@),
    )
}

/// Whether an item is what a saved tool result goes back as.
pub open spec fn result_restored(
    c: UserContent,
    tool_name: String,
    result: String,
    call_id: Option<String>,
) -> bool {
    c matches UserContent::ToolResult(t) && t.id == call_key(call_id, tool_name)
        && t.call_id is None && part_views(t.content@) == tool_output_parts(result@)
        && t.content@.len() > 0 && (!is_json(result@) ==> t.content@.len() == 1
        && t.content@[0] is Text && t.content@[0]->Text_0@ == result@)
}

/// The item for a saved tool call, where `parses` tells whether the arguments
/// are a JSON document.
pub fn restore_call(
    tool_name: &String,
    arguments: &String,
    call_id: &Option<String>,
    parses: bool,
) -> (r: AssistantContent)
    ensures
        r matches AssistantContent::ToolCall(t) && t.id == call_key(*call_id, *tool_name)
            && t.call_id is None && t.name == *tool_name && t.arguments@ == sent_arguments(
            arguments@,
            parses,
        ),
{
    let id: String = match call_id {
        Some(id) => id.clone(),
        None => tool_name.clone(),
    };
    let args: String = if parses {
        arguments.clone()
    } else {
        "{}".to_owned()
    };
    AssistantContent::ToolCall(
        ToolCall { id, call_id: None, name: tool_name.clone(), arguments: args },
    )
}

/// The item for a saved tool result, from the items its output holds.
pub fn restore_result(
    tool_name: &String,
    parts: Vec<ToolResultContent>,
    call_id: &Option<String>,
) -> (r: UserContent)
    ensures
        r matches UserContent::ToolResult(t) && t.id == call_key(*call_id, *tool_name)
            && t.call_id is None && t.content@ == parts@,
{
    let id: String = match call_id {
        Some(id) => id.clone(),
        None => tool_name.clone(),
    };
    UserContent::ToolResult(ToolResult { id, call_id: None, content: parts })
}

fn restore(s: &StoredMessage) -> (m: Message)
    ensures
        restored(*s, m),
{
    match s {
        StoredMessage::User { content } => user_text(content.clone()),
        StoredMessage::Assistant { content } => assistant_text(content.clone()),
        StoredMessage::ToolCall { tool_name, arguments, call_id } => {
            let parses = json_parses(arguments.as_str());
            let mut content: Vec<AssistantContent> = Vec::new();
            content.push(restore_call(tool_name, arguments, call_id, parses));
            Message::Assistant { id: None, content }
        },
        StoredMessage::ToolResult { tool_name, result, call_id } => {
            let parts = read_tool_output(result.as_str());
            let mut content: Vec<UserContent> = Vec::new();
            content.push(restore_result(tool_name, parts, call_id));
            Message::User { content }
        },
        StoredMessage::Summary { content } => {
            let mut t = "[Conversation summary] ".to_owned();
            t.append(content.as_str());
            user_text(t)
        },
    }
}

/// Turns a saved conversation into the history that a model gets, message by
/// message.
pub fn convert_conversation_to_rig_messages(conv: &Conversation) -> (r: Vec<Message>)
    ensures
        r@.len() == conv.messages@.len(),
        forall|i: int| 0 <= i < r@.len() ==> restored(conv.messages@[i], #[trigger] r@[i]),
{
    let mut r: Vec<Message> = Vec::new();
    let mut i: usize = 0;
    while i < conv.messages.len()
        invariant
            i <= conv.messages@.len(),
            r@.len() == i,
            forall|j: int| 0 <= j < i ==> restored(conv.messages@[j], #[trigger] r@[j]),
        decreases conv.messages@.len() - i,
    {
        r.push(restore(&conv.messages[i]));
        i += 1;
    }
    r
}

/// A saved call and its saved result go back with the same id.
pub proof fn law_call_and_result_share_id(
    tool_name: String,
    arguments: String,
    result: String,
    call_id: Option<String>,
    call: Message,
    answer: Message,
)
    requires
        restored(StoredMessage::ToolCall { tool_name, arguments, call_id }, call),
        restored(StoredMessage::ToolResult { tool_name, result, call_id }, answer),
    ensures
        call matches Message::Assistant { content: a, .. } && (answer matches Message::User {
            content: b,
        } && (a@[0] matches AssistantContent::ToolCall(x) && (b@[0] matches UserContent::ToolResult(
            y,
        ) && x.id == y.id))),
{
}

// ---------------------------------------------------------------------------
// References
// ---------------------------------------------------------------------------

/// What a listing knows of a saved conversation.
#[derive(Debug, PartialEq)]
pub struct ConversationSummary {
    pub id: u128,
    pub name: String,
    pub message_count: usize,
    /// When it last changed, as a number that grows with time.
    pub updated_at: i128,
    /// The same moment as the listing prints it.
    pub updated_text: String,
    pub provider_name: String,
    pub model: String,
}

/// The number by which conversations are ordered, newest first.
pub open spec fn age_key(c: ConversationSummary) -> int {
    -1 - c.updated_at
}

/// The numbers by which conversations are ordered.
pub open spec fn age_keys(s: Seq<ConversationSummary>) -> Seq<int> {
    Seq::new(s.len(), |i: int| age_key(s[i]))
}

/// The positions of the conversations, newest first.
pub open spec fn newest_order(s: Seq<ConversationSummary>) -> Seq<int> {
    order::stable_order(s.len(), order::by_number(age_keys(s)))
}

/// The conversations, newest first.
pub open spec fn newest_first(s: Seq<ConversationSummary>) -> Seq<ConversationSummary> {
    order::pick(s, newest_order(s))
}

fn arrange_newest(s: &[ConversationSummary]) -> (r: Vec<usize>)
    ensures
        order::positions(r@) == newest_order(s@),
        order::arranges(order::positions(r@), s@.len(), order::by_number(age_keys(s@))),
{
    let mut keys: Vec<i128> = Vec::new();
    let mut i: usize = 0;
    while i < s.len()
        invariant
            i <= s@.len(),
            keys@.len() == i,
            forall|j: int| 0 <= j < i ==> (#[trigger] keys@[j]) == age_key(s@[j]),
        decreases s@.len() - i,
    {
        let k: i128 = -1 - s[i].updated_at;
        keys.push(k);
        i += 1;
    }
    assert(order::ints(keys@) =~= age_keys(s@));
    order::arrange_by_number(&keys)
}

/// No conversation of the listing is newer than one before it.
pub proof fn law_newest_first(s: Seq<ConversationSummary>, i: int, j: int)
    requires
        0 <= i < j < s.len(),
    ensures
        newest_first(s).len() == s.len(),
        newest_first(s)[i].updated_at >= newest_first(s)[j].updated_at,
        s.contains(newest_first(s)[i]),
{
    order::lemma_by_number_orders(age_keys(s));
    order::law_stable_order_arranges(s.len(), order::by_number(age_keys(s)));
    let o = newest_order(s);
    assert(order::by_number(age_keys(s))(o[i], o[j]));
    assert(s[o[i]] == newest_first(s)[i]);
}

/// The identifier that a text denotes.
pub uninterp spec fn uuid_of(s: Seq<char>) -> Option<u128>;

/// `uuid::Uuid::parse_str`: the identifier that the text denotes in one of the
/// notations for UUIDs, as a number.
#[verifier::external_body]
pub(crate) fn parse_uuid(s: &str) -> (r: Option<u128>)
    ensures
        r == uuid_of(s@),
{
    uuid::Uuid::parse_str(s).ok().map(|u| u.as_u128())
}

/// The conversation that a number refers to, counted from one.
pub open spec fn by_index(n: nat, list: Option<Seq<ConversationSummary>>) -> Result<
    u128,
    Seq<char>,
> {
    if n == 0 {
        Err("Indices are 1-based. Use /conversations to see available items."@)
    } else {
        match list {
            None => Err("Conversation storage is not configured."@),
            Some(l) => if n <= l.len() {
                Ok(newest_first(l)[n - 1].id)
            } else {
                Err(
                    "Index "@ + text::decimal(n) + " not found. /conversations shows "@
                        + text::decimal(l.len()) + " saved conversation(s)."@,
                )
            },
        }
    }
}

/// The conversation that a user's reference means: a number counts the listing
/// from one, anything else must be an identifier.
pub open spec fn referenced(
    arg: Seq<char>,
    uuid: Option<u128>,
    list: Option<Seq<ConversationSummary>>,
) -> Result<u128, Seq<char>> {
    match text::parse_size(arg) {
        Some(n) => by_index(n as nat, list),
        None => match uuid {
            Some(id) => Ok(id),
            None => Err("Invalid argument. Pass an index from /conversations or a full UUID."@),
        },
    }
}

/// A result with its message as a character sequence.
pub open spec fn plain<T>(r: Result<T, String>) -> Result<T, Seq<char>> {
    match r {
        Ok(x) => Ok(x),
        Err(m) => Err(m@),
    }
}

/// A list behind a reference.
pub open spec fn list_of(l: Option<&[ConversationSummary]>) -> Option<Seq<ConversationSummary>> {
    match l {
        Some(s) => Some(s@),
        None => None,
    }
}

/// Resolves a user's reference, where `uuid` is the identifier that it denotes,
/// if any. Without a list, conversations are not stored at all.
pub fn resolve_reference(
    arg: &str,
    uuid: Option<u128>,
    list: Option<&[ConversationSummary]>,
) -> (r: Result<u128, String>)
    ensures
        plain(r) == referenced(arg@, uuid, list_of(list)),
{
    match text::parse_size_text(arg) {
        Some(n) => {
            if n == 0 {
                return Err(
                    "Indices are 1-based. Use /conversations to see available items.".to_owned(),
                );
            }
            match list {
                None => Err("Conversation storage is not configured.".to_owned()),
                Some(l) => {
                    if n <= l.len() {
                        let order = arrange_newest(l);
                        assert(order::positions(order@)[n - 1] == order@[n - 1]);
                        Ok(l[order[n - 1]].id)
                    } else {
                        let mut m = "Index ".to_owned();
                        m.append(text::decimal_text(n as u64).as_str());
                        m.append(" not found. /conversations shows ");
                        m.append(text::decimal_text(l.len() as u64).as_str());
                        m.append(" saved conversation(s).");
                        Err(m)
                    }
                },
            }
        },
        None => match uuid {
            Some(id) => Ok(id),
            None => Err(
                "Invalid argument. Pass an index from /conversations or a full UUID.".to_owned(),
            ),
        },
    }
}

/// Resolves a user's reference to a conversation.
pub fn resolve_conversation_id(arg: &str, list: Option<&[ConversationSummary]>) -> (r: Result<
    u128,
    String,
>)
    ensures
        plain(r) == referenced(arg@, uuid_of(arg@), list_of(list)),
{
    resolve_reference(arg, parse_uuid(arg), list)
}

// ---------------------------------------------------------------------------
// The listing
// ---------------------------------------------------------------------------

/// A text with spaces in front of it up to a width of three.
pub open spec fn padded(s: Seq<char>) -> Seq<char> {
    if s.len() == 1 {
        "  "@ + s
    } else if s.len() == 2 {
        " "@ + s
    } else {
        s
    }
}

/// How the listing names a conversation's model: by its alias where it can be
/// activated; with a warning where it cannot; and by its wire identity alone
/// where no models are declared.
pub open spec fn model_tag(c: ConversationSummary, registry: Option<ModelRegistry>) -> Seq<char> {
    match registry {
        Some(r) => match models::find_wire(r.models@, c.provider_name@, c.model@) {
            Some(m) => m.alias@ + " · "@ + c.provider_name@ + "/"@ + c.model@,
            None => if c.provider_name@.len() == 0 {
                "(pre-v5) "@ + c.model@ + " ⚠ unavailable"@
            } else {
                c.provider_name@ + "/"@ + c.model@ + " ⚠ unavailable"@
            },
        },
        None => if c.provider_name@.len() == 0 {
            c.model@
        } else {
            c.provider_name@ + "/"@ + c.model@
        },
    }
}

/// One line of the listing.
pub open spec fn listing_row(
    c: ConversationSummary,
    n: nat,
    current: Option<u128>,
    registry: Option<ModelRegistry>,
) -> Seq<char> {
    let marker = if current == Some(c.id) {
        "▶ "@
    } else {
        "   "@
    };
    marker + padded(text::decimal(n)) + "  "@ + c.name@ + "  "@ + text::decimal(
        c.message_count as nat,
    ) + " msgs  "@ + c.updated_text@ + "  "@ + model_tag(c, registry) + "\n"@
}

/// The lines of the listing, numbered from one.
pub open spec fn listing_rows(
    s: Seq<ConversationSummary>,
    current: Option<u128>,
    registry: Option<ModelRegistry>,
) -> Seq<char>
    decreases s.len(),
{
    if s.len() == 0 {
        Seq::empty()
    } else {
        listing_rows(s.drop_last(), current, registry) + listing_row(
            s.last(),
            s.len(),
            current,
            registry,
        )
    }
}

/// The listing of saved conversations.
pub open spec fn listing_text(
    list: Option<Seq<ConversationSummary>>,
    current: Option<u128>,
    registry: Option<ModelRegistry>,
) -> Seq<char> {
    match list {
        None => "Conversation storage is not configured."@,
        Some(l) => if l.len() == 0 {
            "No saved conversations."@
        } else {
            "Saved conversations ("@ + text::decimal(l.len()) + "):\n"@ + listing_rows(
                newest_first(l),
                current,
                registry,
            )
                + "\nUse /load <n> to resume, /delete <n> to remove. UUIDs also accepted."@
        },
    }
}

/// The registry behind a reference.
pub open spec fn registry_of(r: Option<&ModelRegistry>) -> Option<ModelRegistry> {
    match r {
        Some(m) => Some(*m),
        None => None,
    }
}

fn tag_of(c: &ConversationSummary, registry: Option<&ModelRegistry>) -> (r: String)
    ensures
        r@ == model_tag(*c, registry_of(registry)),
{
    let empty = c.provider_name.as_str().is_empty();
    match registry {
        Some(reg) => match reg.find_by_wire_id(c.provider_name.as_str(), c.model.as_str()) {
            Some(m) => {
                let mut s = m.alias.clone();
                s.append(" · ");
                s.append(c.provider_name.as_str());
                s.append("/");
                s.append(c.model.as_str());
                s
            },
            None => {
                let mut s: String;
                if empty {
                    s = "(pre-v5) ".to_owned();
                } else {
                    s = c.provider_name.clone();
                    s.append("/");
                }
                s.append(c.model.as_str());
                s.append(" ⚠ unavailable");
                s
            },
        },
        None => if empty {
            c.model.clone()
        } else {
            let mut s = c.provider_name.clone();
            s.append("/");
            s.append(c.model.as_str());
            s
        },
    }
}

fn padded_number(n: u64) -> (r: String)
    ensures
        r@ == padded(text::decimal(n as nat)),
{
    let d = text::decimal_text(n);
    let len: usize = d.as_str().unicode_len();
    if len == 1 {
        let mut s = "  ".to_owned();
        s.append(d.as_str());
        s
    } else if len == 2 {
        let mut s = " ".to_owned();
        s.append(d.as_str());
        s
    } else {
        d
    }
}

fn row_of(
    c: &ConversationSummary,
    n: u64,
    current: Option<u128>,
    registry: Option<&ModelRegistry>,
) -> (r: String)
    ensures
        r@ == listing_row(*c, n as nat, current, registry_of(registry)),
{
    let is_current = match current {
        Some(id) => id == c.id,
        None => false,
    };
    let mut s: String = if is_current {
        "▶ ".to_owned()
    } else {
        "   ".to_owned()
    };
    s.append(padded_number(n).as_str());
    s.append("  ");
    s.append(c.name.as_str());
    s.append("  ");
    s.append(text::decimal_text(c.message_count as u64).as_str());
    s.append(" msgs  ");
    s.append(c.updated_text.as_str());
    s.append("  ");
    s.append(tag_of(c, registry).as_str());
    s.append("\n");
    s
}

/// Renders the listing of saved conversations, newest first.
pub fn render_conversations(
    list: Option<&[ConversationSummary]>,
    current: Option<u128>,
    registry: Option<&ModelRegistry>,
) -> (r: String)
    ensures
        r@ == listing_text(list_of(list), current, registry_of(registry)),
{
    let l = match list {
        None => {
            return "Conversation storage is not configured.".to_owned();
        },
        Some(l) => l,
    };
    if l.len() == 0 {
        return "No saved conversations.".to_owned();
    }
    let order = arrange_newest(l);
    let ghost o = order::positions(order@);
    let ghost s = newest_first(l@);
    let mut rows = String::new();
    let mut i: usize = 0;
    assert(s.take(0) =~= Seq::<ConversationSummary>::empty());
    while i < order.len()
        invariant
            o == order::positions(order@),
            o == newest_order(l@),
            s == newest_first(l@),
            order::arranges(o, l@.len(), order::by_number(age_keys(l@))),
            i <= order@.len(),
            rows@ == listing_rows(s.take(i as int), current, registry_of(registry)),
        decreases order@.len() - i,
    {
        assert(0 <= o[i as int] < l@.len());
        assert(s.take(i + 1).drop_last() =~= s.take(i as int));
        assert(s.take(i + 1).last() == l@[order@[i as int] as int]);
        let row = row_of(&l[order[i]], (i as u64) + 1, current, registry);
        rows.append(row.as_str());
        i += 1;
    }
    assert(s.take(s.len() as int) =~= s);
    let mut m = "Saved conversations (".to_owned();
    m.append(text::decimal_text(l.len() as u64).as_str());
    m.append("):\n");
    m.append(rows.as_str());
    m.append("\nUse /load <n> to resume, /delete <n> to remove. UUIDs also accepted.");
    m
}

/// A saved conversation goes back whole: what the user and the assistant said word for
/// word, a summary behind its mark, a call with its tool and its arguments, and a result
/// as its tool gave it. Arguments that are no JSON document go back as none.
pub proof fn law_message_goes_back_whole(s: StoredMessage, m: Message)
    requires
        restored(s, m),
    ensures
        s matches StoredMessage::User { content } ==> m is User && m->User_content@.len() == 1
            && m->User_content@[0] == UserContent::Text(content),
        s matches StoredMessage::Assistant { content } ==> m is Assistant
            && m->Assistant_content@.len() == 1 && m->Assistant_content@[0]
            == AssistantContent::Text(content),
        s matches StoredMessage::Summary { content } ==> m is User && m->User_content@.len() == 1
            && m->User_content@[0] is Text && m->User_content@[0]->Text_0@
            == "[Conversation summary] "@ + content@,
        s matches StoredMessage::ToolCall { tool_name, arguments, call_id } ==> {
            &&& m is Assistant && m->Assistant_content@.len() == 1
                && m->Assistant_content@[0] is ToolCall
            &&& m->Assistant_content@[0]->ToolCall_0.name == tool_name
            &&& m->Assistant_content@[0]->ToolCall_0.id == (if call_id is Some {
                call_id->0
            } else {
                tool_name
            })
            &&& is_json(arguments@) ==> m->Assistant_content@[0]->ToolCall_0.arguments@
                == arguments@
            &&& !is_json(arguments@) ==> m->Assistant_content@[0]->ToolCall_0.arguments@ == "{}"@
        },
        s matches StoredMessage::ToolResult { tool_name, result, call_id } ==> {
            &&& m is User && m->User_content@.len() == 1 && m->User_content@[0] is ToolResult
            &&& m->User_content@[0]->ToolResult_0.id == (if call_id is Some {
                call_id->0
            } else {
                tool_name
            })
            &&& m->User_content@[0]->ToolResult_0.content@.len() > 0
            &&& !is_json(result@) ==> {
                let items = m->User_content@[0]->ToolResult_0.content@;
                items.len() == 1 && items[0] is Text && items[0]->Text_0@ == result@
            }
        },
{
}

/// Ordering by age loses no conversation and adds none: `o` gives the place from which
/// each comes. Of two that changed at one moment the earlier listed stays first.
pub proof fn law_newest_first_keeps_all(s: Seq<ConversationSummary>) -> (o: Seq<int>)
    ensures
        newest_first(s).len() == s.len(),
        o.len() == s.len(),
        o.no_duplicates(),
        forall|i: int|
            0 <= i < o.len() ==> 0 <= #[trigger] o[i] < s.len() && newest_first(s)[i] == s[o[i]],
        forall|i: int, j: int|
            0 <= i < j < o.len() ==> s[#[trigger] o[i]].updated_at >= s[#[trigger] o[j]].updated_at,
        forall|i: int, j: int|
            0 <= i < j < o.len() && s[#[trigger] o[i]].updated_at == s[#[trigger] o[j]].updated_at
                ==> o[i] < o[j],
{
    let le = order::by_number(age_keys(s));
    order::lemma_by_number_orders(age_keys(s));
    order::law_stable_order_arranges(s.len(), le);
    let o = newest_order(s);
    assert forall|i: int, j: int| 0 <= i < j < o.len() implies s[#[trigger] o[i]].updated_at
        >= s[#[trigger] o[j]].updated_at && (s[o[i]].updated_at == s[o[j]].updated_at ==> o[i]
        < o[j]) by {
        assert(le(o[i], o[j]));
        assert(age_keys(s)[o[i]] == -1 - s[o[i]].updated_at);
        assert(age_keys(s)[o[j]] == -1 - s[o[j]].updated_at);
        if s[o[i]].updated_at == s[o[j]].updated_at {
            assert(le(o[j], o[i]));
        }
    }
    o
}

/// The number of a row of the listing refers to the conversation of that row; no other
/// number refers to any.
pub proof fn law_number_refers_to_its_row(
    n: usize,
    uuid: Option<u128>,
    l: Seq<ConversationSummary>,
)
    ensures
        1 <= n <= l.len() ==> referenced(text::decimal(n as nat), uuid, Some(l)) == Ok::<
            u128,
            Seq<char>,
        >(newest_first(l)[n - 1].id),
        n == 0 || n > l.len() ==> referenced(text::decimal(n as nat), uuid, Some(l)) is Err,
        referenced(text::decimal(n as nat), uuid, None) is Err,
{
    text::law_numbers_are_read_back(n, Seq::empty());
}

/// What is no number refers to the conversation with that identifier, whatever is
/// listed; and to none where it is no identifier either.
pub proof fn law_identifier_refers_to_itself(
    arg: Seq<char>,
    uuid: Option<u128>,
    list: Option<Seq<ConversationSummary>>,
)
    requires
        text::parse_size(arg) is None,
    ensures
        uuid is Some ==> referenced(arg, uuid, list) == Ok::<u128, Seq<char>>(uuid->0),
        uuid is None ==> referenced(arg, uuid, list) is Err,
{
}

/// The listing has a row for every conversation, newest first, with its number, its
/// name, its size, its date and its model. The mark stands at the current one alone.
pub proof fn law_listing_has_every_conversation(
    l: Seq<ConversationSummary>,
    current: Option<u128>,
    registry: Option<ModelRegistry>,
    i: int,
) -> (r: (Seq<char>, Seq<char>))
    requires
        0 <= i < l.len(),
    ensures
        ({
            let c = newest_first(l)[i];
            listing_text(Some(l), current, registry) == r.0 + ((if current == Some(c.id) {
                "▶ "@
            } else {
                "   "@
            }) + padded(text::decimal((i + 1) as nat)) + "  "@ + c.name@ + "  "@ + text::decimal(
                c.message_count as nat,
            ) + " msgs  "@ + c.updated_text@ + "  "@ + model_tag(c, registry) + "\n"@) + r.1
        }),
        i > 0 ==> r.0 == "Saved conversations ("@ + text::decimal(l.len()) + "):\n"@ + listing_rows(
            newest_first(l).take(i),
            current,
            registry,
        ),
{
    let s = newest_first(l);
    let o = law_newest_first_keeps_all(l);
    let (a, b) = lemma_row_at(s, current, registry, i);
    let head = "Saved conversations ("@ + text::decimal(l.len()) + "):\n"@;
    let foot = "\nUse /load <n> to resume, /delete <n> to remove. UUIDs also accepted."@;
    let row = listing_row(s[i], (i + 1) as nat, current, registry);
    assert(listing_text(Some(l), current, registry) =~= (head + a) + row + (b + foot));
    (head + a, b + foot)
}

proof fn lemma_row_at(
    s: Seq<ConversationSummary>,
    current: Option<u128>,
    registry: Option<ModelRegistry>,
    i: int,
) -> (r: (Seq<char>, Seq<char>))
    requires
        0 <= i < s.len(),
    ensures
        listing_rows(s, current, registry) == r.0 + listing_row(
            s[i],
            (i + 1) as nat,
            current,
            registry,
        ) + r.1,
        r.0 == listing_rows(s.take(i), current, registry),
    decreases s.len(),
{
    let d = s.drop_last();
    let last = listing_row(s.last(), s.len(), current, registry);
    if i == s.len() - 1 {
        assert(s.take(i) =~= d);
        assert(listing_rows(s, current, registry) =~= listing_rows(d, current, registry) + last
            + Seq::<char>::empty());
        (listing_rows(d, current, registry), Seq::empty())
    } else {
        let (a, b) = lemma_row_at(d, current, registry, i);
        assert(d.take(i) =~= s.take(i));
        let row = listing_row(s[i], (i + 1) as nat, current, registry);
        assert(listing_rows(s, current, registry) =~= a + row + (b + last));
        (a, b + last)
    }
}

/// A conversation's model is shown by the alias of a declared model exactly where one has
/// its provider and its name; else, where models are declared, as not available.
pub proof fn law_model_is_tagged(c: ConversationSummary, registry: ModelRegistry, i: int)
    ensures
        0 <= i < registry.models@.len() && registry.models@[i].provider_name@ == c.provider_name@
            && registry.models@[i].model_name@ == c.model@ && (forall|j: int|
            0 <= j < i ==> (#[trigger] registry.models@[j]).provider_name@ != c.provider_name@
                || registry.models@[j].model_name@ != c.model@) ==> model_tag(c, Some(registry))
            == registry.models@[i].alias@ + " · "@ + c.provider_name@ + "/"@ + c.model@,
        (forall|j: int|
            0 <= j < registry.models@.len() ==> (#[trigger] registry.models@[j]).provider_name@
                != c.provider_name@ || registry.models@[j].model_name@ != c.model@) ==> model_tag(
            c,
            Some(registry),
        ) == (if c.provider_name@.len() == 0 {
            "(pre-v5) "@
        } else {
            c.provider_name@ + "/"@
        }) + c.model@ + " ⚠ unavailable"@,
        model_tag(c, None) == (if c.provider_name@.len() == 0 {
            c.model@
        } else {
            c.provider_name@ + "/"@ + c.model@
        }),
{
    models::law_wire_leads_to_the_first(registry.models@, c.provider_name@, c.model@, i);
}

/// A number is padded with spaces in front up to three characters, and never cut.
pub proof fn law_padding(s: Seq<char>)
    ensures
        s.len() >= 3 ==> padded(s) == s,
        0 < s.len() < 3 ==> padded(s).len() == 3,
        s.len() > 0 ==> padded(s).skip(padded(s).len() - s.len()) == s,
        forall|i: int|
            0 <= i < padded(s).len() - s.len() ==> #[trigger] padded(s)[i] == ' ',
{
    reveal_strlit("  ");
    reveal_strlit(" ");
    assert(padded(s).skip(padded(s).len() - s.len()) =~= s);
}

/// A list and a registry behind a reference are the list and the registry, and a result is
/// shown with its message.
pub proof fn law_references_are_followed(
    l: &[ConversationSummary],
    r: &ModelRegistry,
    id: u128,
    m: String,
)
    ensures
        list_of(Some(l)) == Some(l@),
        list_of(None) is None,
        registry_of(Some(r)) == Some(*r),
        registry_of(None) is None,
        plain(Ok::<u128, String>(id)) == Ok::<u128, Seq<char>>(id),
        plain(Err::<u128, String>(m)) == Err::<u128, Seq<char>>(m@),
{
}

/// The items of a tool's output are told apart: two outputs that differ in an item's text,
/// bytes, kind, source or type differ in what is shown of them.
pub proof fn law_tool_output_is_shown_whole(a: ToolResultContent, b: ToolResultContent)
    requires
        part_view(a) == part_view(b),
    ensures
        a is Text <==> b is Text,
        a is Text ==> a->Text_0@ == b->Text_0@,
        a is Image ==> text::opt(a->Image_0.media_type) == text::opt(b->Image_0.media_type),
        a is Image ==> match (a->Image_0.source, b->Image_0.source) {
            (MediaSource::Url(x), MediaSource::Url(y)) => x@ == y@,
            (MediaSource::Base64(x), MediaSource::Base64(y)) => x@ == y@,
            (MediaSource::FileId(x), MediaSource::FileId(y)) => x@ == y@,
            (MediaSource::Raw(x), MediaSource::Raw(y)) => x@ == y@,
            (MediaSource::Plain(x), MediaSource::Plain(y)) => x@ == y@,
            (MediaSource::Unknown, MediaSource::Unknown) => true,
            _ => false,
        },
{
}

} // verus!
