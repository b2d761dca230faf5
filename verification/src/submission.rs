//! What becomes of a text that the user submits.

use vstd::prelude::*;
use crate::message::Media;
use crate::text;

verus! {

/// What a look for inline images in a submitted text found.
#[derive(Debug, PartialEq)]
pub enum AttachmentScan {
    /// The text without the image tokens, and the images. A text without tokens
    /// gives no images.
    Parsed { text: String, attachments: Vec<Media> },
    /// A token that cannot be used; the message says why.
    Failed(String),
}

/// What a `/pipeline` command asks for.
#[derive(Debug, PartialEq)]
pub enum PipelineSubmission {
    /// Show the teams.
    List,
    /// Bind the conversation to a team, or clear the binding.
    Bind(Option<String>),
}

/// How a submitted text is routed.
#[derive(Debug, PartialEq)]
pub enum SubmitKind {
    /// `/stop`: interrupt the agent.
    StopCommand,
    /// Any other command.
    Command(String),
    /// Plain chat content.
    UserMessage(String),
    /// Chat content with images.
    MultimodalMessage { text: String, attachments: Vec<Media> },
    /// An image token that cannot be used.
    InvalidAttachment(String),
    /// `/pipeline`.
    PipelineCommand(PipelineSubmission),
}

/// What follows `/pipeline` in a trimmed text, where the text is that command:
/// the name ends there or white space follows.
pub open spec fn pipeline_rest(t: Seq<char>) -> Option<Seq<char>> {
    match text::after_prefix(t, "/pipeline"@) {
        Some(rest) => if rest.len() == 0 || text::is_space(rest[0]) {
            Some(rest)
        } else {
            None
        },
        None => None,
    }
}

/// Whether a team's name means that none is wanted.
pub open spec fn clears(arg: Seq<char>) -> bool {
    text::ascii_lowercase(arg) == "none"@ || text::ascii_lowercase(arg) == "off"@
}

/// Whether `s` is what the argument of `/pipeline` asks for.
pub open spec fn asks(arg: Seq<char>, s: PipelineSubmission) -> bool {
    if arg.len() == 0 {
        s is List
    } else if clears(arg) {
        s matches PipelineSubmission::Bind(None)
    } else {
        s matches PipelineSubmission::Bind(Some(name)) && name@ == arg
    }
}

/// Whether a text is a command of any kind: it opens with a slash, blanks aside.
pub open spec fn is_command(msg: Seq<char>) -> bool {
    text::trim(msg).len() > 0 && text::trim(msg)[0] == '/'
}

/// Whether `k` is how a submitted text is routed. Blanks around the text do not
/// count for the decision; a command or a message keeps them.
pub open spec fn routed(msg: Seq<char>, scan: AttachmentScan, k: SubmitKind) -> bool {
    let t = text::trim(msg);
    if t == "/stop"@ {
        k is StopCommand
    } else if pipeline_rest(t) is Some {
        k matches SubmitKind::PipelineCommand(s) && asks(text::trim(pipeline_rest(t)->0), s)
    } else if is_command(msg) {
        k matches SubmitKind::Command(c) && c@ == msg
    } else {
        match scan {
            AttachmentScan::Failed(e) => k == SubmitKind::InvalidAttachment(e),
            AttachmentScan::Parsed { text: plain, attachments } => if attachments@.len() > 0 {
                k matches SubmitKind::MultimodalMessage { text: x, attachments: a } && x@
                    == text::trim(plain@) && a == attachments
            } else {
                k matches SubmitKind::UserMessage(m) && m@ == msg
            },
        }
    }
}

/// Whether a text is chat content, so that it has to be scanned for images.
pub fn needs_scan(msg: &str) -> (r: bool)
    ensures
        r == !is_command(msg@),
{
    !starts_with_slash(text::trim_text(msg).as_str())
}

fn starts_with_slash(msg: &str) -> (r: bool)
    ensures
        r == (msg@.len() > 0 && msg@[0] == '/'),
{
    let cs = text::chars_of(msg);
    cs.len() > 0 && cs[0] == '/'
}

fn pipeline_argument(t: &str) -> (r: Option<String>)
    ensures
        match r {
            Some(a) => pipeline_rest(t@) matches Some(rest) && a@ == text::trim(rest),
            None => pipeline_rest(t@) is None,
        },
{
    match text::strip_text_prefix(t, "/pipeline") {
        Some(rest) => {
            let cs = text::chars_of(rest.as_str());
            if cs.len() == 0 || text::char_is_space(cs[0]) {
                Some(text::trim_text(rest.as_str()))
            } else {
                None
            }
        },
        None => None,
    }
}

/// Whether a team's name means that none is wanted.
pub fn means_none(arg: &str) -> (r: bool)
    ensures
        r == clears(arg@),
{
    let lower = text::ascii_lowercase_text(arg);
    text::same(lower.as_str(), "none") || text::same(lower.as_str(), "off")
}

/// Routes a submitted text. The scan for images counts only where the text is
/// chat content.
pub fn classify_submission(msg: &str, scan: AttachmentScan) -> (k: SubmitKind)
    ensures
        routed(msg@, scan, k),
{
    let t = text::trim_text(msg);
    if text::same(t.as_str(), "/stop") {
        return SubmitKind::StopCommand;
    }
    if let Some(arg) = pipeline_argument(t.as_str()) {
        let s: PipelineSubmission = if arg.as_str().is_empty() {
            PipelineSubmission::List
        } else if means_none(arg.as_str()) {
            PipelineSubmission::Bind(None)
        } else {
            PipelineSubmission::Bind(Some(arg))
        };
        return SubmitKind::PipelineCommand(s);
    }
    if starts_with_slash(t.as_str()) {
        return SubmitKind::Command(msg.to_owned());
    }
    match scan {
        AttachmentScan::Failed(e) => SubmitKind::InvalidAttachment(e),
        AttachmentScan::Parsed { text: plain, attachments } => if attachments.len() > 0 {
            SubmitKind::MultimodalMessage {
                text: text::trim_text(plain.as_str()),
                attachments,
            }
        } else {
            SubmitKind::UserMessage(msg.to_owned())
        },
    }
}

/// A text that opens with a slash, behind blanks or not, never becomes a turn of
/// the model, and what the scan found does not matter for a command.
pub proof fn law_commands_never_reach_the_model(
    msg: Seq<char>,
    scan: AttachmentScan,
    other: AttachmentScan,
    k: SubmitKind,
)
    requires
        is_command(msg),
        routed(msg, scan, k),
    ensures
        !(k is UserMessage),
        !(k is MultimodalMessage),
        !(k is InvalidAttachment),
        routed(msg, other, k),
        k matches SubmitKind::Command(c) ==> c@ == msg,
{
}

/// Chat content is never run as a command: only a text that opens with a slash,
/// blanks aside, is.
pub proof fn law_chat_is_never_a_command(msg: Seq<char>, scan: AttachmentScan, k: SubmitKind)
    requires
        !is_command(msg),
        routed(msg, scan, k),
    ensures
        k is UserMessage || k is MultimodalMessage || k is InvalidAttachment,
        k matches SubmitKind::UserMessage(m) ==> m@ == msg,
{
    reveal_strlit("/pipeline");
    reveal_strlit("/stop");
    let t = text::trim(msg);
    if pipeline_rest(t) is Some {
        assert(t.take("/pipeline"@.len() as int)[0] == '/');
    }
}

/// A longer word that begins with `/pipeline` is not that command.
pub proof fn law_longer_words_are_other_commands(msg: Seq<char>, scan: AttachmentScan, k: SubmitKind)
    requires
        text::after_prefix(text::trim(msg), "/pipeline"@) matches Some(rest) && rest.len() > 0
            && !text::is_space(rest[0]),
        routed(msg, scan, k),
    ensures
        k matches SubmitKind::Command(c) && c@ == msg,
{
    reveal_strlit("/pipeline");
    reveal_strlit("/stop");
    let t = text::trim(msg);
    assert(t.take("/pipeline"@.len() as int)[0] == '/');
    assert(t[0] == '/');
    assert(t.len() > 9);
}

/// A text is a stop exactly where it is that word, blanks aside; and it is about teams
/// exactly where it opens with that word, alone or with white space behind it.
pub proof fn law_words_are_recognised(msg: Seq<char>, scan: AttachmentScan, k: SubmitKind)
    requires
        routed(msg, scan, k),
    ensures
        ({
            let t = text::trim(msg);
            &&& k is StopCommand <==> t == "/stop"@
            &&& k is PipelineCommand <==> t.len() >= 9 && t.take(9) == "/pipeline"@ && (t.len() == 9
                || text::is_space(t[9]))
            &&& k is Command <==> t.len() > 0 && t[0] == '/' && !(k is StopCommand) && !(
            k is PipelineCommand)
        }),
{
    reveal_strlit("/pipeline");
    reveal_strlit("/stop");
    let t = text::trim(msg);
    if t.len() > 9 && t.take(9) == "/pipeline"@ {
        assert(t.skip(9)[0] == t[9]);
    }
    if t == "/stop"@ {
        assert(t.len() == 5);
    }
    if t.len() >= 9 && t.take(9) == "/pipeline"@ {
        assert(t.take(9)[0] == '/');
        assert(t[0] == '/');
    }
}

/// What is asked of the teams: without a name they are listed; the words for none clear
/// the binding, in capitals or not; any other name is bound as it is typed, without the
/// white space around it.
pub proof fn law_team_is_asked_for(arg: Seq<char>, s: PipelineSubmission)
    requires
        asks(arg, s),
    ensures
        s is List <==> arg.len() == 0,
        s matches PipelineSubmission::Bind(None) ==> text::ascii_lowercase(arg) == "none"@
            || text::ascii_lowercase(arg) == "off"@,
        s matches PipelineSubmission::Bind(Some(name)) ==> name@ == arg && arg.len() > 0
            && text::ascii_lowercase(arg) != "none"@ && text::ascii_lowercase(arg) != "off"@,
{
}

/// The argument of the command for teams is what stands behind its word, without the
/// white space around it.
pub proof fn law_team_argument(msg: Seq<char>, scan: AttachmentScan, k: SubmitKind)
    requires
        routed(msg, scan, k),
        k is PipelineCommand,
    ensures
        asks(text::trim(text::trim(msg).skip(9)), k->PipelineCommand_0),
{
    reveal_strlit("/pipeline");
}

/// Chat content goes on as it was typed; with images it goes on as the scan left it,
/// trimmed, and with every image; a bad image token stops it with the scan's message.
pub proof fn law_chat_goes_on(msg: Seq<char>, scan: AttachmentScan, k: SubmitKind)
    requires
        routed(msg, scan, k),
        !(text::trim(msg).len() > 0 && text::trim(msg)[0] == '/'),
    ensures
        scan matches AttachmentScan::Failed(e) ==> k == SubmitKind::InvalidAttachment(e),
        scan matches AttachmentScan::Parsed { text: plain, attachments } ==> {
            &&& attachments@.len() == 0 ==> k is UserMessage && k->UserMessage_0@ == msg
            &&& attachments@.len() > 0 ==> k is MultimodalMessage && k->text@ == text::trim(plain@)
                && k->attachments == attachments
        },
{
    law_chat_is_never_a_command(msg, scan, k);
}

} // verus!
