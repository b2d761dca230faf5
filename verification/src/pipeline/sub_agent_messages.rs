//! A sub-agent's own messages, kept so that a terse final answer loses nothing.
//!
//! The messages go to a file and the result carries a pointer to it. The final
//! reply is not among them: it is the result itself.

use vstd::prelude::*;
use crate::message::{AssistantContent, Message};
use crate::text;

verus! {

/// How many of the sub-agent's messages are kept.
pub const KEEP: usize = 10;

/// The text items of an assistant message.
pub open spec fn text_items(s: Seq<AssistantContent>) -> Seq<Seq<char>>
    decreases s.len(),
{
    if s.len() == 0 {
        Seq::empty()
    } else {
        let before = text_items(s.drop_last());
        match s.last() {
            AssistantContent::Text(t) => before.push(t@),
            _ => before,
        }
    }
}

/// The sub-agent's own messages, oldest first: the text of every assistant
/// message that has any. The text items of one message count as one.
pub open spec fn own_texts(h: Seq<Message>) -> Seq<Seq<char>>
    decreases h.len(),
{
    if h.len() == 0 {
        Seq::empty()
    } else {
        let before = own_texts(h.drop_last());
        match h.last() {
            Message::Assistant { content, .. } => {
                let t = text::join(text_items(content@), "\n"@);
                if text::is_blank(t) {
                    before
                } else {
                    before.push(t)
                }
            },
            _ => before,
        }
    }
}

fn joined_text(content: &Vec<AssistantContent>) -> (r: String)
    ensures
        r@ == text::join(text_items(content@), "\n"@),
{
    let mut parts: Vec<String> = Vec::new();
    let mut i: usize = 0;
    assert(text::strs(parts@) =~= text_items(content@.take(0)));
    while i < content.len()
        invariant
            i <= content@.len(),
            text::strs(parts@) == text_items(content@.take(i as int)),
        decreases content@.len() - i,
    {
        let ghost before = parts@;
        assert(content@.take(i + 1).drop_last() =~= content@.take(i as int));
        if let AssistantContent::Text(t) = &content[i] {
            parts.push(t.clone());
            assert(text::strs(parts@) =~= text::strs(before).push(t@));
        }
        i += 1;
    }
    assert(content@.take(content@.len() as int) =~= content@);
    text::join_text(&parts, "\n")
}

/// The sub-agent's own messages, oldest first.
pub fn assistant_texts(history: &[Message]) -> (r: Vec<String>)
    ensures
        text::strs(r@) == own_texts(history@),
{
    let mut r: Vec<String> = Vec::new();
    let mut i: usize = 0;
    assert(text::strs(r@) =~= own_texts(history@.take(0)));
    while i < history.len()
        invariant
            i <= history@.len(),
            text::strs(r@) == own_texts(history@.take(i as int)),
        decreases history@.len() - i,
    {
        let ghost before = r@;
        assert(history@.take(i + 1).drop_last() =~= history@.take(i as int));
        if let Message::Assistant { content, .. } = &history[i] {
            let t = joined_text(content);
            if !text::text_is_blank(t.as_str()) {
                let ghost v = t@;
                r.push(t);
                assert(text::strs(r@) =~= text::strs(before).push(v));
            }
        }
        i += 1;
    }
    assert(history@.take(history@.len() as int) =~= history@);
    r
}

/// A character that is safe in a file name stays; any other becomes `_`.
pub open spec fn file_char(c: char) -> char {
    if 'A' <= c <= 'Z' || 'a' <= c <= 'z' || '0' <= c <= '9' || c == '_' || c == '-' {
        c
    } else {
        '_'
    }
}

/// A role's name made safe for a file name.
pub open spec fn file_role(role: Seq<char>) -> Seq<char> {
    Seq::new(role.len(), |i: int| file_char(role[i]))
}

/// The name of the file for a delegation to `role`.
pub open spec fn salvage_name(role: Seq<char>, pid: nat, counter: nat) -> Seq<char> {
    "delegate_"@ + file_role(role) + "_"@ + text::decimal(pid) + "_"@ + text::decimal(counter)
        + ".txt"@
}

/// The name of the file for a delegation to `role`, from the process id and a
/// counter that grows with every file.
pub fn file_name(role: &str, pid: u32, counter: u64) -> (r: String)
    ensures
        r@ == salvage_name(role@, pid as nat, counter as nat),
{
    let cs = text::chars_of(role);
    let mut safe = String::new();
    let mut i: usize = 0;
    while i < cs.len()
        invariant
            i <= cs@.len(),
            safe@ == file_role(cs@).take(i as int),
        decreases cs@.len() - i,
    {
        let c = cs[i];
        if ('A' <= c && c <= 'Z') || ('a' <= c && c <= 'z') || ('0' <= c && c <= '9') || c == '_'
            || c == '-' {
            safe.push(c);
        } else {
            safe.push('_');
        }
        i += 1;
    }
    assert(file_role(cs@).take(cs@.len() as int) =~= file_role(cs@));
    let mut s = "delegate_".to_owned();
    s.append(safe.as_str());
    s.append("_");
    s.append(text::decimal_text(pid as u64).as_str());
    s.append("_");
    s.append(text::decimal_text(counter).as_str());
    s.append(".txt");
    s
}

/// Two files of one process never share a name as long as the counter moves.
pub proof fn law_file_names_differ(role: Seq<char>, pid: nat, a: nat, b: nat)
    requires
        a != b,
    ensures
        salvage_name(role, pid, a) != salvage_name(role, pid, b),
{
    let front = "delegate_"@ + file_role(role) + "_"@ + text::decimal(pid) + "_"@;
    let x = text::decimal(a);
    let y = text::decimal(b);
    if salvage_name(role, pid, a) == salvage_name(role, pid, b) {
        let s = front + x + ".txt"@;
        let t = front + y + ".txt"@;
        assert(s == t);
        assert(x.len() == y.len());
        assert forall|i: int| 0 <= i < x.len() implies x[i] == y[i] by {
            assert(s[front.len() + i] == x[i]);
            assert(t[front.len() + i] == y[i]);
        }
        assert(x =~= y);
        text::law_decimal_value(a);
        text::law_decimal_value(b);
    }
}

/// A role's name never brings a path separator into the file name.
pub proof fn law_file_role_is_safe(role: Seq<char>, i: int)
    requires
        0 <= i < role.len(),
    ensures
        file_role(role)[i] != '/',
        file_role(role)[i] != '\\',
        file_role(role)[i] != '.',
{
}

/// How many messages the file holds, in words.
pub open spec fn count_phrase(kept: nat, total: nat) -> Seq<char> {
    if kept == total {
        "all "@ + text::decimal(kept)
    } else {
        "last "@ + text::decimal(kept) + " of "@ + text::decimal(total)
    }
}

/// The numbered messages, from the first on.
pub open spec fn numbered(kept: Seq<Seq<char>>, n: nat) -> Seq<char>
    decreases kept.len(),
{
    if kept.len() == 0 {
        Seq::empty()
    } else {
        numbered(kept.drop_last(), n) + "\n===== message "@ + text::decimal(kept.len()) + "/"@
            + text::decimal(n) + " =====\n"@ + kept.last() + "\n"@
    }
}

/// The content of the file.
pub open spec fn salvage_body(role: Seq<char>, kept: Seq<Seq<char>>, total: nat) -> Seq<char> {
    "[delegate:"@ + role + "] The sub-agent's own messages, oldest first — "@ + count_phrase(
        kept.len(),
        total,
    )
        + ". Its final reply is NOT here (that is the delegate result you already have).\n"@
        + numbered(kept, kept.len())
}

/// Renders the content of the file.
pub fn render(role: &str, kept: &[String], total: usize) -> (r: String)
    ensures
        r@ == salvage_body(role@, text::strs(kept@), total as nat),
{
    let n: usize = kept.len();
    let mut phrase: String;
    if n == total {
        phrase = "all ".to_owned();
        phrase.append(text::decimal_text(n as u64).as_str());
    } else {
        phrase = "last ".to_owned();
        phrase.append(text::decimal_text(n as u64).as_str());
        phrase.append(" of ");
        phrase.append(text::decimal_text(total as u64).as_str());
    }
    let mut list = String::new();
    let mut i: usize = 0;
    assert(text::strs(kept@).take(0) =~= Seq::<Seq<char>>::empty());
    while i < n
        invariant
            n == kept@.len(),
            i <= n,
            list@ == numbered(text::strs(kept@).take(i as int), n as nat),
        decreases n - i,
    {
        let ghost k = text::strs(kept@).take(i + 1);
        assert(k.drop_last() =~= text::strs(kept@).take(i as int));
        assert(k.last() == kept@[i as int]@);
        list.append("\n===== message ");
        list.append(text::decimal_text((i as u64) + 1).as_str());
        list.append("/");
        list.append(text::decimal_text(n as u64).as_str());
        list.append(" =====\n");
        list.append(kept[i].as_str());
        list.append("\n");
        i += 1;
    }
    assert(text::strs(kept@).take(n as int) =~= text::strs(kept@));
    let mut s = "[delegate:".to_owned();
    s.append(role);
    s.append("] The sub-agent's own messages, oldest first — ");
    s.append(phrase.as_str());
    s.append(". Its final reply is NOT here (that is the delegate result you already have).\n");
    s.append(list.as_str());
    s
}

/// The pointer to the file.
pub open spec fn note_text(role: Seq<char>, kept: nat, path: Seq<char>) -> Seq<char> {
    let words = if kept == 1 {
        " earlier message was saved to "@
    } else {
        " earlier messages were saved to "@
    };
    "[delegate:"@ + role + "] Its "@ + text::decimal(kept) + words + path
        + " — if the result above is not the full report (e.g. just \"done\" or a one-liner), `file_read` that path to recover it."@
}

/// Renders the pointer to the file.
pub fn note(role: &str, kept: usize, path: &str) -> (r: String)
    ensures
        r@ == note_text(role@, kept as nat, path@),
{
    let mut s = "[delegate:".to_owned();
    s.append(role);
    s.append("] Its ");
    s.append(text::decimal_text(kept as u64).as_str());
    if kept == 1 {
        s.append(" earlier message was saved to ");
    } else {
        s.append(" earlier messages were saved to ");
    }
    s.append(path);
    s.append(
        " — if the result above is not the full report (e.g. just \"done\" or a one-liner), `file_read` that path to recover it.",
    );
    s
}

/// The messages that are kept: the last ones.
pub open spec fn kept_texts(all: Seq<Seq<char>>) -> Seq<Seq<char>> {
    if all.len() <= KEEP {
        all
    } else {
        all.skip(all.len() - KEEP)
    }
}

/// What to save for a delegation.
#[derive(Debug, PartialEq)]
pub struct Salvage {
    /// The content of the file.
    pub body: String,
    /// How many messages it holds.
    pub kept: usize,
}

/// Decides what to save of a sub-agent's history: nothing where it holds no
/// text of its own.
pub fn plan_salvage(role: &str, history: &[Message]) -> (r: Option<Salvage>)
    ensures
        match r {
            Some(s) => {
                let all = own_texts(history@);
                &&& all.len() > 0
                &&& s.kept == kept_texts(all).len()
                &&& s.body@ == salvage_body(role@, kept_texts(all), all.len())
            },
            None => own_texts(history@).len() == 0,
        },
{
    let texts = assistant_texts(history);
    assert(texts@.len() == text::strs(texts@).len());
    if texts.is_empty() {
        return None;
    }
    let total: usize = texts.len();
    let start: usize = if total > KEEP {
        total - KEEP
    } else {
        0
    };
    let mut kept: Vec<String> = Vec::new();
    let mut i: usize = start;
    while i < total
        invariant
            total == texts@.len(),
            start <= i <= total,
            text::strs(kept@) == text::strs(texts@).subrange(start as int, i as int),
        decreases total - i,
    {
        let ghost before = kept@;
        kept.push(texts[i].clone());
        assert(text::strs(kept@) =~= text::strs(before).push(texts@[i as int]@));
        i += 1;
    }
    assert(text::strs(kept@) =~= kept_texts(own_texts(history@)));
    assert(kept@.len() == text::strs(kept@).len());
    let body = render(role, &kept, total);
    Some(Salvage { body, kept: kept.len() })
}

/// A result with the pointer behind it; without a saved file, the result as it
/// was.
pub open spec fn with_note(
    result: Seq<char>,
    role: Seq<char>,
    kept: nat,
    saved: Option<Seq<char>>,
) -> Seq<char> {
    match saved {
        Some(path) => result + "\n\n"@ + note_text(role, kept, path),
        None => result,
    }
}

/// Appends the pointer to a result. `saved` is where the file was written, and
/// `None` where nothing was saved or the write failed.
pub fn attach_note(result: String, role: &str, kept: usize, saved: Option<&str>) -> (r: String)
    ensures
        r@ == with_note(result@, role@, kept as nat, text::opt_str(saved)),
{
    match saved {
        Some(path) => {
            let mut s = result;
            s.append("\n\n");
            s.append(note(role, kept, path).as_str());
            s
        },
        None => result,
    }
}

/// A note never changes the result in front of it.
pub proof fn law_note_keeps_result(
    result: Seq<char>,
    role: Seq<char>,
    kept: nat,
    saved: Option<Seq<char>>,
)
    ensures
        text::starts_with(with_note(result, role, kept, saved), result),
{
    let r = with_note(result, role, kept, saved);
    assert(r.take(result.len() as int) =~= result);
}

/// The newest messages are kept: at most `KEEP` of them, and always the last.
pub proof fn law_newest_kept(all: Seq<Seq<char>>)
    requires
        all.len() > 0,
    ensures
        0 < kept_texts(all).len() <= KEEP,
        kept_texts(all).last() == all.last(),
        kept_texts(all) == all.skip(all.len() - kept_texts(all).len()),
{
    assert(all.skip(0) =~= all);
}

/// The texts of a message are those of its parts, in their order: every text item counts,
/// and nothing else does.
pub proof fn law_text_items(a: Seq<AssistantContent>, b: Seq<AssistantContent>, c: AssistantContent)
    ensures
        text_items(a + b) == text_items(a) + text_items(b),
        text_items(seq![c]) == (match c {
            AssistantContent::Text(t) => seq![t@],
            _ => Seq::<Seq<char>>::empty(),
        }),
    decreases b.len(),
{
    reveal_with_fuel(text_items, 2);
    assert(seq![c].drop_last() =~= Seq::<AssistantContent>::empty());
    if b.len() == 0 {
        assert(a + b =~= a);
    } else {
        assert((a + b).drop_last() =~= a + b.drop_last());
        law_text_items(a, b.drop_last(), c);
    }
}

/// The sub-agent's own messages in a history are those of its parts, in their order:
/// every assistant message whose text is not blank counts once, and no other message
/// does.
pub proof fn law_own_messages(a: Seq<Message>, b: Seq<Message>, m: Message)
    ensures
        own_texts(a + b) == own_texts(a) + own_texts(b),
        own_texts(seq![m]) == (match m {
            Message::Assistant { content, .. } => if text::trim(
                text::join(text_items(content@), "\n"@),
            ).len() > 0 {
                seq![text::join(text_items(content@), "\n"@)]
            } else {
                Seq::<Seq<char>>::empty()
            },
            _ => Seq::<Seq<char>>::empty(),
        }),
    decreases b.len(),
{
    reveal_with_fuel(own_texts, 2);
    assert(seq![m].drop_last() =~= Seq::<Message>::empty());
    if b.len() == 0 {
        assert(a + b =~= a);
    } else {
        assert((a + b).drop_last() =~= a + b.drop_last());
        law_own_messages(a, b.drop_last(), m);
    }
}

/// The file has every kept message whole, in its order, each under its number.
pub proof fn law_file_has_every_message(kept: Seq<Seq<char>>, n: nat, i: int) -> (r: (
    Seq<char>,
    Seq<char>,
))
    requires
        0 <= i < kept.len(),
    ensures
        numbered(kept, n) == r.0 + "\n===== message "@ + text::decimal((i + 1) as nat) + "/"@
            + text::decimal(n) + " =====\n"@ + kept[i] + "\n"@ + r.1,
        r.0 == numbered(kept.take(i), n),
        i + 1 == kept.len() ==> r.1.len() == 0,
        numbered(Seq::<Seq<char>>::empty(), n).len() == 0,
    decreases kept.len(),
{
    let d = kept.drop_last();
    let row = "\n===== message "@ + text::decimal(kept.len()) + "/"@ + text::decimal(n)
        + " =====\n"@ + kept.last() + "\n"@;
    assert(numbered(kept, n) =~= numbered(d, n) + row);
    if i == kept.len() - 1 {
        assert(kept.take(i) =~= d);
        assert(numbered(kept, n) =~= numbered(d, n) + "\n===== message "@ + text::decimal(
            (i + 1) as nat,
        ) + "/"@ + text::decimal(n) + " =====\n"@ + kept[i] + "\n"@ + Seq::<char>::empty());
        (numbered(d, n), Seq::empty())
    } else {
        let (a, b) = law_file_has_every_message(d, n, i);
        assert(d.take(i) =~= kept.take(i));
        assert(numbered(kept, n) =~= a + "\n===== message "@ + text::decimal((i + 1) as nat) + "/"@
            + text::decimal(n) + " =====\n"@ + kept[i] + "\n"@ + (b + row));
        (a, b + row)
    }
}

/// The file opens with the role and says how many messages there are and whether these
/// are all; the messages follow.
pub proof fn law_file_says_what_it_holds(role: Seq<char>, kept: Seq<Seq<char>>, total: nat)
    ensures
        salvage_body(role, kept, total) == "[delegate:"@ + role
            + "] The sub-agent's own messages, oldest first — "@ + (if kept.len() == total {
            "all "@ + text::decimal(total)
        } else {
            "last "@ + text::decimal(kept.len()) + " of "@ + text::decimal(total)
        }) + ". Its final reply is NOT here (that is the delegate result you already have).\n"@
            + numbered(kept, kept.len()),
{
}

/// A pointer names the role, the number of messages and the file: with another file or
/// another role it is another pointer.
pub proof fn law_pointer_names_the_file(
    role: Seq<char>,
    kept: nat,
    path: Seq<char>,
    other: Seq<char>,
)
    ensures
        path != other ==> note_text(role, kept, path) != note_text(role, kept, other),
        path != other ==> note_text(path, kept, role) != note_text(other, kept, role),
        text::starts_with(
            note_text(role, kept, path),
            "[delegate:"@ + role + "] Its "@ + text::decimal(kept),
        ),
{
    let words = if kept == 1 {
        " earlier message was saved to "@
    } else {
        " earlier messages were saved to "@
    };
    let foot =
        " — if the result above is not the full report (e.g. just \"done\" or a one-liner), `file_read` that path to recover it."@;
    let head = "[delegate:"@ + role + "] Its "@ + text::decimal(kept);
    let n = note_text(role, kept, path);
    assert(n.take(head.len() as int) =~= head);
    if path != other {
        text::lemma_middle_differs(head + words, path, other, foot);
        let rest = "] Its "@ + text::decimal(kept) + words + role + foot;
        text::lemma_middle_differs("[delegate:"@, path, other, rest);
        assert(note_text(path, kept, role) =~= "[delegate:"@ + path + rest);
        assert(note_text(other, kept, role) =~= "[delegate:"@ + other + rest);
    }
}

/// The name of a file keeps what is safe of the role's name, character by character, and
/// puts an underscore for anything else; the process and the counter follow.
pub proof fn law_file_is_named_after_the_role(role: Seq<char>, pid: nat, counter: nat, i: int)
    ensures
        salvage_name(role, pid, counter).len() >= 9 + role.len(),
        text::starts_with(salvage_name(role, pid, counter), "delegate_"@),
        0 <= i < role.len() ==> salvage_name(role, pid, counter)[9 + i] == (if ('A' <= role[i]
            <= 'Z') || ('a' <= role[i] <= 'z') || ('0' <= role[i] <= '9') || role[i] == '_'
            || role[i] == '-' {
            role[i]
        } else {
            '_'
        }),
        salvage_name(role, pid, counter).skip((9 + role.len()) as int) == "_"@ + text::decimal(pid)
            + "_"@ + text::decimal(counter) + ".txt"@,
{
    reveal_strlit("delegate_");
    let s = salvage_name(role, pid, counter);
    assert(s.take(9) =~= "delegate_"@);
    assert(s.skip((9 + role.len()) as int) =~= "_"@ + text::decimal(pid) + "_"@ + text::decimal(
        counter,
    ) + ".txt"@);
}

/// Up to ten messages are all kept; of more, exactly the last ten are, in their order.
pub proof fn law_last_ten_are_kept(all: Seq<Seq<char>>)
    ensures
        all.len() <= 10 ==> kept_texts(all) == all,
        all.len() > 10 ==> kept_texts(all) == all.skip(all.len() - 10),
{
}

} // verus!
