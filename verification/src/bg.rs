//! Background processes as the controller sees them.

use vstd::prelude::*;
use crate::order;
use crate::text;

verus! {

/// Whether a background process still runs.
#[derive(Debug, Clone, PartialEq)]
pub enum BgStatus {
    Running,
    Exited { code: i32 },
}

impl BgStatus {
    /// Whether the process still runs.
    pub fn is_running(&self) -> (r: bool)
        ensures
            r == (self is Running),
    {
        match self {
            BgStatus::Running => true,
            BgStatus::Exited { .. } => false,
        }
    }
}

/// How long output is held back before it is shown.
#[derive(Debug, Clone, PartialEq)]
pub struct Cooldown {
    pub secs: u64,
    pub nanos: u32,
}

/// One background process.
#[derive(Debug, Clone, PartialEq)]
pub struct BgListEntry {
    pub id: u32,
    pub pid: u32,
    pub command: String,
    pub label: Option<String>,
    pub status: BgStatus,
    pub buffer_len: usize,
    pub capture_cap: usize,
    pub cooldown: Cooldown,
}

// ---------------------------------------------------------------------------
// Commands
// ---------------------------------------------------------------------------

/// Whether a character of a command may be shown: no backtick, which would end
/// the code span, and no ASCII control character.
pub open spec fn is_shown(c: char) -> bool {
    c != '`' && !((c as u32) < 0x20) && (c as u32) != 0x7f
}

/// The characters of `s` that may be shown.
pub open spec fn shown_chars(s: Seq<char>) -> Seq<char>
    decreases s.len(),
{
    if s.len() == 0 {
        Seq::empty()
    } else {
        let before = shown_chars(s.drop_last());
        if is_shown(s.last()) {
            before.push(s.last())
        } else {
            before
        }
    }
}

/// A command as another agent's prompt may carry it: the first line alone,
/// without backticks and control characters, and at most 80 characters.
pub open spec fn sanitized(cmd: Seq<char>) -> Seq<char> {
    let s = shown_chars(text::split_first(cmd, '\n').0);
    if s.len() > 80 {
        s.take(80) + "…"@
    } else {
        s
    }
}

/// Makes a command safe for another agent's prompt.
pub fn sanitize_bg_command(cmd: &str) -> (r: String)
    ensures
        r@ == sanitized(cmd@),
{
    let (line, _) = text::split_text(cmd, '\n');
    let cs = text::chars_of(line.as_str());
    let mut kept: Vec<char> = Vec::new();
    let mut i: usize = 0;
    assert(cs@.take(0) =~= Seq::<char>::empty());
    while i < cs.len()
        invariant
            i <= cs@.len(),
            kept@ == shown_chars(cs@.take(i as int)),
        decreases cs@.len() - i,
    {
        assert(cs@.take(i + 1).drop_last() =~= cs@.take(i as int));
        let c = cs[i];
        let u: u32 = c as u32;
        if c != '`' && !(u < 0x20) && u != 0x7f {
            kept.push(c);
        }
        i += 1;
    }
    assert(cs@.take(cs@.len() as int) =~= cs@);
    if kept.len() > 80 {
        let mut r = text::string_between(&kept, 0, 80);
        assert(kept@.subrange(0, 80) =~= kept@.take(80));
        r.append("…");
        r
    } else {
        text::string_of(&kept)
    }
}

proof fn lemma_shown_chars(s: Seq<char>)
    ensures
        shown_chars(s).len() <= s.len(),
        forall|i: int| 0 <= i < shown_chars(s).len() ==> is_shown(#[trigger] shown_chars(s)[i]),
    decreases s.len(),
{
    if s.len() > 0 {
        lemma_shown_chars(s.drop_last());
    }
}

/// A sanitized command can neither break out of its line nor out of its code
/// span, and it stays short.
pub proof fn law_sanitized_is_safe(cmd: Seq<char>, i: int)
    requires
        0 <= i < sanitized(cmd).len(),
    ensures
        sanitized(cmd)[i] != '\n',
        sanitized(cmd)[i] != '`',
        is_shown(sanitized(cmd)[i]),
        sanitized(cmd).len() <= 81,
{
    let s = shown_chars(text::split_first(cmd, '\n').0);
    lemma_shown_chars(text::split_first(cmd, '\n').0);
    reveal_strlit("…");
    if s.len() > 80 && i < 80 {
        assert(sanitized(cmd)[i] == s[i]);
    }
}

proof fn lemma_shown_chars_kept(s: Seq<char>)
    requires
        forall|i: int| 0 <= i < s.len() ==> is_shown(#[trigger] s[i]),
    ensures
        shown_chars(s) == s,
    decreases s.len(),
{
    if s.len() > 0 {
        assert forall|i: int| 0 <= i < s.drop_last().len() implies is_shown(
            #[trigger] s.drop_last()[i],
        ) by {
            assert(s.drop_last()[i] == s[i]);
        }
        lemma_shown_chars_kept(s.drop_last());
        assert(is_shown(s[s.len() - 1]));
        assert(s.drop_last().push(s.last()) =~= s);
    }
}

proof fn lemma_one_line(s: Seq<char>)
    requires
        forall|i: int| 0 <= i < s.len() ==> is_shown(#[trigger] s[i]),
    ensures
        text::split_first(s, '\n').0 == s,
    decreases s.len(),
{
    if s.len() > 0 {
        assert(is_shown(s[0]));
        assert forall|i: int| 0 <= i < s.drop_first().len() implies is_shown(
            #[trigger] s.drop_first()[i],
        ) by {
            assert(s.drop_first()[i] == s[i + 1]);
        }
        lemma_one_line(s.drop_first());
        assert(seq![s[0]] + s.drop_first() =~= s);
    }
}

/// Cleaning a command twice changes nothing more than cleaning it once.
pub proof fn law_sanitized_idempotent(cmd: Seq<char>)
    ensures
        sanitized(sanitized(cmd)) == sanitized(cmd),
{
    let r = sanitized(cmd);
    reveal_strlit("…");
    assert forall|i: int| 0 <= i < r.len() implies is_shown(#[trigger] r[i]) by {
        law_sanitized_is_safe(cmd, i);
    }
    lemma_one_line(r);
    lemma_shown_chars_kept(r);
    if r.len() > 80 {
        lemma_shown_chars(text::split_first(cmd, '\n').0);
        assert(r.take(80) + "…"@ =~= r);
    }
}

// ---------------------------------------------------------------------------
// Listings
// ---------------------------------------------------------------------------

/// The number by which processes are ordered.
pub open spec fn ids(s: Seq<BgListEntry>) -> Seq<int> {
    Seq::new(s.len(), |i: int| s[i].id as int)
}

/// Processes in ascending order of their ids.
pub open spec fn by_id(s: Seq<BgListEntry>) -> Seq<BgListEntry> {
    order::pick(s, order::stable_order(s.len(), order::by_number(ids(s))))
}

/// The processes that still run.
pub open spec fn running(s: Seq<BgListEntry>) -> Seq<BgListEntry>
    decreases s.len(),
{
    if s.len() == 0 {
        Seq::empty()
    } else {
        let before = running(s.drop_last());
        if s.last().status is Running {
            before.push(s.last())
        } else {
            before
        }
    }
}

/// Id, command and label of a process.
pub open spec fn item_text(e: BgListEntry) -> Seq<char> {
    let shown = "#"@ + text::decimal(e.id as nat) + " `"@ + sanitized(e.command@) + "`"@;
    match e.label {
        Some(l) => shown + " ("@ + l@ + ")"@,
        None => shown,
    }
}

/// One line for each process.
pub open spec fn rows(s: Seq<BgListEntry>) -> Seq<char>
    decreases s.len(),
{
    if s.len() == 0 {
        Seq::empty()
    } else {
        rows(s.drop_last()) + "- "@ + item_text(s.last()) + "\n"@
    }
}

/// What a sub-agent is told of the processes that run when its task starts;
/// nothing where none runs.
pub open spec fn snapshot_text(bg: Seq<BgListEntry>) -> Seq<char> {
    let r = running(bg);
    if r.len() == 0 {
        Seq::empty()
    } else {
        "# Background Processes (shared session registry)\n\n"@ + rows(by_id(r))
            + "\nThese are live now and shared with the orchestrator and other roles — ids are one namespace. Reuse them instead of starting a duplicate. If you stop one, or leave a new one running, say so in your final answer. This is a snapshot from when your task started; `bash_bg list` gives the live picture."@
    }
}

fn item_line(e: &BgListEntry) -> (r: String)
    ensures
        r@ == item_text(*e),
{
    let mut s = "#".to_owned();
    s.append(text::decimal_text(e.id as u64).as_str());
    s.append(" `");
    s.append(sanitize_bg_command(e.command.as_str()).as_str());
    s.append("`");
    match &e.label {
        Some(l) => {
            s.append(" (");
            s.append(l.as_str());
            s.append(")");
        },
        None => {},
    }
    s
}

/// The processes at the positions `at`.
pub open spec fn entries_at(bg: Seq<BgListEntry>, at: Seq<usize>) -> Seq<BgListEntry> {
    Seq::new(at.len(), |i: int| bg[at[i] as int])
}

/// Arranges positions by the ids at them.
fn arrange_by_id(bg: &[BgListEntry], at: &Vec<usize>) -> (r: Vec<usize>)
    requires
        forall|i: int| 0 <= i < at@.len() ==> (#[trigger] at@[i]) < bg@.len(),
    ensures
        entries_at(bg@, r@) == by_id(entries_at(bg@, at@)),
        forall|i: int| 0 <= i < r@.len() ==> (#[trigger] r@[i]) < bg@.len(),
{
    let ghost s = entries_at(bg@, at@);
    let mut keys: Vec<i128> = Vec::new();
    let mut i: usize = 0;
    while i < at.len()
        invariant
            forall|i: int| 0 <= i < at@.len() ==> (#[trigger] at@[i]) < bg@.len(),
            i <= at@.len(),
            keys@.len() == i,
            forall|j: int| 0 <= j < i ==> (#[trigger] keys@[j]) == bg@[at@[j] as int].id,
        decreases at@.len() - i,
    {
        keys.push(bg[at[i]].id as i128);
        i += 1;
    }
    assert(order::ints(keys@) =~= ids(s));
    let order = order::arrange_by_number(&keys);
    let ghost o = order::positions(order@);
    let mut r: Vec<usize> = Vec::new();
    let mut k: usize = 0;
    while k < order.len()
        invariant
            forall|i: int| 0 <= i < at@.len() ==> (#[trigger] at@[i]) < bg@.len(),
            o == order::positions(order@),
            order::arranges(o, at@.len(), order::by_number(ids(s))),
            k <= order@.len(),
            r@.len() == k,
            forall|j: int| 0 <= j < k ==> (#[trigger] r@[j]) == at@[o[j]],
        decreases order@.len() - k,
    {
        assert(0 <= o[k as int] < at@.len());
        r.push(at[order[k]]);
        k += 1;
    }
    assert forall|j: int| 0 <= j < r@.len() implies (#[trigger] r@[j]) < bg@.len() by {
        assert(0 <= o[j] < at@.len());
    }
    assert(entries_at(bg@, r@) =~= by_id(s)) by {
        assert forall|j: int| 0 <= j < r@.len() implies entries_at(bg@, r@)[j] == by_id(s)[j] by {
            assert(r@[j] == at@[o[j]]);
            assert(0 <= o[j] < at@.len());
        }
    }
    r
}

/// Renders what a sub-agent is told of the running processes.
pub fn render_bg_snapshot(bg: &[BgListEntry]) -> (r: String)
    ensures
        r@ == snapshot_text(bg@),
{
    let mut at: Vec<usize> = Vec::new();
    let mut i: usize = 0;
    assert(entries_at(bg@, at@) =~= running(bg@.take(0)));
    while i < bg.len()
        invariant
            i <= bg@.len(),
            forall|j: int| 0 <= j < at@.len() ==> (#[trigger] at@[j]) < bg@.len(),
            entries_at(bg@, at@) == running(bg@.take(i as int)),
        decreases bg@.len() - i,
    {
        let ghost before = at@;
        assert(bg@.take(i + 1).drop_last() =~= bg@.take(i as int));
        if bg[i].status.is_running() {
            at.push(i);
            assert(entries_at(bg@, at@) =~= entries_at(bg@, before).push(bg@[i as int]));
        }
        i += 1;
    }
    assert(bg@.take(bg@.len() as int) =~= bg@);
    assert(at@.len() == entries_at(bg@, at@).len());
    if at.len() == 0 {
        return String::new();
    }
    let sorted = arrange_by_id(bg, &at);
    let ghost s = entries_at(bg@, sorted@);
    let mut list = String::new();
    let mut k: usize = 0;
    assert(s.take(0) =~= Seq::<BgListEntry>::empty());
    while k < sorted.len()
        invariant
            s == entries_at(bg@, sorted@),
            forall|j: int| 0 <= j < sorted@.len() ==> (#[trigger] sorted@[j]) < bg@.len(),
            k <= sorted@.len(),
            list@ == rows(s.take(k as int)),
        decreases sorted@.len() - k,
    {
        assert(s.take(k + 1).drop_last() =~= s.take(k as int));
        assert(s.take(k + 1).last() == bg@[sorted@[k as int] as int]);
        list.append("- ");
        list.append(item_line(&bg[sorted[k]]).as_str());
        list.append("\n");
        k += 1;
    }
    assert(s.take(s.len() as int) =~= s);
    let mut out = "# Background Processes (shared session registry)\n\n".to_owned();
    out.append(list.as_str());
    out.append(
        "\nThese are live now and shared with the orchestrator and other roles — ids are one namespace. Reuse them instead of starting a duplicate. If you stop one, or leave a new one running, say so in your final answer. This is a snapshot from when your task started; `bash_bg list` gives the live picture.",
    );
    out
}

// ---------------------------------------------------------------------------
// What a delegation left behind
// ---------------------------------------------------------------------------

/// Whether a process with this id is listed.
pub open spec fn has_id(s: Seq<BgListEntry>, id: u32) -> bool {
    exists|i: int| 0 <= i < s.len() && (#[trigger] s[i]).id == id
}

/// Whether the process at `i` is listed in `a` only. Where an id is listed
/// twice, the last entry speaks for it.
pub open spec fn is_only_in(a: Seq<BgListEntry>, b: Seq<BgListEntry>, i: int) -> bool {
    !has_id(b, a[i].id) && !has_id(a.skip(i + 1), a[i].id)
}

/// The processes among the first `n` that are listed in `a` and not in `b`.
pub open spec fn only_in_upto(a: Seq<BgListEntry>, b: Seq<BgListEntry>, n: nat) -> Seq<BgListEntry>
    decreases n,
{
    if n == 0 {
        Seq::empty()
    } else {
        let before = only_in_upto(a, b, (n - 1) as nat);
        if is_only_in(a, b, n - 1) {
            before.push(a[n - 1])
        } else {
            before
        }
    }
}

/// The processes that are listed in `a` and not in `b`.
pub open spec fn only_in(a: Seq<BgListEntry>, b: Seq<BgListEntry>) -> Seq<BgListEntry> {
    only_in_upto(a, b, a.len())
}

/// The processes that a delegation started and that still run.
pub open spec fn left_running(before: Seq<BgListEntry>, after: Seq<BgListEntry>) -> Seq<
    BgListEntry,
> {
    running(only_in(after, before))
}

/// The items of a list of processes.
pub open spec fn items(s: Seq<BgListEntry>) -> Seq<Seq<char>> {
    Seq::new(s.len(), |i: int| item_text(s[i]))
}

/// One line of the report, naming processes in ascending order of their ids.
pub open spec fn delta_line(verb: Seq<char>, s: Seq<BgListEntry>) -> Seq<char> {
    "[bg] this delegation "@ + verb + ": "@ + text::join(items(by_id(s)), ", "@)
}

/// What a delegation did to the background processes; nothing where it changed
/// nothing. A process that it started and that has ended is not reported.
pub open spec fn delta_text(before: Seq<BgListEntry>, after: Seq<BgListEntry>) -> Seq<char> {
    let started = left_running(before, after);
    let stopped = only_in(before, after);
    let first = if started.len() > 0 {
        seq![delta_line("left running"@, started)]
    } else {
        Seq::empty()
    };
    let second = if stopped.len() > 0 {
        seq![delta_line("stopped"@, stopped)]
    } else {
        Seq::empty()
    };
    text::join(first + second, "\n"@)
}

fn lists_id(s: &[BgListEntry], from: usize, id: u32) -> (r: bool)
    requires
        from <= s@.len(),
    ensures
        r == has_id(s@.skip(from as int), id),
{
    let ghost t = s@.skip(from as int);
    let mut i: usize = from;
    while i < s.len()
        invariant
            from <= i <= s@.len(),
            t == s@.skip(from as int),
            forall|j: int| from <= j < i ==> (#[trigger] s@[j]).id != id,
        decreases s@.len() - i,
    {
        if s[i].id == id {
            assert(t[i - from].id == id);
            return true;
        }
        i += 1;
    }
    assert forall|j: int| 0 <= j < t.len() implies (#[trigger] t[j]).id != id by {
        assert(t[j] == s@[j + from]);
    }
    false
}

fn find_only_in(a: &[BgListEntry], b: &[BgListEntry]) -> (r: Vec<usize>)
    ensures
        entries_at(a@, r@) == only_in(a@, b@),
        forall|i: int| 0 <= i < r@.len() ==> (#[trigger] r@[i]) < a@.len(),
{
    let mut r: Vec<usize> = Vec::new();
    let mut i: usize = 0;
    assert(entries_at(a@, r@) =~= only_in_upto(a@, b@, 0));
    assert(b@.skip(0) =~= b@);
    while i < a.len()
        invariant
            i <= a@.len(),
            b@.skip(0) == b@,
            forall|j: int| 0 <= j < r@.len() ==> (#[trigger] r@[j]) < a@.len(),
            entries_at(a@, r@) == only_in_upto(a@, b@, i as nat),
        decreases a@.len() - i,
    {
        let ghost before = r@;
        if !lists_id(b, 0, a[i].id) && !lists_id(a, i + 1, a[i].id) {
            r.push(i);
            assert(entries_at(a@, r@) =~= entries_at(a@, before).push(a@[i as int]));
        }
        i += 1;
    }
    r
}

fn keep_running(bg: &[BgListEntry], at: &Vec<usize>) -> (r: Vec<usize>)
    requires
        forall|i: int| 0 <= i < at@.len() ==> (#[trigger] at@[i]) < bg@.len(),
    ensures
        entries_at(bg@, r@) == running(entries_at(bg@, at@)),
        forall|i: int| 0 <= i < r@.len() ==> (#[trigger] r@[i]) < bg@.len(),
{
    let ghost s = entries_at(bg@, at@);
    let mut r: Vec<usize> = Vec::new();
    let mut i: usize = 0;
    assert(entries_at(bg@, r@) =~= running(s.take(0)));
    while i < at.len()
        invariant
            s == entries_at(bg@, at@),
            forall|j: int| 0 <= j < at@.len() ==> (#[trigger] at@[j]) < bg@.len(),
            forall|j: int| 0 <= j < r@.len() ==> (#[trigger] r@[j]) < bg@.len(),
            i <= at@.len(),
            entries_at(bg@, r@) == running(s.take(i as int)),
        decreases at@.len() - i,
    {
        let ghost before = r@;
        assert(s.take(i + 1).drop_last() =~= s.take(i as int));
        if bg[at[i]].status.is_running() {
            r.push(at[i]);
            assert(entries_at(bg@, r@) =~= entries_at(bg@, before).push(s[i as int]));
        }
        i += 1;
    }
    assert(s.take(s.len() as int) =~= s);
    r
}

fn delta_part(verb: &str, bg: &[BgListEntry], at: &Vec<usize>) -> (r: String)
    requires
        forall|i: int| 0 <= i < at@.len() ==> (#[trigger] at@[i]) < bg@.len(),
    ensures
        r@ == delta_line(verb@, entries_at(bg@, at@)),
{
    let sorted = arrange_by_id(bg, at);
    let ghost s = entries_at(bg@, sorted@);
    let mut parts: Vec<String> = Vec::new();
    let mut k: usize = 0;
    while k < sorted.len()
        invariant
            s == entries_at(bg@, sorted@),
            forall|j: int| 0 <= j < sorted@.len() ==> (#[trigger] sorted@[j]) < bg@.len(),
            k <= sorted@.len(),
            parts@.len() == k,
            forall|j: int| 0 <= j < k ==> (#[trigger] parts@[j])@ == item_text(s[j]),
        decreases sorted@.len() - k,
    {
        parts.push(item_line(&bg[sorted[k]]));
        k += 1;
    }
    assert(text::strs(parts@) =~= items(s));
    let mut line = "[bg] this delegation ".to_owned();
    line.append(verb);
    line.append(": ");
    line.append(text::join_text(&parts, ", ").as_str());
    line
}

/// Renders what a delegation did to the background processes.
pub fn render_bg_delta(before: &[BgListEntry], after: &[BgListEntry]) -> (r: String)
    ensures
        r@ == delta_text(before@, after@),
{
    let listed = find_only_in(after, before);
    let started = keep_running(after, &listed);
    let stopped = find_only_in(before, after);
    assert(started@.len() == entries_at(after@, started@).len());
    assert(stopped@.len() == entries_at(before@, stopped@).len());
    let mut parts: Vec<String> = Vec::new();
    let ghost mut first = Seq::<Seq<char>>::empty();
    assert(text::strs(parts@) =~= first);
    if started.len() > 0 {
        let line = delta_part("left running", after, &started);
        proof {
            first = seq![line@];
        }
        parts.push(line);
        assert(text::strs(parts@) =~= first);
    }
    let ghost mut second = Seq::<Seq<char>>::empty();
    assert(text::strs(parts@) =~= first + second);
    if stopped.len() > 0 {
        let line = delta_part("stopped", before, &stopped);
        proof {
            second = seq![line@];
        }
        parts.push(line);
        assert(text::strs(parts@) =~= first + second);
    }
    text::join_text(&parts, "\n")
}

proof fn lemma_only_in_none(a: Seq<BgListEntry>, b: Seq<BgListEntry>, n: nat)
    requires
        n <= a.len(),
        forall|i: int| 0 <= i < a.len() ==> has_id(b, (#[trigger] a[i]).id),
    ensures
        only_in_upto(a, b, n) == Seq::<BgListEntry>::empty(),
    decreases n,
{
    if n > 0 {
        lemma_only_in_none(a, b, (n - 1) as nat);
        assert(has_id(b, a[n - 1].id));
    }
}

/// Where both listings hold the same ids nothing is reported, whatever became
/// of the processes' states.
pub proof fn law_same_ids_report_nothing(before: Seq<BgListEntry>, after: Seq<BgListEntry>)
    requires
        forall|i: int| 0 <= i < before.len() ==> has_id(after, (#[trigger] before[i]).id),
        forall|i: int| 0 <= i < after.len() ==> has_id(before, (#[trigger] after[i]).id),
    ensures
        delta_text(before, after) == Seq::<char>::empty(),
{
    lemma_only_in_none(after, before, after.len());
    lemma_only_in_none(before, after, before.len());
    assert(Seq::<Seq<char>>::empty() + Seq::<Seq<char>>::empty() =~= Seq::<Seq<char>>::empty());
}

proof fn lemma_running_none(bg: Seq<BgListEntry>)
    requires
        forall|i: int| 0 <= i < bg.len() ==> !((#[trigger] bg[i]).status is Running),
    ensures
        running(bg).len() == 0,
    decreases bg.len(),
{
    if bg.len() > 0 {
        assert(!(bg[bg.len() - 1].status is Running));
        assert forall|i: int| 0 <= i < bg.drop_last().len() implies !((#[trigger] bg.drop_last()[i]).status is Running) by {
            assert(bg.drop_last()[i] == bg[i]);
        }
        lemma_running_none(bg.drop_last());
    }
}

proof fn lemma_running(s: Seq<BgListEntry>, i: int)
    requires
        0 <= i < running(s).len(),
    ensures
        running(s)[i].status is Running,
    decreases s.len(),
{
    if s.len() > 0 && i < running(s.drop_last()).len() {
        lemma_running(s.drop_last(), i);
    }
}

/// What is reported as left running does run.
pub proof fn law_left_running_runs(before: Seq<BgListEntry>, after: Seq<BgListEntry>, i: int)
    requires
        0 <= i < left_running(before, after).len(),
    ensures
        left_running(before, after)[i].status is Running,
{
    lemma_running(only_in(after, before), i);
}

/// Where nothing runs, a sub-agent's prompt spends not one character on it.
pub proof fn law_nothing_running_costs_nothing(bg: Seq<BgListEntry>)
    requires
        forall|i: int| 0 <= i < bg.len() ==> !((#[trigger] bg[i]).status is Running),
    ensures
        snapshot_text(bg) == Seq::<char>::empty(),
{
    lemma_running_none(bg);
}

// ---------------------------------------------------------------------------
// The listing for the user
// ---------------------------------------------------------------------------

/// How the listing names a cooldown.
pub open spec fn cooldown_text(c: Cooldown) -> Seq<char> {
    if c.secs == 0 && c.nanos == 0 {
        "real-time"@
    } else {
        text::decimal(c.secs as nat) + "s cooldown"@
    }
}

/// How the listing names a state.
pub open spec fn status_text(s: BgStatus) -> Seq<char> {
    match s {
        BgStatus::Running => "running"@,
        BgStatus::Exited { code } => "exited("@ + text::decimal_signed(code as int) + ")"@,
    }
}

/// One line of the listing.
pub open spec fn listing_row(e: BgListEntry) -> Seq<char> {
    let label = match e.label {
        Some(l) => " ["@ + l@ + "]"@,
        None => Seq::empty(),
    };
    "  #"@ + text::decimal(e.id as nat) + " pid="@ + text::decimal(e.pid as nat) + " 🛰 "@
        + cooldown_text(e.cooldown) + " · "@ + status_text(e.status) + " · "@ + text::decimal(
        e.buffer_len as nat,
    ) + "/"@ + text::decimal(e.capture_cap as nat) + " lines · "@ + e.command@ + label + "\n"@
}

/// The lines of the listing.
pub open spec fn listing_rows(s: Seq<BgListEntry>) -> Seq<char>
    decreases s.len(),
{
    if s.len() == 0 {
        Seq::empty()
    } else {
        listing_rows(s.drop_last()) + listing_row(s.last())
    }
}

/// The listing of background processes for the user.
pub open spec fn listing_text(s: Seq<BgListEntry>) -> Seq<char> {
    if s.len() == 0 {
        "No background processes."@
    } else {
        "Background processes ("@ + text::decimal(s.len()) + "):\n"@ + listing_rows(s)
    }
}

fn listing_line(e: &BgListEntry) -> (r: String)
    ensures
        r@ == listing_row(*e),
{
    let cooldown: String = if e.cooldown.secs == 0 && e.cooldown.nanos == 0 {
        "real-time".to_owned()
    } else {
        let mut c = text::decimal_text(e.cooldown.secs);
        c.append("s cooldown");
        c
    };
    let status: String = match &e.status {
        BgStatus::Running => "running".to_owned(),
        BgStatus::Exited { code } => {
            let mut s = "exited(".to_owned();
            s.append(text::signed_text(*code).as_str());
            s.append(")");
            s
        },
    };
    let label: String = match &e.label {
        Some(l) => {
            let mut s = " [".to_owned();
            s.append(l.as_str());
            s.append("]");
            s
        },
        None => String::new(),
    };
    let mut s = "  #".to_owned();
    s.append(text::decimal_text(e.id as u64).as_str());
    s.append(" pid=");
    s.append(text::decimal_text(e.pid as u64).as_str());
    s.append(" 🛰 ");
    s.append(cooldown.as_str());
    s.append(" · ");
    s.append(status.as_str());
    s.append(" · ");
    s.append(text::decimal_text(e.buffer_len as u64).as_str());
    s.append("/");
    s.append(text::decimal_text(e.capture_cap as u64).as_str());
    s.append(" lines · ");
    s.append(e.command.as_str());
    s.append(label.as_str());
    s.append("\n");
    s
}

/// Renders the listing of background processes for the user.
pub fn render_bg_listing(bg: &[BgListEntry]) -> (r: String)
    ensures
        r@ == listing_text(bg@),
{
    if bg.len() == 0 {
        return "No background processes.".to_owned();
    }
    let mut list = String::new();
    let mut i: usize = 0;
    assert(bg@.take(0) =~= Seq::<BgListEntry>::empty());
    while i < bg.len()
        invariant
            i <= bg@.len(),
            list@ == listing_rows(bg@.take(i as int)),
        decreases bg@.len() - i,
    {
        assert(bg@.take(i + 1).drop_last() =~= bg@.take(i as int));
        list.append(listing_line(&bg[i]).as_str());
        i += 1;
    }
    assert(bg@.take(bg@.len() as int) =~= bg@);
    let mut s = "Background processes (".to_owned();
    s.append(text::decimal_text(bg.len() as u64).as_str());
    s.append("):\n");
    s.append(list.as_str());
    s
}

/// What is shown of a text is what is shown of its parts, in their order: a character
/// stays exactly where it is no backtick and no control character.
pub proof fn law_shown_characters(a: Seq<char>, b: Seq<char>, c: char)
    ensures
        shown_chars(a + b) == shown_chars(a) + shown_chars(b),
        shown_chars(seq![c]) == (if c == '`' || (c as u32) < 32 || (c as u32) == 127 {
            Seq::<char>::empty()
        } else {
            seq![c]
        }),
    decreases b.len(),
{
    reveal_with_fuel(shown_chars, 2);
    assert(seq![c].drop_last() =~= Seq::<char>::empty());
    if b.len() == 0 {
        assert(a + b =~= a);
    } else {
        assert((a + b).drop_last() =~= a + b.drop_last());
        law_shown_characters(a, b.drop_last(), c);
    }
}

/// A command of one line that can be shown and is not too long is shown as it is; one
/// that is too long is cut behind its first 80 characters, with an ellipsis. Only the
/// first line counts.
pub proof fn law_short_commands_stay(cmd: Seq<char>, more: Seq<char>)
    requires
        forall|i: int|
            0 <= i < cmd.len() ==> #[trigger] cmd[i] != '`' && (cmd[i] as u32) >= 32 && (
            cmd[i] as u32) != 127,
    ensures
        cmd.len() <= 80 ==> sanitized(cmd) == cmd,
        cmd.len() > 80 ==> sanitized(cmd) == cmd.take(80) + "…"@,
        sanitized(cmd.push('\n') + more) == sanitized(cmd),
{
    assert forall|i: int| 0 <= i < cmd.len() implies is_shown(#[trigger] cmd[i]) by {}
    lemma_one_line(cmd);
    lemma_shown_chars_kept(cmd);
    lemma_line_cut(cmd, more);
}

proof fn lemma_line_cut(s: Seq<char>, more: Seq<char>)
    requires
        forall|i: int| 0 <= i < s.len() ==> is_shown(#[trigger] s[i]),
    ensures
        text::split_first(s.push('\n') + more, '\n').0 == s,
    decreases s.len(),
{
    let t = s.push('\n') + more;
    if s.len() > 0 {
        assert(is_shown(s[0]));
        assert(t[0] == s[0]);
        let d = s.drop_first();
        assert forall|i: int| 0 <= i < d.len() implies is_shown(#[trigger] d[i]) by {
            assert(d[i] == s[i + 1]);
        }
        lemma_line_cut(d, more);
        assert(t.drop_first() =~= d.push('\n') + more);
        assert(seq![s[0]] + d =~= s);
    } else {
        assert(t[0] == '\n');
    }
}

/// The running processes of a list are those of its parts, in their order: each process
/// that runs, and no other.
pub proof fn law_running_processes(a: Seq<BgListEntry>, b: Seq<BgListEntry>, e: BgListEntry)
    ensures
        running(a + b) == running(a) + running(b),
        running(seq![e]) == (if e.status is Running {
            seq![e]
        } else {
            Seq::<BgListEntry>::empty()
        }),
    decreases b.len(),
{
    reveal_with_fuel(running, 2);
    assert(seq![e].drop_last() =~= Seq::<BgListEntry>::empty());
    if b.len() == 0 {
        assert(a + b =~= a);
    } else {
        assert((a + b).drop_last() =~= a + b.drop_last());
        law_running_processes(a, b.drop_last(), e);
    }
}

/// Ordering by id loses no process and adds none: `o` gives the place from which each
/// comes. No id stands before a smaller one.
pub proof fn law_ordered_by_id(s: Seq<BgListEntry>) -> (o: Seq<int>)
    ensures
        by_id(s).len() == s.len(),
        o.len() == s.len(),
        o.no_duplicates(),
        forall|i: int|
            0 <= i < o.len() ==> 0 <= #[trigger] o[i] < s.len() && by_id(s)[i] == s[o[i]],
        forall|i: int, j: int|
            0 <= i < j < s.len() ==> (#[trigger] by_id(s)[i]).id <= (#[trigger] by_id(s)[j]).id,
{
    let le = order::by_number(ids(s));
    order::lemma_by_number_orders(ids(s));
    order::law_stable_order_arranges(s.len(), le);
    let o = order::stable_order(s.len(), le);
    assert forall|i: int, j: int| 0 <= i < j < s.len() implies (#[trigger] by_id(s)[i]).id <= (
    #[trigger] by_id(s)[j]).id by {
        assert(le(o[i], o[j]));
    }
    o
}

/// The rows of a list are those of its parts, one behind the other: one line for each
/// process, with its id, its cleaned command and its label.
pub proof fn law_rows(a: Seq<BgListEntry>, b: Seq<BgListEntry>, e: BgListEntry)
    ensures
        rows(a + b) == rows(a) + rows(b),
        rows(Seq::<BgListEntry>::empty()) == Seq::<char>::empty(),
        e.label is None ==> rows(seq![e]) == "- #"@ + text::decimal(e.id as nat) + " `"@
            + sanitized(e.command@) + "`\n"@,
        e.label is Some ==> rows(seq![e]) == "- #"@ + text::decimal(e.id as nat) + " `"@
            + sanitized(e.command@) + "` ("@ + e.label->0@ + ")\n"@,
    decreases b.len(),
{
    reveal_with_fuel(rows, 2);
    assert(seq![e].drop_last() =~= Seq::<BgListEntry>::empty());
    reveal_strlit("- #");
    reveal_strlit("- ");
    reveal_strlit("#");
    reveal_strlit("`\n");
    reveal_strlit("`");
    reveal_strlit("\n");
    reveal_strlit("` (");
    reveal_strlit(" (");
    reveal_strlit(")\n");
    reveal_strlit(")");
    assert("- #"@ =~= "- "@ + "#"@);
    assert("`\n"@ =~= "`"@ + "\n"@);
    assert("` ("@ =~= "`"@ + " ("@);
    assert(")\n"@ =~= ")"@ + "\n"@);
    let one = rows(seq![e]);
    assert(one =~= "- "@ + item_text(e) + "\n"@);
    let body = text::decimal(e.id as nat) + " `"@ + sanitized(e.command@);
    match e.label {
        None => {
            assert(one =~= "- #"@ + text::decimal(e.id as nat) + " `"@ + sanitized(e.command@)
                + "`\n"@);
        },
        Some(l) => {
            assert(one =~= "- #"@ + text::decimal(e.id as nat) + " `"@ + sanitized(e.command@)
                + "` ("@ + l@ + ")\n"@);
        },
    }
    if b.len() == 0 {
        assert(a + b =~= a);
        assert(rows(b) =~= Seq::<char>::empty());
    } else {
        assert((a + b).drop_last() =~= a + b.drop_last());
        law_rows(a, b.drop_last(), e);
        assert(rows(a + b) =~= rows(a) + rows(b));
    }
}

/// A sub-agent is told of every running process, in the order of their ids, and of no
/// other.
pub proof fn law_snapshot_lists_what_runs(bg: Seq<BgListEntry>) -> (r: (Seq<char>, Seq<char>))
    ensures
        snapshot_text(bg).len() == 0 <==> forall|i: int|
            0 <= i < bg.len() ==> !((#[trigger] bg[i]).status is Running),
        snapshot_text(bg).len() > 0 ==> snapshot_text(bg) == r.0 + rows(by_id(running(bg))) + r.1,
{
    if forall|i: int| 0 <= i < bg.len() ==> !((#[trigger] bg[i]).status is Running) {
        lemma_running_none(bg);
    } else {
        let i = choose|i: int| 0 <= i < bg.len() && (#[trigger] bg[i]).status is Running;
        let a = bg.take(i);
        let b = bg.skip(i + 1);
        assert(bg =~= a + seq![bg[i]] + b);
        law_running_processes(a + seq![bg[i]], b, bg[i]);
        law_running_processes(a, seq![bg[i]], bg[i]);
        assert(running(bg).len() > 0);
        reveal_strlit("# Background Processes (shared session registry)\n\n");
        assert(snapshot_text(bg).len() > 0);
    }
    (
        "# Background Processes (shared session registry)\n\n"@,
        "\nThese are live now and shared with the orchestrator and other roles — ids are one namespace. Reuse them instead of starting a duplicate. If you stop one, or leave a new one running, say so in your final answer. This is a snapshot from when your task started; `bash_bg list` gives the live picture."@,
    )
}

/// The processes of `a` alone are those whose id `b` does not list, each id once and with
/// its last entry, in the order of `a`. `at` gives the place of each.
pub proof fn law_processes_of_one_list_alone(
    a: Seq<BgListEntry>,
    b: Seq<BgListEntry>,
    n: nat,
) -> (at: Seq<int>)
    requires
        n <= a.len(),
    ensures
        at.len() == only_in_upto(a, b, n).len(),
        forall|k: int|
            0 <= k < at.len() ==> 0 <= #[trigger] at[k] < n && only_in_upto(a, b, n)[k] == a[at[k]]
                && (forall|j: int| 0 <= j < b.len() ==> (#[trigger] b[j]).id != a[at[k]].id) && (
            forall|j: int| at[k] < j < a.len() ==> (#[trigger] a[j]).id != a[at[k]].id),
        forall|k: int, l: int| 0 <= k < l < at.len() ==> #[trigger] at[k] < #[trigger] at[l],
        forall|i: int|
            0 <= i < n && (forall|j: int| 0 <= j < b.len() ==> (#[trigger] b[j]).id != a[i].id) && (
            forall|j: int| i < j < a.len() ==> (#[trigger] a[j]).id != a[i].id) ==> #[trigger]
            at.contains(i),
    decreases n,
{
    if n == 0 {
        Seq::empty()
    } else {
        let m = n - 1;
        let p = law_processes_of_one_list_alone(a, b, m as nat);
        let tail = a.skip(m + 1);
        assert(is_only_in(a, b, m) <==> (forall|j: int|
            0 <= j < b.len() ==> (#[trigger] b[j]).id != a[m].id) && (forall|j: int|
            m < j < a.len() ==> (#[trigger] a[j]).id != a[m].id)) by {
            if is_only_in(a, b, m) {
                assert forall|j: int| m < j < a.len() implies (#[trigger] a[j]).id != a[m].id by {
                    assert(tail[j - m - 1] == a[j]);
                }
            } else if has_id(tail, a[m].id) {
                let j = choose|j: int| 0 <= j < tail.len() && (#[trigger] tail[j]).id == a[m].id;
                assert(a[j + m + 1].id == a[m].id);
            }
        }
        let r = if is_only_in(a, b, m) {
            p.push(m)
        } else {
            p
        };
        assert forall|i: int|
            0 <= i < n && (forall|j: int| 0 <= j < b.len() ==> (#[trigger] b[j]).id != a[i].id) && (
            forall|j: int|
                i < j < a.len() ==> (#[trigger] a[j]).id != a[i].id) implies #[trigger] r.contains(
            i,
        ) by {
            if i == m {
                assert(r[p.len() as int] == m);
            } else {
                assert(p.contains(i));
                let k = choose|k: int| 0 <= k < p.len() && p[k] == i;
                assert(r[k] == i);
            }
        }
        r
    }
}

/// The report has one line for what was left running and one for what was stopped, in
/// this order, and neither where there is nothing to say; each names every process with
/// its id and command, in the order of the ids.
pub proof fn law_report_names_both(before: Seq<BgListEntry>, after: Seq<BgListEntry>)
    ensures
        ({
            let started = running(only_in(after, before));
            let stopped = only_in(before, after);
            let left = "[bg] this delegation left running: "@ + text::join(
                items(by_id(started)),
                ", "@,
            );
            let gone = "[bg] this delegation stopped: "@ + text::join(items(by_id(stopped)), ", "@);
            &&& started.len() == 0 && stopped.len() == 0 ==> delta_text(before, after).len() == 0
            &&& started.len() > 0 && stopped.len() == 0 ==> delta_text(before, after) == left
            &&& started.len() == 0 && stopped.len() > 0 ==> delta_text(before, after) == gone
            &&& started.len() > 0 && stopped.len() > 0 ==> delta_text(before, after) == left + "\n"@
                + gone
        }),
{
    let started = left_running(before, after);
    let stopped = only_in(before, after);
    reveal_strlit("[bg] this delegation ");
    reveal_strlit("left running");
    reveal_strlit("stopped");
    reveal_strlit(": ");
    reveal_strlit("[bg] this delegation left running: ");
    reveal_strlit("[bg] this delegation stopped: ");
    assert("[bg] this delegation "@ + "left running"@ + ": "@
        =~= "[bg] this delegation left running: "@);
    assert("[bg] this delegation "@ + "stopped"@ + ": "@ =~= "[bg] this delegation stopped: "@);
    let l = delta_line("left running"@, started);
    let g = delta_line("stopped"@, stopped);
    let e = Seq::<Seq<char>>::empty();
    assert(e + e =~= e);
    assert(seq![l] + e =~= seq![l]);
    assert(e + seq![g] =~= seq![g]);
    text::law_join(seq![l], g, "\n"@);
    assert(seq![l] + seq![g] =~= seq![l].push(g));
}

/// Each process is named by its id, its cleaned command and its label.
pub proof fn law_items_name_the_processes(s: Seq<BgListEntry>, i: int)
    requires
        0 <= i < s.len(),
    ensures
        items(s).len() == s.len(),
        items(s)[i] == "#"@ + text::decimal(s[i].id as nat) + " `"@ + sanitized(s[i].command@)
            + "`"@ + (match s[i].label {
            Some(l) => " ("@ + l@ + ")"@,
            None => Seq::<char>::empty(),
        }),
{
    if let Some(l) = s[i].label {
        assert(items(s)[i] =~= "#"@ + text::decimal(s[i].id as nat) + " `"@ + sanitized(
            s[i].command@,
        ) + "`"@ + (" ("@ + l@ + ")"@));
    } else {
        assert(items(s)[i] =~= "#"@ + text::decimal(s[i].id as nat) + " `"@ + sanitized(
            s[i].command@,
        ) + "`"@ + Seq::<char>::empty());
    }
}

/// The listing for the user counts the processes and has a line for each, in their
/// order: the lines of a list are those of its parts.
pub proof fn law_listing_has_every_process(
    a: Seq<BgListEntry>,
    b: Seq<BgListEntry>,
    e: BgListEntry,
)
    ensures
        listing_rows(a + b) == listing_rows(a) + listing_rows(b),
        listing_rows(seq![e]) == listing_row(e),
        a.len() > 0 ==> listing_text(a) == "Background processes ("@ + text::decimal(a.len())
            + "):\n"@ + listing_rows(a),
    decreases b.len(),
{
    reveal_with_fuel(listing_rows, 2);
    assert(seq![e].drop_last() =~= Seq::<BgListEntry>::empty());
    assert(listing_rows(seq![e]) =~= listing_row(e));
    if b.len() == 0 {
        assert(a + b =~= a);
    } else {
        assert((a + b).drop_last() =~= a + b.drop_last());
        law_listing_has_every_process(a, b.drop_last(), e);
        assert(listing_rows(a + b) =~= listing_rows(a) + listing_rows(b));
    }
}

/// A line of the listing gives the id, the process, the cooldown, the state, how much is
/// buffered of how much, the command, and the label where there is one, in this order.
pub proof fn law_listing_line_tells_all(e: BgListEntry)
    ensures
        listing_row(e) == "  #"@ + text::decimal(e.id as nat) + " pid="@ + text::decimal(
            e.pid as nat,
        ) + " 🛰 "@ + (if e.cooldown.secs == 0 && e.cooldown.nanos == 0 {
            "real-time"@
        } else {
            text::decimal(e.cooldown.secs as nat) + "s cooldown"@
        }) + " · "@ + (match e.status {
            BgStatus::Running => "running"@,
            BgStatus::Exited { code } => "exited("@ + text::decimal_signed(code as int) + ")"@,
        }) + " · "@ + text::decimal(e.buffer_len as nat) + "/"@ + text::decimal(
            e.capture_cap as nat,
        ) + " lines · "@ + e.command@ + (match e.label {
            Some(l) => " ["@ + l@ + "]"@,
            None => Seq::<char>::empty(),
        }) + "\n"@,
{
}

} // verus!
