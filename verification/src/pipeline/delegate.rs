//! Delegation: one task to one sub-agent.
//!
//! A delegation is run from outside: the library says what the sub-agent is
//! built from, whether a failed attempt is worth another, and what the
//! orchestrator gets back.

use vstd::prelude::*;
use crate::bg;
use crate::bg::BgListEntry;
use crate::message::Message;
use crate::order;
use crate::pipeline::handoff;
use crate::pipeline::handoff::{Handoff, HandoffStep, PromptFailure};
use crate::pipeline::registry;
use crate::pipeline::registry::{ResolvedRole, SubAgentRegistry};
use crate::pipeline::sub_agent_messages;
use crate::prompt;
use crate::prompt::{Environment, ShellKind};
use crate::table;
use crate::table::TextMap;
use crate::text;

verus! {

/// What the orchestrator passes to the delegate tool.
#[derive(Debug, PartialEq)]
pub struct DelegateArgs {
    pub role: String,
    pub task: String,
    /// The orchestrator's todo item that the delegation fulfils.
    pub parent_task_id: usize,
}

/// Why a delegation fails.
#[derive(Debug, PartialEq)]
pub enum DelegateError {
    UnknownRole { role: String, available: Vec<String> },
    Build { role: String, error: String },
    Run { role: String, error: String },
    UnknownParentTask { id: usize, list: String },
}

impl DelegateError {
    /// The message for the error.
    pub open spec fn text(self) -> Seq<char> {
        match self {
            DelegateError::UnknownRole { role, available } => "Unknown role '"@ + role@
                + "'. Available: "@ + handoff::debug_list(text::strs(available@)),
            DelegateError::Build { role, error } => "Failed to build sub-agent for role '"@ + role@
                + "': "@ + error@,
            DelegateError::Run { role, error } => "Sub-agent '"@ + role@ + "' failed: "@ + error@,
            DelegateError::UnknownParentTask { id, list } => "Unknown parent_task_id "@
                + text::decimal(id as nat)
                + ": no such item in your todo list. Add a todo item for this delegation first (todo action=add), then pass its id. Your list:\n"@
                + list@,
        }
    }

    /// The message for the error.
    pub fn message(&self) -> (r: String)
        ensures
            r@ == self.text(),
    {
        match self {
            DelegateError::UnknownRole { role, available } => {
                let mut m = "Unknown role '".to_owned();
                m.append(role.as_str());
                m.append("'. Available: ");
                m.append(handoff::debug_strings(available).as_str());
                m
            },
            DelegateError::Build { role, error } => {
                let mut m = "Failed to build sub-agent for role '".to_owned();
                m.append(role.as_str());
                m.append("': ");
                m.append(error.as_str());
                m
            },
            DelegateError::Run { role, error } => {
                let mut m = "Sub-agent '".to_owned();
                m.append(role.as_str());
                m.append("' failed: ");
                m.append(error.as_str());
                m
            },
            DelegateError::UnknownParentTask { id, list } => {
                let mut m = "Unknown parent_task_id ".to_owned();
                m.append(text::decimal_text(*id as u64).as_str());
                m.append(
                    ": no such item in your todo list. Add a todo item for this delegation first (todo action=add), then pass its id. Your list:\n",
                );
                m.append(list.as_str());
                m
            },
        }
    }
}

/// The orchestrator's todo list at one moment.
#[derive(Debug, PartialEq)]
pub struct TodoSnapshot {
    /// The ids of the items, whatever their status.
    pub ids: Vec<usize>,
    /// The list as the todo tool prints it.
    pub rendered: String,
}

/// Checks that a delegation's parent is an item of the todo list. The item's
/// status does not matter.
pub fn validate_parent(list: &TodoSnapshot, parent_task_id: usize) -> (r: Result<
    (),
    DelegateError,
>)
    ensures
        match r {
            Ok(_) => list.ids@.contains(parent_task_id),
            Err(e) => !list.ids@.contains(parent_task_id) && e == (DelegateError::UnknownParentTask {
                id: parent_task_id,
                list: list.rendered,
            }),
        },
{
    let mut i: usize = 0;
    while i < list.ids.len()
        invariant
            i <= list.ids@.len(),
            forall|j: int| 0 <= j < i ==> (#[trigger] list.ids@[j]) != parent_task_id,
        decreases list.ids@.len() - i,
    {
        if list.ids[i] == parent_task_id {
            return Ok(());
        }
        i += 1;
    }
    Err(DelegateError::UnknownParentTask { id: parent_task_id, list: list.rendered.clone() })
}

// ---------------------------------------------------------------------------
// The sub-agent's shell environment
// ---------------------------------------------------------------------------

/// How the shell tool is configured.
#[derive(Debug, PartialEq)]
pub struct BashConfig {
    pub env: Option<TextMap>,
}

/// The entries of `base` with those of `over` stored on top.
pub open spec fn overlaid(
    base: Seq<(Seq<char>, String)>,
    over: Seq<(Seq<char>, String)>,
) -> Seq<(Seq<char>, String)>
    decreases over.len(),
{
    if over.len() == 0 {
        base
    } else {
        table::stored(overlaid(base, over.drop_last()), over.last().0, over.last().1)
    }
}

/// The entries of an environment that may be missing.
pub open spec fn env_entries(env: Option<TextMap>) -> Seq<(Seq<char>, String)> {
    match env {
        Some(m) => m@,
        None => Seq::empty(),
    }
}

/// Puts a role's environment on top of the base environment. The base itself
/// is left alone.
pub fn merge_role_env(base: &BashConfig, role_env: Option<&TextMap>) -> (r: BashConfig)
    ensures
        match role_env {
            Some(e) => r.env matches Some(m) && m@ == overlaid(env_entries(base.env), e@),
            None => registry::same_env(r.env, base.env),
        },
{
    match role_env {
        None => BashConfig {
            env: match &base.env {
                Some(m) => Some(m.copy()),
                None => None,
            },
        },
        Some(over) => {
            let mut merged: TextMap = match &base.env {
                Some(m) => m.copy(),
                None => TextMap::new(),
            };
            let n: usize = over.len();
            let mut i: usize = 0;
            assert(over@.take(0) =~= Seq::<(Seq<char>, String)>::empty());
            while i < n
                invariant
                    n == over@.len(),
                    i <= n,
                    merged@ == overlaid(env_entries(base.env), over@.take(i as int)),
                decreases n - i,
            {
                assert(over@.take(i + 1).drop_last() =~= over@.take(i as int));
                merged.insert(over.name_at(i).clone(), over.value_at(i).clone());
                i += 1;
            }
            assert(over@.take(n as int) =~= over@);
            BashConfig { env: Some(merged) }
        },
    }
}

/// In a merged environment the role's variables win, and the base's others stay.
pub proof fn law_role_env_wins(
    base: Seq<(Seq<char>, String)>,
    over: Seq<(Seq<char>, String)>,
    key: Seq<char>,
)
    requires
        table::names(over).no_duplicates(),
    ensures
        table::lookup(overlaid(base, over), key) == (if table::lookup(over, key) is Some {
            table::lookup(over, key)
        } else {
            table::lookup(base, key)
        }),
    decreases over.len(),
{
    if over.len() > 0 {
        let front = over.drop_last();
        let last = over.last();
        assert(table::names(front).no_duplicates()) by {
            assert forall|i: int, j: int|
                0 <= i < front.len() && 0 <= j < front.len() && i != j implies table::names(front)[i]
                != table::names(front)[j] by {
                assert(table::names(over)[i] != table::names(over)[j]);
            }
        }
        law_role_env_wins(base, front, key);
        table::law_lookup_after_stored(overlaid(base, front), last.0, last.1, key);
        table::lemma_lookup(front, key);
        table::lemma_lookup(over, key);
        if key == last.0 {
            assert forall|j: int| 0 <= j < over.len() - 1 implies (#[trigger] over[j]).0
                != last.0 by {
                assert(table::names(over)[j] != table::names(over)[over.len() - 1]);
            }
            table::lemma_lookup_at(over, over.len() - 1);
        } else {
            lemma_lookup_push(front, last, key);
            assert(front.push(last) =~= over);
        }
    }
}

proof fn lemma_lookup_push(
    s: Seq<(Seq<char>, String)>,
    e: (Seq<char>, String),
    key: Seq<char>,
)
    requires
        e.0 != key,
    ensures
        table::lookup(s.push(e), key) == table::lookup(s, key),
    decreases s.len(),
{
    let t = s.push(e);
    if s.len() == 0 {
        assert(t.drop_first() =~= Seq::<(Seq<char>, String)>::empty());
        assert(table::lookup(t.drop_first(), key) is None);
    } else {
        assert(t.drop_first() =~= s.drop_first().push(e));
        lemma_lookup_push(s.drop_first(), e, key);
    }
}

// ---------------------------------------------------------------------------
// The sub-agent's preamble
// ---------------------------------------------------------------------------

/// The listing of background processes as a section of the preamble.
pub open spec fn bg_section(bg: Seq<BgListEntry>) -> Seq<char> {
    let s = bg::snapshot_text(bg);
    if s.len() == 0 {
        Seq::empty()
    } else {
        "\n"@ + s + "\n"@
    }
}

/// A sub-agent's preamble: the role's prompt, the environment, the role's
/// skills, the running background processes, and the repository's `agents.md`
/// where the role asks for it. No persona, no core guidance, no memory.
pub open spec fn preamble_text(
    role_prompt: Seq<char>,
    shell: Option<ShellKind>,
    env: Environment,
    skills: Seq<char>,
    bg: Seq<BgListEntry>,
    agents_md: bool,
    agents_md_content: Option<Seq<char>>,
) -> Seq<char> {
    let repo = if agents_md {
        prompt::agents_md_text(agents_md_content)
    } else {
        Seq::empty()
    };
    role_prompt + prompt::env_text(shell, env) + skills + bg_section(bg) + repo
}

/// Builds a sub-agent's preamble. `skills` is the section that lists the skills
/// the role sees.
pub fn build_sub_agent_preamble(
    role_prompt: &str,
    shell_kind: Option<&ShellKind>,
    env: &Environment,
    skills: &str,
    bg: &[BgListEntry],
    agents_md: bool,
    agents_md_content: Option<&str>,
) -> (r: String)
    ensures
        r@ == preamble_text(
            role_prompt@,
            prompt::shell_of(shell_kind),
            *env,
            skills@,
            bg@,
            agents_md,
            text::opt_str(agents_md_content),
        ),
{
    let mut preamble = role_prompt.to_owned();
    preamble.append(prompt::env_block(shell_kind, env).as_str());
    preamble.append(skills);
    let snapshot = bg::render_bg_snapshot(bg);
    let section: String = if snapshot.as_str().is_empty() {
        String::new()
    } else {
        let mut s = "\n".to_owned();
        s.append(snapshot.as_str());
        s.append("\n");
        s
    };
    preamble.append(section.as_str());
    let repo: String = if agents_md {
        prompt::agents_md_section(agents_md_content)
    } else {
        String::new()
    };
    preamble.append(repo.as_str());
    preamble
}

/// A preamble opens with the role's own prompt, and a role that does not ask for
/// `agents.md` never sees it.
pub proof fn law_preamble_is_the_roles_own(
    role_prompt: Seq<char>,
    shell: Option<ShellKind>,
    env: Environment,
    skills: Seq<char>,
    bg: Seq<BgListEntry>,
    content: Option<Seq<char>>,
    other: Option<Seq<char>>,
)
    ensures
        text::starts_with(
            preamble_text(role_prompt, shell, env, skills, bg, true, content),
            role_prompt,
        ),
        preamble_text(role_prompt, shell, env, skills, bg, false, content) == preamble_text(
            role_prompt,
            shell,
            env,
            skills,
            bg,
            false,
            other,
        ),
{
    let p = preamble_text(role_prompt, shell, env, skills, bg, true, content);
    assert(p.take(role_prompt.len() as int) =~= role_prompt);
}

// ---------------------------------------------------------------------------
// Running a delegation
// ---------------------------------------------------------------------------

/// What a sub-agent is built from.
#[derive(Debug, PartialEq)]
pub struct Delegation<'a> {
    pub role: &'a ResolvedRole,
    pub bash: BashConfig,
    pub preamble: String,
}

/// What a delegation is started from: the session as the orchestrator has it.
#[derive(Debug, PartialEq)]
pub struct DelegationContext<'a> {
    pub bash: &'a BashConfig,
    pub shell_kind: Option<&'a ShellKind>,
    pub env: &'a Environment,
    /// The section that lists the skills the role sees.
    pub skills: &'a str,
    pub bg: &'a [BgListEntry],
    /// The content of the repository's `agents.md`.
    pub agents_md: Option<&'a str>,
}

/// Starts a delegation. The role and the parent task are checked first, in this
/// order.
pub fn begin_delegation<'a>(
    registry: &'a SubAgentRegistry,
    args: &DelegateArgs,
    todo: &TodoSnapshot,
    ctx: &DelegationContext<'_>,
) -> (r: Result<Delegation<'a>, DelegateError>)
    ensures
        match table::lookup(registry@, args.role@) {
            None => r matches Err(DelegateError::UnknownRole { role, available }) && role
                == args.role && text::strs(available@) == order::sorted_texts(
                table::names(registry@),
            ),
            Some(role) => if todo.ids@.contains(args.parent_task_id) {
                r matches Ok(d) && *d.role == role && d.preamble@ == preamble_text(
                    role.prompt@,
                    prompt::shell_of(ctx.shell_kind),
                    *ctx.env,
                    ctx.skills@,
                    ctx.bg@,
                    role.agents_md,
                    text::opt_str(ctx.agents_md),
                ) && match role.env {
                    Some(e) => d.bash.env matches Some(m) && m@ == overlaid(
                        env_entries(ctx.bash.env),
                        e@,
                    ),
                    None => registry::same_env(d.bash.env, ctx.bash.env),
                }
            } else {
                r == Err::<Delegation<'a>, DelegateError>(
                    DelegateError::UnknownParentTask {
                        id: args.parent_task_id,
                        list: todo.rendered,
                    },
                )
            },
        },
{
    let role = match registry.role(args.role.as_str()) {
        Some(role) => role,
        None => {
            return Err(
                DelegateError::UnknownRole {
                    role: args.role.clone(),
                    available: registry.available_roles(),
                },
            );
        },
    };
    if let Err(e) = validate_parent(todo, args.parent_task_id) {
        return Err(e);
    }
    let role_env: Option<&TextMap> = match &role.env {
        Some(m) => Some(m),
        None => None,
    };
    let bash = merge_role_env(ctx.bash, role_env);
    let preamble = build_sub_agent_preamble(
        role.prompt.as_str(),
        ctx.shell_kind,
        ctx.env,
        ctx.skills,
        ctx.bg,
        role.agents_md,
        ctx.agents_md,
    );
    Ok(Delegation { role, bash, preamble })
}

/// Whether a failed attempt gets another: only a transient failure does, and
/// only while the budget of retries lasts.
pub fn may_retry(transient: bool, attempt: usize, max_retries: usize) -> (r: bool)
    ensures
        r == (transient && attempt < max_retries),
{
    transient && attempt < max_retries
}

/// How running a sub-agent ended.
#[derive(Debug, PartialEq)]
pub enum DelegationOutcome {
    /// It answered.
    Finished(String),
    /// It failed, and no retry is left or would help.
    Failed(PromptFailure),
    /// Its time ran out and it was cancelled.
    TimedOut { budget_secs: u64 },
}

/// The answer as the orchestrator may see it: never blank.
pub open spec fn normalized(role: Seq<char>, raw: Seq<char>) -> Seq<char> {
    if text::is_blank(raw) {
        "[sub-agent '"@ + role + "' produced no output — re-run with a more focused task.]"@
    } else {
        raw
    }
}

/// Replaces a blank answer by one that names the role.
pub fn normalize_delegate_output(role: &str, raw: String) -> (r: String)
    ensures
        r@ == normalized(role@, raw@),
{
    if text::text_is_blank(raw.as_str()) {
        let mut s = "[sub-agent '".to_owned();
        s.append(role);
        s.append("' produced no output — re-run with a more focused task.]");
        s
    } else {
        raw
    }
}

/// The orchestrator never sees a blank answer.
pub proof fn law_output_never_blank(role: Seq<char>, raw: Seq<char>)
    ensures
        !text::is_blank(normalized(role, raw)),
{
    if text::is_blank(raw) {
        let s = normalized(role, raw);
        reveal_strlit("[sub-agent '");
        text::lemma_blank(s);
        assert(s[0] == '[');
        assert(!text::is_space(s[0]));
    }
}

/// The error of a delegation whose time ran out.
pub open spec fn timeout_error(budget_secs: nat) -> Seq<char> {
    "exceeded its "@ + text::decimal(budget_secs) + "s wall-clock budget and was cancelled"@
}

/// Whether `h` is the handoff of a delegation that ran out of time.
pub open spec fn is_timeout_handoff(h: Handoff, budget_secs: nat, snapshot: Seq<Message>) -> bool {
    handoff::is_failed(h, timeout_error(budget_secs), snapshot)
}

/// Turns the end of a sub-agent's run into the handoff that reports it; `None`
/// where the sub-agent answered. `snapshot` is its history as last seen.
pub fn failure_handoff(outcome: DelegationOutcome, snapshot: Vec<Message>) -> (r: Result<
    Handoff,
    String,
>)
    ensures
        match outcome {
            DelegationOutcome::Finished(t) => r == Err::<Handoff, String>(t),
            DelegationOutcome::TimedOut { budget_secs } => r matches Ok(h) && is_timeout_handoff(
                h,
                budget_secs as nat,
                snapshot@,
            ),
            DelegationOutcome::Failed(e) => r matches Ok(h) && handoff::classified(
                e,
                snapshot@,
                h,
            ),
        },
{
    match outcome {
        DelegationOutcome::Finished(t) => Err(t),
        DelegationOutcome::TimedOut { budget_secs } => {
            let mut error = "exceeded its ".to_owned();
            error.append(text::decimal_text(budget_secs).as_str());
            error.append("s wall-clock budget and was cancelled");
            Ok(Handoff::Failed { error, history: snapshot })
        },
        DelegationOutcome::Failed(e) => Ok(handoff::classify(e, snapshot)),
    }
}

/// Whether the user stopped the sub-agent.
pub open spec fn is_stop(outcome: DelegationOutcome) -> bool {
    outcome matches DelegationOutcome::Failed(PromptFailure::PromptCancelled { reason, .. })
        && reason@ == "stop"@
}

/// Whether `step` begins the handoff `h` of a sub-agent that failed or ran out of
/// time.
pub open spec fn handed_off(
    role: Seq<char>,
    outcome: DelegationOutcome,
    snapshot: Seq<Message>,
    h: Handoff,
    step: HandoffStep,
) -> bool {
    &&& match outcome {
        DelegationOutcome::TimedOut { budget_secs } => is_timeout_handoff(
            h,
            budget_secs as nat,
            snapshot,
        ),
        DelegationOutcome::Failed(e) => handoff::classified(e, snapshot, h),
        DelegationOutcome::Finished(_) => false,
    }
    &&& handoff::begun(role, h, step)
}

/// Settles a delegation once the sub-agent's run has ended. A stop by the user
/// stays an error, so that the whole turn unwinds; an answer is the result; any
/// other end goes through the handoff.
pub fn settle(role: &str, outcome: DelegationOutcome, snapshot: Vec<Message>) -> (r: Result<
    HandoffStep,
    DelegateError,
>)
    ensures
        is_stop(outcome) ==> (r matches Err(DelegateError::Run { role: n, error }) && n@ == role@
            && error@ == "PromptCancelled: stop"@),
        !is_stop(outcome) ==> r is Ok,
        outcome matches DelegationOutcome::Finished(t) ==> (r matches Ok(HandoffStep::Done(s)) && s@
            == normalized(role@, t@)),
        !is_stop(outcome) && !(outcome is Finished) ==> r is Ok && exists|h: Handoff| #[trigger]
            handed_off(role@, outcome, snapshot@, h, r->Ok_0),
{
    let h = match failure_handoff(outcome, snapshot) {
        Err(answer) => {
            return Ok(HandoffStep::Done(normalize_delegate_output(role, answer)));
        },
        Ok(h) => h,
    };
    match h {
        Handoff::Abort(e) => {
            assert("PromptCancelled: "@ + "stop"@ =~= "PromptCancelled: stop"@) by {
                reveal_strlit("PromptCancelled: ");
                reveal_strlit("stop");
                reveal_strlit("PromptCancelled: stop");
            }
            Err(DelegateError::Run { role: role.to_owned(), error: e.describe() })
        },
        h => {
            let ghost h0 = h;
            let step = handoff::begin_handoff(role, h);
            assert(handed_off(role@, outcome, snapshot@, h0, step));
            Ok(step)
        },
    }
}

/// A delegation's result with its footprint on the background processes behind
/// it.
pub open spec fn with_delta(
    result: Seq<char>,
    before: Seq<BgListEntry>,
    after: Seq<BgListEntry>,
) -> Seq<char> {
    let d = bg::delta_text(before, after);
    if d.len() == 0 {
        result
    } else {
        result + "\n\n"@ + d
    }
}

/// Appends a delegation's footprint on the background processes to its result.
pub fn report_footprint(result: String, before: &[BgListEntry], after: &[BgListEntry]) -> (r:
    String)
    ensures
        r@ == with_delta(result@, before@, after@),
{
    let delta = bg::render_bg_delta(before, after);
    if delta.as_str().is_empty() {
        result
    } else {
        let mut s = result;
        s.append("\n\n");
        s.append(delta.as_str());
        s
    }
}

/// A delegation's result as the orchestrator gets it: the footprint on the
/// background processes behind it, and the pointer to the saved messages last.
pub open spec fn delivered(
    role: Seq<char>,
    result: Seq<char>,
    before: Seq<BgListEntry>,
    after: Seq<BgListEntry>,
    kept: nat,
    saved: Option<Seq<char>>,
) -> Seq<char> {
    sub_agent_messages::with_note(with_delta(result, before, after), role, kept, saved)
}

/// Puts a delegation's result together. `saved` is the file that keeps `kept` of
/// the sub-agent's own messages, where they could be saved.
pub fn deliver(
    role: &str,
    result: String,
    before: &[BgListEntry],
    after: &[BgListEntry],
    kept: usize,
    saved: Option<&str>,
) -> (r: String)
    ensures
        r@ == delivered(role@, result@, before@, after@, kept as nat, text::opt_str(saved)),
{
    let reported = report_footprint(result, before, after);
    sub_agent_messages::attach_note(reported, role, kept, saved)
}

/// What is delivered begins with the sub-agent's result, and the pointer to the
/// saved messages has the last word.
pub proof fn law_result_first_pointer_last(
    role: Seq<char>,
    result: Seq<char>,
    before: Seq<BgListEntry>,
    after: Seq<BgListEntry>,
    kept: nat,
    saved: Option<Seq<char>>,
)
    ensures
        text::starts_with(delivered(role, result, before, after, kept, saved), result),
        saved matches Some(path) ==> ({
            let d = delivered(role, result, before, after, kept, saved);
            let n = sub_agent_messages::note_text(role, kept, path);
            d.len() >= n.len() && d.skip(d.len() - n.len()) == n
        }),
{
    let d = delivered(role, result, before, after, kept, saved);
    let w = with_delta(result, before, after);
    assert(w.take(result.len() as int) =~= result);
    assert(d.take(w.len() as int) =~= w);
    assert(d.take(result.len() as int) =~= result);
    if let Some(path) = saved {
        let n = sub_agent_messages::note_text(role, kept, path);
        assert(d.skip(d.len() - n.len()) =~= n);
    }
}

// ---------------------------------------------------------------------------
// The tool's description
// ---------------------------------------------------------------------------

/// The description of the delegate tool.
pub open spec fn description_text(roles: Seq<Seq<char>>) -> Seq<char> {
    "Delegate ONE task to ONE specialised sub-agent, which runs to completion with its own fresh context and returns a single result. You see only the result string — never the sub-agent's internal steps. Delegations are sequential: call `delegate` again to chain work. Each call starts fresh — the sub-agent has NO memory of prior delegations or of this conversation, so put everything it needs in `task`.\n\nWrite `task` as a self-contained brief: state the objective, the expected output shape, and the boundaries (what NOT to do). Scale effort to complexity — don't delegate a one-liner you can do yourself.\n\nAvailable roles: "@
        + text::join(roles, ", "@)
        + "\n\nKeep a todo list while you orchestrate. Before every `delegate` call, add a todo item describing the work you are handing off, then pass that item's id as `parent_task_id` — the sub-agent's own subtasks are displayed nested under it. Update the item's status when the delegation returns."@
}

/// Describes the delegate tool for a team.
pub fn tool_description(registry: &SubAgentRegistry) -> (r: String)
    ensures
        r@ == description_text(order::sorted_texts(table::names(registry@))),
{
    let roles = registry.available_roles();
    let mut s =
        "Delegate ONE task to ONE specialised sub-agent, which runs to completion with its own fresh context and returns a single result. You see only the result string — never the sub-agent's internal steps. Delegations are sequential: call `delegate` again to chain work. Each call starts fresh — the sub-agent has NO memory of prior delegations or of this conversation, so put everything it needs in `task`.\n\nWrite `task` as a self-contained brief: state the objective, the expected output shape, and the boundaries (what NOT to do). Scale effort to complexity — don't delegate a one-liner you can do yourself.\n\nAvailable roles: ".to_owned();
    s.append(text::join_text(&roles, ", ").as_str());
    s.append(
        "\n\nKeep a todo list while you orchestrate. Before every `delegate` call, add a todo item describing the work you are handing off, then pass that item's id as `parent_task_id` — the sub-agent's own subtasks are displayed nested under it. Update the item's status when the delegation returns.",
    );
    s
}

/// The description of the tool's `role` argument.
pub open spec fn role_argument_text(roles: Seq<Seq<char>>) -> Seq<char> {
    "Which sub-agent to run. One of: "@ + text::join(roles, ", "@)
}

/// Describes the tool's `role` argument for a team.
pub fn role_argument(registry: &SubAgentRegistry) -> (r: String)
    ensures
        r@ == role_argument_text(order::sorted_texts(table::names(registry@))),
{
    let mut s = "Which sub-agent to run. One of: ".to_owned();
    s.append(text::join_text(&registry.available_roles(), ", ").as_str());
    s
}

/// Every section that is given stands in the preamble, whole and in its place: behind
/// the role's prompt and the environment come the skills, the background processes where
/// there are any, and `agents.md` where the role asks for it. Nothing else does.
pub proof fn law_preamble_has_every_section(
    role_prompt: Seq<char>,
    shell: Option<ShellKind>,
    env: Environment,
    skills: Seq<char>,
    bg: Seq<BgListEntry>,
    agents_md: bool,
    content: Option<Seq<char>>,
) -> (r: (int, int, int))
    ensures
        ({
            let p = preamble_text(role_prompt, shell, env, skills, bg, agents_md, content);
            let listing = bg::snapshot_text(bg);
            &&& role_prompt.len() <= r.0 <= r.1 <= r.2 <= p.len()
            &&& p.take(role_prompt.len() as int) == role_prompt
            &&& p.subrange(role_prompt.len() as int, r.0) == prompt::env_text(shell, env)
            &&& r.1 - r.0 == skills.len()
            &&& p.subrange(r.0, r.1) == skills
            &&& listing.len() == 0 ==> r.2 == r.1
            &&& listing.len() > 0 ==> p.subrange(r.1, r.2) == "\n"@ + listing + "\n"@
            &&& if agents_md && content is Some {
                p.skip(r.2)
                    == "\n# Agents.md Content\n\n--------------------------------------------------------\n"@
                    + text::trim(content->0) + "\n"@
            } else {
                r.2 == p.len()
            }
        }),
{
    let p = preamble_text(role_prompt, shell, env, skills, bg, agents_md, content);
    let repo = if agents_md {
        prompt::agents_md_text(content)
    } else {
        Seq::empty()
    };
    let z = role_prompt.len() as int;
    let a = z + prompt::env_text(shell, env).len();
    let b = a + skills.len();
    let c = b + bg_section(bg).len();
    assert(p.take(z) =~= role_prompt);
    assert(p.subrange(z, a) =~= prompt::env_text(shell, env));
    assert(p.subrange(a, b) =~= skills);
    assert(p.subrange(b, c) =~= bg_section(bg));
    assert(p.skip(c) =~= repo);
    (a, b, c)
}

/// Two different lists of skills give two different preambles; so do two different
/// prompts of a role.
pub proof fn law_preamble_tells_its_sources_apart(
    role_prompt: Seq<char>,
    other_prompt: Seq<char>,
    shell: Option<ShellKind>,
    env: Environment,
    skills: Seq<char>,
    others: Seq<char>,
    bg: Seq<BgListEntry>,
    agents_md: bool,
    content: Option<Seq<char>>,
)
    requires
        role_prompt == other_prompt && skills != others || role_prompt != other_prompt && skills
            == others,
    ensures
        preamble_text(role_prompt, shell, env, skills, bg, agents_md, content) != preamble_text(
            other_prompt,
            shell,
            env,
            others,
            bg,
            agents_md,
            content,
        ),
{
    let p = preamble_text(role_prompt, shell, env, skills, bg, agents_md, content);
    let q = preamble_text(other_prompt, shell, env, others, bg, agents_md, content);
    let e = prompt::env_text(shell, env);
    let repo = if agents_md {
        prompt::agents_md_text(content)
    } else {
        Seq::empty()
    };
    let tail = bg_section(bg) + repo;
    if role_prompt == other_prompt {
        text::lemma_middle_differs(role_prompt + e, skills, others, tail);
        assert(p =~= role_prompt + e + skills + tail);
        assert(q =~= role_prompt + e + others + tail);
    } else {
        let rest = e + skills + tail;
        text::lemma_middle_differs(Seq::empty(), role_prompt, other_prompt, rest);
        assert(p =~= Seq::<char>::empty() + role_prompt + rest);
        assert(q =~= Seq::<char>::empty() + other_prompt + rest);
    }
}

/// What a delegation delivers holds the result, the footprint where there is one, and
/// the pointer to the saved messages where there are any, in this order and with nothing
/// else.
pub proof fn law_delivery_has_every_part(
    role: Seq<char>,
    result: Seq<char>,
    before: Seq<BgListEntry>,
    after: Seq<BgListEntry>,
    kept: nat,
    saved: Option<Seq<char>>,
)
    ensures
        delivered(role, result, before, after, kept, saved) == result + (if bg::delta_text(
            before,
            after,
        ).len() > 0 {
            "\n\n"@ + bg::delta_text(before, after)
        } else {
            Seq::<char>::empty()
        }) + (match saved {
            Some(path) => "\n\n"@ + sub_agent_messages::note_text(role, kept, path),
            None => Seq::<char>::empty(),
        }),
{
    let d = bg::delta_text(before, after);
    let mid = if d.len() > 0 {
        "\n\n"@ + d
    } else {
        Seq::<char>::empty()
    };
    assert(with_delta(result, before, after) =~= result + mid);
    assert(delivered(role, result, before, after, kept, None) =~= result + mid);
}

/// A delegation that ran out of time hands on the snapshot and says how long it had; one
/// that failed is classified.
pub proof fn law_outcome_is_reported(
    role: Seq<char>,
    outcome: DelegationOutcome,
    snapshot: Seq<Message>,
    h: Handoff,
    step: HandoffStep,
)
    requires
        handed_off(role, outcome, snapshot, h, step),
    ensures
        outcome matches DelegationOutcome::TimedOut { budget_secs } ==> (h matches Handoff::Failed {
            error,
            history,
        } && history@ == snapshot && error@ == "exceeded its "@ + text::decimal(budget_secs as nat)
            + "s wall-clock budget and was cancelled"@),
        outcome matches DelegationOutcome::Failed(e) ==> handoff::classified(e, snapshot, h),
        handoff::begun(role, h, step),
{
}

/// An answer that is not blank is handed on as it is; for a blank one the orchestrator hears
/// which role said nothing.
pub proof fn law_answers_are_handed_on(role: Seq<char>, raw: Seq<char>)
    ensures
        text::trim(raw).len() > 0 ==> normalized(role, raw) == raw,
        text::trim(raw).len() == 0 ==> normalized(role, raw)
            == "[sub-agent '"@ + role + "' produced no output — re-run with a more focused task.]"@,
{
}

/// The tool's description and that of its `role` argument list every role of the team,
/// in alphabetical order.
pub proof fn law_description_lists_every_role(roles: Seq<Seq<char>>) -> (r: (
    Seq<char>,
    Seq<char>,
    Seq<char>,
))
    ensures
        description_text(roles) == r.0 + "Available roles: "@ + text::join(roles, ", "@) + r.1,
        role_argument_text(roles) == r.2 + text::join(roles, ", "@),
{
    reveal_strlit(
        "Delegate ONE task to ONE specialised sub-agent, which runs to completion with its own fresh context and returns a single result. You see only the result string — never the sub-agent's internal steps. Delegations are sequential: call `delegate` again to chain work. Each call starts fresh — the sub-agent has NO memory of prior delegations or of this conversation, so put everything it needs in `task`.\n\nWrite `task` as a self-contained brief: state the objective, the expected output shape, and the boundaries (what NOT to do). Scale effort to complexity — don't delegate a one-liner you can do yourself.\n\nAvailable roles: ",
    );
    reveal_strlit("Available roles: ");
    let whole =
        "Delegate ONE task to ONE specialised sub-agent, which runs to completion with its own fresh context and returns a single result. You see only the result string — never the sub-agent's internal steps. Delegations are sequential: call `delegate` again to chain work. Each call starts fresh — the sub-agent has NO memory of prior delegations or of this conversation, so put everything it needs in `task`.\n\nWrite `task` as a self-contained brief: state the objective, the expected output shape, and the boundaries (what NOT to do). Scale effort to complexity — don't delegate a one-liner you can do yourself.\n\nAvailable roles: "@;
    let n = whole.len() - "Available roles: "@.len();
    let head = whole.take(n);
    assert(whole =~= head + "Available roles: "@);
    let foot =
        "\n\nKeep a todo list while you orchestrate. Before every `delegate` call, add a todo item describing the work you are handing off, then pass that item's id as `parent_task_id` — the sub-agent's own subtasks are displayed nested under it. Update the item's status when the delegation returns."@;
    (head, foot, "Which sub-agent to run. One of: "@)
}

/// In a merged environment every variable is the role's where the role sets it, with the
/// value that it sets last; else it is the base's.
pub proof fn law_merged_environment(
    base: Seq<(Seq<char>, String)>,
    over: Seq<(Seq<char>, String)>,
    key: Seq<char>,
    i: int,
)
    ensures
        0 <= i < over.len() && over[i].0 == key && (forall|j: int|
            i < j < over.len() ==> (#[trigger] over[j]).0 != key) ==> table::lookup(
            overlaid(base, over),
            key,
        ) == Some(over[i].1),
        (forall|j: int| 0 <= j < over.len() ==> (#[trigger] over[j]).0 != key) ==> table::lookup(
            overlaid(base, over),
            key,
        ) == table::lookup(base, key),
    decreases over.len(),
{
    if over.len() > 0 {
        let front = over.drop_last();
        let last = over.last();
        law_merged_environment(base, front, key, i);
        table::law_lookup_after_stored(overlaid(base, front), last.0, last.1, key);
        assert forall|j: int| 0 <= j < front.len() implies front[j] == #[trigger] over[j] by {}
        if 0 <= i < over.len() - 1 {
            assert(over[over.len() - 1] == last);
        }
    }
}

/// The message for a failed delegation names all that it is about: the role and the roles
/// that there are, the role and the error, or the item and the whole list.
pub proof fn law_delegation_errors_name_their_cause(e: DelegateError) -> (r: (
    Seq<char>,
    Seq<char>,
))
    ensures
        e matches DelegateError::UnknownRole { role, available } ==> e.text() == r.0 + role@ + r.1
            + handoff::debug_list(Seq::new(available@.len(), |i: int| available@[i]@)),
        e matches DelegateError::Build { role, error } ==> e.text() == r.0 + role@ + r.1 + error@,
        e matches DelegateError::Run { role, error } ==> e.text() == r.0 + role@ + r.1 + error@,
        e matches DelegateError::UnknownParentTask { id, list } ==> e.text() == r.0 + text::decimal(
            id as nat,
        ) + r.1 + list@,
{
    match e {
        DelegateError::UnknownRole { available, .. } => {
            assert(text::strs(available@) =~= Seq::new(
                available@.len(),
                |i: int| available@[i]@,
            ));
            ("Unknown role '"@, "'. Available: "@)
        },
        DelegateError::Build { .. } => ("Failed to build sub-agent for role '"@, "': "@),
        DelegateError::Run { .. } => ("Sub-agent '"@, "' failed: "@),
        DelegateError::UnknownParentTask { .. } => (
            "Unknown parent_task_id "@,
            ": no such item in your todo list. Add a todo item for this delegation first (todo action=add), then pass its id. Your list:\n"@,
        ),
    }
}

/// Only the user's stop is an error of a delegation.
pub proof fn law_only_the_stop_is_an_error(outcome: DelegationOutcome)
    ensures
        is_stop(outcome) <==> (outcome matches DelegationOutcome::Failed(e) && (
        e matches PromptFailure::PromptCancelled { reason, .. } && reason@ == "stop"@)),
{
}

/// An environment that is missing has no entries.
pub proof fn law_missing_environment_is_empty(m: TextMap)
    ensures
        env_entries(Some(m)) == m@,
        env_entries(None).len() == 0,
{
}

} // verus!
