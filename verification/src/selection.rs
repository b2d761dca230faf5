//! Which team a conversation is bound to.

use vstd::prelude::*;
use crate::pipeline::registry;
use crate::pipeline;
use crate::pipeline::set::{PipelineInfo, PipelineSet};
use crate::text;

verus! {

/// The refusal to switch models while a team is selected.
pub open spec fn locked_text(pipeline: Seq<char>) -> Seq<char> {
    "the orchestrator's model is fixed by pipeline '"@ + pipeline
        + "'. Switch teams with /pipeline <name>, or /pipeline none to unlock /model."@
}

/// The refusal to switch models while a team is selected.
pub fn model_locked_message(pipeline: &str) -> (r: String)
    ensures
        r@ == locked_text(pipeline@),
{
    let mut m = "the orchestrator's model is fixed by pipeline '".to_owned();
    m.append(pipeline);
    m.append("'. Switch teams with /pipeline <name>, or /pipeline none to unlock /model.");
    m
}

/// What stopping a turn killed.
#[derive(Debug, PartialEq, Eq, Copy, Clone)]
pub struct StopTally {
    /// A shell ran in the foreground.
    pub shell: bool,
}

/// What the user is told after a stop.
pub open spec fn stop_text(t: StopTally) -> Seq<char> {
    if t.shell {
        "Agent stopped by user (killed 1 bash process)"@
    } else {
        "Agent stopped by user"@
    }
}

/// What the user is told after a stop.
pub fn stop_message(t: StopTally) -> (r: String)
    ensures
        r@ == stop_text(t),
{
    if t.shell {
        "Agent stopped by user (killed 1 bash process)".to_owned()
    } else {
        "Agent stopped by user".to_owned()
    }
}

/// What a request to bind a conversation comes to.
#[derive(Debug, PartialEq)]
pub enum PipelineChoice {
    /// It is bound like that already.
    Unchanged,
    /// It is refused, with this message.
    Refused(String),
    /// Bind it like this.
    Apply(Option<String>),
}

/// The refusal once a conversation has turns.
pub open spec fn turns_refusal() -> Seq<char> {
    "the pipeline is locked once the conversation has started — /new for a fresh one."@
}

/// The refusal of a team that does not exist.
pub open spec fn unknown_refusal(name: Seq<char>, available: Seq<Seq<char>>) -> Seq<char> {
    "unknown pipeline '"@ + name + "'. Available pipelines: "@ + if available.len() == 0 {
        "(none configured — add a `pipelines:` block to config.yaml and restart)"@
    } else {
        text::join(available, ", "@)
    }
}

/// Whether `c` is what a request comes to. A request for the binding as it is
/// does nothing; a conversation with turns keeps its binding; a team must exist.
pub open spec fn chosen(
    selected: Option<Seq<char>>,
    has_turns: bool,
    target: Option<Seq<char>>,
    available: Seq<Seq<char>>,
    c: PipelineChoice,
) -> bool {
    if selected == target {
        c is Unchanged
    } else if has_turns {
        c matches PipelineChoice::Refused(m) && m@ == turns_refusal()
    } else {
        match target {
            Some(name) if !available.contains(name) => c matches PipelineChoice::Refused(m) && m@
                == unknown_refusal(name, available),
            _ => c matches PipelineChoice::Apply(t) && text::opt(t) == target,
        }
    }
}

/// Decides a request to bind a conversation to a team, or to none.
pub fn resolve_pipeline_choice(
    selected: Option<&str>,
    has_turns: bool,
    target: Option<&str>,
    available: &[String],
) -> (c: PipelineChoice)
    ensures
        chosen(
            text::opt_str(selected),
            has_turns,
            text::opt_str(target),
            text::strs(available@),
            c,
        ),
{
    if text::same_option(selected, target) {
        return PipelineChoice::Unchanged;
    }
    if has_turns {
        return PipelineChoice::Refused(
            "the pipeline is locked once the conversation has started — /new for a fresh one.".to_owned(),
        );
    }
    if let Some(name) = target {
        if !text::contains_string(available, name) {
            let listed: String = if available.len() == 0 {
                "(none configured — add a `pipelines:` block to config.yaml and restart)".to_owned()
            } else {
                text::join_text(available, ", ")
            };
            let mut m = "unknown pipeline '".to_owned();
            m.append(name);
            m.append("'. Available pipelines: ");
            m.append(listed.as_str());
            return PipelineChoice::Refused(m);
        }
    }
    PipelineChoice::Apply(text::own_option(target))
}

/// A binding is applied only before the first turn, only where it changes
/// something, and only to a team that exists.
pub proof fn law_applied_only_when_allowed(
    selected: Option<Seq<char>>,
    has_turns: bool,
    target: Option<Seq<char>>,
    available: Seq<Seq<char>>,
    c: PipelineChoice,
)
    requires
        chosen(selected, has_turns, target, available, c),
        c is Apply,
    ensures
        !has_turns,
        selected != target,
        target matches Some(name) ==> available.contains(name),
        c matches PipelineChoice::Apply(t) && text::opt(t) == target,
{
}

// ---------------------------------------------------------------------------
// Listings
// ---------------------------------------------------------------------------

/// The members of a team as the listing shows them.
pub open spec fn member_texts(m: Seq<(Seq<char>, Seq<char>)>) -> Seq<Seq<char>> {
    Seq::new(m.len(), |i: int| m[i].0 + " · "@ + m[i].1)
}

/// One line of the listing.
pub open spec fn list_row(info: PipelineInfo, selected: Option<Seq<char>>) -> Seq<char> {
    let arrow = if selected == Some(info.name@) {
        "→ "@
    } else {
        "  "@
    };
    arrow + info.name@ + "  (orchestrator · "@ + info.orchestrator_model@ + ") — "@ + text::join(
        member_texts(registry::pairs(info.members@)),
        ", "@,
    ) + "\n"@
}

/// The lines of the listing.
pub open spec fn list_rows(s: Seq<PipelineInfo>, selected: Option<Seq<char>>) -> Seq<char>
    decreases s.len(),
{
    if s.len() == 0 {
        Seq::empty()
    } else {
        list_rows(s.drop_last(), selected) + list_row(s.last(), selected)
    }
}

/// The listing of teams.
pub open spec fn list_text(s: Seq<PipelineInfo>, selected: Option<Seq<char>>) -> Seq<char> {
    if s.len() == 0 {
        "🧩 No pipelines configured. Add a `pipelines:` block to config.yaml (or this repo's .peakbot/config.yaml) — /new picks it up."@
    } else {
        "Available pipelines:\n"@ + list_rows(s, selected)
            + "\nUse /pipeline <name> to select one, /pipeline none to clear (only before the first turn)."@
    }
}

fn row_of(info: &PipelineInfo, selected: Option<&str>) -> (r: String)
    ensures
        r@ == list_row(*info, text::opt_str(selected)),
{
    let is_selected = match selected {
        Some(s) => text::same(s, info.name.as_str()),
        None => false,
    };
    let mut members: Vec<String> = Vec::new();
    let mut i: usize = 0;
    while i < info.members.len()
        invariant
            i <= info.members@.len(),
            members@.len() == i,
            forall|j: int|
                0 <= j < i ==> (#[trigger] members@[j])@ == info.members@[j].0@ + " · "@
                    + info.members@[j].1@,
        decreases info.members@.len() - i,
    {
        let mut m = info.members[i].0.clone();
        m.append(" · ");
        m.append(info.members[i].1.as_str());
        members.push(m);
        i += 1;
    }
    assert(text::strs(members@) =~= member_texts(registry::pairs(info.members@)));
    let mut s: String = if is_selected {
        "→ ".to_owned()
    } else {
        "  ".to_owned()
    };
    s.append(info.name.as_str());
    s.append("  (orchestrator · ");
    s.append(info.orchestrator_model.as_str());
    s.append(") — ");
    s.append(text::join_text(&members, ", ").as_str());
    s.append("\n");
    s
}

/// Renders the listing of teams, with an arrow at the selected one.
pub fn render_pipeline_list(pipelines: &[PipelineInfo], selected: Option<&str>) -> (r: String)
    ensures
        r@ == list_text(pipelines@, text::opt_str(selected)),
{
    if pipelines.len() == 0 {
        return "🧩 No pipelines configured. Add a `pipelines:` block to config.yaml (or this repo's .peakbot/config.yaml) — /new picks it up.".to_owned();
    }
    let mut rows = String::new();
    let mut i: usize = 0;
    assert(pipelines@.take(0) =~= Seq::<PipelineInfo>::empty());
    while i < pipelines.len()
        invariant
            i <= pipelines@.len(),
            rows@ == list_rows(pipelines@.take(i as int), text::opt_str(selected)),
        decreases pipelines@.len() - i,
    {
        assert(pipelines@.take(i + 1).drop_last() =~= pipelines@.take(i as int));
        rows.append(row_of(&pipelines[i], selected).as_str());
        i += 1;
    }
    assert(pipelines@.take(pipelines@.len() as int) =~= pipelines@);
    let mut m = "Available pipelines:\n".to_owned();
    m.append(rows.as_str());
    m.append(
        "\nUse /pipeline <name> to select one, /pipeline none to clear (only before the first turn).",
    );
    m
}

// ---------------------------------------------------------------------------
// After a reload
// ---------------------------------------------------------------------------

/// The names of a set of teams as one text.
pub open spec fn joined_names(s: Seq<pipeline::set::ResolvedPipeline>) -> Seq<char> {
    text::join(pipeline::set::team_names(s), ", "@)
}

/// Whether two sets of teams have the same names, in whatever order.
pub open spec fn same_names(
    before: Seq<pipeline::set::ResolvedPipeline>,
    after: Seq<pipeline::set::ResolvedPipeline>,
) -> bool {
    forall|n: Seq<char>|
        pipeline::set::team_names(before).contains(n) <==> pipeline::set::team_names(
            after,
        ).contains(n)
}

/// What the user is told when the teams change; nothing where their names stay.
pub open spec fn catalogue_text(
    before: Seq<pipeline::set::ResolvedPipeline>,
    after: Seq<pipeline::set::ResolvedPipeline>,
) -> Option<Seq<char>> {
    if same_names(before, after) {
        None
    } else if after.len() == 0 {
        Some("🧩 No pipelines configured here."@)
    } else {
        Some(
            "🧩 Pipelines available here: "@ + joined_names(after)
                + " — /pipeline <name> to select."@,
        )
    }
}

fn all_listed(names: &Vec<String>, all: &Vec<String>) -> (r: bool)
    ensures
        r == (forall|n: Seq<char>|
            text::strs(names@).contains(n) ==> text::strs(all@).contains(n)),
{
    let ghost own = text::strs(names@);
    let mut i: usize = 0;
    while i < names.len()
        invariant
            i <= names@.len(),
            own == text::strs(names@),
            forall|j: int| 0 <= j < i ==> text::strs(all@).contains(#[trigger] own[j]),
        decreases names@.len() - i,
    {
        if !text::contains_string(all, names[i].as_str()) {
            assert(own[i as int] == names@[i as int]@);
            assert(own.contains(own[i as int]));
            return false;
        }
        i += 1;
    }
    true
}

/// Says how the teams changed.
pub fn pipeline_catalogue_message(before: &PipelineSet, after: &PipelineSet) -> (r: Option<String>)
    ensures
        text::opt(r) == catalogue_text(before@, after@),
{
    let old_names = before.names();
    let new_names = after.names();
    if all_listed(&old_names, &new_names) && all_listed(&new_names, &old_names) {
        return None;
    }
    if after.is_empty() {
        Some("🧩 No pipelines configured here.".to_owned())
    } else {
        let mut m = "🧩 Pipelines available here: ".to_owned();
        m.append(after.names_joined().as_str());
        m.append(" — /pipeline <name> to select.");
        Some(m)
    }
}

/// A change of the roster alone, with the names as they were, says nothing, and
/// neither does another order of the names.
pub proof fn law_roster_changes_are_silent(
    before: Seq<pipeline::set::ResolvedPipeline>,
    after: Seq<pipeline::set::ResolvedPipeline>,
)
    requires
        pipeline::set::team_names(before).to_set() == pipeline::set::team_names(after).to_set(),
    ensures
        catalogue_text(before, after) is None,
{
    let a = pipeline::set::team_names(before);
    let b = pipeline::set::team_names(after);
    assert forall|n: Seq<char>| a.contains(n) <==> b.contains(n) by {
        assert(a.to_set().contains(n) == a.contains(n));
        assert(b.to_set().contains(n) == b.contains(n));
    }
}

/// The selection after a reload: kept where the team is still there.
pub open spec fn reconciled(
    selected: Option<Seq<char>>,
    teams: Seq<pipeline::set::ResolvedPipeline>,
) -> Option<Seq<char>> {
    match selected {
        Some(name) => if pipeline::set::find_team(teams, name) is Some {
            selected
        } else {
            None
        },
        None => None,
    }
}

/// The warning for a selection that a reload dropped.
pub open spec fn dropped_warning(name: Seq<char>) -> Seq<char> {
    "⚠ Pipeline '"@ + name + "' is not configured here — continuing without a pipeline."@
}

/// Drops a selection whose team is gone, and says so.
pub fn reconcile_pipeline_selection(selected: &mut Option<String>, pipelines: &PipelineSet) -> (r:
    Option<String>)
    ensures
        text::opt(*final(selected)) == reconciled(text::opt(*old(selected)), pipelines@),
        match text::opt(*old(selected)) {
            Some(name) if pipeline::set::find_team(pipelines@, name) is None => text::opt(r) == Some(
                dropped_warning(name),
            ),
            _ => r is None,
        },
{
    let name: String = match &*selected {
        Some(name) => name.clone(),
        None => {
            return None;
        },
    };
    if pipelines.get(name.as_str()).is_some() {
        return None;
    }
    *selected = None;
    let mut m = "⚠ Pipeline '".to_owned();
    m.append(name.as_str());
    m.append("' is not configured here — continuing without a pipeline.");
    Some(m)
}

/// A reload only ever drops a selection; it never selects a team by itself, and
/// a second look changes nothing more.
pub proof fn law_reconcile_only_drops(
    selected: Option<Seq<char>>,
    teams: Seq<pipeline::set::ResolvedPipeline>,
)
    ensures
        reconciled(selected, teams) == selected || reconciled(selected, teams) is None,
        reconciled(None, teams) is None,
        reconciled(reconciled(selected, teams), teams) == reconciled(selected, teams),
{
}

/// What a request to bind comes to, for every request: nothing where the binding is
/// so already; a refusal where turns lock it or the team is not there; else exactly
/// what was asked for.
pub proof fn law_request_is_applied_iff_allowed(
    selected: Option<Seq<char>>,
    has_turns: bool,
    target: Option<Seq<char>>,
    available: Seq<Seq<char>>,
    c: PipelineChoice,
)
    requires
        chosen(selected, has_turns, target, available, c),
    ensures
        c is Unchanged <==> selected == target,
        c is Apply <==> selected != target && !has_turns && (target matches Some(name) ==> exists|
            i: int,
        | 0 <= i < available.len() && available[i] == name),
        c matches PipelineChoice::Apply(None) ==> target is None,
        c matches PipelineChoice::Apply(Some(n)) ==> target == Some(n@),
{
    if let Some(name) = target {
        if available.contains(name) {
            let i = choose|i: int| 0 <= i < available.len() && available[i] == name;
            assert(available[i] == name);
        }
    }
}

/// A refusal for an unknown team names the team and every team there is.
pub proof fn law_unknown_team_is_named(name: Seq<char>, available: Seq<Seq<char>>) -> (r: (
    Seq<char>,
    Seq<char>,
))
    requires
        available.len() > 0,
    ensures
        unknown_refusal(name, available) == r.0 + name + r.1 + text::join(available, ", "@),
{
    ("unknown pipeline '"@, "'. Available pipelines: "@)
}

/// The listing has one line for each team, in their order, and each names the team,
/// its model and every member with its model. The arrow stands at the selected team
/// and nowhere else.
pub proof fn law_listing_has_every_team(
    s: Seq<PipelineInfo>,
    selected: Option<Seq<char>>,
    i: int,
) -> (r: (Seq<char>, Seq<char>))
    requires
        0 <= i < s.len(),
    ensures
        list_text(s, selected) == r.0 + (if selected == Some(s[i].name@) {
            "→ "@
        } else {
            "  "@
        }) + s[i].name@ + "  (orchestrator · "@ + s[i].orchestrator_model@ + ") — "@ + text::join(
            Seq::new(s[i].members@.len(), |k: int| s[i].members@[k].0@ + " · "@ + s[i].members@[k].1@),
            ", "@,
        ) + "\n"@ + r.1,
        i + 1 < s.len() ==> text::starts_with(r.1, "→ "@ + s[i + 1].name@) || text::starts_with(
            r.1,
            "  "@ + s[i + 1].name@,
        ),
{
    let (a, b) = lemma_rows_at(s, selected, i);
    assert(member_texts(registry::pairs(s[i].members@)) =~= Seq::new(
        s[i].members@.len(),
        |k: int| s[i].members@[k].0@ + " · "@ + s[i].members@[k].1@,
    ));
    let head = "Available pipelines:\n"@ + a;
    let foot =
        "\nUse /pipeline <name> to select one, /pipeline none to clear (only before the first turn)."@;
    let row = list_row(s[i], selected);
    assert(list_text(s, selected) =~= head + row + (b + foot));
    if i + 1 < s.len() {
        let next = list_row(s[i + 1], selected);
        let mark = if selected == Some(s[i + 1].name@) {
            "→ "@
        } else {
            "  "@
        };
        assert(next.take((mark + s[i + 1].name@).len() as int) =~= mark + s[i + 1].name@);
        assert((b + foot).take((mark + s[i + 1].name@).len() as int) =~= next.take(
            (mark + s[i + 1].name@).len() as int,
        ));
    }
    (head, b + foot)
}

proof fn lemma_rows_at(s: Seq<PipelineInfo>, selected: Option<Seq<char>>, i: int) -> (r: (
    Seq<char>,
    Seq<char>,
))
    requires
        0 <= i < s.len(),
    ensures
        list_rows(s, selected) == r.0 + list_row(s[i], selected) + r.1,
        i + 1 == s.len() ==> r.1.len() == 0,
        i + 1 < s.len() ==> r.1.len() >= list_row(s[i + 1], selected).len() && r.1.take(
            list_row(s[i + 1], selected).len() as int,
        ) == list_row(s[i + 1], selected),
    decreases s.len(),
{
    let d = s.drop_last();
    if i == s.len() - 1 {
        assert(list_rows(s, selected) =~= list_rows(d, selected) + list_row(s[i], selected)
            + Seq::<char>::empty());
        (list_rows(d, selected), Seq::empty())
    } else {
        let (a, b) = lemma_rows_at(d, selected, i);
        let last = list_row(s.last(), selected);
        assert(list_rows(s, selected) =~= a + list_row(s[i], selected) + (b + last));
        if i + 1 < d.len() {
            assert((b + last).take(list_row(s[i + 1], selected).len() as int) =~= b.take(
                list_row(s[i + 1], selected).len() as int,
            ));
        } else {
            assert((b + last).take(last.len() as int) =~= last);
        }
        (a, b + last)
    }
}

/// The user hears of the teams exactly where a name came or went, and then of every
/// name that there is.
pub proof fn law_changes_are_announced(
    before: Seq<pipeline::set::ResolvedPipeline>,
    after: Seq<pipeline::set::ResolvedPipeline>,
) -> (r: (Seq<char>, Seq<char>))
    ensures
        catalogue_text(before, after) is None <==> {
            &&& forall|i: int|
                0 <= i < before.len() ==> exists|j: int|
                    0 <= j < after.len() && (#[trigger] after[j]).name@ == (
                    #[trigger] before[i]).name@
            &&& forall|j: int|
                0 <= j < after.len() ==> exists|i: int|
                    0 <= i < before.len() && (#[trigger] before[i]).name@ == (
                    #[trigger] after[j]).name@
        },
        catalogue_text(before, after) is Some && after.len() > 0 ==> catalogue_text(before, after)->0
            == r.0 + text::join(Seq::new(after.len(), |i: int| after[i].name@), ", "@) + r.1,
{
    let x = pipeline::set::team_names(before);
    let y = pipeline::set::team_names(after);
    if same_names(before, after) {
        assert forall|i: int| 0 <= i < before.len() implies exists|j: int|
            0 <= j < after.len() && (#[trigger] after[j]).name@ == (
            #[trigger] before[i]).name@ by {
            assert(x[i] == before[i].name@);
            assert(x.contains(x[i]));
            assert(y.contains(x[i]));
            let j = choose|j: int| 0 <= j < y.len() && y[j] == x[i];
            assert(after[j].name@ == before[i].name@);
        }
        assert forall|j: int| 0 <= j < after.len() implies exists|i: int|
            0 <= i < before.len() && (#[trigger] before[i]).name@ == (
            #[trigger] after[j]).name@ by {
            assert(y[j] == after[j].name@);
            assert(y.contains(y[j]));
            assert(x.contains(y[j]));
            let i = choose|i: int| 0 <= i < x.len() && x[i] == y[j];
            assert(before[i].name@ == after[j].name@);
        }
    } else {
        let n = choose|n: Seq<char>| x.contains(n) != y.contains(n);
        if x.contains(n) {
            let i = choose|i: int| 0 <= i < x.len() && x[i] == n;
            assert(before[i].name@ == n);
            assert forall|j: int| 0 <= j < after.len() implies (#[trigger] after[j]).name@
                != before[i].name@ by {
                assert(y[j] == after[j].name@);
            }
        } else {
            let j = choose|j: int| 0 <= j < y.len() && y[j] == n;
            assert(after[j].name@ == n);
            assert forall|i: int| 0 <= i < before.len() implies (#[trigger] before[i]).name@
                != after[j].name@ by {
                assert(x[i] == before[i].name@);
            }
        }
    }
    assert(y =~= Seq::new(after.len(), |i: int| after[i].name@));
    ("🧩 Pipelines available here: "@, " — /pipeline <name> to select."@)
}

/// A selection stays exactly where some team has its name.
pub proof fn law_selection_stays_iff_the_team_does(
    selected: Option<Seq<char>>,
    teams: Seq<pipeline::set::ResolvedPipeline>,
)
    ensures
        selected matches Some(name) ==> (reconciled(selected, teams) == selected <==> exists|k: int|
            0 <= k < teams.len() && (#[trigger] teams[k]).name@ == name),
        reconciled(selected, teams) is Some ==> reconciled(selected, teams) == selected,
{
    if let Some(name) = selected {
        pipeline::set::law_found_team(teams, name);
        let names = pipeline::set::team_names(teams);
        if names.contains(name) {
            let k = choose|k: int| 0 <= k < names.len() && names[k] == name;
            assert(teams[k].name@ == name);
        }
        if exists|k: int| 0 <= k < teams.len() && (#[trigger] teams[k]).name@ == name {
            let k = choose|k: int| 0 <= k < teams.len() && (#[trigger] teams[k]).name@ == name;
            assert(names[k] == name);
        }
    }
}

/// A refused switch and a dropped selection both name the team.
pub proof fn law_team_is_named(name: Seq<char>, other: Seq<char>)
    requires
        name != other,
    ensures
        locked_text(name) != locked_text(other),
        dropped_warning(name) != dropped_warning(other),
{
    let a = "the orchestrator's model is fixed by pipeline '"@;
    let b = "'. Switch teams with /pipeline <name>, or /pipeline none to unlock /model."@;
    text::lemma_middle_differs(a, name, other, b);
    let c = "⚠ Pipeline '"@;
    let d = "' is not configured here — continuing without a pipeline."@;
    text::lemma_middle_differs(c, name, other, d);
}

/// After a stop the user hears of a killed process exactly where one was killed.
pub proof fn law_stop_tells_what_died(t: StopTally)
    ensures
        text::starts_with(stop_text(t), "Agent stopped by user"@),
        stop_text(t) == "Agent stopped by user"@ <==> !t.shell,
{
    reveal_strlit("Agent stopped by user (killed 1 bash process)");
    reveal_strlit("Agent stopped by user");
    assert(stop_text(t).take(21) =~= "Agent stopped by user"@);
}

/// A refused request is told why: turns lock the binding; else the team does not exist.
pub proof fn law_refusal_says_why(
    selected: Option<Seq<char>>,
    has_turns: bool,
    target: Option<Seq<char>>,
    available: Seq<Seq<char>>,
    c: PipelineChoice,
)
    requires
        chosen(selected, has_turns, target, available, c),
        c is Refused,
    ensures
        has_turns ==> c->Refused_0@ == turns_refusal(),
        !has_turns ==> target is Some && c->Refused_0@ == unknown_refusal(target->0, available),
{
}

} // verus!
