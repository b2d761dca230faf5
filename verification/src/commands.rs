//! The commands that the user types.
//!
//! A command is read once into what it asks for. Most are answered at once; those
//! that act on storage are answered in steps, with what storage said.

use vstd::prelude::*;
use crate::bg;
use crate::bg::BgListEntry;
use crate::conversation;
use crate::conversation::ConversationSummary;
use crate::effect::{Effect, EffectView, Effects};
use crate::models;
use crate::models::ModelRegistry;
use crate::order;
use crate::pipeline::set::PipelineInfo;
use crate::rebuild::Session;
use crate::selection;
use crate::selection::PipelineChoice;
use crate::submission;
use crate::text;
use crate::turn;
use crate::turn::CompactionCounts;

verus! {

/// What a command asks for.
#[derive(Debug, PartialEq)]
pub enum Command<S> {
    Reset,
    Stats,
    Context,
    Compact,
    Conversations,
    Exit,
    Bg,
    Help,
    New,
    Save,
    Load(S),
    Delete(S),
    /// The second text is missing where only one was given.
    Export(S, Option<S>),
    Rename(S),
    ListModels,
    SwitchModel,
    ListPipelines,
    PickPipeline(Option<S>),
    /// A command that is gone.
    Subagents,
    ShowCwd,
    ChangeCwd,
    /// Nothing that is answered here.
    Unknown,
}

impl View for Command<String> {
    type V = Command<Seq<char>>;

    open spec fn view(&self) -> Command<Seq<char>> {
        match *self {
            Command::Reset => Command::Reset,
            Command::Stats => Command::Stats,
            Command::Context => Command::Context,
            Command::Compact => Command::Compact,
            Command::Conversations => Command::Conversations,
            Command::Exit => Command::Exit,
            Command::Bg => Command::Bg,
            Command::Help => Command::Help,
            Command::New => Command::New,
            Command::Save => Command::Save,
            Command::Load(a) => Command::Load(a@),
            Command::Delete(a) => Command::Delete(a@),
            Command::Export(a, f) => Command::Export(a@, text::opt(f)),
            Command::Rename(n) => Command::Rename(n@),
            Command::ListModels => Command::ListModels,
            Command::SwitchModel => Command::SwitchModel,
            Command::ListPipelines => Command::ListPipelines,
            Command::PickPipeline(n) => Command::PickPipeline(text::opt(n)),
            Command::Subagents => Command::Subagents,
            Command::ShowCwd => Command::ShowCwd,
            Command::ChangeCwd => Command::ChangeCwd,
            Command::Unknown => Command::Unknown,
        }
    }
}

/// The team that a command picks. Names are case-sensitive, the words for none are
/// not.
pub open spec fn picked(cmd: Seq<char>) -> Option<Seq<char>> {
    let target = match text::after_prefix(text::trim(cmd), "/pipeline "@) {
        Some(rest) => text::trim(rest),
        None => Seq::empty(),
    };
    if submission::clears(target) {
        None
    } else {
        Some(target)
    }
}

/// What a command asks for whose first word takes arguments. The arguments keep
/// their case; the word itself has to be in small letters, else nothing is asked.
pub open spec fn with_argument(cmd: Seq<char>, lowered: Seq<char>) -> Option<Command<Seq<char>>> {
    if text::starts_with(lowered, "/load "@) {
        Some(
            match text::after_prefix(cmd, "/load "@) {
                Some(arg) => Command::Load(text::trim(arg)),
                None => Command::Unknown,
            },
        )
    } else if text::starts_with(lowered, "/delete "@) {
        Some(
            match text::after_prefix(cmd, "/delete "@) {
                Some(arg) => Command::Delete(text::trim(arg)),
                None => Command::Unknown,
            },
        )
    } else if text::starts_with(lowered, "/export "@) {
        Some(
            match text::after_prefix(cmd, "/export "@) {
                Some(args) => Command::Export(
                    text::trim(text::split_first(args, ' ').0),
                    text::split_first(args, ' ').1,
                ),
                None => Command::Unknown,
            },
        )
    } else if text::starts_with(lowered, "/rename "@) {
        Some(
            match text::after_prefix(cmd, "/rename "@) {
                Some(name) => Command::Rename(name),
                None => Command::Unknown,
            },
        )
    } else {
        None
    }
}

/// What a command asks for that is one word.
pub open spec fn one_word(lowered: Seq<char>) -> Option<Command<Seq<char>>> {
    if lowered == "/reset"@ {
        Some(Command::Reset)
    } else if lowered == "/stats"@ {
        Some(Command::Stats)
    } else if lowered == "/context"@ {
        Some(Command::Context)
    } else if lowered == "/compact"@ {
        Some(Command::Compact)
    } else if lowered == "/conversations"@ {
        Some(Command::Conversations)
    } else if lowered == "/exit"@ {
        Some(Command::Exit)
    } else if lowered == "/bg"@ {
        Some(Command::Bg)
    } else if lowered == "/help"@ {
        Some(Command::Help)
    } else if lowered == "/new"@ {
        Some(Command::New)
    } else if lowered == "/save"@ {
        Some(Command::Save)
    } else {
        None
    }
}

/// What a command asks for that may end in blanks.
pub open spec fn session_command(cmd: Seq<char>, lowered: Seq<char>) -> Command<Seq<char>> {
    let bare = text::trim_end(lowered);
    if bare == "/model"@ {
        Command::ListModels
    } else if text::starts_with(lowered, "/model "@) {
        Command::SwitchModel
    } else if bare == "/pipeline"@ {
        Command::ListPipelines
    } else if text::starts_with(lowered, "/pipeline "@) {
        Command::PickPipeline(picked(cmd))
    } else if bare == "/subagents"@ || text::starts_with(lowered, "/subagents "@) {
        Command::Subagents
    } else if bare == "/cd"@ {
        Command::ShowCwd
    } else if text::starts_with(lowered, "/cd "@) {
        Command::ChangeCwd
    } else {
        Command::Unknown
    }
}

/// What a command asks for that opens with its word.
pub open spec fn asked_bare(cmd: Seq<char>, lowered: Seq<char>) -> Command<Seq<char>> {
    match one_word(text::trim_end(lowered)) {
        Some(c) => c,
        None => match with_argument(cmd, lowered) {
            Some(c) => c,
            None => session_command(cmd, lowered),
        },
    }
}

/// What a command asks for, where `lowered` is the command in small letters. Blanks
/// in front of it do not count, and blanks behind a command of one word do not
/// either.
pub open spec fn asked(cmd: Seq<char>, lowered: Seq<char>) -> Command<Seq<char>> {
    asked_bare(text::trim_start(cmd), text::trim_start(lowered))
}

fn read_one_word(lowered: &str) -> (r: Option<Command<String>>)
    ensures
        match r {
            Some(c) => one_word(lowered@) == Some(c@),
            None => one_word(lowered@) is None,
        },
{
    if text::same(lowered, "/reset") {
        Some(Command::Reset)
    } else if text::same(lowered, "/stats") {
        Some(Command::Stats)
    } else if text::same(lowered, "/context") {
        Some(Command::Context)
    } else if text::same(lowered, "/compact") {
        Some(Command::Compact)
    } else if text::same(lowered, "/conversations") {
        Some(Command::Conversations)
    } else if text::same(lowered, "/exit") {
        Some(Command::Exit)
    } else if text::same(lowered, "/bg") {
        Some(Command::Bg)
    } else if text::same(lowered, "/help") {
        Some(Command::Help)
    } else if text::same(lowered, "/new") {
        Some(Command::New)
    } else if text::same(lowered, "/save") {
        Some(Command::Save)
    } else {
        None
    }
}

fn read_with_argument(cmd: &str, lowered: &str) -> (r: Option<Command<String>>)
    ensures
        match r {
            Some(c) => with_argument(cmd@, lowered@) == Some(c@),
            None => with_argument(cmd@, lowered@) is None,
        },
{
    if text::text_starts_with(lowered, "/load ") {
        Some(
            match text::strip_text_prefix(cmd, "/load ") {
                Some(arg) => Command::Load(text::trim_text(arg.as_str())),
                None => Command::Unknown,
            },
        )
    } else if text::text_starts_with(lowered, "/delete ") {
        Some(
            match text::strip_text_prefix(cmd, "/delete ") {
                Some(arg) => Command::Delete(text::trim_text(arg.as_str())),
                None => Command::Unknown,
            },
        )
    } else if text::text_starts_with(lowered, "/export ") {
        Some(
            match text::strip_text_prefix(cmd, "/export ") {
                Some(args) => {
                    let (reference, format) = text::split_text(args.as_str(), ' ');
                    Command::Export(text::trim_text(reference.as_str()), format)
                },
                None => Command::Unknown,
            },
        )
    } else if text::text_starts_with(lowered, "/rename ") {
        Some(
            match text::strip_text_prefix(cmd, "/rename ") {
                Some(name) => Command::Rename(name),
                None => Command::Unknown,
            },
        )
    } else {
        None
    }
}

fn read_picked(cmd: &str) -> (r: Option<String>)
    ensures
        text::opt(r) == picked(cmd@),
{
    let target: String = match text::strip_text_prefix(text::trim_text(cmd).as_str(), "/pipeline ") {
        Some(rest) => text::trim_text(rest.as_str()),
        None => String::new(),
    };
    assert(target@ =~= (match text::after_prefix(text::trim(cmd@), "/pipeline "@) {
        Some(rest) => text::trim(rest),
        None => Seq::empty(),
    }));
    if submission::means_none(target.as_str()) {
        None
    } else {
        Some(target)
    }
}

fn read_session_command(cmd: &str, lowered: &str) -> (r: Command<String>)
    ensures
        r@ == session_command(cmd@, lowered@),
{
    let trimmed = text::trim_end_text(lowered);
    let bare = trimmed.as_str();
    if text::same(bare, "/model") {
        Command::ListModels
    } else if text::text_starts_with(lowered, "/model ") {
        Command::SwitchModel
    } else if text::same(bare, "/pipeline") {
        Command::ListPipelines
    } else if text::text_starts_with(lowered, "/pipeline ") {
        Command::PickPipeline(read_picked(cmd))
    } else if text::same(bare, "/subagents") || text::text_starts_with(lowered, "/subagents ") {
        Command::Subagents
    } else if text::same(bare, "/cd") {
        Command::ShowCwd
    } else if text::text_starts_with(lowered, "/cd ") {
        Command::ChangeCwd
    } else {
        Command::Unknown
    }
}

/// Reads a command, where `lowered` is the command in small letters.
pub fn read_command(cmd: &str, lowered: &str) -> (r: Command<String>)
    ensures
        r@ == asked(cmd@, lowered@),
{
    let typed = text::trim_start_text(cmd);
    let small = text::trim_start_text(lowered);
    match read_one_word(text::trim_end_text(small.as_str()).as_str()) {
        Some(c) => c,
        None => match read_with_argument(typed.as_str(), small.as_str()) {
            Some(c) => c,
            None => read_session_command(typed.as_str(), small.as_str()),
        },
    }
}

/// Reads a command.
pub fn parse_command(cmd: &str) -> (r: Command<String>)
    ensures
        r@ == asked(cmd@, text::lowercase(cmd@)),
        text::all_ascii(cmd@) ==> r@ == asked(cmd@, text::ascii_lowercase(cmd@)),
{
    read_command(cmd, text::to_lowercase(cmd).as_str())
}

// ---------------------------------------------------------------------------
// What the answers show
// ---------------------------------------------------------------------------

/// What one agent has used. The cost is ready to be shown.
#[derive(Debug, PartialEq)]
pub struct Lane {
    pub name: String,
    pub input_tokens: u64,
    pub output_tokens: u64,
    pub api_calls: u64,
    pub cost: String,
}

/// The statistics of a session. The cost is ready to be shown.
#[derive(Debug, PartialEq)]
pub struct Stats {
    pub model: String,
    /// Empty where the model has none.
    pub model_alias: String,
    pub total_api_calls: u64,
    pub total_cost: String,
    pub total_input_tokens: u64,
    pub total_output_tokens: u64,
    pub cumulative_input_tokens: u64,
    pub lanes: Vec<Lane>,
}

/// One line of the table of agents.
pub open spec fn lane_row(l: Lane) -> Seq<char> {
    "\n| "@ + l.name@ + " | "@ + text::decimal(l.input_tokens as nat) + " | "@ + text::decimal(
        l.output_tokens as nat,
    ) + " | "@ + text::decimal(l.api_calls as nat) + " | $"@ + l.cost@ + " |"@
}

/// The lines of the table of agents.
pub open spec fn lane_rows(s: Seq<Lane>) -> Seq<char>
    decreases s.len(),
{
    if s.len() == 0 {
        Seq::empty()
    } else {
        lane_rows(s.drop_last()) + lane_row(s.last())
    }
}

/// The statistics without the table.
pub open spec fn totals_text(s: Stats) -> Seq<char> {
    "## Session Statistics\n\n**Model:** "@ + (if s.model_alias@.len() == 0 {
        s.model@
    } else {
        s.model_alias@
    }) + "\n**API Calls:** "@ + text::decimal(s.total_api_calls as nat) + "\n**Total Cost:** $"@
        + s.total_cost@ + "\n**Input Tokens (last request):** "@ + text::decimal(
        s.total_input_tokens as nat,
    ) + "\n**Output Tokens (last request):** "@ + text::decimal(s.total_output_tokens as nat)
        + "\n**Cumulative Input Tokens:** "@ + text::decimal(s.cumulative_input_tokens as nat)
}

/// The statistics. The table of agents comes with the second agent.
pub open spec fn stats_text(s: Stats) -> Seq<char> {
    if s.lanes@.len() > 1 {
        totals_text(s)
            + "\n\n### By lane (cumulative)\n\n| Lane | In | Out | Calls | Cost |\n|---|---|---|---|---|"@
            + lane_rows(s.lanes@)
    } else {
        totals_text(s)
    }
}

/// Renders the statistics.
pub fn render_stats(s: &Stats) -> (r: String)
    ensures
        r@ == stats_text(*s),
{
    let mut m = "## Session Statistics\n\n**Model:** ".to_owned();
    if s.model_alias.as_str().is_empty() {
        m.append(s.model.as_str());
    } else {
        m.append(s.model_alias.as_str());
    }
    m.append("\n**API Calls:** ");
    m.append(text::decimal_text(s.total_api_calls).as_str());
    m.append("\n**Total Cost:** $");
    m.append(s.total_cost.as_str());
    m.append("\n**Input Tokens (last request):** ");
    m.append(text::decimal_text(s.total_input_tokens).as_str());
    m.append("\n**Output Tokens (last request):** ");
    m.append(text::decimal_text(s.total_output_tokens).as_str());
    m.append("\n**Cumulative Input Tokens:** ");
    m.append(text::decimal_text(s.cumulative_input_tokens).as_str());
    if s.lanes.len() > 1 {
        m.append(
            "\n\n### By lane (cumulative)\n\n| Lane | In | Out | Calls | Cost |\n|---|---|---|---|---|",
        );
        let mut rows = String::new();
        let mut i: usize = 0;
        assert(s.lanes@.take(0) =~= Seq::<Lane>::empty());
        while i < s.lanes.len()
            invariant
                i <= s.lanes@.len(),
                rows@ == lane_rows(s.lanes@.take(i as int)),
            decreases s.lanes@.len() - i,
        {
            assert(s.lanes@.take(i + 1).drop_last() =~= s.lanes@.take(i as int));
            rows.append(lane_line(&s.lanes[i]).as_str());
            i += 1;
        }
        assert(s.lanes@.take(s.lanes@.len() as int) =~= s.lanes@);
        m.append(rows.as_str());
    }
    m
}

fn lane_line(l: &Lane) -> (r: String)
    ensures
        r@ == lane_row(*l),
{
    let mut m = "\n| ".to_owned();
    m.append(l.name.as_str());
    m.append(" | ");
    m.append(text::decimal_text(l.input_tokens).as_str());
    m.append(" | ");
    m.append(text::decimal_text(l.output_tokens).as_str());
    m.append(" | ");
    m.append(text::decimal_text(l.api_calls).as_str());
    m.append(" | $");
    m.append(l.cost.as_str());
    m.append(" |");
    m
}

/// How full the context is. The percentages are ready to be shown.
#[derive(Debug, PartialEq)]
pub struct ContextUsage {
    pub messages: usize,
    pub current_usage: usize,
    pub window_size: usize,
    pub usage_percent: String,
    pub compaction_enabled: bool,
    pub threshold_percent: String,
    pub needs_compaction: bool,
}

/// How full the context is, as the user sees it.
pub open spec fn context_text(c: ContextUsage) -> Seq<char> {
    "## Context Usage\n\n**Messages:** "@ + text::decimal(c.messages as nat)
        + "\n**Context Tokens:** "@ + text::decimal(c.current_usage as nat) + " / "@
        + text::decimal(c.window_size as nat) + " ("@ + c.usage_percent@
        + "%)\n**Compaction:** "@ + (if c.compaction_enabled {
        "enabled"@
    } else {
        "disabled"@
    }) + "\n**Threshold:** "@ + c.threshold_percent@ + "%"@ + (if c.needs_compaction {
        " — ⚠️ threshold reached"@
    } else {
        ""@
    })
}

/// Renders how full the context is.
pub fn render_context(c: &ContextUsage) -> (r: String)
    ensures
        r@ == context_text(*c),
{
    let mut m = "## Context Usage\n\n**Messages:** ".to_owned();
    m.append(text::decimal_text(c.messages as u64).as_str());
    m.append("\n**Context Tokens:** ");
    m.append(text::decimal_text(c.current_usage as u64).as_str());
    m.append(" / ");
    m.append(text::decimal_text(c.window_size as u64).as_str());
    m.append(" (");
    m.append(c.usage_percent.as_str());
    m.append("%)\n**Compaction:** ");
    if c.compaction_enabled {
        m.append("enabled");
    } else {
        m.append("disabled");
    }
    m.append("\n**Threshold:** ");
    m.append(c.threshold_percent.as_str());
    m.append("%");
    if c.needs_compaction {
        m.append(" — ⚠️ threshold reached");
    } else {
        m.append("");
    }
    m
}

/// A command as the help shows it.
#[derive(Debug, PartialEq)]
pub struct CommandHelp {
    pub name: String,
    pub takes_args: bool,
    pub description: String,
}

/// One line of the help.
pub open spec fn help_row(c: CommandHelp) -> Seq<char> {
    "  /"@ + c.name@ + (if c.takes_args {
        " <args>"@
    } else {
        ""@
    }) + " — "@ + c.description@ + "\n"@
}

/// The lines of the help.
pub open spec fn help_rows(s: Seq<CommandHelp>) -> Seq<char>
    decreases s.len(),
{
    if s.len() == 0 {
        "Available commands:\n"@
    } else {
        help_rows(s.drop_last()) + help_row(s.last())
    }
}

/// Renders the help: every command in its order.
pub fn render_help(commands: &[CommandHelp]) -> (r: String)
    ensures
        r@ == help_rows(commands@),
{
    let mut m = "Available commands:\n".to_owned();
    let mut i: usize = 0;
    assert(commands@.take(0) =~= Seq::<CommandHelp>::empty());
    while i < commands.len()
        invariant
            i <= commands@.len(),
            m@ == help_rows(commands@.take(i as int)),
        decreases commands@.len() - i,
    {
        assert(commands@.take(i + 1).drop_last() =~= commands@.take(i as int));
        let c = &commands[i];
        let mut row = "  /".to_owned();
        row.append(c.name.as_str());
        row.append(
            if c.takes_args {
                " <args>"
            } else {
                ""
            },
        );
        row.append(" — ");
        row.append(c.description.as_str());
        row.append("\n");
        m.append(row.as_str());
        i += 1;
    }
    assert(commands@.take(commands@.len() as int) =~= commands@);
    m
}

/// One line of the list of models.
pub open spec fn model_row(
    registry: ModelRegistry,
    alias: Seq<char>,
    current: Seq<char>,
    locked_by: Option<Seq<char>>,
) -> Seq<char> {
    match models::find_alias(registry.models@, alias) {
        Some(m) => (if current == alias {
            "→ "@
        } else {
            "  "@
        }) + alias + "  ("@ + m.provider_name@ + " · "@ + m.model_name@ + ")"@ + (match locked_by {
            Some(team) if current == alias => "  [fixed by pipeline '"@ + team + "']"@,
            _ => ""@,
        }) + "\n"@,
        None => Seq::empty(),
    }
}

/// The lines of the list of models.
pub open spec fn model_rows(
    registry: ModelRegistry,
    aliases: Seq<Seq<char>>,
    current: Seq<char>,
    locked_by: Option<Seq<char>>,
) -> Seq<char>
    decreases aliases.len(),
{
    if aliases.len() == 0 {
        "Available models:\n"@
    } else {
        model_rows(registry, aliases.drop_last(), current, locked_by) + model_row(
            registry,
            aliases.last(),
            current,
            locked_by,
        )
    }
}

/// The list of models: in alphabetical order, the active one marked, and below it
/// how to switch or why one cannot.
pub open spec fn models_text(
    registry: ModelRegistry,
    current: Seq<char>,
    locked_by: Option<Seq<char>>,
) -> Seq<char> {
    let aliases = order::sorted_texts(models::aliases(registry.models@));
    if aliases.len() == 0 {
        "No models declared. Add a `providers:` block to config.yaml. See `multi-model.md`."@
    } else {
        model_rows(registry, aliases, current, locked_by) + (match locked_by {
            Some(team) => "\n"@ + selection::locked_text(team),
            None => "\nUse /model <alias> to switch (starts a new conversation)."@,
        })
    }
}

fn model_line(registry: &ModelRegistry, alias: &str, current: &str, locked_by: Option<&str>) -> (r:
    String)
    ensures
        r@ == model_row(*registry, alias@, current@, text::opt_str(locked_by)),
{
    let active = text::same(current, alias);
    match registry.resolve(alias) {
        Some(m) => {
            let mut row: String = if active {
                "→ ".to_owned()
            } else {
                "  ".to_owned()
            };
            let mut marker = "".to_owned();
            if active {
                if let Some(team) = locked_by {
                    let mut mark = "  [fixed by pipeline '".to_owned();
                    mark.append(team);
                    mark.append("']");
                    marker = mark;
                }
            }
            row.append(alias);
            row.append("  (");
            row.append(m.provider_name.as_str());
            row.append(" · ");
            row.append(m.model_name.as_str());
            row.append(")");
            row.append(marker.as_str());
            row.append("\n");
            row
        },
        None => {
            let row = String::new();
            assert(row@ =~= Seq::<char>::empty());
            row
        },
    }
}

/// Renders the list of models.
pub fn render_models(registry: &ModelRegistry, current: &str, locked_by: Option<&str>) -> (r:
    String)
    ensures
        r@ == models_text(*registry, current@, text::opt_str(locked_by)),
{
    let aliases = registry.aliases_sorted();
    let ghost all = text::strs(aliases@);
    if aliases.len() == 0 {
        return "No models declared. Add a `providers:` block to config.yaml. See `multi-model.md`.".to_owned();
    }
    let mut m = "Available models:\n".to_owned();
    let mut i: usize = 0;
    assert(all.take(0) =~= Seq::<Seq<char>>::empty());
    while i < aliases.len()
        invariant
            i <= aliases@.len(),
            all == text::strs(aliases@),
            m@ == model_rows(*registry, all.take(i as int), current@, text::opt_str(locked_by)),
        decreases aliases@.len() - i,
    {
        assert(all.take(i + 1).drop_last() =~= all.take(i as int));
        m.append(model_line(registry, aliases[i].as_str(), current, locked_by).as_str());
        i += 1;
    }
    assert(all.take(all.len() as int) =~= all);
    match locked_by {
        Some(team) => {
            let mut end = "\n".to_owned();
            end.append(selection::model_locked_message(team).as_str());
            m.append(end.as_str());
        },
        None => m.append("\nUse /model <alias> to switch (starts a new conversation)."),
    }
    m
}

// ---------------------------------------------------------------------------
// Answers
// ---------------------------------------------------------------------------

/// What the commands read of a session.
#[derive(Debug, PartialEq)]
pub struct CommandContext {
    pub session: Session,
    pub stats: Stats,
    pub context: ContextUsage,
    /// The saved conversations; none where there is no storage.
    pub conversations: Option<Vec<ConversationSummary>>,
    pub current: Option<u128>,
    /// The declared models, or why they are not valid.
    pub registry: Result<ModelRegistry, String>,
    pub background: Vec<BgListEntry>,
    pub commands: Vec<CommandHelp>,
    pub pipelines: Vec<PipelineInfo>,
    /// The model of the configuration.
    pub config_model: String,
}

/// The models, where they are valid.
pub open spec fn registry_ok(r: Result<ModelRegistry, String>) -> Option<ModelRegistry> {
    match r {
        Ok(reg) => Some(reg),
        Err(_) => None,
    }
}

fn valid_registry(r: &Result<ModelRegistry, String>) -> (o: Option<&ModelRegistry>)
    ensures
        conversation::registry_of(o) == registry_ok(*r),
{
    match r {
        Ok(reg) => Some(reg),
        Err(_) => None,
    }
}

/// The saved conversations of a session.
pub open spec fn stored(ctx: CommandContext) -> Option<Seq<ConversationSummary>> {
    match ctx.conversations {
        Some(l) => Some(l@),
        None => None,
    }
}

fn stored_slice(ctx: &CommandContext) -> (r: Option<&[ConversationSummary]>)
    ensures
        conversation::list_of(r) == stored(*ctx),
{
    match &ctx.conversations {
        Some(l) => Some(l.as_slice()),
        None => None,
    }
}

/// The names of the teams that views show.
pub open spec fn shown_names(s: Seq<PipelineInfo>) -> Seq<Seq<char>> {
    Seq::new(s.len(), |i: int| s[i].name@)
}

fn read_shown_names(s: &[PipelineInfo]) -> (r: Vec<String>)
    ensures
        text::strs(r@) == shown_names(s@),
{
    let mut r: Vec<String> = Vec::new();
    let mut i: usize = 0;
    while i < s.len()
        invariant
            i <= s@.len(),
            r@.len() == i,
            forall|j: int| 0 <= j < i ==> (#[trigger] r@[j])@ == s@[j].name@,
        decreases s@.len() - i,
    {
        r.push(s[i].name.clone());
        i += 1;
    }
    assert(text::strs(r@) =~= shown_names(s@));
    r
}

/// One message.
pub open spec fn said(m: Seq<char>) -> Seq<EffectView> {
    seq![Effect::SystemMessage(m)]
}

/// What a reference to a conversation comes to: `act` on it, or its error shown.
pub open spec fn on_reference(r: Result<u128, Seq<char>>, act: spec_fn(u128) -> EffectView) -> Seq<
    EffectView,
> {
    match r {
        Ok(id) => seq![act(id)],
        Err(m) => said("❌ "@ + m),
    }
}

/// The model for a new conversation: the active one, else the configured one.
pub open spec fn new_model(ctx: CommandContext) -> Seq<char> {
    if ctx.session.model@.len() == 0 {
        ctx.config_model@
    } else {
        ctx.session.model@
    }
}

/// What picking a team comes to where no agent can be rebuilt, if it is decided as
/// `c`.
pub open spec fn pick_effects(c: PipelineChoice) -> Seq<EffectView> {
    match c {
        PipelineChoice::Unchanged => Seq::empty(),
        PipelineChoice::Refused(m) => said("❌ /pipeline: "@ + m@),
        PipelineChoice::Apply(_) => said(
            "❌ /pipeline: not available in this build (no agent loop attached)."@,
        ),
    }
}

/// What a command that acts on a saved conversation comes to. `uuid` is the
/// identifier that its reference denotes, `format` the wanted format in small
/// letters.
pub open spec fn storage_effects(
    c: Command<Seq<char>>,
    uuid: Option<u128>,
    format: Seq<char>,
    list: Option<Seq<ConversationSummary>>,
) -> Seq<EffectView> {
    match c {
        Command::Load(arg) => on_reference(
            conversation::referenced(arg, uuid, list),
            |id: u128| Effect::PeekConversation(id),
        ),
        Command::Delete(arg) => on_reference(
            conversation::referenced(arg, uuid, list),
            |id: u128| Effect::DeleteConversation(id),
        ),
        Command::Export(arg, Some(_)) => on_reference(
            conversation::referenced(arg, uuid, list),
            |id: u128| Effect::ExportConversation { id, format },
        ),
        Command::Export(_, None) => said("Usage: /export <n|uuid> <json|markdown>"@),
        Command::Rename(name) => seq![Effect::RenameConversation(name)],
        Command::Save => seq![Effect::SaveConversation],
        _ => Seq::empty(),
    }
}

/// What a command that is answered at once comes to.
pub open spec fn direct_effects(c: Command<Seq<char>>, ctx: CommandContext) -> Seq<EffectView> {
    match c {
        Command::Reset => seq![
            Effect::ResetStats,
            Effect::SystemMessage("Session statistics reset."@),
        ],
        Command::Stats => said(stats_text(ctx.stats)),
        Command::Context => said(context_text(ctx.context)),
        Command::Compact => seq![
            Effect::SetStatus(Some("Compacting context..."@)),
            Effect::ForceCompact,
        ],
        Command::Conversations => said(
            conversation::listing_text(stored(ctx), ctx.current, registry_ok(ctx.registry)),
        ),
        Command::Exit => seq![Effect::RequestExit],
        Command::Bg => said(bg::listing_text(ctx.background@)),
        Command::Help => said(help_rows(ctx.commands@)),
        Command::New => seq![
            Effect::ResetConversation,
            Effect::CreateConversation {
                provider_name: ctx.session.provider_name@,
                model: new_model(ctx),
                cwd: ctx.session.cwd@,
            },
            Effect::SystemMessage("Started a new conversation."@),
        ],
        Command::ListModels => said(
            match ctx.registry {
                Ok(reg) => models_text(reg, ctx.session.alias@, text::opt(ctx.session.selected)),
                Err(e) => "❌ /model: model registry not configured: "@ + e@,
            },
        ),
        Command::SwitchModel => said(
            match ctx.session.selected {
                Some(team) => "❌ /model: "@ + selection::locked_text(team@),
                None =>
                    "❌ /model: not available in this build. Configure a `providers:` block in config.yaml and restart. See `multi-model.md`."@,
            },
        ),
        Command::ListPipelines => said(
            selection::list_text(ctx.pipelines@, text::opt(ctx.session.selected)),
        ),
        Command::Subagents => said(
            "🧩 /subagents is gone — use /pipeline to list the configured teams, /pipeline <name> to select one, /pipeline none to clear."@,
        ),
        Command::ShowCwd => said(ctx.session.cwd@),
        Command::ChangeCwd => said(
            "❌ /cd: not available in this build. Configure a `providers:` block in config.yaml and restart."@,
        ),
        _ => Seq::empty(),
    }
}

/// Whether a command acts on storage.
pub open spec fn on_storage<S>(c: Command<S>) -> bool {
    c is Load || c is Delete || c is Export || c is Rename || c is Save
}

/// Whether `out` is what a command comes to.
pub open spec fn answered(
    c: Command<Seq<char>>,
    uuid: Option<u128>,
    format: Seq<char>,
    ctx: CommandContext,
    out: Seq<EffectView>,
) -> bool {
    match c {
        Command::PickPipeline(target) => exists|choice: PipelineChoice| #[trigger]
            selection::chosen(
                text::opt(ctx.session.selected),
                ctx.session.has_turns,
                target,
                shown_names(ctx.pipelines@),
                choice,
            ) && out == pick_effects(choice),
        _ => if on_storage(c) {
            out == storage_effects(c, uuid, format, stored(ctx))
        } else {
            out == direct_effects(c, ctx)
        },
    }
}

fn complain(out: &mut Effects, before: &str, message: &str)
    ensures
        final(out)@ == old(out)@ + said(before@ + message@),
{
    let mut m = before.to_owned();
    m.append(message);
    out.say(m);
    assert(out@ =~= old(out)@ + said(before@ + message@));
}

fn answer_storage(
    c: Command<String>,
    uuid: Option<u128>,
    format: String,
    ctx: &CommandContext,
) -> (out: Effects)
    ensures
        out@ == storage_effects(c@, uuid, format@, stored(*ctx)),
{
    let ghost c0 = c@;
    let mut out = Effects::new();
    match c {
        Command::Load(arg) => match conversation::resolve_reference(
            arg.as_str(),
            uuid,
            stored_slice(ctx),
        ) {
            Ok(id) => out.push(Effect::PeekConversation(id)),
            Err(m) => complain(&mut out, "❌ ", m.as_str()),
        },
        Command::Delete(arg) => match conversation::resolve_reference(
            arg.as_str(),
            uuid,
            stored_slice(ctx),
        ) {
            Ok(id) => out.push(Effect::DeleteConversation(id)),
            Err(m) => complain(&mut out, "❌ ", m.as_str()),
        },
        Command::Export(arg, Some(_)) => match conversation::resolve_reference(
            arg.as_str(),
            uuid,
            stored_slice(ctx),
        ) {
            Ok(id) => out.push(Effect::ExportConversation { id, format }),
            Err(m) => complain(&mut out, "❌ ", m.as_str()),
        },
        Command::Export(_, None) => out.say("Usage: /export <n|uuid> <json|markdown>".to_owned()),
        Command::Rename(name) => out.push(Effect::RenameConversation(name)),
        Command::Save => out.push(Effect::SaveConversation),
        _ => {},
    }
    assert(out@ =~= storage_effects(c0, uuid, format@, stored(*ctx)));
    out
}

fn answer_directly(c: Command<String>, ctx: &CommandContext) -> (out: Effects)
    ensures
        out@ == direct_effects(c@, *ctx),
{
    let ghost c0 = c@;
    let mut out = Effects::new();
    match c {
        Command::Reset => {
            out.push(Effect::ResetStats);
            out.say("Session statistics reset.".to_owned());
        },
        Command::Stats => out.say(render_stats(&ctx.stats)),
        Command::Context => out.say(render_context(&ctx.context)),
        Command::Compact => {
            out.push(Effect::SetStatus(Some("Compacting context...".to_owned())));
            out.push(Effect::ForceCompact);
        },
        Command::Conversations => out.say(
            conversation::render_conversations(
                stored_slice(ctx),
                ctx.current,
                valid_registry(&ctx.registry),
            ),
        ),
        Command::Exit => out.push(Effect::RequestExit),
        Command::Bg => out.say(bg::render_bg_listing(&ctx.background)),
        Command::Help => out.say(render_help(&ctx.commands)),
        Command::New => {
            out.push(Effect::ResetConversation);
            let model: String = if ctx.session.model.as_str().is_empty() {
                ctx.config_model.clone()
            } else {
                ctx.session.model.clone()
            };
            out.push(
                Effect::CreateConversation {
                    provider_name: ctx.session.provider_name.clone(),
                    model,
                    cwd: ctx.session.cwd.clone(),
                },
            );
            out.say("Started a new conversation.".to_owned());
        },
        Command::ListModels => match &ctx.registry {
            Ok(reg) => out.say(
                render_models(
                    reg,
                    ctx.session.alias.as_str(),
                    text::as_str_option(&ctx.session.selected),
                ),
            ),
            Err(e) => complain(
                &mut out,
                "❌ /model: model registry not configured: ",
                e.as_str(),
            ),
        },
        Command::SwitchModel => match &ctx.session.selected {
            Some(team) => complain(
                &mut out,
                "❌ /model: ",
                selection::model_locked_message(team.as_str()).as_str(),
            ),
            None => out.say(
                "❌ /model: not available in this build. Configure a `providers:` block in config.yaml and restart. See `multi-model.md`.".to_owned(),
            ),
        },
        Command::ListPipelines => out.say(
            selection::render_pipeline_list(
                &ctx.pipelines,
                text::as_str_option(&ctx.session.selected),
            ),
        ),
        Command::Subagents => out.say(
            "🧩 /subagents is gone — use /pipeline to list the configured teams, /pipeline <name> to select one, /pipeline none to clear.".to_owned(),
        ),
        Command::ShowCwd => out.say(ctx.session.cwd.clone()),
        Command::ChangeCwd => out.say(
            "❌ /cd: not available in this build. Configure a `providers:` block in config.yaml and restart.".to_owned(),
        ),
        _ => {},
    }
    assert(out@ =~= direct_effects(c0, *ctx));
    out
}

/// Answers a command. `uuid` is the identifier that its reference denotes, `format`
/// the wanted format in small letters.
pub fn answer(c: Command<String>, uuid: Option<u128>, format: String, ctx: &CommandContext) -> (out:
    Effects)
    ensures
        answered(c@, uuid, format@, *ctx, out@),
{
    match c {
        Command::PickPipeline(target) => {
            let names = read_shown_names(&ctx.pipelines);
            let choice = selection::resolve_pipeline_choice(
                text::as_str_option(&ctx.session.selected),
                ctx.session.has_turns,
                text::as_str_option(&target),
                &names,
            );
            let ghost choice0 = choice;
            assert(selection::chosen(
                text::opt(ctx.session.selected),
                ctx.session.has_turns,
                text::opt(target),
                shown_names(ctx.pipelines@),
                choice0,
            ));
            let mut out = Effects::new();
            match choice {
                PipelineChoice::Unchanged => {},
                PipelineChoice::Refused(m) => complain(&mut out, "❌ /pipeline: ", m.as_str()),
                PipelineChoice::Apply(_) => out.say(
                    "❌ /pipeline: not available in this build (no agent loop attached).".to_owned(),
                ),
            }
            assert(out@ =~= pick_effects(choice0));
            out
        },
        Command::Load(a) => answer_storage(Command::Load(a), uuid, format, ctx),
        Command::Delete(a) => answer_storage(Command::Delete(a), uuid, format, ctx),
        Command::Export(a, f) => answer_storage(Command::Export(a, f), uuid, format, ctx),
        Command::Rename(n) => answer_storage(Command::Rename(n), uuid, format, ctx),
        Command::Save => answer_storage(Command::Save, uuid, format, ctx),
        other => answer_directly(other, ctx),
    }
}

/// The text of a command that refers to a conversation.
pub open spec fn reference_of(c: Command<Seq<char>>) -> Seq<char> {
    match c {
        Command::Load(a) => a,
        Command::Delete(a) => a,
        Command::Export(a, _) => a,
        _ => Seq::empty(),
    }
}

/// The text of a command that names a format.
pub open spec fn format_of(c: Command<Seq<char>>) -> Seq<char> {
    match c {
        Command::Export(_, Some(f)) => f,
        _ => Seq::empty(),
    }
}

fn read_reference(c: &Command<String>) -> (r: String)
    ensures
        r@ == reference_of(c@),
{
    let r: String = match c {
        Command::Load(a) => a.clone(),
        Command::Delete(a) => a.clone(),
        Command::Export(a, _) => a.clone(),
        _ => String::new(),
    };
    assert(r@ =~= reference_of(c@));
    r
}

fn read_format(c: &Command<String>) -> (r: String)
    ensures
        r@ == format_of(c@),
{
    let r: String = match c {
        Command::Export(_, Some(f)) => f.clone(),
        _ => String::new(),
    };
    assert(r@ =~= format_of(c@));
    r
}

proof fn lemma_ascii_format(cmd: Seq<char>, lowered: Seq<char>)
    requires
        text::all_ascii(cmd),
    ensures
        text::all_ascii(format_of(asked(cmd, lowered))),
{
    let typed = text::trim_start(cmd);
    text::lemma_trim_start_ascii(cmd);
    if let Some(args) = text::after_prefix(typed, "/export "@) {
        assert(text::all_ascii(args)) by {
            assert forall|i: int| 0 <= i < args.len() implies (#[trigger] args[i] as u32) < 128 by {
                assert(args[i] == typed[i + "/export "@.len()]);
            }
        }
        text::lemma_split_ascii(args, ' ');
    }
}

/// Runs a command. Without a session nothing is done. Of a command in ASCII
/// characters, the small letters are the ASCII ones.
pub fn process_command(cmd: &str, session: Option<&CommandContext>) -> (out: Effects)
    ensures
        match session {
            Some(ctx) => {
                let c = asked(cmd@, text::lowercase(cmd@));
                answered(
                    c,
                    conversation::uuid_of(reference_of(c)),
                    text::lowercase(format_of(c)),
                    *ctx,
                    out@,
                )
            },
            None => out@.len() == 0,
        },
        session matches Some(ctx) ==> text::all_ascii(cmd@) ==> {
            let c = asked(cmd@, text::ascii_lowercase(cmd@));
            answered(
                c,
                conversation::uuid_of(reference_of(c)),
                text::ascii_lowercase(format_of(c)),
                *ctx,
                out@,
            )
        },
{
    match session {
        Some(ctx) => {
            let c = parse_command(cmd);
            let uuid = conversation::parse_uuid(read_reference(&c).as_str());
            let format = text::to_lowercase(read_format(&c).as_str());
            proof {
                if text::all_ascii(cmd@) {
                    lemma_ascii_format(cmd@, text::ascii_lowercase(cmd@));
                }
            }
            answer(c, uuid, format, ctx)
        },
        None => Effects::new(),
    }
}

// ---------------------------------------------------------------------------
// What follows
// ---------------------------------------------------------------------------

/// What follows a compaction that the user asked for.
pub open spec fn compact_done_effects(outcome: Option<CompactionCounts>) -> Seq<EffectView> {
    seq![
        Effect::SetStatus(None),
        Effect::SystemMessage(
            match outcome {
                Some(c) => turn::compacted_text(c, "discarded"@),
                None => "Nothing to compact."@,
            },
        ),
    ]
}

/// Decides what follows a compaction that the user asked for.
pub fn compact_done(outcome: Option<CompactionCounts>) -> (out: Effects)
    ensures
        out@ == compact_done_effects(outcome),
{
    let mut out = Effects::new();
    out.push(Effect::SetStatus(None));
    out.say(force_compact_message(outcome));
    assert(out@ =~= compact_done_effects(outcome));
    out
}

/// What the user is told after a compaction that was asked for.
pub fn force_compact_message(outcome: Option<CompactionCounts>) -> (r: String)
    ensures
        r@ == (match outcome {
            Some(c) => turn::compacted_text(c, "discarded"@),
            None => "Nothing to compact."@,
        }),
{
    match outcome {
        Some(c) => turn::compaction_message(c, "discarded"),
        None => "Nothing to compact.".to_owned(),
    }
}

/// What follows saving: the conversation's name, where there is one.
pub open spec fn saved_effects(name: Option<Seq<char>>) -> Seq<EffectView> {
    match name {
        Some(n) => said("Conversation saved: "@ + n),
        None => Seq::empty(),
    }
}

/// Decides what follows saving.
pub fn save_done(name: Option<&str>) -> (out: Effects)
    ensures
        out@ == saved_effects(text::opt_str(name)),
{
    let mut out = Effects::new();
    if let Some(n) = name {
        complain(&mut out, "Conversation saved: ", n);
    }
    assert(out@ =~= saved_effects(text::opt_str(name)));
    out
}

/// The wire identity of a saved conversation.
#[derive(Debug, PartialEq)]
pub struct WireId {
    /// Empty for one that was saved without.
    pub provider_name: String,
    pub model: String,
}

/// How a saved model is named where it cannot be had.
pub open spec fn display_id(w: WireId) -> Seq<char> {
    if w.provider_name@.len() == 0 {
        w.model@
    } else {
        w.provider_name@ + "/"@ + w.model@
    }
}

/// What follows a look at a saved conversation: it is loaded where its model can be
/// had.
pub open spec fn peeked_effects(
    id: u128,
    wire: Result<WireId, String>,
    registry: Option<ModelRegistry>,
) -> Seq<EffectView> {
    match wire {
        Err(e) => said("❌ Failed to read conversation: "@ + e@),
        Ok(w) => match registry {
            Some(r) if models::find_wire(r.models@, w.provider_name@, w.model@) is Some => seq![
                Effect::LoadConversation(id),
            ],
            _ => said("❌ Model '"@ + display_id(w) + "' not available."@),
        },
    }
}

/// Decides what follows a look at a saved conversation.
pub fn peek_done(id: u128, wire: Result<WireId, String>, registry: Option<&ModelRegistry>) -> (out:
    Effects)
    ensures
        out@ == peeked_effects(id, wire, conversation::registry_of(registry)),
{
    let ghost wire0 = wire;
    let mut out = Effects::new();
    match wire {
        Err(e) => complain(&mut out, "❌ Failed to read conversation: ", e.as_str()),
        Ok(w) => {
            let available = match registry {
                Some(r) => r.find_by_wire_id(w.provider_name.as_str(), w.model.as_str()).is_some(),
                None => false,
            };
            if available {
                out.push(Effect::LoadConversation(id));
            } else {
                let mut m = "❌ Model '".to_owned();
                let mut shown = w.provider_name.clone();
                if w.provider_name.as_str().is_empty() {
                    shown = w.model.clone();
                } else {
                    shown.append("/");
                    shown.append(w.model.as_str());
                }
                m.append(shown.as_str());
                m.append("' not available.");
                out.say(m);
            }
        },
    }
    assert(out@ =~= peeked_effects(id, wire0, conversation::registry_of(registry)));
    out
}

/// A conversation is loaded only where its model can be had: a load that fails
/// leaves the current conversation alone.
pub proof fn law_load_needs_its_model(
    id: u128,
    wire: Result<WireId, String>,
    registry: Option<ModelRegistry>,
    i: int,
)
    requires
        0 <= i < peeked_effects(id, wire, registry).len(),
        peeked_effects(id, wire, registry)[i] is LoadConversation,
    ensures
        wire is Ok,
        registry is Some,
        models::find_wire(
            registry->0.models@,
            wire->Ok_0.provider_name@,
            wire->Ok_0.model@,
        ) is Some,
{
}

/// What follows a load. The display of the model is left alone: it follows the
/// agent.
pub open spec fn loaded_effects(outcome: Result<Option<Seq<char>>, Seq<char>>) -> Seq<EffectView> {
    match outcome {
        Ok(Some(name)) => said("Loaded conversation: '"@ + name + "'"@),
        Ok(None) => Seq::empty(),
        Err(e) => said("❌ Failed to load conversation: "@ + e),
    }
}

/// A load's outcome with its texts as character sequences.
pub open spec fn load_view(r: Result<Option<String>, String>) -> Result<
    Option<Seq<char>>,
    Seq<char>,
> {
    match r {
        Ok(n) => Ok(text::opt(n)),
        Err(e) => Err(e@),
    }
}

/// Decides what follows a load; the name is that of the loaded conversation.
pub fn load_done(outcome: Result<Option<String>, String>) -> (out: Effects)
    ensures
        out@ == loaded_effects(load_view(outcome)),
{
    let ghost o = load_view(outcome);
    let mut out = Effects::new();
    match outcome {
        Ok(Some(name)) => {
            let mut m = "Loaded conversation: '".to_owned();
            m.append(name.as_str());
            m.append("'");
            out.say(m);
        },
        Ok(None) => {},
        Err(e) => complain(&mut out, "❌ Failed to load conversation: ", e.as_str()),
    }
    assert(out@ =~= loaded_effects(o));
    out
}

/// Decides what follows a deletion.
pub fn delete_done(fault: Option<&str>) -> (out: Effects)
    ensures
        out@ == (match fault {
            Some(e) => said("❌ Failed to delete: "@ + e@),
            None => said("Conversation deleted."@),
        }),
{
    let mut out = Effects::new();
    match fault {
        Some(e) => complain(&mut out, "❌ Failed to delete: ", e),
        None => out.say("Conversation deleted.".to_owned()),
    }
    assert(out@ =~= (match fault {
        Some(e) => said("❌ Failed to delete: "@ + e@),
        None => said("Conversation deleted."@),
    }));
    out
}

/// Decides what follows an export.
pub fn export_done(outcome: Result<String, String>) -> (out: Effects)
    ensures
        out@ == (match outcome {
            Ok(output) => said("Export:\n"@ + output@),
            Err(e) => said("❌ Export failed: "@ + e@),
        }),
{
    let ghost o = outcome;
    let mut out = Effects::new();
    match outcome {
        Ok(output) => complain(&mut out, "Export:\n", output.as_str()),
        Err(e) => complain(&mut out, "❌ Export failed: ", e.as_str()),
    }
    assert(out@ =~= (match o {
        Ok(output) => said("Export:\n"@ + output@),
        Err(e) => said("❌ Export failed: "@ + e@),
    }));
    out
}

/// Decides what follows a renaming.
pub fn rename_done(name: &str, fault: Option<&str>) -> (out: Effects)
    ensures
        out@ == (match fault {
            Some(e) => said("❌ Failed to rename: "@ + e@),
            None => said("Conversation renamed to: "@ + name@),
        }),
{
    let mut out = Effects::new();
    match fault {
        Some(e) => complain(&mut out, "❌ Failed to rename: ", e),
        None => complain(&mut out, "Conversation renamed to: ", name),
    }
    assert(out@ =~= (match fault {
        Some(e) => said("❌ Failed to rename: "@ + e@),
        None => said("Conversation renamed to: "@ + name@),
    }));
    out
}

// ---------------------------------------------------------------------------
// Laws
// ---------------------------------------------------------------------------

/// Whether an effect changes which model is shown as the active one.
pub open spec fn stamps_identity(e: EffectView) -> bool {
    e is SetModel || e is SetProviderName || e is SetModelAlias
}

/// Whether an effect speaks to the model or writes the user's text.
pub open spec fn speaks_to_model(e: EffectView) -> bool {
    e is RunTurn || e is AddUserMessage || e is AddAssistantMessage
}

/// No command speaks to the model, and none changes which model is shown: that
/// follows the agent. A load in particular leaves the identity to be compared with
/// the saved one.
pub proof fn law_commands_neither_speak_nor_stamp(
    c: Command<Seq<char>>,
    uuid: Option<u128>,
    format: Seq<char>,
    ctx: CommandContext,
    out: Seq<EffectView>,
    i: int,
)
    requires
        answered(c, uuid, format, ctx, out),
        0 <= i < out.len(),
    ensures
        !speaks_to_model(out[i]),
        !stamps_identity(out[i]),
{
    if let Command::PickPipeline(target) = c {
        let choice = choose|choice: PipelineChoice| #[trigger]
            selection::chosen(
                text::opt(ctx.session.selected),
                ctx.session.has_turns,
                target,
                shown_names(ctx.pipelines@),
                choice,
            ) && out == pick_effects(choice);
        assert(out == pick_effects(choice));
    }
}

/// What follows a look at a conversation and its load changes no identity either.
pub proof fn law_load_does_not_stamp(
    id: u128,
    wire: Result<WireId, String>,
    registry: Option<ModelRegistry>,
    outcome: Result<Option<Seq<char>>, Seq<char>>,
    i: int,
)
    requires
        0 <= i < (peeked_effects(id, wire, registry) + loaded_effects(outcome)).len(),
    ensures
        !stamps_identity((peeked_effects(id, wire, registry) + loaded_effects(outcome))[i]),
{
}

/// A new name keeps its case: only the command's word is compared in small letters.
pub proof fn law_new_name_keeps_its_case(arg: Seq<char>, lowered: Seq<char>)
    requires
        text::starts_with(lowered, "/rename "@),
    ensures
        asked("/rename "@ + arg, lowered) == Command::<Seq<char>>::Rename(arg),
{
    reveal_strlit("/rename ");
    reveal_strlit("/load ");
    reveal_strlit("/delete ");
    reveal_strlit("/export ");
    let cmd = "/rename "@ + arg;
    assert(lowered[0] == '/' && lowered[1] == 'r' && lowered[3] == 'n' && lowered[6] == 'e') by {
        assert(lowered.take(8)[0] == "/rename "@[0]);
        assert(lowered.take(8)[1] == "/rename "@[1]);
        assert(lowered.take(8)[3] == "/rename "@[3]);
        assert(lowered.take(8)[6] == "/rename "@[6]);
    }
    assert(text::trim_start(lowered) == lowered);
    assert(text::trim_start(cmd) == cmd);
    let bare = text::trim_end(lowered);
    assert(one_word(bare) is None) by {
        text::lemma_trim_end_keeps(lowered, 6);
        assert(bare.take(7)[1] == lowered.take(7)[1]);
        assert(bare.take(7)[3] == lowered.take(7)[3]);
        assert(bare[1] == 'r' && bare[3] == 'n');
        reveal_strlit("/reset");
        reveal_strlit("/stats");
        reveal_strlit("/context");
        reveal_strlit("/compact");
        reveal_strlit("/conversations");
        reveal_strlit("/exit");
        reveal_strlit("/bg");
        reveal_strlit("/help");
        reveal_strlit("/new");
        reveal_strlit("/save");
    }
    assert(!text::starts_with(lowered, "/load "@)) by {
        if text::starts_with(lowered, "/load "@) {
            assert(lowered.take(6)[1] == "/load "@[1]);
        }
    }
    assert(!text::starts_with(lowered, "/delete "@)) by {
        if text::starts_with(lowered, "/delete "@) {
            assert(lowered.take(8)[1] == "/delete "@[1]);
        }
    }
    assert(!text::starts_with(lowered, "/export "@)) by {
        if text::starts_with(lowered, "/export "@) {
            assert(lowered.take(8)[1] == "/export "@[1]);
        }
    }
    assert(cmd.take(8) =~= "/rename "@);
    assert(cmd.skip(8) =~= arg);
}

/// A command of one word is exactly that word, capitals and blanks around it aside.
pub proof fn law_one_word_commands(cmd: Seq<char>, lowered: Seq<char>)
    ensures
        ({
            let c = asked(cmd, lowered);
            let word = text::trim_end(text::trim_start(lowered));
            &&& c is Reset <==> word == "/reset"@
            &&& c is Stats <==> word == "/stats"@
            &&& c is Context <==> word == "/context"@
            &&& c is Compact <==> word == "/compact"@
            &&& c is Conversations <==> word == "/conversations"@
            &&& c is Exit <==> word == "/exit"@
            &&& c is Bg <==> word == "/bg"@
            &&& c is Help <==> word == "/help"@
            &&& c is New <==> word == "/new"@
            &&& c is Save <==> word == "/save"@
        }),
{
    lemma_words();
}

/// What tells the words of commands apart: their lengths and their first letters.
proof fn lemma_words()
    ensures
        "/reset"@.len() == 6 && "/reset"@[1] == 'r' && "/reset"@[2] == 'e' && "/reset"@[3] == 's',
        "/stats"@.len() == 6 && "/stats"@[1] == 's' && "/stats"@[2] == 't' && "/stats"@[3] == 'a',
        "/context"@.len() == 8 && "/context"@[1] == 'c' && "/context"@[2] == 'o' && "/context"@[3] == 'n',
        "/compact"@.len() == 8 && "/compact"@[1] == 'c' && "/compact"@[2] == 'o' && "/compact"@[3] == 'm',
        "/conversations"@.len() == 14 && "/conversations"@[1] == 'c' && "/conversations"@[2] == 'o' && "/conversations"@[3] == 'n',
        "/exit"@.len() == 5 && "/exit"@[1] == 'e' && "/exit"@[2] == 'x' && "/exit"@[3] == 'i',
        "/bg"@.len() == 3 && "/bg"@[1] == 'b' && "/bg"@[2] == 'g',
        "/help"@.len() == 5 && "/help"@[1] == 'h' && "/help"@[2] == 'e' && "/help"@[3] == 'l',
        "/new"@.len() == 4 && "/new"@[1] == 'n' && "/new"@[2] == 'e' && "/new"@[3] == 'w',
        "/save"@.len() == 5 && "/save"@[1] == 's' && "/save"@[2] == 'a' && "/save"@[3] == 'v',
        "/model"@.len() == 6 && "/model"@[1] == 'm' && "/model"@[2] == 'o' && "/model"@[3] == 'd',
        "/pipeline"@.len() == 9 && "/pipeline"@[1] == 'p' && "/pipeline"@[2] == 'i' && "/pipeline"@[3] == 'p',
        "/subagents"@.len() == 10 && "/subagents"@[1] == 's' && "/subagents"@[2] == 'u' && "/subagents"@[3] == 'b',
        "/cd"@.len() == 3 && "/cd"@[1] == 'c' && "/cd"@[2] == 'd',
        "/load "@.len() == 6 && "/load "@[1] == 'l' && "/load "@[2] == 'o' && "/load "@[3] == 'a',
        "/delete "@.len() == 8 && "/delete "@[1] == 'd' && "/delete "@[2] == 'e' && "/delete "@[3] == 'l',
        "/export "@.len() == 8 && "/export "@[1] == 'e' && "/export "@[2] == 'x' && "/export "@[3] == 'p',
        "/rename "@.len() == 8 && "/rename "@[1] == 'r' && "/rename "@[2] == 'e' && "/rename "@[3] == 'n',
        "/model "@.len() == 7 && "/model "@[1] == 'm' && "/model "@[2] == 'o' && "/model "@[3] == 'd',
        "/pipeline "@.len() == 10 && "/pipeline "@[1] == 'p' && "/pipeline "@[2] == 'i' && "/pipeline "@[3] == 'p',
        "/subagents "@.len() == 11 && "/subagents "@[1] == 's' && "/subagents "@[2] == 'u' && "/subagents "@[3] == 'b',
        "/cd "@.len() == 4 && "/cd "@[1] == 'c' && "/cd "@[2] == 'd' && "/cd "@[3] == ' ',
{
    reveal_strlit("/reset");
    reveal_strlit("/stats");
    reveal_strlit("/context");
    reveal_strlit("/compact");
    reveal_strlit("/conversations");
    reveal_strlit("/exit");
    reveal_strlit("/bg");
    reveal_strlit("/help");
    reveal_strlit("/new");
    reveal_strlit("/save");
    reveal_strlit("/model");
    reveal_strlit("/pipeline");
    reveal_strlit("/subagents");
    reveal_strlit("/cd");
    reveal_strlit("/load ");
    reveal_strlit("/delete ");
    reveal_strlit("/export ");
    reveal_strlit("/rename ");
    reveal_strlit("/model ");
    reveal_strlit("/pipeline ");
    reveal_strlit("/subagents ");
    reveal_strlit("/cd ");
}

proof fn lemma_bare(low: Seq<char>, word: Seq<char>, i: int)
    requires
        0 <= i < word.len(),
        text::starts_with(low, word),
        !text::is_space(word[i]),
    ensures
        text::trim_end(low).len() > i,
        forall|j: int| 0 <= j <= i ==> #[trigger] text::trim_end(low)[j] == word[j],
        forall|j: int| 0 <= j < word.len() ==> #[trigger] low[j] == word[j],
{
    let bare = text::trim_end(low);
    assert forall|j: int| 0 <= j < word.len() implies #[trigger] low[j] == word[j] by {
        assert(low.take(word.len() as int)[j] == word[j]);
    }
    assert(low[i] == word[i]);
    text::lemma_trim_end_keeps(low, i);
    assert forall|j: int| 0 <= j <= i implies #[trigger] bare[j] == word[j] by {
        assert(bare.take(i + 1)[j] == low.take(i + 1)[j]);
    }
}

/// A command that acts on a saved conversation opens with its word, which has to be typed
/// in small letters, and a space; what follows is what it acts on, without the white space
/// around it, in the case in which it was typed.
pub proof fn law_commands_with_an_argument(cmd: Seq<char>, lowered: Seq<char>)
    ensures
        ({
            let c = asked(cmd, lowered);
            let low = text::trim_start(lowered);
            let typed = text::trim_start(cmd);
            &&& c is Load <==> text::starts_with(low, "/load "@) && text::starts_with(
                typed,
                "/load "@,
            )
            &&& c is Delete <==> text::starts_with(low, "/delete "@) && text::starts_with(
                typed,
                "/delete "@,
            )
            &&& c is Export <==> text::starts_with(low, "/export "@) && text::starts_with(
                typed,
                "/export "@,
            )
            &&& c is Rename <==> text::starts_with(low, "/rename "@) && text::starts_with(
                typed,
                "/rename "@,
            )
            &&& c is Load ==> c->Load_0 == text::trim(typed.skip(6))
            &&& c is Delete ==> c->Delete_0 == text::trim(typed.skip(8))
            &&& c is Rename ==> c->Rename_0 == typed.skip(8)
            &&& c is Export ==> match c->Export_1 {
                Some(format) => exists|x: Seq<char>|
                    typed.skip(8) == #[trigger] x.push(' ') + format && c->Export_0 == text::trim(x)
                        && forall|i: int| 0 <= i < x.len() ==> #[trigger] x[i] != ' ',
                None => c->Export_0 == text::trim(typed.skip(8)) && forall|i: int|
                    0 <= i < typed.skip(8).len() ==> #[trigger] typed.skip(8)[i] != ' ',
            }
        }),
{
    lemma_words();
    let low = text::trim_start(lowered);
    let typed = text::trim_start(cmd);
    if text::starts_with(low, "/load "@) {
        lemma_bare(low, "/load "@, 3);
        assert(low[1] == "/load "@[1] && low[2] == "/load "@[2] && low[3] == "/load "@[3]);
        assert(text::trim_end(low)[1] == low[1] && text::trim_end(low)[2] == low[2]);
        assert(text::trim_end(low)[3] == low[3]);
    }
    if text::starts_with(low, "/delete "@) {
        lemma_bare(low, "/delete "@, 3);
        assert(low[1] == "/delete "@[1] && low[2] == "/delete "@[2] && low[3] == "/delete "@[3]);
        assert(text::trim_end(low)[1] == low[1] && text::trim_end(low)[2] == low[2]);
        assert(text::trim_end(low)[3] == low[3]);
    }
    if text::starts_with(low, "/export "@) {
        lemma_bare(low, "/export "@, 3);
        assert(low[1] == "/export "@[1] && low[2] == "/export "@[2] && low[3] == "/export "@[3]);
        assert(text::trim_end(low)[1] == low[1] && text::trim_end(low)[2] == low[2]);
        assert(text::trim_end(low)[3] == low[3]);
        let args = typed.skip(8);
        text::law_split_first(args, ' ');
        let x = text::split_first(args, ' ').0;
        if let Some(rest) = text::split_first(args, ' ').1 {
            assert(args == x.push(' ') + rest);
        }
    }
    if text::starts_with(low, "/rename "@) {
        lemma_bare(low, "/rename "@, 3);
        assert(low[1] == "/rename "@[1] && low[2] == "/rename "@[2] && low[3] == "/rename "@[3]);
        assert(text::trim_end(low)[1] == low[1] && text::trim_end(low)[2] == low[2]);
        assert(text::trim_end(low)[3] == low[3]);
    }
}

/// The commands of the session: with their word alone, blanks behind it aside, they list or
/// show; with a space and more behind it they pick.
pub proof fn law_session_commands(cmd: Seq<char>, lowered: Seq<char>)
    ensures
        ({
            let c = asked(cmd, lowered);
            let low = text::trim_start(lowered);
            let word = text::trim_end(low);
            &&& c is ListModels <==> word == "/model"@
            &&& c is SwitchModel <==> word != "/model"@ && text::starts_with(low, "/model "@)
            &&& c is ListPipelines <==> word == "/pipeline"@
            &&& c is PickPipeline <==> word != "/pipeline"@ && text::starts_with(low, "/pipeline "@)
            &&& c is Subagents <==> word == "/subagents"@ || text::starts_with(low, "/subagents "@)
            &&& c is ShowCwd <==> word == "/cd"@
            &&& c is ChangeCwd <==> word != "/cd"@ && text::starts_with(low, "/cd "@)
            &&& c is PickPipeline ==> c->PickPipeline_0 == picked(text::trim_start(cmd))
        }),
{
    lemma_words();
    let low = text::trim_start(lowered);
    let word = text::trim_end(low);
    if text::starts_with(low, "/load "@) {
        lemma_bare(low, "/load "@, 3);
        assert(low[1] == "/load "@[1] && low[2] == "/load "@[2] && low[3] == "/load "@[3]);
        assert(text::trim_end(low)[1] == low[1] && text::trim_end(low)[2] == low[2]);
        assert(text::trim_end(low)[3] == low[3]);
    }
    if text::starts_with(low, "/delete "@) {
        lemma_bare(low, "/delete "@, 3);
        assert(low[1] == "/delete "@[1] && low[2] == "/delete "@[2] && low[3] == "/delete "@[3]);
        assert(text::trim_end(low)[1] == low[1] && text::trim_end(low)[2] == low[2]);
        assert(text::trim_end(low)[3] == low[3]);
    }
    if text::starts_with(low, "/export "@) {
        lemma_bare(low, "/export "@, 3);
        assert(low[1] == "/export "@[1] && low[2] == "/export "@[2] && low[3] == "/export "@[3]);
        assert(text::trim_end(low)[1] == low[1] && text::trim_end(low)[2] == low[2]);
        assert(text::trim_end(low)[3] == low[3]);
    }
    if text::starts_with(low, "/rename "@) {
        lemma_bare(low, "/rename "@, 3);
        assert(low[1] == "/rename "@[1] && low[2] == "/rename "@[2] && low[3] == "/rename "@[3]);
        assert(text::trim_end(low)[1] == low[1] && text::trim_end(low)[2] == low[2]);
        assert(text::trim_end(low)[3] == low[3]);
    }
    if text::starts_with(low, "/model "@) {
        lemma_bare(low, "/model "@, 3);
        assert(low[1] == "/model "@[1] && low[2] == "/model "@[2] && low[3] == "/model "@[3]);
        assert(text::trim_end(low)[1] == low[1] && text::trim_end(low)[2] == low[2]);
        assert(text::trim_end(low)[3] == low[3]);
    }
    if text::starts_with(low, "/pipeline "@) {
        lemma_bare(low, "/pipeline "@, 3);
        assert(low[1] == "/pipeline "@[1] && low[2] == "/pipeline "@[2] && low[3] == "/pipeline "@[3]);
        assert(text::trim_end(low)[1] == low[1] && text::trim_end(low)[2] == low[2]);
        assert(text::trim_end(low)[3] == low[3]);
    }
    if text::starts_with(low, "/subagents "@) {
        lemma_bare(low, "/subagents "@, 3);
        assert(low[1] == "/subagents "@[1] && low[2] == "/subagents "@[2] && low[3] == "/subagents "@[3]);
        assert(text::trim_end(low)[1] == low[1] && text::trim_end(low)[2] == low[2]);
        assert(text::trim_end(low)[3] == low[3]);
    }
    if text::starts_with(low, "/cd "@) {
        lemma_bare(low, "/cd "@, 2);
        assert(low[1] == "/cd "@[1] && low[2] == "/cd "@[2] && low[3] == "/cd "@[3]);
        assert(text::trim_end(low)[1] == low[1] && text::trim_end(low)[2] == low[2]);
    }
}

/// The team that is picked is the name behind the word, as it was typed and without the
/// white space around it; the words for none pick none, in capitals or not.
pub proof fn law_picked_team(cmd: Seq<char>)
    requires
        text::starts_with(text::trim(cmd), "/pipeline "@),
    ensures
        ({
            let name = text::trim(text::trim(cmd).skip(10));
            let none = text::ascii_lowercase(name) == "none"@ || text::ascii_lowercase(name)
                == "off"@;
            &&& none ==> picked(cmd) is None
            &&& !none ==> picked(cmd) == Some(name)
        }),
{
    reveal_strlit("/pipeline ");
}

/// The table has a line for each agent, in their order: the lines of a list are those of
/// its parts. Each gives the agent's name, its tokens in and out, its calls and its cost.
pub proof fn law_table_has_every_agent(a: Seq<Lane>, b: Seq<Lane>, l: Lane)
    ensures
        lane_rows(a + b) == lane_rows(a) + lane_rows(b),
        lane_rows(seq![l]) == "\n| "@ + l.name@ + " | "@ + text::decimal(l.input_tokens as nat)
            + " | "@ + text::decimal(l.output_tokens as nat) + " | "@ + text::decimal(
            l.api_calls as nat,
        ) + " | $"@ + l.cost@ + " |"@,
    decreases b.len(),
{
    reveal_with_fuel(lane_rows, 2);
    assert(seq![l].drop_last() =~= Seq::<Lane>::empty());
    assert(lane_rows(seq![l]) =~= lane_row(l));
    if b.len() == 0 {
        assert(a + b =~= a);
    } else {
        assert((a + b).drop_last() =~= a + b.drop_last());
        law_table_has_every_agent(a, b.drop_last(), l);
        assert(lane_rows(a + b) =~= lane_rows(a) + lane_rows(b));
    }
}

/// The statistics name the model by its alias where it has one, and give every total
/// behind its label; the table comes exactly with the second agent.
pub proof fn law_statistics_tell_all(s: Stats)
    ensures
        ({
            let head = "## Session Statistics\n\n**Model:** "@ + (if s.model_alias@.len() > 0 {
                s.model_alias@
            } else {
                s.model@
            }) + "\n**API Calls:** "@ + text::decimal(s.total_api_calls as nat)
                + "\n**Total Cost:** $"@ + s.total_cost@ + "\n**Input Tokens (last request):** "@
                + text::decimal(s.total_input_tokens as nat)
                + "\n**Output Tokens (last request):** "@ + text::decimal(
                s.total_output_tokens as nat,
            ) + "\n**Cumulative Input Tokens:** "@ + text::decimal(s.cumulative_input_tokens as nat);
            &&& s.lanes@.len() <= 1 ==> stats_text(s) == head
            &&& s.lanes@.len() > 1 ==> stats_text(s) == head
                + "\n\n### By lane (cumulative)\n\n| Lane | In | Out | Calls | Cost |\n|---|---|---|---|---|"@
                + lane_rows(s.lanes@)
        }),
{
}

/// How full the context is, is told by its messages, its tokens of how many, the share of
/// it, whether compaction is on and at which share; and by a mark exactly where that is
/// reached.
pub proof fn law_context_usage_tells_all(c: ContextUsage)
    ensures
        context_text(c) == "## Context Usage\n\n**Messages:** "@ + text::decimal(c.messages as nat)
            + "\n**Context Tokens:** "@ + text::decimal(c.current_usage as nat) + " / "@
            + text::decimal(c.window_size as nat) + " ("@ + c.usage_percent@
            + "%)\n**Compaction:** "@ + (if c.compaction_enabled {
            "enabled"@
        } else {
            "disabled"@
        }) + "\n**Threshold:** "@ + c.threshold_percent@ + "%"@ + (if c.needs_compaction {
            " — ⚠️ threshold reached"@
        } else {
            Seq::<char>::empty()
        }),
{
    reveal_strlit("");
    assert(""@ =~= Seq::<char>::empty());
}

/// The help has a line for each command, in their order, with its name and its
/// description; a command that takes arguments shows that.
pub proof fn law_help_has_every_command(s: Seq<CommandHelp>, i: int) -> (after: Seq<char>)
    requires
        0 <= i < s.len(),
    ensures
        help_rows(s) == help_rows(s.take(i)) + ("  /"@ + s[i].name@ + (if s[i].takes_args {
            " <args>"@
        } else {
            ""@
        }) + " — "@ + s[i].description@ + "\n"@) + after,
        i + 1 == s.len() ==> after.len() == 0,
        help_rows(Seq::<CommandHelp>::empty()) == "Available commands:\n"@,
    decreases s.len(),
{
    let d = s.drop_last();
    let last = help_row(s.last());
    if i == s.len() - 1 {
        assert(s.take(i) =~= d);
        assert(help_rows(s) =~= help_rows(d) + last + Seq::<char>::empty());
        Seq::empty()
    } else {
        let rest = law_help_has_every_command(d, i);
        assert(d.take(i) =~= s.take(i));
        assert(help_rows(s) =~= help_rows(s.take(i)) + help_row(s[i]) + (rest + last));
        rest + last
    }
}

/// The list of models has a line for each alias, in their order, with the provider and the
/// name of the model that the alias leads to. The arrow stands at the active one alone,
/// and with it the team that fixes it.
pub proof fn law_model_list_has_every_model(
    registry: ModelRegistry,
    aliases: Seq<Seq<char>>,
    current: Seq<char>,
    locked_by: Option<Seq<char>>,
    i: int,
    k: int,
) -> (after: Seq<char>)
    requires
        0 <= i < aliases.len(),
        0 <= k < registry.models@.len(),
        registry.models@[k].alias@ == aliases[i],
        forall|j: int| 0 <= j < k ==> (#[trigger] registry.models@[j]).alias@ != aliases[i],
    ensures
        model_rows(registry, aliases, current, locked_by) == model_rows(
            registry,
            aliases.take(i),
            current,
            locked_by,
        ) + ((if current == aliases[i] {
            "→ "@
        } else {
            "  "@
        }) + aliases[i] + "  ("@ + registry.models@[k].provider_name@ + " · "@
            + registry.models@[k].model_name@ + ")"@ + (if locked_by is Some && current
            == aliases[i] {
            "  [fixed by pipeline '"@ + locked_by->0 + "']"@
        } else {
            ""@
        }) + "\n"@) + after,
        i + 1 == aliases.len() ==> after.len() == 0,
        model_rows(registry, Seq::<Seq<char>>::empty(), current, locked_by)
            == "Available models:\n"@,
    decreases aliases.len(),
{
    let d = aliases.drop_last();
    models::law_alias_leads_to_the_first(registry.models@, aliases[i], k);
    let row = model_row(registry, aliases[i], current, locked_by);
    if i == aliases.len() - 1 {
        assert(aliases.take(i) =~= d);
        assert(model_rows(registry, aliases, current, locked_by) =~= model_rows(
            registry,
            d,
            current,
            locked_by,
        ) + row + Seq::<char>::empty());
        Seq::empty()
    } else {
        let rest = law_model_list_has_every_model(registry, d, current, locked_by, i, k);
        let last = model_row(registry, aliases.last(), current, locked_by);
        assert(d.take(i) =~= aliases.take(i));
        assert(model_rows(registry, aliases, current, locked_by) =~= model_rows(
            registry,
            aliases.take(i),
            current,
            locked_by,
        ) + row + (rest + last));
        rest + last
    }
}

/// The list of models is that of all aliases in alphabetical order, and ends with how to
/// switch, or with the team that stops it.
pub proof fn law_model_list_is_sorted(
    registry: ModelRegistry,
    current: Seq<char>,
    locked_by: Option<Seq<char>>,
) -> (aliases: Seq<Seq<char>>)
    requires
        registry.models@.len() > 0,
    ensures
        models_text(registry, current, locked_by) == model_rows(
            registry,
            aliases,
            current,
            locked_by,
        ) + (if locked_by is Some {
            "\nthe orchestrator's model is fixed by pipeline '"@ + locked_by->0
                + "'. Switch teams with /pipeline <name>, or /pipeline none to unlock /model."@
        } else {
            "\nUse /model <alias> to switch (starts a new conversation)."@
        }),
        aliases.len() == registry.models@.len(),
        forall|i: int|
            0 <= i < registry.models@.len() ==> aliases.contains(
                (#[trigger] registry.models@[i]).alias@,
            ),
        forall|i: int, j: int|
            0 <= i < j < aliases.len() ==> order::text_le(#[trigger] aliases[i], #[trigger] aliases[j]),
{
    let all = models::aliases(registry.models@);
    let aliases = order::sorted_texts(all);
    let o = order::law_sorted_texts(all);
    assert forall|i: int| 0 <= i < registry.models@.len() implies aliases.contains(
        (#[trigger] registry.models@[i]).alias@,
    ) by {
        assert(all[i] == registry.models@[i].alias@);
        assert(all.contains(all[i]));
    }
    assert forall|i: int, j: int| 0 <= i < j < aliases.len() implies order::text_le(
        #[trigger] aliases[i],
        #[trigger] aliases[j],
    ) by {
        assert(aliases[i] == all[o[i]]);
        assert(aliases[j] == all[o[j]]);
    }
    if let Some(team) = locked_by {
        reveal_strlit("\n");
        reveal_strlit("the orchestrator's model is fixed by pipeline '");
        reveal_strlit("\nthe orchestrator's model is fixed by pipeline '");
        assert("\nthe orchestrator's model is fixed by pipeline '"@ =~= "\n"@
            + "the orchestrator's model is fixed by pipeline '"@);
        assert("\n"@ + selection::locked_text(team)
            =~= "\nthe orchestrator's model is fixed by pipeline '"@ + team
            + "'. Switch teams with /pipeline <name>, or /pipeline none to unlock /model."@);
    }
    aliases
}

/// A command that refers to a saved conversation does its one thing to exactly the
/// conversation that is referred to; a bad reference is told and nothing done.
pub proof fn law_storage_commands_act_on_the_reference(
    c: Command<Seq<char>>,
    uuid: Option<u128>,
    format: Seq<char>,
    ctx: CommandContext,
    out: Seq<EffectView>,
)
    requires
        answered(c, uuid, format, ctx, out),
    ensures
        c matches Command::Load(arg) ==> out.len() == 1 && match conversation::referenced(
            arg,
            uuid,
            stored(ctx),
        ) {
            Ok(id) => out[0] == (Effect::<Seq<char>, Seq<crate::message::Media>>::PeekConversation(id)),
            Err(m) => out[0] == (Effect::<Seq<char>, Seq<crate::message::Media>>::SystemMessage("❌ "@ + m)),
        },
        c matches Command::Delete(arg) ==> out.len() == 1 && match conversation::referenced(
            arg,
            uuid,
            stored(ctx),
        ) {
            Ok(id) => out[0] == (Effect::<Seq<char>, Seq<crate::message::Media>>::DeleteConversation(id)),
            Err(m) => out[0] == (Effect::<Seq<char>, Seq<crate::message::Media>>::SystemMessage("❌ "@ + m)),
        },
        c matches Command::Export(arg, given) ==> out.len() == 1 && (if given is None {
            out[0] == (Effect::<Seq<char>, Seq<crate::message::Media>>::SystemMessage("Usage: /export <n|uuid> <json|markdown>"@))
        } else {
            match conversation::referenced(arg, uuid, stored(ctx)) {
                Ok(id) => out[0] == (Effect::<Seq<char>, Seq<crate::message::Media>>::ExportConversation { id, format }),
                Err(m) => out[0] == (Effect::<Seq<char>, Seq<crate::message::Media>>::SystemMessage("❌ "@ + m)),
            }
        }),
        c matches Command::Rename(name) ==> out.len() == 1 && out[0] == (Effect::<Seq<char>, Seq<crate::message::Media>>::RenameConversation(
            name,
        )),
        c is Save ==> out.len() == 1 && out[0] == (Effect::<Seq<char>, Seq<crate::message::Media>>::SaveConversation),
        ctx.conversations is None ==> stored(ctx) is None,
        ctx.conversations matches Some(l) ==> stored(ctx) == Some(l@),
{
}

/// What a command that only asks is answered: one message with what it asks for. Nothing
/// else happens.
pub proof fn law_questions_are_answered(
    c: Command<Seq<char>>,
    uuid: Option<u128>,
    format: Seq<char>,
    ctx: CommandContext,
    out: Seq<EffectView>,
)
    requires
        answered(c, uuid, format, ctx, out),
    ensures
        c is Stats ==> out == seq![Effect::<Seq<char>, Seq<crate::message::Media>>::SystemMessage(stats_text(ctx.stats))],
        c is Context ==> out == seq![Effect::<Seq<char>, Seq<crate::message::Media>>::SystemMessage(context_text(ctx.context))],
        c is Conversations ==> out == seq![
            Effect::<Seq<char>, Seq<crate::message::Media>>::SystemMessage(
                conversation::listing_text(
                    match ctx.conversations {
                        Some(l) => Some(l@),
                        None => None,
                    },
                    ctx.current,
                    match ctx.registry {
                        Ok(r) => Some(r),
                        Err(_) => None,
                    },
                ),
            ),
        ],
        c is Bg ==> out == seq![Effect::<Seq<char>, Seq<crate::message::Media>>::SystemMessage(bg::listing_text(ctx.background@))],
        c is Help ==> out == seq![Effect::<Seq<char>, Seq<crate::message::Media>>::SystemMessage(help_rows(ctx.commands@))],
        c is ShowCwd ==> out == seq![Effect::<Seq<char>, Seq<crate::message::Media>>::SystemMessage(ctx.session.cwd@)],
        c is ListModels ==> out.len() == 1 && match ctx.registry {
            Ok(r) => out[0] == (Effect::<Seq<char>, Seq<crate::message::Media>>::SystemMessage(
                models_text(r, ctx.session.alias@, text::opt(ctx.session.selected)),
            )),
            Err(e) => out[0] == (Effect::<Seq<char>, Seq<crate::message::Media>>::SystemMessage(
                "❌ /model: model registry not configured: "@ + e@,
            )),
        },
        c is ListPipelines ==> out == seq![
            Effect::<Seq<char>, Seq<crate::message::Media>>::SystemMessage(
                selection::list_text(ctx.pipelines@, text::opt(ctx.session.selected)),
            ),
        ],
        c is SwitchModel && ctx.session.selected is Some ==> out == seq![
            Effect::<Seq<char>, Seq<crate::message::Media>>::SystemMessage(
                "❌ /model: "@ + selection::locked_text(ctx.session.selected->0@),
            ),
        ],
        c is Subagents || c is ChangeCwd || c is SwitchModel ==> out.len() == 1
            && out[0] is SystemMessage,
        c is Unknown ==> out.len() == 0,
{
}

/// What a command that acts does: a reset clears the statistics, a compaction is forced, an
/// exit is asked for, and a new conversation begins where the session is, on the active
/// model or, without one, on the configured one.
pub proof fn law_actions_are_taken(
    c: Command<Seq<char>>,
    uuid: Option<u128>,
    format: Seq<char>,
    ctx: CommandContext,
    out: Seq<EffectView>,
)
    requires
        answered(c, uuid, format, ctx, out),
    ensures
        c is Reset ==> out.len() == 2 && out[0] == (Effect::<Seq<char>, Seq<crate::message::Media>>::ResetStats) && out[1] is SystemMessage,
        c is Compact ==> out.len() == 2 && out[0] == (Effect::<Seq<char>, Seq<crate::message::Media>>::SetStatus(
            Some("Compacting context..."@),
        )) && out[1] == (Effect::<Seq<char>, Seq<crate::message::Media>>::ForceCompact),
        c is Exit ==> out.len() == 1 && out[0] == (Effect::<Seq<char>, Seq<crate::message::Media>>::RequestExit),
        c is New ==> out.len() == 3 && out[0] == (Effect::<Seq<char>, Seq<crate::message::Media>>::ResetConversation) && out[1] == (
        Effect::<Seq<char>, Seq<crate::message::Media>>::CreateConversation {
            provider_name: ctx.session.provider_name@,
            model: if ctx.session.model@.len() > 0 {
                ctx.session.model@
            } else {
                ctx.config_model@
            },
            cwd: ctx.session.cwd@,
        }) && out[2] is SystemMessage,
{
}

/// Picking a team where no agent can be rebuilt never binds it: nothing is said where it is
/// bound already, else it is refused, for the reason that there is.
pub proof fn law_pick_without_an_agent_is_refused(
    target: Option<Seq<char>>,
    uuid: Option<u128>,
    format: Seq<char>,
    ctx: CommandContext,
    out: Seq<EffectView>,
)
    requires
        answered(Command::PickPipeline(target), uuid, format, ctx, out),
    ensures
        out.len() == 0 <==> text::opt(ctx.session.selected) == target,
        out.len() <= 1,
        out.len() == 1 ==> out[0] is SystemMessage,
        text::opt(ctx.session.selected) != target && ctx.session.has_turns ==> out[0] == (
        Effect::<Seq<char>, Seq<crate::message::Media>>::SystemMessage("❌ /pipeline: "@ + selection::turns_refusal())),
{
    let choice = choose|choice: PipelineChoice| #[trigger]
        selection::chosen(
            text::opt(ctx.session.selected),
            ctx.session.has_turns,
            target,
            shown_names(ctx.pipelines@),
            choice,
        ) && out == pick_effects(choice);
    assert(out == pick_effects(choice));
}

/// A saved conversation is loaded exactly where it can be read and a declared model has its
/// provider and its name; else one message says why not.
pub proof fn law_load_goes_on_iff_the_model_is_there(
    id: u128,
    wire: Result<WireId, String>,
    registry: Option<ModelRegistry>,
)
    ensures
        ({
            let out = peeked_effects(id, wire, registry);
            let there = wire is Ok && registry is Some && exists|i: int|
                0 <= i < registry->0.models@.len() && (
                #[trigger] registry->0.models@[i]).provider_name@ == wire->Ok_0.provider_name@
                    && registry->0.models@[i].model_name@ == wire->Ok_0.model@;
            &&& out.len() == 1
            &&& there ==> out[0] == (Effect::<Seq<char>, Seq<crate::message::Media>>::LoadConversation(id))
            &&& !there && wire is Err ==> out[0] == (Effect::<Seq<char>, Seq<crate::message::Media>>::SystemMessage(
                "❌ Failed to read conversation: "@ + wire->Err_0@,
            ))
            &&& !there && wire is Ok ==> out[0] == (Effect::<Seq<char>, Seq<crate::message::Media>>::SystemMessage(
                "❌ Model '"@ + (if wire->Ok_0.provider_name@.len() == 0 {
                    wire->Ok_0.model@
                } else {
                    wire->Ok_0.provider_name@ + "/"@ + wire->Ok_0.model@
                }) + "' not available."@,
            ))
        }),
{
    if wire is Ok && registry is Some {
        models::law_wire_is_known_iff_declared(
            registry->0.models@,
            wire->Ok_0.provider_name@,
            wire->Ok_0.model@,
        );
    }
}

/// What a command came to is told once it is done: the name of what was loaded or saved,
/// the counts of a compaction, or the error.
pub proof fn law_outcomes_are_told(
    outcome: Result<Option<Seq<char>>, Seq<char>>,
    counts: Option<CompactionCounts>,
    name: Option<Seq<char>>,
)
    ensures
        match outcome {
            Ok(Some(n)) => loaded_effects(outcome) == seq![
                Effect::<Seq<char>, Seq<crate::message::Media>>::SystemMessage("Loaded conversation: '"@ + n + "'"@),
            ],
            Ok(None) => loaded_effects(outcome).len() == 0,
            Err(e) => loaded_effects(outcome) == seq![
                Effect::<Seq<char>, Seq<crate::message::Media>>::SystemMessage("❌ Failed to load conversation: "@ + e),
            ],
        },
        name matches Some(n) ==> saved_effects(name) == seq![
            Effect::<Seq<char>, Seq<crate::message::Media>>::SystemMessage("Conversation saved: "@ + n),
        ],
        name is None ==> saved_effects(name).len() == 0,
        compact_done_effects(counts).len() == 2,
        compact_done_effects(counts)[0] == (Effect::<Seq<char>, Seq<crate::message::Media>>::SetStatus(None)),
        compact_done_effects(counts)[1] == (Effect::<Seq<char>, Seq<crate::message::Media>>::SystemMessage(
            match counts {
                Some(c) => "Context compacted: "@ + text::decimal(c.original_count as nat)
                    + " → "@ + text::decimal(c.compacted_count as nat) + " messages, "@
                    + text::decimal(c.num_discarded as nat) + " "@ + "discarded"@,
                None => "Nothing to compact."@,
            },
        )),
{
}

/// A command is shown with its arguments, as they were read.
pub proof fn law_commands_are_shown_whole(c: Command<String>)
    ensures
        c matches Command::Load(a) ==> c@ == Command::<Seq<char>>::Load(a@),
        c matches Command::Delete(a) ==> c@ == Command::<Seq<char>>::Delete(a@),
        c matches Command::Export(a, Some(f)) ==> c@ == Command::<Seq<char>>::Export(a@, Some(f@)),
        c matches Command::Export(a, None) ==> c@ == Command::<Seq<char>>::Export(a@, None),
        c matches Command::Rename(n) ==> c@ == Command::<Seq<char>>::Rename(n@),
        c matches Command::PickPipeline(Some(n)) ==> c@ == Command::<Seq<char>>::PickPipeline(
            Some(n@),
        ),
        c matches Command::PickPipeline(None) ==> c@ == Command::<Seq<char>>::PickPipeline(None),
{
}

/// What a command refers to and which format it wants are read from it as they stand.
pub proof fn law_reference_and_format(c: Command<Seq<char>>)
    ensures
        c matches Command::Load(a) ==> reference_of(c) == a,
        c matches Command::Delete(a) ==> reference_of(c) == a,
        c matches Command::Export(a, f) ==> reference_of(c) == a && (f is Some ==> format_of(c)
            == f->0),
{
}

/// The names that a team is picked from are those of all the teams that are shown.
pub proof fn law_shown_names(s: Seq<PipelineInfo>)
    ensures
        shown_names(s).len() == s.len(),
        forall|i: int| 0 <= i < s.len() ==> #[trigger] shown_names(s)[i] == s[i].name@,
{
}

/// A load's outcome is shown with its texts.
pub proof fn law_load_outcome_is_shown(name: String)
    ensures
        load_view(Ok(Some(name))) == Ok::<Option<Seq<char>>, Seq<char>>(Some(name@)),
        load_view(Ok(None)) == Ok::<Option<Seq<char>>, Seq<char>>(None),
        load_view(Err(name)) == Err::<Option<Seq<char>>, Seq<char>>(name@),
{
}

} // verus!
