//! Decisions at start, and what the commands for installing print.

use vstd::prelude::*;
use crate::text;

verus! {

/// How the program is used.
#[derive(Debug, PartialEq, Eq, Structural, Copy, Clone)]
pub enum Mode {
    Web,
    Tui,
    Stdio,
}

/// The mode that the flags select; the web interface without any.
pub fn mode(tui: bool, stdio: bool) -> (m: Mode)
    ensures
        m == (if tui {
            Mode::Tui
        } else if stdio {
            Mode::Stdio
        } else {
            Mode::Web
        }),
{
    if tui {
        Mode::Tui
    } else if stdio {
        Mode::Stdio
    } else {
        Mode::Web
    }
}

/// What a first start comes to.
#[derive(Debug, PartialEq, Eq, Structural, Copy, Clone)]
pub enum FirstRun {
    Proceed,
    SetupWizard,
    Refuse,
}

/// Decides a start. With a configuration or a key it goes on; without either the
/// setup wizard opens, where there is a browser to open it in.
pub fn first_run_action(config_found: bool, has_key: bool, mode: Mode, windowed: bool) -> (r:
    FirstRun)
    ensures
        r == FirstRun::Proceed <==> config_found || has_key,
        r == FirstRun::SetupWizard <==> !config_found && !has_key && mode == Mode::Web && windowed,
        r == FirstRun::Refuse <==> !config_found && !has_key && !(mode == Mode::Web && windowed),
{
    if config_found || has_key {
        FirstRun::Proceed
    } else if mode == Mode::Web && windowed {
        FirstRun::SetupWizard
    } else {
        FirstRun::Refuse
    }
}

/// A provider, with whether it has a key.
#[derive(Debug, PartialEq, Eq, Structural, Copy, Clone)]
pub enum ProviderKey {
    OpenRouter { has_key: bool },
    OpenAI { has_key: bool },
    Anthropic,
    LlamaCpp { has_key: bool },
    Ollama,
}

/// Whether a provider has the key that it needs. Some need none.
pub fn has_api_key(provider: ProviderKey) -> (r: bool)
    ensures
        r == (match provider {
            ProviderKey::OpenRouter { has_key } => has_key,
            ProviderKey::OpenAI { has_key } => has_key,
            ProviderKey::LlamaCpp { has_key } => has_key,
            ProviderKey::Anthropic | ProviderKey::Ollama => true,
        }),
{
    match provider {
        ProviderKey::OpenRouter { has_key } => has_key,
        ProviderKey::OpenAI { has_key } => has_key,
        ProviderKey::Anthropic => true,
        ProviderKey::LlamaCpp { has_key } => has_key,
        ProviderKey::Ollama => true,
    }
}

/// What is printed when there is no configuration. `model` and `alias` fill in the
/// example.
pub open spec fn config_not_found_text(
    path: Seq<char>,
    model: Seq<char>,
    alias: Seq<char>,
) -> Seq<char> {
    "\n╔══════════════════════════════════════════════════════════════╗\n║                    ⚠️  Config not found!                        ║\n╚══════════════════════════════════════════════════════════════╝\n\nI couldn't find my config file at:\n\n  "@
        + path
        + "\n\nCreate this file with content like:\n\n  providers:\n    - name: openrouter\n      type: openrouter\n      api_key: sk-or-v1-your-key-here\n      models:\n        - name: "@ + model + "\n          alias: "@ + alias + "\n\n  default_model: "@ + alias
        + "\n\nFind models at: https://openrouter.ai/models\n\nFor local models, use Ollama:\n\n  providers:\n    - name: ollama\n      type: ollama\n      base_url: http://localhost:11434\n      models:\n        - name: llama3\n          alias: local\n\n  default_model: local\n\nNo graphical session detected (no DISPLAY/WAYLAND_DISPLAY, or you are over SSH),\nso the setup wizard cannot open a browser here.\nWrite the file above by hand, then run `peakbot` again.\nOn a desktop, bare `peakbot` opens the setup wizard; a TUI configurator is future work.\n\n"@
}

/// Renders what is printed when there is no configuration.
pub fn config_not_found_message(path: &str, model: &str, alias: &str) -> (r: String)
    ensures
        r@ == config_not_found_text(path@, model@, alias@),
{
    let mut m =
        "\n╔══════════════════════════════════════════════════════════════╗\n║                    ⚠️  Config not found!                        ║\n╚══════════════════════════════════════════════════════════════╝\n\nI couldn't find my config file at:\n\n  ".to_owned();
    m.append(path);
    m.append(
        "\n\nCreate this file with content like:\n\n  providers:\n    - name: openrouter\n      type: openrouter\n      api_key: sk-or-v1-your-key-here\n      models:\n        - name: ",
    );
    m.append(model);
    m.append("\n          alias: ");
    m.append(alias);
    m.append("\n\n  default_model: ");
    m.append(alias);
    m.append(
        "\n\nFind models at: https://openrouter.ai/models\n\nFor local models, use Ollama:\n\n  providers:\n    - name: ollama\n      type: ollama\n      base_url: http://localhost:11434\n      models:\n        - name: llama3\n          alias: local\n\n  default_model: local\n\nNo graphical session detected (no DISPLAY/WAYLAND_DISPLAY, or you are over SSH),\nso the setup wizard cannot open a browser here.\nWrite the file above by hand, then run `peakbot` again.\nOn a desktop, bare `peakbot` opens the setup wizard; a TUI configurator is future work.\n\n",
    );
    m
}

// ---------------------------------------------------------------------------
// Tokens and addresses
// ---------------------------------------------------------------------------

/// A token as it was given; a blank one counts as none.
pub open spec fn given(token: Option<Seq<char>>) -> Option<Seq<char>> {
    match token {
        Some(t) if !text::is_blank(t) => Some(text::trim(t)),
        _ => None,
    }
}

/// Reads a token; a blank one counts as none.
pub fn explicit_token(token: Option<&str>) -> (r: Option<String>)
    ensures
        text::opt(r) == given(text::opt_str(token)),
{
    match token {
        Some(t) => if text::text_is_blank(t) {
            None
        } else {
            Some(text::trim_text(t))
        },
        None => None,
    }
}

/// The token to use: the flag's, else the environment's, else the file's.
pub open spec fn token_chain(
    flag: Option<Seq<char>>,
    env: Option<Seq<char>>,
    file: Option<Seq<char>>,
) -> Option<Seq<char>> {
    match given(flag) {
        Some(t) => Some(t),
        None => match given(env) {
            Some(t) => Some(t),
            None => given(file),
        },
    }
}

/// Finds the token to use: the flag's, else the environment's, else the file's.
pub fn resolve_token(flag: Option<&str>, env: Option<&str>, file: Option<&str>) -> (r: Option<
    String,
>)
    ensures
        text::opt(r) == token_chain(text::opt_str(flag), text::opt_str(env), text::opt_str(file)),
{
    match explicit_token(flag) {
        Some(t) => Some(t),
        None => match explicit_token(env) {
            Some(t) => Some(t),
            None => explicit_token(file),
        },
    }
}

/// Refuses to listen beyond this machine without a token.
pub fn check_bind(addr: &str, is_loopback: bool, has_token: bool) -> (r: Result<(), String>)
    ensures
        match r {
            Ok(_) => is_loopback || has_token,
            Err(m) => !is_loopback && !has_token && m@
                == "refusing to bind the web UI to non-loopback "@ + addr@
                + " without a token — set --token, PEAKBOT_WEB_TOKEN, or write <config_dir>/web-token"@,
        },
{
    if is_loopback || has_token {
        return Ok(());
    }
    let mut m = "refusing to bind the web UI to non-loopback ".to_owned();
    m.append(addr);
    m.append(
        " without a token — set --token, PEAKBOT_WEB_TOKEN, or write <config_dir>/web-token",
    );
    Err(m)
}

/// A blank token counts as none, wherever it comes from: there is a token where one
/// of the three is not blank, and it is not empty.
pub proof fn law_blank_tokens_count_as_none(
    flag: Option<Seq<char>>,
    env: Option<Seq<char>>,
    file: Option<Seq<char>>,
)
    ensures
        token_chain(flag, env, file) is None <==> given(flag) is None && given(env) is None
            && given(file) is None,
        token_chain(flag, env, file) matches Some(t) ==> t.len() > 0,
{
}

// ---------------------------------------------------------------------------
// The service
// ---------------------------------------------------------------------------

/// The note that a service runs the program from where it was started.
pub open spec fn fallback_note(here: Seq<char>, has_target: bool) -> Seq<char> {
    "the service points at "@ + here
        + ", which is where you ran PeakBot from — run `peakbot install` so it survives a move"@ + (
    if has_target {
        ""@
    } else {
        " (no install target could be resolved on this machine)"@
    })
}

/// The program that a service runs.
pub open spec fn service_exe(
    target: Option<Seq<char>>,
    target_exists: bool,
    current_exe: Option<Seq<char>>,
) -> (Seq<char>, Option<Seq<char>>) {
    match target {
        Some(t) => if target_exists {
            (t, None)
        } else {
            let here = match current_exe {
                Some(e) => e,
                None => t,
            };
            (here, Some(fallback_note(here, true)))
        },
        None => {
            let here = match current_exe {
                Some(e) => e,
                None => "peakbot"@,
            };
            (here, Some(fallback_note(here, false)))
        },
    }
}

fn note_fallback(here: &str, has_target: bool) -> (r: String)
    ensures
        r@ == fallback_note(here@, has_target),
{
    let mut m = "the service points at ".to_owned();
    m.append(here);
    m.append(
        ", which is where you ran PeakBot from — run `peakbot install` so it survives a move",
    );
    m.append(
        if has_target {
            ""
        } else {
            " (no install target could be resolved on this machine)"
        },
    );
    m
}

/// Chooses the program that a service runs: the installed one where it is there,
/// else the running one, with a note.
pub fn resolve_service_exe(
    target: Option<&str>,
    target_exists: bool,
    current_exe: Option<&str>,
) -> (r: (String, Option<String>))
    ensures
        (r.0@, text::opt(r.1)) == service_exe(
            text::opt_str(target),
            target_exists,
            text::opt_str(current_exe),
        ),
{
    match target {
        Some(t) => {
            if target_exists {
                return (t.to_owned(), None);
            }
            let here: &str = match current_exe {
                Some(e) => e,
                None => t,
            };
            (here.to_owned(), Some(note_fallback(here, true)))
        },
        None => {
            let here: &str = match current_exe {
                Some(e) => e,
                None => "peakbot",
            };
            (here.to_owned(), Some(note_fallback(here, false)))
        },
    }
}

/// A service that runs the installed program says nothing; any other does.
pub proof fn law_note_iff_not_installed(
    target: Option<Seq<char>>,
    target_exists: bool,
    current_exe: Option<Seq<char>>,
)
    ensures
        service_exe(target, target_exists, current_exe).1 is None <==> target is Some
            && target_exists,
        target is Some && target_exists ==> service_exe(target, target_exists, current_exe).0
            == target->0,
{
}

/// The note that removing the service leaves the token file.
pub fn uninstall_note(token_path: &str) -> (r: String)
    ensures
        r@ == "the web-token file at "@ + token_path@
            + " was NOT deleted; remove it by hand if you want to drop the secret."@,
{
    let mut m = "the web-token file at ".to_owned();
    m.append(token_path);
    m.append(" was NOT deleted; remove it by hand if you want to drop the secret.");
    m
}

/// The notes of a report, or nothing.
pub open spec fn list_lines(title: Seq<char>, mark: Seq<char>, items: Seq<Seq<char>>) -> Seq<char>
    decreases items.len(),
{
    if items.len() == 0 {
        Seq::empty()
    } else if items.len() == 1 {
        title + mark + items[0] + "\n"@
    } else {
        list_lines(title, mark, items.drop_last()) + mark + items.last() + "\n"@
    }
}

fn add_list(out: &mut String, title: &str, mark: &str, items: &Vec<String>)
    ensures
        final(out)@ == old(out)@ + list_lines(title@, mark@, text::strs(items@)),
{
    let ghost before = out@;
    let ghost all = text::strs(items@);
    if items.len() == 0 {
        assert(out@ =~= before + list_lines(title@, mark@, all));
        return;
    }
    let mut list = title.to_owned();
    list.append(mark);
    list.append(items[0].as_str());
    list.append("\n");
    let mut i: usize = 1;
    assert(all.take(1)[0] == all[0]);
    while i < items.len()
        invariant
            1 <= i <= items@.len(),
            all == text::strs(items@),
            list@ == list_lines(title@, mark@, all.take(i as int)),
        decreases items@.len() - i,
    {
        assert(all.take(i + 1).drop_last() =~= all.take(i as int));
        list.append(mark);
        list.append(items[i].as_str());
        list.append("\n");
        i += 1;
    }
    assert(all.take(all.len() as int) =~= all);
    out.append(list.as_str());
}

/// How an installation went.
#[derive(Debug, PartialEq, Eq, Structural, Copy, Clone)]
pub enum InstallAction {
    AlreadyCurrent,
    Installed,
    Replaced,
}

/// Whether the installed program is found by its name.
#[derive(Debug, PartialEq)]
pub enum PathState {
    OnPath,
    Shadowed { by: String },
    NotOnPath { hint: String },
}

/// The outcome of an installation.
#[derive(Debug, PartialEq)]
pub struct InstallOutcome {
    pub target: String,
    pub source: String,
    pub action: InstallAction,
    pub notes: Vec<String>,
}

/// How a report names what was done.
pub open spec fn action_text(a: InstallAction) -> Seq<char> {
    match a {
        InstallAction::AlreadyCurrent => "already_current"@,
        InstallAction::Installed => "installed"@,
        InstallAction::Replaced => "replaced"@,
    }
}

/// How a report says where the program is found.
pub open spec fn path_text(p: PathState) -> Seq<char> {
    match p {
        PathState::OnPath => "on PATH"@,
        PathState::Shadowed { by } => "shadowed by "@ + by@,
        PathState::NotOnPath { hint } => "not on PATH — "@ + hint@,
    }
}

/// The report of an installation.
pub open spec fn install_text(o: InstallOutcome, p: PathState) -> Seq<char> {
    "Target: "@ + o.target@ + "\nSource: "@ + o.source@ + "\nAction: "@ + action_text(o.action)
        + "\nPATH: "@ + path_text(p) + "\n"@ + list_lines(
        "Notes:\n"@,
        "  - "@,
        text::strs(o.notes@),
    )
}

/// Renders the report of an installation.
pub fn render_install_result(o: &InstallOutcome, p: &PathState) -> (r: String)
    ensures
        r@ == install_text(*o, *p),
{
    let mut m = "Target: ".to_owned();
    m.append(o.target.as_str());
    m.append("\nSource: ");
    m.append(o.source.as_str());
    m.append("\nAction: ");
    m.append(
        match o.action {
            InstallAction::AlreadyCurrent => "already_current",
            InstallAction::Installed => "installed",
            InstallAction::Replaced => "replaced",
        },
    );
    m.append("\nPATH: ");
    let path: String = match p {
        PathState::OnPath => "on PATH".to_owned(),
        PathState::Shadowed { by } => {
            let mut s = "shadowed by ".to_owned();
            s.append(by.as_str());
            s
        },
        PathState::NotOnPath { hint } => {
            let mut s = "not on PATH — ".to_owned();
            s.append(hint.as_str());
            s
        },
    };
    m.append(path.as_str());
    m.append("\n");
    add_list(&mut m, "Notes:\n", "  - ", &o.notes);
    m
}

/// What is known of the service.
#[derive(Debug, PartialEq)]
pub struct ServiceReport {
    pub manager: String,
    pub name: String,
    pub artifact: Option<String>,
    pub installed: bool,
    pub exe: Option<String>,
    pub run_state: String,
    pub survives_logout: bool,
    pub commands: Vec<String>,
    pub notes: Vec<String>,
}

/// A line that is there only with a value.
pub open spec fn optional_line(label: Seq<char>, value: Option<Seq<char>>) -> Seq<char> {
    match value {
        Some(v) => label + v + "\n"@,
        None => Seq::empty(),
    }
}

/// A truth value as it is printed.
pub open spec fn bool_text(b: bool) -> Seq<char> {
    if b {
        "true"@
    } else {
        "false"@
    }
}

/// The report on the service.
pub open spec fn service_text(s: ServiceReport) -> Seq<char> {
    "Manager:   "@ + s.manager@ + "\nName:      "@ + s.name@ + "\n"@ + optional_line(
        "Artifact:  "@,
        text::opt(s.artifact),
    ) + "Installed: "@ + bool_text(s.installed) + "\n"@ + optional_line(
        "Exec:      "@,
        text::opt(s.exe),
    ) + "State:     "@ + s.run_state@ + "\nSurvives logout: "@ + bool_text(s.survives_logout)
        + "\n"@ + list_lines("Commands:\n"@, "  $ "@, text::strs(s.commands@)) + list_lines(
        "Notes:\n"@,
        "  - "@,
        text::strs(s.notes@),
    )
}

fn add_optional_line(out: &mut String, label: &str, value: &Option<String>)
    ensures
        final(out)@ == old(out)@ + optional_line(label@, text::opt(*value)),
{
    let ghost before = out@;
    match value {
        Some(v) => {
            let mut l = label.to_owned();
            l.append(v.as_str());
            l.append("\n");
            out.append(l.as_str());
        },
        None => {
            assert(out@ =~= before + optional_line(label@, None));
        },
    }
}

fn truth(b: bool) -> (r: &'static str)
    ensures
        r@ == bool_text(b),
{
    if b {
        "true"
    } else {
        "false"
    }
}

/// Renders the report on the service.
pub fn render_service_report(s: &ServiceReport) -> (r: String)
    ensures
        r@ == service_text(*s),
{
    let mut m = "Manager:   ".to_owned();
    m.append(s.manager.as_str());
    m.append("\nName:      ");
    m.append(s.name.as_str());
    m.append("\n");
    add_optional_line(&mut m, "Artifact:  ", &s.artifact);
    m.append("Installed: ");
    m.append(truth(s.installed));
    m.append("\n");
    add_optional_line(&mut m, "Exec:      ", &s.exe);
    m.append("State:     ");
    m.append(s.run_state.as_str());
    m.append("\nSurvives logout: ");
    m.append(truth(s.survives_logout));
    m.append("\n");
    add_list(&mut m, "Commands:\n", "  $ ", &s.commands);
    add_list(&mut m, "Notes:\n", "  - ", &s.notes);
    m
}

/// The token is the flag's where that is not blank, else the environment's, else the
/// file's, without the white space around it.
pub proof fn law_first_token_counts(
    flag: Option<Seq<char>>,
    env: Option<Seq<char>>,
    file: Option<Seq<char>>,
)
    ensures
        flag is Some && text::trim(flag->0).len() > 0 ==> token_chain(flag, env, file) == Some(
            text::trim(flag->0),
        ),
        (flag is None || text::trim(flag->0).len() == 0) && env is Some && text::trim(env->0).len()
            > 0 ==> token_chain(flag, env, file) == Some(text::trim(env->0)),
        (flag is None || text::trim(flag->0).len() == 0) && (env is None || text::trim(env->0).len()
            == 0) && file is Some && text::trim(file->0).len() > 0 ==> token_chain(flag, env, file)
            == Some(text::trim(file->0)),
        (flag is None || text::trim(flag->0).len() == 0) && (env is None || text::trim(env->0).len()
            == 0) && (file is None || text::trim(file->0).len() == 0) ==> token_chain(
            flag,
            env,
            file,
        ) is None,
        given(flag) == token_chain(flag, None, None),
{
}

/// A service runs the installed program where that is there, else the running one, else
/// the place that the installation would use, else the program by its name; and the note
/// names what it runs.
pub proof fn law_service_runs_what_is_there(
    target: Option<Seq<char>>,
    target_exists: bool,
    current_exe: Option<Seq<char>>,
)
    ensures
        ({
            let (exe, note) = service_exe(target, target_exists, current_exe);
            let installed = target is Some && target_exists;
            &&& installed ==> exe == target->0 && note is None
            &&& !installed && current_exe is Some ==> exe == current_exe->0
            &&& !installed && current_exe is None && target is Some ==> exe == target->0
            &&& !installed && current_exe is None && target is None ==> exe == "peakbot"@
            &&& !installed ==> note is Some && text::starts_with(
                note->0,
                "the service points at "@ + exe + ","@,
            )
        }),
{
    let (exe, note) = service_exe(target, target_exists, current_exe);
    if note is Some {
        reveal_strlit(
            ", which is where you ran PeakBot from — run `peakbot install` so it survives a move",
        );
        reveal_strlit(",");
        let w = "the service points at "@ + exe + ","@;
        assert(note->0.take(w.len() as int) =~= w);
    }
}

/// A list of a report has a title and a line for each item, in their order; an empty one
/// has not even the title.
pub proof fn law_report_list(
    title: Seq<char>,
    mark: Seq<char>,
    items: Seq<Seq<char>>,
    item: Seq<char>,
)
    ensures
        list_lines(title, mark, Seq::<Seq<char>>::empty()).len() == 0,
        list_lines(title, mark, seq![item]) == title + mark + item + "\n"@,
        items.len() > 0 ==> list_lines(title, mark, items.push(item)) == list_lines(
            title,
            mark,
            items,
        ) + mark + item + "\n"@,
{
    assert(items.push(item).drop_last() =~= items);
}

/// A list of a report has every item whole.
pub proof fn law_report_list_is_complete(
    title: Seq<char>,
    mark: Seq<char>,
    items: Seq<Seq<char>>,
    i: int,
) -> (r: (Seq<char>, Seq<char>))
    requires
        0 <= i < items.len(),
    ensures
        list_lines(title, mark, items) == r.0 + mark + items[i] + "\n"@ + r.1,
        i == 0 ==> r.0 == title,
        i > 0 ==> r.0 == list_lines(title, mark, items.take(i)),
    decreases items.len(),
{
    let d = items.drop_last();
    if items.len() == 1 {
        assert(list_lines(title, mark, items) =~= title + mark + items[0] + "\n"@
            + Seq::<char>::empty());
        (title, Seq::empty())
    } else if i == items.len() - 1 {
        assert(items.take(i) =~= d);
        assert(list_lines(title, mark, items) =~= list_lines(title, mark, d) + mark + items[i]
            + "\n"@ + Seq::<char>::empty());
        (list_lines(title, mark, d), Seq::empty())
    } else {
        let (a, b) = law_report_list_is_complete(title, mark, d, i);
        assert(d.take(i) =~= items.take(i));
        let row = mark + items.last() + "\n"@;
        assert(list_lines(title, mark, items) =~= a + mark + items[i] + "\n"@ + (b + row));
        (a, b + row)
    }
}

/// The report of an installation gives the target, the source, what was done, where the
/// program is found, and every note, in this order.
pub proof fn law_install_report_tells_all(o: InstallOutcome, p: PathState)
    ensures
        install_text(o, p) == "Target: "@ + o.target@ + "\nSource: "@ + o.source@ + "\nAction: "@ + (
        match o.action {
            InstallAction::AlreadyCurrent => "already_current"@,
            InstallAction::Installed => "installed"@,
            InstallAction::Replaced => "replaced"@,
        }) + "\nPATH: "@ + (match p {
            PathState::OnPath => "on PATH"@,
            PathState::Shadowed { by } => "shadowed by "@ + by@,
            PathState::NotOnPath { hint } => "not on PATH — "@ + hint@,
        }) + "\n"@ + list_lines(
            "Notes:\n"@,
            "  - "@,
            Seq::new(o.notes@.len(), |i: int| o.notes@[i]@),
        ),
{
    assert(text::strs(o.notes@) =~= Seq::new(o.notes@.len(), |i: int| o.notes@[i]@));
}

/// The report on the service gives all that is known of it, in this order, and leaves out
/// the lines for what is not known.
pub proof fn law_service_report_tells_all(s: ServiceReport)
    ensures
        service_text(s) == "Manager:   "@ + s.manager@ + "\nName:      "@ + s.name@ + "\n"@ + (
        match s.artifact {
            Some(a) => "Artifact:  "@ + a@ + "\n"@,
            None => Seq::<char>::empty(),
        }) + "Installed: "@ + (if s.installed {
            "true"@
        } else {
            "false"@
        }) + "\n"@ + (match s.exe {
            Some(e) => "Exec:      "@ + e@ + "\n"@,
            None => Seq::<char>::empty(),
        }) + "State:     "@ + s.run_state@ + "\nSurvives logout: "@ + (if s.survives_logout {
            "true"@
        } else {
            "false"@
        }) + "\n"@ + list_lines(
            "Commands:\n"@,
            "  $ "@,
            Seq::new(s.commands@.len(), |i: int| s.commands@[i]@),
        ) + list_lines(
            "Notes:\n"@,
            "  - "@,
            Seq::new(s.notes@.len(), |i: int| s.notes@[i]@),
        ),
{
    assert(text::strs(s.commands@) =~= Seq::new(s.commands@.len(), |i: int| s.commands@[i]@));
    assert(text::strs(s.notes@) =~= Seq::new(s.notes@.len(), |i: int| s.notes@[i]@));
}

/// What is printed without a configuration names the place where it is looked for, and
/// its example uses the model and, twice, the alias.
pub proof fn law_missing_configuration_is_explained(
    path: Seq<char>,
    model: Seq<char>,
    alias: Seq<char>,
) -> (r: (Seq<char>, Seq<char>, Seq<char>))
    ensures
        config_not_found_text(path, model, alias) == r.0 + path + r.1 + model
            + "\n          alias: "@ + alias + "\n\n  default_model: "@ + alias + r.2,
        r.0.len() > 0,
        r.1.len() > 0,
        r.2.len() > 0,
{
    let a =
        "\n╔══════════════════════════════════════════════════════════════╗\n║                    ⚠️  Config not found!                        ║\n╚══════════════════════════════════════════════════════════════╝\n\nI couldn't find my config file at:\n\n  "@;
    let b =
        "\n\nCreate this file with content like:\n\n  providers:\n    - name: openrouter\n      type: openrouter\n      api_key: sk-or-v1-your-key-here\n      models:\n        - name: "@;
    let c =
        "\n\nFind models at: https://openrouter.ai/models\n\nFor local models, use Ollama:\n\n  providers:\n    - name: ollama\n      type: ollama\n      base_url: http://localhost:11434\n      models:\n        - name: llama3\n          alias: local\n\n  default_model: local\n\nNo graphical session detected (no DISPLAY/WAYLAND_DISPLAY, or you are over SSH),\nso the setup wizard cannot open a browser here.\nWrite the file above by hand, then run `peakbot` again.\nOn a desktop, bare `peakbot` opens the setup wizard; a TUI configurator is future work.\n\n"@;
    reveal_strlit(
        "\n╔══════════════════════════════════════════════════════════════╗\n║                    ⚠️  Config not found!                        ║\n╚══════════════════════════════════════════════════════════════╝\n\nI couldn't find my config file at:\n\n  ",
    );
    reveal_strlit(
        "\n\nCreate this file with content like:\n\n  providers:\n    - name: openrouter\n      type: openrouter\n      api_key: sk-or-v1-your-key-here\n      models:\n        - name: ",
    );
    reveal_strlit(
        "\n\nFind models at: https://openrouter.ai/models\n\nFor local models, use Ollama:\n\n  providers:\n    - name: ollama\n      type: ollama\n      base_url: http://localhost:11434\n      models:\n        - name: llama3\n          alias: local\n\n  default_model: local\n\nNo graphical session detected (no DISPLAY/WAYLAND_DISPLAY, or you are over SSH),\nso the setup wizard cannot open a browser here.\nWrite the file above by hand, then run `peakbot` again.\nOn a desktop, bare `peakbot` opens the setup wizard; a TUI configurator is future work.\n\n",
    );
    (a, b, c)
}

} // verus!
