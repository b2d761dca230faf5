//! The system prompt of the main agent.

use vstd::prelude::*;
use crate::text;

verus! {

/// The shell that was found at start-up.
#[derive(Debug, PartialEq)]
pub enum ShellKind {
    PowerShell { path: String },
    Bash { path: String },
}

/// What the environment block reports, as read when the prompt is built.
#[derive(Debug, PartialEq)]
pub struct Environment {
    /// The session's working directory.
    pub cwd: String,
    /// The local time.
    pub current_time: String,
    /// The program's version.
    pub version: String,
    /// The operating system.
    pub os: String,
    /// Where the program's file is.
    pub binary_path: String,
}

/// The fixed parts of the system prompt.
#[derive(Debug, PartialEq)]
pub struct PromptTexts {
    /// The built-in persona.
    pub persona: String,
    /// The core guidance.
    pub core: String,
    /// How to use `memory.md`.
    pub memory: String,
}

/// The line about the shell; empty where no shell was found.
pub open spec fn shell_text(shell: Option<ShellKind>) -> Seq<char> {
    match shell {
        Some(ShellKind::PowerShell { path }) => "- **Shell**: powershell ("@ + path@
            + ") — your shell tool is named `powershell`. Write PowerShell syntax (e.g. `Select-String`, `Get-ChildItem`, `Get-Content`), NOT bash/sed/grep. The bash examples elsewhere in this prompt do not apply here.\n"@,
        Some(ShellKind::Bash { path }) => "- **Shell**: bash ("@ + path@
            + ") — use POSIX/bash syntax.\n"@,
        None => Seq::empty(),
    }
}

/// The shell behind a reference.
pub open spec fn shell_of(shell: Option<&ShellKind>) -> Option<ShellKind> {
    match shell {
        Some(s) => Some(*s),
        None => None,
    }
}

/// The line about the shell.
pub fn shell_line(shell_kind: Option<&ShellKind>) -> (r: String)
    ensures
        r@ == shell_text(shell_of(shell_kind)),
{
    match shell_kind {
        Some(ShellKind::PowerShell { path }) => {
            let mut s = "- **Shell**: powershell (".to_owned();
            s.append(path.as_str());
            s.append(
                ") — your shell tool is named `powershell`. Write PowerShell syntax (e.g. `Select-String`, `Get-ChildItem`, `Get-Content`), NOT bash/sed/grep. The bash examples elsewhere in this prompt do not apply here.\n",
            );
            s
        },
        Some(ShellKind::Bash { path }) => {
            let mut s = "- **Shell**: bash (".to_owned();
            s.append(path.as_str());
            s.append(") — use POSIX/bash syntax.\n");
            s
        },
        None => String::new(),
    }
}

/// The environment block.
pub open spec fn env_text(shell: Option<ShellKind>, env: Environment) -> Seq<char> {
    "\n# Environment Information\n\n- **Current Working Directory**: "@ + env.cwd@
        + "\n- **Current Time**: "@ + env.current_time@ + "\n- **PeakBot Version**: "@
        + env.version@ + "\n- **Operating System**: "@ + env.os@ + "\n- **PeakBot Binary Path**: "@
        + env.binary_path@ + "\n"@ + shell_text(shell)
}

/// The environment block, shared by the main agent and every sub-agent.
pub fn env_block(shell_kind: Option<&ShellKind>, env: &Environment) -> (r: String)
    ensures
        r@ == env_text(shell_of(shell_kind), *env),
{
    let mut s = "\n# Environment Information\n\n- **Current Working Directory**: ".to_owned();
    s.append(env.cwd.as_str());
    s.append("\n- **Current Time**: ");
    s.append(env.current_time.as_str());
    s.append("\n- **PeakBot Version**: ");
    s.append(env.version.as_str());
    s.append("\n- **Operating System**: ");
    s.append(env.os.as_str());
    s.append("\n- **PeakBot Binary Path**: ");
    s.append(env.binary_path.as_str());
    s.append("\n");
    s.append(shell_line(shell_kind).as_str());
    s
}

/// Whether a file name is `agents.md`, whatever its letter case.
pub open spec fn names_agents_md(name: Seq<char>) -> bool {
    text::lowercase(name) == "agents.md"@
}

/// Whether a file name in ASCII letters is `agents.md`, whatever its letter case.
pub open spec fn names_ascii_agents_md(name: Seq<char>) -> bool {
    text::all_ascii(name) && text::ascii_lowercase(name) == "agents.md"@
}

/// The position of the first `agents.md` among the file names of a directory.
pub fn find_agents_md(names: &[String]) -> (r: Option<usize>)
    ensures
        r matches Some(i) ==> (text::all_ascii(names@[i as int]@) ==> names_ascii_agents_md(
            names@[i as int]@,
        )),
        forall|j: int|
            0 <= j < names@.len() && names_ascii_agents_md((#[trigger] names@[j])@)
                ==> r is Some && r->0 <= j,
        match r {
            Some(i) => i < names@.len() && names_agents_md(names@[i as int]@) && forall|j: int|
                0 <= j < i ==> !names_agents_md((#[trigger] names@[j])@),
            None => forall|j: int|
                0 <= j < names@.len() ==> !names_agents_md((#[trigger] names@[j])@),
        },
{
    let mut i: usize = 0;
    while i < names.len()
        invariant
            i <= names@.len(),
            forall|j: int|
                0 <= j < i ==> !names_agents_md((#[trigger] names@[j])@)
                    && !names_ascii_agents_md(names@[j]@),
        decreases names@.len() - i,
    {
        let lower = text::to_lowercase(names[i].as_str());
        if text::same(lower.as_str(), "agents.md") {
            return Some(i);
        }
        i += 1;
    }
    None
}

/// The section that carries `agents.md`; empty where there is none.
pub open spec fn agents_md_text(content: Option<Seq<char>>) -> Seq<char> {
    match content {
        Some(c) =>
            "\n# Agents.md Content\n\n--------------------------------------------------------\n"@
            + text::trim(c) + "\n"@,
        None => Seq::empty(),
    }
}

/// The section that carries the content of `agents.md`.
pub fn agents_md_section(content: Option<&str>) -> (r: String)
    ensures
        r@ == agents_md_text(text::opt_str(content)),
{
    match content {
        Some(c) => {
            let mut s =
                "\n# Agents.md Content\n\n--------------------------------------------------------\n".to_owned();
            s.append(text::trim_text(c).as_str());
            s.append("\n");
            s
        },
        None => String::new(),
    }
}

/// A text without the white space around it, unless it is blank.
pub open spec fn unless_blank(o: Option<Seq<char>>) -> Option<Seq<char>> {
    match o {
        Some(s) => if text::is_blank(s) {
            None
        } else {
            Some(text::trim(s))
        },
        None => None,
    }
}

fn trimmed_unless_blank(o: Option<&str>) -> (r: Option<String>)
    ensures
        text::opt(r) == unless_blank(text::opt_str(o)),
{
    match o {
        Some(s) => {
            let t = text::trim_text(s);
            if t.as_str().is_empty() {
                None
            } else {
                Some(t)
            }
        },
        None => None,
    }
}

/// What the prompt opens with: the configured persona; without one, the
/// built-in persona where the agent works alone, and nothing where it leads a
/// team.
pub open spec fn lead_text(texts: PromptTexts, team: bool, persona: Option<Seq<char>>) -> Seq<char> {
    match unless_blank(persona) {
        Some(p) => p + "\n"@,
        None => if team {
            Seq::empty()
        } else {
            texts.persona@
        },
    }
}

/// What the orchestrator of a team is told on top.
pub open spec fn orchestrator_text(team: bool, prompt: Option<Seq<char>>) -> Seq<char> {
    match unless_blank(prompt) {
        Some(p) if team => "\n# Orchestrator Instructions\n\n"@ + p + "\n"@,
        _ => Seq::empty(),
    }
}

/// What the prompt says of `memory.md`.
pub open spec fn memory_text(texts: PromptTexts, enabled: bool) -> Seq<char> {
    if enabled {
        texts.memory@
    } else {
        Seq::empty()
    }
}

/// The system prompt.
pub open spec fn system_prompt(
    texts: PromptTexts,
    skills: Seq<char>,
    shell: Option<ShellKind>,
    env: Environment,
    agents_md: Option<Seq<char>>,
    memory_enabled: bool,
    team: bool,
    orchestrator_prompt: Option<Seq<char>>,
    persona: Option<Seq<char>>,
) -> Seq<char> {
    lead_text(texts, team, persona) + texts.core@ + memory_text(texts, memory_enabled) + skills
        + env_text(shell, env) + agents_md_text(agents_md) + orchestrator_text(
        team,
        orchestrator_prompt,
    )
}

/// Builds the system prompt. `skills` is the section that lists the skills,
/// `agents_md` the content of the repository's `agents.md`.
pub fn build_system_prompt(
    texts: &PromptTexts,
    skills: &str,
    shell_kind: Option<&ShellKind>,
    env: &Environment,
    agents_md: Option<&str>,
    memory_enabled: bool,
    subagents_active: bool,
    orchestrator_prompt: Option<&str>,
    persona: Option<&str>,
) -> (r: String)
    ensures
        r@ == system_prompt(
            *texts,
            skills@,
            shell_of(shell_kind),
            *env,
            text::opt_str(agents_md),
            memory_enabled,
            subagents_active,
            text::opt_str(orchestrator_prompt),
            text::opt_str(persona),
        ),
{
    let mut prompt: String = match trimmed_unless_blank(persona) {
        Some(p) => {
            let mut s = p;
            s.append("\n");
            s
        },
        None => if subagents_active {
            String::new()
        } else {
            texts.persona.clone()
        },
    };
    prompt.append(texts.core.as_str());
    let memory: String = if memory_enabled {
        texts.memory.clone()
    } else {
        String::new()
    };
    prompt.append(memory.as_str());
    prompt.append(skills);
    prompt.append(env_block(shell_kind, env).as_str());
    prompt.append(agents_md_section(agents_md).as_str());
    let extra: String = match trimmed_unless_blank(orchestrator_prompt) {
        Some(p) => if subagents_active {
            let mut s = "\n# Orchestrator Instructions\n\n".to_owned();
            s.append(p.as_str());
            s.append("\n");
            s
        } else {
            String::new()
        },
        None => String::new(),
    };
    prompt.append(extra.as_str());
    prompt
}

/// A configured persona leads the prompt of a lone agent and of an orchestrator
/// alike.
pub proof fn law_persona_leads_both(texts: PromptTexts, persona: Seq<char>)
    requires
        !text::is_blank(persona),
    ensures
        lead_text(texts, true, Some(persona)) == lead_text(texts, false, Some(persona)),
        text::starts_with(lead_text(texts, true, Some(persona)), text::trim(persona)),
{
    let p = text::trim(persona);
    assert((p + "\n"@).take(p.len() as int) =~= p);
}

/// A blank persona counts as none, and the orchestrator's own instructions never
/// reach a lone agent.
pub proof fn law_blank_persona_is_none(texts: PromptTexts, team: bool, persona: Seq<char>)
    requires
        text::is_blank(persona),
    ensures
        lead_text(texts, team, Some(persona)) == lead_text(texts, team, None),
        forall|o: Option<Seq<char>>| #[trigger] orchestrator_text(false, o) == Seq::<char>::empty(),
{
}

/// Whatever the persona and the selection, the core guidance follows directly on what
/// the prompt opens with: the trimmed persona where one is configured, else the built-in
/// one where the agent works alone, else nothing.
pub proof fn law_core_follows_the_lead(
    texts: PromptTexts,
    skills: Seq<char>,
    shell: Option<ShellKind>,
    env: Environment,
    agents_md: Option<Seq<char>>,
    memory_enabled: bool,
    team: bool,
    orchestrator_prompt: Option<Seq<char>>,
    persona: Option<Seq<char>>,
)
    ensures
        ({
            let p = system_prompt(
                texts,
                skills,
                shell,
                env,
                agents_md,
                memory_enabled,
                team,
                orchestrator_prompt,
                persona,
            );
            let lead = if persona is Some && text::trim(persona->0).len() > 0 {
                text::trim(persona->0) + "\n"@
            } else if team {
                Seq::<char>::empty()
            } else {
                texts.persona@
            };
            &&& p.len() >= lead.len() + texts.core@.len()
            &&& p.take(lead.len() as int) == lead
            &&& p.subrange(lead.len() as int, (lead.len() + texts.core@.len()) as int)
                == texts.core@
        }),
{
    let p = system_prompt(
        texts,
        skills,
        shell,
        env,
        agents_md,
        memory_enabled,
        team,
        orchestrator_prompt,
        persona,
    );
    let lead = lead_text(texts, team, persona);
    let n = lead.len() as int;
    assert(p.take(n) =~= lead);
    assert(p.subrange(n, n + texts.core@.len()) =~= texts.core@);
}

/// Every section that is given stands in the prompt, whole and in its place: behind the
/// lead and the core come the memory guidance where it is on, the skills, the
/// environment, `agents.md` where there is one, and at the end the instructions of an
/// orchestrator.
pub proof fn law_prompt_has_every_section(
    texts: PromptTexts,
    skills: Seq<char>,
    shell: Option<ShellKind>,
    env: Environment,
    agents_md: Option<Seq<char>>,
    memory_enabled: bool,
    team: bool,
    orchestrator_prompt: Option<Seq<char>>,
    persona: Option<Seq<char>>,
) -> (r: (int, int, int, int))
    ensures
        ({
            let p = system_prompt(
                texts,
                skills,
                shell,
                env,
                agents_md,
                memory_enabled,
                team,
                orchestrator_prompt,
                persona,
            );
            let memory = if memory_enabled {
                texts.memory@
            } else {
                Seq::<char>::empty()
            };
            &&& texts.core@.len() <= r.0 <= r.1 <= r.2 <= r.3 <= p.len()
            &&& p.subrange(r.0 - texts.core@.len(), r.0) == texts.core@
            &&& p.subrange(r.0, r.1) == memory + skills
            &&& p.subrange(r.1, r.2) == env_text(shell, env)
            &&& agents_md is None ==> r.3 == r.2
            &&& agents_md is Some ==> p.subrange(r.2, r.3)
                == "\n# Agents.md Content\n\n--------------------------------------------------------\n"@
                + text::trim(agents_md->0) + "\n"@
            &&& if team && orchestrator_prompt is Some && text::trim(orchestrator_prompt->0).len()
                > 0 {
                p.skip(r.3) == "\n# Orchestrator Instructions\n\n"@ + text::trim(
                    orchestrator_prompt->0,
                ) + "\n"@
            } else {
                r.3 == p.len()
            }
        }),
{
    let p = system_prompt(
        texts,
        skills,
        shell,
        env,
        agents_md,
        memory_enabled,
        team,
        orchestrator_prompt,
        persona,
    );
    let lead = lead_text(texts, team, persona);
    let memory = memory_text(texts, memory_enabled);
    let a = (lead.len() + texts.core@.len()) as int;
    let b = a + memory.len() + skills.len();
    let c = b + env_text(shell, env).len();
    let d = c + agents_md_text(agents_md).len();
    assert(p.subrange(a - texts.core@.len(), a) =~= texts.core@);
    assert(p.subrange(a, b) =~= memory + skills);
    assert(p.subrange(b, c) =~= env_text(shell, env));
    assert(p.subrange(c, d) =~= agents_md_text(agents_md));
    assert(p.skip(d) =~= orchestrator_text(team, orchestrator_prompt));
    (a, b, c, d)
}

/// The prompt tells its sources apart: another core, another list of skills or another
/// environment block gives another prompt.
pub proof fn law_prompt_tells_its_sources_apart(
    texts: PromptTexts,
    other: PromptTexts,
    skills: Seq<char>,
    others: Seq<char>,
    shell: Option<ShellKind>,
    env: Environment,
    agents_md: Option<Seq<char>>,
    memory_enabled: bool,
    team: bool,
    orchestrator_prompt: Option<Seq<char>>,
    persona: Option<Seq<char>>,
)
    requires
        texts.persona@ == other.persona@,
        texts.memory@ == other.memory@,
        texts.core@ != other.core@ && skills == others || texts.core@ == other.core@ && skills
            != others,
    ensures
        system_prompt(
            texts,
            skills,
            shell,
            env,
            agents_md,
            memory_enabled,
            team,
            orchestrator_prompt,
            persona,
        ) != system_prompt(
            other,
            others,
            shell,
            env,
            agents_md,
            memory_enabled,
            team,
            orchestrator_prompt,
            persona,
        ),
{
    lemma_seven_parts(
        lead_text(texts, team, persona),
        (texts.core@, other.core@),
        memory_text(texts, memory_enabled),
        (skills, others),
        env_text(shell, env),
        agents_md_text(agents_md),
        orchestrator_text(team, orchestrator_prompt),
    );
}

proof fn lemma_seven_parts(
    a: Seq<char>,
    b: (Seq<char>, Seq<char>),
    c: Seq<char>,
    d: (Seq<char>, Seq<char>),
    e: Seq<char>,
    f: Seq<char>,
    g: Seq<char>,
)
    requires
        b.0 != b.1 && d.0 == d.1 || b.0 == b.1 && d.0 != d.1,
    ensures
        a + b.0 + c + d.0 + e + f + g != a + b.1 + c + d.1 + e + f + g,
{
    let tail = e + f + g;
    assert(a + b.0 + c + d.0 + e + f + g =~= a + b.0 + c + d.0 + tail);
    assert(a + b.1 + c + d.1 + e + f + g =~= a + b.1 + c + d.1 + tail);
    if d.0 == d.1 {
        let rest = c + d.0 + tail;
        text::lemma_middle_differs(a, b.0, b.1, rest);
        assert(a + b.0 + c + d.0 + tail =~= a + b.0 + rest);
        assert(a + b.1 + c + d.1 + tail =~= a + b.1 + rest);
    } else {
        text::lemma_middle_differs(a + b.0 + c, d.0, d.1, tail);
    }
}

/// The environment block reports everything it is given: the directory, the time, the
/// version, the system, the program's place and, at its end, the shell. Each stands
/// behind its label.
pub proof fn law_environment_is_reported(shell: Option<ShellKind>, env: Environment) -> (r: Seq<
    Seq<char>,
>)
    ensures
        r.len() == 10,
        env_text(shell, env) == r[0] + "- **Current Working Directory**: "@ + env.cwd@ + r[1],
        env_text(shell, env) == r[2] + "- **Current Time**: "@ + env.current_time@ + r[3],
        env_text(shell, env) == r[4] + "- **PeakBot Version**: "@ + env.version@ + r[5],
        env_text(shell, env) == r[6] + "- **Operating System**: "@ + env.os@ + r[7],
        env_text(shell, env) == r[8] + "- **PeakBot Binary Path**: "@ + env.binary_path@ + "\n"@
            + r[9],
        shell is None ==> r[9].len() == 0,
        shell matches Some(ShellKind::Bash { path }) ==> text::starts_with(
            r[9],
            "- **Shell**: bash ("@ + path@ + ")"@,
        ),
        shell matches Some(ShellKind::PowerShell { path }) ==> text::starts_with(
            r[9],
            "- **Shell**: powershell ("@ + path@ + ")"@,
        ),
{
    reveal_strlit("\n# Environment Information\n\n- **Current Working Directory**: ");
    reveal_strlit("\n# Environment Information\n\n");
    reveal_strlit("- **Current Working Directory**: ");
    reveal_strlit("\n- **Current Time**: ");
    reveal_strlit("- **Current Time**: ");
    reveal_strlit("\n- **PeakBot Version**: ");
    reveal_strlit("- **PeakBot Version**: ");
    reveal_strlit("\n- **Operating System**: ");
    reveal_strlit("- **Operating System**: ");
    reveal_strlit("\n- **PeakBot Binary Path**: ");
    reveal_strlit("- **PeakBot Binary Path**: ");
    reveal_strlit("\n");
    let nl = "\n"@;
    let l0 = "\n# Environment Information\n\n- **Current Working Directory**: "@;
    let l1 = "\n- **Current Time**: "@;
    let l2 = "\n- **PeakBot Version**: "@;
    let l3 = "\n- **Operating System**: "@;
    let l4 = "\n- **PeakBot Binary Path**: "@;
    let s = shell_text(shell);
    assert(l0 =~= "\n# Environment Information\n\n"@ + "- **Current Working Directory**: "@);
    assert(l1 =~= nl + "- **Current Time**: "@);
    assert(l2 =~= nl + "- **PeakBot Version**: "@);
    assert(l3 =~= nl + "- **Operating System**: "@);
    assert(l4 =~= nl + "- **PeakBot Binary Path**: "@);
    let e = env_text(shell, env);
    let t4 = l4 + env.binary_path@ + nl + s;
    let t3 = l3 + env.os@ + t4;
    let t2 = l2 + env.version@ + t3;
    let t1 = l1 + env.current_time@ + t2;
    let h1 = l0 + env.cwd@;
    let h2 = h1 + l1 + env.current_time@;
    let h3 = h2 + l2 + env.version@;
    let h4 = h3 + l3 + env.os@;
    assert(e =~= h1 + t1);
    assert(e =~= h2 + t2);
    assert(e =~= h3 + t3);
    assert(e =~= h4 + t4);
    assert(e =~= "\n# Environment Information\n\n"@ + "- **Current Working Directory**: "@
        + env.cwd@ + t1);
    assert(e =~= (h1 + nl) + "- **Current Time**: "@ + env.current_time@ + t2);
    assert(e =~= (h2 + nl) + "- **PeakBot Version**: "@ + env.version@ + t3);
    assert(e =~= (h3 + nl) + "- **Operating System**: "@ + env.os@ + t4);
    assert(e =~= (h4 + nl) + "- **PeakBot Binary Path**: "@ + env.binary_path@ + nl + s);
    match shell {
        None => {},
        Some(ShellKind::Bash { path }) => {
            reveal_strlit(") — use POSIX/bash syntax.\n");
            reveal_strlit(")");
            let w = "- **Shell**: bash ("@ + path@ + ")"@;
            assert(s.take(w.len() as int) =~= w);
        },
        Some(ShellKind::PowerShell { path }) => {
            reveal_strlit(
                ") — your shell tool is named `powershell`. Write PowerShell syntax (e.g. `Select-String`, `Get-ChildItem`, `Get-Content`), NOT bash/sed/grep. The bash examples elsewhere in this prompt do not apply here.\n",
            );
            reveal_strlit(")");
            let w = "- **Shell**: powershell ("@ + path@ + ")"@;
            assert(s.take(w.len() as int) =~= w);
        },
    }
    seq![
        "\n# Environment Information\n\n"@,
        t1,
        h1 + nl,
        t2,
        h2 + nl,
        t3,
        h3 + nl,
        t4,
        h4 + nl,
        s,
    ]
}

/// The shell behind a reference is the shell.
pub proof fn law_shell_is_read(shell: &ShellKind)
    ensures
        shell_of(Some(shell)) == Some(*shell),
        shell_of(None) is None,
{
}

/// Two file names that differ in their letter case alone are `agents.md` both or neither.
pub proof fn law_letter_case_of_file_names(a: Seq<char>, b: Seq<char>)
    requires
        text::all_ascii(a),
        text::all_ascii(b),
        text::ascii_lowercase(a) == text::ascii_lowercase(b),
    ensures
        names_ascii_agents_md(a) == names_ascii_agents_md(b),
        names_ascii_agents_md(a) ==> a.len() == 9,
{
    reveal_strlit("agents.md");
    if names_ascii_agents_md(a) {
        assert(text::ascii_lowercase(a).len() == a.len());
    }
}

} // verus!
