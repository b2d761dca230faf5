//! The system prompt.

use peakbot::prompt::{
    agents_md_section, build_system_prompt, env_block, find_agents_md, shell_line, Environment,
    PromptTexts, ShellKind,
};

fn texts() -> PromptTexts {
    PromptTexts {
        persona: "You are the CODE CRUSADER.\n".to_string(),
        core: "# Working Principles\n".to_string(),
        memory: "# Memory.md\n".to_string(),
    }
}

fn env(cwd: &str) -> Environment {
    Environment {
        cwd: cwd.to_string(),
        current_time: "2026-01-02 03:04:05 +00:00".to_string(),
        version: "1.2.3".to_string(),
        os: "linux".to_string(),
        binary_path: "/usr/bin/peakbot".to_string(),
    }
}

fn build(
    shell: Option<&ShellKind>,
    agents_md: Option<&str>,
    memory: bool,
    team: bool,
    orchestrator: Option<&str>,
    persona: Option<&str>,
) -> String {
    build_system_prompt(
        &texts(),
        "# Skills\n",
        shell,
        &env("/work/tree"),
        agents_md,
        memory,
        team,
        orchestrator,
        persona,
    )
}

#[test]
fn system_prompt_powershell_instructs_powershell_syntax() {
    let ps = ShellKind::PowerShell { path: "pwsh.exe".to_string() };
    let prompt = build(Some(&ps), None, true, false, None, None);
    assert!(prompt.contains("**Shell**: powershell"));
    assert!(prompt.contains("`powershell`"));
    assert!(prompt.contains("PowerShell syntax"));
}

#[test]
fn system_prompt_bash_does_not_instruct_powershell() {
    let bash = ShellKind::Bash { path: "/bin/sh".to_string() };
    let prompt = build(Some(&bash), None, true, false, None, None);
    assert!(prompt.contains("**Shell**: bash"));
    assert!(!prompt.contains("PowerShell syntax"));
}

#[test]
fn system_prompt_stamps_passed_cwd_and_reads_its_agents_md() {
    let prompt = build(None, Some("SENTINEL-AGENTS-CONTENT"), true, false, None, None);
    assert!(prompt.contains("/work/tree"));
    assert!(prompt.contains("SENTINEL-AGENTS-CONTENT"));
}

#[test]
fn system_prompt_includes_memory_section_when_enabled() {
    assert!(build(None, None, true, false, None, None).contains("# Memory.md"));
}

#[test]
fn system_prompt_omits_memory_section_when_disabled() {
    assert!(!build(None, None, false, false, None, None).contains("# Memory.md"));
}

#[test]
fn system_prompt_builtin_persona_only_in_agentless_mode() {
    let agentless = build(None, None, false, false, None, None);
    assert!(agentless.contains("CODE CRUSADER"));
    let orchestrator = build(None, None, false, true, None, None);
    assert!(!orchestrator.contains("CODE CRUSADER"));
    assert!(orchestrator.contains("# Working Principles"));
}

#[test]
fn orchestrator_prompt_appended_only_when_subagents_active() {
    let extra = Some("Lead the SENTINEL-TEAM well.");
    assert!(build(None, None, false, true, extra, None).contains("SENTINEL-TEAM"));
    assert!(!build(None, None, false, false, extra, None).contains("SENTINEL-TEAM"));
    assert!(!build(None, None, false, true, Some("   "), None)
        .contains("# Orchestrator Instructions"));
}

#[test]
fn a_configured_persona_leads_both_recipes() {
    for team in [false, true] {
        let prompt = build(None, None, false, team, None, Some("  Be brief.  "));
        assert!(prompt.starts_with("Be brief.\n# Working Principles\n"));
    }
    let blank = build(None, None, false, true, None, Some(" \t"));
    assert!(blank.starts_with("# Working Principles\n"));
}

#[test]
fn the_whole_prompt() {
    let bash = ShellKind::Bash { path: "/bin/sh".to_string() };
    let prompt = build(Some(&bash), Some("\nrules\n"), true, true, Some("lead"), Some("p"));
    assert_eq!(
        prompt,
        "p\n# Working Principles\n# Memory.md\n# Skills\n\n# Environment Information\n\n- **Current Working Directory**: /work/tree\n- **Current Time**: 2026-01-02 03:04:05 +00:00\n- **PeakBot Version**: 1.2.3\n- **Operating System**: linux\n- **PeakBot Binary Path**: /usr/bin/peakbot\n- **Shell**: bash (/bin/sh) — use POSIX/bash syntax.\n\n# Agents.md Content\n\n--------------------------------------------------------\nrules\n\n# Orchestrator Instructions\n\nlead\n"
    );
}

#[test]
fn parts_that_are_missing_are_empty() {
    assert_eq!(shell_line(None), "");
    assert_eq!(agents_md_section(None), "");
    assert!(env_block(None, &env("/x")).ends_with("/usr/bin/peakbot\n"));
}

#[test]
fn agents_md_is_found_in_any_case() {
    let names: Vec<String> =
        ["README.md", "AGENTS.MD", "agents.md"].iter().map(|s| s.to_string()).collect();
    assert_eq!(find_agents_md(&names), Some(1));
    assert_eq!(find_agents_md(&names[..1]), None);
    assert_eq!(find_agents_md(&["agents.md.bak".to_string()]), None);
}
