//! Delegations: checks, preamble, outcome and footprint.

use peakbot::bg::{BgListEntry, BgStatus, Cooldown};
use peakbot::message::{assistant_text, Message};
use peakbot::models::{ModelRegistry, ResolvedModel};
use peakbot::pipeline::config::{AgentDefinition, Members, PipelineConfig, SkillFilter};
use peakbot::pipeline::delegate::{
    begin_delegation, build_sub_agent_preamble, deliver, failure_handoff, may_retry, merge_role_env,
    normalize_delegate_output, report_footprint, role_argument, settle, tool_description, validate_parent,
    BashConfig, DelegateArgs, DelegateError, DelegationContext, DelegationOutcome, TodoSnapshot,
};
use peakbot::pipeline::handoff::{Handoff, HandoffStep, PromptFailure};
use peakbot::pipeline::registry::SubAgentRegistry;
use peakbot::prompt::{Environment, ShellKind};
use peakbot::table::TextMap;

fn vars(env: &[(&str, &str)]) -> TextMap {
    let mut m = TextMap::new();
    for (k, v) in env {
        m.insert(k.to_string(), v.to_string());
    }
    m
}

fn bash_with(env: &[(&str, &str)]) -> BashConfig {
    BashConfig { env: if env.is_empty() { None } else { Some(vars(env)) } }
}

fn entry(id: u32, command: &str, label: Option<&str>, status: BgStatus) -> BgListEntry {
    BgListEntry {
        id,
        pid: 0,
        command: command.to_string(),
        label: label.map(str::to_string),
        status,
        buffer_len: 0,
        capture_cap: 200,
        cooldown: Cooldown { secs: 60, nanos: 0 },
    }
}

fn here() -> Environment {
    Environment {
        cwd: "/work/tree".to_string(),
        current_time: "2026-01-02 03:04:05 +00:00".to_string(),
        version: "1.2.3".to_string(),
        os: "linux".to_string(),
        binary_path: "/usr/bin/peakbot".to_string(),
    }
}

fn todo(ids: &[usize], rendered: &str) -> TodoSnapshot {
    TodoSnapshot { ids: ids.to_vec(), rendered: rendered.to_string() }
}

fn roles() -> SubAgentRegistry {
    let models = ModelRegistry {
        models: vec![ResolvedModel {
            alias: "flash".to_string(),
            provider_name: "openrouter".to_string(),
            model_name: "google/gemini-2.0-flash-001".to_string(),
            context_size: 128_000,
        }],
        default_alias: "flash".to_string(),
    };
    let mut agents = Members::new();
    for (name, prompt, agents_md) in [("tester", "You test.", false), ("critic", "You judge.", true)] {
        agents.insert(
            name.to_string(),
            AgentDefinition {
                model: None,
                prompt: prompt.to_string(),
                env: Some(vars(&[("ROLE", name)])),
                skills: SkillFilter { enabled: true, disabled: vec![], only: vec![] },
                agents_md,
                max_tokens: None,
            },
        );
    }
    let cfg = PipelineConfig { enabled: true, agents };
    SubAgentRegistry::new(&cfg, &models, &[]).expect("roles resolve")
}

fn args(role: &str, parent: usize) -> DelegateArgs {
    DelegateArgs {
        role: role.to_string(),
        task: "look at the diff".to_string(),
        parent_task_id: parent,
    }
}

#[test]
fn validate_parent_accepts_existing_id_including_completed() {
    let list = todo(&[1, 2], "1. [ ] live task\n2. [x] done task");
    assert!(validate_parent(&list, 1).is_ok(), "a pending parent is accepted");
    assert!(validate_parent(&list, 2).is_ok(), "a completed parent is accepted");
}

#[test]
fn validate_parent_rejects_missing_id_with_actionable_error() {
    let rendered = "1. [ ] alpha\n2. [ ] beta";
    let list = todo(&[1, 2], rendered);
    let msg = validate_parent(&list, 99).expect_err("id 99 is not in the list").message();
    assert!(msg.contains("99"), "got: {msg}");
    assert!(msg.contains("parent_task_id"), "got: {msg}");
    assert!(
        msg.contains(rendered) || msg.contains("beta") || msg.contains("alpha"),
        "got: {msg}"
    );
}

#[test]
fn validate_parent_against_empty_list_returns_no_tasks_message() {
    let list = todo(&[], "No tasks in the todo list.");
    let msg = validate_parent(&list, 1).expect_err("empty list rejects any id").message();
    assert!(msg.contains("No tasks in the todo list."), "got: {msg}");
}

#[test]
fn merge_role_env_overrides_and_unions() {
    let base = bash_with(&[("SHARED", "base"), ("BASE_ONLY", "keep")]);
    let role = vars(&[("SHARED", "role"), ("ROLE_ONLY", "added")]);
    let merged = merge_role_env(&base, Some(&role)).env.expect("some env");
    assert_eq!(merged.get("SHARED").map(String::as_str), Some("role"));
    assert_eq!(merged.get("BASE_ONLY").map(String::as_str), Some("keep"));
    assert_eq!(merged.get("ROLE_ONLY").map(String::as_str), Some("added"));
}

#[test]
fn merge_role_env_none_keeps_base() {
    let base = bash_with(&[("BASE_ONLY", "keep")]);
    let merged = merge_role_env(&base, None).env.expect("some env");
    assert_eq!(merged.get("BASE_ONLY").map(String::as_str), Some("keep"));
    assert_eq!(merged.len(), 1);
}

#[test]
fn delegate_output_never_empty() {
    for empty in ["", "   ", "\n\t  \n"] {
        let out = normalize_delegate_output("critic", empty.to_string());
        assert!(!out.trim().is_empty(), "{empty:?} must become a non-empty sentinel");
        assert!(out.contains("critic"), "sentinel must name the role");
    }
    let real = "Found 3 issues in the diff.".to_string();
    assert_eq!(normalize_delegate_output("critic", real.clone()), real);
}

fn preamble(prompt: &str, bg: &[BgListEntry], agents_md: bool) -> String {
    build_sub_agent_preamble(
        prompt,
        None,
        &here(),
        "",
        bg,
        agents_md,
        Some("SENTINEL-SUBAGENT-CONTEXT"),
    )
}

#[test]
fn preamble_includes_agents_md_only_when_role_opts_in() {
    assert!(preamble("role prompt", &[], true).contains("SENTINEL-SUBAGENT-CONTEXT"));
    assert!(!preamble("role prompt", &[], false).contains("SENTINEL-SUBAGENT-CONTEXT"));
}

#[test]
fn preamble_places_bg_snapshot_before_agents_md() {
    let bg = vec![entry(4, "npm run dev", Some("dev-server"), BgStatus::Running)];
    let preamble = preamble("role prompt", &bg, true);
    let bg_at = preamble
        .find("# Background Processes")
        .expect("a running process must reach the sub-agent");
    let agents_at = preamble.find("SENTINEL-SUBAGENT-CONTEXT").unwrap();
    assert!(bg_at < agents_at, "got: {preamble:?}");
}

#[test]
fn preamble_with_nothing_running_appends_no_bg_section() {
    let bg = vec![entry(1, "old-thing", None, BgStatus::Exited { code: 0 })];
    let preamble = preamble("role prompt", &bg, true);
    assert!(!preamble.contains("Background Processes"));
    assert!(!preamble.contains("\n\n\n"), "got: {preamble:?}");
}

#[test]
fn p2_sub_agent_preamble_does_not_include_built_in_crusader_persona() {
    let preamble = preamble("ROLE-PROMPT-SENTINEL", &[], false);
    assert!(preamble.contains("ROLE-PROMPT-SENTINEL"));
    assert!(!preamble.contains("CODE CRUSADER"));
    assert!(!preamble.contains("# Working Principles"));
}

#[test]
fn p2_sub_agent_preamble_only_carries_the_role_own_prompt() {
    let role_prompt = "ROLE-PERSONA-SENTINEL: be terse.";
    assert!(preamble(role_prompt, &[], false).starts_with(role_prompt));
}

type PreambleFn =
    fn(&str, Option<&ShellKind>, &Environment, &str, &[BgListEntry], bool, Option<&str>) -> String;

#[test]
fn p2_sub_agent_preamble_signature_has_no_persona_parameter() {
    let _f: PreambleFn = build_sub_agent_preamble;
}

#[test]
fn a_delegation_starts_with_the_roles_own_things() {
    let registry = roles();
    let base = bash_with(&[("ROLE", "base"), ("HOME", "/h")]);
    let env = here();
    let ctx = DelegationContext {
        bash: &base,
        shell_kind: None,
        env: &env,
        skills: "# Skills\n",
        bg: &[],
        agents_md: Some("house rules"),
    };
    let list = todo(&[3], "3. [ ] delegate");
    let started = begin_delegation(&registry, &args("critic", 3), &list, &ctx).expect("starts");
    assert_eq!(started.role.prompt, "You judge.");
    assert!(started.preamble.starts_with("You judge."));
    assert!(started.preamble.contains("house rules"));
    let merged = started.bash.env.expect("some env");
    assert_eq!(merged.get("ROLE").map(String::as_str), Some("critic"));
    assert_eq!(merged.get("HOME").map(String::as_str), Some("/h"));

    let lean = begin_delegation(&registry, &args("tester", 3), &list, &ctx).expect("starts");
    assert!(!lean.preamble.contains("house rules"));

    let unknown = begin_delegation(&registry, &args("ghost", 9), &list, &ctx).unwrap_err();
    assert_eq!(unknown.message(), "Unknown role 'ghost'. Available: [\"critic\", \"tester\"]");
    let orphan = begin_delegation(&registry, &args("critic", 9), &list, &ctx).unwrap_err();
    assert_eq!(
        orphan,
        DelegateError::UnknownParentTask { id: 9, list: "3. [ ] delegate".to_string() }
    );
}

#[test]
fn errors_have_their_words() {
    let build = DelegateError::Build { role: "r".to_string(), error: "no key".to_string() };
    assert_eq!(build.message(), "Failed to build sub-agent for role 'r': no key");
    let run = DelegateError::Run { role: "r".to_string(), error: "e".to_string() };
    assert_eq!(run.message(), "Sub-agent 'r' failed: e");
}

#[test]
fn only_transient_failures_within_the_budget_are_retried() {
    assert!(may_retry(true, 0, 2));
    assert!(may_retry(true, 1, 2));
    assert!(!may_retry(true, 2, 2));
    assert!(!may_retry(false, 0, 2));
}

fn history() -> Vec<Message> {
    vec![assistant_text("so far so good".to_string())]
}

#[test]
fn a_stop_stays_an_error() {
    let stop = PromptFailure::PromptCancelled {
        chat_history: vec![],
        reason: "stop".to_string(),
    };
    let r = settle("critic", DelegationOutcome::Failed(stop), history());
    assert_eq!(
        r,
        Err(DelegateError::Run {
            role: "critic".to_string(),
            error: "PromptCancelled: stop".to_string(),
        })
    );
}

#[test]
fn an_answer_is_the_result() {
    let r = settle("critic", DelegationOutcome::Finished("done".to_string()), history());
    assert_eq!(r, Ok(HandoffStep::Done("done".to_string())));
    let blank = settle("critic", DelegationOutcome::Finished(" ".to_string()), history());
    assert_eq!(
        blank,
        Ok(HandoffStep::Done(
            "[sub-agent 'critic' produced no output — re-run with a more focused task.]".to_string()
        ))
    );
}

#[test]
fn a_timeout_is_handed_off() {
    let h = failure_handoff(DelegationOutcome::TimedOut { budget_secs: 1800 }, history());
    assert_eq!(
        h,
        Ok(Handoff::Failed {
            error: "exceeded its 1800s wall-clock budget and was cancelled".to_string(),
            history: history(),
        })
    );
    match settle("critic", DelegationOutcome::TimedOut { budget_secs: 5 }, history()) {
        Ok(HandoffStep::Summarise { prompt, .. }) => {
            assert!(prompt.ends_with("Assistant: so far so good"))
        }
        other => panic!("expected a summary to be asked for, got {other:?}"),
    }
}

#[test]
fn the_footprint_stands_behind_the_result() {
    let after = vec![entry(4, "npm run dev", None, BgStatus::Running)];
    assert_eq!(
        report_footprint("r".to_string(), &[], &after),
        "r\n\n[bg] this delegation left running: #4 `npm run dev`"
    );
    assert_eq!(report_footprint("r".to_string(), &after, &after), "r");
}

#[test]
fn the_tool_names_the_roles() {
    let d = tool_description(&roles());
    assert!(d.contains("Available roles: critic, tester\n"));
    assert!(d.contains("parent_task_id"));
}

#[test]
fn the_pointer_to_the_messages_has_the_last_word() {
    let after = vec![entry(4, "npm run dev", None, BgStatus::Running)];
    let out = deliver("critic", "r".to_string(), &[], &after, 2, Some("/tmp/f.txt"));
    assert_eq!(
        out,
        "r\n\n[bg] this delegation left running: #4 `npm run dev`\n\n[delegate:critic] Its 2 earlier messages were saved to /tmp/f.txt — if the result above is not the full report (e.g. just \"done\" or a one-liner), `file_read` that path to recover it."
    );
    assert_eq!(deliver("critic", "r".to_string(), &[], &[], 2, None), "r");
}

#[test]
fn the_role_argument_names_the_roles() {
    assert_eq!(role_argument(&roles()), "Which sub-agent to run. One of: critic, tester");
}
