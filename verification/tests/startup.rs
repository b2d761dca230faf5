//! Decisions at start and the reports of the installer.

use peakbot::startup::{
    check_bind, config_not_found_message, explicit_token, first_run_action, has_api_key, mode,
    render_install_result, render_service_report, resolve_service_exe, resolve_token,
    uninstall_note, FirstRun, InstallAction, InstallOutcome, Mode, PathState, ProviderKey,
    ServiceReport,
};

#[test]
fn cli_defaults_to_web_mode() {
    assert_eq!(mode(false, false), Mode::Web);
}

#[test]
fn cli_tui_flag_selects_tui() {
    assert_eq!(mode(true, false), Mode::Tui);
}

#[test]
fn cli_stdio_flag_selects_stdio() {
    assert_eq!(mode(false, true), Mode::Stdio);
}

#[test]
fn cli_deprecated_web_alias_selects_web() {
    // The alias sets neither of the two flags that count.
    assert_eq!(mode(false, false), Mode::Web);
}

#[test]
fn first_run_proceeds_with_config_or_key() {
    for mode in [Mode::Web, Mode::Tui, Mode::Stdio] {
        for windowed in [false, true] {
            assert_eq!(first_run_action(true, false, mode, windowed), FirstRun::Proceed);
            assert_eq!(first_run_action(false, true, mode, windowed), FirstRun::Proceed);
        }
    }
}

#[test]
fn first_run_opens_wizard_only_for_windowed_web() {
    assert_eq!(first_run_action(false, false, Mode::Web, true), FirstRun::SetupWizard);
    assert_eq!(first_run_action(false, false, Mode::Web, false), FirstRun::Refuse);
    assert_eq!(first_run_action(false, false, Mode::Tui, true), FirstRun::Refuse);
    assert_eq!(first_run_action(false, false, Mode::Stdio, true), FirstRun::Refuse);
}

#[test]
fn resolve_service_exe_falls_back_to_current_exe_with_note_when_target_absent() {
    let here = "/opt/build/peakbot";
    let (path, note) = resolve_service_exe(Some("/home/u/.local/bin/peakbot"), false, Some(here));
    assert_eq!(path, here, "fallback must equal current_exe()");
    let note = note.expect("fallback must surface a note");
    assert!(note.contains("run `peakbot install`"), "got: {note}");
    assert!(note.contains(here), "got: {note}");
    assert!(!note.contains("no install target"), "got: {note}");
}

#[test]
fn resolve_service_exe_picks_installed_target_when_present_and_silences_note() {
    let target = "/home/u/.local/bin/peakbot";
    let (path, note) = resolve_service_exe(Some(target), true, Some("/opt/build/peakbot"));
    assert_eq!(path, target, "installed target must win over current_exe()");
    assert!(note.is_none());
}

#[test]
fn service_exe_without_any_target() {
    let (path, note) = resolve_service_exe(None, true, None);
    assert_eq!(path, "peakbot");
    assert_eq!(
        note.unwrap(),
        "the service points at peakbot, which is where you ran PeakBot from — run `peakbot install` so it survives a move (no install target could be resolved on this machine)"
    );
    let (path, note) = resolve_service_exe(Some("/t"), false, None);
    assert_eq!(path, "/t");
    assert!(note.unwrap().starts_with("the service points at /t, "));
}

#[test]
fn providers_and_their_keys() {
    assert!(has_api_key(ProviderKey::OpenRouter { has_key: true }));
    assert!(!has_api_key(ProviderKey::OpenRouter { has_key: false }));
    assert!(has_api_key(ProviderKey::OpenAI { has_key: true }));
    assert!(!has_api_key(ProviderKey::OpenAI { has_key: false }));
    assert!(!has_api_key(ProviderKey::LlamaCpp { has_key: false }));
    assert!(has_api_key(ProviderKey::Anthropic));
    assert!(has_api_key(ProviderKey::Ollama));
}

#[test]
fn tokens_come_from_flag_then_environment_then_file() {
    assert_eq!(resolve_token(Some("f"), Some("e"), Some("t")).as_deref(), Some("f"));
    assert_eq!(resolve_token(Some("  "), Some("e"), Some("t")).as_deref(), Some("e"));
    assert_eq!(resolve_token(None, Some(""), Some("t")).as_deref(), Some("t"));
    assert_eq!(resolve_token(None, None, Some("\n")), None);
    assert_eq!(explicit_token(Some(" s ")).as_deref(), Some("s"));
    assert_eq!(explicit_token(None), None);
}

#[test]
fn no_network_without_a_token() {
    assert_eq!(check_bind("127.0.0.1:7823", true, false), Ok(()));
    assert_eq!(check_bind("0.0.0.0:7823", false, true), Ok(()));
    assert_eq!(
        check_bind("0.0.0.0:7823", false, false),
        Err("refusing to bind the web UI to non-loopback 0.0.0.0:7823 without a token — set --token, PEAKBOT_WEB_TOKEN, or write <config_dir>/web-token".to_string())
    );
}

#[test]
fn missing_configuration_is_explained() {
    let text = config_not_found_message(
        "/home/u/.config/peakbot/config.yaml",
        "openai/gpt-4o",
        "gpt4o",
    );
    let lines: Vec<&str> = text.lines().collect();
    assert_eq!(lines[0], "");
    assert_eq!(lines[2], "║                    ⚠️  Config not found!                        ║");
    assert!(lines.contains(&"  /home/u/.config/peakbot/config.yaml"));
    assert!(lines.contains(&"      api_key: sk-or-v1-your-key-here"));
    assert!(lines.contains(&"        - name: openai/gpt-4o"));
    assert!(lines.contains(&"          alias: gpt4o"));
    assert!(lines.contains(&"  default_model: gpt4o"));
    assert!(lines.contains(&"so the setup wizard cannot open a browser here."));
    assert_eq!(lines.len(), 40);
    assert!(text.ends_with("a TUI configurator is future work.\n\n"));
}

#[test]
fn installation_report() {
    let mut outcome = InstallOutcome {
        target: "/t".to_string(),
        source: "/s".to_string(),
        action: InstallAction::Installed,
        notes: vec![],
    };
    assert_eq!(
        render_install_result(&outcome, &PathState::OnPath),
        "Target: /t\nSource: /s\nAction: installed\nPATH: on PATH\n"
    );
    outcome.action = InstallAction::Replaced;
    outcome.notes = vec!["a".to_string(), "b".to_string()];
    assert_eq!(
        render_install_result(&outcome, &PathState::Shadowed { by: "/x".to_string() }),
        "Target: /t\nSource: /s\nAction: replaced\nPATH: shadowed by /x\nNotes:\n  - a\n  - b\n"
    );
    outcome.action = InstallAction::AlreadyCurrent;
    outcome.notes = vec![];
    assert_eq!(
        render_install_result(&outcome, &PathState::NotOnPath { hint: "add it".to_string() }),
        "Target: /t\nSource: /s\nAction: already_current\nPATH: not on PATH — add it\n"
    );
}

#[test]
fn service_report() {
    let report = ServiceReport {
        manager: "systemd".to_string(),
        name: "peakbot".to_string(),
        artifact: Some("/u/peakbot.service".to_string()),
        installed: true,
        exe: None,
        run_state: "running".to_string(),
        survives_logout: false,
        commands: vec!["systemctl --user daemon-reload".to_string()],
        notes: vec![uninstall_note("/c/web-token")],
    };
    assert_eq!(
        render_service_report(&report),
        "Manager:   systemd\nName:      peakbot\nArtifact:  /u/peakbot.service\nInstalled: true\nState:     running\nSurvives logout: false\nCommands:\n  $ systemctl --user daemon-reload\nNotes:\n  - the web-token file at /c/web-token was NOT deleted; remove it by hand if you want to drop the secret.\n"
    );
}
