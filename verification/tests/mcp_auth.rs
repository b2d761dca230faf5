//! Authorising against an MCP server.

use peakbot::mcp_auth::{
    begin_authorize, credential_file_name, extract_state_param, manual_notice, next_authorize,
    percent_decode, ssh_notice, AuthAction, AuthCallback, AuthEvent, AuthPhase,
    AuthorizationError, CacheFault, CallbackAnswer, CallbackGate, FilesystemCredentialStore,
    OauthParams, DONE_PAGE, MISMATCH_BODY,
};

fn callback(code: &str, state: &str) -> AuthCallback {
    AuthCallback { code: code.to_string(), state: state.to_string() }
}

#[test]
fn filesystem_cred_store_writes_with_mode_0600() {
    let store = FilesystemCredentialStore::at_path("/cache/perms.json".to_string());
    assert_eq!(store.path(), "/cache/perms.json");
    assert_eq!(store.check_mode(0o600), Ok(()));
    assert_eq!(store.check_mode(0o100600), Ok(()), "only the permission bits count");
}

#[test]
fn filesystem_cred_store_rejects_world_readable_cache() {
    let store = FilesystemCredentialStore::at_path("/cache/loose.json".to_string());
    let msg = store.check_mode(0o644).expect_err("load must reject a world-readable cache");
    assert!(msg.contains("must be 0600"), "unexpected error: {msg}");
    assert!(msg.contains("chmod 600"), "expected remediation hint: {msg}");
    assert_eq!(
        msg,
        "Credential cache /cache/loose.json has mode 644 but must be 0600. Refusing to load a world-readable token cache. Delete the file or secure it with: chmod 600 /cache/loose.json"
    );
    assert!(store.check_mode(0o610).is_err());
    assert!(store.check_mode(0o604).is_err());
    assert!(store.check_mode(0o400).is_ok());
}

#[test]
fn faults_of_the_cache_name_the_file() {
    let store = FilesystemCredentialStore::at_path("/c.json".to_string());
    assert_eq!(store.fault_message(&CacheFault::Stat, "e"), "Cannot stat credential cache /c.json: e");
    assert_eq!(store.fault_message(&CacheFault::Read, "e"), "Cannot read credential cache /c.json: e");
    assert_eq!(
        store.fault_message(&CacheFault::Parse, "e"),
        "Cannot parse credential cache /c.json: e"
    );
    assert_eq!(
        store.fault_message(&CacheFault::Write, "e"),
        "Cannot write credential cache /c.json: e"
    );
    assert_eq!(
        store.fault_message(&CacheFault::Delete, "e"),
        "Cannot delete credential cache /c.json: e"
    );
    assert_eq!(credential_file_name("linear"), "linear.json");
}

#[test]
fn callback_router_extracts_code_and_state() {
    let mut gate = CallbackGate::new("EXPECTED-STATE".to_string());
    let first = gate.receive(callback("abc:def:ghi", "EXPECTED-STATE"));
    assert_eq!(
        first,
        CallbackAnswer::Deliver {
            page: DONE_PAGE,
            callback: callback("abc:def:ghi", "EXPECTED-STATE"),
        }
    );
    let second = gate.receive(callback("again", "EXPECTED-STATE"));
    assert_eq!(second, CallbackAnswer::Acknowledge { page: DONE_PAGE });
}

#[test]
fn callback_router_rejects_state_mismatch() {
    let mut gate = CallbackGate::new("EXPECTED".to_string());
    assert_eq!(
        gate.receive(callback("xxx", "WRONG")),
        CallbackAnswer::Reject { status: 400, body: MISMATCH_BODY }
    );
    assert!(!gate.delivered, "nothing is handed on");
    match gate.receive(callback("yyy", "EXPECTED")) {
        CallbackAnswer::Deliver { callback, .. } => assert_eq!(callback.code, "yyy"),
        other => panic!("the right callback must still pass, got {other:?}"),
    }
}

#[test]
fn extract_state_param_handles_percent_encoding() {
    let url = "https://example.com/auth?response_type=code&state=ab%3Acd&code_challenge=x";
    assert_eq!(extract_state_param(url).as_deref(), Some("ab:cd"));
}

#[test]
fn extract_state_param_returns_none_without_state() {
    let url = "https://example.com/auth?response_type=code";
    assert!(extract_state_param(url).is_none());
}

#[test]
fn extract_state_param_takes_the_first_state_alone() {
    assert_eq!(extract_state_param("http://h/?xstate=1&state=a&state=b").as_deref(), Some("a"));
    assert_eq!(extract_state_param("state=z").as_deref(), Some("z"));
    assert_eq!(extract_state_param("http://h/?state").as_deref(), None);
    assert_eq!(extract_state_param("http://h/?state=").as_deref(), Some(""));
    assert_eq!(extract_state_param("http://h/?state=a=b?c").as_deref(), Some("a=b?c"));
}

#[test]
fn percent_decode_handles_plus_and_hex() {
    assert_eq!(percent_decode("a%3Ab"), "a:b");
    assert_eq!(percent_decode("hello+world"), "hello world");
    assert_eq!(percent_decode("no-encoding"), "no-encoding");
    assert_eq!(percent_decode("oops%"), "oops%");
}

#[test]
fn percent_decode_leaves_bad_escapes_alone() {
    assert_eq!(percent_decode("%zz"), "%zz");
    assert_eq!(percent_decode("%4"), "%4");
    assert_eq!(percent_decode("%41"), "A");
    assert_eq!(percent_decode("%e9"), "é");
    assert_eq!(percent_decode(""), "");
}

#[test]
fn notices_show_the_url() {
    let ssh = ssh_notice("http://u", "linear");
    assert!(ssh.starts_with("\nMCP server 'linear': you appear to be on SSH.\n"));
    assert!(ssh.ends_with("\n\n→ http://u\n"));
    assert_eq!(
        manual_notice("http://u", "linear"),
        "\nMCP server 'linear': could not open browser automatically.\nOpen this URL manually to authorise:\n\n→ http://u\n"
    );
}

fn dynamic() -> OauthParams {
    OauthParams { client_id: None, client_secret: None, scopes: vec!["read".to_string()] }
}

#[test]
fn the_whole_flow_in_order() {
    let params = dynamic();
    let (phase, action) = begin_authorize();
    assert_eq!(action, AuthAction::LoadStored);
    let (phase, action) = next_authorize(phase, "s", &params, AuthEvent::Loaded { found: false });
    assert_eq!(action, AuthAction::Discover);
    let (phase, action) = next_authorize(phase, "s", &params, AuthEvent::Discovered);
    assert_eq!(action, AuthAction::Bind);
    let addr = "127.0.0.1:4711".to_string();
    let (phase, action) = next_authorize(phase, "s", &params, AuthEvent::Bound { addr });
    assert_eq!(
        action,
        AuthAction::Register {
            client_name: "peakbot".to_string(),
            redirect_uri: "http://127.0.0.1:4711/callback".to_string(),
            scopes: vec!["read".to_string()],
        }
    );
    let (phase, action) = next_authorize(phase, "s", &params, AuthEvent::ClientReady);
    assert_eq!(action, AuthAction::BuildUrl { scopes: vec!["read".to_string()] });
    let url = "http://a/?state=x%3Ay".to_string();
    let (phase, action) =
        next_authorize(phase, "s", &params, AuthEvent::UrlBuilt { url: url.clone() });
    assert_eq!(action, AuthAction::Serve { expected_state: "x:y".to_string(), url });
    let (phase, action) =
        next_authorize(phase, "s", &params, AuthEvent::CalledBack(callback("c", "x:y")));
    assert_eq!(action, AuthAction::Exchange { code: "c".to_string(), state: "x:y".to_string() });
    let (phase, action) = next_authorize(phase, "s", &params, AuthEvent::Exchanged);
    assert_eq!(action, AuthAction::Finish);
    assert_eq!(phase, AuthPhase::Ended);
}

#[test]
fn a_stored_token_ends_the_flow() {
    let (phase, _) = begin_authorize();
    assert_eq!(
        next_authorize(phase, "s", &dynamic(), AuthEvent::Loaded { found: true }),
        (AuthPhase::Ended, AuthAction::Finish)
    );
}

#[test]
fn known_clients_are_configured() {
    let params = OauthParams {
        client_id: Some("id".to_string()),
        client_secret: Some("word".to_string()),
        scopes: vec!["a".to_string(), "b".to_string()],
    };
    let bound = AuthEvent::Bound { addr: "127.0.0.1:1".to_string() };
    assert_eq!(
        next_authorize(AuthPhase::Binding, "s", &params, bound).1,
        AuthAction::Configure {
            client_id: "id".to_string(),
            client_secret: Some("word".to_string()),
            redirect_uri: "http://127.0.0.1:1/callback".to_string(),
            scopes: vec!["a".to_string(), "b".to_string()],
        }
    );
}

fn failure(phase: AuthPhase, event: AuthEvent) -> String {
    match next_authorize(phase, "linear", &dynamic(), event) {
        (AuthPhase::Ended, AuthAction::Fail(e)) => e.message(),
        other => panic!("expected a failure, got {other:?}"),
    }
}

#[test]
fn each_failure_has_its_words() {
    assert!(failure(AuthPhase::Loading, AuthEvent::NoCacheDir)
        .starts_with("OAuth: cannot locate a cache directory on this platform."));
    assert_eq!(
        failure(AuthPhase::Binding, AuthEvent::BindFailed { message: "cannot bind localhost: e".to_string() }),
        "OAuth internal error: cannot bind localhost: e"
    );
    assert_eq!(
        failure(AuthPhase::BuildingUrl, AuthEvent::UrlBuilt { url: "http://a/".to_string() }),
        "OAuth internal error: OAuth: could not extract `state` from authorisation URL"
    );
    assert_eq!(
        failure(AuthPhase::Waiting, AuthEvent::Cancelled),
        "OAuth authorisation for 'linear' was cancelled before the browser callback arrived. Please retry."
    );
    assert_eq!(
        failure(AuthPhase::Exchanging, AuthEvent::LibraryFailed { message: "e".to_string() }),
        "OAuth: e"
    );
    assert_eq!(AuthorizationError::BrowserTimeout("t".to_string()).message(), "t");
}
