//! Reaching MCP servers.

use peakbot::mcp::{
    plan_connection, servers_to_connect, ConnectPlan, HttpAuth, McpConnectError, McpServerConfig,
    McpTransportType, ResolvedAuth,
};
use peakbot::mcp_auth::OauthParams;
use peakbot::table::TextMap;

fn vars(pairs: &[(&str, &str)]) -> TextMap {
    let mut m = TextMap::new();
    for (k, v) in pairs {
        m.insert(k.to_string(), v.to_string());
    }
    m
}

fn server(transport: McpTransportType) -> McpServerConfig {
    McpServerConfig {
        name: "srv".to_string(),
        enabled: true,
        transport,
        command: Some("npx".to_string()),
        args: None,
        env: None,
        url: Some("https://h/mcp".to_string()),
        headers: None,
        auth: None,
    }
}

#[test]
fn a_local_process_is_started_with_its_environment() {
    let mut c = server(McpTransportType::Stdio);
    c.args = Some(vec!["-y".to_string()]);
    c.env = Some(vars(&[("A", "1")]));
    assert_eq!(
        plan_connection(&c, None, &[]),
        Ok(ConnectPlan::Stdio {
            command: "npx".to_string(),
            args: vec!["-y".to_string()],
            env: vars(&[("A", "1")]),
        })
    );
}

#[test]
fn what_is_missing_is_said() {
    let mut c = server(McpTransportType::Stdio);
    c.command = None;
    assert_eq!(plan_connection(&c, None, &[]), Err(McpConnectError::MissingCommand));
    let mut h = server(McpTransportType::StreamableHttp);
    h.url = None;
    assert_eq!(plan_connection(&h, None, &[]), Err(McpConnectError::MissingUrl));
    assert_eq!(
        plan_connection(&h, Some("no url"), &[]),
        Err(McpConnectError::InvalidConfig("no url".to_string()))
    );
}

#[test]
fn headers_are_lowered_and_bad_ones_skipped() {
    let mut c = server(McpTransportType::StreamableHttp);
    c.headers = Some(vars(&[
        ("X-Key", "v"),
        ("bad name", "v"),
        ("X-Break", "a\nb"),
        ("x-KEY", "w"),
        ("", "v"),
    ]));
    match plan_connection(&c, None, &[]) {
        Ok(ConnectPlan::Http { url, auth, headers, warnings }) => {
            assert_eq!(url, "https://h/mcp");
            assert_eq!(auth, HttpAuth::Open);
            assert_eq!(headers, vars(&[("x-key", "w")]));
            assert_eq!(
                warnings,
                vec![
                    "MCP server 'srv': skipping invalid header 'bad name: v'",
                    "MCP server 'srv': skipping invalid header 'X-Break: a\nb'",
                    "MCP server 'srv': skipping invalid header ': v'",
                ]
            );
        }
        other => panic!("expected an HTTP plan, got {other:?}"),
    }
}

#[test]
fn the_old_transport_is_routed_with_a_warning() {
    let c = server(McpTransportType::Sse);
    match plan_connection(&c, None, &[]) {
        Ok(ConnectPlan::Http { warnings, .. }) => assert_eq!(
            warnings,
            vec!["MCP server 'srv': transport_type 'sse' is deprecated; routing through streamable-http. Set 'type: streamable-http' in your config to silence this warning."]
        ),
        other => panic!("expected an HTTP plan, got {other:?}"),
    }
}

#[test]
fn deprecations_stand_between_transport_and_headers() {
    let mut c = server(McpTransportType::Sse);
    c.headers = Some(vars(&[("bad name", "v")]));
    let old = vec!["auth_token is deprecated".to_string(), "another".to_string()];
    match plan_connection(&c, None, &old) {
        Ok(ConnectPlan::Http { warnings, .. }) => {
            assert_eq!(warnings.len(), 4);
            assert!(warnings[0].contains("'sse' is deprecated"));
            assert_eq!(warnings[1..3], old[..]);
            assert_eq!(warnings[3], "MCP server 'srv': skipping invalid header 'bad name: v'");
        }
        other => panic!("expected an HTTP plan, got {other:?}"),
    }
}

fn auth_of(auth: ResolvedAuth) -> HttpAuth {
    let mut c = server(McpTransportType::StreamableHttp);
    c.auth = Some(auth);
    match plan_connection(&c, None, &[]) {
        Ok(ConnectPlan::Http { auth, .. }) => auth,
        other => panic!("expected an HTTP plan, got {other:?}"),
    }
}

#[test]
fn authorisation_is_taken_over() {
    assert_eq!(
        auth_of(ResolvedAuth::Bearer { token: "t".to_string() }),
        HttpAuth::Bearer("t".to_string())
    );
    assert_eq!(
        auth_of(ResolvedAuth::Oauth {
            client_id: Some("id".to_string()),
            client_secret: None,
            scopes: vec!["read".to_string()],
        }),
        HttpAuth::Oauth(OauthParams {
            client_id: Some("id".to_string()),
            client_secret: None,
            scopes: vec!["read".to_string()],
        })
    );
}

#[test]
fn only_enabled_servers_are_connected() {
    let mut off = server(McpTransportType::Stdio);
    off.enabled = false;
    let list = vec![server(McpTransportType::Stdio), off, server(McpTransportType::Sse)];
    assert_eq!(servers_to_connect(&list), vec![0, 2]);
    assert_eq!(servers_to_connect(&[]), Vec::<usize>::new());
}

#[test]
fn connection_errors_have_their_words() {
    let e = "e".to_string();
    assert_eq!(
        McpConnectError::InvalidConfig(e.clone()).message(),
        "Invalid MCP server config: e"
    );
    assert_eq!(McpConnectError::MissingCommand.message(), "stdio transport requires 'command'");
    assert_eq!(McpConnectError::MissingUrl.message(), "HTTP transport requires 'url'");
    assert_eq!(McpConnectError::Spawn(e.clone()).message(), "Failed to create child process: e");
    assert_eq!(
        McpConnectError::Connect(e.clone()).message(),
        "Failed to connect to MCP server: e"
    );
    assert_eq!(McpConnectError::NoServerInfo.message(), "Can't get MCP info");
    assert_eq!(
        McpConnectError::Auth { server: "s".to_string(), error: e }.message(),
        "MCP server 's': e"
    );
}
