//! How MCP servers are connected.

use vstd::prelude::*;
use crate::mcp_auth::OauthParams;
use crate::table;
use crate::table::{StringMap, TextMap};
use crate::text;

verus! {

/// How a server is reached.
#[derive(Debug, PartialEq, Eq, Structural, Copy, Clone)]
pub enum McpTransportType {
    /// A local process that speaks over its standard streams.
    Stdio,
    /// The old event-stream transport.
    Sse,
    /// The HTTP transport.
    StreamableHttp,
}

/// How a server wants to be authorised.
#[derive(Debug, PartialEq)]
pub enum ResolvedAuth {
    Bearer { token: String },
    Oauth { client_id: Option<String>, client_secret: Option<String>, scopes: Vec<String> },
}

/// A configured server.
#[derive(Debug, PartialEq)]
pub struct McpServerConfig {
    pub name: String,
    pub enabled: bool,
    pub transport: McpTransportType,
    pub command: Option<String>,
    pub args: Option<Vec<String>>,
    pub env: Option<TextMap>,
    pub url: Option<String>,
    pub headers: Option<TextMap>,
    pub auth: Option<ResolvedAuth>,
}

/// Why a server is not connected.
#[derive(Debug, PartialEq)]
pub enum McpConnectError {
    InvalidConfig(String),
    MissingCommand,
    MissingUrl,
    Spawn(String),
    Connect(String),
    NoServerInfo,
    Auth { server: String, error: String },
}

impl McpConnectError {
    /// The message for the error.
    pub open spec fn text(self) -> Seq<char> {
        match self {
            McpConnectError::InvalidConfig(e) => "Invalid MCP server config: "@ + e@,
            McpConnectError::MissingCommand => "stdio transport requires 'command'"@,
            McpConnectError::MissingUrl => "HTTP transport requires 'url'"@,
            McpConnectError::Spawn(e) => "Failed to create child process: "@ + e@,
            McpConnectError::Connect(e) => "Failed to connect to MCP server: "@ + e@,
            McpConnectError::NoServerInfo => "Can't get MCP info"@,
            McpConnectError::Auth { server, error } => "MCP server '"@ + server@ + "': "@ + error@,
        }
    }

    /// The message for the error.
    pub fn message(&self) -> (r: String)
        ensures
            r@ == self.text(),
    {
        match self {
            McpConnectError::InvalidConfig(e) => {
                let mut m = "Invalid MCP server config: ".to_owned();
                m.append(e.as_str());
                m
            },
            McpConnectError::MissingCommand => "stdio transport requires 'command'".to_owned(),
            McpConnectError::MissingUrl => "HTTP transport requires 'url'".to_owned(),
            McpConnectError::Spawn(e) => {
                let mut m = "Failed to create child process: ".to_owned();
                m.append(e.as_str());
                m
            },
            McpConnectError::Connect(e) => {
                let mut m = "Failed to connect to MCP server: ".to_owned();
                m.append(e.as_str());
                m
            },
            McpConnectError::NoServerInfo => "Can't get MCP info".to_owned(),
            McpConnectError::Auth { server, error } => {
                let mut m = "MCP server '".to_owned();
                m.append(server.as_str());
                m.append("': ");
                m.append(error.as_str());
                m
            },
        }
    }
}

// ---------------------------------------------------------------------------
// Headers
// ---------------------------------------------------------------------------

/// The characters of an HTTP token.
pub open spec fn is_token_char(c: char) -> bool {
    ||| 'a' <= c <= 'z'
    ||| 'A' <= c <= 'Z'
    ||| '0' <= c <= '9'
    ||| c == '!'
    ||| c == '#'
    ||| c == '$'
    ||| c == '%'
    ||| c == '&'
    ||| c == '\''
    ||| c == '*'
    ||| c == '+'
    ||| c == '-'
    ||| c == '.'
    ||| c == '^'
    ||| c == '_'
    ||| c == '`'
    ||| c == '|'
    ||| c == '~'
}

/// Whether `s` is the name of an HTTP header: a token of at most 65535
/// characters.
pub open spec fn is_header_name(s: Seq<char>) -> bool {
    0 < s.len() <= 65535 && forall|i: int| 0 <= i < s.len() ==> is_token_char(#[trigger] s[i])
}

/// Whether `s` is the value of an HTTP header: no control character but the tab.
pub open spec fn is_header_value(s: Seq<char>) -> bool {
    forall|i: int|
        0 <= i < s.len() ==> (#[trigger] s[i] as u32) >= 32 && (s[i] as u32) != 127 || s[i] == '\t'
}

/// `http::HeaderName::try_from`: accepts tokens of at most 65535 characters and
/// turns their ASCII capitals into small letters.
#[verifier::external_body]
fn header_name(s: &str) -> (r: Option<String>)
    ensures
        r is Some <==> is_header_name(s@),
        r matches Some(n) ==> n@ == text::ascii_lowercase(s@),
{
    http::HeaderName::try_from(s).ok().map(|n| n.as_str().to_owned())
}

/// `http::HeaderValue::try_from`: accepts any text without control characters
/// other than the tab.
#[verifier::external_body]
fn header_value_ok(s: &str) -> (r: bool)
    ensures
        r == is_header_value(s@),
{
    http::HeaderValue::try_from(s).is_ok()
}

/// Whether a configured header can be sent.
pub open spec fn header_ok(e: (Seq<char>, String)) -> bool {
    is_header_name(e.0) && is_header_value(e.1@)
}

/// The headers to send: those that can be sent, by their names in small letters.
/// Of two headers with one name, the later counts.
pub open spec fn accepted_headers(h: Seq<(Seq<char>, String)>) -> Seq<(Seq<char>, String)>
    decreases h.len(),
{
    if h.len() == 0 {
        Seq::empty()
    } else {
        let before = accepted_headers(h.drop_last());
        if header_ok(h.last()) {
            table::stored(before, text::ascii_lowercase(h.last().0), h.last().1)
        } else {
            before
        }
    }
}

/// The warning for a header that cannot be sent.
pub open spec fn header_warning(server: Seq<char>, e: (Seq<char>, String)) -> Seq<char> {
    "MCP server '"@ + server + "': skipping invalid header '"@ + e.0 + ": "@ + e.1@ + "'"@
}

/// The warnings for the headers that cannot be sent.
pub open spec fn header_warnings(server: Seq<char>, h: Seq<(Seq<char>, String)>) -> Seq<Seq<char>>
    decreases h.len(),
{
    if h.len() == 0 {
        Seq::empty()
    } else {
        let before = header_warnings(server, h.drop_last());
        if header_ok(h.last()) {
            before
        } else {
            before.push(header_warning(server, h.last()))
        }
    }
}

/// The entries of headers that may be missing.
pub open spec fn header_entries(h: Option<TextMap>) -> Seq<(Seq<char>, String)> {
    match h {
        Some(m) => m@,
        None => Seq::empty(),
    }
}

fn accept_headers(server: &str, headers: &TextMap) -> (r: (TextMap, Vec<String>))
    ensures
        r.0@ == accepted_headers(headers@),
        text::strs(r.1@) == header_warnings(server@, headers@),
{
    let mut accepted: TextMap = StringMap::new();
    let mut warnings: Vec<String> = Vec::new();
    let n: usize = headers.len();
    let mut i: usize = 0;
    assert(headers@.take(0) =~= Seq::<(Seq<char>, String)>::empty());
    assert(text::strs(warnings@) =~= Seq::<Seq<char>>::empty());
    while i < n
        invariant
            n == headers@.len(),
            i <= n,
            accepted@ == accepted_headers(headers@.take(i as int)),
            text::strs(warnings@) == header_warnings(server@, headers@.take(i as int)),
        decreases n - i,
    {
        let ghost before = warnings@;
        assert(headers@.take(i + 1).drop_last() =~= headers@.take(i as int));
        assert(headers@.take(i + 1).last() == headers@[i as int]);
        let k = headers.name_at(i);
        let v = headers.value_at(i);
        let name: Option<String> = header_name(k.as_str());
        let fits = header_value_ok(v.as_str());
        match name {
            Some(name) if fits => {
                accepted.insert(name, v.clone());
            },
            _ => {
                let mut w = "MCP server '".to_owned();
                w.append(server);
                w.append("': skipping invalid header '");
                w.append(k.as_str());
                w.append(": ");
                w.append(v.as_str());
                w.append("'");
                let ghost x = w@;
                warnings.push(w);
                assert(text::strs(warnings@) =~= text::strs(before).push(x));
            },
        }
        i += 1;
    }
    assert(headers@.take(n as int) =~= headers@);
    (accepted, warnings)
}

/// A header that cannot be sent is never sent, and each gets its warning.
pub proof fn law_headers_accounted_for(server: Seq<char>, h: Seq<(Seq<char>, String)>)
    ensures
        accepted_headers(h).len() + header_warnings(server, h).len() <= h.len(),
        (forall|i: int| 0 <= i < h.len() ==> header_ok(#[trigger] h[i])) ==> header_warnings(
            server,
            h,
        ).len() == 0,
    decreases h.len(),
{
    if h.len() > 0 {
        law_headers_accounted_for(server, h.drop_last());
        lemma_stored_len(
            accepted_headers(h.drop_last()),
            text::ascii_lowercase(h.last().0),
            h.last().1,
        );
        if forall|i: int| 0 <= i < h.len() ==> header_ok(#[trigger] h[i]) {
            assert(header_ok(h[h.len() - 1]));
            assert forall|i: int| 0 <= i < h.drop_last().len() implies header_ok(
                #[trigger] h.drop_last()[i],
            ) by {
                assert(h.drop_last()[i] == h[i]);
            }
        }
    }
}

proof fn lemma_stored_len(s: Seq<(Seq<char>, String)>, key: Seq<char>, value: String)
    ensures
        table::stored(s, key, value).len() <= s.len() + 1,
    decreases s.len(),
{
    if s.len() > 0 {
        lemma_stored_len(s.drop_first(), key, value);
    }
}

// ---------------------------------------------------------------------------
// Plans
// ---------------------------------------------------------------------------

/// How requests to a server are authorised.
#[derive(Debug, PartialEq)]
pub enum HttpAuth {
    Open,
    Bearer(String),
    Oauth(OauthParams),
}

/// How to reach a server.
#[derive(Debug, PartialEq)]
pub enum ConnectPlan {
    Stdio { command: String, args: Vec<String>, env: TextMap },
    Http {
        url: String,
        auth: HttpAuth,
        headers: TextMap,
        /// What to warn the user of.
        warnings: Vec<String>,
    },
}

/// Whether `a` is how `auth` authorises requests.
pub open spec fn auth_planned(auth: Option<ResolvedAuth>, a: HttpAuth) -> bool {
    match auth {
        None => a is Open,
        Some(ResolvedAuth::Bearer { token }) => a == HttpAuth::Bearer(token),
        Some(ResolvedAuth::Oauth { client_id, client_secret, scopes }) => a matches HttpAuth::Oauth(
            p,
        ) && p.client_id == client_id && p.client_secret == client_secret && p.scopes@ == scopes@,
    }
}

/// The warning for the old transport.
pub open spec fn sse_warning(server: Seq<char>) -> Seq<char> {
    "MCP server '"@ + server
        + "': transport_type 'sse' is deprecated; routing through streamable-http. Set 'type: streamable-http' in your config to silence this warning."@
}

/// The warning for the transport, where there is one.
pub open spec fn transport_warnings(c: McpServerConfig) -> Seq<Seq<char>> {
    if c.transport == McpTransportType::Sse {
        seq![sse_warning(c.name@)]
    } else {
        Seq::empty()
    }
}

/// Whether `p` is the plan for a server. `deprecated` are the warnings for what is
/// out of date in its configuration: they stand between those for the transport
/// and those for the headers.
pub open spec fn planned(c: McpServerConfig, deprecated: Seq<Seq<char>>, p: ConnectPlan) -> bool {
    match p {
        ConnectPlan::Stdio { command, args, env } => {
            &&& c.transport == McpTransportType::Stdio
            &&& c.command == Some(command)
            &&& args@ == (match c.args {
                Some(a) => a@,
                None => Seq::empty(),
            })
            &&& env@ == header_entries(c.env)
        },
        ConnectPlan::Http { url, auth, headers, warnings } => {
            &&& c.transport != McpTransportType::Stdio
            &&& c.url == Some(url)
            &&& auth_planned(c.auth, auth)
            &&& headers@ == accepted_headers(header_entries(c.headers))
            &&& text::strs(warnings@) == transport_warnings(c) + deprecated + header_warnings(
                c.name@,
                header_entries(c.headers),
            )
        },
    }
}

/// Plans how to reach a server. `invalid` is what a check of the configuration
/// found, where it found anything, `deprecated` what it warns of: a server that is
/// reached over HTTP passes these warnings on. A stdio server needs a command, any
/// other a URL.
pub fn plan_connection(
    config: &McpServerConfig,
    invalid: Option<&str>,
    deprecated: &[String],
) -> (r: Result<ConnectPlan, McpConnectError>)
    ensures
        match invalid {
            Some(e) => r matches Err(McpConnectError::InvalidConfig(m)) && m@ == e@,
            None => if config.transport == McpTransportType::Stdio {
                match config.command {
                    Some(_) => r matches Ok(p) && planned(*config, text::strs(deprecated@), p),
                    None => r matches Err(McpConnectError::MissingCommand),
                }
            } else {
                match config.url {
                    Some(_) => r matches Ok(p) && planned(*config, text::strs(deprecated@), p),
                    None => r matches Err(McpConnectError::MissingUrl),
                }
            },
        },
{
    if let Some(e) = invalid {
        return Err(McpConnectError::InvalidConfig(e.to_owned()));
    }
    if config.transport == McpTransportType::Stdio {
        let command: String = match &config.command {
            Some(c) => c.clone(),
            None => {
                return Err(McpConnectError::MissingCommand);
            },
        };
        let args: Vec<String> = match &config.args {
            Some(a) => text::copy_strings(a),
            None => Vec::new(),
        };
        let env: TextMap = match &config.env {
            Some(e) => e.copy(),
            None => StringMap::new(),
        };
        return Ok(ConnectPlan::Stdio { command, args, env });
    }
    let url: String = match &config.url {
        Some(u) => u.clone(),
        None => {
            return Err(McpConnectError::MissingUrl);
        },
    };
    let auth: HttpAuth = match &config.auth {
        None => HttpAuth::Open,
        Some(ResolvedAuth::Bearer { token }) => HttpAuth::Bearer(token.clone()),
        Some(ResolvedAuth::Oauth { client_id, client_secret, scopes }) => HttpAuth::Oauth(
            OauthParams {
                client_id: text::copy_option(client_id),
                client_secret: text::copy_option(client_secret),
                scopes: text::copy_strings(scopes),
            },
        ),
    };
    let (headers, header_warnings): (TextMap, Vec<String>) = match &config.headers {
        Some(h) => accept_headers(config.name.as_str(), h),
        None => {
            let none: Vec<String> = Vec::new();
            assert(text::strs(none@) =~= Seq::<Seq<char>>::empty());
            (StringMap::new(), none)
        },
    };
    let mut warnings: Vec<String> = Vec::new();
    assert(text::strs(warnings@) =~= Seq::<Seq<char>>::empty());
    if config.transport == McpTransportType::Sse {
        let mut w = "MCP server '".to_owned();
        w.append(config.name.as_str());
        w.append(
            "': transport_type 'sse' is deprecated; routing through streamable-http. Set 'type: streamable-http' in your config to silence this warning.",
        );
        let ghost x = w@;
        warnings.push(w);
        assert(text::strs(warnings@) =~= seq![x]);
    }
    let ghost first = warnings@;
    let ghost last = header_warnings@;
    let mut out_of_date = text::copy_strings(deprecated);
    warnings.append(&mut out_of_date);
    let mut rest = header_warnings;
    warnings.append(&mut rest);
    assert(text::strs(warnings@) =~= text::strs(first) + text::strs(deprecated@) + text::strs(last));
    Ok(ConnectPlan::Http { url, auth, headers, warnings })
}

/// The servers among the first `n` that are turned on.
pub open spec fn enabled_upto(servers: Seq<McpServerConfig>, n: nat) -> Seq<int>
    decreases n,
{
    if n == 0 {
        Seq::empty()
    } else {
        let before = enabled_upto(servers, (n - 1) as nat);
        if servers[n - 1].enabled {
            before.push(n - 1)
        } else {
            before
        }
    }
}

/// The servers to connect, in the order in which they are configured: those that
/// are turned on.
pub fn servers_to_connect(servers: &[McpServerConfig]) -> (r: Vec<usize>)
    ensures
        crate::order::positions(r@) == enabled_upto(servers@, servers@.len()),
        forall|i: int| 0 <= i < r@.len() ==> (#[trigger] r@[i]) < servers@.len(),
{
    let mut r: Vec<usize> = Vec::new();
    let mut i: usize = 0;
    assert(crate::order::positions(r@) =~= enabled_upto(servers@, 0));
    while i < servers.len()
        invariant
            i <= servers@.len(),
            crate::order::positions(r@) == enabled_upto(servers@, i as nat),
            forall|j: int| 0 <= j < r@.len() ==> (#[trigger] r@[j]) < servers@.len(),
        decreases servers@.len() - i,
    {
        let ghost before = r@;
        if servers[i].enabled {
            r.push(i);
            assert(crate::order::positions(r@) =~= crate::order::positions(before).push(i as int));
        }
        i += 1;
    }
    r
}

/// Under each name, in small letters, the value of the last configured header of that
/// name that can be sent is sent; and no other header is.
pub proof fn law_last_header_of_a_name_is_sent(h: Seq<(Seq<char>, String)>, name: Seq<char>, i: int)
    ensures
        0 <= i < h.len() && is_header_name(h[i].0) && is_header_value(h[i].1@)
            && text::ascii_lowercase(h[i].0) == name && (forall|j: int|
            i < j < h.len() && is_header_name((#[trigger] h[j]).0) && is_header_value(h[j].1@)
                ==> text::ascii_lowercase(h[j].0) != name) ==> table::lookup(
            accepted_headers(h),
            name,
        ) == Some(h[i].1),
        (forall|j: int|
            0 <= j < h.len() && is_header_name((#[trigger] h[j]).0) && is_header_value(h[j].1@)
                ==> text::ascii_lowercase(h[j].0) != name) ==> table::lookup(
            accepted_headers(h),
            name,
        ) is None,
    decreases h.len(),
{
    if h.len() > 0 {
        let d = h.drop_last();
        let e = h.last();
        law_last_header_of_a_name_is_sent(d, name, i);
        assert forall|j: int| 0 <= j < d.len() implies d[j] == #[trigger] h[j] by {}
        table::law_lookup_after_stored(
            accepted_headers(d),
            text::ascii_lowercase(e.0),
            e.1,
            name,
        );
        assert(h[h.len() - 1] == e);
    }
}

/// No name is sent twice.
pub proof fn law_no_header_is_sent_twice(h: Seq<(Seq<char>, String)>)
    ensures
        forall|k: int, l: int|
            0 <= k < l < accepted_headers(h).len() ==> (#[trigger] accepted_headers(h)[k]).0 != (
            #[trigger] accepted_headers(h)[l]).0,
    decreases h.len(),
{
    if h.len() > 0 {
        let d = h.drop_last();
        law_no_header_is_sent_twice(d);
        if header_ok(h.last()) {
            let s = accepted_headers(d);
            let key = text::ascii_lowercase(h.last().0);
            let r = table::stored(s, key, h.last().1);
            table::law_stored_keeps_the_others(s, key, h.last().1);
            assert forall|k: int, l: int| 0 <= k < l < r.len() implies (#[trigger] r[k]).0 != (
            #[trigger] r[l]).0 by {
                assert(r[k].0 == s[k].0);
                if l < s.len() {
                    assert(r[l].0 == s[l].0);
                } else {
                    if exists|i: int| 0 <= i < s.len() && (#[trigger] s[i]).0 == key {
                        assert(r.len() == s.len());
                    }
                    assert(r == s.push((key, h.last().1)));
                    assert(s[k].0 != key);
                }
            }
        }
    }
}

/// A plan sends, for every configured header that can be sent, under its name in small
/// letters, the value of the last configured header of that name; and it sends no other
/// header, and none twice. `h` are the configured headers.
pub proof fn law_plan_sends_the_configured_headers(
    c: McpServerConfig,
    deprecated: Seq<Seq<char>>,
    p: ConnectPlan,
    h: Seq<(Seq<char>, String)>,
    i: int,
)
    requires
        planned(c, deprecated, p),
        p is Http,
        c.headers matches Some(m) ==> h == m@,
        c.headers is None ==> h.len() == 0,
    ensures
        ({
            let sent = p->headers@;
            &&& c.headers is None ==> sent.len() == 0
            &&& 0 <= i < h.len() && is_header_name(h[i].0) && is_header_value(h[i].1@) && (forall|
                j: int,
            |
                i < j < h.len() && is_header_name((#[trigger] h[j]).0) && is_header_value(h[j].1@)
                    ==> text::ascii_lowercase(h[j].0) != text::ascii_lowercase(h[i].0))
                ==> table::lookup(sent, text::ascii_lowercase(h[i].0)) == Some(h[i].1)
            &&& 0 <= i < sent.len() ==> exists|j: int|
                0 <= j < h.len() && is_header_name((#[trigger] h[j]).0) && is_header_value(h[j].1@)
                    && sent[i].0 == text::ascii_lowercase(h[j].0)
            &&& forall|k: int, l: int|
                0 <= k < l < sent.len() ==> (#[trigger] sent[k]).0 != (#[trigger] sent[l]).0
        }),
{
    assert(h =~= header_entries(c.headers));
    let sent = accepted_headers(h);
    law_no_header_is_sent_twice(h);
    if 0 <= i < h.len() {
        law_last_header_of_a_name_is_sent(h, text::ascii_lowercase(h[i].0), i);
    }
    if 0 <= i < sent.len() {
        law_last_header_of_a_name_is_sent(h, sent[i].0, 0);
        table::lemma_lookup(sent, sent[i].0);
        assert(table::names(sent)[i] == sent[i].0);
        assert(table::lookup(sent, sent[i].0) is Some);
    }
}

/// There is one warning for each configured header that cannot be sent, which names the
/// server and the header, in the order of the headers; and none for the others.
pub proof fn law_unsendable_headers_are_warned_of(
    server: Seq<char>,
    h: Seq<(Seq<char>, String)>,
) -> (at: Seq<int>)
    ensures
        at.len() == header_warnings(server, h).len(),
        forall|k: int|
            0 <= k < at.len() ==> 0 <= #[trigger] at[k] < h.len() && !(is_header_name(h[at[k]].0)
                && is_header_value(h[at[k]].1@)) && header_warnings(server, h)[k]
                == "MCP server '"@ + server + "': skipping invalid header '"@ + h[at[k]].0 + ": "@
                + h[at[k]].1@ + "'"@,
        forall|k: int, l: int| 0 <= k < l < at.len() ==> #[trigger] at[k] < #[trigger] at[l],
        forall|j: int|
            0 <= j < h.len() && !(is_header_name((#[trigger] h[j]).0) && is_header_value(h[j].1@))
                ==> at.contains(j),
    decreases h.len(),
{
    if h.len() == 0 {
        Seq::empty()
    } else {
        let d = h.drop_last();
        let n = h.len() - 1;
        let a = law_unsendable_headers_are_warned_of(server, d);
        let r = if header_ok(h.last()) {
            a
        } else {
            a.push(n)
        };
        assert forall|j: int|
            0 <= j < h.len() && !(is_header_name((#[trigger] h[j]).0) && is_header_value(
                h[j].1@,
            )) implies r.contains(j) by {
            if j == n {
                assert(r[a.len() as int] == n);
            } else {
                assert(d[j] == h[j]);
                let k = choose|k: int| 0 <= k < a.len() && a[k] == j;
                assert(r[k] == j);
            }
        }
        r
    }
}

/// A plan reaches the server as configured: a process with its command, its arguments and
/// its environment, or a URL with its authorisation. The warnings are that for the old
/// transport, those handed in, and those for the headers, in this order.
pub proof fn law_plan_is_as_configured(
    c: McpServerConfig,
    deprecated: Seq<Seq<char>>,
    p: ConnectPlan,
)
    requires
        planned(c, deprecated, p),
    ensures
        p is Stdio <==> c.transport == McpTransportType::Stdio,
        p matches ConnectPlan::Stdio { command, args, env } ==> {
            &&& c.command is Some && command == c.command->0
            &&& c.args is Some ==> args@ == c.args->0@
            &&& c.args is None ==> args@.len() == 0
            &&& c.env is Some ==> env@ == c.env->0@
            &&& c.env is None ==> env@.len() == 0
        },
        p matches ConnectPlan::Http { url, auth, warnings, .. } ==> {
            let old: int = if c.transport == McpTransportType::Sse {
                1
            } else {
                0
            };
            let n = header_warnings(c.name@, header_entries(c.headers)).len();
            &&& c.url is Some && url == c.url->0
            &&& auth is Open <==> c.auth is None
            &&& c.auth matches Some(ResolvedAuth::Bearer { token }) ==> auth == HttpAuth::Bearer(
                token,
            )
            &&& c.auth matches Some(ResolvedAuth::Oauth { client_id, client_secret, scopes }) ==> (
            auth matches HttpAuth::Oauth(o) && o.client_id == client_id && o.client_secret
                == client_secret && o.scopes@ == scopes@)
            &&& warnings@.len() == old + deprecated.len() + n
            &&& old == 1 ==> warnings@[0]@ == sse_warning(c.name@)
            &&& forall|i: int|
                0 <= i < deprecated.len() ==> warnings@[old + i]@ == #[trigger] deprecated[i]
            &&& forall|i: int|
                0 <= i < n ==> warnings@[old + deprecated.len() + i]@
                    == #[trigger] header_warnings(c.name@, header_entries(c.headers))[i]
        },
{
    if let ConnectPlan::Http { warnings, .. } = p {
        let all = text::strs(warnings@);
        let old: int = transport_warnings(c).len() as int;
        let own = header_warnings(c.name@, header_entries(c.headers));
        assert(all.len() == warnings@.len());
        if old == 1 {
            assert(all[0] == warnings@[0]@);
        }
        assert forall|i: int| 0 <= i < deprecated.len() implies warnings@[old + i]@
            == #[trigger] deprecated[i] by {
            assert(all[old + i] == deprecated[i]);
        }
        assert forall|i: int| 0 <= i < own.len() implies warnings@[old + deprecated.len() + i]@
            == #[trigger] own[i] by {
            assert(all[old + deprecated.len() + i] == own[i]);
        }
    }
}

/// Every server that is turned on is connected, once and in the order of the
/// configuration; no other is.
pub proof fn law_enabled_servers_are_connected(servers: Seq<McpServerConfig>, n: nat)
    requires
        n <= servers.len(),
    ensures
        forall|k: int|
            0 <= k < enabled_upto(servers, n).len() ==> 0 <= #[trigger] enabled_upto(servers, n)[k]
                < n && servers[enabled_upto(servers, n)[k]].enabled,
        forall|k: int, l: int|
            0 <= k < l < enabled_upto(servers, n).len() ==> #[trigger] enabled_upto(servers, n)[k]
                < #[trigger] enabled_upto(servers, n)[l],
        forall|i: int|
            0 <= i < n && (#[trigger] servers[i]).enabled ==> enabled_upto(servers, n).contains(i),
    decreases n,
{
    if n > 0 {
        let before = enabled_upto(servers, (n - 1) as nat);
        law_enabled_servers_are_connected(servers, (n - 1) as nat);
        let r = enabled_upto(servers, n);
        assert forall|i: int| 0 <= i < n && (#[trigger] servers[i]).enabled implies r.contains(
            i,
        ) by {
            if i == n - 1 {
                assert(r[before.len() as int] == i);
            } else {
                let k = choose|k: int| 0 <= k < before.len() && before[k] == i;
                assert(r[k] == i);
            }
        }
    }
}

/// The message for a server that is not connected says all that is known: the error, and
/// for an authorisation the server.
pub proof fn law_connection_errors_name_their_cause(e: McpConnectError) -> (r: (
    Seq<char>,
    Seq<char>,
))
    ensures
        e matches McpConnectError::InvalidConfig(m) ==> e.text() == r.0 + m@,
        e matches McpConnectError::Spawn(m) ==> e.text() == r.0 + m@,
        e matches McpConnectError::Connect(m) ==> e.text() == r.0 + m@,
        e matches McpConnectError::Auth { server, error } ==> e.text() == r.0 + server@ + r.1
            + error@,
{
    match e {
        McpConnectError::InvalidConfig(_) => ("Invalid MCP server config: "@, Seq::empty()),
        McpConnectError::Spawn(_) => ("Failed to create child process: "@, Seq::empty()),
        McpConnectError::Connect(_) => ("Failed to connect to MCP server: "@, Seq::empty()),
        McpConnectError::Auth { .. } => ("MCP server '"@, "': "@),
        _ => (Seq::empty(), Seq::empty()),
    }
}

/// The warning for the old transport names the server.
pub proof fn law_old_transport_names_the_server(server: Seq<char>, other: Seq<char>)
    requires
        server != other,
    ensures
        sse_warning(server) != sse_warning(other),
{
    text::lemma_middle_differs(
        "MCP server '"@,
        server,
        other,
        "': transport_type 'sse' is deprecated; routing through streamable-http. Set 'type: streamable-http' in your config to silence this warning."@,
    );
}

/// What is configured is read as it stands, and as nothing where it is missing.
pub proof fn law_missing_entries_are_none(m: TextMap)
    ensures
        header_entries(Some(m)) == m@,
        header_entries(None).len() == 0,
{
}

} // verus!
