//! OAuth for MCP servers: where tokens are kept, what the browser is asked, and
//! the order in which the flow's steps come.

use vstd::prelude::*;
use vstd::utf8::*;
use crate::text;

verus! {

// ---------------------------------------------------------------------------
// The callback
// ---------------------------------------------------------------------------

/// What the browser's redirect brings.
#[derive(Debug, PartialEq)]
pub struct AuthCallback {
    pub code: String,
    pub state: String,
}

/// What the callback listener answers.
#[derive(Debug, PartialEq)]
pub enum CallbackAnswer {
    /// The state does not match: refuse.
    Reject { status: u16, body: &'static str },
    /// The first match: show the page and hand the callback on.
    Deliver { page: &'static str, callback: AuthCallback },
    /// A further match: show the page, nothing is handed on.
    Acknowledge { page: &'static str },
}

/// What the refusal says.
pub const MISMATCH_BODY: &'static str =
    "CSRF state mismatch — authorisation rejected. Please try again.";

/// The page that ends the browser's part.
pub const DONE_PAGE: &'static str =
    "<html><body style=\"font-family:system-ui;padding:2rem;\"><h1>Authorisation complete</h1><p>PeakBot has received the callback. You may close this tab.</p></body></html>";

/// The guard in front of the callback: it lets one callback with the right state
/// through.
#[derive(Debug, PartialEq)]
pub struct CallbackGate {
    pub expected_state: String,
    pub delivered: bool,
}

impl CallbackGate {
    /// A guard that waits for its callback.
    pub fn new(expected_state: String) -> (r: Self)
        ensures
            r.expected_state == expected_state,
            !r.delivered,
    {
        CallbackGate { expected_state, delivered: false }
    }

    /// Answers a request to the callback.
    pub fn receive(&mut self, callback: AuthCallback) -> (r: CallbackAnswer)
        ensures
            final(self).expected_state == old(self).expected_state,
            callback.state@ != old(self).expected_state@ ==> final(self).delivered == old(
                self,
            ).delivered && r == (CallbackAnswer::Reject { status: 400, body: MISMATCH_BODY }),
            callback.state@ == old(self).expected_state@ ==> final(self).delivered && r == (if old(
                self,
            ).delivered {
                CallbackAnswer::Acknowledge { page: DONE_PAGE }
            } else {
                CallbackAnswer::Deliver { page: DONE_PAGE, callback }
            }),
    {
        if !text::same(callback.state.as_str(), self.expected_state.as_str()) {
            return CallbackAnswer::Reject { status: 400, body: MISMATCH_BODY };
        }
        if self.delivered {
            CallbackAnswer::Acknowledge { page: DONE_PAGE }
        } else {
            self.delivered = true;
            CallbackAnswer::Deliver { page: DONE_PAGE, callback }
        }
    }
}

// ---------------------------------------------------------------------------
// The credential cache
// ---------------------------------------------------------------------------

/// Where the tokens of one server are kept.
#[derive(Debug, PartialEq)]
pub struct FilesystemCredentialStore {
    path: String,
}

impl View for FilesystemCredentialStore {
    type V = Seq<char>;

    closed spec fn view(&self) -> Seq<char> {
        self.path@
    }
}

/// The digit for `d` below eight.
pub open spec fn octal(n: nat) -> Seq<char>
    decreases n,
{
    if n < 8 {
        seq![text::digit(n)]
    } else {
        octal(n / 8).push(text::digit(n % 8))
    }
}

fn octal_text(n: u32) -> (r: String)
    ensures
        r@ == octal(n as nat),
    decreases n,
{
    let d: u8 = (48 + n % 8) as u8;
    if n < 8 {
        let mut r = String::new();
        r.push(d as char);
        assert(r@ =~= octal(n as nat));
        r
    } else {
        let mut r = octal_text(n / 8);
        r.push(d as char);
        r
    }
}

/// Whether a file with this mode is open to the group or to others.
pub open spec fn is_loose(mode: u32) -> bool {
    (mode & 0o777) & 0o077 != 0
}

/// The refusal of a cache that others can read.
pub open spec fn loose_message(path: Seq<char>, mode: u32) -> Seq<char> {
    "Credential cache "@ + path + " has mode "@ + octal((mode & 0o777) as nat)
        + " but must be 0600. Refusing to load a world-readable token cache. Delete the file or secure it with: chmod 600 "@
        + path
}

/// What can go wrong with the cache file.
#[derive(Debug, PartialEq)]
pub enum CacheFault {
    Stat,
    Read,
    Parse,
    Write,
    Delete,
}

impl FilesystemCredentialStore {
    /// A store at a given path.
    pub fn at_path(path: String) -> (r: Self)
        ensures
            r@ == path@,
    {
        FilesystemCredentialStore { path }
    }

    /// The path of the file.
    pub fn path(&self) -> (r: &String)
        ensures
            r@ == self@,
    {
        &self.path
    }

    /// Checks the file's mode before it is read. Tokens are long-lived, so a file
    /// that others may touch is refused.
    pub fn check_mode(&self, mode: u32) -> (r: Result<(), String>)
        ensures
            match r {
                Ok(_) => !is_loose(mode),
                Err(m) => is_loose(mode) && m@ == loose_message(self@, mode),
            },
    {
        let own: u32 = mode & 0o777;
        if own & 0o077 != 0 {
            let mut m = "Credential cache ".to_owned();
            m.append(self.path.as_str());
            m.append(" has mode ");
            m.append(octal_text(own).as_str());
            m.append(
                " but must be 0600. Refusing to load a world-readable token cache. Delete the file or secure it with: chmod 600 ",
            );
            m.append(self.path.as_str());
            Err(m)
        } else {
            Ok(())
        }
    }

    /// The message for a fault of the cache file.
    pub fn fault_message(&self, fault: &CacheFault, error: &str) -> (r: String)
        ensures
            r@ == (match fault {
                CacheFault::Stat => "Cannot stat credential cache "@,
                CacheFault::Read => "Cannot read credential cache "@,
                CacheFault::Parse => "Cannot parse credential cache "@,
                CacheFault::Write => "Cannot write credential cache "@,
                CacheFault::Delete => "Cannot delete credential cache "@,
            }) + self@ + ": "@ + error@,
    {
        let mut m: String = match fault {
            CacheFault::Stat => "Cannot stat credential cache ".to_owned(),
            CacheFault::Read => "Cannot read credential cache ".to_owned(),
            CacheFault::Parse => "Cannot parse credential cache ".to_owned(),
            CacheFault::Write => "Cannot write credential cache ".to_owned(),
            CacheFault::Delete => "Cannot delete credential cache ".to_owned(),
        };
        m.append(self.path.as_str());
        m.append(": ");
        m.append(error);
        m
    }
}

/// The mode that a saved file gets passes the check of a later load, and any
/// mode that others have a bit of does not.
pub proof fn law_saved_cache_loads(mode: u32)
    ensures
        !is_loose(0o600),
        mode & 0o077 != 0 ==> is_loose(mode),
{
    assert((0o600u32 & 0o777u32) & 0o077u32 == 0) by (bit_vector);
    assert((mode & 0o777) & 0o077 == mode & 0o077) by (bit_vector);
}

/// The name of the file that keeps a server's tokens.
pub fn credential_file_name(server_name: &str) -> (r: String)
    ensures
        r@ == server_name@ + ".json"@,
{
    let mut s = server_name.to_owned();
    s.append(".json");
    s
}

// ---------------------------------------------------------------------------
// The state in the authorisation URL
// ---------------------------------------------------------------------------

/// The value of a hexadecimal digit.
pub open spec fn hex_value(b: u8) -> Option<u8> {
    if 48 <= b <= 57 {
        Some((b - 48) as u8)
    } else if 97 <= b <= 102 {
        Some((b - 87) as u8)
    } else if 65 <= b <= 70 {
        Some((b - 55) as u8)
    } else {
        None
    }
}

/// The byte that two characters behind a percent sign denote: two hexadecimal
/// digits, or a plus sign and one.
pub open spec fn hex_pair(x: u8, y: u8) -> Option<u8> {
    match (hex_value(x), hex_value(y)) {
        (Some(a), Some(b)) => Some((a * 16 + b) as u8),
        (None, Some(b)) => if x == 43 {
            Some(b)
        } else {
            None
        },
        _ => None,
    }
}

/// The text that percent-encoded bytes denote: `%XX` is the byte it names, a
/// plus sign is a space, any other byte is itself.
pub open spec fn percent_decoded(b: Seq<u8>) -> Seq<char>
    decreases b.len(),
{
    if b.len() == 0 {
        Seq::empty()
    } else if b[0] == 37 && b.len() > 2 && hex_pair(b[1], b[2]) is Some {
        seq![hex_pair(b[1], b[2])->0 as char] + percent_decoded(b.skip(3))
    } else {
        seq![
            if b[0] == 43 {
                ' '
            } else {
                b[0] as char
            },
        ] + percent_decoded(b.skip(1))
    }
}

fn hex_digit(b: u8) -> (r: Option<u8>)
    ensures
        r == hex_value(b),
{
    if 48 <= b && b <= 57 {
        Some(b - 48)
    } else if 97 <= b && b <= 102 {
        Some(b - 87)
    } else if 65 <= b && b <= 70 {
        Some(b - 55)
    } else {
        None
    }
}

fn hex_byte(x: u8, y: u8) -> (r: Option<u8>)
    ensures
        r == hex_pair(x, y),
{
    match (hex_digit(x), hex_digit(y)) {
        (Some(a), Some(b)) => Some(a * 16 + b),
        (None, Some(b)) => if x == 43 {
            Some(b)
        } else {
            None
        },
        _ => None,
    }
}

/// Decodes percent-encoded text.
pub fn percent_decode(s: &str) -> (r: String)
    ensures
        r@ == percent_decoded(encode_utf8(s@)),
{
    let bytes = s.as_bytes();
    let ghost b = bytes@;
    let mut out = String::new();
    let mut i: usize = 0;
    assert(b.skip(0) =~= b);
    while i < bytes.len()
        invariant
            b == bytes@,
            i <= b.len(),
            out@ + percent_decoded(b.skip(i as int)) == percent_decoded(b),
        decreases b.len() - i,
    {
        let ghost rest = b.skip(i as int);
        assert(rest[0] == b[i as int]);
        let ghost before = out@;
        if bytes[i] == 37 && bytes.len() - i > 2 {
            assert(rest[1] == b[i + 1]);
            assert(rest[2] == b[i + 2]);
            if let Some(byte) = hex_byte(bytes[i + 1], bytes[i + 2]) {
                out.push(byte as char);
                assert(rest.skip(3) =~= b.skip(i + 3));
                assert(out@ + percent_decoded(b.skip(i + 3)) =~= before + (seq![byte as char]
                    + percent_decoded(b.skip(i + 3))));
                i += 3;
                continue;
            }
        }
        let c: char = if bytes[i] == 43 {
            ' '
        } else {
            bytes[i] as char
        };
        out.push(c);
        assert(rest.skip(1) =~= b.skip(i + 1));
        assert(out@ + percent_decoded(b.skip(i + 1)) =~= before + (seq![c] + percent_decoded(
            b.skip(i + 1),
        )));
        i += 1;
    }
    assert(b.skip(b.len() as int) =~= Seq::<u8>::empty());
    assert(out@ + Seq::<char>::empty() =~= out@);
    out
}

/// Plain ASCII text without a percent or plus sign decodes to itself.
pub proof fn law_plain_text_decodes_to_itself(s: Seq<char>)
    requires
        text::all_ascii(s),
        forall|i: int| 0 <= i < s.len() ==> (#[trigger] s[i]) != '%' && s[i] != '+',
    ensures
        percent_decoded(encode_utf8(s)) == s,
    decreases s.len(),
{
    if s.len() > 0 {
        let t = s.drop_first();
        assert forall|i: int| 0 <= i < t.len() implies (#[trigger] t[i]) != '%' && t[i] != '+'
            && (t[i] as u32) < 128 by {
            assert(t[i] == s[i + 1]);
        }
        law_plain_text_decodes_to_itself(t);
        let b = encode_utf8(s);
        let u = s[0] as u32;
        assert(u < 128);
        assert(encode_scalar(u) =~= seq![leading_byte_width_1(u)]);
        assert(leading_byte_width_1(u) == u as u8) by {
            assert((u & 0x7f) as u8 == u as u8) by (bit_vector)
                requires
                    u < 128,
            ;
        }
        assert(b[0] == u as u8);
        assert(b.skip(1) =~= encode_utf8(t));
        assert((u as u8) as u32 == u);
        char_u32_cast(s[0], u);
        assert(u as char == s[0]);
        assert(s =~= seq![s[0]] + t);
    } else {
        assert(s =~= Seq::<char>::empty());
    }
}

proof fn lemma_split_rest_shorter(s: Seq<char>, c: char)
    ensures
        text::split_first(s, c).1 matches Some(r) ==> r.len() < s.len(),
    decreases s.len(),
{
    if s.len() > 0 && s[0] != c {
        lemma_split_rest_shorter(s.drop_first(), c);
    }
}

/// The value of the first `state` parameter of a query.
pub open spec fn state_value(query: Seq<char>) -> Option<Seq<char>>
    decreases query.len(),
    via state_value_decreases
{
    let (pair, rest) = text::split_first(query, '&');
    let (key, value) = text::split_first(pair, '=');
    if value is Some && key == "state"@ {
        value
    } else {
        match rest {
            Some(q) => state_value(q),
            None => None,
        }
    }
}

#[via_fn]
proof fn state_value_decreases(query: Seq<char>) {
    lemma_split_rest_shorter(query, '&');
}

/// The query of a URL: what follows the first question mark, or all of it where
/// there is none.
pub open spec fn query_of(url: Seq<char>) -> Seq<char> {
    match text::split_first(url, '?').1 {
        Some(q) => q,
        None => url,
    }
}

/// The decoded `state` parameter of a URL.
pub open spec fn state_param(url: Seq<char>) -> Option<Seq<char>> {
    match state_value(query_of(url)) {
        Some(v) => Some(percent_decoded(encode_utf8(v))),
        None => None,
    }
}

/// Reads the `state` parameter of an authorisation URL.
pub fn extract_state_param(url: &str) -> (r: Option<String>)
    ensures
        text::opt(r) == state_param(url@),
{
    let (_, q) = text::split_text(url, '?');
    let mut query: String = match q {
        Some(q) => q,
        None => url.to_owned(),
    };
    loop
        invariant
            state_value(query@) == state_value(query_of(url@)),
        decreases query@.len(),
    {
        let (pair, rest) = text::split_text(query.as_str(), '&');
        let (key, value) = text::split_text(pair.as_str(), '=');
        proof {
            lemma_split_rest_shorter(query@, '&');
        }
        if let Some(v) = &value {
            if text::same(key.as_str(), "state") {
                return Some(percent_decode(v.as_str()));
            }
        }
        match rest {
            Some(q) => {
                query = q;
            },
            None => {
                return None;
            },
        }
    }
}

// ---------------------------------------------------------------------------
// The browser
// ---------------------------------------------------------------------------

/// What is printed where the session runs over SSH.
pub fn ssh_notice(url: &str, server_name: &str) -> (r: String)
    ensures
        r@ == "\nMCP server '"@ + server_name@
            + "': you appear to be on SSH.\nThe OAuth callback listener is on this host's loopback, so a browser opened automatically would land on the wrong machine.\n\nOpen this URL to authorise (and set up `ssh -L <port>:127.0.0.1:<port>` if you're authorising from elsewhere):\n\n→ "@
            + url@ + "\n"@,
{
    let mut s = "\nMCP server '".to_owned();
    s.append(server_name);
    s.append(
        "': you appear to be on SSH.\nThe OAuth callback listener is on this host's loopback, so a browser opened automatically would land on the wrong machine.\n\nOpen this URL to authorise (and set up `ssh -L <port>:127.0.0.1:<port>` if you're authorising from elsewhere):\n\n→ ",
    );
    s.append(url);
    s.append("\n");
    s
}

/// What is printed where the browser does not open.
pub fn manual_notice(url: &str, server_name: &str) -> (r: String)
    ensures
        r@ == "\nMCP server '"@ + server_name@
            + "': could not open browser automatically.\nOpen this URL manually to authorise:\n\n→ "@
            + url@ + "\n"@,
{
    let mut s = "\nMCP server '".to_owned();
    s.append(server_name);
    s.append(
        "': could not open browser automatically.\nOpen this URL manually to authorise:\n\n→ ",
    );
    s.append(url);
    s.append("\n");
    s
}

// ---------------------------------------------------------------------------
// The flow
// ---------------------------------------------------------------------------

/// A server's OAuth settings. With a client id the client is configured from
/// them; without one it is registered with the server. The scopes go, as they
/// stand, into the client and into the URL that asks for the user's consent.
#[derive(Debug, PartialEq)]
pub struct OauthParams {
    pub client_id: Option<String>,
    pub client_secret: Option<String>,
    pub scopes: Vec<String>,
}

/// Why an authorisation fails.
#[derive(Debug, PartialEq)]
pub enum AuthorizationError {
    /// The OAuth library failed; its own text.
    Rmcp(String),
    NoCacheDir,
    BrowserTimeout(String),
    Internal(String),
}

impl AuthorizationError {
    /// The message for the error.
    pub open spec fn text(self) -> Seq<char> {
        match self {
            AuthorizationError::Rmcp(e) => "OAuth: "@ + e@,
            AuthorizationError::NoCacheDir =>
                "OAuth: cannot locate a cache directory on this platform. Set $XDG_CACHE_HOME (Linux) or %LOCALAPPDATA% (Windows) to a writable path."@,
            AuthorizationError::BrowserTimeout(m) => m@,
            AuthorizationError::Internal(m) => "OAuth internal error: "@ + m@,
        }
    }

    /// The message for the error.
    pub fn message(&self) -> (r: String)
        ensures
            r@ == self.text(),
    {
        match self {
            AuthorizationError::Rmcp(e) => {
                let mut m = "OAuth: ".to_owned();
                m.append(e.as_str());
                m
            },
            AuthorizationError::NoCacheDir => {
                "OAuth: cannot locate a cache directory on this platform. Set $XDG_CACHE_HOME (Linux) or %LOCALAPPDATA% (Windows) to a writable path.".to_owned()
            },
            AuthorizationError::BrowserTimeout(m) => m.clone(),
            AuthorizationError::Internal(e) => {
                let mut m = "OAuth internal error: ".to_owned();
                m.append(e.as_str());
                m
            },
        }
    }
}

/// What the flow asks for next.
#[derive(Debug, PartialEq)]
pub enum AuthAction {
    /// Load the stored token.
    LoadStored,
    /// Discover the server's metadata.
    Discover,
    /// Bind the callback listener to a free port of the loopback interface.
    Bind,
    /// Configure the client from the user's settings.
    Configure {
        client_id: String,
        client_secret: Option<String>,
        redirect_uri: String,
        scopes: Vec<String>,
    },
    /// Register a client with the server.
    Register { client_name: String, redirect_uri: String, scopes: Vec<String> },
    /// Build the URL that the user visits.
    BuildUrl { scopes: Vec<String> },
    /// Serve the callback, guarded by this state, and send the user to the URL.
    Serve { expected_state: String, url: String },
    /// Exchange the code for a token.
    Exchange { code: String, state: String },
    /// Done: use the client.
    Finish,
    /// Give up.
    Fail(AuthorizationError),
}

/// Where the flow stands: the action that it waits for.
#[derive(Debug, PartialEq, Eq, Structural, Copy, Clone)]
pub enum AuthPhase {
    Loading,
    Discovering,
    Binding,
    PreparingClient,
    BuildingUrl,
    Waiting,
    Exchanging,
    Ended,
}

/// How an action went.
#[derive(Debug, PartialEq)]
pub enum AuthEvent {
    /// There is no cache directory.
    NoCacheDir,
    /// Whether a stored token was found.
    Loaded { found: bool },
    /// The metadata is known.
    Discovered,
    /// The listener is bound to this address.
    Bound { addr: String },
    /// Binding failed; the message says how.
    BindFailed { message: String },
    /// The client is ready.
    ClientReady,
    /// This is the URL.
    UrlBuilt { url: String },
    /// The callback came.
    CalledBack(AuthCallback),
    /// The listener ended before the callback came.
    Cancelled,
    /// The token is stored.
    Exchanged,
    /// The OAuth library failed; its own text.
    LibraryFailed { message: String },
}

/// The action that prepares the client, for a listener at `addr`.
pub open spec fn prepares(a: AuthAction, params: OauthParams, addr: Seq<char>) -> bool {
    let uri = "http://"@ + addr + "/callback"@;
    match params.client_id {
        Some(id) => a matches AuthAction::Configure {
            client_id,
            client_secret,
            redirect_uri,
            scopes,
        } && client_id == id && client_secret == params.client_secret && redirect_uri@ == uri
            && text::strs(scopes@) == text::strs(params.scopes@),
        None => a matches AuthAction::Register { client_name, redirect_uri, scopes }
            && client_name@ == "peakbot"@ && redirect_uri@ == uri && text::strs(scopes@)
            == text::strs(params.scopes@),
    }
}

/// Whether `event` is one that the flow can meet where it stands.
pub open spec fn awaited(phase: AuthPhase, event: AuthEvent) -> bool {
    match event {
        AuthEvent::NoCacheDir => phase == AuthPhase::Loading,
        AuthEvent::Loaded { .. } => phase == AuthPhase::Loading,
        AuthEvent::Discovered => phase == AuthPhase::Discovering,
        AuthEvent::Bound { .. } => phase == AuthPhase::Binding,
        AuthEvent::BindFailed { .. } => phase == AuthPhase::Binding,
        AuthEvent::ClientReady => phase == AuthPhase::PreparingClient,
        AuthEvent::UrlBuilt { .. } => phase == AuthPhase::BuildingUrl,
        AuthEvent::CalledBack(_) => phase == AuthPhase::Waiting,
        AuthEvent::Cancelled => phase == AuthPhase::Waiting,
        AuthEvent::Exchanged => phase == AuthPhase::Exchanging,
        AuthEvent::LibraryFailed { .. } => phase != AuthPhase::Ended,
    }
}

/// Whether `next` and `action` follow on `event`.
pub open spec fn follows(
    phase: AuthPhase,
    server: Seq<char>,
    params: OauthParams,
    event: AuthEvent,
    next: AuthPhase,
    action: AuthAction,
) -> bool {
    match (phase, event) {
        (AuthPhase::Loading, AuthEvent::NoCacheDir) => next == AuthPhase::Ended && action == (
        AuthAction::Fail(AuthorizationError::NoCacheDir)),
        (AuthPhase::Loading, AuthEvent::Loaded { found }) => if found {
            next == AuthPhase::Ended && action is Finish
        } else {
            next == AuthPhase::Discovering && action is Discover
        },
        (AuthPhase::Discovering, AuthEvent::Discovered) => next == AuthPhase::Binding
            && action is Bind,
        (AuthPhase::Binding, AuthEvent::Bound { addr }) => next == AuthPhase::PreparingClient
            && prepares(action, params, addr@),
        (AuthPhase::Binding, AuthEvent::BindFailed { message }) => next == AuthPhase::Ended
            && action == AuthAction::Fail(AuthorizationError::Internal(message)),
        (AuthPhase::PreparingClient, AuthEvent::ClientReady) => next == AuthPhase::BuildingUrl
            && (action matches AuthAction::BuildUrl { scopes } && text::strs(scopes@)
            == text::strs(params.scopes@)),
        (AuthPhase::BuildingUrl, AuthEvent::UrlBuilt { url }) => match state_param(url@) {
            Some(s) => next == AuthPhase::Waiting && (action matches AuthAction::Serve {
                expected_state,
                url: u,
            } && expected_state@ == s && u == url),
            None => next == AuthPhase::Ended && (action matches AuthAction::Fail(
                AuthorizationError::Internal(m),
            ) && m@ == "OAuth: could not extract `state` from authorisation URL"@),
        },
        (AuthPhase::Waiting, AuthEvent::CalledBack(cb)) => next == AuthPhase::Exchanging && action
            == (AuthAction::Exchange { code: cb.code, state: cb.state }),
        (AuthPhase::Waiting, AuthEvent::Cancelled) => next == AuthPhase::Ended && (
        action matches AuthAction::Fail(AuthorizationError::BrowserTimeout(m)) && m@
            == "OAuth authorisation for '"@ + server
            + "' was cancelled before the browser callback arrived. Please retry."@),
        (AuthPhase::Exchanging, AuthEvent::Exchanged) => next == AuthPhase::Ended
            && action is Finish,
        (_, AuthEvent::LibraryFailed { message }) => next == AuthPhase::Ended && action
            == AuthAction::Fail(AuthorizationError::Rmcp(message)),
        _ => false,
    }
}

/// The first step of the flow.
pub fn begin_authorize() -> (r: (AuthPhase, AuthAction))
    ensures
        r.0 == AuthPhase::Loading,
        r.1 is LoadStored,
{
    (AuthPhase::Loading, AuthAction::LoadStored)
}

/// The step that follows on an event.
pub fn next_authorize(
    phase: AuthPhase,
    server_name: &str,
    params: &OauthParams,
    event: AuthEvent,
) -> (r: (AuthPhase, AuthAction))
    requires
        awaited(phase, event),
    ensures
        follows(phase, server_name@, *params, event, r.0, r.1),
{
    match (phase, event) {
        (AuthPhase::Loading, AuthEvent::NoCacheDir) => (
            AuthPhase::Ended,
            AuthAction::Fail(AuthorizationError::NoCacheDir),
        ),
        (AuthPhase::Loading, AuthEvent::Loaded { found }) => if found {
            (AuthPhase::Ended, AuthAction::Finish)
        } else {
            (AuthPhase::Discovering, AuthAction::Discover)
        },
        (AuthPhase::Discovering, AuthEvent::Discovered) => (AuthPhase::Binding, AuthAction::Bind),
        (AuthPhase::Binding, AuthEvent::Bound { addr }) => {
            let mut uri = "http://".to_owned();
            uri.append(addr.as_str());
            uri.append("/callback");
            let action: AuthAction = match &params.client_id {
                Some(id) => AuthAction::Configure {
                    client_id: id.clone(),
                    client_secret: text::copy_option(&params.client_secret),
                    redirect_uri: uri,
                    scopes: text::copy_strings(&params.scopes),
                },
                None => AuthAction::Register {
                    client_name: "peakbot".to_owned(),
                    redirect_uri: uri,
                    scopes: text::copy_strings(&params.scopes),
                },
            };
            (AuthPhase::PreparingClient, action)
        },
        (AuthPhase::Binding, AuthEvent::BindFailed { message }) => (
            AuthPhase::Ended,
            AuthAction::Fail(AuthorizationError::Internal(message)),
        ),
        (AuthPhase::PreparingClient, AuthEvent::ClientReady) => (
            AuthPhase::BuildingUrl,
            AuthAction::BuildUrl { scopes: text::copy_strings(&params.scopes) },
        ),
        (AuthPhase::BuildingUrl, AuthEvent::UrlBuilt { url }) => match extract_state_param(
            url.as_str(),
        ) {
            Some(expected_state) => (AuthPhase::Waiting, AuthAction::Serve { expected_state, url }),
            None => (
                AuthPhase::Ended,
                AuthAction::Fail(
                    AuthorizationError::Internal(
                        "OAuth: could not extract `state` from authorisation URL".to_owned(),
                    ),
                ),
            ),
        },
        (AuthPhase::Waiting, AuthEvent::CalledBack(cb)) => (
            AuthPhase::Exchanging,
            AuthAction::Exchange { code: cb.code, state: cb.state },
        ),
        (AuthPhase::Waiting, AuthEvent::Cancelled) => {
            let mut m = "OAuth authorisation for '".to_owned();
            m.append(server_name);
            m.append("' was cancelled before the browser callback arrived. Please retry.");
            (AuthPhase::Ended, AuthAction::Fail(AuthorizationError::BrowserTimeout(m)))
        },
        (AuthPhase::Exchanging, AuthEvent::Exchanged) => (AuthPhase::Ended, AuthAction::Finish),
        (_, AuthEvent::LibraryFailed { message }) => (
            AuthPhase::Ended,
            AuthAction::Fail(AuthorizationError::Rmcp(message)),
        ),
        _ => vstd::pervasive::unreached(),
    }
}

/// The client is prepared only once the listener is bound, and then for the very
/// address it is bound to: the redirect address is known before it is
/// registered.
pub proof fn law_port_before_client(
    phase: AuthPhase,
    server: Seq<char>,
    params: OauthParams,
    event: AuthEvent,
    next: AuthPhase,
    action: AuthAction,
)
    requires
        follows(phase, server, params, event, next, action),
        action is Configure || action is Register,
    ensures
        phase == AuthPhase::Binding,
        event matches AuthEvent::Bound { addr } && prepares(action, params, addr@),
        action is Register <==> params.client_id is None,
{
}

/// The scopes that an action asks for, where it asks for any.
pub open spec fn scopes_of(a: AuthAction) -> Option<Seq<Seq<char>>> {
    match a {
        AuthAction::Configure { scopes, .. } => Some(text::strs(scopes@)),
        AuthAction::Register { scopes, .. } => Some(text::strs(scopes@)),
        AuthAction::BuildUrl { scopes } => Some(text::strs(scopes@)),
        _ => None,
    }
}

/// The consent that the user is asked for is what was configured: the client and
/// the URL carry the same scopes, as they stand in the settings.
pub proof fn law_scopes_go_verbatim(
    phase: AuthPhase,
    server: Seq<char>,
    params: OauthParams,
    event: AuthEvent,
    next: AuthPhase,
    action: AuthAction,
)
    requires
        follows(phase, server, params, event, next, action),
    ensures
        scopes_of(action) matches Some(s) ==> s == text::strs(params.scopes@),
        action is Configure || action is Register || action is BuildUrl <==> scopes_of(
            action,
        ) is Some,
{
}

/// A stored token ends the flow at once: no browser, no listener.
pub proof fn law_stored_token_skips_browser(
    server: Seq<char>,
    params: OauthParams,
    next: AuthPhase,
    action: AuthAction,
)
    requires
        follows(
            AuthPhase::Loading,
            server,
            params,
            AuthEvent::Loaded { found: true },
            next,
            action,
        ),
    ensures
        action is Finish,
        next == AuthPhase::Ended,
{
}

/// Percent-encoded text is decoded byte by byte: two hexadecimal digits behind a percent
/// sign, small or capital, are the byte that they name; a plus sign is a space; and
/// every other byte stays.
pub proof fn law_percent_decoding(hi: nat, lo: nat, b: u8, rest: Seq<u8>)
    requires
        hi < 16,
        lo < 16,
    ensures
        ({
            let small = |d: nat|
                if d < 10 {
                    (48 + d) as u8
                } else {
                    (87 + d) as u8
                };
            let capital = |d: nat|
                if d < 10 {
                    (48 + d) as u8
                } else {
                    (55 + d) as u8
                };
            &&& percent_decoded(seq![37u8, small(hi), small(lo)] + rest) == seq![
                ((16 * hi + lo) as u8) as char,
            ] + percent_decoded(rest)
            &&& percent_decoded(seq![37u8, capital(hi), capital(lo)] + rest) == seq![
                ((16 * hi + lo) as u8) as char,
            ] + percent_decoded(rest)
        }),
        percent_decoded(seq![43u8] + rest) == seq![' '] + percent_decoded(rest),
        b != 37 && b != 43 ==> percent_decoded(seq![b] + rest) == seq![b as char] + percent_decoded(
            rest,
        ),
        percent_decoded(Seq::<u8>::empty()) == Seq::<char>::empty(),
{
    let small = |d: nat|
        if d < 10 {
            (48 + d) as u8
        } else {
            (87 + d) as u8
        };
    let capital = |d: nat|
        if d < 10 {
            (48 + d) as u8
        } else {
            (55 + d) as u8
        };
    let x = seq![37u8, small(hi), small(lo)] + rest;
    let y = seq![37u8, capital(hi), capital(lo)] + rest;
    assert(x.skip(3) =~= rest);
    assert(y.skip(3) =~= rest);
    assert(x[1] == small(hi) && x[2] == small(lo));
    assert(y[1] == capital(hi) && y[2] == capital(lo));
    assert(hex_pair(x[1], x[2]) == Some((16 * hi + lo) as u8));
    assert(hex_pair(y[1], y[2]) == Some((16 * hi + lo) as u8));
    assert((seq![43u8] + rest).skip(1) =~= rest);
    assert((seq![b] + rest).skip(1) =~= rest);
    assert((seq![b] + rest)[0] == b);
}

/// A percent sign that no two hexadecimal digits follow stays as it is.
pub proof fn law_stray_percent_stays(x: u8, y: u8, rest: Seq<u8>)
    requires
        !(48 <= y <= 57) && !(65 <= y <= 70) && !(97 <= y <= 102),
    ensures
        percent_decoded(seq![37u8, x, y] + rest) == seq!['%'] + percent_decoded(
            seq![x, y] + rest,
        ),
        percent_decoded(seq![37u8, x]) == seq!['%'] + percent_decoded(seq![x]),
        percent_decoded(seq![37u8]) == seq!['%'],
{
    let s = seq![37u8, x, y] + rest;
    assert(s.skip(1) =~= seq![x, y] + rest);
    assert(s[1] == x && s[2] == y);
    assert(seq![37u8, x].skip(1) =~= seq![x]);
    assert(seq![37u8].skip(1) =~= Seq::<u8>::empty());
    assert(37u8 as char == '%');
    assert(percent_decoded(Seq::<u8>::empty()) =~= Seq::<char>::empty());
    assert(percent_decoded(seq![37u8].skip(1)).len() == 0);
    assert(percent_decoded(seq![37u8]) =~= seq!['%']);
}

/// The value of the first parameter called `state` is read; parameters before it are
/// passed over; without one there is none.
pub proof fn law_state_is_read(pair: Seq<char>, value: Seq<char>, rest: Seq<char>)
    requires
        forall|i: int| 0 <= i < pair.len() ==> #[trigger] pair[i] != '&',
        forall|i: int| 0 <= i < value.len() ==> #[trigger] value[i] != '&',
    ensures
        state_value("state="@ + value) == Some(value),
        state_value(("state="@ + value).push('&') + rest) == Some(value),
        !text::starts_with(pair, "state="@) ==> state_value(pair) is None && state_value(
            pair.push('&') + rest,
        ) == state_value(rest),
{
    reveal_strlit("state=");
    reveal_strlit("state");
    let own = "state="@ + value;
    assert forall|i: int| 0 <= i < own.len() implies #[trigger] own[i] != '&' by {
        if i >= 6 {
            assert(own[i] == value[i - 6]);
        }
    }
    lemma_split_none(own, '&');
    lemma_split_some(own, rest, '&');
    assert(own =~= "state"@.push('=') + value);
    lemma_split_some("state"@, value, '=');
    lemma_split_none(pair, '&');
    lemma_split_some(pair, rest, '&');
    let (key, v) = text::split_first(pair, '=');
    text::law_split_first(pair, '=');
    if v is Some && key == "state"@ {
        assert(pair.take(6) =~= "state="@);
    }
}

proof fn lemma_split_none(s: Seq<char>, c: char)
    requires
        forall|i: int| 0 <= i < s.len() ==> #[trigger] s[i] != c,
    ensures
        text::split_first(s, c) == (s, None::<Seq<char>>),
    decreases s.len(),
{
    if s.len() > 0 {
        let d = s.drop_first();
        assert forall|i: int| 0 <= i < d.len() implies #[trigger] d[i] != c by {
            assert(d[i] == s[i + 1]);
        }
        lemma_split_none(d, c);
        assert(s[0] != c);
        assert(seq![s[0]] + d =~= s);
    }
}

proof fn lemma_split_some(s: Seq<char>, rest: Seq<char>, c: char)
    requires
        forall|i: int| 0 <= i < s.len() ==> #[trigger] s[i] != c,
    ensures
        text::split_first(s.push(c) + rest, c) == (s, Some(rest)),
    decreases s.len(),
{
    let t = s.push(c) + rest;
    if s.len() > 0 {
        let d = s.drop_first();
        assert forall|i: int| 0 <= i < d.len() implies #[trigger] d[i] != c by {
            assert(d[i] == s[i + 1]);
        }
        lemma_split_some(d, rest, c);
        assert(s[0] != c);
        assert(t[0] == s[0]);
        assert(t.drop_first() =~= d.push(c) + rest);
        assert(seq![s[0]] + d =~= s);
    } else {
        assert(t[0] == c);
        assert(t.drop_first() =~= rest);
    }
}

/// The state of a URL is that of its query, decoded: what stands in front of the first
/// question mark does not count.
pub proof fn law_state_of_a_url(base: Seq<char>, query: Seq<char>)
    requires
        forall|i: int| 0 <= i < base.len() ==> #[trigger] base[i] != '?',
    ensures
        query_of(base.push('?') + query) == query,
        query_of(base) == base,
        state_value(query) is None ==> state_param(base.push('?') + query) is None,
        state_value(query) matches Some(v) ==> state_param(base.push('?') + query) == Some(
            percent_decoded(encode_utf8(v)),
        ),
{
    lemma_split_some(base, query, '?');
    lemma_split_none(base, '?');
}

/// A state of plain letters comes back as it was sent.
pub proof fn law_plain_state_comes_back(base: Seq<char>, value: Seq<char>, rest: Seq<char>)
    requires
        forall|i: int| 0 <= i < base.len() ==> #[trigger] base[i] != '?',
        text::all_ascii(value),
        forall|i: int|
            0 <= i < value.len() ==> (#[trigger] value[i]) != '%' && value[i] != '+' && value[i]
                != '&',
    ensures
        state_param(base.push('?') + (("state="@ + value).push('&') + rest)) == Some(value),
        state_param(base.push('?') + ("state="@ + value)) == Some(value),
{
    law_state_is_read(Seq::empty(), value, rest);
    law_state_of_a_url(base, ("state="@ + value).push('&') + rest);
    law_state_of_a_url(base, "state="@ + value);
    law_plain_text_decodes_to_itself(value);
}

/// The flow ends exactly where it finishes or fails. It finishes exactly where a token is
/// stored: one that was found, or one that a code was exchanged for.
pub proof fn law_flow_ends_with_a_token_or_an_error(
    phase: AuthPhase,
    server: Seq<char>,
    params: OauthParams,
    event: AuthEvent,
    next: AuthPhase,
    action: AuthAction,
)
    requires
        follows(phase, server, params, event, next, action),
    ensures
        next == AuthPhase::Ended <==> action is Finish || action is Fail,
        action is Finish <==> event is Exchanged || (event matches AuthEvent::Loaded { found }
            && found),
        event is NoCacheDir ==> action == AuthAction::Fail(AuthorizationError::NoCacheDir),
        event matches AuthEvent::BindFailed { message } ==> action == AuthAction::Fail(
            AuthorizationError::Internal(message),
        ),
        event matches AuthEvent::LibraryFailed { message } ==> action == AuthAction::Fail(
            AuthorizationError::Rmcp(message),
        ),
        event is Cancelled ==> action is Fail && action->Fail_0 is BrowserTimeout,
{
}

/// The steps come in one order, each where the one before went well: discovery, the
/// listener, the client, the URL, the callback, the exchange. The callback is guarded by
/// the state of the very URL that the user is sent to, and the code that came with it is
/// exchanged.
pub proof fn law_flow_goes_step_by_step(
    phase: AuthPhase,
    server: Seq<char>,
    params: OauthParams,
    event: AuthEvent,
    next: AuthPhase,
    action: AuthAction,
)
    requires
        follows(phase, server, params, event, next, action),
    ensures
        action is Discover <==> (event matches AuthEvent::Loaded { found } && !found),
        action is Bind <==> event is Discovered,
        action is BuildUrl <==> event is ClientReady,
        action is Exchange <==> event is CalledBack,
        event matches AuthEvent::CalledBack(cb) ==> action->Exchange_code == cb.code
            && action->Exchange_state == cb.state,
        action is Serve ==> (event matches AuthEvent::UrlBuilt { url } && action->Serve_url == url
            && state_param(url@) == Some(action->expected_state@)),
        event matches AuthEvent::UrlBuilt { url } ==> (action is Serve <==> state_param(
            url@,
        ) is Some),
        event matches AuthEvent::Bound { addr } ==> (params.client_id matches Some(id) ==> {
            &&& action is Configure
            &&& action->client_id == id
            &&& action->client_secret == params.client_secret
            &&& action->Configure_redirect_uri@ == "http://"@ + addr@ + "/callback"@
        }),
        event matches AuthEvent::Bound { addr } ==> (params.client_id is None ==> {
            &&& action is Register
            &&& action->client_name@ == "peakbot"@
            &&& action->Register_redirect_uri@ == "http://"@ + addr@ + "/callback"@
        }),
        next == AuthPhase::Discovering <==> action is Discover,
        next == AuthPhase::Binding <==> action is Bind,
        next == AuthPhase::PreparingClient <==> action is Configure || action is Register,
        next == AuthPhase::BuildingUrl <==> action is BuildUrl,
        next == AuthPhase::Waiting <==> action is Serve,
        next == AuthPhase::Exchanging <==> action is Exchange,
{
}

/// A cache is refused exactly where the group or others have any right to it, and the
/// refusal names the file and its rights in octal digits.
pub proof fn law_shared_cache_is_refused(path: Seq<char>, mode: u32)
    ensures
        is_loose(mode) <==> mode & 0o077 != 0,
        text::starts_with(
            loose_message(path, mode),
            "Credential cache "@ + path + " has mode "@ + octal((mode & 0o777) as nat),
        ),
{
    assert((mode & 0o777) & 0o077 == mode & 0o077) by (bit_vector);
    let w = "Credential cache "@ + path + " has mode "@ + octal((mode & 0o777) as nat);
    assert(loose_message(path, mode).take(w.len() as int) =~= w);
}

/// The message for a failed authorisation carries the error's own text.
pub proof fn law_authorization_errors_carry_their_text(e: AuthorizationError) -> (head: Seq<char>)
    ensures
        e matches AuthorizationError::Rmcp(m) ==> e.text() == head + m@,
        e matches AuthorizationError::Internal(m) ==> e.text() == head + m@,
        e matches AuthorizationError::BrowserTimeout(m) ==> e.text() == m@,
{
    if e is Rmcp {
        "OAuth: "@
    } else {
        "OAuth internal error: "@
    }
}

/// A cancelled authorisation says for which server.
pub proof fn law_cancelled_authorization_names_the_server(
    server: Seq<char>,
    params: OauthParams,
    next: AuthPhase,
    action: AuthAction,
) -> (r: (Seq<char>, Seq<char>))
    requires
        follows(AuthPhase::Waiting, server, params, AuthEvent::Cancelled, next, action),
    ensures
        action is Fail,
        action->Fail_0 is BrowserTimeout,
        action->Fail_0->BrowserTimeout_0@ == r.0 + server + r.1,
{
    (
        "OAuth authorisation for '"@,
        "' was cancelled before the browser callback arrived. Please retry."@,
    )
}

/// Wherever the flow stands, the outcome of the step that it waits for is met, be it well or
/// not; once it has ended, nothing is.
pub proof fn law_every_step_can_go_on(phase: AuthPhase, m: String, cb: AuthCallback, found: bool)
    ensures
        awaited(phase, AuthEvent::LibraryFailed { message: m }) <==> phase != AuthPhase::Ended,
        awaited(phase, AuthEvent::NoCacheDir) <==> phase == AuthPhase::Loading,
        awaited(phase, AuthEvent::Loaded { found }) <==> phase == AuthPhase::Loading,
        awaited(phase, AuthEvent::Discovered) <==> phase == AuthPhase::Discovering,
        awaited(phase, AuthEvent::Bound { addr: m }) <==> phase == AuthPhase::Binding,
        awaited(phase, AuthEvent::BindFailed { message: m }) <==> phase == AuthPhase::Binding,
        awaited(phase, AuthEvent::ClientReady) <==> phase == AuthPhase::PreparingClient,
        awaited(phase, AuthEvent::UrlBuilt { url: m }) <==> phase == AuthPhase::BuildingUrl,
        awaited(phase, AuthEvent::CalledBack(cb)) <==> phase == AuthPhase::Waiting,
        awaited(phase, AuthEvent::Cancelled) <==> phase == AuthPhase::Waiting,
        awaited(phase, AuthEvent::Exchanged) <==> phase == AuthPhase::Exchanging,
{
}

/// The octal notation of a number is that of its eights with the last digit behind it.
pub proof fn law_octal_notation(eights: nat, d: nat)
    requires
        d < 8,
    ensures
        octal(d) == seq![((48 + d) as u8) as char],
        eights > 0 ==> octal(8 * eights + d) == octal(eights).push(((48 + d) as u8) as char),
{
}

} // verus!
