//! How a client reaches an exec-server.
use vstd::prelude::*;
use crate::error::protocol_error;
use crate::error::ExecServerError;
use crate::text::chars::chars_of;
use crate::text::chars::is_text;
use crate::text::chars::push_text;
use crate::text::chars::string_of;
use crate::text::search::lemma_first_index;
use crate::text::split::law_every_separator_splits;
use crate::text::split::law_split_once_is_at_the_first_separator;
use crate::text::split::law_text_without_separator_is_one_piece;
use crate::text::split::pieces;
use crate::text::split::split;
use crate::text::split::split_at;
use crate::text::split::split_first;
use crate::text::split::split_once;

verus! {

/// The name under which environments connect.
pub const ENVIRONMENT_CLIENT_NAME: &'static str = "codex-environment";

/// A command that serves over its standard streams.
#[derive(Debug, Clone, PartialEq, Eq)]
pub struct StdioExecServerCommand {
    /// The program.
    pub program: String,
    /// Its arguments.
    pub args: Vec<String>,
    /// Its environment variables.
    pub env: Vec<(String, String)>,
    /// Its working directory.
    pub cwd: Option<String>,
}

/// Where an exec-server is to be had. Times are in milliseconds.
pub enum ExecServerTransportParams {
    /// At the address of a websocket.
    WebSocketUrl {
        /// The address.
        websocket_url: String,
        /// How long connecting may take.
        connect_timeout_ms: u64,
        /// How long the first exchange may take.
        initialize_timeout_ms: u64,
    },
    /// From a command.
    StdioCommand {
        /// The command.
        command: StdioExecServerCommand,
        /// How long the first exchange may take.
        initialize_timeout_ms: u64,
    },
}

/// A connection to make to a websocket.
pub struct RemoteExecServerConnectArgs {
    /// The address.
    pub websocket_url: String,
    /// The name of the client.
    pub client_name: String,
    /// How long connecting may take.
    pub connect_timeout_ms: u64,
    /// How long the first exchange may take.
    pub initialize_timeout_ms: u64,
    /// The session to resume.
    pub resume_session_id: Option<String>,
}

/// A connection to make to a command.
pub struct StdioExecServerConnectArgs {
    /// The command.
    pub command: StdioExecServerCommand,
    /// The name of the client.
    pub client_name: String,
    /// How long the first exchange may take.
    pub initialize_timeout_ms: u64,
    /// The session to resume.
    pub resume_session_id: Option<String>,
}

/// A connection to make.
pub enum ConnectPlan {
    /// To a websocket.
    WebSocket(RemoteExecServerConnectArgs),
    /// To a command.
    Stdio(StdioExecServerConnectArgs),
}

/// The connection to make for a transport: under the name of environments, and
/// resuming nothing.
pub fn connect_plan(transport_params: ExecServerTransportParams) -> (r: ConnectPlan)
    ensures
        match transport_params {
            ExecServerTransportParams::WebSocketUrl {
                websocket_url,
                connect_timeout_ms,
                initialize_timeout_ms,
            } => r matches ConnectPlan::WebSocket(a) && a.websocket_url == websocket_url
                && a.client_name@ == ENVIRONMENT_CLIENT_NAME@ && a.connect_timeout_ms
                == connect_timeout_ms && a.initialize_timeout_ms == initialize_timeout_ms
                && a.resume_session_id is None,
            ExecServerTransportParams::StdioCommand { command, initialize_timeout_ms } => r matches
                ConnectPlan::Stdio(a) && a.command == command && a.client_name@
                == ENVIRONMENT_CLIENT_NAME@ && a.initialize_timeout_ms == initialize_timeout_ms
                && a.resume_session_id is None,
        },
{
    match transport_params {
        ExecServerTransportParams::WebSocketUrl {
            websocket_url,
            connect_timeout_ms,
            initialize_timeout_ms,
        } => ConnectPlan::WebSocket(
            RemoteExecServerConnectArgs {
                websocket_url,
                client_name: ENVIRONMENT_CLIENT_NAME.to_owned(),
                connect_timeout_ms,
                initialize_timeout_ms,
                resume_session_id: None,
            },
        ),
        ExecServerTransportParams::StdioCommand { command, initialize_timeout_ms } =>
        ConnectPlan::Stdio(
            StdioExecServerConnectArgs {
                command,
                client_name: ENVIRONMENT_CLIENT_NAME.to_owned(),
                initialize_timeout_ms,
                resume_session_id: None,
            },
        ),
    }
}

/// Whether a query has the given value for the role of a harness.
pub open spec fn names_harness(pair: Seq<char>) -> bool {
    split_once(pair, '=') == Some(("role"@, "harness"@))
}

/// Whether an address leads to the harness side of a rendezvous: its query holds
/// the pair `role=harness`.
pub open spec fn leads_to_harness(websocket_url: Seq<char>) -> bool {
    split_once(websocket_url, '?') matches Some((_, query)) && exists|i: int|
        0 <= i < split(query, '&').len() && names_harness(#[trigger] split(query, '&')[i])
}

/// Whether an address leads to the harness side of a rendezvous.
pub fn is_rendezvous_harness_url(websocket_url: &str) -> (r: bool)
    ensures
        r == leads_to_harness(websocket_url@),
{
    let chars = chars_of(websocket_url);
    let query = match split_first(&chars, '?') {
        Some((_, query)) => query,
        None => {
            return false;
        },
    };
    let pairs = split_at(query, '&');
    let mut i: usize = 0;
    while i < pairs.len()
        invariant
            i <= pairs@.len(),
            split_once(websocket_url@, '?') matches Some((_, q)) && q == query@,
            pieces(pairs@) == split(query@, '&'),
            forall|j: int| 0 <= j < i ==> !names_harness(#[trigger] split(query@, '&')[j]),
        decreases pairs@.len() - i,
    {
        assert(pieces(pairs@)[i as int] == pairs@[i as int]@);
        if let Some((key, value)) = split_first(&pairs[i], '=') {
            if is_text(key, "role") && is_text(value, "harness") {
                assert(names_harness(split(query@, '&')[i as int]));
                return true;
            }
        }
        i += 1;
    }
    false
}

/// The label of a connection to a websocket.
pub fn websocket_label(websocket_url: &str) -> (r: String)
    ensures
        r@ == "exec-server websocket "@ + websocket_url@,
{
    let mut out = chars_of("exec-server websocket ");
    push_text(&mut out, websocket_url);
    string_of(&out)
}

/// The error of a websocket that did not open in time.
pub fn connect_timed_out(url: &str, timeout_ms: u64) -> (r: ExecServerError)
    ensures
        r matches ExecServerError::WebSocketConnectTimeout { url: u, timeout_ms: t } && u@ == url@
            && t == timeout_ms,
{
    ExecServerError::WebSocketConnectTimeout { url: url.to_owned(), timeout_ms }
}

/// The error of a websocket that did not open.
pub fn connect_failed(url: &str, source: &str) -> (r: ExecServerError)
    ensures
        r matches ExecServerError::WebSocketConnect { url: u, source: s } && u@ == url@ && s@
            == source@,
{
    ExecServerError::WebSocketConnect { url: url.to_owned(), source: source.to_owned() }
}

/// What a registry issues for one connection through a rendezvous.
pub struct NoiseRendezvousConnectBundle<K> {
    /// The address of the rendezvous.
    pub websocket_url: String,
    /// The environment.
    pub environment_id: String,
    /// The executor's registration.
    pub executor_registration_id: String,
    /// The executor's public key.
    pub executor_public_key: K,
    /// The authorization of the harness key.
    pub harness_key_authorization: String,
}

/// A connection to make through a rendezvous.
pub struct NoiseRendezvousConnectArgs<K, I> {
    /// What the registry issued.
    pub bundle: NoiseRendezvousConnectBundle<K>,
    /// The harness's own keys.
    pub harness_identity: I,
    /// The name of the client.
    pub client_name: String,
    /// How long connecting may take.
    pub connect_timeout_ms: u64,
    /// How long the first exchange may take.
    pub initialize_timeout_ms: u64,
    /// The session to resume.
    pub resume_session_id: Option<String>,
}

/// The connection to make through a rendezvous, with every issued value in it
/// once. What is shown of it, the label and the address in errors, is made of
/// the redacted address only.
pub struct NoiseConnectPlan<K, I> {
    /// The address to connect to.
    pub websocket_url: String,
    /// The address to show.
    pub diagnostic_url: String,
    /// The label of the connection.
    pub connection_label: String,
    /// How long connecting may take.
    pub connect_timeout_ms: u64,
    /// The environment.
    pub environment_id: String,
    /// The executor's registration.
    pub executor_registration_id: String,
    /// The executor's public key.
    pub executor_public_key: K,
    /// The harness's own keys.
    pub harness_identity: I,
    /// The authorization of the harness key.
    pub harness_key_authorization: String,
    /// The name of the client.
    pub client_name: String,
    /// How long the first exchange may take.
    pub initialize_timeout_ms: u64,
    /// The session to resume.
    pub resume_session_id: Option<String>,
}

/// Plans a connection through a rendezvous, whose redacted address is given.
pub fn noise_connect_plan<K, I>(args: NoiseRendezvousConnectArgs<K, I>, diagnostic_url: String) -> (r:
    NoiseConnectPlan<K, I>)
    ensures
        r.websocket_url == args.bundle.websocket_url,
        r.diagnostic_url == diagnostic_url,
        r.connection_label@ == "Noise exec-server rendezvous websocket "@ + diagnostic_url@,
        r.connect_timeout_ms == args.connect_timeout_ms,
        r.environment_id == args.bundle.environment_id,
        r.executor_registration_id == args.bundle.executor_registration_id,
        r.executor_public_key == args.bundle.executor_public_key,
        r.harness_identity == args.harness_identity,
        r.harness_key_authorization == args.bundle.harness_key_authorization,
        r.client_name == args.client_name,
        r.initialize_timeout_ms == args.initialize_timeout_ms,
        r.resume_session_id == args.resume_session_id,
{
    let mut label = chars_of("Noise exec-server rendezvous websocket ");
    push_text(&mut label, diagnostic_url.as_str());
    NoiseConnectPlan {
        websocket_url: args.bundle.websocket_url,
        diagnostic_url,
        connection_label: string_of(&label),
        connect_timeout_ms: args.connect_timeout_ms,
        environment_id: args.bundle.environment_id,
        executor_registration_id: args.bundle.executor_registration_id,
        executor_public_key: args.bundle.executor_public_key,
        harness_identity: args.harness_identity,
        harness_key_authorization: args.bundle.harness_key_authorization,
        client_name: args.client_name,
        initialize_timeout_ms: args.initialize_timeout_ms,
        resume_session_id: args.resume_session_id,
    }
}

impl<K, I> NoiseConnectPlan<K, I> {
    /// The error where the rendezvous was not reached in time.
    pub fn timed_out(&self) -> (r: ExecServerError)
        ensures
            r matches ExecServerError::WebSocketConnectTimeout { url, timeout_ms } && url@
                == self.diagnostic_url@ && timeout_ms == self.connect_timeout_ms,
    {
        connect_timed_out(self.diagnostic_url.as_str(), self.connect_timeout_ms)
    }

    /// The error where the rendezvous was not reached.
    pub fn failed(&self, source: &str) -> (r: ExecServerError)
        ensures
            r matches ExecServerError::WebSocketConnect { url, source: s } && url@
                == self.diagnostic_url@ && s@ == source@,
    {
        connect_failed(self.diagnostic_url.as_str(), source)
    }
}

/// The label of a connection to a command.
pub const STDIO_LABEL: &'static str = "exec-server stdio command";

/// Checks that a spawned command has the streams that it is reached by.
pub fn check_stdio_streams(has_stdin: bool, has_stdout: bool) -> (r: Result<(), ExecServerError>)
    ensures
        !has_stdin ==> (r matches Err(e) && e.is_protocol(
            "spawned exec-server command has no stdin"@,
        )),
        has_stdin && !has_stdout ==> (r matches Err(e) && e.is_protocol(
            "spawned exec-server command has no stdout"@,
        )),
        has_stdin && has_stdout ==> r is Ok,
{
    if !has_stdin {
        return Err(protocol_error("spawned exec-server command has no stdin"));
    }
    if !has_stdout {
        return Err(protocol_error("spawned exec-server command has no stdout"));
    }
    Ok(())
}

/// An address leads to the harness side of a rendezvous exactly where one of the
/// pairs of its query, between ampersands, is `role=harness`.
pub proof fn law_harness_side_is_named_in_the_query(
    base: Seq<char>,
    pair: Seq<char>,
    a: Seq<char>,
    b: Seq<char>,
)
    requires
        !base.contains('?'),
        !pair.contains('&'),
    ensures
        !leads_to_harness(base),
        leads_to_harness(base + seq!['?'] + pair) <==> pair == "role=harness"@,
        leads_to_harness(base + seq!['?'] + (a + seq!['&'] + b)) <==> leads_to_harness(
            base + seq!['?'] + a,
        ) || leads_to_harness(base + seq!['?'] + b),
{
    lemma_first_index(base, '?');
    lemma_query(base, pair);
    lemma_query(base, a);
    lemma_query(base, b);
    lemma_query(base, a + seq!['&'] + b);
    law_text_without_separator_is_one_piece(pair, '&');
    lemma_pair(pair);
    let one = split(pair, '&');
    assert(one[0] == pair);
    if names_harness(pair) {
        assert(names_harness(one[0]));
    }
    lemma_pairs(a, b);
}

/// Whether one of the pairs of a query names the harness side.
spec fn has_harness(query: Seq<char>) -> bool {
    exists|i: int| 0 <= i < split(query, '&').len() && names_harness(#[trigger] split(query, '&')[i])
}

proof fn lemma_pairs(a: Seq<char>, b: Seq<char>)
    ensures
        has_harness(a + seq!['&'] + b) == (has_harness(a) || has_harness(b)),
{
    let (x, y) = (split(a, '&'), split(b, '&'));
    let all = split(a + seq!['&'] + b, '&');
    law_every_separator_splits(a, b, '&');
    assert(all == x + y);
    if has_harness(a) {
        let i = choose|i: int| 0 <= i < x.len() && names_harness(#[trigger] x[i]);
        assert(all[i] == x[i]);
    }
    if has_harness(b) {
        let i = choose|i: int| 0 <= i < y.len() && names_harness(#[trigger] y[i]);
        assert(all[x.len() + i] == y[i]);
    }
    if has_harness(a + seq!['&'] + b) {
        let i = choose|i: int| 0 <= i < all.len() && names_harness(#[trigger] all[i]);
        if i < x.len() {
            assert(all[i] == x[i]);
        } else {
            assert(all[i] == y[i - x.len()]);
        }
    }
}

proof fn lemma_query(base: Seq<char>, query: Seq<char>)
    requires
        !base.contains('?'),
    ensures
        leads_to_harness(base + seq!['?'] + query) == has_harness(query),
{
    lemma_cut(base, '?', query);
}

proof fn lemma_cut(a: Seq<char>, sep: char, b: Seq<char>)
    requires
        !a.contains(sep),
    ensures
        split_once(a + seq![sep] + b, sep) == Some((a, b)),
{
    let s = a + seq![sep] + b;
    let n = a.len() as int;
    assert(s[n] == sep);
    assert(s.contains(sep));
    lemma_first_index(s, sep);
    assert forall|i: int| 0 <= i < n implies s[i] != sep by {
        assert(s[i] == a[i]);
    }
    assert(s.take(n) =~= a);
    assert(s.skip(n + 1) =~= b);
}

proof fn lemma_pair(pair: Seq<char>)
    ensures
        names_harness(pair) <==> pair == "role=harness"@,
{
    reveal_strlit("role=harness");
    reveal_strlit("role");
    reveal_strlit("harness");
    assert("role=harness"@ =~= "role"@ + seq!['='] + "harness"@);
    lemma_cut("role"@, '=', "harness"@);
    law_split_once_is_at_the_first_separator(pair, '=');
}

} // verus!
