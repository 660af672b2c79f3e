//! The environment registry: addresses, answers and errors.
use vstd::prelude::*;
use crate::error::config_error;
use crate::error::ExecServerError;
use crate::outside::web::status_display;
use crate::outside::web::status_text;
use crate::text::chars::chars_of;
use crate::text::chars::in_class;
use crate::text::chars::law_trimming_cuts_the_class_and_no_more;
use crate::text::chars::lemma_trimmed_end;
use crate::text::chars::push_all;
use crate::text::chars::push_text;
use crate::text::chars::string_of;
use crate::text::chars::trim;
use crate::text::chars::trim_chars;
use crate::text::chars::trim_end_of;
use crate::text::chars::trim_start_of;
use crate::text::chars::trimmed;
use crate::text::chars::trimmed_end;
use crate::text::chars::trimmed_start;
use crate::text::chars::whitespace;
use crate::text::chars::TrimClass;

verus! {

/// How many characters of an error answer are quoted.
pub const ERROR_BODY_PREVIEW_LEN: usize = 4096;

/// The longest pause between two connections, in seconds.
pub const MAX_BACKOFF_SECS: u64 = 30;

/// The protocol of a registered relay. The encrypted one has to be chosen.
#[derive(Debug, Clone, Copy, PartialEq, Eq, Structural)]
pub enum RemoteRelayProtocol {
    /// The cleartext protocol.
    Legacy,
    /// The authenticated, encrypted protocol.
    Noise,
}

impl Default for RemoteRelayProtocol {
    fn default() -> (r: Self)
        ensures
            r == RemoteRelayProtocol::Legacy,
    {
        RemoteRelayProtocol::Legacy
    }
}

/// How an exec-server is registered for remote use.
pub struct RemoteEnvironmentConfig<A> {
    /// The address of the registry.
    pub base_url: String,
    /// The environment.
    pub environment_id: String,
    /// The name of the exec-server.
    pub name: String,
    /// The relay protocol.
    pub relay_protocol: RemoteRelayProtocol,
    /// What adds credentials to requests.
    pub auth_provider: A,
}

/// An environment id without white space around it; `None` where nothing is left.
pub open spec fn normal_environment_id(environment_id: Seq<char>) -> Option<Seq<char>> {
    if trim(environment_id).len() == 0 {
        None
    } else {
        Some(trim(environment_id))
    }
}

/// A registry address without white space around it and slashes behind it;
/// `None` where nothing is left.
pub open spec fn normal_base_url(base_url: Seq<char>) -> Option<Seq<char>> {
    let url = trimmed_end(TrimClass::Slash, trim(base_url));
    if url.len() == 0 {
        None
    } else {
        Some(url)
    }
}

impl<A> RemoteEnvironmentConfig<A> {
    /// A configuration for an environment, with the cleartext protocol.
    pub fn new(base_url: String, environment_id: String, auth_provider: A) -> (r: Result<
        Self,
        ExecServerError,
    >)
        ensures
            match normal_environment_id(environment_id@) {
                Some(id) => r matches Ok(c) && c.base_url == base_url && c.environment_id@ == id
                    && c.name@ == "codex-exec-server"@ && c.relay_protocol
                    == RemoteRelayProtocol::Legacy && c.auth_provider == auth_provider,
                None => r matches Err(e) && e.is_config(
                    "environment id is required for remote exec-server registration"@,
                ),
            },
    {
        match normalize_environment_id(environment_id) {
            Ok(environment_id) => Ok(
                RemoteEnvironmentConfig {
                    base_url,
                    environment_id,
                    name: "codex-exec-server".to_owned(),
                    relay_protocol: RemoteRelayProtocol::Legacy,
                    auth_provider,
                },
            ),
            Err(e) => Err(e),
        }
    }
}

/// Takes the white space around an environment id away.
pub fn normalize_environment_id(environment_id: String) -> (r: Result<String, ExecServerError>)
    ensures
        match normal_environment_id(environment_id@) {
            Some(id) => r matches Ok(s) && s@ == id,
            None => r matches Err(e) && e.is_config(
                "environment id is required for remote exec-server registration"@,
            ),
        },
{
    let chars = chars_of(environment_id.as_str());
    let id = trim_chars(&chars);
    if id.len() == 0 {
        return Err(
            config_error("environment id is required for remote exec-server registration"),
        );
    }
    Ok(string_of(id))
}

/// Takes the white space around a registry address and the slashes behind it away.
pub fn normalize_base_url(base_url: String) -> (r: Result<String, ExecServerError>)
    ensures
        match normal_base_url(base_url@) {
            Some(url) => r matches Ok(s) && s@ == url,
            None => r matches Err(e) && e.is_config("environment registry base URL is required"@),
        },
{
    let chars = chars_of(base_url.as_str());
    let url = trim_end_of(TrimClass::Slash, trim_chars(&chars));
    if url.len() == 0 {
        return Err(config_error("environment registry base URL is required"));
    }
    Ok(string_of(url))
}

/// The address of a path under a base address, with one slash between them.
pub open spec fn endpoint(base_url: Seq<char>, path: Seq<char>) -> Seq<char> {
    base_url + "/"@ + trimmed_start(TrimClass::Slash, path)
}

/// The address of a path under a base address.
pub fn endpoint_url(base_url: &str, path: &str) -> (r: String)
    ensures
        r@ == endpoint(base_url@, path@),
{
    let path_chars = chars_of(path);
    let mut out = chars_of(base_url);
    push_text(&mut out, "/");
    push_all(&mut out, trim_start_of(TrimClass::Slash, &path_chars));
    string_of(&out)
}

/// What is asked of the registry for an environment.
#[derive(Debug, Clone, Copy, PartialEq, Eq, Structural)]
pub enum RegistryAction {
    /// To register the exec-server.
    Register,
    /// To validate a harness key.
    Validate,
}

impl RegistryAction {
    /// The last part of the request path.
    pub open spec fn path_end(self) -> Seq<char> {
        match self {
            RegistryAction::Register => "/register"@,
            RegistryAction::Validate => "/validate"@,
        }
    }
}

/// The path of a request for an environment.
pub open spec fn environment_path(environment_id: Seq<char>, action: RegistryAction) -> Seq<char> {
    "/cloud/environment/"@ + environment_id + action.path_end()
}

/// The address of a request for an environment.
pub fn environment_url(base_url: &str, environment_id: &str, action: RegistryAction) -> (r: String)
    ensures
        r@ == endpoint(base_url@, environment_path(environment_id@, action)),
{
    let mut path = chars_of("/cloud/environment/");
    push_text(&mut path, environment_id);
    push_text(
        &mut path,
        match action {
            RegistryAction::Register => "/register",
            RegistryAction::Validate => "/validate",
        },
    );
    endpoint_url(base_url, string_of(&path).as_str())
}

/// An error that the registry reports.
#[derive(Debug, Clone, PartialEq, Eq)]
pub struct RegistryError {
    /// The registry's code for it.
    pub code: Option<String>,
    /// What the registry says of it.
    pub message: Option<String>,
}

/// An error answer of the registry.
#[derive(Debug, Clone, PartialEq, Eq)]
pub struct RegistryErrorBody {
    /// The error.
    pub error: Option<RegistryError>,
}

/// The beginning of an answer, without white space around it; `None` where
/// nothing is left.
pub open spec fn body_preview(body: Seq<char>) -> Option<Seq<char>> {
    let t = trim(body);
    if t.len() == 0 {
        None
    } else if t.len() > ERROR_BODY_PREVIEW_LEN {
        Some(t.take(ERROR_BODY_PREVIEW_LEN as int))
    } else {
        Some(t)
    }
}

/// The beginning of an answer.
pub fn preview_error_body(body: &str) -> (r: Option<String>)
    ensures
        r.deep_view() == body_preview(body@),
{
    let chars = chars_of(body);
    let t = trim_chars(&chars);
    if t.len() == 0 {
        return None;
    }
    if t.len() > ERROR_BODY_PREVIEW_LEN {
        let head = &t[0..ERROR_BODY_PREVIEW_LEN];
        assert(head@ =~= t@.take(ERROR_BODY_PREVIEW_LEN as int));
        return Some(string_of(head));
    }
    Some(string_of(t))
}

/// The message of a parsed answer.
pub open spec fn parsed_message(parsed: Option<RegistryErrorBody>) -> Option<Seq<char>> {
    match parsed {
        Some(RegistryErrorBody { error: Some(RegistryError { message: Some(m), .. }) }) => Some(m@),
        _ => None,
    }
}

/// The message of an error answer: what the registry says, or else the beginning
/// of the answer.
pub open spec fn error_message(parsed: Option<RegistryErrorBody>, body: Seq<char>) -> Option<
    Seq<char>,
> {
    match parsed_message(parsed) {
        Some(m) => Some(m),
        None => body_preview(body),
    }
}

/// The message of an error answer.
pub fn registry_error_message(parsed: &Option<RegistryErrorBody>, body: &str) -> (r: Option<String>)
    ensures
        r.deep_view() == error_message(*parsed, body@),
{
    if let Some(parsed_body) = parsed {
        if let Some(error) = &parsed_body.error {
            if let Some(message) = &error.message {
                return Some(message.clone());
            }
        }
    }
    preview_error_body(body)
}

/// The message of an authentication error.
pub open spec fn auth_error_message(
    status: u16,
    parsed: Option<RegistryErrorBody>,
    body: Seq<char>,
) -> Seq<char> {
    "environment registry authentication failed ("@ + status_display(status) + "): "@
        + match error_message(parsed, body) {
        Some(m) => m,
        None => "empty error body"@,
    }
}

/// The error of an answer that refuses the credentials.
pub fn environment_registry_auth_error(
    status: u16,
    parsed: &Option<RegistryErrorBody>,
    body: &str,
) -> (r: ExecServerError)
    requires
        100 <= status <= 999,
    ensures
        r.is_auth(auth_error_message(status, *parsed, body@)),
{
    let mut out = chars_of("environment registry authentication failed (");
    push_text(&mut out, status_text(status).as_str());
    push_text(&mut out, "): ");
    match registry_error_message(parsed, body) {
        Some(message) => push_text(&mut out, message.as_str()),
        None => push_text(&mut out, "empty error body"),
    }
    ExecServerError::EnvironmentRegistryAuth(string_of(&out))
}

/// The code and the message of another error answer.
pub open spec fn http_error_parts(parsed: Option<RegistryErrorBody>, body: Seq<char>) -> (
    Option<Seq<char>>,
    Seq<char>,
) {
    match parsed {
        Some(RegistryErrorBody { error: Some(error) }) => (
            match error.code {
                Some(code) => Some(code@),
                None => None,
            },
            match error_message(parsed, body) {
                Some(m) => m,
                None => "empty error body"@,
            },
        ),
        _ => (
            None,
            match body_preview(body) {
                Some(m) => m,
                None => "empty or malformed error body"@,
            },
        ),
    }
}

/// The error of another error answer.
pub fn environment_registry_http_error(
    status: u16,
    parsed: &Option<RegistryErrorBody>,
    body: &str,
) -> (r: ExecServerError)
    ensures
        r matches ExecServerError::EnvironmentRegistryHttp { status: s, code, message } && s
            == status && (code.deep_view(), message@) == http_error_parts(*parsed, body@),
{
    if let Some(parsed_body) = parsed {
        if let Some(error) = &parsed_body.error {
            let code = match &error.code {
                Some(code) => Some(code.clone()),
                None => None,
            };
            let message = match registry_error_message(parsed, body) {
                Some(message) => message,
                None => "empty error body".to_owned(),
            };
            return ExecServerError::EnvironmentRegistryHttp { status, code, message };
        }
    }
    let message = match preview_error_body(body) {
        Some(message) => message,
        None => "empty or malformed error body".to_owned(),
    };
    ExecServerError::EnvironmentRegistryHttp { status, code: None, message }
}

/// Whether a status reports success.
pub open spec fn is_success_status(status: u16) -> bool {
    200 <= status < 300
}

/// Whether a status refuses the credentials.
pub open spec fn is_auth_status(status: u16) -> bool {
    status == 401 || status == 403
}

/// The error that an answer reports; `None` where it reports success, and its
/// contents are to be read.
pub fn response_error(status: u16, parsed: &Option<RegistryErrorBody>, body: &str) -> (r: Option<
    ExecServerError,
>)
    requires
        100 <= status <= 999,
    ensures
        r is None == is_success_status(status),
        !is_success_status(status) && is_auth_status(status) ==> r->0.is_auth(
            auth_error_message(status, *parsed, body@),
        ),
        !is_success_status(status) && !is_auth_status(status) ==> (r matches Some(
            ExecServerError::EnvironmentRegistryHttp { status: s, code, message },
        ) && s == status && (code.deep_view(), message@) == http_error_parts(*parsed, body@)),
{
    if 200 <= status && status < 300 {
        return None;
    }
    if status == 401 || status == 403 {
        return Some(environment_registry_auth_error(status, parsed, body));
    }
    Some(environment_registry_http_error(status, parsed, body))
}

/// The pauses between connections: from one second on each is twice the last, up
/// to a limit, and a connection starts them anew.
pub struct ReconnectBackoff {
    secs: u64,
}

impl View for ReconnectBackoff {
    type V = nat;

    closed spec fn view(&self) -> nat {
        self.secs as nat
    }
}

/// The pause after a pause.
pub open spec fn next_pause(secs: nat) -> nat {
    if 2 * secs > MAX_BACKOFF_SECS {
        MAX_BACKOFF_SECS as nat
    } else {
        2 * secs
    }
}

impl ReconnectBackoff {
    /// The next pause lies within its bounds.
    pub open spec fn wf(self) -> bool {
        1 <= self@ <= MAX_BACKOFF_SECS
    }

    /// The first pause is one second.
    pub fn new() -> (r: Self)
        ensures
            r.wf(),
            r@ == 1,
    {
        ReconnectBackoff { secs: 1 }
    }

    /// Notes that a connection was made.
    pub fn connected(&mut self)
        ensures
            final(self).wf(),
            final(self)@ == 1,
    {
        self.secs = 1;
    }

    /// The seconds to pause now.
    pub fn pause(&mut self) -> (r: u64)
        requires
            old(self).wf(),
        ensures
            r == old(self)@,
            final(self).wf(),
            final(self)@ == next_pause(old(self)@),
    {
        let secs = self.secs;
        self.secs = if secs * 2 > MAX_BACKOFF_SECS {
            MAX_BACKOFF_SECS
        } else {
            secs * 2
        };
        secs
    }
}

/// The pause after a number of failures in a row.
pub open spec fn pause_after(failures: nat) -> nat
    decreases failures,
{
    if failures == 0 {
        1
    } else {
        next_pause(pause_after((failures - 1) as nat))
    }
}

/// The pauses never shrink while connections fail, and stay within the limit.
pub proof fn law_pauses_grow_up_to_the_limit(failures: nat)
    ensures
        1 <= pause_after(failures) <= pause_after(failures + 1) <= MAX_BACKOFF_SECS,
    decreases failures,
{
    if failures > 0 {
        law_pauses_grow_up_to_the_limit((failures - 1) as nat);
    }
}

/// An address is put together with exactly one slash between the base and the
/// path, however many the path begins with.
pub proof fn law_leading_slashes_do_not_matter(base_url: Seq<char>, path: Seq<char>)
    ensures
        endpoint(base_url, "/"@ + path) == endpoint(base_url, path),
{
    reveal_strlit("/");
    assert(("/"@ + path).skip(1) =~= path);
}

/// The answer of a success is none of an error, and only two statuses refuse the
/// credentials.
pub proof fn law_statuses_are_told_apart(status: u16)
    ensures
        is_success_status(status) <==> status / 100 == 2,
        is_auth_status(status) <==> status == 401 || status == 403,
        !(is_success_status(status) && is_auth_status(status)),
{
}

/// White space around an environment id does not matter, and a blank one is none.
pub proof fn law_environment_id_is_not_blank(id: Seq<char>)
    ensures
        normal_environment_id(id) is None <==> forall|i: int|
            0 <= i < id.len() ==> whitespace(#[trigger] id[i]),
        normal_environment_id(id) matches Some(normal) ==> normal == trim(id) && normal.len() > 0,
{
    lemma_blank(id);
}

proof fn lemma_blank(s: Seq<char>)
    ensures
        trim(s).len() == 0 <==> forall|i: int| 0 <= i < s.len() ==> whitespace(#[trigger] s[i]),
{
    law_trimming_cuts_the_class_and_no_more(TrimClass::Whitespace, s);
    let (i, j) = choose|i: int, j: int|
        {
            &&& 0 <= i <= j <= s.len()
            &&& #[trigger] s.subrange(i, j) == trimmed(TrimClass::Whitespace, s)
            &&& forall|n: int|
                0 <= n < i || j <= n < s.len() ==> in_class(TrimClass::Whitespace, #[trigger] s[n])
        };
    if trim(s).len() == 0 {
        assert forall|n: int| 0 <= n < s.len() implies whitespace(#[trigger] s[n]) by {
            assert(in_class(TrimClass::Whitespace, s[n]));
        }
    } else {
        assert(trim(s)[0] == s[i]);
        assert(!whitespace(s[i]));
    }
}

/// Slashes behind a registry address do not matter, however many there are.
pub proof fn law_trailing_slashes_do_not_matter(url: Seq<char>, n: nat)
    requires
        url.len() > 0,
        !whitespace(url[0]),
        !whitespace(url.last()),
        url.last() != '/',
    ensures
        normal_base_url(url) == Some(url),
        normal_base_url(url + Seq::new(n, |i: int| '/')) == Some(url),
    decreases n,
{
    let padded = url + Seq::new(n, |i: int| '/');
    assert(trimmed_start(TrimClass::Whitespace, padded) == padded) by {
        assert(padded[0] == url[0]);
    }
    assert(trim(padded) == padded) by {
        if n > 0 {
            assert(padded.last() == '/');
        } else {
            assert(padded =~= url);
        }
    }
    lemma_slashes_go(url, n);
    assert(trim(url) == url);
}

proof fn lemma_slashes_go(url: Seq<char>, n: nat)
    requires
        url.len() > 0,
        url.last() != '/',
    ensures
        trimmed_end(TrimClass::Slash, url + Seq::new(n, |i: int| '/')) == url,
    decreases n,
{
    let padded = url + Seq::new(n, |i: int| '/');
    if n == 0 {
        assert(padded =~= url);
    } else {
        let m = (n - 1) as nat;
        lemma_slashes_go(url, m);
        assert(padded.last() == '/');
        assert(padded.drop_last() =~= url + Seq::new(m, |i: int| '/'));
    }
}

/// A request for an environment goes to the path of that environment under the base
/// address, with the action behind it.
pub proof fn law_requests_go_to_the_path_of_their_environment(
    base_url: Seq<char>,
    id: Seq<char>,
)
    ensures
        endpoint(base_url, environment_path(id, RegistryAction::Register)) == base_url
            + "/cloud/environment/"@ + id + "/register"@,
        endpoint(base_url, environment_path(id, RegistryAction::Validate)) == base_url
            + "/cloud/environment/"@ + id + "/validate"@,
{
    reveal_strlit("/");
    reveal_strlit("/cloud/environment/");
    lemma_endpoint(base_url, "/cloud/environment/"@, id + "/register"@);
    lemma_endpoint(base_url, "/cloud/environment/"@, id + "/validate"@);
    assert("/cloud/environment/"@ + (id + "/register"@) =~= environment_path(
        id,
        RegistryAction::Register,
    ));
    assert("/cloud/environment/"@ + (id + "/validate"@) =~= environment_path(
        id,
        RegistryAction::Validate,
    ));
    assert(base_url + "/cloud/environment/"@ + (id + "/register"@) =~= base_url
        + "/cloud/environment/"@ + id + "/register"@);
    assert(base_url + "/cloud/environment/"@ + (id + "/validate"@) =~= base_url
        + "/cloud/environment/"@ + id + "/validate"@);
}

proof fn lemma_endpoint(base_url: Seq<char>, head: Seq<char>, rest: Seq<char>)
    requires
        head.len() >= 2,
        head[0] == '/',
        head[1] != '/',
    ensures
        endpoint(base_url, head + rest) == base_url + head + rest,
{
    reveal_strlit("/");
    let path = head + rest;
    assert(path[0] == '/');
    assert(path.skip(1)[0] == head[1]);
    assert(trimmed_start(TrimClass::Slash, path.skip(1)) == path.skip(1));
    assert(endpoint(base_url, path) =~= base_url + head + rest);
}

/// A path that begins with no slash stands behind one.
pub proof fn law_one_slash_stands_before_a_path(base_url: Seq<char>, path: Seq<char>)
    requires
        path.len() > 0,
        path[0] != '/',
    ensures
        endpoint(base_url, path) == base_url + "/"@ + path,
{
}

/// Of an answer at most its first 4096 characters are quoted, without white space
/// around them; of a blank one nothing is.
pub proof fn law_long_answers_are_quoted_in_part(body: Seq<char>)
    ensures
        trim(body).len() == 0 <==> body_preview(body) is None,
        0 < trim(body).len() <= 4096 ==> body_preview(body) == Some(trim(body)),
        trim(body).len() > 4096 ==> body_preview(body) == Some(trim(body).take(4096)),
{
}

/// What the registry says of an error counts before the answer itself, which is
/// quoted where it says nothing; its code is passed on; and an answer with nothing
/// to quote is said to be empty.
pub proof fn law_registry_speaks_before_its_answer_is_quoted(
    status: u16,
    error: RegistryError,
    body: Seq<char>,
)
    ensures
        ({
            let parsed = Some(RegistryErrorBody { error: Some(error) });
            let (code, message) = http_error_parts(parsed, body);
            let (no_code, quoted) = http_error_parts(None, body);
            let auth = |m: Seq<char>|
                "environment registry authentication failed ("@ + status_display(status) + "): "@
                    + m;
            &&& error.code matches Some(c) ==> code == Some(c@)
            &&& error.code is None ==> code is None
            &&& error.message matches Some(m) ==> message == m@ && auth_error_message(
                status,
                parsed,
                body,
            ) == auth(m@)
            &&& error.message is None && trim(body).len() > 0 ==> message == body_preview(body)->0
                && auth_error_message(status, parsed, body) == auth(body_preview(body)->0)
            &&& error.message is None && trim(body).len() == 0 ==> message == "empty error body"@
                && auth_error_message(status, parsed, body) == auth("empty error body"@)
            &&& no_code is None
            &&& trim(body).len() > 0 ==> quoted == body_preview(body)->0
            &&& trim(body).len() == 0 ==> quoted == "empty or malformed error body"@
            &&& http_error_parts(Some(RegistryErrorBody { error: None }), body) == http_error_parts(
                None,
                body,
            )
        }),
{
}

/// The pauses double from one second on until they reach half a minute.
pub proof fn law_pauses_double_up_to_half_a_minute(failures: nat)
    ensures
        pause_after(0) == 1,
        2 * pause_after(failures) <= 30 ==> pause_after(failures + 1) == 2 * pause_after(failures),
        2 * pause_after(failures) > 30 ==> pause_after(failures + 1) == 30,
{
}

/// A registry address is never empty and never ends in a slash; white space and
/// slashes alone are none.
pub proof fn law_registry_address_is_not_blank(base_url: Seq<char>, n: nat)
    ensures
        normal_base_url(base_url) matches Some(url) ==> url.len() > 0 && url.last() != '/',
        normal_base_url(Seq::empty()) is None,
        trim(base_url) == Seq::new(n, |i: int| '/') ==> normal_base_url(base_url) is None,
{
    lemma_trimmed_end(TrimClass::Slash, trim(base_url));
    lemma_only_slashes(n);
    assert(trim(Seq::<char>::empty()) =~= Seq::<char>::empty());
}

/// Of slashes alone nothing is left.
proof fn lemma_only_slashes(n: nat)
    ensures
        trimmed_end(TrimClass::Slash, Seq::new(n, |i: int| '/')).len() == 0,
    decreases n,
{
    if n > 0 {
        let fewer = (n - 1) as nat;
        lemma_only_slashes(fewer);
        assert(Seq::new(n, |i: int| '/').drop_last() =~= Seq::new(fewer, |i: int| '/'));
    }
}

} // verus!
