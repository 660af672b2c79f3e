//! The proxy that a request to an upstream server goes through.
use vstd::prelude::*;
use crate::outbound_proxy::cache::SystemProxyDecision;
use crate::outbound_proxy::route::EnvModel;
use crate::outbound_proxy::route::RouteFailureClass;
use crate::outside::web::parse_proxy_address;
use crate::outside::web::proxy_address_parts;
use crate::text::chars::chars_of;
use crate::text::chars::push_text;
use crate::text::chars::string_of;
use crate::text::chars::trim;
use crate::text::chars::trim_chars;
use crate::text_map::TextMap;

verus! {

/// Where the proxy of a request is taken from.
#[derive(Debug, Clone, Copy, PartialEq, Eq, Structural)]
pub enum UpstreamProxyMode {
    /// There is none.
    Direct,
    /// From the environment.
    Env,
    /// From the platform.
    System,
    /// From the platform, or else from the environment.
    Auto,
}

/// Why a request got no route.
#[derive(Debug, Clone, PartialEq, Eq)]
pub enum UpstreamProxyError {
    /// The platform came to no decision.
    SystemProxyUnavailable(RouteFailureClass),
    /// The platform named something that is no proxy.
    InvalidSystemProxyUrl {
        /// What it named.
        url: String,
    },
    /// The platform named a proxy that is not one of HTTP.
    UnsupportedSystemProxyProtocol {
        /// What it named.
        url: String,
    },
}

impl UpstreamProxyError {
    /// The text of the error.
    pub open spec fn text(self) -> Seq<char> {
        match self {
            UpstreamProxyError::SystemProxyUnavailable(failure) =>
                "system proxy resolution failed: "@ + failure.name(),
            UpstreamProxyError::InvalidSystemProxyUrl { url } =>
                "system proxy returned invalid proxy URL: "@ + url@,
            UpstreamProxyError::UnsupportedSystemProxyProtocol { url } =>
                "system proxy returned unsupported proxy protocol: "@ + url@,
        }
    }

    /// The text of the error.
    pub fn to_text(&self) -> (r: String)
        ensures
            r@ == self.text(),
    {
        match self {
            UpstreamProxyError::SystemProxyUnavailable(failure) => {
                let mut text = chars_of("system proxy resolution failed: ");
                push_text(&mut text, failure.to_text());
                string_of(&text)
            },
            UpstreamProxyError::InvalidSystemProxyUrl { url } => {
                let mut text = chars_of("system proxy returned invalid proxy URL: ");
                push_text(&mut text, url.as_str());
                string_of(&text)
            },
            UpstreamProxyError::UnsupportedSystemProxyProtocol { url } => {
                let mut text = chars_of("system proxy returned unsupported proxy protocol: ");
                push_text(&mut text, url.as_str());
                string_of(&text)
            },
        }
    }
}

/// A proxy.
#[derive(Debug, Clone, PartialEq, Eq)]
pub struct UpstreamProxy {
    /// The address as it was given, from which the connection is made.
    pub url: String,
    /// Its host and port.
    pub address: String,
}

/// A proxy over its characters.
#[verifier::ext_equal]
pub struct ProxyModel {
    /// The address as it was given.
    pub url: Seq<char>,
    /// Its host and port.
    pub address: Seq<char>,
}

impl View for UpstreamProxy {
    type V = ProxyModel;

    open spec fn view(&self) -> ProxyModel {
        ProxyModel { url: self.url@, address: self.address@ }
    }
}

impl DeepView for UpstreamProxy {
    type V = ProxyModel;

    open spec fn deep_view(&self) -> ProxyModel {
        self@
    }
}

/// What is known of a text that was taken for the address of a proxy: whether its
/// scheme, if any, is that of HTTP, and its host and port.
pub type ParsedAddress = Option<(Option<bool>, Seq<char>)>;

/// The proxy that a text names. Without a scheme it is one of HTTP.
pub open spec fn proxy_named(url: Seq<char>, parsed: ParsedAddress) -> Option<ProxyModel> {
    match parsed {
        Some((is_http, address)) if is_http != Some(false) => Some(ProxyModel { url, address }),
        _ => None,
    }
}

/// What is known of an address, over its characters.
pub open spec fn parsed_model(parsed: Option<(Option<bool>, String)>) -> ParsedAddress {
    match parsed {
        Some((is_http, address)) => Some((is_http, address@)),
        None => None,
    }
}

/// The proxy that a text names, given what is known of it.
pub fn named_proxy(url: &str, parsed: Option<(Option<bool>, String)>) -> (r: Option<UpstreamProxy>)
    ensures
        r.deep_view() == proxy_named(url@, parsed_model(parsed)),
{
    match parsed {
        Some((is_http, address)) => {
            if let Some(false) = is_http {
                return None;
            }
            Some(UpstreamProxy { url: url.to_owned(), address })
        },
        None => None,
    }
}

/// The outcome of taking a proxy from the platform.
pub open spec fn system_outcome(
    url: Seq<char>,
    parsed: ParsedAddress,
    r: Result<UpstreamProxy, UpstreamProxyError>,
) -> bool {
    match (parsed, proxy_named(url, parsed)) {
        (None, _) => r matches Err(UpstreamProxyError::InvalidSystemProxyUrl { url: u }) && u@
            == url,
        (_, None) => r matches Err(UpstreamProxyError::UnsupportedSystemProxyProtocol { url: u })
            && u@ == url,
        (_, Some(proxy)) => r matches Ok(p) && p@ == proxy,
    }
}

/// The proxy that the platform named, given what is known of it.
pub fn checked_system_proxy(url: &str, parsed: Option<(Option<bool>, String)>) -> (r: Result<
    UpstreamProxy,
    UpstreamProxyError,
>)
    ensures
        system_outcome(url@, parsed_model(parsed), r),
{
    if parsed.is_none() {
        return Err(UpstreamProxyError::InvalidSystemProxyUrl { url: url.to_owned() });
    }
    match named_proxy(url, parsed) {
        Some(proxy) => Ok(proxy),
        None => Err(UpstreamProxyError::UnsupportedSystemProxyProtocol { url: url.to_owned() }),
    }
}

/// The proxy that the platform named.
pub fn proxy_address_from_system_url(proxy_url: &str) -> (r: Result<
    UpstreamProxy,
    UpstreamProxyError,
>)
    ensures
        system_outcome(proxy_url@, proxy_address_parts(proxy_url@), r),
{
    let parsed = parse_proxy_address(proxy_url);
    checked_system_proxy(proxy_url, parsed)
}

/// The proxy that a variable names; white space around it does not count.
pub open spec fn variable_proxy(env: EnvModel, key: Seq<char>) -> Option<ProxyModel> {
    if env.contains_key(key) && trim(env[key]@).len() > 0 {
        let url = trim(env[key]@);
        proxy_named(url, proxy_address_parts(url))
    } else {
        None
    }
}

/// The proxy that the first of the variables names that names one.
pub open spec fn first_variable_proxy(
    env: EnvModel,
    first: Seq<char>,
    second: Seq<char>,
) -> Option<ProxyModel> {
    match variable_proxy(env, first) {
        Some(proxy) => Some(proxy),
        None => variable_proxy(env, second),
    }
}

fn read_variable(env: &TextMap<String>, key: &str) -> (r: Option<UpstreamProxy>)
    requires
        env.wf(),
    ensures
        r.deep_view() == variable_proxy(env@, key@),
{
    match env.get(key) {
        None => None,
        Some(value) => {
            let chars = chars_of(value.as_str());
            let trimmed = trim_chars(&chars);
            if trimmed.len() == 0 {
                return None;
            }
            let url = string_of(trimmed);
            let parsed = parse_proxy_address(url.as_str());
            named_proxy(url.as_str(), parsed)
        },
    }
}

/// The proxy that a variable of the environment names, under the first of its two
/// names or else the second. What is no proxy of HTTP is passed over.
pub fn read_proxy_env(env: &TextMap<String>, first: &str, second: &str) -> (r: Option<
    UpstreamProxy,
>)
    requires
        env.wf(),
    ensures
        r.deep_view() == first_variable_proxy(env@, first@, second@),
{
    match read_variable(env, first) {
        Some(proxy) => Some(proxy),
        None => read_variable(env, second),
    }
}

/// The proxies that the environment names.
#[derive(Debug, Clone, PartialEq, Eq)]
pub struct EnvProxyConfig {
    /// For plain requests.
    pub http: Option<UpstreamProxy>,
    /// For secure requests.
    pub https: Option<UpstreamProxy>,
    /// For all requests.
    pub all: Option<UpstreamProxy>,
}

/// The proxies that the environment names, over their characters.
#[verifier::ext_equal]
pub struct EnvProxies {
    /// For plain requests.
    pub http: Option<ProxyModel>,
    /// For secure requests.
    pub https: Option<ProxyModel>,
    /// For all requests.
    pub all: Option<ProxyModel>,
}

impl View for EnvProxyConfig {
    type V = EnvProxies;

    open spec fn view(&self) -> EnvProxies {
        EnvProxies {
            http: self.http.deep_view(),
            https: self.https.deep_view(),
            all: self.all.deep_view(),
        }
    }
}

/// The proxies that an environment names.
pub open spec fn env_proxies(env: EnvModel) -> EnvProxies {
    EnvProxies {
        http: first_variable_proxy(env, "HTTP_PROXY"@, "http_proxy"@),
        https: first_variable_proxy(env, "HTTPS_PROXY"@, "https_proxy"@),
        all: first_variable_proxy(env, "ALL_PROXY"@, "all_proxy"@),
    }
}

/// No proxies.
pub open spec fn no_proxies() -> EnvProxies {
    EnvProxies { http: None, https: None, all: None }
}

impl EnvProxies {
    /// The proxy for a request. A secure request takes that for plain ones if it
    /// has none of its own, and both take that for all requests last.
    pub open spec fn for_protocol(self, is_secure: bool) -> Option<ProxyModel> {
        let plain = if self.http is Some {
            self.http
        } else {
            self.all
        };
        if is_secure && self.https is Some {
            self.https
        } else {
            plain
        }
    }
}

impl UpstreamProxy {
    fn duplicate(&self) -> (r: Self)
        ensures
            r@ == self@,
    {
        UpstreamProxy { url: self.url.clone(), address: self.address.clone() }
    }
}

impl EnvProxyConfig {
    /// The proxies that the environment names.
    pub fn from_env(env: &TextMap<String>) -> (r: Self)
        requires
            env.wf(),
        ensures
            r@ == env_proxies(env@),
    {
        EnvProxyConfig {
            http: read_proxy_env(env, "HTTP_PROXY", "http_proxy"),
            https: read_proxy_env(env, "HTTPS_PROXY", "https_proxy"),
            all: read_proxy_env(env, "ALL_PROXY", "all_proxy"),
        }
    }

    /// The proxy for a request.
    pub fn proxy_for_protocol(&self, is_secure: bool) -> (r: Option<UpstreamProxy>)
        ensures
            r.deep_view() == self@.for_protocol(is_secure),
    {
        if is_secure {
            if let Some(proxy) = &self.https {
                return Some(proxy.duplicate());
            }
        }
        if let Some(proxy) = &self.http {
            return Some(proxy.duplicate());
        }
        match &self.all {
            Some(proxy) => Some(proxy.duplicate()),
            None => None,
        }
    }
}

/// What is to be done about the proxy of a request.
#[derive(Debug, Clone, PartialEq, Eq)]
pub enum ProxyStep {
    /// Connect, through the proxy if there is one.
    Route(Option<UpstreamProxy>),
    /// Ask the platform for its decision, automatic detection included.
    AskSystem,
}

/// Where requests take their proxies from.
#[derive(Debug, Clone, PartialEq, Eq)]
pub struct ProxyConfig {
    /// The source.
    pub mode: UpstreamProxyMode,
    /// The proxies that the environment names.
    pub env: EnvProxyConfig,
}

impl ProxyConfig {
    /// No proxy.
    pub fn direct() -> (r: Self)
        ensures
            r.mode == UpstreamProxyMode::Direct,
            r.env@ == no_proxies(),
    {
        ProxyConfig {
            mode: UpstreamProxyMode::Direct,
            env: EnvProxyConfig { http: None, https: None, all: None },
        }
    }

    /// The given source.
    pub fn from_mode(mode: UpstreamProxyMode, env: &TextMap<String>) -> (r: Self)
        requires
            env.wf(),
        ensures
            r.mode == mode,
            r.env@ == env_proxies(env@),
    {
        ProxyConfig { mode, env: EnvProxyConfig::from_env(env) }
    }

    /// Whether the platform is asked.
    pub open spec fn asks_system(self) -> bool {
        self.mode == UpstreamProxyMode::System || self.mode == UpstreamProxyMode::Auto
    }

    /// The proxy of a request, where the platform is not asked.
    pub open spec fn own_proxy(self, is_secure: bool) -> Option<ProxyModel> {
        if self.mode == UpstreamProxyMode::Env {
            self.env@.for_protocol(is_secure)
        } else {
            None
        }
    }

    /// The proxy of a request, or that the platform must be asked.
    pub fn proxy_for_url(&self, is_secure: bool) -> (r: ProxyStep)
        ensures
            match r {
                ProxyStep::AskSystem => self.asks_system(),
                ProxyStep::Route(proxy) => !self.asks_system() && proxy.deep_view()
                    == self.own_proxy(is_secure),
            },
    {
        match self.mode {
            UpstreamProxyMode::Direct => ProxyStep::Route(None),
            UpstreamProxyMode::Env => ProxyStep::Route(self.env.proxy_for_protocol(is_secure)),
            UpstreamProxyMode::System | UpstreamProxyMode::Auto => ProxyStep::AskSystem,
        }
    }

    /// Whether this is the outcome for a request on which the platform decided.
    pub open spec fn decided(
        self,
        is_secure: bool,
        decision: SystemProxyDecision,
        r: Result<Option<UpstreamProxy>, UpstreamProxyError>,
    ) -> bool {
        if self.mode == UpstreamProxyMode::Auto && system_fails(decision) {
            r matches Ok(p) && p.deep_view() == self.env@.for_protocol(is_secure)
        } else {
            system_route(decision, r)
        }
    }

    /// The proxy of a request, given what the platform decided. Where the
    /// environment may stand in, a failure of the platform is passed over.
    pub fn proxy_for_decision(&self, is_secure: bool, decision: &SystemProxyDecision) -> (r: Result<
        Option<UpstreamProxy>,
        UpstreamProxyError,
    >)
        requires
            self.asks_system(),
        ensures
            self.decided(is_secure, *decision, r),
    {
        let system = system_proxy_for_decision(decision);
        match system {
            Ok(proxy) => Ok(proxy),
            Err(err) => {
                if let UpstreamProxyMode::Auto = self.mode {
                    return Ok(self.env.proxy_for_protocol(is_secure));
                }
                Err(err)
            },
        }
    }
}

/// Whether a decision of the platform gives no route.
pub open spec fn system_fails(decision: SystemProxyDecision) -> bool {
    match decision {
        SystemProxyDecision::Direct => false,
        SystemProxyDecision::Proxy { url } => proxy_named(url@, proxy_address_parts(url@)) is None,
        SystemProxyDecision::Unavailable { .. } => true,
    }
}

/// The reason why a decision of the platform gives no route.
pub open spec fn system_failure_text(decision: SystemProxyDecision) -> Seq<char> {
    match decision {
        SystemProxyDecision::Direct => Seq::empty(),
        SystemProxyDecision::Proxy { url } => if proxy_address_parts(url@) is None {
            "system proxy returned invalid proxy URL: "@ + url@
        } else {
            "system proxy returned unsupported proxy protocol: "@ + url@
        },
        SystemProxyDecision::Unavailable { failure } => "system proxy resolution failed: "@
            + failure.name(),
    }
}

/// Whether this is the route that a decision of the platform gives.
pub open spec fn system_route(
    decision: SystemProxyDecision,
    r: Result<Option<UpstreamProxy>, UpstreamProxyError>,
) -> bool {
    match decision {
        SystemProxyDecision::Direct => r == Ok::<Option<UpstreamProxy>, UpstreamProxyError>(None),
        SystemProxyDecision::Proxy { url } => match r {
            Ok(Some(p)) => system_outcome(url@, proxy_address_parts(url@), Ok(p)),
            Ok(None) => false,
            Err(e) => system_outcome(url@, proxy_address_parts(url@), Err(e)),
        },
        SystemProxyDecision::Unavailable { failure } => r == Err::<
            Option<UpstreamProxy>,
            UpstreamProxyError,
        >(UpstreamProxyError::SystemProxyUnavailable(failure)),
    }
}

/// The route that a decision of the platform gives.
pub fn system_proxy_for_decision(decision: &SystemProxyDecision) -> (r: Result<
    Option<UpstreamProxy>,
    UpstreamProxyError,
>)
    ensures
        system_route(*decision, r),
        r is Err == system_fails(*decision),
{
    match decision {
        SystemProxyDecision::Direct => Ok(None),
        SystemProxyDecision::Proxy { url } => match proxy_address_from_system_url(url.as_str()) {
            Ok(proxy) => Ok(Some(proxy)),
            Err(err) => Err(err),
        },
        SystemProxyDecision::Unavailable { failure } => Err(
            UpstreamProxyError::SystemProxyUnavailable(*failure),
        ),
    }
}

/// The proxy for a tunnel, which counts as a secure request, or that the platform
/// must be asked.
pub fn proxy_for_connect(mode: UpstreamProxyMode, env: &TextMap<String>) -> (r: ProxyStep)
    requires
        env.wf(),
    ensures
        match r {
            ProxyStep::AskSystem => mode == UpstreamProxyMode::System || mode
                == UpstreamProxyMode::Auto,
            ProxyStep::Route(proxy) => {
                &&& mode == UpstreamProxyMode::Direct || mode == UpstreamProxyMode::Env
                &&& proxy.deep_view() == (if mode == UpstreamProxyMode::Env {
                    env_proxies(env@).for_protocol(true)
                } else {
                    None
                })
            },
        },
{
    ProxyConfig::from_mode(mode, env).proxy_for_url(true)
}

/// The server that a request is for.
#[derive(Debug, Clone, PartialEq, Eq)]
pub struct RequestTarget {
    /// Whether its protocol is a secure one.
    pub is_secure: bool,
    /// Its host and port.
    pub authority: String,
}

/// The address of a request.
#[derive(Debug, Clone, PartialEq, Eq)]
pub struct RequestUri {
    /// The whole of it.
    pub text: String,
    /// Whether it has a scheme.
    pub has_scheme: bool,
    /// Whether it has a host.
    pub has_authority: bool,
    /// Its path and query.
    pub path_and_query: Option<String>,
}

/// A request, as far as its route depends on it.
#[derive(Debug, Clone, PartialEq, Eq)]
pub struct UpstreamRequest {
    /// The address.
    pub uri: RequestUri,
    /// The server, where it is known.
    pub target: Option<RequestTarget>,
}

/// The full address of a request.
pub open spec fn target_url(uri: RequestUri, target: RequestTarget) -> Seq<char> {
    if uri.has_scheme && uri.has_authority {
        uri.text@
    } else {
        (if target.is_secure {
            "https"@
        } else {
            "http"@
        }) + "://"@ + target.authority@ + (match uri.path_and_query {
            Some(path) => path@,
            None => "/"@,
        })
    }
}

/// The full address of a request, which is put together where the request does
/// not give it.
pub fn request_target_url(uri: &RequestUri, target: &RequestTarget) -> (r: String)
    ensures
        r@ == target_url(*uri, *target),
{
    if uri.has_scheme && uri.has_authority {
        return uri.text.clone();
    }
    let mut url = if target.is_secure {
        chars_of("https")
    } else {
        chars_of("http")
    };
    push_text(&mut url, "://");
    push_text(&mut url, target.authority.as_str());
    match &uri.path_and_query {
        Some(path) => {
            push_text(&mut url, path.as_str());
        },
        None => {
            push_text(&mut url, "/");
        },
    }
    string_of(&url)
}

/// What to do next with a request.
#[derive(Debug, Clone, PartialEq, Eq)]
pub enum ServeStep {
    /// Ask the platform for its decision on this address.
    AskSystem {
        /// The address.
        url: String,
    },
    /// Connect, through the proxy if there is one.
    Connect(Option<UpstreamProxy>),
}

/// A client of upstream servers.
#[derive(Debug, Clone, PartialEq, Eq)]
pub struct UpstreamClient {
    /// Where its requests take their proxies from.
    pub proxy_config: ProxyConfig,
}

impl UpstreamClient {
    /// A client without proxies.
    pub fn direct() -> (r: Self)
        ensures
            r.proxy_config.mode == UpstreamProxyMode::Direct,
            r.proxy_config.env@ == no_proxies(),
    {
        UpstreamClient { proxy_config: ProxyConfig::direct() }
    }

    /// A client with proxies from the given source.
    pub fn from_proxy_mode(mode: UpstreamProxyMode, env: &TextMap<String>) -> (r: Self)
        requires
            env.wf(),
        ensures
            r.proxy_config.mode == mode,
            r.proxy_config.env@ == env_proxies(env@),
    {
        UpstreamClient { proxy_config: ProxyConfig::from_mode(mode, env) }
    }

    /// What the server of a request is called in reports.
    pub fn target_label(request: &UpstreamRequest) -> (r: String)
        ensures
            r@ == match request.target {
                Some(target) => target.authority@,
                None => "<unknown>"@,
            },
    {
        match &request.target {
            Some(target) => target.authority.clone(),
            None => "<unknown>".to_owned(),
        }
    }

    /// Starts to serve a request. One whose server is not known goes without a proxy.
    pub fn serve(&self, request: &UpstreamRequest) -> (r: ServeStep)
        ensures
            match (request.target, r) {
                (None, ServeStep::Connect(proxy)) => proxy is None,
                (None, ServeStep::AskSystem { .. }) => false,
                (Some(target), ServeStep::AskSystem { url }) => self.proxy_config.asks_system()
                    && url@ == target_url(request.uri, target),
                (Some(target), ServeStep::Connect(proxy)) => !self.proxy_config.asks_system()
                    && proxy.deep_view() == self.proxy_config.own_proxy(target.is_secure),
            },
    {
        match &request.target {
            None => ServeStep::Connect(None),
            Some(target) => match self.proxy_config.proxy_for_url(target.is_secure) {
                ProxyStep::AskSystem => ServeStep::AskSystem {
                    url: request_target_url(&request.uri, target),
                },
                ProxyStep::Route(proxy) => ServeStep::Connect(proxy),
            },
        }
    }

    /// Takes up what the platform decided. The request connects, or fails with the
    /// text of the reason.
    pub fn system_decided(&self, target: &RequestTarget, decision: &SystemProxyDecision) -> (r:
        Result<Option<UpstreamProxy>, String>)
        requires
            self.proxy_config.asks_system(),
        ensures
            match r {
                Ok(proxy) => self.proxy_config.decided(target.is_secure, *decision, Ok(proxy)),
                Err(text) => self.proxy_config.mode == UpstreamProxyMode::System && system_fails(
                    *decision,
                ) && text@ == "upstream proxy resolution failed: "@ + system_failure_text(
                    *decision,
                ),
            },
    {
        match self.proxy_config.proxy_for_decision(target.is_secure, decision) {
            Ok(proxy) => Ok(proxy),
            Err(err) => {
                let reason = err.to_text();
                let mut text = chars_of("upstream proxy resolution failed: ");
                push_text(&mut text, reason.as_str());
                Err(string_of(&text))
            },
        }
    }

    /// What is added to the error where the request itself fails.
    pub fn request_failure(uri: &str) -> (r: String)
        ensures
            r@ == "http request failure for uri: "@ + uri@,
    {
        let mut text = chars_of("http request failure for uri: ");
        push_text(&mut text, uri);
        string_of(&text)
    }
}

/// Where the environment may stand in for the platform, no decision of the
/// platform makes a request fail.
pub proof fn law_auto_mode_never_fails(
    config: ProxyConfig,
    is_secure: bool,
    decision: SystemProxyDecision,
    r: Result<Option<UpstreamProxy>, UpstreamProxyError>,
)
    requires
        config.mode == UpstreamProxyMode::Auto,
        config.decided(is_secure, decision, r),
    ensures
        r is Ok,
{
}

/// The environment is consulted only where the platform fails: what the platform
/// decides is followed in both of the modes that ask it.
pub proof fn law_platform_comes_before_environment(
    auto: ProxyConfig,
    system: ProxyConfig,
    is_secure: bool,
    decision: SystemProxyDecision,
    r: Result<Option<UpstreamProxy>, UpstreamProxyError>,
)
    requires
        auto.mode == UpstreamProxyMode::Auto,
        system.mode == UpstreamProxyMode::System,
        !system_fails(decision),
    ensures
        auto.decided(is_secure, decision, r) == system.decided(is_secure, decision, r),
        system.decided(is_secure, decision, r) ==> r is Ok,
{
}

/// Where the environment names any proxy, secure requests have one; and where it
/// names none for secure requests alone, they have that of plain ones.
pub proof fn law_secure_requests_fall_back_to_plain_proxy(env: EnvProxies)
    ensures
        env.for_protocol(true) is Some <==> env.https is Some || env.http is Some || env.all is Some,
        env.https is None ==> env.for_protocol(true) == env.for_protocol(false),
{
}

/// Where the environment names a proxy for secure requests, every secure request
/// takes exactly that one, whatever else the environment names; where it names one
/// for plain requests, every plain request takes that one. What is named for all
/// requests serves where there is nothing more specific, and what is named for
/// secure requests never serves a plain one.
pub proof fn law_requests_take_the_proxy_named_for_them(env: EnvProxies, other: EnvProxies)
    ensures
        env.https is Some ==> env.for_protocol(true) == env.https,
        env.http is Some ==> env.for_protocol(false) == env.http,
        env.http is None ==> env.for_protocol(false) == env.all,
        env.https is None && env.http is Some ==> env.for_protocol(true) == env.http,
        env.https is None && env.http is None ==> env.for_protocol(true) == env.all,
        env.http == other.http && env.all == other.all ==> env.for_protocol(false)
            == other.for_protocol(false),
{
}

/// A direct client uses no proxy whatever the environment names; one that goes by
/// the environment takes what the environment names for the request; and the
/// platform is asked by the other two exactly.
pub proof fn law_mode_says_where_the_proxy_is_from(config: ProxyConfig, is_secure: bool)
    ensures
        config.mode == UpstreamProxyMode::Direct ==> !config.asks_system() && config.own_proxy(
            is_secure,
        ) is None,
        config.mode == UpstreamProxyMode::Env ==> !config.asks_system() && config.own_proxy(
            is_secure,
        ) == config.env@.for_protocol(is_secure),
        config.mode == UpstreamProxyMode::System || config.mode == UpstreamProxyMode::Auto
            ==> config.asks_system(),
{
}

/// Where the platform decides on a direct connection, no proxy is used; where it
/// names a proxy of HTTP, that very one is; and where it does neither, the request
/// fails for that reason if the platform alone counts, and takes what the
/// environment names for it otherwise.
pub proof fn law_platform_is_followed_or_stood_in_for(
    config: ProxyConfig,
    is_secure: bool,
    decision: SystemProxyDecision,
    r: Result<Option<UpstreamProxy>, UpstreamProxyError>,
)
    requires
        config.mode == UpstreamProxyMode::System || config.mode == UpstreamProxyMode::Auto,
        config.decided(is_secure, decision, r),
    ensures
        decision is Direct ==> r == Ok::<Option<UpstreamProxy>, UpstreamProxyError>(None),
        decision matches SystemProxyDecision::Proxy { url } ==> {
            let parts = proxy_address_parts(url@);
            &&& parts is Some && (parts->0).0 != Some(false) ==> (r matches Ok(Some(p))
                && p.url@ == url@ && p.address@ == (parts->0).1)
            &&& config.mode == UpstreamProxyMode::System && parts is None ==> (r matches Err(
                UpstreamProxyError::InvalidSystemProxyUrl { url: u },
            ) && u@ == url@)
            &&& config.mode == UpstreamProxyMode::System && parts is Some && (parts->0).0 == Some(
                false,
            ) ==> (r matches Err(UpstreamProxyError::UnsupportedSystemProxyProtocol { url: u })
                && u@ == url@)
            &&& config.mode == UpstreamProxyMode::Auto && (parts is None || (parts->0).0 == Some(
                false,
            )) ==> (r matches Ok(p) && p.deep_view() == config.env@.for_protocol(is_secure))
        },
        decision matches SystemProxyDecision::Unavailable { failure } ==> {
            &&& config.mode == UpstreamProxyMode::System ==> r == Err::<
                Option<UpstreamProxy>,
                UpstreamProxyError,
            >(UpstreamProxyError::SystemProxyUnavailable(failure))
            &&& config.mode == UpstreamProxyMode::Auto ==> (r matches Ok(p) && p.deep_view()
                == config.env@.for_protocol(is_secure))
        },
{
}

/// A variable names a proxy where its value, without white space around it, is the
/// address of one of HTTP, with that scheme or without any; the proxy is then at
/// that address.
pub proof fn law_variable_names_a_proxy_of_http(env: EnvModel, key: Seq<char>)
    ensures
        !env.contains_key(key) ==> variable_proxy(env, key) is None,
        env.contains_key(key) ==> {
            let url = trim(env[key]@);
            let parts = proxy_address_parts(url);
            &&& url.len() == 0 || parts is None || (parts->0).0 == Some(false) ==> variable_proxy(
                env,
                key,
            ) is None
            &&& url.len() > 0 && parts is Some && (parts->0).0 != Some(false) ==> variable_proxy(
                env,
                key,
            ) == Some(ProxyModel { url, address: (parts->0).1 })
        },
{
}

/// Each kind of request has its own variables. The name in capitals comes before
/// that in small letters, which counts where the first names no proxy.
pub proof fn law_names_in_capitals_come_first(env: EnvModel)
    ensures
        ({
            let named = env_proxies(env);
            let of = |key: Seq<char>| variable_proxy(env, key);
            &&& of("HTTPS_PROXY"@) is Some ==> named.https == of("HTTPS_PROXY"@)
            &&& of("HTTPS_PROXY"@) is None ==> named.https == of("https_proxy"@)
            &&& of("HTTP_PROXY"@) is Some ==> named.http == of("HTTP_PROXY"@)
            &&& of("HTTP_PROXY"@) is None ==> named.http == of("http_proxy"@)
            &&& of("ALL_PROXY"@) is Some ==> named.all == of("ALL_PROXY"@)
            &&& of("ALL_PROXY"@) is None ==> named.all == of("all_proxy"@)
        }),
{
}

/// A request that gives its full address goes to that address. Any other goes to
/// its server, by the protocol of its server, with the path and query that it
/// gives, or to the root.
pub proof fn law_missing_parts_of_an_address_come_from_the_server(
    uri: RequestUri,
    target: RequestTarget,
)
    ensures
        uri.has_scheme && uri.has_authority ==> target_url(uri, target) == uri.text@,
        !(uri.has_scheme && uri.has_authority) ==> target_url(uri, target) == (if target.is_secure {
            "https://"@
        } else {
            "http://"@
        }) + target.authority@ + (if uri.path_and_query is Some {
            (uri.path_and_query->0)@
        } else {
            seq!['/']
        }),
{
    reveal_strlit("https");
    reveal_strlit("http");
    reveal_strlit("://");
    reveal_strlit("https://");
    reveal_strlit("http://");
    reveal_strlit("/");
    assert("https"@ + "://"@ =~= "https://"@);
    assert("http"@ + "://"@ =~= "http://"@);
    assert("/"@ =~= seq!['/']);
}

/// What is said of a decision of the platform that gives no route is what the error
/// for it says.
pub proof fn law_failure_text_is_that_of_the_error(
    decision: SystemProxyDecision,
    e: UpstreamProxyError,
)
    requires
        system_route(decision, Err(e)),
    ensures
        system_fails(decision),
        e.text() == system_failure_text(decision),
{
}

/// The text of an error says what the platform did, and names the address or the
/// failure that it is about.
pub proof fn law_error_text_names_what_it_is_about(url: String, failure: RouteFailureClass)
    ensures
        UpstreamProxyError::SystemProxyUnavailable(failure).text()
            == "system proxy resolution failed: "@ + failure.name(),
        (UpstreamProxyError::InvalidSystemProxyUrl { url }).text()
            == "system proxy returned invalid proxy URL: "@ + url@,
        (UpstreamProxyError::UnsupportedSystemProxyProtocol { url }).text()
            == "system proxy returned unsupported proxy protocol: "@ + url@,
{
}

/// What is known of an address is its kind and its characters, as they are.
pub proof fn law_known_address_is_seen_whole(is_http: Option<bool>, address: String)
    ensures
        parsed_model(None) is None,
        parsed_model(Some((is_http, address))) == Some((is_http, address@)),
{
}

} // verus!
