//! The choice of a route for a client.
use vstd::prelude::*;
use super::cache::SystemDecision;
use super::cache::SystemProxyDecision;
use super::no_proxy::list_covers;
use super::no_proxy::no_proxy_matches_origin;
use super::origin::origin_of;
use super::origin::OriginModel;
use super::origin::RequestOrigin;
use crate::outside::web::accepts_proxy_url;
use crate::outside::web::proxy_url_accepted;
use crate::text::chars::chars_of;
use crate::text::chars::is_one_of;
use crate::text::chars::lowered;
use crate::text::chars::push_text;
use crate::text::chars::same_text;
use crate::text::chars::string_of;
use crate::text::chars::texts;
use crate::text::chars::to_lowered;
use crate::text::chars::trim;
use crate::text::chars::trim_chars;
use crate::text_map::TextMap;

verus! {

/// The variable that switches platform discovery off.
pub const CODEX_SYSTEM_PROXY_ENV: &'static str = "CODEX_SYSTEM_PROXY";

/// What the environment says of platform discovery.
#[derive(Debug, Clone, Copy, PartialEq, Eq, Structural)]
pub enum SystemProxyEnvOverride {
    /// Nothing.
    Default,
    /// Discovery is off.
    Disabled,
}

/// Whether a value switches platform discovery off.
pub open spec fn switches_off(value: Seq<char>) -> bool {
    let v = lowered(trim(value));
    v == "off"@ || v == "false"@ || v == "0"@ || v == "no"@ || v == "disabled"@
}

impl SystemProxyEnvOverride {
    /// Reads the value of the variable.
    pub fn from_value(value: Option<&str>) -> (r: Self)
        ensures
            r == (if value matches Some(v) && switches_off(v@) {
                SystemProxyEnvOverride::Disabled
            } else {
                SystemProxyEnvOverride::Default
            }),
    {
        let value = match value {
            Some(value) => value,
            None => {
                return SystemProxyEnvOverride::Default;
            },
        };
        let chars = chars_of(value);
        let low = to_lowered(trim_chars(&chars));
        let words = ["off", "false", "0", "no", "disabled"];
        proof {
            lemma_switch_words(low@, words@);
        }
        if is_one_of(&low, &words) {
            SystemProxyEnvOverride::Disabled
        } else {
            SystemProxyEnvOverride::Default
        }
    }

    /// Whether platform discovery may be tried.
    pub fn system_discovery_enabled(self) -> (r: bool)
        ensures
            r == (self == SystemProxyEnvOverride::Default),
    {
        match self {
            SystemProxyEnvOverride::Default => true,
            SystemProxyEnvOverride::Disabled => false,
        }
    }
}

proof fn lemma_switch_words(v: Seq<char>, words: Seq<&str>)
    requires
        words == seq!["off", "false", "0", "no", "disabled"],
    ensures
        texts(words).contains(v) == (v == "off"@ || v == "false"@ || v == "0"@ || v == "no"@ || v
            == "disabled"@),
{
    let all = texts(words);
    assert(all[0] == "off"@ && all[1] == "false"@ && all[2] == "0"@ && all[3] == "no"@ && all[4]
        == "disabled"@);
}

/// The kind of traffic that is routed.
#[derive(Debug, Clone, Copy, PartialEq, Eq, Structural)]
pub enum ClientRouteClass {
    /// Authentication.
    Auth,
    /// The interface of the service.
    Api,
    /// Websockets.
    WebSocket,
    /// Anything else.
    Other,
}

impl ClientRouteClass {
    /// The name of the kind.
    pub open spec fn name(self) -> Seq<char> {
        match self {
            ClientRouteClass::Auth => "auth"@,
            ClientRouteClass::Api => "api"@,
            ClientRouteClass::WebSocket => "wss"@,
            ClientRouteClass::Other => "other"@,
        }
    }

    /// The name of the kind.
    pub fn to_text(&self) -> (r: &'static str)
        ensures
            r@ == self.name(),
    {
        match self {
            ClientRouteClass::Auth => "auth",
            ClientRouteClass::Api => "api",
            ClientRouteClass::WebSocket => "wss",
            ClientRouteClass::Other => "other",
        }
    }
}

/// Why no route could be chosen, coarsely.
#[derive(Debug, Clone, Copy, PartialEq, Eq, Structural)]
pub enum RouteFailureClass {
    /// Discovery is not to be had.
    ProxyResolutionUnavailable,
    /// No connection in time.
    ConnectTimeout,
    /// The proxy wants credentials.
    ProxyAuthenticationRequired,
    /// The secure connection failed.
    TlsError,
    /// The proxy setting is unusable.
    InvalidProxyConfig,
    /// The proxy's scheme is not supported.
    UnsupportedProxyScheme,
    /// The platform's resolver failed.
    ResolverError,
}

impl RouteFailureClass {
    /// The name of the class.
    pub open spec fn name(self) -> Seq<char> {
        match self {
            RouteFailureClass::ProxyResolutionUnavailable => "proxy_resolution_unavailable"@,
            RouteFailureClass::ConnectTimeout => "connect_timeout"@,
            RouteFailureClass::ProxyAuthenticationRequired => "proxy_407"@,
            RouteFailureClass::TlsError => "tls_error"@,
            RouteFailureClass::InvalidProxyConfig => "invalid_proxy_config"@,
            RouteFailureClass::UnsupportedProxyScheme => "unsupported_proxy_scheme"@,
            RouteFailureClass::ResolverError => "resolver_error"@,
        }
    }

    /// The name of the class.
    pub fn to_text(&self) -> (r: &'static str)
        ensures
            r@ == self.name(),
    {
        match self {
            RouteFailureClass::ProxyResolutionUnavailable => "proxy_resolution_unavailable",
            RouteFailureClass::ConnectTimeout => "connect_timeout",
            RouteFailureClass::ProxyAuthenticationRequired => "proxy_407",
            RouteFailureClass::TlsError => "tls_error",
            RouteFailureClass::InvalidProxyConfig => "invalid_proxy_config",
            RouteFailureClass::UnsupportedProxyScheme => "unsupported_proxy_scheme",
            RouteFailureClass::ResolverError => "resolver_error",
        }
    }
}

/// How a client chooses its proxy.
#[derive(Debug, Clone, Copy, PartialEq, Eq, Structural)]
pub enum OutboundProxyMode {
    /// Platform discovery where supported, then the environment, then no change.
    Auto,
    /// The environment only.
    Env,
    /// Platform discovery, required.
    System,
    /// No proxy.
    Direct,
}

impl Default for OutboundProxyMode {
    fn default() -> (r: Self)
        ensures
            r == OutboundProxyMode::Auto,
    {
        OutboundProxyMode::Auto
    }
}

/// The policy by which a client chooses its proxy.
#[derive(Debug, Clone, Copy, PartialEq, Eq, Structural)]
pub struct OutboundProxyConfig {
    mode: OutboundProxyMode,
}

impl OutboundProxyConfig {
    /// The mode of the policy.
    pub closed spec fn policy_mode(self) -> OutboundProxyMode {
        self.mode
    }

    /// A policy with the given mode.
    pub fn new(mode: OutboundProxyMode) -> (r: Self)
        ensures
            r.policy_mode() == mode,
    {
        OutboundProxyConfig { mode }
    }

    /// The mode of the policy.
    pub fn mode(&self) -> (r: OutboundProxyMode)
        ensures
            r == self.policy_mode(),
    {
        self.mode
    }
}

impl Default for OutboundProxyConfig {
    fn default() -> (r: Self)
        ensures
            r.policy_mode() == OutboundProxyMode::Auto,
    {
        OutboundProxyConfig { mode: OutboundProxyMode::Auto }
    }
}

/// Why no route-aware client could be built.
#[derive(Debug, Clone, PartialEq, Eq)]
pub enum BuildRouteAwareHttpClientError {
    /// The certificate authorities could not be set up.
    CustomCa(String),
    /// The selected proxy is unusable.
    InvalidProxyConfig {
        /// The kind of traffic.
        route_class: ClientRouteClass,
    },
    /// Platform discovery, which the policy requires, came to no decision.
    SystemProxyUnavailable {
        /// The kind of traffic.
        route_class: ClientRouteClass,
        /// The reason.
        failure: RouteFailureClass,
    },
}

impl BuildRouteAwareHttpClientError {
    /// The text of the error.
    pub open spec fn text(self) -> Seq<char> {
        match self {
            BuildRouteAwareHttpClientError::CustomCa(message) => message@,
            BuildRouteAwareHttpClientError::InvalidProxyConfig { route_class } =>
                "Failed to configure outbound proxy selected for "@ + route_class.name(),
            BuildRouteAwareHttpClientError::SystemProxyUnavailable { route_class, failure } =>
                "System proxy resolution for "@ + route_class.name() + " failed: "@
                + failure.name(),
        }
    }

    /// Writes the error as a text.
    pub fn to_text(&self) -> (r: String)
        ensures
            r@ == self.text(),
    {
        match self {
            BuildRouteAwareHttpClientError::CustomCa(message) => message.clone(),
            BuildRouteAwareHttpClientError::InvalidProxyConfig { route_class } => {
                let mut out = chars_of("Failed to configure outbound proxy selected for ");
                push_text(&mut out, route_class.to_text());
                string_of(&out)
            },
            BuildRouteAwareHttpClientError::SystemProxyUnavailable { route_class, failure } => {
                let mut out = chars_of("System proxy resolution for ");
                push_text(&mut out, route_class.to_text());
                push_text(&mut out, " failed: ");
                push_text(&mut out, failure.to_text());
                string_of(&out)
            },
        }
    }
}

/// What to do with the proxies of a client.
#[derive(Debug, Clone, PartialEq, Eq)]
pub enum ProxyRoute {
    /// Leave the client as it is; it honours the environment by itself.
    Unchanged,
    /// Use no proxy.
    NoProxy,
    /// Use this proxy, save for the hosts that the environment exempts.
    Proxy(String),
}

/// A route over the characters of the address.
pub enum Route {
    /// Leave the client as it is.
    Unchanged,
    /// Use no proxy.
    NoProxy,
    /// Use this proxy.
    Proxy(Seq<char>),
    /// No route, for this reason.
    Failed(BuildRouteAwareHttpClientError),
}

/// Whether a result says what the route says.
pub open spec fn yields(
    r: Result<ProxyRoute, BuildRouteAwareHttpClientError>,
    route: Route,
) -> bool {
    match r {
        Ok(ProxyRoute::Unchanged) => route == Route::Unchanged,
        Ok(ProxyRoute::NoProxy) => route == Route::NoProxy,
        Ok(ProxyRoute::Proxy(url)) => route == Route::Proxy(url@),
        Err(e) => route == Route::Failed(e),
    }
}

/// The values of environment variables.
pub type EnvModel = Map<Seq<char>, String>;

/// The value of a variable that is not empty.
pub open spec fn filled(env: EnvModel, name: Seq<char>) -> Option<Seq<char>> {
    if env.contains_key(name) && env[name]@.len() > 0 {
        Some(env[name]@)
    } else {
        None
    }
}

/// The value of a proxy variable, under its name in capitals or else in small
/// letters. An empty value counts as none.
pub open spec fn proxy_value(env: EnvModel, upper: Seq<char>) -> Option<Seq<char>> {
    match filled(env, upper) {
        Some(v) => Some(v),
        None => filled(env, lowered(upper)),
    }
}

/// The proxy that the environment names for an origin.
pub open spec fn env_proxy(env: EnvModel, origin: OriginModel) -> Option<Seq<char>> {
    let specific = if origin.scheme == "https"@ {
        proxy_value(env, "HTTPS_PROXY"@)
    } else if origin.scheme == "http"@ {
        proxy_value(env, "HTTP_PROXY"@)
    } else {
        None
    };
    match specific {
        Some(url) => Some(url),
        None => proxy_value(env, "ALL_PROXY"@),
    }
}

/// Whether the environment exempts an origin from proxies.
pub open spec fn env_exempts(env: EnvModel, origin: OriginModel) -> bool {
    proxy_value(env, "NO_PROXY"@) matches Some(list) && list_covers(list, origin)
}

/// The value of a proxy variable.
pub fn proxy_env_value<'a>(env: &'a TextMap<String>, upper: &str) -> (r: Option<&'a String>)
    requires
        env.wf(),
    ensures
        match r {
            Some(v) => proxy_value(env@, upper@) == Some(v@),
            None => proxy_value(env@, upper@) is None,
        },
{
    if let Some(v) = env.get(upper) {
        if chars_of(v.as_str()).len() > 0 {
            return Some(v);
        }
    }
    let lower = string_of(&to_lowered(&chars_of(upper)));
    if let Some(v) = env.get(lower.as_str()) {
        if chars_of(v.as_str()).len() > 0 {
            return Some(v);
        }
    }
    None
}

/// The proxy that the environment names for an origin.
pub fn env_proxy_for_origin<'a>(env: &'a TextMap<String>, origin: &RequestOrigin) -> (r: Option<
    &'a String,
>)
    requires
        env.wf(),
    ensures
        match r {
            Some(v) => env_proxy(env@, origin@) == Some(v@),
            None => env_proxy(env@, origin@) is None,
        },
{
    let specific = if same_text(origin.scheme.as_str(), "https") {
        proxy_env_value(env, "HTTPS_PROXY")
    } else if same_text(origin.scheme.as_str(), "http") {
        proxy_env_value(env, "HTTP_PROXY")
    } else {
        None
    };
    match specific {
        Some(url) => Some(url),
        None => proxy_env_value(env, "ALL_PROXY"),
    }
}

/// Whether the environment exempts an origin from proxies.
pub fn no_proxy_env_matches_origin(env: &TextMap<String>, origin: &RequestOrigin) -> (r: bool)
    requires
        env.wf(),
    ensures
        r == env_exempts(env@, origin@),
{
    match proxy_env_value(env, "NO_PROXY") {
        Some(list) => no_proxy_matches_origin(list.as_str(), origin),
        None => false,
    }
}

/// Whether the environment names any proxy.
pub fn conventional_proxy_env_present(env: &TextMap<String>) -> (r: bool)
    requires
        env.wf(),
    ensures
        r == (proxy_value(env@, "HTTPS_PROXY"@) is Some || proxy_value(env@, "HTTP_PROXY"@) is Some
            || proxy_value(env@, "ALL_PROXY"@) is Some),
{
    proxy_env_value(env, "HTTPS_PROXY").is_some() || proxy_env_value(env, "HTTP_PROXY").is_some()
        || proxy_env_value(env, "ALL_PROXY").is_some()
}

/// The route through a concrete proxy, by whether its address is accepted.
pub open spec fn concrete_route(route_class: ClientRouteClass, url: Seq<char>, accepted: bool) -> Route {
    if accepted {
        Route::Proxy(url)
    } else {
        Route::Failed(BuildRouteAwareHttpClientError::InvalidProxyConfig { route_class })
    }
}

/// The route through a concrete proxy, by whether its address is accepted.
pub fn concrete_proxy_route(route_class: ClientRouteClass, proxy_url: &str, accepted: bool) -> (r:
    Result<ProxyRoute, BuildRouteAwareHttpClientError>)
    ensures
        yields(r, concrete_route(route_class, proxy_url@, accepted)),
{
    if accepted {
        Ok(ProxyRoute::Proxy(proxy_url.to_owned()))
    } else {
        Err(BuildRouteAwareHttpClientError::InvalidProxyConfig { route_class })
    }
}

/// The route through a concrete proxy, which must have a usable address.
pub fn configure_concrete_proxy(route_class: ClientRouteClass, proxy_url: &str) -> (r: Result<
    ProxyRoute,
    BuildRouteAwareHttpClientError,
>)
    ensures
        yields(r, concrete_route(route_class, proxy_url@, proxy_url_accepted(proxy_url@))),
{
    let accepted = accepts_proxy_url(proxy_url);
    concrete_proxy_route(route_class, proxy_url, accepted)
}

/// What becomes of the proxies that the environment names.
#[derive(Debug, Clone, Copy, PartialEq, Eq, Structural)]
pub enum EnvProxyHandling {
    /// The named proxy is set on the client, or none is used.
    ResolveConcreteOrNoProxy,
    /// The client honours the environment by itself.
    DelegateToReqwest,
}

/// The route by the environment, where `named` is the proxy that it names for
/// the origin and `accepted` tells whether that proxy's address is usable.
pub open spec fn env_route(
    named: Option<Seq<char>>,
    accepted: bool,
    route_class: ClientRouteClass,
    handling: EnvProxyHandling,
) -> Route {
    match handling {
        EnvProxyHandling::DelegateToReqwest => Route::Unchanged,
        EnvProxyHandling::ResolveConcreteOrNoProxy => match named {
            Some(url) => concrete_route(route_class, url, accepted),
            None => Route::NoProxy,
        },
    }
}

/// The route by the environment for an origin.
pub open spec fn env_route_for(
    env: EnvModel,
    origin: Option<OriginModel>,
    route_class: ClientRouteClass,
    handling: EnvProxyHandling,
) -> Route {
    let named = match origin {
        Some(origin) => env_proxy(env, origin),
        None => None,
    };
    env_route(
        named,
        named matches Some(url) && proxy_url_accepted(url),
        route_class,
        handling,
    )
}

/// The route by the environment.
pub fn configure_env_proxy_handling(
    env: &TextMap<String>,
    origin: Option<&RequestOrigin>,
    route_class: ClientRouteClass,
    handling: EnvProxyHandling,
) -> (r: Result<ProxyRoute, BuildRouteAwareHttpClientError>)
    requires
        env.wf(),
    ensures
        yields(
            r,
            env_route_for(
                env@,
                match origin {
                    Some(origin) => Some(origin@),
                    None => None,
                },
                route_class,
                handling,
            ),
        ),
{
    let named = match origin {
        Some(origin) => env_proxy_for_origin(env, origin),
        None => None,
    };
    match (named, handling) {
        (Some(url), EnvProxyHandling::ResolveConcreteOrNoProxy) => configure_concrete_proxy(
            route_class,
            url.as_str(),
        ),
        (None, EnvProxyHandling::ResolveConcreteOrNoProxy) => Ok(ProxyRoute::NoProxy),
        (_, EnvProxyHandling::DelegateToReqwest) => Ok(ProxyRoute::Unchanged),
    }
}

/// The route that is chosen, or the platform discovery that is needed first.
pub enum RouteStep {
    /// The route is chosen.
    Done(Result<ProxyRoute, BuildRouteAwareHttpClientError>),
    /// The platform has to be asked about the origin.
    ResolveSystemProxy {
        /// Where the request goes to.
        origin: RequestOrigin,
        /// Whether automatic detection takes part.
        include_auto_detect: bool,
    },
}

/// The route that can be chosen without asking the platform; `None` where the
/// platform has to be asked.
pub open spec fn early_route(
    origin: Option<OriginModel>,
    route_class: ClientRouteClass,
    config: Option<OutboundProxyMode>,
    env: EnvModel,
    system_proxy_supported: bool,
) -> Option<Route> {
    match config {
        None => Some(Route::Unchanged),
        Some(OutboundProxyMode::Direct) => Some(Route::NoProxy),
        Some(mode) => if origin matches Some(o) && env_exempts(env, o) {
            Some(
                if mode == OutboundProxyMode::Env {
                    Route::NoProxy
                } else {
                    Route::Unchanged
                },
            )
        } else if mode == OutboundProxyMode::Env {
            Some(
                env_route_for(
                    env,
                    origin,
                    route_class,
                    EnvProxyHandling::ResolveConcreteOrNoProxy,
                ),
            )
        } else if discovery_disabled(env) || !system_proxy_supported {
            Some(
                undecided_route(
                    mode,
                    route_class,
                    RouteFailureClass::ProxyResolutionUnavailable,
                ),
            )
        } else if origin is None {
            Some(undecided_route(mode, route_class, RouteFailureClass::InvalidProxyConfig))
        } else {
            None
        },
    }
}

/// Whether the environment switches platform discovery off.
pub open spec fn discovery_disabled(env: EnvModel) -> bool {
    env.contains_key(CODEX_SYSTEM_PROXY_ENV@) && switches_off(env[CODEX_SYSTEM_PROXY_ENV@]@)
}

/// The route where platform discovery comes to no decision: a failure where the
/// policy requires one, and the client's own handling of the environment otherwise.
pub open spec fn undecided_route(
    mode: OutboundProxyMode,
    route_class: ClientRouteClass,
    failure: RouteFailureClass,
) -> Route {
    if mode == OutboundProxyMode::System {
        Route::Failed(
            BuildRouteAwareHttpClientError::SystemProxyUnavailable { route_class, failure },
        )
    } else {
        Route::Unchanged
    }
}

/// The route after the platform's decision.
pub open spec fn system_route(
    mode: OutboundProxyMode,
    route_class: ClientRouteClass,
    decision: SystemDecision,
) -> Route {
    match decision {
        SystemDecision::Direct => Route::NoProxy,
        SystemDecision::Proxy(url) => concrete_route(route_class, url, proxy_url_accepted(url)),
        SystemDecision::Unavailable(failure) => undecided_route(mode, route_class, failure),
    }
}

/// Chooses the route of a client for an address, as far as that is possible
/// without asking the platform.
pub fn configure_proxy_for_route(
    request_url: &str,
    route_class: ClientRouteClass,
    config: Option<&OutboundProxyConfig>,
    env: &TextMap<String>,
    system_proxy_supported: bool,
) -> (r: RouteStep)
    requires
        env.wf(),
    ensures
        match early_route(
            origin_of(request_url@),
            route_class,
            match config {
                Some(config) => Some(config.policy_mode()),
                None => None,
            },
            env@,
            system_proxy_supported,
        ) {
            Some(route) => r matches RouteStep::Done(result) && yields(result, route),
            None => r matches RouteStep::ResolveSystemProxy { origin, include_auto_detect }
                && origin_of(request_url@) == Some(origin@) && include_auto_detect,
        },
{
    match config {
        Some(config) => route_for_origin(
            RequestOrigin::parse(request_url),
            route_class,
            config.mode(),
            env,
            system_proxy_supported,
        ),
        None => RouteStep::Done(Ok(ProxyRoute::Unchanged)),
    }
}

/// Chooses the route of a client for an origin, as far as that is possible
/// without asking the platform.
pub fn route_for_origin(
    origin: Option<RequestOrigin>,
    route_class: ClientRouteClass,
    mode: OutboundProxyMode,
    env: &TextMap<String>,
    system_proxy_supported: bool,
) -> (r: RouteStep)
    requires
        env.wf(),
    ensures
        match early_route(
            match origin {
                Some(origin) => Some(origin@),
                None => None,
            },
            route_class,
            Some(mode),
            env@,
            system_proxy_supported,
        ) {
            Some(route) => r matches RouteStep::Done(result) && yields(result, route),
            None => r matches RouteStep::ResolveSystemProxy { origin: o, include_auto_detect }
                && origin == Some(o) && include_auto_detect,
        },
{
    if mode == OutboundProxyMode::Direct {
        return RouteStep::Done(Ok(ProxyRoute::NoProxy));
    }
    let exempt = match &origin {
        Some(origin) => no_proxy_env_matches_origin(env, origin),
        None => false,
    };
    if exempt {
        if mode == OutboundProxyMode::Env {
            return RouteStep::Done(Ok(ProxyRoute::NoProxy));
        }
        return RouteStep::Done(Ok(ProxyRoute::Unchanged));
    }
    if mode == OutboundProxyMode::Env {
        return RouteStep::Done(
            configure_env_proxy_handling(
                env,
                origin.as_ref(),
                route_class,
                EnvProxyHandling::ResolveConcreteOrNoProxy,
            ),
        );
    }
    let switch = match env.get(CODEX_SYSTEM_PROXY_ENV) {
        Some(value) => SystemProxyEnvOverride::from_value(Some(value.as_str())),
        None => SystemProxyEnvOverride::from_value(None),
    };
    if !switch.system_discovery_enabled() || !system_proxy_supported {
        return RouteStep::Done(
            undecided(
                mode,
                route_class,
                RouteFailureClass::ProxyResolutionUnavailable,
                env,
                origin.as_ref(),
            ),
        );
    }
    match origin {
        None => RouteStep::Done(
            undecided(mode, route_class, RouteFailureClass::InvalidProxyConfig, env, None),
        ),
        Some(origin) => {
            let include_auto_detect = mode == OutboundProxyMode::Auto || mode
                == OutboundProxyMode::System;
            RouteStep::ResolveSystemProxy { origin, include_auto_detect }
        },
    }
}

/// The route where platform discovery comes to no decision.
fn undecided(
    mode: OutboundProxyMode,
    route_class: ClientRouteClass,
    failure: RouteFailureClass,
    env: &TextMap<String>,
    origin: Option<&RequestOrigin>,
) -> (r: Result<ProxyRoute, BuildRouteAwareHttpClientError>)
    requires
        env.wf(),
    ensures
        yields(r, undecided_route(mode, route_class, failure)),
{
    if mode == OutboundProxyMode::System {
        Err(BuildRouteAwareHttpClientError::SystemProxyUnavailable { route_class, failure })
    } else {
        configure_env_proxy_handling(env, origin, route_class, EnvProxyHandling::DelegateToReqwest)
    }
}

/// Chooses the route of a client after the platform's decision.
pub fn route_for_system_decision(
    mode: OutboundProxyMode,
    route_class: ClientRouteClass,
    origin: &RequestOrigin,
    env: &TextMap<String>,
    decision: &SystemProxyDecision,
) -> (r: Result<ProxyRoute, BuildRouteAwareHttpClientError>)
    requires
        env.wf(),
    ensures
        yields(r, system_route(mode, route_class, decision@)),
{
    match decision {
        SystemProxyDecision::Direct => Ok(ProxyRoute::NoProxy),
        SystemProxyDecision::Proxy { url } => configure_concrete_proxy(route_class, url.as_str()),
        SystemProxyDecision::Unavailable { failure } => undecided(
            mode,
            route_class,
            *failure,
            env,
            Some(origin),
        ),
    }
}

/// Without a policy a client stays as it is, whatever the environment holds.
pub proof fn law_no_policy_changes_nothing(
    origin: Option<OriginModel>,
    route_class: ClientRouteClass,
    env: EnvModel,
    supported: bool,
)
    ensures
        early_route(origin, route_class, None, env, supported) == Some(Route::Unchanged),
{
}

/// A direct client uses no proxy, whatever the environment holds.
pub proof fn law_direct_uses_no_proxy(
    origin: Option<OriginModel>,
    route_class: ClientRouteClass,
    env: EnvModel,
    supported: bool,
)
    ensures
        early_route(origin, route_class, Some(OutboundProxyMode::Direct), env, supported) == Some(
            Route::NoProxy,
        ),
{
}

/// The platform is asked only for a client that may use platform discovery,
/// where discovery is supported and not switched off, the address has an origin,
/// and the environment does not exempt it.
pub proof fn law_platform_is_asked_only_when_allowed(
    origin: Option<OriginModel>,
    route_class: ClientRouteClass,
    mode: OutboundProxyMode,
    env: EnvModel,
    supported: bool,
)
    requires
        early_route(origin, route_class, Some(mode), env, supported) is None,
    ensures
        mode == OutboundProxyMode::Auto || mode == OutboundProxyMode::System,
        supported,
        !discovery_disabled(env),
        origin is Some,
        !env_exempts(env, origin->0),
{
}

/// An automatic client never fails for want of platform discovery: it fails only
/// where the platform names a proxy with an unusable address.
pub proof fn law_automatic_mode_fails_only_on_unusable_proxy(
    origin: Option<OriginModel>,
    route_class: ClientRouteClass,
    env: EnvModel,
    supported: bool,
    decision: SystemDecision,
)
    ensures
        !(early_route(origin, route_class, Some(OutboundProxyMode::Auto), env, supported) matches Some(
            route,
        ) && route is Failed),
        system_route(OutboundProxyMode::Auto, route_class, decision) is Failed ==> (
        decision matches SystemDecision::Proxy(url) && !proxy_url_accepted(url)),
{
}

/// An automatic client falls back on the environment: wherever platform discovery
/// is unsupported or switched off, has no address to go by, or comes to no
/// decision, the client stays as it is. It uses no proxy at all exactly where the
/// platform itself decided on a direct connection.
pub proof fn law_automatic_client_falls_back_on_the_environment(
    origin: Option<OriginModel>,
    route_class: ClientRouteClass,
    env: EnvModel,
    supported: bool,
    decision: SystemDecision,
)
    ensures
        !supported || origin is None || (env.contains_key("CODEX_SYSTEM_PROXY"@) && switches_off(
            env["CODEX_SYSTEM_PROXY"@]@,
        )) ==> early_route(
            origin,
            route_class,
            Some(OutboundProxyMode::Auto),
            env,
            supported,
        ) == Some(Route::Unchanged),
        early_route(origin, route_class, Some(OutboundProxyMode::Auto), env, supported) matches Some(
            route,
        ) ==> route == Route::Unchanged,
        system_route(OutboundProxyMode::Auto, route_class, decision) == Route::Unchanged <==>
            decision is Unavailable,
        system_route(OutboundProxyMode::Auto, route_class, decision) == Route::NoProxy <==>
            decision is Direct,
{
}

/// A client that requires platform discovery fails wherever there is none to be
/// had, and says for which kind of traffic and why; it never falls back.
pub proof fn law_required_discovery_never_falls_back(
    origin: Option<OriginModel>,
    route_class: ClientRouteClass,
    env: EnvModel,
    supported: bool,
    failure: RouteFailureClass,
)
    ensures
        !supported && (origin matches Some(o) ==> !env_exempts(env, o)) ==> early_route(
            origin,
            route_class,
            Some(OutboundProxyMode::System),
            env,
            supported,
        ) == Some(
            Route::Failed(
                BuildRouteAwareHttpClientError::SystemProxyUnavailable {
                    route_class,
                    failure: RouteFailureClass::ProxyResolutionUnavailable,
                },
            ),
        ),
        supported && !discovery_disabled(env) && origin is None ==> early_route(
            origin,
            route_class,
            Some(OutboundProxyMode::System),
            env,
            supported,
        ) == Some(
            Route::Failed(
                BuildRouteAwareHttpClientError::SystemProxyUnavailable {
                    route_class,
                    failure: RouteFailureClass::InvalidProxyConfig,
                },
            ),
        ),
        system_route(
            OutboundProxyMode::System,
            route_class,
            SystemDecision::Unavailable(failure),
        ) == Route::Failed(
            BuildRouteAwareHttpClientError::SystemProxyUnavailable { route_class, failure },
        ),
{
}

/// What the platform decided is followed whatever the policy: a direct connection
/// uses no proxy, a named proxy that is usable is the one that is used, and one
/// that is not makes the client fail.
pub proof fn law_platform_decision_is_followed(
    mode: OutboundProxyMode,
    route_class: ClientRouteClass,
    url: Seq<char>,
)
    ensures
        system_route(mode, route_class, SystemDecision::Direct) == Route::NoProxy,
        proxy_url_accepted(url) ==> system_route(mode, route_class, SystemDecision::Proxy(url))
            == Route::Proxy(url),
        !proxy_url_accepted(url) ==> system_route(mode, route_class, SystemDecision::Proxy(url))
            == Route::Failed(BuildRouteAwareHttpClientError::InvalidProxyConfig { route_class }),
{
}

/// The platform is asked for every client that may use platform discovery, where
/// discovery is supported and not switched off and the address has an origin that
/// the environment does not exempt.
pub proof fn law_platform_is_asked_when_allowed(
    origin: OriginModel,
    route_class: ClientRouteClass,
    mode: OutboundProxyMode,
    env: EnvModel,
)
    requires
        mode == OutboundProxyMode::Auto || mode == OutboundProxyMode::System,
        !env_exempts(env, origin),
        !env.contains_key("CODEX_SYSTEM_PROXY"@) || !switches_off(env["CODEX_SYSTEM_PROXY"@]@),
    ensures
        early_route(Some(origin), route_class, Some(mode), env, true) is None,
{
}

/// An address that the environment exempts goes through no proxy: the client is
/// told so where the environment alone decides, and knows by itself otherwise,
/// whatever the platform supports.
pub proof fn law_exempted_address_is_left_alone(
    origin: OriginModel,
    route_class: ClientRouteClass,
    mode: OutboundProxyMode,
    env: EnvModel,
    supported: bool,
)
    requires
        env_exempts(env, origin),
    ensures
        early_route(Some(origin), route_class, Some(mode), env, supported) is Some,
        mode == OutboundProxyMode::Env || mode == OutboundProxyMode::Direct ==> early_route(
            Some(origin),
            route_class,
            Some(mode),
            env,
            supported,
        ) == Some(Route::NoProxy),
        mode == OutboundProxyMode::Auto || mode == OutboundProxyMode::System ==> early_route(
            Some(origin),
            route_class,
            Some(mode),
            env,
            supported,
        ) == Some(Route::Unchanged),
{
}

/// Where the environment alone decides, the platform does not matter: the proxy
/// that the environment names is used if it is usable and makes the client fail if
/// it is not, and where it names none, none is used.
pub proof fn law_environment_alone_decides_in_its_mode(
    origin: OriginModel,
    route_class: ClientRouteClass,
    env: EnvModel,
    supported: bool,
)
    requires
        !env_exempts(env, origin),
    ensures
        early_route(Some(origin), route_class, Some(OutboundProxyMode::Env), env, supported)
            == Some(
            match env_proxy(env, origin) {
                Some(url) if proxy_url_accepted(url) => Route::Proxy(url),
                Some(_) => Route::Failed(
                    BuildRouteAwareHttpClientError::InvalidProxyConfig { route_class },
                ),
                None => Route::NoProxy,
            },
        ),
        early_route(None, route_class, Some(OutboundProxyMode::Env), env, supported) == Some(
            Route::NoProxy,
        ),
{
}

/// The environment names the proxy of an address by its scheme: a secure address
/// takes what is set for secure addresses before anything else, a plain address
/// what is set for plain ones, each never what is set for the other, and what is
/// set for all addresses counts where there is nothing of its own. Names in
/// capitals come before those in small letters, and an empty value counts as none.
pub proof fn law_environment_names_proxy_by_scheme(
    env: EnvModel,
    origin: OriginModel,
    url: Seq<char>,
)
    ensures
        ({
            let named = env_proxy(env, origin);
            &&& origin.scheme == "https"@ ==> {
                &&& names(env, "HTTPS_PROXY"@, url) ==> named == Some(url)
                &&& names_none(env, "HTTPS_PROXY"@) && names(env, "https_proxy"@, url) ==> named
                    == Some(url)
                &&& names_none(env, "HTTPS_PROXY"@) && names_none(env, "https_proxy"@) ==> named
                    == all_proxy(env)
            }
            &&& origin.scheme == "http"@ ==> {
                &&& names(env, "HTTP_PROXY"@, url) ==> named == Some(url)
                &&& names_none(env, "HTTP_PROXY"@) && names(env, "http_proxy"@, url) ==> named
                    == Some(url)
                &&& names_none(env, "HTTP_PROXY"@) && names_none(env, "http_proxy"@) ==> named
                    == all_proxy(env)
            }
            &&& origin.scheme != "https"@ && origin.scheme != "http"@ ==> named == all_proxy(env)
        }),
{
    reveal_strlit("https");
    reveal_strlit("http");
    assert("https"@.len() != "http"@.len());
    lemma_variable_names();
}

/// Whether a variable has this value, and the value is not empty.
pub open spec fn names(env: EnvModel, variable: Seq<char>, value: Seq<char>) -> bool {
    env.contains_key(variable) && env[variable]@ == value && value.len() > 0
}

/// Whether a variable has no value, or an empty one.
pub open spec fn names_none(env: EnvModel, variable: Seq<char>) -> bool {
    env.contains_key(variable) ==> env[variable]@.len() == 0
}

/// The proxy that the environment names for all addresses.
pub open spec fn all_proxy(env: EnvModel) -> Option<Seq<char>> {
    if env.contains_key("ALL_PROXY"@) && env["ALL_PROXY"@]@.len() > 0 {
        Some(env["ALL_PROXY"@]@)
    } else if env.contains_key("all_proxy"@) && env["all_proxy"@]@.len() > 0 {
        Some(env["all_proxy"@]@)
    } else {
        None
    }
}

proof fn lemma_variable_names()
    ensures
        lowered("HTTPS_PROXY"@) == "https_proxy"@,
        lowered("HTTP_PROXY"@) == "http_proxy"@,
        lowered("ALL_PROXY"@) == "all_proxy"@,
        lowered("NO_PROXY"@) == "no_proxy"@,
{
    reveal_strlit("HTTPS_PROXY");
    reveal_strlit("https_proxy");
    reveal_strlit("HTTP_PROXY");
    reveal_strlit("http_proxy");
    reveal_strlit("ALL_PROXY");
    reveal_strlit("all_proxy");
    reveal_strlit("NO_PROXY");
    reveal_strlit("no_proxy");
    assert(lowered("HTTPS_PROXY"@) =~= "https_proxy"@);
    assert(lowered("HTTP_PROXY"@) =~= "http_proxy"@);
    assert(lowered("ALL_PROXY"@) =~= "all_proxy"@);
    assert(lowered("NO_PROXY"@) =~= "no_proxy"@);
}

/// The environment exempts an address exactly where its list covers it: the one
/// under the name in capitals, or, where that is missing or empty, the one under
/// the name in small letters.
pub proof fn law_environment_exempts_by_its_list(env: EnvModel, origin: OriginModel)
    ensures
        env.contains_key("NO_PROXY"@) && env["NO_PROXY"@]@.len() > 0 ==> env_exempts(env, origin)
            == list_covers(env["NO_PROXY"@]@, origin),
        (!env.contains_key("NO_PROXY"@) || env["NO_PROXY"@]@.len() == 0) && env.contains_key(
            "no_proxy"@,
        ) && env["no_proxy"@]@.len() > 0 ==> env_exempts(env, origin) == list_covers(
            env["no_proxy"@]@,
            origin,
        ),
        (!env.contains_key("NO_PROXY"@) || env["NO_PROXY"@]@.len() == 0) && (!env.contains_key(
            "no_proxy"@,
        ) || env["no_proxy"@]@.len() == 0) ==> !env_exempts(env, origin),
{
    lemma_variable_names();
}

/// Five words switch platform discovery off, in any case and with white space
/// around them, and nothing else does.
pub proof fn law_discovery_is_switched_off_by_words(env: EnvModel, value: Seq<char>)
    ensures
        switches_off(value) <==> seq!["off"@, "false"@, "0"@, "no"@, "disabled"@].contains(
            lowered(trim(value)),
        ),
        !env.contains_key("CODEX_SYSTEM_PROXY"@) ==> !discovery_disabled(env),
        env.contains_key("CODEX_SYSTEM_PROXY"@) ==> discovery_disabled(env) == switches_off(
            env["CODEX_SYSTEM_PROXY"@]@,
        ),
{
    let words = seq!["off"@, "false"@, "0"@, "no"@, "disabled"@];
    assert(words[0] == "off"@ && words[1] == "false"@ && words[2] == "0"@ && words[3] == "no"@
        && words[4] == "disabled"@);
}

/// The kinds of traffic and of failures are reported under these names.
pub proof fn law_reported_names(class: ClientRouteClass, failure: RouteFailureClass)
    ensures
        class == ClientRouteClass::Auth ==> class.name() == "auth"@,
        class == ClientRouteClass::Api ==> class.name() == "api"@,
        class == ClientRouteClass::WebSocket ==> class.name() == "wss"@,
        class == ClientRouteClass::Other ==> class.name() == "other"@,
        failure == RouteFailureClass::ProxyResolutionUnavailable ==> failure.name()
            == "proxy_resolution_unavailable"@,
        failure == RouteFailureClass::ConnectTimeout ==> failure.name() == "connect_timeout"@,
        failure == RouteFailureClass::ProxyAuthenticationRequired ==> failure.name()
            == "proxy_407"@,
        failure == RouteFailureClass::TlsError ==> failure.name() == "tls_error"@,
        failure == RouteFailureClass::InvalidProxyConfig ==> failure.name()
            == "invalid_proxy_config"@,
        failure == RouteFailureClass::UnsupportedProxyScheme ==> failure.name()
            == "unsupported_proxy_scheme"@,
        failure == RouteFailureClass::ResolverError ==> failure.name() == "resolver_error"@,
{
}

/// An error tells what it was about: the message of the certificates, the kind of
/// traffic whose proxy is unusable, or that and the reason for want of discovery.
pub proof fn law_errors_tell_what_they_are_about(
    message: String,
    route_class: ClientRouteClass,
    failure: RouteFailureClass,
)
    ensures
        BuildRouteAwareHttpClientError::CustomCa(message).text() == message@,
        (BuildRouteAwareHttpClientError::InvalidProxyConfig { route_class }).text()
            == "Failed to configure outbound proxy selected for "@ + route_class.name(),
        (BuildRouteAwareHttpClientError::SystemProxyUnavailable { route_class, failure }).text()
            == "System proxy resolution for "@ + route_class.name() + " failed: "@
            + failure.name(),
{
}

/// Where the client is to honour the environment by itself, it stays as it is,
/// whatever the environment names; where not, what the environment names is set on
/// it, and nothing else ever is.
pub proof fn law_environment_is_left_to_the_client_where_asked(
    env: EnvModel,
    origin: Option<OriginModel>,
    route_class: ClientRouteClass,
    url: Seq<char>,
)
    ensures
        env_route_for(env, origin, route_class, EnvProxyHandling::DelegateToReqwest)
            == Route::Unchanged,
        env_route_for(env, origin, route_class, EnvProxyHandling::ResolveConcreteOrNoProxy)
            == Route::Proxy(url) ==> origin is Some && env_proxy(env, origin->0) == Some(url)
            && proxy_url_accepted(url),
        env_route_for(env, origin, route_class, EnvProxyHandling::ResolveConcreteOrNoProxy)
            == Route::NoProxy <==> origin is None || env_proxy(env, origin->0) is None,
        concrete_route(route_class, url, true) == Route::Proxy(url),
        concrete_route(route_class, url, false) == Route::Failed(
            BuildRouteAwareHttpClientError::InvalidProxyConfig { route_class },
        ),
{
}

/// The outcome of choosing a route tells which route it is, and it is an error
/// exactly where the route fails.
pub proof fn law_outcome_tells_its_route(
    r: Result<ProxyRoute, BuildRouteAwareHttpClientError>,
    route: Route,
    other: Route,
)
    requires
        yields(r, route),
    ensures
        yields(r, other) <==> route == other,
        r is Err <==> route is Failed,
        r matches Ok(ProxyRoute::Unchanged) <==> route == Route::Unchanged,
        r matches Ok(ProxyRoute::NoProxy) <==> route == Route::NoProxy,
        r matches Ok(ProxyRoute::Proxy(url)) ==> route == Route::Proxy(url@),
{
}

} // verus!
