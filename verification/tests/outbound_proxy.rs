use codex_runtime::outbound_proxy::cache::system_proxy_cache_key;
use codex_runtime::outbound_proxy::cache::CacheKeyStyle;
use codex_runtime::outbound_proxy::cache::SystemProxyCache;
use codex_runtime::outbound_proxy::cache::SystemProxyDecision;
use codex_runtime::outbound_proxy::cache::SYSTEM_PROXY_SUCCESS_CACHE_TTL_NS;
use codex_runtime::outbound_proxy::no_proxy::no_proxy_matches_origin;
use codex_runtime::outbound_proxy::no_proxy::wildcard_host_match;
use codex_runtime::outbound_proxy::origin::default_port_for_scheme;
use codex_runtime::outbound_proxy::origin::RequestOrigin;
use codex_runtime::outbound_proxy::proxy_list::parse_proxy_list;
use codex_runtime::outbound_proxy::proxy_list::ParsedProxyListDecision;
use codex_runtime::outbound_proxy::route::concrete_proxy_route;
use codex_runtime::outbound_proxy::route::configure_proxy_for_route;
use codex_runtime::outbound_proxy::route::conventional_proxy_env_present;
use codex_runtime::outbound_proxy::route::env_proxy_for_origin;
use codex_runtime::outbound_proxy::route::no_proxy_env_matches_origin;
use codex_runtime::outbound_proxy::route::proxy_env_value;
use codex_runtime::outbound_proxy::route::route_for_system_decision;
use codex_runtime::outbound_proxy::route::BuildRouteAwareHttpClientError;
use codex_runtime::outbound_proxy::route::ClientRouteClass;
use codex_runtime::outbound_proxy::route::OutboundProxyConfig;
use codex_runtime::outbound_proxy::route::OutboundProxyMode;
use codex_runtime::outbound_proxy::route::ProxyRoute;
use codex_runtime::outbound_proxy::route::RouteFailureClass;
use codex_runtime::outbound_proxy::route::RouteStep;
use codex_runtime::outbound_proxy::route::SystemProxyEnvOverride;
use codex_runtime::text_map::TextMap;

fn env(pairs: &[(&str, &str)]) -> TextMap<String> {
    let mut map = TextMap::new();
    for (key, value) in pairs {
        map.insert(key.to_string(), value.to_string());
    }
    map
}

fn origin(scheme: &str, host: &str, port: u16) -> RequestOrigin {
    RequestOrigin { scheme: scheme.to_string(), host: host.to_string(), port }
}

fn chars(text: &str) -> Vec<char> {
    text.chars().collect()
}

#[test]
fn parses_pac_proxy_tokens() {
    assert_eq!(
        parse_proxy_list("PROXY proxy.internal:8080; DIRECT", "https"),
        ParsedProxyListDecision::Proxy("http://proxy.internal:8080".to_string())
    );
    assert_eq!(
        parse_proxy_list("HTTPS proxy.internal:8443", "https"),
        ParsedProxyListDecision::Proxy("https://proxy.internal:8443".to_string())
    );
}

#[test]
fn parses_static_winhttp_proxy_entries_for_target_scheme() {
    assert_eq!(
        parse_proxy_list("http=web-proxy:8080;https=secure-proxy:8443", "https"),
        ParsedProxyListDecision::Proxy("http://secure-proxy:8443".to_string())
    );
    assert_eq!(
        parse_proxy_list("proxy.internal:8080", "https"),
        ParsedProxyListDecision::Proxy("http://proxy.internal:8080".to_string())
    );
}

#[test]
fn reports_direct_and_unsupported_proxy_tokens() {
    assert_eq!(
        parse_proxy_list("DIRECT; PROXY proxy.internal:8080", "https"),
        ParsedProxyListDecision::Direct
    );
    assert_eq!(parse_proxy_list("DIRECT", "https"), ParsedProxyListDecision::Direct);
    assert_eq!(
        parse_proxy_list("SOCKS proxy.internal:1080", "https"),
        ParsedProxyListDecision::UnsupportedScheme
    );
}

#[test]
fn no_proxy_matches_exact_suffix_wildcard_and_port() {
    let origin = RequestOrigin {
        scheme: "https".to_string(),
        host: "auth.openai.com".to_string(),
        port: 443,
    };
    assert!(no_proxy_matches_origin("auth.openai.com", &origin));
    assert!(no_proxy_matches_origin(".openai.com", &origin));
    assert!(no_proxy_matches_origin("*.openai.com", &origin));
    assert!(no_proxy_matches_origin("auth.openai.com:443", &origin));
    assert!(!no_proxy_matches_origin("auth.openai.com:8443", &origin));
}

#[test]
fn system_proxy_cache_key_preserves_url_specific_pac_decisions() {
    let request_url = "https://auth.openai.com/oauth/token?access_token=secret";
    for style in [CacheKeyStyle::Plain, CacheKeyStyle::Hashed] {
        let cache_key = system_proxy_cache_key(style, request_url, false);
        assert_ne!(
            cache_key,
            system_proxy_cache_key(style, "https://auth.openai.com/oauth/revoke", false)
        );
    }
    let hashed = system_proxy_cache_key(CacheKeyStyle::Hashed, request_url, false);
    assert!(!hashed.contains(request_url));
    assert_eq!(hashed.len(), 64);
    assert!(hashed.chars().all(|c| c.is_ascii_digit() || ('a'..='f').contains(&c)));
}

#[test]
fn cached_decisions_expire_and_failures_are_not_cached() {
    let mut cache = SystemProxyCache::new(CacheKeyStyle::Hashed);
    let url = "https://example.com/";
    let proxy = SystemProxyDecision::Proxy { url: "http://p:1".to_string() };
    cache.cache_system_proxy_decision(url, true, proxy.clone(), 5);
    assert_eq!(cache.cached_system_proxy_decision(url, true, 6), Some(proxy.clone()));
    assert_eq!(cache.cached_system_proxy_decision(url, false, 6), None);
    cache.cache_system_proxy_decision("https://other.com/", true, SystemProxyDecision::Direct, 6);
    assert_eq!(cache.cached_system_proxy_decision(url, true, 7), Some(proxy));
    let late = 5 + SYSTEM_PROXY_SUCCESS_CACHE_TTL_NS;
    assert_eq!(cache.cached_system_proxy_decision(url, true, late + 1), None);

    let failure = SystemProxyDecision::Unavailable { failure: RouteFailureClass::ResolverError };
    cache.cache_system_proxy_decision("https://third.com/", true, failure, 8);
    assert_eq!(cache.cached_system_proxy_decision("https://third.com/", true, 8), None);
}

#[test]
fn origins_are_parsed_with_default_ports() {
    assert_eq!(RequestOrigin::parse("https://Example.com/path"), Some(origin("https", "example.com", 443)));
    assert_eq!(RequestOrigin::parse("wss://example.com"), None);
    assert_eq!(RequestOrigin::parse("wss://example.com:99"), Some(origin("wss", "example.com", 99)));
    assert_eq!(RequestOrigin::parse("http://[::1]:1/"), Some(origin("http", "::1", 1)));
    assert_eq!(RequestOrigin::parse("http://example.com:8080/"), Some(origin("http", "example.com", 8080)));
    assert_eq!(RequestOrigin::parse("/only/a/path"), None);
    assert_eq!(RequestOrigin::parse("not a uri"), None);
    assert_eq!(RequestOrigin::parse("ftp://example.com/"), None);
    assert_eq!(default_port_for_scheme("http"), Some(80));
    assert_eq!(default_port_for_scheme("https"), Some(443));
    assert_eq!(default_port_for_scheme("ws"), None);
}

#[test]
fn wildcards_match_from_left_to_right() {
    assert!(wildcard_host_match(&chars("*.example.*"), &chars("a.example.com")));
    assert!(wildcard_host_match(&chars("*"), &chars("anything")));
    assert!(!wildcard_host_match(&chars("a*"), &chars("ba")));
    assert!(wildcard_host_match(&chars("a*c"), &chars("abc")));
    assert!(!wildcard_host_match(&chars("a*c"), &chars("abd")));
}

#[test]
fn proxy_variables_in_capitals_come_first_and_empty_ones_do_not_count() {
    let e = env(&[("HTTPS_PROXY", ""), ("https_proxy", "http://low:1"), ("ALL_PROXY", "http://all:2")]);
    let https = origin("https", "example.com", 443);
    let http = origin("http", "example.com", 80);
    assert_eq!(proxy_env_value(&e, "HTTPS_PROXY"), Some(&"http://low:1".to_string()));
    assert_eq!(env_proxy_for_origin(&e, &https), Some(&"http://low:1".to_string()));
    assert_eq!(env_proxy_for_origin(&e, &http), Some(&"http://all:2".to_string()));
    assert!(conventional_proxy_env_present(&e));
    assert!(!conventional_proxy_env_present(&env(&[("NO_PROXY", "*")])));
    assert!(no_proxy_env_matches_origin(&env(&[("no_proxy", "other, .example.com")]), &https));
    assert!(!no_proxy_env_matches_origin(&env(&[]), &https));
}

#[test]
fn direct_mode_never_uses_a_proxy() {
    let e = env(&[("HTTPS_PROXY", "http://p:1")]);
    let config = OutboundProxyConfig::new(OutboundProxyMode::Direct);
    assert_eq!(config.mode(), OutboundProxyMode::Direct);
    let step = configure_proxy_for_route("https://x.com/", ClientRouteClass::Api, Some(&config), &e, true);
    assert!(matches!(step, RouteStep::Done(Ok(ProxyRoute::NoProxy))));
}

#[test]
fn without_a_policy_nothing_is_changed() {
    let e = env(&[("HTTPS_PROXY", "http://p:1")]);
    let step = configure_proxy_for_route("https://x.com/", ClientRouteClass::Api, None, &e, true);
    assert!(matches!(step, RouteStep::Done(Ok(ProxyRoute::Unchanged))));
}

#[test]
fn system_mode_asks_the_platform_where_that_is_supported() {
    let e = env(&[]);
    let config = OutboundProxyConfig::new(OutboundProxyMode::System);
    let step = configure_proxy_for_route("https://x.com/", ClientRouteClass::Auth, Some(&config), &e, true);
    assert!(matches!(
        step,
        RouteStep::ResolveSystemProxy { ref origin, .. } if origin.host == "x.com" && origin.port == 443
    ));
    let step = configure_proxy_for_route("https://x.com/", ClientRouteClass::Auth, Some(&config), &e, false);
    assert!(matches!(
        step,
        RouteStep::Done(Err(BuildRouteAwareHttpClientError::SystemProxyUnavailable {
            route_class: ClientRouteClass::Auth,
            failure: RouteFailureClass::ProxyResolutionUnavailable,
        }))
    ));
}

#[test]
fn system_decisions_become_routes() {
    let e = env(&[]);
    let o = origin("https", "x.com", 443);
    let proxy = SystemProxyDecision::Proxy { url: "http://p.example:3128".to_string() };
    assert_eq!(
        route_for_system_decision(OutboundProxyMode::System, ClientRouteClass::Api, &o, &e, &proxy),
        Ok(ProxyRoute::Proxy("http://p.example:3128".to_string()))
    );
    assert_eq!(
        route_for_system_decision(
            OutboundProxyMode::System,
            ClientRouteClass::Api,
            &o,
            &e,
            &SystemProxyDecision::Direct
        ),
        Ok(ProxyRoute::NoProxy)
    );
    let failure = SystemProxyDecision::Unavailable { failure: RouteFailureClass::ResolverError };
    let error = route_for_system_decision(
        OutboundProxyMode::System,
        ClientRouteClass::Api,
        &o,
        &e,
        &failure,
    )
    .expect_err("the platform failed");
    assert_eq!(
        error,
        BuildRouteAwareHttpClientError::SystemProxyUnavailable {
            route_class: ClientRouteClass::Api,
            failure: RouteFailureClass::ResolverError,
        }
    );
    assert!(route_for_system_decision(
        OutboundProxyMode::Auto,
        ClientRouteClass::Api,
        &o,
        &e,
        &failure
    )
    .is_ok());
}

#[test]
fn unusable_proxy_addresses_are_refused() {
    let e = env(&[("HTTPS_PROXY", "http://[bad")]);
    let config = OutboundProxyConfig::new(OutboundProxyMode::Env);
    let step = configure_proxy_for_route("https://x.com/", ClientRouteClass::Other, Some(&config), &e, true);
    let error = match step {
        RouteStep::Done(Err(error)) => error,
        _ => panic!("expected a refusal"),
    };
    assert_eq!(
        error,
        BuildRouteAwareHttpClientError::InvalidProxyConfig { route_class: ClientRouteClass::Other }
    );
    assert!(error.to_text().contains("other"));
    assert_eq!(
        concrete_proxy_route(ClientRouteClass::Api, "http://p:1", true),
        Ok(ProxyRoute::Proxy("http://p:1".to_string()))
    );
}

#[test]
fn the_system_proxy_can_be_switched_off() {
    assert_eq!(SystemProxyEnvOverride::from_value(None), SystemProxyEnvOverride::Default);
    assert_eq!(SystemProxyEnvOverride::from_value(Some(" OFF ")), SystemProxyEnvOverride::Disabled);
    assert!(!SystemProxyEnvOverride::Disabled.system_discovery_enabled());
    let e = env(&[("CODEX_SYSTEM_PROXY", "0")]);
    let config = OutboundProxyConfig::default();
    let step = configure_proxy_for_route("https://x.com/", ClientRouteClass::Api, Some(&config), &e, true);
    assert!(matches!(step, RouteStep::Done(Ok(_))));
}

#[test]
fn patterns_that_end_with_an_asterisk_or_have_none_describe_their_hosts() {
    let matches = |pattern: &str, host: &str| wildcard_host_match(&chars(pattern), &chars(host));
    assert!(matches("a.b", "a.b"));
    assert!(!matches("a.b", "a.b.c"));
    assert!(matches("*", ""));
    assert!(matches("a*b*", "axxbyb"));
    assert!(matches("*b*", "aab"));
    assert!(matches("a**", "a"));
    assert!(!matches("a*b*", "xab"));
    assert!(!matches("*.a", "x.a.a"));
}

#[test]
fn hashed_keys_tell_requests_apart() {
    let key = |url: &str, auto: bool| system_proxy_cache_key(CacheKeyStyle::Hashed, url, auto);
    assert_ne!(key("https://a/", true), key("https://a/", false));
    assert_ne!(key("https://a/", true), key("https://b/", true));
    assert_eq!(key("https://a/", true), key("https://a/", true));
}
