use codex_runtime::outbound_proxy::cache::SystemProxyDecision;
use codex_runtime::outbound_proxy::route::RouteFailureClass;
use codex_runtime::text_map::TextMap;
use codex_runtime::upstream_proxy::checked_system_proxy;
use codex_runtime::upstream_proxy::named_proxy;
use codex_runtime::upstream_proxy::proxy_address_from_system_url;
use codex_runtime::upstream_proxy::proxy_for_connect;
use codex_runtime::upstream_proxy::request_target_url;
use codex_runtime::upstream_proxy::EnvProxyConfig;
use codex_runtime::upstream_proxy::ProxyStep;
use codex_runtime::upstream_proxy::RequestTarget;
use codex_runtime::upstream_proxy::RequestUri;
use codex_runtime::upstream_proxy::ServeStep;
use codex_runtime::upstream_proxy::UpstreamClient;
use codex_runtime::upstream_proxy::UpstreamProxy;
use codex_runtime::upstream_proxy::UpstreamProxyError;
use codex_runtime::upstream_proxy::UpstreamProxyMode;
use codex_runtime::upstream_proxy::UpstreamRequest;

fn env(pairs: &[(&str, &str)]) -> TextMap<String> {
    let mut map = TextMap::new();
    for (key, value) in pairs {
        map.insert(key.to_string(), value.to_string());
    }
    map
}

fn proxy(url: &str, address: &str) -> UpstreamProxy {
    UpstreamProxy { url: url.to_string(), address: address.to_string() }
}

#[test]
fn proxies_of_the_environment_are_read() {
    let config = EnvProxyConfig::from_env(&env(&[
        ("HTTP_PROXY", "socks5://ignored:1080"),
        ("http_proxy", " http://user:pw@plain.test "),
        ("HTTPS_PROXY", "not a proxy"),
        ("ALL_PROXY", "all.test:9"),
    ]));
    let plain = Some(proxy("http://user:pw@plain.test", "plain.test:80"));
    assert_eq!(config.http, plain);
    assert_eq!(config.https, None);
    assert_eq!(config.all, Some(proxy("all.test:9", "all.test:9")));
    assert_eq!(config.proxy_for_protocol(true), plain);
    assert_eq!(config.proxy_for_protocol(false), plain);
    let config = EnvProxyConfig::from_env(&env(&[
        ("https_proxy", "https://secure.test"),
        ("all_proxy", "127.0.0.1:8080"),
    ]));
    assert_eq!(config.proxy_for_protocol(true), Some(proxy("https://secure.test", "secure.test:443")));
    assert_eq!(config.proxy_for_protocol(false), Some(proxy("127.0.0.1:8080", "127.0.0.1:8080")));
    assert_eq!(EnvProxyConfig::from_env(&env(&[])).proxy_for_protocol(true), None);
}

#[test]
fn proxies_of_the_platform_must_be_of_http() {
    assert_eq!(
        proxy_address_from_system_url("http://p.test:3128"),
        Ok(proxy("http://p.test:3128", "p.test:3128"))
    );
    let invalid = proxy_address_from_system_url("").expect_err("no proxy");
    assert_eq!(invalid, UpstreamProxyError::InvalidSystemProxyUrl { url: String::new() });
    assert_eq!(invalid.to_text(), "system proxy returned invalid proxy URL: ");
    let unsupported = proxy_address_from_system_url("socks5://p.test").expect_err("no HTTP");
    assert_eq!(
        unsupported.to_text(),
        "system proxy returned unsupported proxy protocol: socks5://p.test"
    );
    assert_eq!(
        UpstreamProxyError::SystemProxyUnavailable(RouteFailureClass::TlsError).to_text(),
        "system proxy resolution failed: tls_error"
    );
    assert_eq!(named_proxy("u", Some((Some(true), "a".to_string()))), Some(proxy("u", "a")));
    assert_eq!(named_proxy("u", Some((None, "a".to_string()))), Some(proxy("u", "a")));
    assert_eq!(named_proxy("u", Some((Some(false), "a".to_string()))), None);
    assert_eq!(
        checked_system_proxy("u", None),
        Err(UpstreamProxyError::InvalidSystemProxyUrl { url: "u".to_string() })
    );
}

fn request(target: Option<RequestTarget>) -> UpstreamRequest {
    UpstreamRequest {
        uri: RequestUri {
            text: "/path?q".to_string(),
            has_scheme: false,
            has_authority: false,
            path_and_query: Some("/path?q".to_string()),
        },
        target,
    }
}

fn secure() -> RequestTarget {
    RequestTarget { is_secure: true, authority: "host.test:443".to_string() }
}

#[test]
fn addresses_are_completed() {
    let given = RequestUri {
        text: "http://host.test/x".to_string(),
        has_scheme: true,
        has_authority: true,
        path_and_query: Some("/x".to_string()),
    };
    assert_eq!(request_target_url(&given, &secure()), "http://host.test/x");
    assert_eq!(request_target_url(&request(None).uri, &secure()), "https://host.test:443/path?q");
    let bare = RequestUri {
        text: String::new(),
        has_scheme: false,
        has_authority: true,
        path_and_query: None,
    };
    let plain = RequestTarget { is_secure: false, authority: "h:80".to_string() };
    assert_eq!(request_target_url(&bare, &plain), "http://h:80/");
    assert_eq!(UpstreamClient::request_failure("/x"), "http request failure for uri: /x");
}

#[test]
fn requests_are_routed_by_the_mode() {
    let e = env(&[("HTTPS_PROXY", "http://env.test:1")]);
    let from_env = Some(proxy("http://env.test:1", "env.test:1"));
    let direct = UpstreamClient::direct();
    assert_eq!(direct.serve(&request(Some(secure()))), ServeStep::Connect(None));
    let by_env = UpstreamClient::from_proxy_mode(UpstreamProxyMode::Env, &e);
    assert_eq!(by_env.serve(&request(Some(secure()))), ServeStep::Connect(from_env.clone()));
    assert_eq!(by_env.serve(&request(None)), ServeStep::Connect(None));
    let auto = UpstreamClient::from_proxy_mode(UpstreamProxyMode::Auto, &e);
    let system = UpstreamClient::from_proxy_mode(UpstreamProxyMode::System, &e);
    for client in [&auto, &system] {
        assert_eq!(
            client.serve(&request(Some(secure()))),
            ServeStep::AskSystem { url: "https://host.test:443/path?q".to_string() }
        );
        assert_eq!(client.serve(&request(None)), ServeStep::Connect(None));
        assert_eq!(client.system_decided(&secure(), &SystemProxyDecision::Direct), Ok(None));
        assert_eq!(
            client.system_decided(
                &secure(),
                &SystemProxyDecision::Proxy { url: "http://sys.test:2".to_string() }
            ),
            Ok(Some(proxy("http://sys.test:2", "sys.test:2")))
        );
    }
    let failure = SystemProxyDecision::Unavailable { failure: RouteFailureClass::ResolverError };
    assert_eq!(auto.system_decided(&secure(), &failure), Ok(from_env.clone()));
    assert_eq!(
        system.system_decided(&secure(), &failure),
        Err("upstream proxy resolution failed: system proxy resolution failed: resolver_error"
            .to_string())
    );
    assert_eq!(UpstreamClient::target_label(&request(None)), "<unknown>");
    assert_eq!(UpstreamClient::target_label(&request(Some(secure()))), "host.test:443");
    assert_eq!(proxy_for_connect(UpstreamProxyMode::Env, &e), ProxyStep::Route(from_env));
    assert_eq!(proxy_for_connect(UpstreamProxyMode::Direct, &e), ProxyStep::Route(None));
    assert_eq!(proxy_for_connect(UpstreamProxyMode::Auto, &e), ProxyStep::AskSystem);
}
