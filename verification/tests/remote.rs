use codex_runtime::client_transport::check_stdio_streams;
use codex_runtime::client_transport::connect_failed;
use codex_runtime::client_transport::connect_plan;
use codex_runtime::client_transport::connect_timed_out;
use codex_runtime::client_transport::is_rendezvous_harness_url;
use codex_runtime::client_transport::noise_connect_plan;
use codex_runtime::client_transport::websocket_label;
use codex_runtime::client_transport::ConnectPlan;
use codex_runtime::client_transport::ExecServerTransportParams;
use codex_runtime::client_transport::NoiseRendezvousConnectArgs;
use codex_runtime::client_transport::NoiseRendezvousConnectBundle;
use codex_runtime::client_transport::StdioExecServerCommand;
use codex_runtime::error::ExecServerError;
use codex_runtime::noise_channel::NoiseChannelError;
use codex_runtime::remote::noise::identity_error;
use codex_runtime::remote::noise::validate_environment_id;
use codex_runtime::remote::noise::validate_executor_registration_id;
use codex_runtime::remote::noise::validation_decision;
use codex_runtime::remote::noise::validation_outcome;
use codex_runtime::remote::noise::validation_status_error;
use codex_runtime::remote::noise::MAX_EXECUTOR_REGISTRATION_ID_LEN;
use codex_runtime::remote::registry::endpoint_url;
use codex_runtime::remote::registry::environment_url;
use codex_runtime::remote::registry::normalize_base_url;
use codex_runtime::remote::registry::response_error;
use codex_runtime::remote::registry::ReconnectBackoff;
use codex_runtime::remote::registry::RegistryAction;
use codex_runtime::remote::registry::RegistryError;
use codex_runtime::remote::registry::RegistryErrorBody;
use codex_runtime::remote::registry::RemoteEnvironmentConfig;
use codex_runtime::remote::registry::RemoteRelayProtocol;
use codex_runtime::remote::serving::check_registration;
use codex_runtime::remote::serving::EnvironmentLoop;
use codex_runtime::remote::serving::LoopStage;
use codex_runtime::remote::serving::Registration;

#[test]
fn noise_environment_id_validation_rejects_path_injection() {
    validate_environment_id("ccarenv_b64_Y2Fhcy1zdGFnaW5nLWV4ZWN1dG9yLWVudmlyb25tZW50LTE")
        .expect("valid cloud environment id");

    let error = validate_environment_id("ccarenv_b64_valid/../../status")
        .expect_err("path delimiter must not reach an authenticated registry request");

    assert!(matches!(
        error,
        ExecServerError::EnvironmentRegistryConfig(message) if message.contains("ASCII letters")
    ));
}

#[test]
fn executor_registration_id_validation_rejects_ambiguous_values() {
    for invalid in ["", " registration-1", "registration-1 "] {
        assert!(validate_executor_registration_id(invalid).is_err());
    }
    assert!(
        validate_executor_registration_id(&"x".repeat(MAX_EXECUTOR_REGISTRATION_ID_LEN)).is_ok()
    );
    assert!(
        validate_executor_registration_id(&"x".repeat(MAX_EXECUTOR_REGISTRATION_ID_LEN + 1))
            .is_err()
    );
}

#[test]
fn long_environment_ids_are_refused() {
    assert!(validate_environment_id(&"x".repeat(256)).is_ok());
    assert_eq!(
        validate_environment_id(&"x".repeat(257)),
        Err(ExecServerError::EnvironmentRegistryConfig(
            "environment id cannot be longer than 256 characters".to_string()
        ))
    );
}

#[test]
fn a_harness_key_is_accepted_on_success_and_consent_only() {
    assert_eq!(validation_outcome(200, true), Ok(()));
    assert_eq!(validation_outcome(299, true), Ok(()));
    assert_eq!(
        validation_outcome(200, false),
        Err(ExecServerError::Protocol(
            "environment registry rejected Noise relay harness key".to_string()
        ))
    );
    for valid in [true, false] {
        assert_eq!(
            validation_outcome(401, valid),
            Err(ExecServerError::EnvironmentRegistryAuth(
                "environment registry harness key validation authentication failed (401 Unauthorized)"
                    .to_string()
            ))
        );
        assert_eq!(
            validation_outcome(302, valid),
            Err(ExecServerError::EnvironmentRegistryHttp {
                status: 302,
                code: None,
                message: "environment registry harness key validation failed".to_string(),
            })
        );
    }
}

#[test]
fn harness_keys_need_an_explicit_consent() {
    assert_eq!(validation_decision(true), Ok(()));
    assert_eq!(
        validation_decision(false),
        Err(ExecServerError::Protocol(
            "environment registry rejected Noise relay harness key".to_string()
        ))
    );
    assert_eq!(validation_status_error(204), None);
    assert_eq!(
        validation_status_error(500),
        Some(ExecServerError::EnvironmentRegistryHttp {
            status: 500,
            code: None,
            message: "environment registry harness key validation failed".to_string(),
        })
    );
    assert_eq!(
        validation_status_error(403),
        Some(ExecServerError::EnvironmentRegistryAuth(
            "environment registry harness key validation authentication failed (403 Forbidden)"
                .to_string()
        ))
    );
    assert_eq!(
        identity_error(&NoiseChannelError::KeyGeneration("no luck".to_string())),
        ExecServerError::Protocol(
            "failed to generate Noise relay identity: Noise channel key generation failed: no luck"
                .to_string()
        )
    );
}

fn answer(environment: &str, profile: &str, registration: &str) -> Registration {
    Registration::Noise {
        environment_id: environment.to_string(),
        url: "wss://rendezvous.test/noise".to_string(),
        security_profile: profile.to_string(),
        executor_registration_id: registration.to_string(),
    }
}

#[test]
fn only_the_registration_that_was_asked_for_is_used() {
    let check = |answer: Registration| check_registration("environment-requested", &answer);
    let refused = |answer: Registration| match check(answer) {
        Err(ExecServerError::Protocol(message)) => message,
        _ => panic!("expected a refusal"),
    };
    assert_eq!(check(answer("environment-requested", "noise_hybrid_ik_v1", "registration-1")), Ok(()));
    assert_eq!(
        refused(answer("another", "noise_hybrid_ik_v1", "registration-1")),
        "environment registry returned a different environment id"
    );
    assert_eq!(
        refused(answer("environment-requested", "none", "registration-1")),
        "environment registry returned unsupported security profile `none`"
    );
    assert_eq!(
        refused(answer("environment-requested", "noise_hybrid_ik_v1", "")),
        "environment registry returned an invalid executor registration id"
    );
    assert!(EnvironmentLoop::start_noise("a/b").is_err());
}

#[test]
fn the_encrypted_loop_serves_the_checked_registration() {
    let (mut environment, _identity) = EnvironmentLoop::start_noise("e").expect("start");
    assert_eq!(environment.stage(), LoopStage::Registering);
    assert_eq!(
        environment.registered(Ok(answer("e", "noise_hybrid_ik_v1", "r"))),
        Ok("wss://rendezvous.test/noise".to_string())
    );
    let session = environment.connect_finished(true).expect("session");
    assert_eq!(session.environment_id, "e");
    assert_eq!(session.executor_registration_id, Some("r".to_string()));
    environment.serving_ended();
    assert_eq!(environment.pause(), 1);
    assert!(environment.registered(Ok(answer("e", "none", "r"))).is_err());
    assert_eq!(environment.stage(), LoopStage::Failed);
}

#[test]
fn the_loop_goes_on_until_a_registration_fails() {
    let registration = || {
        Ok(Registration::Legacy { environment_id: "other".to_string(), url: "ws://r".to_string() })
    };
    let mut environment = EnvironmentLoop::start_legacy("e");
    for pause in [1, 2, 4] {
        assert_eq!(environment.registered(registration()), Ok("ws://r".to_string()));
        assert_eq!(environment.connect_finished(false), None);
        assert_eq!(environment.pause(), pause);
    }
    assert_eq!(environment.registered(registration()), Ok("ws://r".to_string()));
    assert_eq!(environment.connect_finished(true).expect("session").executor_registration_id, None);
    environment.serving_ended();
    assert_eq!(environment.pause(), 1);
    let error = ExecServerError::EnvironmentRegistryAuth("no".to_string());
    assert_eq!(environment.registered(Err(error.clone())), Err(error));
}

#[test]
fn pauses_double_up_to_the_limit() {
    let mut backoff = ReconnectBackoff::new();
    let pauses: Vec<u64> = (0..7).map(|_| backoff.pause()).collect();
    assert_eq!(pauses, vec![1, 2, 4, 8, 16, 30, 30]);
    backoff.connected();
    assert_eq!(backoff.pause(), 1);
}

#[test]
fn registry_addresses_are_put_together() {
    assert_eq!(normalize_base_url(" https://r.test// ".to_string()), Ok("https://r.test".to_string()));
    assert_eq!(
        normalize_base_url(" / ".to_string()),
        Err(ExecServerError::EnvironmentRegistryConfig(
            "environment registry base URL is required".to_string()
        ))
    );
    assert_eq!(endpoint_url("https://r.test", "//a/b"), "https://r.test/a/b");
    assert_eq!(
        environment_url("https://r.test", "e-1", RegistryAction::Validate),
        "https://r.test/cloud/environment/e-1/validate"
    );
    assert_eq!(
        environment_url("https://r.test", "e-1", RegistryAction::Register),
        "https://r.test/cloud/environment/e-1/register"
    );
}

#[test]
fn registration_settings_have_defaults() {
    let config = RemoteEnvironmentConfig::new("https://r.test".to_string(), " e ".to_string(), 5)
        .expect("settings");
    assert_eq!(config.environment_id, "e");
    assert_eq!(config.name, "codex-exec-server");
    assert_eq!(config.relay_protocol, RemoteRelayProtocol::Legacy);
    assert_eq!(config.auth_provider, 5);
    assert!(matches!(
        RemoteEnvironmentConfig::new("https://r.test".to_string(), " ".to_string(), 5),
        Err(ExecServerError::EnvironmentRegistryConfig(message))
            if message == "environment id is required for remote exec-server registration"
    ));
    assert_eq!(RemoteRelayProtocol::default(), RemoteRelayProtocol::Legacy);
}

#[test]
fn registry_errors_are_reported() {
    let parsed = Some(RegistryErrorBody {
        error: Some(RegistryError {
            code: Some("quota".to_string()),
            message: Some("too many".to_string()),
        }),
    });
    assert_eq!(response_error(200, &None, ""), None);
    assert_eq!(
        response_error(401, &parsed, "{}"),
        Some(ExecServerError::EnvironmentRegistryAuth(
            "environment registry authentication failed (401 Unauthorized): too many".to_string()
        ))
    );
    assert_eq!(
        response_error(403, &None, "  "),
        Some(ExecServerError::EnvironmentRegistryAuth(
            "environment registry authentication failed (403 Forbidden): empty error body"
                .to_string()
        ))
    );
    assert_eq!(
        response_error(429, &parsed, "{}"),
        Some(ExecServerError::EnvironmentRegistryHttp {
            status: 429,
            code: Some("quota".to_string()),
            message: "too many".to_string(),
        })
    );
    assert_eq!(
        response_error(500, &None, ""),
        Some(ExecServerError::EnvironmentRegistryHttp {
            status: 500,
            code: None,
            message: "empty or malformed error body".to_string(),
        })
    );
    let long = format!(" {} ", "é".repeat(5000));
    assert!(matches!(
        response_error(500, &None, &long),
        Some(ExecServerError::EnvironmentRegistryHttp { message, .. })
            if message.chars().count() == 4096
    ));
}

#[test]
fn rendezvous_addresses_of_the_harness_are_recognised() {
    assert!(is_rendezvous_harness_url("wss://r/x?a=1&role=harness"));
    assert!(!is_rendezvous_harness_url("wss://r/x?role=executor"));
    assert!(!is_rendezvous_harness_url("wss://r/role=harness"));
    assert!(!is_rendezvous_harness_url("wss://r/x?xrole=harness"));
    assert_eq!(websocket_label("ws://h"), "exec-server websocket ws://h");
}

#[test]
fn transports_become_plans() {
    let plan = connect_plan(ExecServerTransportParams::WebSocketUrl {
        websocket_url: "ws://h".to_string(),
        connect_timeout_ms: 5,
        initialize_timeout_ms: 6,
    });
    assert!(matches!(
        plan,
        ConnectPlan::WebSocket(args)
            if args.websocket_url == "ws://h" && args.client_name == "codex-environment"
                && args.connect_timeout_ms == 5 && args.initialize_timeout_ms == 6
                && args.resume_session_id.is_none()
    ));
    let command = StdioExecServerCommand {
        program: "p".to_string(),
        args: vec!["a".to_string()],
        env: vec![],
        cwd: None,
    };
    let plan = connect_plan(ExecServerTransportParams::StdioCommand {
        command: command.clone(),
        initialize_timeout_ms: 6,
    });
    assert!(matches!(plan, ConnectPlan::Stdio(args) if args.command == command));
    assert_eq!(
        check_stdio_streams(false, true),
        Err(ExecServerError::Protocol("spawned exec-server command has no stdin".to_string()))
    );
    assert_eq!(
        check_stdio_streams(true, false),
        Err(ExecServerError::Protocol("spawned exec-server command has no stdout".to_string()))
    );
    assert_eq!(check_stdio_streams(true, true), Ok(()));
    assert_eq!(
        connect_timed_out("ws://h", 5),
        ExecServerError::WebSocketConnectTimeout { url: "ws://h".to_string(), timeout_ms: 5 }
    );
    assert_eq!(
        connect_failed("ws://h", "refused"),
        ExecServerError::WebSocketConnect {
            url: "ws://h".to_string(),
            source: "refused".to_string()
        }
    );
}

#[test]
fn the_rendezvous_plan_reports_only_the_redacted_address() {
    let plan = noise_connect_plan(
        NoiseRendezvousConnectArgs {
            bundle: NoiseRendezvousConnectBundle {
                websocket_url: "wss://r/x?token=t".to_string(),
                environment_id: "e".to_string(),
                executor_registration_id: "r".to_string(),
                executor_public_key: 1,
                harness_key_authorization: "auth".to_string(),
            },
            harness_identity: 2,
            client_name: "client".to_string(),
            connect_timeout_ms: 9,
            initialize_timeout_ms: 8,
            resume_session_id: Some("session".to_string()),
        },
        "wss://r/x".to_string(),
    );
    assert_eq!(plan.websocket_url, "wss://r/x?token=t");
    assert_eq!(plan.connection_label, "Noise exec-server rendezvous websocket wss://r/x");
    assert_eq!((plan.executor_public_key, plan.harness_identity), (1, 2));
    assert_eq!(
        plan.timed_out(),
        ExecServerError::WebSocketConnectTimeout { url: "wss://r/x".to_string(), timeout_ms: 9 }
    );
    assert_eq!(
        plan.failed("no"),
        ExecServerError::WebSocketConnect {
            url: "wss://r/x".to_string(),
            source: "no".to_string()
        }
    );
}
