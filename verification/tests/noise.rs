use codex_runtime::error::ExecServerError;
use codex_runtime::noise_channel::check_receiving;
use codex_runtime::noise_channel::check_sending;
use codex_runtime::noise_channel::noise_channel_prologue;
use codex_runtime::noise_channel::InitiatorHandshake;
use codex_runtime::noise_channel::NoiseChannelError;
use codex_runtime::noise_channel::NoiseChannelIdentity;
use codex_runtime::noise_channel::NoiseChannelPublicKey;
use codex_runtime::noise_channel::NoiseTransport;
use codex_runtime::noise_channel::PendingResponderHandshake;
use codex_runtime::noise_channel::MAX_MESSAGE_LEN;
use codex_runtime::noise_channel::MAX_TRANSPORT_RECORDS_PER_DIRECTION;
use codex_runtime::noise_channel::NOISE_CHANNEL_SUITE;
use codex_runtime::noise_channel::TAG_LEN;
use codex_runtime::noise_relay::environment::socket_step;
use codex_runtime::noise_relay::environment::CompletionOutcome;
use codex_runtime::noise_relay::environment::CompletionStep;
use codex_runtime::noise_relay::environment::FrameStep;
use codex_runtime::noise_relay::environment::RelayEnvironment;
use codex_runtime::noise_relay::environment::RelayFrameBodyKind;
use codex_runtime::noise_relay::environment::RequestStep;
use codex_runtime::noise_relay::environment::SocketEvent;
use codex_runtime::noise_relay::environment::SocketStep;
use codex_runtime::noise_relay::environment::ValidationStep;
use codex_runtime::noise_relay::environment::MAX_ACTIVE_NOISE_RELAY_STREAMS;
use codex_runtime::noise_relay::environment::MAX_HARNESS_KEY_AUTHORIZATION_BYTES;
use codex_runtime::noise_relay::environment::MAX_PENDING_HANDSHAKE_VALIDATIONS;
use codex_runtime::noise_relay::handshake::read_handshake_request;
use codex_runtime::noise_relay::handshake::validation_timed_out;
use codex_runtime::noise_relay::ordered_ciphertext::OrderedCiphertextFrames;
use codex_runtime::noise_relay::ordered_ciphertext::MAX_PENDING_BYTES;
use codex_runtime::noise_relay::ordered_ciphertext::MAX_REORDER_DISTANCE;
use codex_runtime::noise_relay::take_next_sequence;
use codex_runtime::outside::noise::REQUEST_OVERHEAD;
use codex_runtime::outside::noise::RESPONSE_OVERHEAD;

fn identity() -> NoiseChannelIdentity {
    NoiseChannelIdentity::generate().expect("generate identity")
}

#[test]
fn public_key_validation_rejects_unknown_suite() {
    let key = identity().public_key();
    let key = NoiseChannelPublicKey::from_parts(
        "unknown".to_string(),
        key.x25519_public_key().to_string(),
        key.mlkem768_public_key().to_string(),
    );

    let initiator = identity();
    assert!(InitiatorHandshake::start(&initiator, &key, b"prologue", b"").is_err());
}

#[test]
fn an_unusable_key_is_refused_whatever_the_payload() {
    let key = identity().public_key();
    let unknown = NoiseChannelPublicKey::from_parts(
        "unknown".to_string(),
        key.x25519_public_key().to_string(),
        key.mlkem768_public_key().to_string(),
    );
    let harness = identity();
    let longest = vec![7u8; MAX_MESSAGE_LEN - REQUEST_OVERHEAD];
    let too_long = vec![7u8; MAX_MESSAGE_LEN - REQUEST_OVERHEAD + 1];
    let refusal = NoiseChannelError::InvalidPublicKey("unsupported Noise channel suite");
    for payload in [&longest, &too_long] {
        assert!(matches!(
            InitiatorHandshake::start(&harness, &unknown, b"prologue", payload),
            Err(error) if error == refusal
        ));
        assert!(matches!(
            InitiatorHandshake::start_within_limit(&harness, &unknown, b"prologue", payload),
            Some(Err(error)) if error == refusal
        ));
    }
    assert!(InitiatorHandshake::start_within_limit(&harness, &key, b"prologue", &too_long).is_none());
    match InitiatorHandshake::start_within_limit(&harness, &key, b"prologue", &longest) {
        Some(Ok((_, request))) => assert_eq!(request.len(), MAX_MESSAGE_LEN),
        _ => panic!("the longest payload fits"),
    }
}

#[test]
fn public_key_serializes_with_expected_suite() {
    let key = identity().public_key();

    assert_eq!(key.suite(), NOISE_CHANNEL_SUITE);
}

#[test]
fn malformed_public_keys_are_refused() {
    let key = identity().public_key();
    let (dh, kem) = key.decode().expect("a key of its own");
    assert_eq!((dh.len(), kem.len()), (32, 1184));
    assert_ne!(key.x25519_public_key().as_bytes(), dh.as_slice());
    let refused = |x25519: &str, mlkem768: &str| {
        NoiseChannelPublicKey::from_parts(
            NOISE_CHANNEL_SUITE.to_string(),
            x25519.to_string(),
            mlkem768.to_string(),
        )
        .decode()
        .expect_err("malformed key")
        .to_text()
    };
    let kem_text = key.mlkem768_public_key();
    let dh_text = key.x25519_public_key();
    assert_eq!(refused("*", kem_text), "invalid Noise channel public key: invalid X25519 public key");
    assert_eq!(
        refused("AAAA", kem_text),
        "invalid Noise channel public key: invalid X25519 public key length"
    );
    assert_eq!(
        refused(dh_text, "*"),
        "invalid Noise channel public key: invalid ML-KEM-768 public key"
    );
    assert_eq!(
        refused(dh_text, "AAAA"),
        "invalid Noise channel public key: invalid ML-KEM-768 public key length"
    );
}

fn connect() -> (NoiseTransport, NoiseTransport) {
    let harness = identity();
    let executor = identity();
    let prologue = noise_channel_prologue("environment", "registration", "stream").expect("prologue");
    let (initiator, request) =
        InitiatorHandshake::start(&harness, &executor.public_key(), &prologue, b"authorization")
            .expect("start");
    assert_eq!(request.len(), "authorization".len() + REQUEST_OVERHEAD);
    let mut pending =
        PendingResponderHandshake::read_request(&executor, &prologue, &request).expect("request");
    assert!(pending.initiator_public_key() == &harness.public_key());
    assert_eq!(pending.take_payload(), b"authorization");
    assert_eq!(pending.take_payload(), b"");
    let (executor_side, response) = pending.complete().expect("complete");
    assert_eq!(response.len(), RESPONSE_OVERHEAD);
    let harness_side = initiator.finish(&response).expect("finish");
    (harness_side, executor_side)
}

#[test]
fn a_copied_identity_is_the_same_endpoint() {
    let harness = identity();
    let executor = identity();
    let copy = executor.clone();
    assert!(copy.public_key() == executor.public_key());
    let (_, request) =
        InitiatorHandshake::start(&harness, &executor.public_key(), b"route", b"let me in")
            .expect("start");
    let mut pending =
        PendingResponderHandshake::read_request(&copy, b"route", &request).expect("request");
    assert_eq!(pending.take_payload(), b"let me in");
}

#[test]
fn a_record_opens_to_what_was_sent_and_only_in_order() {
    let (mut harness, mut executor) = connect();
    let first = harness.encrypt(b"first").expect("encrypt");
    let second = harness.encrypt(b"second").expect("encrypt");
    assert_eq!(first.len(), "first".len() + TAG_LEN);
    assert_ne!(&first[.."first".len()], b"first");
    assert!(matches!(executor.decrypt(&second), Err(NoiseChannelError::Transport(_))));
    assert_eq!(executor.decrypt(&first).expect("decrypt"), b"first");
    assert!(executor.decrypt(&first).is_err());
    assert_eq!(executor.decrypt(&second).expect("decrypt"), b"second");
    let back = executor.encrypt(b"").expect("encrypt");
    assert_eq!(harness.decrypt(&back).expect("decrypt"), b"");
    let mut forged = executor.encrypt(b"x").expect("encrypt");
    forged[0] ^= 1;
    assert!(harness.decrypt(&forged).is_err());
}

#[test]
fn records_are_limited_in_number_and_length() {
    let (mut harness, mut executor) = connect();
    let longest = vec![7u8; MAX_MESSAGE_LEN - TAG_LEN];
    let record = harness.encrypt(&longest).expect("the longest record");
    assert_eq!(record.len(), MAX_MESSAGE_LEN);
    assert_eq!(executor.decrypt(&record).expect("decrypt"), longest);
    assert_eq!(
        harness.encrypt(&vec![7u8; MAX_MESSAGE_LEN - TAG_LEN + 1]),
        Err(NoiseChannelError::InvalidMessage("transport plaintext is too large"))
    );
    assert_eq!(
        executor.decrypt(&[0u8; 15]),
        Err(NoiseChannelError::InvalidMessage("transport ciphertext is too short"))
    );
    assert_eq!(
        executor.decrypt(&vec![0u8; MAX_MESSAGE_LEN + 1]),
        Err(NoiseChannelError::InvalidMessage("transport ciphertext is too large"))
    );
    assert_eq!(
        check_sending(MAX_TRANSPORT_RECORDS_PER_DIRECTION, 0),
        Err(NoiseChannelError::InvalidState("transport record nonce exhausted"))
    );
    assert_eq!(
        check_receiving(MAX_TRANSPORT_RECORDS_PER_DIRECTION, 16),
        Err(NoiseChannelError::InvalidState("transport record nonce exhausted"))
    );
    assert_eq!(check_sending(MAX_TRANSPORT_RECORDS_PER_DIRECTION - 1, 0), Ok(()));
    assert_eq!(clatter::constants::MAX_MESSAGE_LEN, MAX_MESSAGE_LEN);
}

#[test]
fn a_handshake_is_bound_to_its_route_and_its_keys() {
    let harness = identity();
    let executor = identity();
    let here = noise_channel_prologue("environment", "registration", "stream").expect("prologue");
    let there = noise_channel_prologue("environment", "registration", "other").expect("prologue");
    let (initiator, request) =
        InitiatorHandshake::start(&harness, &executor.public_key(), &here, b"").expect("start");
    assert!(PendingResponderHandshake::read_request(&executor, &there, &request).is_err());
    assert!(PendingResponderHandshake::read_request(&identity(), &here, &request).is_err());
    assert!(matches!(
        PendingResponderHandshake::read_request(&executor, &here, &vec![0u8; MAX_MESSAGE_LEN + 1]),
        Err(NoiseChannelError::InvalidMessage("handshake request is too large"))
    ));
    assert!(matches!(initiator.finish(b"too short"), Err(NoiseChannelError::Handshake(_))));
    let (initiator, _) =
        InitiatorHandshake::start(&harness, &executor.public_key(), &here, b"").expect("start");
    assert!(matches!(
        initiator.finish(&vec![0u8; MAX_MESSAGE_LEN + 1]),
        Err(NoiseChannelError::InvalidMessage("handshake response is too large"))
    ));
}

#[test]
fn prologues_have_length_prefixes() {
    let prologue = noise_channel_prologue("e", "rr", "").expect("prologue");
    let mut expected = vec![0u8, 0, 0, 32];
    expected.extend_from_slice(b"codex-exec-server-relay-noise/v1");
    expected.extend_from_slice(&[0, 0, 0, 1, b'e', 0, 0, 0, 2, b'r', b'r', 0, 0, 0, 0]);
    assert_eq!(prologue, expected);
    assert_ne!(
        noise_channel_prologue("ab", "c", "d").expect("prologue"),
        noise_channel_prologue("a", "bc", "d").expect("prologue")
    );
}

#[test]
fn the_request_of_a_stream_is_read_under_its_own_route() {
    let harness = identity();
    let executor = identity();
    let prologue = noise_channel_prologue("environment", "registration", "stream").expect("prologue");
    let (_, request) =
        InitiatorHandshake::start(&harness, &executor.public_key(), &prologue, b"let me in")
            .expect("start");
    let read = |stream: &str, request: Option<Vec<u8>>| {
        read_handshake_request("environment", "registration", stream, &executor, request)
    };
    let (authorization, mut pending) = read("stream", Some(request.clone())).expect("request");
    assert_eq!(authorization, b"let me in");
    assert_eq!(pending.take_payload(), b"");
    assert!(read("other", Some(request)).is_none());
    assert!(read("stream", None).is_none());
    assert_eq!(
        validation_timed_out(),
        ExecServerError::Protocol("timed out validating Noise relay harness key".to_string())
    );
}

type Environment = RelayEnvironment<&'static str, u32>;

fn request(environment: &mut Environment, stream: &str, handshake: u32) -> u64 {
    assert!(matches!(
        environment.frame_received(RelayFrameBodyKind::Handshake, stream),
        FrameStep::ReadHandshake
    ));
    match environment.handshake_request(stream, Some((b"auth".to_vec(), handshake))) {
        RequestStep::Validate { validation_id, authorization } => {
            assert_eq!(authorization, "auth");
            validation_id
        }
        RequestStep::SendReset => panic!("request refused"),
    }
}

fn open(environment: &mut Environment, stream: &str, handle: &'static str) -> u64 {
    let id = request(environment, stream, 1);
    assert!(matches!(environment.validation_finished(stream, id, true), ValidationStep::Complete(1)));
    assert_eq!(
        environment.handshake_completed(CompletionOutcome::Opened(handle)),
        CompletionStep::StreamOpen
    );
    id
}

#[test]
fn pending_validation_does_not_block_new_handshakes() {
    let mut environment = Environment::new();
    let first = request(&mut environment, "stream-1", 1);
    let second = request(&mut environment, "stream-2", 2);
    assert_ne!(first, second);
    assert!(matches!(environment.validation_finished("stream-2", second, true), ValidationStep::Complete(2)));
    assert_eq!(
        environment.handshake_completed(CompletionOutcome::HandshakeFailed),
        CompletionStep::SendReset
    );
    assert!(environment.stream("stream-2").is_none());
    assert!(matches!(environment.validation_finished("stream-1", first, false), ValidationStep::SendReset));
}

#[test]
fn oversized_authorization_is_rejected_before_validation() {
    let mut environment = Environment::new();
    for payload in [vec![b'x'; MAX_HARNESS_KEY_AUTHORIZATION_BYTES + 1], vec![0xff]] {
        assert!(matches!(
            environment.frame_received(RelayFrameBodyKind::Handshake, "stream-1"),
            FrameStep::ReadHandshake
        ));
        assert!(matches!(
            environment.handshake_request("stream-1", Some((payload, 1))),
            RequestStep::SendReset
        ));
    }
    assert!(matches!(environment.handshake_request("stream-1", None), RequestStep::SendReset));
    assert!(matches!(
        environment
            .handshake_request("stream-1", Some((vec![b'x'; MAX_HARNESS_KEY_AUTHORIZATION_BYTES], 1))),
        RequestStep::Validate { .. }
    ));
}

#[test]
fn early_data_and_resets_outdate_a_validation() {
    let mut environment = Environment::new();
    let first = request(&mut environment, "s", 1);
    assert!(matches!(environment.frame_received(RelayFrameBodyKind::Data, "s"), FrameStep::SendReset));
    let second = request(&mut environment, "s", 2);
    assert!(matches!(environment.validation_finished("s", first, true), ValidationStep::Stale));
    assert!(matches!(
        environment.frame_received(RelayFrameBodyKind::Reset, "s"),
        FrameStep::Disconnect(None)
    ));
    assert!(matches!(environment.validation_finished("s", second, true), ValidationStep::Stale));
}

#[test]
fn a_stream_opens_for_the_handshake_that_was_accepted() {
    let mut environment = Environment::new();
    let first = request(&mut environment, "s", 1);
    let other = request(&mut environment, "t", 7);
    assert!(matches!(
        environment.frame_received(RelayFrameBodyKind::Handshake, "s"),
        FrameStep::SendReset
    ));
    assert!(matches!(
        environment.frame_received(RelayFrameBodyKind::Reset, "s"),
        FrameStep::Disconnect(None)
    ));
    let second = request(&mut environment, "s", 2);
    assert!(matches!(environment.validation_finished("s", first, true), ValidationStep::Stale));
    assert!(matches!(environment.frame_received(RelayFrameBodyKind::Data, "t"), FrameStep::SendReset));
    assert!(matches!(environment.validation_finished("t", other, true), ValidationStep::Stale));
    assert!(environment.stream("s").is_none());
    assert!(matches!(environment.validation_finished("s", second, true), ValidationStep::Complete(2)));
    assert_eq!(
        environment.handshake_completed(CompletionOutcome::Opened("second")),
        CompletionStep::StreamOpen
    );
    assert_eq!(environment.stream("s"), Some(&"second"));
    assert!(environment.stream("t").is_none());
}

#[test]
fn a_late_close_spares_the_newer_stream() {
    let mut environment = Environment::new();
    let old = open(&mut environment, "s", "old");
    assert!(matches!(
        environment.frame_received(RelayFrameBodyKind::Handshake, "s"),
        FrameStep::SendReset
    ));
    assert!(matches!(environment.frame_received(RelayFrameBodyKind::Data, "s"), FrameStep::Deliver));
    assert!(matches!(
        environment.frame_received(RelayFrameBodyKind::Reset, "s"),
        FrameStep::Disconnect(Some("old"))
    ));
    let new = open(&mut environment, "s", "new");
    environment.stream_closed("s", old);
    assert_eq!(environment.stream("s"), Some(&"new"));
    environment.stream_closed("s", new);
    assert_eq!(environment.stream("s"), None);
    assert!(matches!(environment.frame_received(RelayFrameBodyKind::Ack, "s"), FrameStep::Ignore));
}

#[test]
fn streams_and_validations_are_bounded() {
    let mut environment = Environment::new();
    for i in 0..MAX_PENDING_HANDSHAKE_VALIDATIONS {
        let _ = request(&mut environment, &format!("p{i}"), 1);
    }
    assert!(matches!(
        environment.frame_received(RelayFrameBodyKind::Handshake, "one-more"),
        FrameStep::SendReset
    ));
    let mut given_up = environment.validation_task_failed();
    given_up.sort();
    assert_eq!(given_up.len(), MAX_PENDING_HANDSHAKE_VALIDATIONS);
    assert_eq!(given_up[0], "p0");

    let mut environment = Environment::new();
    for i in 0..MAX_ACTIVE_NOISE_RELAY_STREAMS {
        let _ = open(&mut environment, &format!("s{i}"), "handle");
    }
    assert!(matches!(
        environment.frame_received(RelayFrameBodyKind::Handshake, "one-more"),
        FrameStep::SendReset
    ));
    environment.record_rejected("s0");
    assert!(environment.stream("s0").is_none());
    assert_eq!(environment.shutdown().len(), MAX_ACTIVE_NOISE_RELAY_STREAMS - 1);
}

#[test]
fn a_response_that_cannot_be_queued_closes_the_connection() {
    let mut environment = Environment::new();
    let id = request(&mut environment, "s", 1);
    assert!(matches!(environment.validation_finished("s", id, true), ValidationStep::Complete(1)));
    assert_eq!(
        environment.handshake_completed(CompletionOutcome::ResponseNotQueued),
        CompletionStep::CloseConnection
    );
    assert_eq!(socket_step(SocketEvent::Binary), SocketStep::Decode);
    assert_eq!(socket_step(SocketEvent::Text), SocketStep::Skip);
    assert_eq!(socket_step(SocketEvent::Failed), SocketStep::Stop);
}

#[test]
fn records_are_released_once_and_in_order() {
    let mut frames = OrderedCiphertextFrames::new();
    assert_eq!(frames.push(1, vec![1]), Ok(vec![]));
    assert_eq!(frames.push(1, vec![9]), Ok(vec![]));
    assert_eq!(frames.push(3, vec![3]), Ok(vec![]));
    assert_eq!(frames.push(0, vec![0]), Ok(vec![vec![0], vec![1]]));
    assert_eq!(frames.push(0, vec![0]), Ok(vec![]));
    assert_eq!(frames.push(2, vec![2]), Ok(vec![vec![2], vec![3]]));
}

#[test]
fn the_reorder_window_is_bounded() {
    let refusal = |message: &str| Err(ExecServerError::Protocol(message.to_string()));
    let mut frames = OrderedCiphertextFrames::new();
    assert_eq!(frames.push(MAX_REORDER_DISTANCE, vec![]), Ok(vec![]));
    assert_eq!(
        frames.push(MAX_REORDER_DISTANCE + 1, vec![]),
        refusal("Noise relay ciphertext exceeds reorder window")
    );
    assert_eq!(
        frames.push(1, vec![0; MAX_PENDING_BYTES + 1]),
        refusal("Noise relay pending ciphertext buffer is full")
    );
    assert_eq!(frames.push(1, vec![0; MAX_PENDING_BYTES]), Ok(vec![]));
    assert_eq!(
        frames.push(2, vec![0]),
        refusal("Noise relay pending ciphertext buffer is full")
    );
}

#[test]
fn sequence_numbers_never_wrap() {
    let mut next = 0;
    assert_eq!(take_next_sequence(&mut next), Ok(0));
    assert_eq!(take_next_sequence(&mut next), Ok(1));
    next = u32::MAX;
    assert_eq!(
        take_next_sequence(&mut next),
        Err(ExecServerError::Protocol("Noise relay sequence number exhausted".to_string()))
    );
    assert_eq!(next, u32::MAX);
}
