//! A narrow, misuse-resistant channel over the handshake and record primitives.
//!
//! The harness initiates: it pins the executor's static public key and sends a
//! registry-issued authorization inside the encrypted first message. The
//! executor authenticates the harness key from that message, pauses for the
//! registry's decision, and only then answers. Both sides mix a prologue into
//! the transcript that binds the handshake to one environment, one executor
//! registration and one relay stream.
use vstd::prelude::*;
use vstd::utf8::encode_utf8;
use vstd::utf8::encode_utf8_decode_utf8;
use clatter::error::HandshakeError;
use clatter::error::TransportError;
use crate::outside::encoding::base64_bytes;
use crate::outside::encoding::base64_text;
use crate::outside::encoding::decode_base64;
use crate::outside::encoding::encode_base64;
use crate::outside::noise::cipher_model;
use crate::outside::noise::copy_dh;
use crate::outside::noise::copy_kem;
use crate::outside::noise::dh_error_text;
use crate::outside::noise::dh_public;
use crate::outside::noise::dh_public_bytes;
use crate::outside::noise::finalize;
use crate::outside::noise::fresh_ciphers;
use crate::outside::noise::fresh_responder;
use crate::outside::noise::generate_dh;
use crate::outside::noise::generate_kem;
use crate::outside::noise::handshake_error_message;
use crate::outside::noise::handshake_error_text;
use crate::outside::noise::handshake_model;
use crate::outside::noise::initial_state;
use crate::outside::noise::kem_error_text;
use crate::outside::noise::kem_public;
use crate::outside::noise::kem_public_bytes;
use crate::outside::noise::new_handshake;
use crate::outside::noise::opened_message;
use crate::outside::noise::read_message;
use crate::outside::noise::receive_record;
use crate::outside::noise::receiving_nonce;
use crate::outside::noise::recovers;
use crate::outside::noise::remote_static;
use crate::outside::noise::sealed;
use crate::outside::noise::send_record;
use crate::outside::noise::sending_nonce;
use crate::outside::noise::session_keys;
use crate::outside::noise::transport_error_message;
use crate::outside::noise::transport_error_text;
use crate::outside::noise::write_message;
use crate::outside::noise::written_message;
use crate::outside::noise::ChannelCiphers;
use crate::outside::noise::ChannelHandshake;
use crate::outside::noise::CipherModel;
use crate::outside::noise::DhKeyPair;
use crate::outside::noise::HandshakeModel;
use crate::outside::noise::KemKeyPair;
use crate::outside::noise::REQUEST_OVERHEAD;
use crate::outside::noise::RESPONSE_OVERHEAD;
use crate::text::chars::chars_of;
use crate::text::chars::push_text;
use crate::text::chars::same_text;
use crate::text::chars::string_of;

verus! {

/// The identifier of the complete handshake and transport algorithm suite. It
/// travels with public keys.
pub const NOISE_CHANNEL_SUITE: &'static str = "Noise_hybridIK_X25519+MLKEM768_AESGCM_SHA256";

/// The bytes of an X25519 public key.
pub const X25519_PUBLIC_KEY_LEN: usize = 32;

/// The bytes of an ML-KEM-768 public key.
pub const MLKEM768_PUBLIC_KEY_LEN: usize = 1184;

/// How many records may be sent in one direction.
pub const MAX_TRANSPORT_RECORDS_PER_DIRECTION: u64 = 4294967295;

/// The longest message of the channel.
pub const MAX_MESSAGE_LEN: usize = 65535;

/// The bytes of a record's tag.
pub const TAG_LEN: usize = 16;

/// The first part of every prologue.
pub const PROLOGUE_DOMAIN: &'static str = "codex-exec-server-relay-noise/v1";

/// Why an operation of the channel failed.
#[derive(Debug, Clone, PartialEq, Eq)]
pub enum NoiseChannelError {
    /// No keys could be generated.
    KeyGeneration(String),
    /// A public key is unusable.
    InvalidPublicKey(&'static str),
    /// The channel can do no more.
    InvalidState(&'static str),
    /// A message is unusable.
    InvalidMessage(&'static str),
    /// The handshake failed.
    Handshake(String),
    /// A record could not be processed.
    Transport(String),
}

impl NoiseChannelError {
    /// The text of the error.
    pub open spec fn text(self) -> Seq<char> {
        match self {
            NoiseChannelError::KeyGeneration(m) => "Noise channel key generation failed: "@ + m@,
            NoiseChannelError::InvalidPublicKey(m) => "invalid Noise channel public key: "@ + m@,
            NoiseChannelError::InvalidState(m) => "invalid Noise channel state: "@ + m@,
            NoiseChannelError::InvalidMessage(m) => "invalid Noise channel message: "@ + m@,
            NoiseChannelError::Handshake(m) => "Noise channel handshake failed: "@ + m@,
            NoiseChannelError::Transport(m) => "Noise channel transport failed: "@ + m@,
        }
    }

    /// Whether a public key was refused for the given reason.
    pub open spec fn is_invalid_key(self, reason: Seq<char>) -> bool {
        self matches NoiseChannelError::InvalidPublicKey(m) && m@ == reason
    }

    /// Whether a message was refused for the given reason.
    pub open spec fn is_invalid_message(self, reason: Seq<char>) -> bool {
        self matches NoiseChannelError::InvalidMessage(m) && m@ == reason
    }

    /// Writes the error as a text.
    pub fn to_text(&self) -> (r: String)
        ensures
            r@ == self.text(),
    {
        let (head, reason): (&str, &str) = match self {
            NoiseChannelError::KeyGeneration(m) => (
                "Noise channel key generation failed: ",
                m.as_str(),
            ),
            NoiseChannelError::InvalidPublicKey(m) => ("invalid Noise channel public key: ", m),
            NoiseChannelError::InvalidState(m) => ("invalid Noise channel state: ", m),
            NoiseChannelError::InvalidMessage(m) => ("invalid Noise channel message: ", m),
            NoiseChannelError::Handshake(m) => ("Noise channel handshake failed: ", m.as_str()),
            NoiseChannelError::Transport(m) => ("Noise channel transport failed: ", m.as_str()),
        };
        let mut out = chars_of(head);
        push_text(&mut out, reason);
        string_of(&out)
    }

    /// A handshake failure, with the message of the underlying error.
    fn handshake(e: HandshakeError) -> (r: Self)
        ensures
            r matches NoiseChannelError::Handshake(m) && m@ == handshake_error_message(e),
    {
        NoiseChannelError::Handshake(handshake_error_text(e))
    }

    /// A transport failure, with the message of the underlying error.
    fn transport(e: TransportError) -> (r: Self)
        ensures
            r matches NoiseChannelError::Transport(m) && m@ == transport_error_message(e),
    {
        NoiseChannelError::Transport(transport_error_text(e))
    }
}

/// The public keys of an endpoint, tagged with their suite. A key of another
/// suite is not taken for one of this suite because some length agrees.
#[derive(Clone, PartialEq, Eq)]
pub struct NoiseChannelPublicKey {
    suite: String,
    x25519_public_key: String,
    mlkem768_public_key: String,
}

/// A public key as texts.
#[verifier::ext_equal]
pub struct PublicKeyModel {
    /// The suite.
    pub suite: Seq<char>,
    /// The X25519 key in base64.
    pub x25519: Seq<char>,
    /// The ML-KEM-768 key in base64.
    pub mlkem768: Seq<char>,
}

/// The public key that carries the given key bytes.
pub open spec fn public_key_of(keys: (Seq<u8>, Seq<u8>)) -> PublicKeyModel {
    PublicKeyModel {
        suite: NOISE_CHANNEL_SUITE@,
        x25519: base64_text(keys.0),
        mlkem768: base64_text(keys.1),
    }
}

/// What a public key decodes to.
pub enum DecodedKey {
    /// The two keys.
    Keys(Seq<u8>, Seq<u8>),
    /// The key is refused for this reason.
    Refused(Seq<char>),
}

impl PublicKeyModel {
    /// What the key decodes to.
    pub open spec fn decoded(self) -> DecodedKey {
        if self.suite != NOISE_CHANNEL_SUITE@ {
            DecodedKey::Refused("unsupported Noise channel suite"@)
        } else {
            match base64_bytes(self.x25519) {
                None => DecodedKey::Refused("invalid X25519 public key"@),
                Some(dh) => if dh.len() != X25519_PUBLIC_KEY_LEN {
                    DecodedKey::Refused("invalid X25519 public key length"@)
                } else {
                    match base64_bytes(self.mlkem768) {
                        None => DecodedKey::Refused("invalid ML-KEM-768 public key"@),
                        Some(kem) => if kem.len() != MLKEM768_PUBLIC_KEY_LEN {
                            DecodedKey::Refused("invalid ML-KEM-768 public key length"@)
                        } else {
                            DecodedKey::Keys(dh, kem)
                        },
                    }
                },
            }
        }
    }
}

impl View for NoiseChannelPublicKey {
    type V = PublicKeyModel;

    closed spec fn view(&self) -> PublicKeyModel {
        PublicKeyModel {
            suite: self.suite@,
            x25519: self.x25519_public_key@,
            mlkem768: self.mlkem768_public_key@,
        }
    }
}

impl NoiseChannelPublicKey {
    /// A key as it was received, before any of it is checked.
    pub fn from_parts(suite: String, x25519_public_key: String, mlkem768_public_key: String) -> (r:
        Self)
        ensures
            r@ == (PublicKeyModel {
                suite: suite@,
                x25519: x25519_public_key@,
                mlkem768: mlkem768_public_key@,
            }),
    {
        NoiseChannelPublicKey { suite, x25519_public_key, mlkem768_public_key }
    }

    /// The suite.
    pub fn suite(&self) -> (r: &str)
        ensures
            r@ == self@.suite,
    {
        self.suite.as_str()
    }

    /// The X25519 key in base64.
    pub fn x25519_public_key(&self) -> (r: &str)
        ensures
            r@ == self@.x25519,
    {
        self.x25519_public_key.as_str()
    }

    /// The ML-KEM-768 key in base64.
    pub fn mlkem768_public_key(&self) -> (r: &str)
        ensures
            r@ == self@.mlkem768,
    {
        self.mlkem768_public_key.as_str()
    }

    /// A copy of the key.
    pub fn duplicate(&self) -> (r: Self)
        ensures
            r@ == self@,
    {
        NoiseChannelPublicKey {
            suite: self.suite.clone(),
            x25519_public_key: self.x25519_public_key.clone(),
            mlkem768_public_key: self.mlkem768_public_key.clone(),
        }
    }

    /// Joins both public keys into one suite-tagged value.
    fn from_bytes(dh: &[u8], kem: &[u8]) -> (r: Self)
        requires
            dh@.len() == X25519_PUBLIC_KEY_LEN,
            kem@.len() == MLKEM768_PUBLIC_KEY_LEN,
        ensures
            r@ == public_key_of((dh@, kem@)),
            r@.decoded() == DecodedKey::Keys(dh@, kem@),
    {
        NoiseChannelPublicKey {
            suite: NOISE_CHANNEL_SUITE.to_owned(),
            x25519_public_key: encode_base64(dh),
            mlkem768_public_key: encode_base64(kem),
        }
    }

    /// Checks the suite and decodes both keys.
    pub fn decode(&self) -> (r: Result<(Vec<u8>, Vec<u8>), NoiseChannelError>)
        ensures
            match self@.decoded() {
                DecodedKey::Keys(dh, kem) => r matches Ok((d, k)) && d@ == dh && k@ == kem,
                DecodedKey::Refused(reason) => r matches Err(e) && e.is_invalid_key(reason),
            },
    {
        if !same_text(self.suite.as_str(), NOISE_CHANNEL_SUITE) {
            return Err(NoiseChannelError::InvalidPublicKey("unsupported Noise channel suite"));
        }
        let dh = match decode_base64(self.x25519_public_key.as_str()) {
            Some(dh) => dh,
            None => {
                return Err(NoiseChannelError::InvalidPublicKey("invalid X25519 public key"));
            },
        };
        if dh.len() != X25519_PUBLIC_KEY_LEN {
            return Err(NoiseChannelError::InvalidPublicKey("invalid X25519 public key length"));
        }
        let kem = match decode_base64(self.mlkem768_public_key.as_str()) {
            Some(kem) => kem,
            None => {
                return Err(NoiseChannelError::InvalidPublicKey("invalid ML-KEM-768 public key"));
            },
        };
        if kem.len() != MLKEM768_PUBLIC_KEY_LEN {
            return Err(NoiseChannelError::InvalidPublicKey("invalid ML-KEM-768 public key length"));
        }
        Ok((dh, kem))
    }
}

/// The static keys of an endpoint. The private halves stay inside.
pub struct NoiseChannelIdentity {
    dh: DhKeyPair,
    kem: KemKeyPair,
}

impl Clone for NoiseChannelIdentity {
    fn clone(&self) -> (r: Self)
        ensures
            r == *self,
    {
        NoiseChannelIdentity { dh: copy_dh(&self.dh), kem: copy_kem(&self.kem) }
    }
}

impl NoiseChannelIdentity {
    /// The bytes of both public keys.
    pub closed spec fn public_bytes(self) -> (Seq<u8>, Seq<u8>) {
        (dh_public(self.dh), kem_public(self.kem))
    }

    /// What a handshake of this endpoint that has not begun holds beside what it
    /// is bound to.
    pub closed spec fn initial_state(
        self,
        initiator: bool,
        prologue: Seq<u8>,
        remote: Option<(Seq<u8>, Seq<u8>)>,
    ) -> Seq<u8> {
        initial_state(initiator, prologue, self.dh, self.kem, remote)
    }

    /// A handshake of this endpoint that has not begun.
    pub open spec fn fresh(
        self,
        initiator: bool,
        prologue: Seq<u8>,
        remote: Option<(Seq<u8>, Seq<u8>)>,
    ) -> HandshakeModel {
        HandshakeModel {
            initiator,
            prologue,
            local: self.public_bytes(),
            remote,
            writes: initiator,
            finished: false,
            state: self.initial_state(initiator, prologue, remote),
        }
    }

    /// Generates independent classical and post-quantum key pairs. Nothing is
    /// stated of the keys, which are random.
    pub fn generate() -> (r: Result<Self, NoiseChannelError>)
        ensures
            r is Ok,
    {
        let dh = match generate_dh() {
            Ok(dh) => dh,
            Err(e) => {
                return Err(NoiseChannelError::KeyGeneration(dh_error_text(e)));
            },
        };
        let kem = match generate_kem() {
            Ok(kem) => kem,
            Err(e) => {
                return Err(NoiseChannelError::KeyGeneration(kem_error_text(e)));
            },
        };
        Ok(NoiseChannelIdentity { dh, kem })
    }

    /// The distributable public half.
    pub fn public_key(&self) -> (r: NoiseChannelPublicKey)
        ensures
            r@ == public_key_of(self.public_bytes()),
            r@.decoded() == DecodedKey::Keys(self.public_bytes().0, self.public_bytes().1),
    {
        let dh = dh_public_bytes(&self.dh);
        let kem = kem_public_bytes(&self.kem);
        NoiseChannelPublicKey::from_bytes(&dh, &kem)
    }
}

/// Whether every executor that holds the expected keys, mixed in the same prologue
/// and recovers the secrets reads, out of the first message of a handshake, the
/// payload and the harness's static keys.
pub open spec fn request_is_read(start: HandshakeModel, payload: Seq<u8>, drawn: Seq<u8>) -> bool {
    forall|executor: NoiseChannelIdentity|
        start.remote == Some(executor.public_bytes()) && recovers(
            start,
            #[trigger] executor.fresh(false, start.prologue, None),
            drawn,
        ) ==> (opened_message(
            executor.fresh(false, start.prologue, None),
            written_message(start, payload, drawn).0,
        ) matches Some((p, next)) && p == payload && next.remote == Some(start.local))
}

/// Whether `request` is the first message of the handshake with the payload, for
/// some drawn bytes, and `next` is the handshake that is left: bound to the same
/// keys and prologue, with an answer to come.
pub open spec fn started(
    start: HandshakeModel,
    payload: Seq<u8>,
    request: Seq<u8>,
    next: HandshakeModel,
) -> bool {
    &&& request.len() == payload.len() + REQUEST_OVERHEAD
    &&& next == (HandshakeModel { writes: false, state: next.state, ..start })
    &&& exists|drawn: Seq<u8>|
        #[trigger] written_message(start, payload, drawn) == (request, next) && request_is_read(
            start,
            payload,
            drawn,
        )
}

/// Whether the executor read the first message of a handshake as it was written,
/// and holds `pending` after that.
pub open spec fn was_read(
    executor: NoiseChannelIdentity,
    start: HandshakeModel,
    payload: Seq<u8>,
    drawn: Seq<u8>,
    pending: HandshakeModel,
) -> bool {
    &&& start.initiator
    &&& start.writes
    &&& start.remote == Some(executor.public_bytes())
    &&& recovers(start, executor.fresh(false, start.prologue, None), drawn)
    &&& opened_message(
        executor.fresh(false, start.prologue, None),
        written_message(start, payload, drawn).0,
    ) == Some((payload, pending))
}

/// Whether the harness whose first message was read so, and that recovers the
/// secrets, reads the answer of the executor as one without a payload, and both
/// then hold the same session keys.
pub open spec fn response_is_read(pending: HandshakeModel, drawn: Seq<u8>) -> bool {
    forall|
        executor: NoiseChannelIdentity,
        start: HandshakeModel,
        payload: Seq<u8>,
        first: Seq<u8>,
    |
        #![trigger was_read(executor, start, payload, first, pending)]
        was_read(executor, start, payload, first, pending) && recovers(
            pending,
            written_message(start, payload, first).1,
            drawn,
        ) ==> (opened_message(
            written_message(start, payload, first).1,
            written_message(pending, Seq::empty(), drawn).0,
        ) matches Some((q, end)) && q.len() == 0 && session_keys(end) == session_keys(
            written_message(pending, Seq::empty(), drawn).1,
        ))
}

/// Whether `response` is the answer to a handshake, for some drawn bytes, and
/// `ciphers` are those of the handshake that it completes.
pub open spec fn completed(
    pending: HandshakeModel,
    response: Seq<u8>,
    ciphers: CipherModel,
) -> bool {
    &&& response.len() == RESPONSE_OVERHEAD
    &&& exists|drawn: Seq<u8>|
        {
            &&& (#[trigger] written_message(pending, Seq::empty(), drawn)).0 == response
            &&& ciphers == fresh_ciphers(
                false,
                session_keys(written_message(pending, Seq::empty(), drawn).1),
            )
            &&& response_is_read(pending, drawn)
        }
}

/// Whether the first message of a handshake is read as it was written, over key pairs.
spec fn first_is_read(start: HandshakeModel, payload: Seq<u8>, m: Seq<u8>, drawn: Seq<u8>) -> bool {
    forall|dh: DhKeyPair, kem: KemKeyPair|
        #![trigger fresh_responder(start.prologue, dh, kem)]
        start.remote == Some((dh_public(dh), kem_public(kem))) && recovers(
            start,
            fresh_responder(start.prologue, dh, kem),
            drawn,
        ) ==> (opened_message(fresh_responder(start.prologue, dh, kem), m) matches Some((p, next))
            && p == payload && next.remote == Some(start.local))
}

proof fn lemma_request(start: HandshakeModel, payload: Seq<u8>, m: Seq<u8>, next: HandshakeModel)
    requires
        exists|drawn: Seq<u8>|
            #[trigger] written_message(start, payload, drawn) == (m, next) && first_is_read(
                start,
                payload,
                m,
                drawn,
            ),
    ensures
        exists|drawn: Seq<u8>|
            #[trigger] written_message(start, payload, drawn) == (m, next) && request_is_read(
                start,
                payload,
                drawn,
            ),
{
    let drawn = choose|drawn: Seq<u8>|
        #[trigger] written_message(start, payload, drawn) == (m, next) && first_is_read(
            start,
            payload,
            m,
            drawn,
        );
    assert forall|executor: NoiseChannelIdentity|
        start.remote == Some(executor.public_bytes()) && recovers(
            start,
            #[trigger] executor.fresh(false, start.prologue, None),
            drawn,
        ) implies (opened_message(executor.fresh(false, start.prologue, None), m) matches Some(
        (p, n),
    ) && p == payload && n.remote == Some(start.local)) by {
        assert(executor.fresh(false, start.prologue, None) == fresh_responder(
            start.prologue,
            executor.dh,
            executor.kem,
        ));
    }
    assert(request_is_read(start, payload, drawn));
}

/// Whether the answer of a handshake is read as it was written, over key pairs.
spec fn second_is_read(
    pending: HandshakeModel,
    m: Seq<u8>,
    done: HandshakeModel,
    drawn: Seq<u8>,
) -> bool {
    forall|
        dh: DhKeyPair,
        kem: KemKeyPair,
        start: HandshakeModel,
        p: Seq<u8>,
        first: Seq<u8>,
    |
        #![trigger fresh_responder(start.prologue, dh, kem), written_message(start, p, first)]
        start.initiator && start.writes && start.remote == Some((dh_public(dh), kem_public(kem)))
            && recovers(start, fresh_responder(start.prologue, dh, kem), first) && opened_message(
            fresh_responder(start.prologue, dh, kem),
            written_message(start, p, first).0,
        ) == Some((p, pending)) && recovers(pending, written_message(start, p, first).1, drawn)
            ==> (opened_message(written_message(start, p, first).1, m) matches Some((q, end))
            && q == Seq::<u8>::empty() && session_keys(end) == session_keys(done))
}

proof fn lemma_answer(pending: HandshakeModel, m: Seq<u8>, done: HandshakeModel)
    requires
        exists|drawn: Seq<u8>|
            #[trigger] written_message(pending, Seq::empty(), drawn) == (m, done)
                && second_is_read(pending, m, done, drawn),
    ensures
        exists|drawn: Seq<u8>|
            #[trigger] written_message(pending, Seq::empty(), drawn) == (m, done)
                && response_is_read(pending, drawn),
{
    let drawn = choose|drawn: Seq<u8>|
        #[trigger] written_message(pending, Seq::empty(), drawn) == (m, done) && second_is_read(
            pending,
            m,
            done,
            drawn,
        );
    assert forall|
        executor: NoiseChannelIdentity,
        start: HandshakeModel,
        payload: Seq<u8>,
        first: Seq<u8>,
    |
        #![trigger was_read(executor, start, payload, first, pending)]
        was_read(executor, start, payload, first, pending) && recovers(
            pending,
            written_message(start, payload, first).1,
            drawn,
        ) implies (opened_message(written_message(start, payload, first).1, m) matches Some(
        (q, end),
    ) && q.len() == 0 && session_keys(end) == session_keys(done)) by {
        assert(executor.fresh(false, start.prologue, None) == fresh_responder(
            start.prologue,
            executor.dh,
            executor.kem,
        ));
    }
    assert(response_is_read(pending, drawn));
}

/// The harness side between the two handshake messages. Finishing consumes it,
/// so that one handshake cannot be finished twice.
pub struct InitiatorHandshake {
    handshake: ChannelHandshake,
}

impl InitiatorHandshake {
    /// What the handshake is bound to.
    pub closed spec fn model(self) -> HandshakeModel {
        handshake_model(self.handshake)
    }

    /// It is the harness side and waits for the answer.
    pub open spec fn wf(self) -> bool {
        self.model().initiator && !self.model().finished
    }

    /// Starts a handshake that pins the responder's static keys and carries
    /// `payload` encrypted in its first message. A key that cannot be used is
    /// refused before anything is written, whatever the payload.
    pub fn start(
        identity: &NoiseChannelIdentity,
        responder_public_key: &NoiseChannelPublicKey,
        prologue: &[u8],
        payload: &[u8],
    ) -> (r: Result<(Self, Vec<u8>), NoiseChannelError>)
        requires
            responder_public_key@.decoded() is Keys ==> payload@.len() + REQUEST_OVERHEAD
                <= MAX_MESSAGE_LEN,
        ensures
            match responder_public_key@.decoded() {
                DecodedKey::Refused(reason) => r matches Err(e) && e.is_invalid_key(reason),
                DecodedKey::Keys(dh, kem) => r matches Ok((hs, request)) && hs.wf() && started(
                    identity.fresh(true, prologue@, Some((dh, kem))),
                    payload@,
                    request@,
                    hs.model(),
                ),
            },
    {
        let (dh, kem) = match responder_public_key.decode() {
            Ok(keys) => keys,
            Err(e) => {
                return Err(e);
            },
        };
        let mut handshake = match new_handshake(
            true,
            prologue,
            &identity.dh,
            &identity.kem,
            Some((dh.as_slice(), kem.as_slice())),
        ) {
            Ok(handshake) => handshake,
            Err(e) => {
                return Err(NoiseChannelError::handshake(e));
            },
        };
        let ghost begun = handshake_model(handshake);
        match write_message(&mut handshake, payload) {
            Ok(request) => {
                proof {
                    lemma_request(begun, payload@, request@, handshake_model(handshake));
                }
                Ok((InitiatorHandshake { handshake }, request))
            },
            Err(e) => Err(NoiseChannelError::handshake(e)),
        }
    }

    /// Starts a handshake where its first message can be written: `None` where the
    /// responder's key can be used but the payload is too long for one message.
    pub fn start_within_limit(
        identity: &NoiseChannelIdentity,
        responder_public_key: &NoiseChannelPublicKey,
        prologue: &[u8],
        payload: &[u8],
    ) -> (r: Option<Result<(Self, Vec<u8>), NoiseChannelError>>)
        ensures
            match responder_public_key@.decoded() {
                DecodedKey::Refused(reason) => r matches Some(Err(e)) && e.is_invalid_key(reason),
                DecodedKey::Keys(dh, kem) => if payload@.len() + REQUEST_OVERHEAD
                    <= MAX_MESSAGE_LEN {
                    r matches Some(Ok((hs, request))) && hs.wf() && started(
                        identity.fresh(true, prologue@, Some((dh, kem))),
                        payload@,
                        request@,
                        hs.model(),
                    )
                } else {
                    r is None
                },
            },
    {
        if payload.len() > MAX_MESSAGE_LEN - REQUEST_OVERHEAD && responder_public_key.decode().is_ok() {
            return None;
        }
        Some(Self::start(identity, responder_public_key, prologue, payload))
    }

    /// Reads the responder's message and enters transport mode. A response with
    /// a payload is refused, so that no channel opens there by accident.
    pub fn finish(self, response: &[u8]) -> (r: Result<NoiseTransport, NoiseChannelError>)
        requires
            self.wf(),
        ensures
            response@.len() > MAX_MESSAGE_LEN ==> (r matches Err(e) && e.is_invalid_message(
                "handshake response is too large"@,
            )),
            response@.len() <= MAX_MESSAGE_LEN ==> match opened_message(self.model(), response@) {
                None => r matches Err(e) && e is Handshake,
                Some((payload, end)) => if payload.len() == 0 {
                    r matches Ok(t) && t@ == fresh_ciphers(true, session_keys(end)) && response@.len()
                        == RESPONSE_OVERHEAD
                } else {
                    r matches Err(e) && e.is_invalid_message(
                        "handshake response payload must be empty"@,
                    )
                },
            },
    {
        if let Err(e) = ensure_noise_frame_len(response.len(), "handshake response is too large") {
            return Err(e);
        }
        let mut handshake = self.handshake;
        let payload = match read_message(&mut handshake, response) {
            Ok(payload) => payload,
            Err(e) => {
                return Err(NoiseChannelError::handshake(e));
            },
        };
        if payload.len() != 0 {
            return Err(
                NoiseChannelError::InvalidMessage("handshake response payload must be empty"),
            );
        }
        match finalize(handshake) {
            Ok(transport) => Ok(NoiseTransport { transport }),
            Err(e) => Err(NoiseChannelError::handshake(e)),
        }
    }
}

/// The executor side after it authenticated the first message. It is no usable
/// transport: it keeps the harness key and the authorization while the registry
/// decides.
pub struct PendingResponderHandshake {
    handshake: ChannelHandshake,
    initiator_public_key: NoiseChannelPublicKey,
    payload: Vec<u8>,
}

impl PendingResponderHandshake {
    /// What the handshake is bound to.
    pub closed spec fn model(self) -> HandshakeModel {
        handshake_model(self.handshake)
    }

    /// The harness key.
    pub closed spec fn initiator(self) -> PublicKeyModel {
        self.initiator_public_key@
    }

    /// The payload of the first message, until it is taken.
    pub closed spec fn payload(self) -> Seq<u8> {
        self.payload@
    }

    /// It is the executor side, has its answer still to give, and the harness
    /// key is the one that the handshake authenticated.
    pub open spec fn wf(self) -> bool {
        &&& !self.model().initiator
        &&& !self.model().finished
        &&& self.model().writes
        &&& self.model().remote matches Some(keys) && self.initiator() == public_key_of(keys)
    }

    /// Authenticates and reads the first message without answering it. Which
    /// messages are accepted rests on the keys.
    pub fn read_request(identity: &NoiseChannelIdentity, prologue: &[u8], request: &[u8]) -> (r:
        Result<Self, NoiseChannelError>)
        ensures
            request@.len() > MAX_MESSAGE_LEN ==> (r matches Err(e) && e.is_invalid_message(
                "handshake request is too large"@,
            )),
            request@.len() <= MAX_MESSAGE_LEN ==> match opened_message(
                identity.fresh(false, prologue@, None),
                request@,
            ) {
                Some((payload, next)) => r matches Ok(p) && p.wf() && p.payload() == payload
                    && p.model() == next && next.prologue == prologue@ && next.local
                    == identity.public_bytes() && payload.len() + REQUEST_OVERHEAD
                    == request@.len(),
                None => r matches Err(e) && e is Handshake,
            },
    {
        if let Err(e) = ensure_noise_frame_len(request.len(), "handshake request is too large") {
            return Err(e);
        }
        let mut handshake = match new_handshake(
            false,
            prologue,
            &identity.dh,
            &identity.kem,
            None,
        ) {
            Ok(handshake) => handshake,
            Err(e) => {
                return Err(NoiseChannelError::handshake(e));
            },
        };
        let payload = match read_message(&mut handshake, request) {
            Ok(payload) => payload,
            Err(e) => {
                return Err(NoiseChannelError::handshake(e));
            },
        };
        match remote_static(&handshake) {
            Some((dh, kem)) => Ok(
                PendingResponderHandshake {
                    handshake,
                    initiator_public_key: NoiseChannelPublicKey::from_bytes(&dh, &kem),
                    payload,
                },
            ),
            None => Err(
                NoiseChannelError::InvalidMessage(
                    "handshake request is missing initiator static key",
                ),
            ),
        }
    }

    /// The harness key.
    pub fn initiator_public_key(&self) -> (r: &NoiseChannelPublicKey)
        ensures
            r@ == self.initiator(),
    {
        &self.initiator_public_key
    }

    /// Moves the payload out, so that no second copy of it is kept.
    pub fn take_payload(&mut self) -> (r: Vec<u8>)
        ensures
            r@ == old(self).payload(),
            final(self).payload() == Seq::<u8>::empty(),
            final(self).model() == old(self).model(),
            final(self).initiator() == old(self).initiator(),
    {
        let mut payload: Vec<u8> = Vec::new();
        std::mem::swap(&mut payload, &mut self.payload);
        payload
    }

    /// Answers the handshake after the registry has accepted the harness key, and
    /// enters transport mode.
    pub fn complete(self) -> (r: Result<(NoiseTransport, Vec<u8>), NoiseChannelError>)
        requires
            self.wf(),
        ensures
            r matches Ok((t, response)) && completed(self.model(), response@, t@),
    {
        let mut handshake = self.handshake;
        let nothing: Vec<u8> = Vec::new();
        let ghost pending = handshake_model(handshake);
        let response = match write_message(&mut handshake, &nothing) {
            Ok(response) => {
                proof {
                    lemma_answer(pending, response@, handshake_model(handshake));
                }
                response
            },
            Err(e) => {
                return Err(NoiseChannelError::handshake(e));
            },
        };
        match finalize(handshake) {
            Ok(transport) => Ok((NoiseTransport { transport }, response)),
            Err(e) => Err(NoiseChannelError::handshake(e)),
        }
    }
}

/// An established channel with an implicit nonce in each direction. Records must
/// be presented in order, and none may be encrypted twice.
pub struct NoiseTransport {
    transport: ChannelCiphers,
}

impl View for NoiseTransport {
    type V = CipherModel;

    closed spec fn view(&self) -> CipherModel {
        cipher_model(self.transport)
    }
}

/// Why a record of `len` plaintext bytes may not be sent after `sent` others.
pub open spec fn sending_refusal(sent: nat, len: nat) -> Option<NoiseChannelError> {
    if sent >= MAX_TRANSPORT_RECORDS_PER_DIRECTION {
        Some(NoiseChannelError::InvalidState("transport record nonce exhausted"))
    } else if len + TAG_LEN > MAX_MESSAGE_LEN {
        Some(NoiseChannelError::InvalidMessage("transport plaintext is too large"))
    } else {
        None
    }
}

/// Why a record of `len` bytes may not be received after `received` others.
pub open spec fn receiving_refusal(received: nat, len: nat) -> Option<NoiseChannelError> {
    if received >= MAX_TRANSPORT_RECORDS_PER_DIRECTION {
        Some(NoiseChannelError::InvalidState("transport record nonce exhausted"))
    } else if len < TAG_LEN {
        Some(NoiseChannelError::InvalidMessage("transport ciphertext is too short"))
    } else if len > MAX_MESSAGE_LEN {
        Some(NoiseChannelError::InvalidMessage("transport ciphertext is too large"))
    } else {
        None
    }
}

/// Whether a record of `len` plaintext bytes may be sent after `sent` others.
pub fn check_sending(sent: u64, len: usize) -> (r: Result<(), NoiseChannelError>)
    ensures
        match sending_refusal(sent as nat, len as nat) {
            Some(refusal) => r == Err::<(), NoiseChannelError>(refusal),
            None => r is Ok,
        },
{
    if sent >= MAX_TRANSPORT_RECORDS_PER_DIRECTION {
        return Err(NoiseChannelError::InvalidState("transport record nonce exhausted"));
    }
    match len.checked_add(TAG_LEN) {
        Some(frame_len) => ensure_noise_frame_len(frame_len, "transport plaintext is too large"),
        None => Err(NoiseChannelError::InvalidMessage("transport plaintext is too large")),
    }
}

/// Whether a record of `len` bytes may be received after `received` others.
pub fn check_receiving(received: u64, len: usize) -> (r: Result<(), NoiseChannelError>)
    ensures
        match receiving_refusal(received as nat, len as nat) {
            Some(refusal) => r == Err::<(), NoiseChannelError>(refusal),
            None => r is Ok,
        },
{
    if received >= MAX_TRANSPORT_RECORDS_PER_DIRECTION {
        return Err(NoiseChannelError::InvalidState("transport record nonce exhausted"));
    }
    if len < TAG_LEN {
        return Err(NoiseChannelError::InvalidMessage("transport ciphertext is too short"));
    }
    ensure_noise_frame_len(len, "transport ciphertext is too large")
}

impl NoiseTransport {
    /// Encrypts exactly one record, the next in order. A refusal uses no nonce.
    pub fn encrypt(&mut self, plaintext: &[u8]) -> (r: Result<Vec<u8>, NoiseChannelError>)
        ensures
            match sending_refusal(old(self)@.sent, plaintext@.len()) {
                Some(refusal) => r == Err::<Vec<u8>, NoiseChannelError>(refusal) && final(self)@
                    == old(self)@,
                None => (r matches Ok(c) && c@ == sealed(
                    old(self)@.sending_key,
                    old(self)@.sent,
                    plaintext@,
                ) && c@.len() == plaintext@.len() + TAG_LEN) && final(self)@ == (CipherModel {
                    sent: old(self)@.sent + 1,
                    ..old(self)@
                }),
            },
    {
        if let Err(e) = check_sending(sending_nonce(&self.transport), plaintext.len()) {
            return Err(e);
        }
        match send_record(&mut self.transport, plaintext) {
            Ok(record) => Ok(record),
            Err(e) => Err(NoiseChannelError::transport(e)),
        }
    }

    /// Decrypts exactly the next record. A failure uses no nonce.
    pub fn decrypt(&mut self, ciphertext: &[u8]) -> (r: Result<Vec<u8>, NoiseChannelError>)
        ensures
            match receiving_refusal(old(self)@.received, ciphertext@.len()) {
                Some(refusal) => r == Err::<Vec<u8>, NoiseChannelError>(refusal) && final(self)@
                    == old(self)@,
                None => match r {
                    Ok(p) => opens_to(old(self)@, ciphertext@, p@) && final(self)@ == (CipherModel {
                        received: old(self)@.received + 1,
                        ..old(self)@
                    }),
                    Err(e) => e is Transport && final(self)@ == old(self)@ && opens_to_nothing(
                        old(self)@,
                        ciphertext@,
                    ),
                },
            },
    {
        if let Err(e) = check_receiving(receiving_nonce(&self.transport), ciphertext.len()) {
            return Err(e);
        }
        match receive_record(&mut self.transport, ciphertext) {
            Ok(plaintext) => Ok(plaintext),
            Err(e) => Err(NoiseChannelError::transport(e)),
        }
    }
}

/// Whether a record holds the plaintext, and no other, as the next record that
/// the channel receives.
pub open spec fn opens_to(m: CipherModel, record: Seq<u8>, plaintext: Seq<u8>) -> bool {
    &&& record == sealed(m.receiving_key, m.received, plaintext)
    &&& record.len() == plaintext.len() + TAG_LEN
    &&& forall|q: Seq<u8>|
        record == #[trigger] sealed(m.receiving_key, m.received, q) ==> q == plaintext
}

/// Whether a record holds no plaintext as the next record that the channel receives.
pub open spec fn opens_to_nothing(m: CipherModel, record: Seq<u8>) -> bool {
    forall|q: Seq<u8>| record != #[trigger] sealed(m.receiving_key, m.received, q)
}

/// The four bytes of a length, the highest first.
pub open spec fn length_prefix(n: nat) -> Seq<u8> {
    seq![
        (n / 256 / 256 / 256) as u8,
        (n / 256 / 256 % 256) as u8,
        (n / 256 % 256) as u8,
        (n % 256) as u8,
    ]
}

/// A part of a prologue: its length and its bytes.
pub open spec fn prologue_part(part: Seq<u8>) -> Seq<u8> {
    length_prefix(part.len()) + part
}

/// The prologue of a stream.
pub open spec fn prologue(
    environment_id: Seq<char>,
    executor_registration_id: Seq<char>,
    stream_id: Seq<char>,
) -> Seq<u8> {
    prologue_part(encode_utf8(PROLOGUE_DOMAIN@)) + prologue_part(encode_utf8(environment_id))
        + prologue_part(encode_utf8(executor_registration_id)) + prologue_part(
        encode_utf8(stream_id),
    )
}

/// Whether a part's length can be written in its prefix.
pub open spec fn fits_prologue(part: Seq<char>) -> bool {
    encode_utf8(part).len() <= u32::MAX
}

proof fn lemma_encoded_len(s: Seq<char>)
    ensures
        encode_utf8(s).len() <= 4 * s.len(),
    decreases s.len(),
{
    if s.len() > 0 {
        lemma_encoded_len(s.drop_first());
    }
}

/// Builds the prologue that binds a handshake to its route.
pub fn noise_channel_prologue(
    environment_id: &str,
    executor_registration_id: &str,
    stream_id: &str,
) -> (r: Result<Vec<u8>, NoiseChannelError>)
    ensures
        if fits_prologue(environment_id@) && fits_prologue(executor_registration_id@)
            && fits_prologue(stream_id@) {
            r matches Ok(v) && v@ == prologue(
                environment_id@,
                executor_registration_id@,
                stream_id@,
            )
        } else {
            r matches Err(e) && e.is_invalid_message("Noise channel prologue part is too large"@)
        },
{
    let mut out: Vec<u8> = Vec::new();
    proof {
        reveal_strlit("codex-exec-server-relay-noise/v1");
        lemma_encoded_len(PROLOGUE_DOMAIN@);
    }
    if let Err(e) = append_prologue_part(&mut out, PROLOGUE_DOMAIN.as_bytes()) {
        return Err(e);
    }
    if let Err(e) = append_prologue_part(&mut out, environment_id.as_bytes()) {
        return Err(e);
    }
    if let Err(e) = append_prologue_part(&mut out, executor_registration_id.as_bytes()) {
        return Err(e);
    }
    if let Err(e) = append_prologue_part(&mut out, stream_id.as_bytes()) {
        return Err(e);
    }
    Ok(out)
}

/// Appends a part with its length before it, which makes the bounds between the
/// parts unambiguous.
fn append_prologue_part(out: &mut Vec<u8>, part: &[u8]) -> (r: Result<(), NoiseChannelError>)
    ensures
        if part@.len() <= u32::MAX {
            r is Ok && final(out)@ == old(out)@ + prologue_part(part@)
        } else {
            (r matches Err(e) && e.is_invalid_message("Noise channel prologue part is too large"@))
                && final(out)@ == old(out)@
        },
{
    if part.len() as u64 > u32::MAX as u64 {
        return Err(NoiseChannelError::InvalidMessage("Noise channel prologue part is too large"));
    }
    let n: u64 = part.len() as u64;
    out.push((n / 256 / 256 / 256) as u8);
    out.push((n / 256 / 256 % 256) as u8);
    out.push((n / 256 % 256) as u8);
    out.push((n % 256) as u8);
    assert(out@ == old(out)@ + length_prefix(part@.len()));
    out.extend_from_slice(part);
    assert(out@ == old(out)@ + prologue_part(part@));
    Ok(())
}

/// Refuses a message that is longer than the channel carries.
fn ensure_noise_frame_len(frame_len: usize, message: &'static str) -> (r: Result<
    (),
    NoiseChannelError,
>)
    ensures
        r == (if frame_len > MAX_MESSAGE_LEN {
            Err::<(), NoiseChannelError>(NoiseChannelError::InvalidMessage(message))
        } else {
            Ok(())
        }),
{
    if frame_len > MAX_MESSAGE_LEN {
        return Err(NoiseChannelError::InvalidMessage(message));
    }
    Ok(())
}

proof fn lemma_length_prefix(a: nat, b: nat)
    requires
        a <= u32::MAX,
        b <= u32::MAX,
        length_prefix(a) == length_prefix(b),
    ensures
        a == b,
{
    let p = length_prefix(a);
    let q = length_prefix(b);
    assert(p[0] == q[0] && p[1] == q[1] && p[2] == q[2] && p[3] == q[3]);
    let (a1, b1) = (a / 256, b / 256);
    let (a2, b2) = (a1 / 256, b1 / 256);
    assert(a2 / 256 == b2 / 256 && a2 % 256 == b2 % 256);
    assert(a2 == b2);
    assert(a1 % 256 == b1 % 256);
    assert(a1 == b1);
    assert(a % 256 == b % 256);
}

proof fn lemma_part_injective(a: Seq<u8>, x: Seq<u8>, b: Seq<u8>, y: Seq<u8>)
    requires
        a.len() <= u32::MAX,
        b.len() <= u32::MAX,
        prologue_part(a) + x == prologue_part(b) + y,
    ensures
        a == b,
        x == y,
{
    let s = prologue_part(a) + x;
    let t = prologue_part(b) + y;
    assert(s.take(4) == length_prefix(a.len()));
    assert(t.take(4) == length_prefix(b.len()));
    lemma_length_prefix(a.len(), b.len());
    let n = a.len() as int;
    assert(s.subrange(4, 4 + n) == a);
    assert(t.subrange(4, 4 + n) == b);
    assert(s.skip(4 + n) == x);
    assert(t.skip(4 + n) == y);
}

proof fn lemma_encoding_injective(a: Seq<char>, b: Seq<char>)
    requires
        encode_utf8(a) == encode_utf8(b),
    ensures
        a == b,
{
    encode_utf8_decode_utf8(a);
    encode_utf8_decode_utf8(b);
}

/// Different routes have different prologues: a handshake that was captured from
/// one environment, executor registration or stream has another transcript than
/// any handshake of another.
pub proof fn law_prologue_is_injective(
    a: (Seq<char>, Seq<char>, Seq<char>),
    b: (Seq<char>, Seq<char>, Seq<char>),
)
    requires
        fits_prologue(a.0) && fits_prologue(a.1) && fits_prologue(a.2),
        fits_prologue(b.0) && fits_prologue(b.1) && fits_prologue(b.2),
        prologue(a.0, a.1, a.2) == prologue(b.0, b.1, b.2),
    ensures
        a == b,
{
    let head = encode_utf8(PROLOGUE_DOMAIN@);
    let (ea, ra, sa) = (encode_utf8(a.0), encode_utf8(a.1), encode_utf8(a.2));
    let (eb, rb, sb) = (encode_utf8(b.0), encode_utf8(b.1), encode_utf8(b.2));
    reveal_strlit("codex-exec-server-relay-noise/v1");
    lemma_encoded_len(PROLOGUE_DOMAIN@);
    let rest_a = prologue_part(ra) + prologue_part(sa);
    let rest_b = prologue_part(rb) + prologue_part(sb);
    assert(prologue(a.0, a.1, a.2) == prologue_part(head) + (prologue_part(ea) + rest_a));
    assert(prologue(b.0, b.1, b.2) == prologue_part(head) + (prologue_part(eb) + rest_b));
    lemma_part_injective(head, prologue_part(ea) + rest_a, head, prologue_part(eb) + rest_b);
    lemma_part_injective(ea, rest_a, eb, rest_b);
    lemma_part_injective(ra, prologue_part(sa), rb, prologue_part(sb));
    assert(prologue_part(sa) + Seq::<u8>::empty() == prologue_part(sa));
    assert(prologue_part(sb) + Seq::<u8>::empty() == prologue_part(sb));
    lemma_part_injective(sa, Seq::empty(), sb, Seq::empty());
    lemma_encoding_injective(a.0, b.0);
    lemma_encoding_injective(a.1, b.1);
    lemma_encoding_injective(a.2, b.2);
}

/// What a channel decrypts is what its peer encrypted: where the receiver holds
/// the sender's key and has received as many records as the sender had sent, a
/// record opens, and it opens to the plaintext that it was made of.
pub proof fn law_record_opens_to_what_was_sent(
    sender: CipherModel,
    receiver: CipherModel,
    plaintext: Seq<u8>,
)
    requires
        sender.sending_key == receiver.receiving_key,
        sender.sent == receiver.received,
    ensures
        ({
            let record = sealed(sender.sending_key, sender.sent, plaintext);
            &&& !opens_to_nothing(receiver, record)
            &&& forall|opened: Seq<u8>|
                opens_to(receiver, record, opened) ==> opened == plaintext
        }),
{
    let record = sealed(sender.sending_key, sender.sent, plaintext);
    assert(record == sealed(receiver.receiving_key, receiver.received, plaintext));
}

/// A handshake between a harness and the executor that it expects, over the same
/// prologue, comes about: where the secrets of both messages are recovered, the
/// executor reads the payload and the harness's own keys out of the first message,
/// the harness reads the answer, and each side receives under the key under which
/// the other one sends. Starting a handshake gives the first condition for the
/// bytes that were drawn, and completing it gives the second.
pub proof fn law_channel_comes_about(
    harness: NoiseChannelIdentity,
    executor: NoiseChannelIdentity,
    prologue: Seq<u8>,
    payload: Seq<u8>,
    first: Seq<u8>,
    pending: HandshakeModel,
    second: Seq<u8>,
)
    requires
        ({
            let start = harness.fresh(true, prologue, Some(executor.public_bytes()));
            let waiting = executor.fresh(false, prologue, None);
            let (request, sent) = written_message(start, payload, first);
            &&& request_is_read(start, payload, first)
            &&& recovers(start, waiting, first)
            &&& opened_message(waiting, request) matches Some((_, next)) ==> next == pending
            &&& response_is_read(pending, second)
            &&& recovers(pending, sent, second)
        }),
    ensures
        ({
            let start = harness.fresh(true, prologue, Some(executor.public_bytes()));
            let (request, sent) = written_message(start, payload, first);
            let (response, done) = written_message(pending, Seq::empty(), second);
            &&& opened_message(executor.fresh(false, prologue, None), request) == Some(
                (payload, pending),
            )
            &&& pending.remote == Some(harness.public_bytes())
            &&& opened_message(sent, response) matches Some((q, end)) && q.len() == 0 && {
                let a = fresh_ciphers(true, session_keys(end));
                let b = fresh_ciphers(false, session_keys(done));
                &&& a.sending_key == b.receiving_key && a.receiving_key == b.sending_key
                &&& a.sent == b.received && a.received == b.sent
            }
        }),
{
    let start = harness.fresh(true, prologue, Some(executor.public_bytes()));
    let waiting = executor.fresh(false, prologue, None);
    assert(start.prologue == prologue);
    assert(opened_message(waiting, written_message(start, payload, first).0) == Some(
        (payload, pending),
    ));
    assert(was_read(executor, start, payload, first, pending));
}

/// The two sides of a handshake that ends with the same keys can talk: what one
/// sends under is what the other receives under, and both start counting at zero.
pub proof fn law_sides_are_paired(keys: (Seq<u8>, Seq<u8>))
    ensures
        ({
            let a = fresh_ciphers(true, keys);
            let b = fresh_ciphers(false, keys);
            &&& a.sending_key == b.receiving_key && a.receiving_key == b.sending_key
            &&& a.sent == b.received && a.received == b.sent
        }),
{
}

/// No channel sends or receives more records than the limit, whatever their length.
pub proof fn law_records_are_limited(count: nat, len: nat)
    requires
        count >= MAX_TRANSPORT_RECORDS_PER_DIRECTION,
    ensures
        sending_refusal(count, len) is Some,
        receiving_refusal(count, len) is Some,
{
}

/// A public key is taken for one exactly where it names this suite and both its
/// parts decode to keys of the right length; what is wrong first is what is
/// reported.
pub proof fn law_public_key_needs_its_suite_and_lengths(key: PublicKeyModel)
    ensures
        ({
            let suite = key.suite == "Noise_hybridIK_X25519+MLKEM768_AESGCM_SHA256"@;
            let dh = base64_bytes(key.x25519);
            let kem = base64_bytes(key.mlkem768);
            let dh_fits = dh is Some && dh->0.len() == 32;
            let kem_fits = kem is Some && kem->0.len() == 1184;
            let decoded = key.decoded();
            &&& decoded is Keys <==> suite && dh_fits && kem_fits
            &&& decoded is Keys ==> decoded == DecodedKey::Keys(dh->0, kem->0)
            &&& !suite ==> decoded == DecodedKey::Refused("unsupported Noise channel suite"@)
            &&& suite && dh is None ==> decoded == DecodedKey::Refused(
                "invalid X25519 public key"@,
            )
            &&& suite && dh is Some && !dh_fits ==> decoded == DecodedKey::Refused(
                "invalid X25519 public key length"@,
            )
            &&& suite && dh_fits && kem is None ==> decoded == DecodedKey::Refused(
                "invalid ML-KEM-768 public key"@,
            )
            &&& suite && dh_fits && kem is Some && !kem_fits ==> decoded == DecodedKey::Refused(
                "invalid ML-KEM-768 public key length"@,
            )
        }),
{
}

/// The public key of key bytes names this suite and carries each of the two in its
/// own place.
pub proof fn law_public_key_carries_both_keys(dh: Seq<u8>, kem: Seq<u8>)
    ensures
        public_key_of((dh, kem)).suite == "Noise_hybridIK_X25519+MLKEM768_AESGCM_SHA256"@,
        public_key_of((dh, kem)).x25519 == base64_text(dh),
        public_key_of((dh, kem)).mlkem768 == base64_text(kem),
{
}

/// A record is sent while fewer than 2^32 - 1 were, and its bytes fit a message
/// together with their tag of sixteen bytes; it is received while fewer than that
/// were, and it has at least the tag and at most the length of a message. The count
/// is looked at before the length.
pub proof fn law_records_within_the_limits_pass(count: nat, len: nat)
    ensures
        sending_refusal(count, len) is None <==> count < 4294967295 && len + 16 <= 65535,
        receiving_refusal(count, len) is None <==> count < 4294967295 && 16 <= len <= 65535,
        count >= 4294967295 ==> (sending_refusal(count, len) matches Some(e) && e is InvalidState)
            && (receiving_refusal(count, len) matches Some(e) && e is InvalidState),
        count < 4294967295 && len + 16 > 65535 ==> (sending_refusal(count, len) matches Some(e)
            && e.is_invalid_message("transport plaintext is too large"@)),
        count < 4294967295 && len < 16 ==> (receiving_refusal(count, len) matches Some(e)
            && e.is_invalid_message("transport ciphertext is too short"@)),
        count < 4294967295 && len > 65535 ==> (receiving_refusal(count, len) matches Some(e)
            && e.is_invalid_message("transport ciphertext is too large"@)),
{
}

/// What may be sent may also be received: the record of a plaintext that passes is
/// one that passes.
pub proof fn law_sendable_records_are_receivable(count: nat, len: nat)
    requires
        sending_refusal(count, len) is None,
    ensures
        receiving_refusal(count, len + TAG_LEN as nat) is None,
{
}

/// A length is written in four bytes, the highest first.
pub proof fn law_lengths_are_written_highest_byte_first(n: nat)
    requires
        n <= u32::MAX,
    ensures
        length_prefix(n).len() == 4,
        length_prefix(n)[0] * 0x100_0000 + length_prefix(n)[1] * 0x1_0000 + length_prefix(n)[2]
            * 0x100 + length_prefix(n)[3] == n,
{
    let a = n / 256;
    let b = a / 256;
    let c = b / 256;
    assert(c < 256);
}

/// A prologue begins with the name of this protocol, and then has the environment,
/// the executor's registration and the stream, in this order, each behind its
/// length.
pub proof fn law_prologue_names_protocol_and_route(
    environment_id: Seq<char>,
    executor_registration_id: Seq<char>,
    stream_id: Seq<char>,
)
    ensures
        ({
            let part = |s: Seq<char>| length_prefix(encode_utf8(s).len()) + encode_utf8(s);
            prologue(environment_id, executor_registration_id, stream_id) == part(
                "codex-exec-server-relay-noise/v1"@,
            ) + part(environment_id) + part(executor_registration_id) + part(stream_id)
        }),
{
}

/// The text of an error says what failed and ends in the reason. A refused key and
/// a refused message can be told from each other and from everything else.
pub proof fn law_error_text_says_what_failed(
    e: NoiseChannelError,
    m: String,
    word: &'static str,
    reason: Seq<char>,
)
    ensures
        NoiseChannelError::KeyGeneration(m).text() == "Noise channel key generation failed: "@ + m@,
        NoiseChannelError::InvalidState(word).text() == "invalid Noise channel state: "@ + word@,
        NoiseChannelError::Handshake(m).text() == "Noise channel handshake failed: "@ + m@,
        NoiseChannelError::Transport(m).text() == "Noise channel transport failed: "@ + m@,
        NoiseChannelError::InvalidPublicKey(word).is_invalid_key(word@),
        NoiseChannelError::InvalidMessage(word).is_invalid_message(word@),
        e.is_invalid_key(reason) ==> e is InvalidPublicKey && e.text()
            == "invalid Noise channel public key: "@ + reason,
        e.is_invalid_message(reason) ==> e is InvalidMessage && e.text()
            == "invalid Noise channel message: "@ + reason,
{
}

/// A part of a route fits the prologue where four bytes can tell its length.
pub proof fn law_parts_of_a_route_have_four_byte_lengths(part: Seq<char>)
    ensures
        fits_prologue(part) <==> encode_utf8(part).len() < 256 * 256 * 256 * 256,
{
}

} // verus!
