//! The primitives of the encrypted channel: key pairs, the two-message
//! handshake and the record cipher of the `clatter` crate.
use clatter::bytearray::ByteArray;
use clatter::bytearray::HeapArray;
use clatter::bytearray::SensitiveByteArray;
use clatter::constants::MAX_MESSAGE_LEN;
use clatter::crypto::cipher::AesGcm;
use clatter::crypto::dh::X25519;
use clatter::crypto::hash::Sha256;
use clatter::crypto::kem::rust_crypto_ml_kem::MlKem768;
use clatter::error::DhError;
use clatter::error::HandshakeError;
use clatter::error::KemError;
use clatter::error::TransportError;
use clatter::handshakepattern::noise_hybrid_ik;
use clatter::traits::Dh;
use clatter::traits::Handshaker;
use clatter::traits::Kem;
use clatter::transportstate::TransportState;
use clatter::HybridHandshake;
use clatter::HybridHandshakeParams;
use clatter::KeyPair;
use vstd::prelude::*;

verus! {

/// `clatter::error::DhError`.
#[verifier::external_type_specification]
#[verifier::external_body]
pub struct ExDhError(DhError);

/// `clatter::error::KemError`.
#[verifier::external_type_specification]
#[verifier::external_body]
pub struct ExKemError(KemError);

/// `clatter::error::HandshakeError`.
#[verifier::external_type_specification]
#[verifier::external_body]
pub struct ExHandshakeError(HandshakeError);

/// `clatter::error::TransportError`.
#[verifier::external_type_specification]
#[verifier::external_body]
pub struct ExTransportError(TransportError);

/// An X25519 key pair, `clatter::KeyPair`.
#[verifier::external_body]
pub struct DhKeyPair(KeyPair<[u8; 32], SensitiveByteArray<[u8; 32]>>);

/// An ML-KEM-768 key pair, `clatter::KeyPair`.
#[verifier::external_body]
pub struct KemKeyPair(KeyPair<HeapArray<1184>, SensitiveByteArray<HeapArray<2400>>>);

/// A hybrid IK handshake, `clatter::HybridHandshake`.
#[verifier::external_body]
pub struct ChannelHandshake(HybridHandshake<X25519, MlKem768, MlKem768, AesGcm, Sha256>);

/// The record ciphers of an established channel, `clatter::transportstate::TransportState`.
#[verifier::external_body]
pub struct ChannelCiphers(TransportState<AesGcm, Sha256>);

/// The message of a `clatter::error::DhError`.
pub uninterp spec fn dh_error_message(e: DhError) -> Seq<char>;

/// The message of a `clatter::error::KemError`.
pub uninterp spec fn kem_error_message(e: KemError) -> Seq<char>;

/// The message of a `clatter::error::HandshakeError`.
pub uninterp spec fn handshake_error_message(e: HandshakeError) -> Seq<char>;

/// The message of a `clatter::error::TransportError`.
pub uninterp spec fn transport_error_message(e: TransportError) -> Seq<char>;

/// Calls `to_string` on a `clatter::error::DhError`.
#[verifier::external_body]
pub(crate) fn dh_error_text(e: DhError) -> (r: String)
    ensures
        r@ == dh_error_message(e),
{
    e.to_string()
}

/// Calls `to_string` on a `clatter::error::KemError`.
#[verifier::external_body]
pub(crate) fn kem_error_text(e: KemError) -> (r: String)
    ensures
        r@ == kem_error_message(e),
{
    e.to_string()
}

/// Calls `to_string` on a `clatter::error::HandshakeError`.
#[verifier::external_body]
pub(crate) fn handshake_error_text(e: HandshakeError) -> (r: String)
    ensures
        r@ == handshake_error_message(e),
{
    e.to_string()
}

/// Calls `to_string` on a `clatter::error::TransportError`.
#[verifier::external_body]
pub(crate) fn transport_error_text(e: TransportError) -> (r: String)
    ensures
        r@ == transport_error_message(e),
{
    e.to_string()
}

/// The public half of an X25519 key pair.
pub uninterp spec fn dh_public(k: DhKeyPair) -> Seq<u8>;

/// The public half of an ML-KEM-768 key pair.
pub uninterp spec fn kem_public(k: KemKeyPair) -> Seq<u8>;

/// Calls `genkey` of `clatter::crypto::dh::X25519`, which always gives keys: a
/// random source that fails makes it panic. The keys are random, so nothing more
/// is said of them.
#[verifier::external_body]
pub(crate) fn generate_dh() -> (r: Result<DhKeyPair, DhError>)
    ensures
        r is Ok,
{
    X25519::genkey().map(DhKeyPair)
}

/// Calls `genkey` of `clatter`'s ML-KEM-768, which always gives keys: a random
/// source that fails makes it panic. The keys are random, so nothing more is said
/// of them.
#[verifier::external_body]
pub(crate) fn generate_kem() -> (r: Result<KemKeyPair, KemError>)
    ensures
        r is Ok,
{
    MlKem768::genkey().map(KemKeyPair)
}

/// Reads the `public` field of the key pair, whose type has 32 bytes.
#[verifier::external_body]
pub(crate) fn dh_public_bytes(k: &DhKeyPair) -> (r: Vec<u8>)
    ensures
        r@ == dh_public(*k),
        r@.len() == 32,
{
    k.0.public.as_slice().to_vec()
}

/// Reads the `public` field of the key pair, whose type has 1184 bytes.
#[verifier::external_body]
pub(crate) fn kem_public_bytes(k: &KemKeyPair) -> (r: Vec<u8>)
    ensures
        r@ == kem_public(*k),
        r@.len() == 1184,
{
    k.0.public.as_slice().to_vec()
}

/// Calls `clone` of the key pair, which copies both halves.
#[verifier::external_body]
pub(crate) fn copy_dh(k: &DhKeyPair) -> (r: DhKeyPair)
    ensures
        r == *k,
{
    DhKeyPair(k.0.clone())
}

/// Calls `clone` of the key pair, which copies both halves.
#[verifier::external_body]
pub(crate) fn copy_kem(k: &KemKeyPair) -> (r: KemKeyPair)
    ensures
        r == *k,
{
    KemKeyPair(k.0.clone())
}

/// What a handshake is bound to, and how far it has come.
#[verifier::ext_equal]
pub struct HandshakeModel {
    /// Whether this side sends the first message.
    pub initiator: bool,
    /// The bytes that both sides mix in before the first message.
    pub prologue: Seq<u8>,
    /// This side's static public keys.
    pub local: (Seq<u8>, Seq<u8>),
    /// The other side's static public keys, once they are known.
    pub remote: Option<(Seq<u8>, Seq<u8>)>,
    /// Whether the next message is this side's to write.
    pub writes: bool,
    /// Whether both messages have passed.
    pub finished: bool,
    /// Everything else that the handshake holds: its private and ephemeral keys
    /// and the state of its transcript.
    pub state: Seq<u8>,
}

/// What a handshake is bound to, and how far it has come.
pub uninterp spec fn handshake_model(h: ChannelHandshake) -> HandshakeModel;

/// The bytes by which a first handshake message is longer than its payload.
pub const REQUEST_OVERHEAD: usize = 3568;

/// The bytes by which a second handshake message is longer than its payload.
pub const RESPONSE_OVERHEAD: usize = 3424;

impl HandshakeModel {
    /// The bytes by which a message that this side sends is longer than its payload.
    pub open spec fn sending_overhead(self) -> nat {
        if self.initiator {
            REQUEST_OVERHEAD as nat
        } else {
            RESPONSE_OVERHEAD as nat
        }
    }

    /// The bytes by which a message that this side reads is longer than its payload.
    pub open spec fn receiving_overhead(self) -> nat {
        if self.initiator {
            RESPONSE_OVERHEAD as nat
        } else {
            REQUEST_OVERHEAD as nat
        }
    }
}

/// The state of a handshake that `clatter::HybridHandshake::new` makes.
pub uninterp spec fn initial_state(
    initiator: bool,
    prologue: Seq<u8>,
    dh: DhKeyPair,
    kem: KemKeyPair,
    remote: Option<(Seq<u8>, Seq<u8>)>,
) -> Seq<u8>;

/// A handshake that has not begun.
pub open spec fn fresh_handshake(
    initiator: bool,
    prologue: Seq<u8>,
    dh: DhKeyPair,
    kem: KemKeyPair,
    remote: Option<(Seq<u8>, Seq<u8>)>,
    state: Seq<u8>,
) -> HandshakeModel {
    HandshakeModel {
        initiator,
        prologue,
        local: (dh_public(dh), kem_public(kem)),
        remote,
        writes: initiator,
        finished: false,
        state,
    }
}

/// A handshake of the side that reads first, before it has begun.
pub open spec fn fresh_responder(prologue: Seq<u8>, dh: DhKeyPair, kem: KemKeyPair) -> HandshakeModel {
    fresh_handshake(
        false,
        prologue,
        dh,
        kem,
        None,
        initial_state(false, prologue, dh, kem, None),
    )
}

/// Keys over their bytes.
pub open spec fn remote_model(remote: Option<(&[u8], &[u8])>) -> Option<(Seq<u8>, Seq<u8>)> {
    match remote {
        Some((d, k)) => Some((d@, k@)),
        None => None,
    }
}

/// Calls `clatter::HybridHandshake::new` for the pattern `hybridIK` with our
/// static keys and, where they are known, the peer's. It fails exactly where the
/// side that sends first lacks the peer's keys. The handshake that comes out is
/// bound to just these keys and this prologue. The length conditions keep clear
/// of the panic of `from_slice`.
#[verifier::external_body]
pub(crate) fn new_handshake(
    initiator: bool,
    prologue: &[u8],
    dh: &DhKeyPair,
    kem: &KemKeyPair,
    remote: Option<(&[u8], &[u8])>,
) -> (r: Result<ChannelHandshake, HandshakeError>)
    requires
        remote matches Some((d, k)) ==> d@.len() == 32 && k@.len() == 1184,
    ensures
        r is Err == (initiator && remote is None),
        r matches Ok(h) ==> handshake_model(h) == fresh_handshake(
            initiator,
            prologue@,
            *dh,
            *kem,
            remote_model(remote),
            initial_state(initiator, prologue@, *dh, *kem, remote_model(remote)),
        ),
{
    let mut params = HybridHandshakeParams::new(noise_hybrid_ik(), initiator)
        .with_prologue(prologue)
        .with_s(dh.0.clone())
        .with_s_kem(kem.0.clone());
    params.rs = remote.map(|r| ByteArray::from_slice(r.0));
    params.rs_kem = remote.map(|r| ByteArray::from_slice(r.1));
    HybridHandshake::new(params).map(ChannelHandshake)
}

/// What `write_message` of a handshake makes of a payload and of the random bytes
/// that it draws: the message and the handshake that is left.
pub uninterp spec fn written_message(h: HandshakeModel, payload: Seq<u8>, drawn: Seq<u8>) -> (
    Seq<u8>,
    HandshakeModel,
);

/// Whether the reader of a message comes to the secrets that its writer put into
/// it with the drawn bytes: what `X25519::dh` gives the one from the keys of the
/// other, and what `MlKem768::decapsulate` makes of what `encapsulate` gave. For
/// keys that were generated, X25519 always agrees, and ML-KEM-768 misses the
/// secret for a vanishing share of the bytes that may be drawn. No call tells
/// whether it is so: it stands only before what follows from it.
pub uninterp spec fn recovers(
    writer: HandshakeModel,
    reader: HandshakeModel,
    drawn: Seq<u8>,
) -> bool;

/// Calls `write_message` of the handshake. It succeeds exactly where it is this
/// side's turn to write; the length condition keeps clear of the panic on a
/// message that is too long. A message is as long as its payload and a fixed
/// overhead for keys, encapsulations and tags; the pattern has one message per
/// side, so that the second side to write is done. The bytes and the handshake
/// that is left follow from the handshake, the payload and the bytes drawn.
///
/// `read_message` goes through the same tokens as `write_message`, so that a
/// reader who recovers the secrets of a message reads what was written: of the
/// first message, a responder that is fresh, holds the keys that the writer
/// expects and mixed in the same prologue reads the payload and the writer's
/// static keys; of the second, the initiator whose first message was read so
/// reads the payload, and both then hold the same session keys.
#[verifier::external_body]
pub(crate) fn write_message(h: &mut ChannelHandshake, payload: &[u8]) -> (r: Result<
    Vec<u8>,
    HandshakeError,
>)
    requires
        payload@.len() + REQUEST_OVERHEAD <= 65535,
    ensures
        r is Ok == handshake_model(*old(h)).writes,
        match r {
            Ok(m) => m@.len() == payload@.len() + handshake_model(*old(h)).sending_overhead()
                && handshake_model(*final(h)) == (HandshakeModel {
                writes: false,
                finished: !handshake_model(*old(h)).initiator,
                state: handshake_model(*final(h)).state,
                ..handshake_model(*old(h))
            }),
            Err(_) => handshake_model(*final(h)) == (HandshakeModel {
                state: handshake_model(*final(h)).state,
                ..handshake_model(*old(h))
            }),
        },
        r matches Ok(m) ==> exists|drawn: Seq<u8>|
            {
                &&& #[trigger] written_message(handshake_model(*old(h)), payload@, drawn) == (
                    m@,
                    handshake_model(*final(h)),
                )
                &&& handshake_model(*old(h)).initiator ==> forall|dh: DhKeyPair, kem: KemKeyPair|
                    #![trigger fresh_responder(handshake_model(*old(h)).prologue, dh, kem)]
                    handshake_model(*old(h)).remote == Some((dh_public(dh), kem_public(kem)))
                        && recovers(
                        handshake_model(*old(h)),
                        fresh_responder(handshake_model(*old(h)).prologue, dh, kem),
                        drawn,
                    ) ==> (opened_message(
                        fresh_responder(handshake_model(*old(h)).prologue, dh, kem),
                        m@,
                    ) matches Some((p, next)) && p == payload@ && next.remote == Some(
                        handshake_model(*old(h)).local,
                    ))
                &&& !handshake_model(*old(h)).initiator ==> forall|
                    dh: DhKeyPair,
                    kem: KemKeyPair,
                    start: HandshakeModel,
                    p: Seq<u8>,
                    first: Seq<u8>,
                |
                    #![trigger fresh_responder(start.prologue, dh, kem), written_message(start, p, first)]
                    start.initiator && start.writes && start.remote == Some(
                        (dh_public(dh), kem_public(kem)),
                    ) && recovers(start, fresh_responder(start.prologue, dh, kem), first)
                        && opened_message(
                        fresh_responder(start.prologue, dh, kem),
                        written_message(start, p, first).0,
                    ) == Some((p, handshake_model(*old(h)))) && recovers(
                        handshake_model(*old(h)),
                        written_message(start, p, first).1,
                        drawn,
                    ) ==> (opened_message(written_message(start, p, first).1, m@) matches Some(
                        (q, end),
                    ) && q == payload@ && session_keys(end) == session_keys(
                        handshake_model(*final(h)),
                    ))
            },
{
    let mut out = [0u8; MAX_MESSAGE_LEN];
    let n = h.0.write_message(payload, &mut out)?;
    Ok(out[..n].to_vec())
}

/// What `read_message` of a handshake makes of a message: the payload and the
/// handshake that is left; `None` where it refuses the message.
pub uninterp spec fn opened_message(h: HandshakeModel, message: Seq<u8>) -> Option<
    (Seq<u8>, HandshakeModel),
>;

/// Calls `read_message` of the handshake. Reading a first message authenticates
/// and reveals the sender's static keys; reading the second one ends the
/// handshake; neither changes anything else that the handshake is bound to. The
/// conditions keep clear of the panics on a message that is too long and on a
/// handshake that has no further message. Which messages are accepted rests on
/// the keys; of those that a peer wrote, `write_message` says it.
#[verifier::external_body]
pub(crate) fn read_message(h: &mut ChannelHandshake, message: &[u8]) -> (r: Result<
    Vec<u8>,
    HandshakeError,
>)
    requires
        message@.len() <= 65535,
        !handshake_model(*old(h)).finished,
    ensures
        match (r, opened_message(handshake_model(*old(h)), message@)) {
            (Ok(p), Some((payload, next))) => {
                let before = handshake_model(*old(h));
                &&& p@ == payload
                &&& handshake_model(*final(h)) == next
                &&& payload.len() + before.receiving_overhead() == message@.len()
                &&& next == (HandshakeModel {
                    remote: next.remote,
                    writes: !before.initiator,
                    finished: before.initiator,
                    state: next.state,
                    ..before
                })
                &&& next.remote is Some
                &&& before.initiator ==> next.remote == before.remote
            },
            (Err(_), None) => !handshake_model(*final(h)).finished,
            _ => false,
        },
{
    let mut out = [0u8; MAX_MESSAGE_LEN];
    let n = h.0.read_message(message, &mut out)?;
    Ok(out[..n].to_vec())
}

/// Calls `get_remote_static` of the handshake: the other side's static public
/// keys, whose types have 32 and 1184 bytes.
#[verifier::external_body]
pub(crate) fn remote_static(h: &ChannelHandshake) -> (r: Option<(Vec<u8>, Vec<u8>)>)
    ensures
        match r {
            Some((d, k)) => handshake_model(*h).remote == Some((d@, k@)) && d@.len() == 32
                && k@.len() == 1184,
            None => handshake_model(*h).remote is None,
        },
{
    h.0.get_remote_static().map(|r| (r.dh().as_slice().to_vec(), r.kem().as_slice().to_vec()))
}

/// The record counters and keys of an established channel.
#[verifier::ext_equal]
pub struct CipherModel {
    /// How many records were sent: the next sending nonce.
    pub sent: nat,
    /// How many records were received: the next receiving nonce.
    pub received: nat,
    /// The key of the records that this side sends.
    pub sending_key: Seq<u8>,
    /// The key of the records that this side receives.
    pub receiving_key: Seq<u8>,
}

/// The record counters and keys of an established channel.
pub uninterp spec fn cipher_model(c: ChannelCiphers) -> CipherModel;

/// The AES-256-GCM record of a plaintext under a key and a nonce, with its tag.
pub uninterp spec fn sealed(key: Seq<u8>, nonce: nat, plaintext: Seq<u8>) -> Seq<u8>;

/// The keys that a handshake yields: that of the records of the side that sent
/// the first message, and that of the other side's.
pub uninterp spec fn session_keys(h: HandshakeModel) -> (Seq<u8>, Seq<u8>);

/// The ciphers of a side that holds the given keys.
pub open spec fn fresh_ciphers(initiator: bool, keys: (Seq<u8>, Seq<u8>)) -> CipherModel {
    CipherModel {
        sent: 0,
        received: 0,
        sending_key: if initiator {
            keys.0
        } else {
            keys.1
        },
        receiving_key: if initiator {
            keys.1
        } else {
            keys.0
        },
    }
}

/// Calls `finalize` of the handshake: it yields ciphers exactly where both
/// messages have passed, and their counters start at zero.
#[verifier::external_body]
pub(crate) fn finalize(h: ChannelHandshake) -> (r: Result<ChannelCiphers, HandshakeError>)
    ensures
        r is Ok == handshake_model(h).finished,
        r matches Ok(c) ==> cipher_model(c) == fresh_ciphers(
            handshake_model(h).initiator,
            session_keys(handshake_model(h)),
        ),
{
    h.0.finalize().map(ChannelCiphers)
}

/// Calls `sending_nonce`.
#[verifier::external_body]
pub(crate) fn sending_nonce(c: &ChannelCiphers) -> (r: u64)
    ensures
        r == cipher_model(*c).sent,
{
    c.0.sending_nonce()
}

/// Calls `receiving_nonce`.
#[verifier::external_body]
pub(crate) fn receiving_nonce(c: &ChannelCiphers) -> (r: u64)
    ensures
        r == cipher_model(*c).received,
{
    c.0.receiving_nonce()
}

/// Calls `send_vec`: the record of the plaintext under the sending key and the
/// next nonce, which is used up. The call fails only past the end of the nonces,
/// which one condition leaves out; the other one keeps clear of the panic on a
/// record that is too long.
#[verifier::external_body]
pub(crate) fn send_record(c: &mut ChannelCiphers, plaintext: &[u8]) -> (r: Result<
    Vec<u8>,
    TransportError,
>)
    requires
        plaintext@.len() + 16 <= 65535,
        cipher_model(*old(c)).sent < u64::MAX,
    ensures
        match r {
            Ok(v) => v@ == sealed(
                cipher_model(*old(c)).sending_key,
                cipher_model(*old(c)).sent,
                plaintext@,
            ) && v@.len() == plaintext@.len() + 16 && cipher_model(*final(c)) == (CipherModel {
                sent: cipher_model(*old(c)).sent + 1,
                ..cipher_model(*old(c))
            }),
            Err(_) => false,
        },
{
    c.0.send_vec(plaintext)
}

/// Calls `receive_vec`: a plaintext comes out exactly of its own record under the
/// receiving key and the next nonce, which is then used up, and no two
/// plaintexts have the same record; an error uses no nonce. The length
/// conditions keep clear of the panics on a record that is too short or too
/// long, the other one of the end of the nonces.
#[verifier::external_body]
pub(crate) fn receive_record(c: &mut ChannelCiphers, record: &[u8]) -> (r: Result<
    Vec<u8>,
    TransportError,
>)
    requires
        16 <= record@.len() <= 65535,
        cipher_model(*old(c)).received < u64::MAX,
    ensures
        match r {
            Ok(v) => {
                &&& record@ == sealed(
                    cipher_model(*old(c)).receiving_key,
                    cipher_model(*old(c)).received,
                    v@,
                )
                &&& forall|q: Seq<u8>|
                    record@ == #[trigger] sealed(
                        cipher_model(*old(c)).receiving_key,
                        cipher_model(*old(c)).received,
                        q,
                    ) ==> q == v@
                &&& v@.len() + 16 == record@.len()
                &&& cipher_model(*final(c)) == (CipherModel {
                    received: cipher_model(*old(c)).received + 1,
                    ..cipher_model(*old(c))
                })
            },
            Err(_) => {
                &&& forall|q: Seq<u8>|
                    record@ != #[trigger] sealed(
                        cipher_model(*old(c)).receiving_key,
                        cipher_model(*old(c)).received,
                        q,
                    )
                &&& cipher_model(*final(c)) == cipher_model(*old(c))
            },
        },
{
    c.0.receive_vec(record)
}

} // verus!
