//! The state machine that serves many authenticated streams over one executor
//! websocket.
//!
//! Each stream has a handshake of its own. The websocket and the rendezvous
//! route are untrusted delivery: a malformed, unauthorized or cryptographically
//! invalid stream is reset, and no stream opens before its harness key has been
//! validated. The caller performs the I/O that a step asks for and hands the
//! outcome back as the next event.
use vstd::prelude::*;
use vstd::utf8::decode_utf8;
use vstd::utf8::valid_utf8;
use crate::outside::text_from_utf8;
use crate::text_map::holds_at;
use crate::text_map::lemma_key_unique;
use crate::text_map::TextMap;

verus! {

/// How many streams may be open at a time.
pub const MAX_ACTIVE_NOISE_RELAY_STREAMS: usize = 128;

/// How many bytes a harness-key authorization may have.
pub const MAX_HARNESS_KEY_AUTHORIZATION_BYTES: usize = 4096;

/// How many harness-key validations may run at a time.
pub const MAX_PENDING_HANDSHAKE_VALIDATIONS: usize = 32;

/// How many seconds one harness-key validation may take.
pub const HARNESS_KEY_VALIDATION_TIMEOUT_SECS: u64 = 10;

/// What a relay frame carries.
#[derive(Debug, Clone, Copy, PartialEq, Eq, Structural)]
pub enum RelayFrameBodyKind {
    /// A handshake message.
    Handshake,
    /// A ciphertext record.
    Data,
    /// The end of a stream.
    Reset,
    /// An acknowledgement.
    Ack,
    /// A resumption request.
    Resume,
    /// A sign of life.
    Heartbeat,
}

/// What the websocket delivered.
#[derive(Debug, Clone, Copy, PartialEq, Eq, Structural)]
pub enum SocketEvent {
    /// A binary message.
    Binary,
    /// A text message.
    Text,
    /// A ping, a pong or a raw frame.
    Control,
    /// A close message.
    Close,
    /// The end of the message stream.
    Ended,
    /// A read error.
    Failed,
}

/// What to do with a websocket event.
#[derive(Debug, Clone, Copy, PartialEq, Eq, Structural)]
pub enum SocketStep {
    /// Decode the message as a relay frame, and drop it if that fails.
    Decode,
    /// Go on without it.
    Skip,
    /// Leave the relay loop.
    Stop,
}

/// An open stream: the handle that serves it, and the identity under which its
/// harness key was validated.
pub struct ActiveStream<S> {
    /// The identity of this instance among all streams that ever had the same routing id.
    pub instance_id: u64,
    /// The handle.
    pub stream: S,
}

/// A handshake whose harness key is being validated.
pub struct PendingHandshake<H> {
    /// The identity of the validation.
    pub validation_id: u64,
    /// The responder state that waits for the outcome.
    pub handshake: H,
}

/// What a relay frame leads to.
pub enum FrameStep<S> {
    /// Nothing.
    Ignore,
    /// Send a reset for the stream.
    SendReset,
    /// Read the handshake request out of the frame.
    ReadHandshake,
    /// Hand the record to the open stream.
    Deliver,
    /// Disconnect the stream that was open, if there was one.
    Disconnect(Option<S>),
}

/// What a handshake request leads to.
pub enum RequestStep {
    /// Send a reset for the stream.
    SendReset,
    /// Have the harness key validated under the given identity.
    Validate { validation_id: u64, authorization: String },
}

/// What a finished validation leads to.
pub enum ValidationStep<H> {
    /// Nothing: the handshake that it was for is gone.
    Stale,
    /// Send a reset for the stream.
    SendReset,
    /// Complete the handshake and queue its response.
    Complete(H),
}

/// How completing a handshake went.
pub enum CompletionOutcome<S> {
    /// The responder could not complete the handshake.
    HandshakeFailed,
    /// The response could not be queued at once.
    ResponseNotQueued,
    /// The response is queued and this handle serves the stream.
    Opened(S),
}

/// What a completion leads to.
#[derive(Debug, Clone, Copy, PartialEq, Eq, Structural)]
pub enum CompletionStep {
    /// Send a reset for the stream.
    SendReset,
    /// Close the websocket rather than expose a half-open stream.
    CloseConnection,
    /// The stream is open.
    StreamOpen,
}

/// The state as mathematical values.
#[verifier::ext_equal]
pub struct RelayModel<S, H> {
    /// The open streams by routing id.
    pub streams: Map<Seq<char>, ActiveStream<S>>,
    /// The pending handshakes by routing id.
    pub pending: Map<Seq<char>, PendingHandshake<H>>,
    /// The stream whose validated handshake is being completed.
    pub completing: Option<(Seq<char>, u64)>,
    /// How many validations are running.
    pub running: nat,
    /// The identity of the next validation.
    pub next_id: nat,
}

/// What to do with a websocket event.
pub open spec fn socket_step_of(event: SocketEvent) -> SocketStep {
    match event {
        SocketEvent::Binary => SocketStep::Decode,
        SocketEvent::Text | SocketEvent::Control => SocketStep::Skip,
        SocketEvent::Close | SocketEvent::Ended | SocketEvent::Failed => SocketStep::Stop,
    }
}

impl<S, H> RelayModel<S, H> {
    /// Bounds, freshness of identities, and no routing id in two places.
    pub open spec fn wf(self) -> bool {
        &&& self.streams.dom().finite()
        &&& self.pending.dom().finite()
        &&& self.streams.dom().len() <= MAX_ACTIVE_NOISE_RELAY_STREAMS
        &&& self.running <= MAX_PENDING_HANDSHAKE_VALIDATIONS
        &&& self.next_id <= u64::MAX
        &&& forall|k: Seq<char>| #[trigger]
            self.streams.contains_key(k) ==> self.streams[k].instance_id < self.next_id
        &&& forall|k: Seq<char>| #[trigger]
            self.pending.contains_key(k) ==> self.pending[k].validation_id < self.next_id
        &&& forall|k: Seq<char>, l: Seq<char>|
            #![trigger self.pending.contains_key(k), self.pending.contains_key(l)]
            self.pending.contains_key(k) && self.pending.contains_key(l) && k != l
                ==> self.pending[k].validation_id != self.pending[l].validation_id
        &&& forall|k: Seq<char>|
            !(#[trigger] self.streams.contains_key(k) && self.pending.contains_key(k))
        &&& self.completing matches Some((k, id)) ==> {
            &&& !self.streams.contains_key(k)
            &&& !self.pending.contains_key(k)
            &&& self.streams.dom().len() < MAX_ACTIVE_NOISE_RELAY_STREAMS
            &&& id < self.next_id
        }
    }

    /// Whether `ids` are the identities of the running validations: as many as
    /// are counted, with one for each pending handshake.
    pub open spec fn accounts_for(self, ids: Set<u64>) -> bool {
        &&& ids.finite()
        &&& ids.len() == self.running
        &&& forall|id: u64| #[trigger] ids.contains(id) ==> id < self.next_id
        &&& forall|k: Seq<char>| #[trigger]
            self.pending.contains_key(k) ==> ids.contains(self.pending[k].validation_id)
    }

    /// Whether a handshake for the routing id may be read.
    pub open spec fn admits(self, id: Seq<char>) -> bool {
        &&& !self.streams.contains_key(id)
        &&& !self.pending.contains_key(id)
        &&& self.streams.dom().len() < MAX_ACTIVE_NOISE_RELAY_STREAMS
        &&& self.running < MAX_PENDING_HANDSHAKE_VALIDATIONS
    }

    /// The state after a frame.
    pub open spec fn after_frame(self, kind: RelayFrameBodyKind, id: Seq<char>) -> Self {
        match kind {
            RelayFrameBodyKind::Data if !self.streams.contains_key(id) => RelayModel {
                pending: self.pending.remove(id),
                ..self
            },
            RelayFrameBodyKind::Reset => RelayModel {
                streams: self.streams.remove(id),
                pending: self.pending.remove(id),
                ..self
            },
            _ => self,
        }
    }

    /// What a frame leads to.
    pub open spec fn frame_step(self, kind: RelayFrameBodyKind, id: Seq<char>) -> FrameStep<S> {
        match kind {
            RelayFrameBodyKind::Handshake => if self.admits(id) {
                FrameStep::ReadHandshake
            } else {
                FrameStep::SendReset
            },
            RelayFrameBodyKind::Data => if self.streams.contains_key(id) {
                FrameStep::Deliver
            } else {
                FrameStep::SendReset
            },
            RelayFrameBodyKind::Reset => FrameStep::Disconnect(
                if self.streams.contains_key(id) {
                    Some(self.streams[id].stream)
                } else {
                    None
                },
            ),
            _ => FrameStep::Ignore,
        }
    }

    /// Whether a handshake request that carries this payload is taken up.
    pub open spec fn accepts_payload(self, payload: Seq<u8>) -> bool {
        &&& valid_utf8(payload)
        &&& payload.len() <= MAX_HARNESS_KEY_AUTHORIZATION_BYTES
        &&& self.next_id < u64::MAX
    }

    /// The state after a handshake request was read, or could not be read.
    pub open spec fn after_request(self, id: Seq<char>, request: Option<(Seq<u8>, H)>) -> Self {
        match request {
            Some((payload, handshake)) if self.accepts_payload(payload) => RelayModel {
                pending: self.pending.insert(
                    id,
                    PendingHandshake { validation_id: self.next_id as u64, handshake },
                ),
                running: self.running + 1,
                next_id: self.next_id + 1,
                ..self
            },
            _ => self,
        }
    }

    /// Whether a validation is the one that the pending handshake waits for.
    pub open spec fn is_current(self, id: Seq<char>, validation_id: u64) -> bool {
        self.pending.contains_key(id) && self.pending[id].validation_id == validation_id
    }

    /// Whether no other routing id waits for the validation.
    pub open spec fn was_started_for(self, id: Seq<char>, validation_id: u64) -> bool {
        forall|k: Seq<char>| #[trigger] self.is_current(k, validation_id) ==> k == id
    }

    /// The state after a validation finished.
    pub open spec fn after_validation(
        self,
        id: Seq<char>,
        validation_id: u64,
        accepted: bool,
    ) -> Self {
        let ended = RelayModel { running: (self.running - 1) as nat, ..self };
        if !self.is_current(id, validation_id) {
            ended
        } else if accepted && self.streams.dom().len() < MAX_ACTIVE_NOISE_RELAY_STREAMS {
            RelayModel {
                pending: self.pending.remove(id),
                completing: Some((id, validation_id)),
                ..ended
            }
        } else {
            RelayModel { pending: self.pending.remove(id), ..ended }
        }
    }

    /// What a finished validation leads to.
    pub open spec fn validation_step(
        self,
        id: Seq<char>,
        validation_id: u64,
        accepted: bool,
    ) -> ValidationStep<H> {
        if !self.is_current(id, validation_id) {
            ValidationStep::Stale
        } else if accepted && self.streams.dom().len() < MAX_ACTIVE_NOISE_RELAY_STREAMS {
            ValidationStep::Complete(self.pending[id].handshake)
        } else {
            ValidationStep::SendReset
        }
    }

    /// The state after a validation task broke down.
    pub open spec fn after_task_failure(self) -> Self {
        RelayModel { pending: Map::empty(), running: (self.running - 1) as nat, ..self }
    }

    /// The state after a handshake was completed, or was not.
    pub open spec fn after_completion(self, outcome: CompletionOutcome<S>) -> Self {
        match (self.completing, outcome) {
            (Some((id, instance_id)), CompletionOutcome::Opened(stream)) => RelayModel {
                streams: self.streams.insert(id, ActiveStream { instance_id, stream }),
                completing: None,
                ..self
            },
            _ => RelayModel { completing: None, ..self },
        }
    }

    /// The state after an instance of a stream ended by itself.
    pub open spec fn after_close(self, id: Seq<char>, instance_id: u64) -> Self {
        if self.streams.contains_key(id) && self.streams[id].instance_id == instance_id {
            RelayModel { streams: self.streams.remove(id), ..self }
        } else {
            self
        }
    }

    /// The state after an open stream could not process a record.
    pub open spec fn after_rejected_record(self, id: Seq<char>) -> Self {
        RelayModel { streams: self.streams.remove(id), ..self }
    }
}

/// The routing ids of a list of streams.
pub open spec fn stream_ids<S>(v: Seq<(String, ActiveStream<S>)>) -> Seq<Seq<char>> {
    v.map_values(|e: (String, ActiveStream<S>)| e.0@)
}

/// What to do with a websocket event.
pub fn socket_step(event: SocketEvent) -> (r: SocketStep)
    ensures
        r == socket_step_of(event),
{
    match event {
        SocketEvent::Binary => SocketStep::Decode,
        SocketEvent::Text | SocketEvent::Control => SocketStep::Skip,
        SocketEvent::Close | SocketEvent::Ended | SocketEvent::Failed => SocketStep::Stop,
    }
}

/// The state of one executor websocket.
pub struct RelayEnvironment<S, H> {
    streams: TextMap<ActiveStream<S>>,
    pending_handshakes: TextMap<PendingHandshake<H>>,
    completing: Option<(String, u64)>,
    running_validations: usize,
    next_validation_id: u64,
}

impl<S, H> View for RelayEnvironment<S, H> {
    type V = RelayModel<S, H>;

    closed spec fn view(&self) -> RelayModel<S, H> {
        RelayModel {
            streams: self.streams@,
            pending: self.pending_handshakes@,
            completing: match self.completing {
                Some((id, instance_id)) => Some((id@, instance_id)),
                None => None,
            },
            running: self.running_validations as nat,
            next_id: self.next_validation_id as nat,
        }
    }
}

impl<S, H> RelayEnvironment<S, H> {
    /// The maps are in order and the state is well formed.
    pub closed spec fn wf(self) -> bool {
        &&& self.streams.wf()
        &&& self.pending_handshakes.wf()
        &&& self@.wf()
    }

    /// A well-formed environment has a well-formed state.
    pub proof fn lemma_wf(self)
        requires
            self.wf(),
        ensures
            self@.wf(),
    {
    }

    /// No stream, no handshake, no validation.
    pub fn new() -> (r: Self)
        ensures
            r.wf(),
            r@ == (RelayModel::<S, H> {
                streams: Map::empty(),
                pending: Map::empty(),
                completing: None,
                running: 0,
                next_id: 0,
            }),
    {
        RelayEnvironment {
            streams: TextMap::new(),
            pending_handshakes: TextMap::new(),
            completing: None,
            running_validations: 0,
            next_validation_id: 0,
        }
    }

    /// The handle of an open stream.
    pub fn stream(&self, stream_id: &str) -> (r: Option<&S>)
        requires
            self.wf(),
        ensures
            match r {
                Some(s) => self@.streams.contains_key(stream_id@) && self@.streams[stream_id@].stream
                    == *s,
                None => !self@.streams.contains_key(stream_id@),
            },
    {
        match self.streams.get(stream_id) {
            Some(active) => Some(&active.stream),
            None => None,
        }
    }

    /// Takes up a relay frame.
    pub fn frame_received(&mut self, kind: RelayFrameBodyKind, stream_id: &str) -> (r: FrameStep<S>)
        requires
            old(self).wf(),
            old(self)@.completing is None,
        ensures
            final(self).wf(),
            final(self)@ == old(self)@.after_frame(kind, stream_id@),
            r == old(self)@.frame_step(kind, stream_id@),
    {
        proof {
            self.streams.lemma_pairs();
            self.pending_handshakes.lemma_pairs();
        }
        match kind {
            RelayFrameBodyKind::Handshake => {
                if self.streams.contains_key(stream_id) || self.pending_handshakes.contains_key(
                    stream_id,
                ) {
                    return FrameStep::SendReset;
                }
                if self.streams.len() >= MAX_ACTIVE_NOISE_RELAY_STREAMS {
                    return FrameStep::SendReset;
                }
                if self.running_validations >= MAX_PENDING_HANDSHAKE_VALIDATIONS {
                    return FrameStep::SendReset;
                }
                FrameStep::ReadHandshake
            },
            RelayFrameBodyKind::Data => {
                if self.streams.contains_key(stream_id) {
                    return FrameStep::Deliver;
                }
                let _ = self.pending_handshakes.remove(stream_id);
                assert(self@.wf());
                FrameStep::SendReset
            },
            RelayFrameBodyKind::Reset => {
                let _ = self.pending_handshakes.remove(stream_id);
                let removed = self.streams.remove(stream_id);
                assert(self@.wf());
                match removed {
                    Some(active) => FrameStep::Disconnect(Some(active.stream)),
                    None => FrameStep::Disconnect(None),
                }
            },
            RelayFrameBodyKind::Ack | RelayFrameBodyKind::Resume | RelayFrameBodyKind::Heartbeat => {
                FrameStep::Ignore
            },
        }
    }

    /// Takes up an authenticated handshake request, or notes that it could not be read.
    pub fn handshake_request(&mut self, stream_id: &str, request: Option<(Vec<u8>, H)>) -> (r:
        RequestStep)
        requires
            old(self).wf(),
            old(self)@.completing is None,
            old(self)@.admits(stream_id@),
        ensures
            final(self).wf(),
            final(self)@ == old(self)@.after_request(
                stream_id@,
                match request {
                    Some((payload, handshake)) => Some((payload@, handshake)),
                    None => None,
                },
            ),
            match request {
                Some((payload, _)) if old(self)@.accepts_payload(payload@) => r matches
                    RequestStep::Validate { validation_id, authorization } && validation_id == old(
                    self,
                )@.next_id && authorization@ == decode_utf8(payload@),
                _ => r == RequestStep::SendReset,
            },
    {
        let (payload, handshake) = match request {
            Some(read) => read,
            None => {
                return RequestStep::SendReset;
            },
        };
        let payload_len = payload.len();
        let authorization = match text_from_utf8(payload) {
            Some(text) => text,
            None => {
                return RequestStep::SendReset;
            },
        };
        if payload_len > MAX_HARNESS_KEY_AUTHORIZATION_BYTES {
            return RequestStep::SendReset;
        }
        let validation_id = self.next_validation_id;
        if validation_id == u64::MAX {
            return RequestStep::SendReset;
        }
        self.next_validation_id = validation_id + 1;
        self.pending_handshakes.insert(
            stream_id.to_owned(),
            PendingHandshake { validation_id, handshake },
        );
        self.running_validations = self.running_validations + 1;
        proof {
            self.pending_handshakes.lemma_pairs();
            assert(self@.wf());
        }
        RequestStep::Validate { validation_id, authorization }
    }

    /// Takes up the outcome of a validation.
    pub fn validation_finished(
        &mut self,
        stream_id: &str,
        validation_id: u64,
        accepted: bool,
    ) -> (r: ValidationStep<H>)
        requires
            old(self).wf(),
            old(self)@.completing is None,
            old(self)@.running > 0,
        ensures
            final(self).wf(),
            final(self)@ == old(self)@.after_validation(stream_id@, validation_id, accepted),
            r == old(self)@.validation_step(stream_id@, validation_id, accepted),
    {
        self.running_validations = self.running_validations - 1;
        proof {
            self.streams.lemma_pairs();
            self.pending_handshakes.lemma_pairs();
        }
        let is_current = match self.pending_handshakes.get(stream_id) {
            Some(pending) => pending.validation_id == validation_id,
            None => false,
        };
        if !is_current {
            return ValidationStep::Stale;
        }
        let removed = self.pending_handshakes.remove(stream_id);
        assert(self@.wf());
        match removed {
            Some(pending) if accepted && self.streams.len() < MAX_ACTIVE_NOISE_RELAY_STREAMS => {
                self.completing = Some((stream_id.to_owned(), validation_id));
                assert(self@.wf());
                ValidationStep::Complete(pending.handshake)
            },
            _ => ValidationStep::SendReset,
        }
    }

    /// Notes that a validation task broke down: every pending handshake is
    /// given up, and the routing ids to reset are returned.
    pub fn validation_task_failed(&mut self) -> (r: Vec<String>)
        requires
            old(self).wf(),
            old(self)@.completing is None,
            old(self)@.running > 0,
        ensures
            final(self).wf(),
            final(self)@ == old(self)@.after_task_failure(),
            r.deep_view().no_duplicates(),
            r.deep_view().to_set() == old(self)@.pending.dom(),
    {
        let r = self.pending_handshakes.keys();
        proof {
            self.pending_handshakes.lemma_pairs();
            self.pending_handshakes.lemma_keys(r.deep_view());
        }
        self.pending_handshakes = TextMap::new();
        self.running_validations = self.running_validations - 1;
        assert(self@.pending =~= Map::empty());
        assert(self@.wf());
        r
    }

    /// Takes up how completing the validated handshake went.
    pub fn handshake_completed(&mut self, outcome: CompletionOutcome<S>) -> (r: CompletionStep)
        requires
            old(self).wf(),
            old(self)@.completing is Some,
        ensures
            final(self).wf(),
            final(self)@ == old(self)@.after_completion(outcome),
            r == (match outcome {
                CompletionOutcome::HandshakeFailed => CompletionStep::SendReset,
                CompletionOutcome::ResponseNotQueued => CompletionStep::CloseConnection,
                CompletionOutcome::Opened(_) => CompletionStep::StreamOpen,
            }),
    {
        let completing = self.completing.take();
        match outcome {
            CompletionOutcome::HandshakeFailed => CompletionStep::SendReset,
            CompletionOutcome::ResponseNotQueued => CompletionStep::CloseConnection,
            CompletionOutcome::Opened(stream) => {
                if let Some((stream_id, instance_id)) = completing {
                    self.streams.insert(stream_id, ActiveStream { instance_id, stream });
                    proof {
                        self.streams.lemma_pairs();
                        assert(self@.wf());
                    }
                }
                CompletionStep::StreamOpen
            },
        }
    }

    /// Notes that an instance of a stream ended by itself. A newer instance
    /// under the same routing id stays.
    pub fn stream_closed(&mut self, stream_id: &str, instance_id: u64)
        requires
            old(self).wf(),
            old(self)@.completing is None,
        ensures
            final(self).wf(),
            final(self)@ == old(self)@.after_close(stream_id@, instance_id),
    {
        let is_current = match self.streams.get(stream_id) {
            Some(active) => active.instance_id == instance_id,
            None => false,
        };
        if is_current {
            let _ = self.streams.remove(stream_id);
            assert(self@.wf());
        }
    }

    /// Gives up all state and returns the streams to disconnect.
    pub fn shutdown(self) -> (r: Vec<(String, ActiveStream<S>)>)
        requires
            self.wf(),
        ensures
            stream_ids(r@).no_duplicates(),
            stream_ids(r@).to_set() == self@.streams.dom(),
            forall|i: int|
                0 <= i < r@.len() ==> self@.streams[(#[trigger] r@[i]).0@] == r@[i].1,
    {
        proof {
            self.streams.lemma_pairs();
        }
        let ghost streams = self.streams;
        let r = self.streams.into_entries();
        proof {
            streams.lemma_keys(stream_ids(r@));
            assert forall|i: int| 0 <= i < r@.len() implies streams@[(#[trigger] r@[i]).0@]
                == r@[i].1 by {
                assert(holds_at(streams.pairs(), r@[i].0@, i));
                lemma_key_unique(streams.pairs(), r@[i].0@, i);
            }
        }
        r
    }

    /// Notes that an open stream could not process a record: the stream is
    /// removed, and a reset is to be sent for it.
    pub fn record_rejected(&mut self, stream_id: &str)
        requires
            old(self).wf(),
            old(self)@.completing is None,
        ensures
            final(self).wf(),
            final(self)@ == old(self)@.after_rejected_record(stream_id@),
    {
        let _ = self.streams.remove(stream_id);
        assert(self@.wf());
    }
}

/// A validation that no pending handshake waits for changes neither the streams
/// nor the pending handshakes, and completes nothing.
pub proof fn law_stale_validation_is_inert<S, H>(
    m: RelayModel<S, H>,
    id: Seq<char>,
    validation_id: u64,
    accepted: bool,
)
    requires
        m.wf(),
        !m.is_current(id, validation_id),
    ensures
        m.validation_step(id, validation_id, accepted) is Stale,
        m.after_validation(id, validation_id, accepted).streams == m.streams,
        m.after_validation(id, validation_id, accepted).pending == m.pending,
        m.after_validation(id, validation_id, accepted).completing == m.completing,
{
}

/// A validation that was started for an earlier handshake is never current for
/// a handshake taken up later, whatever the routing id.
pub proof fn law_new_handshake_outdates_old_validations<S, H>(
    m: RelayModel<S, H>,
    id: Seq<char>,
    payload: Seq<u8>,
    handshake: H,
    old_id: u64,
)
    requires
        m.wf(),
        m.admits(id),
        m.accepts_payload(payload),
        old_id < m.next_id,
    ensures
        !m.after_request(id, Some((payload, handshake))).is_current(id, old_id),
        m.after_request(id, Some((payload, handshake))).is_current(id, m.next_id as u64),
{
}

/// Data for a stream that is not open is answered by a reset and gives up the
/// handshake, so that its validation can no longer complete it.
pub proof fn law_early_data_gives_up_the_handshake<S, H>(
    m: RelayModel<S, H>,
    id: Seq<char>,
    validation_id: u64,
    accepted: bool,
)
    requires
        m.wf(),
        !m.streams.contains_key(id),
    ensures
        m.frame_step(RelayFrameBodyKind::Data, id) is SendReset,
        m.after_frame(RelayFrameBodyKind::Data, id).validation_step(
            id,
            validation_id,
            accepted,
        ) is Stale,
{
}

/// No event but the completion of a validated handshake opens a stream.
pub proof fn law_only_completion_opens_a_stream<S, H>(
    m: RelayModel<S, H>,
    kind: RelayFrameBodyKind,
    id: Seq<char>,
    request: Option<(Seq<u8>, H)>,
    validation_id: u64,
    accepted: bool,
    k: Seq<char>,
)
    requires
        m.wf(),
        !m.streams.contains_key(k),
    ensures
        !m.after_frame(kind, id).streams.contains_key(k),
        !m.after_request(id, request).streams.contains_key(k),
        !m.after_validation(id, validation_id, accepted).streams.contains_key(k),
        !m.after_task_failure().streams.contains_key(k),
        !m.after_close(id, validation_id).streams.contains_key(k),
        !m.after_rejected_record(id).streams.contains_key(k),
{
}

/// A handshake is completed only after the validation that it waits for has
/// accepted its harness key, and the stream that opens then bears that
/// validation's identity.
pub proof fn law_stream_opens_only_after_acceptance<S, H>(
    m: RelayModel<S, H>,
    id: Seq<char>,
    validation_id: u64,
    accepted: bool,
    stream: S,
)
    requires
        m.wf(),
        m.completing is None,
        m.after_validation(id, validation_id, accepted).completing is Some,
    ensures
        accepted,
        m.is_current(id, validation_id),
        m.validation_step(id, validation_id, accepted) == ValidationStep::Complete(
            m.pending[id].handshake,
        ),
        m.after_validation(id, validation_id, accepted).after_completion(
            CompletionOutcome::Opened(stream),
        ).streams == m.streams.insert(id, ActiveStream { instance_id: validation_id, stream }),
{
}

/// The end of an older instance leaves a newer instance under the same routing
/// id in place.
pub proof fn law_late_close_spares_newer_instance<S, H>(
    m: RelayModel<S, H>,
    id: Seq<char>,
    instance_id: u64,
)
    requires
        m.wf(),
        m.streams.contains_key(id),
        m.streams[id].instance_id != instance_id,
    ensures
        m.after_close(id, instance_id) == m,
{
}

proof fn lemma_pending_count<S, H>(m: RelayModel<S, H>, keys: Set<Seq<char>>, ids: Set<u64>)
    requires
        m.wf(),
        keys.finite(),
        keys.subset_of(m.pending.dom()),
        ids.finite(),
        forall|k: Seq<char>| #[trigger]
            keys.contains(k) ==> ids.contains(m.pending[k].validation_id),
    ensures
        keys.len() <= ids.len(),
    decreases keys.len(),
{
    if keys.len() > 0 {
        let k = keys.choose();
        let id = m.pending[k].validation_id;
        assert forall|l: Seq<char>| #[trigger] keys.remove(k).contains(l) implies ids.remove(
            id,
        ).contains(m.pending[l].validation_id) by {
            assert(m.pending.contains_key(k) && m.pending.contains_key(l));
        }
        lemma_pending_count(m, keys.remove(k), ids.remove(id));
    }
}

/// There are never more pending handshakes than running validations, and never
/// more of those than the limit: state that is held before authentication is
/// bounded.
pub proof fn law_pending_handshakes_are_bounded<S, H>(m: RelayModel<S, H>, ids: Set<u64>)
    requires
        m.wf(),
        m.accounts_for(ids),
    ensures
        m.pending.dom().len() <= m.running,
        m.running <= MAX_PENDING_HANDSHAKE_VALIDATIONS,
{
    lemma_pending_count(m, m.pending.dom(), ids);
}

/// Each step keeps account of the running validations: a request adds its own,
/// a validation that finished, for the stream that it was started for, or broke
/// down takes one away, and the other steps leave them as they are.
pub proof fn law_running_validations_are_accounted_for<S, H>(
    m: RelayModel<S, H>,
    ids: Set<u64>,
    kind: RelayFrameBodyKind,
    id: Seq<char>,
    request: Option<(Seq<u8>, H)>,
    validation_id: u64,
    accepted: bool,
    outcome: CompletionOutcome<S>,
)
    requires
        m.wf(),
        m.accounts_for(ids),
    ensures
        m.after_frame(kind, id).accounts_for(ids),
        m.after_close(id, validation_id).accounts_for(ids),
        m.after_rejected_record(id).accounts_for(ids),
        m.after_completion(outcome).accounts_for(ids),
        m.after_request(id, request).accounts_for(
            if m.after_request(id, request) == m {
                ids
            } else {
                ids.insert(m.next_id as u64)
            },
        ),
        ids.contains(validation_id) && m.was_started_for(id, validation_id)
            ==> m.after_validation(id, validation_id, accepted).accounts_for(
            ids.remove(validation_id),
        ),
        ids.contains(validation_id) ==> m.after_task_failure().accounts_for(
            ids.remove(validation_id),
        ),
{
    if ids.contains(validation_id) && m.was_started_for(id, validation_id) {
        let after = m.after_validation(id, validation_id, accepted);
        assert forall|k: Seq<char>| #[trigger] after.pending.contains_key(k) implies ids.remove(
            validation_id,
        ).contains(after.pending[k].validation_id) by {
            assert(m.pending.contains_key(k));
            if m.pending[k].validation_id == validation_id {
                assert(m.is_current(k, validation_id));
            }
        }
    }
}

/// A frame concerns only the routing id that it is for. Acknowledgements,
/// resumption requests and signs of life change nothing and lead to nothing;
/// handshakes change nothing by themselves; and only a reset takes an open stream
/// away: after any other frame every stream that was open still is, with the same
/// handle and under the same identity.
pub proof fn law_only_a_reset_frame_takes_a_stream_away<S, H>(
    m: RelayModel<S, H>,
    kind: RelayFrameBodyKind,
    id: Seq<char>,
    k: Seq<char>,
)
    ensures
        kind == RelayFrameBodyKind::Ack || kind == RelayFrameBodyKind::Resume || kind
            == RelayFrameBodyKind::Heartbeat ==> m.after_frame(kind, id) == m && m.frame_step(
            kind,
            id,
        ) == FrameStep::<S>::Ignore,
        kind == RelayFrameBodyKind::Handshake ==> m.after_frame(kind, id) == m,
        m.streams.contains_key(k) && (kind != RelayFrameBodyKind::Reset || k != id)
            ==> m.after_frame(kind, id).streams.contains_key(k) && m.after_frame(
            kind,
            id,
        ).streams[k] == m.streams[k],
        m.pending.contains_key(k) && k != id ==> m.after_frame(kind, id).pending.contains_key(k)
            && m.after_frame(kind, id).pending[k] == m.pending[k],
        m.after_frame(kind, id).completing == m.completing,
        m.after_frame(kind, id).running == m.running,
        m.after_frame(kind, id).next_id == m.next_id,
{
}

/// A reset for a routing id leaves neither a stream nor a handshake under it, and
/// the handle to disconnect is that of the stream that was open, if there was one.
pub proof fn law_reset_disconnects_exactly_its_stream<S, H>(
    m: RelayModel<S, H>,
    id: Seq<char>,
    handle: S,
)
    ensures
        !m.after_frame(RelayFrameBodyKind::Reset, id).streams.contains_key(id),
        !m.after_frame(RelayFrameBodyKind::Reset, id).pending.contains_key(id),
        m.frame_step(RelayFrameBodyKind::Reset, id) == FrameStep::Disconnect(Some(handle)) <==>
            m.streams.contains_key(id) && m.streams[id].stream == handle,
        m.frame_step(RelayFrameBodyKind::Reset, id) == FrameStep::<S>::Disconnect(None) <==>
            !m.streams.contains_key(id),
{
}

/// Data reaches a stream exactly where one is open, and then changes nothing.
pub proof fn law_data_is_delivered_to_open_streams_only<S, H>(m: RelayModel<S, H>, id: Seq<char>)
    ensures
        m.streams.contains_key(id) ==> m.frame_step(RelayFrameBodyKind::Data, id) == FrameStep::<
            S,
        >::Deliver && m.after_frame(RelayFrameBodyKind::Data, id) == m,
        !m.streams.contains_key(id) ==> m.frame_step(RelayFrameBodyKind::Data, id)
            == FrameStep::<S>::SendReset && !m.after_frame(
            RelayFrameBodyKind::Data,
            id,
        ).pending.contains_key(id),
{
}

/// A handshake is read or answered by a reset. It is read exactly where its
/// routing id is in no other use, fewer than 128 streams are open and fewer than
/// 32 validations run.
pub proof fn law_handshake_is_read_while_there_is_room<S, H>(m: RelayModel<S, H>, id: Seq<char>)
    ensures
        m.frame_step(RelayFrameBodyKind::Handshake, id) == FrameStep::<S>::ReadHandshake <==>
            !m.streams.contains_key(id) && !m.pending.contains_key(id) && m.streams.dom().len()
            < 128 && m.running < 32,
        m.frame_step(RelayFrameBodyKind::Handshake, id) == FrameStep::<S>::ReadHandshake
            || m.frame_step(RelayFrameBodyKind::Handshake, id) == FrameStep::<S>::SendReset,
{
}

/// A request that could be read, with an authorization of at most 4096 bytes of
/// valid text, is taken up: its own handshake waits under its routing id, for an
/// identity that no earlier validation had. Any other request changes nothing, and
/// no request changes what is open or what waits under other routing ids.
pub proof fn law_readable_request_waits_for_its_own_validation<S, H>(
    m: RelayModel<S, H>,
    id: Seq<char>,
    request: Option<(Seq<u8>, H)>,
    k: Seq<char>,
)
    requires
        m.next_id < u64::MAX,
    ensures
        request matches Some((payload, handshake)) && valid_utf8(payload) && payload.len() <= 4096
            ==> {
            let after = m.after_request(id, request);
            &&& after.pending.contains_key(id)
            &&& after.pending[id].handshake == (request->0).1
            &&& after.pending[id].validation_id == m.next_id
            &&& after.next_id > m.next_id
            &&& after.running == m.running + 1
        },
        !(request matches Some((payload, _)) && valid_utf8(payload) && payload.len() <= 4096)
            ==> m.after_request(id, request) == m,
        m.after_request(id, request).streams == m.streams,
        m.after_request(id, request).completing == m.completing,
        k != id ==> m.after_request(id, request).pending.contains_key(k) == m.pending.contains_key(
            k,
        ),
        k != id && m.pending.contains_key(k) ==> m.after_request(id, request).pending[k]
            == m.pending[k],
{
}

/// The end of a validation frees its place and settles the handshake that waits
/// for it, whichever way: an accepted one is handed out to be completed while
/// fewer than 128 streams are open, and is answered by a reset otherwise, as is one
/// that was not accepted. What is open, and what waits under other routing ids or
/// for other validations, stays.
pub proof fn law_validation_settles_the_handshake_that_waits_for_it<S, H>(
    m: RelayModel<S, H>,
    id: Seq<char>,
    validation_id: u64,
    accepted: bool,
    k: Seq<char>,
)
    requires
        m.running > 0,
    ensures
        ({
            let after = m.after_validation(id, validation_id, accepted);
            let step = m.validation_step(id, validation_id, accepted);
            let waits = m.pending.contains_key(id) && m.pending[id].validation_id == validation_id;
            &&& after.running + 1 == m.running
            &&& after.streams == m.streams
            &&& after.next_id == m.next_id
            &&& waits ==> !after.pending.contains_key(id)
            &&& waits && accepted && m.streams.dom().len() < 128 ==> step
                == ValidationStep::Complete(m.pending[id].handshake) && after.completing == Some(
                (id, validation_id),
            )
            &&& waits && !(accepted && m.streams.dom().len() < 128) ==> step == ValidationStep::<
                H,
            >::SendReset && after.completing == m.completing
            &&& (k != id || !waits) && m.pending.contains_key(k) ==> after.pending.contains_key(k)
                && after.pending[k] == m.pending[k]
            &&& after.pending.contains_key(k) ==> m.pending.contains_key(k)
        }),
{
}

/// After a validation broke down no handshake waits any more, one validation fewer
/// runs, and every stream that was open still is.
pub proof fn law_broken_validation_spares_open_streams<S, H>(m: RelayModel<S, H>, k: Seq<char>)
    requires
        m.running > 0,
    ensures
        !m.after_task_failure().pending.contains_key(k),
        m.after_task_failure().streams == m.streams,
        m.after_task_failure().completing == m.completing,
        m.after_task_failure().running + 1 == m.running,
        m.after_task_failure().next_id == m.next_id,
{
}

/// Completing a handshake opens its own stream, under its own identity, exactly
/// where the response could be queued; no other stream comes, goes or changes, and
/// the handshakes that wait stay.
pub proof fn law_completion_opens_exactly_its_own_stream<S, H>(
    m: RelayModel<S, H>,
    outcome: CompletionOutcome<S>,
    k: Seq<char>,
)
    requires
        m.wf(),
        m.completing is Some,
    ensures
        ({
            let after = m.after_completion(outcome);
            let id = (m.completing->0).0;
            &&& after.completing is None
            &&& after.pending == m.pending
            &&& after.running == m.running
            &&& after.next_id == m.next_id
            &&& after.streams.contains_key(id) <==> outcome is Opened
            &&& outcome matches CompletionOutcome::Opened(stream) ==> after.streams[id].stream
                == stream && after.streams[id].instance_id == (m.completing->0).1
            &&& k != id ==> after.streams.contains_key(k) == m.streams.contains_key(k)
            &&& m.streams.contains_key(k) ==> after.streams[k] == m.streams[k]
        }),
{
}

/// The end of an instance takes that instance away, and nothing else; a record
/// that a stream could not process takes that stream away, and nothing else.
pub proof fn law_end_of_a_stream_takes_only_that_stream<S, H>(
    m: RelayModel<S, H>,
    id: Seq<char>,
    instance_id: u64,
    k: Seq<char>,
)
    ensures
        m.streams.contains_key(id) && m.streams[id].instance_id == instance_id ==> !m.after_close(
            id,
            instance_id,
        ).streams.contains_key(id),
        m.streams.contains_key(k) && !(k == id && m.streams[k].instance_id == instance_id)
            ==> m.after_close(id, instance_id).streams.contains_key(k) && m.after_close(
            id,
            instance_id,
        ).streams[k] == m.streams[k],
        m.after_close(id, instance_id).pending == m.pending,
        m.after_close(id, instance_id).completing == m.completing,
        m.after_close(id, instance_id).running == m.running,
        m.after_close(id, instance_id).next_id == m.next_id,
        !m.after_rejected_record(id).streams.contains_key(id),
        m.streams.contains_key(k) && k != id ==> m.after_rejected_record(id).streams.contains_key(k)
            && m.after_rejected_record(id).streams[k] == m.streams[k],
        m.after_rejected_record(id).pending == m.pending,
        m.after_rejected_record(id).completing == m.completing,
        m.after_rejected_record(id).running == m.running,
        m.after_rejected_record(id).next_id == m.next_id,
{
}

/// Only binary messages are taken for frames; text messages and control messages
/// are passed over; and the relay loop ends exactly where the websocket is closed,
/// at its end or broken.
pub proof fn law_loop_ends_with_its_websocket(event: SocketEvent)
    ensures
        socket_step_of(event) == SocketStep::Decode <==> event == SocketEvent::Binary,
        socket_step_of(event) == SocketStep::Stop <==> event == SocketEvent::Close || event
            == SocketEvent::Ended || event == SocketEvent::Failed,
{
}

} // verus!
