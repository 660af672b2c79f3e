//! Whole histories of one executor websocket: what holds after any sequence of
//! frames, validations and completions.
use vstd::prelude::*;
use super::environment::law_pending_handshakes_are_bounded;
use super::environment::law_running_validations_are_accounted_for;
use super::environment::CompletionOutcome;
use super::environment::FrameStep;
use super::environment::RelayFrameBodyKind;
use super::environment::RelayModel;
use super::environment::ValidationStep;
use super::environment::MAX_ACTIVE_NOISE_RELAY_STREAMS;
use super::environment::MAX_PENDING_HANDSHAKE_VALIDATIONS;

verus! {

/// Something that happens to the environment.
pub enum RelayEvent<S, H> {
    /// A frame came in for a routing id.
    Frame(RelayFrameBodyKind, Seq<char>),
    /// The handshake request of an admitted frame was read, or could not be read.
    Request(Seq<char>, Option<(Seq<u8>, H)>),
    /// A validation finished; one that takes too long counts as not accepted.
    Validated(Seq<char>, u64, bool),
    /// A validation broke down.
    TaskFailed(u64),
    /// A validated handshake was completed, or was not.
    Completed(CompletionOutcome<S>),
    /// An instance of a stream ended by itself.
    Closed(Seq<char>, u64),
    /// An open stream could not process a record.
    RecordRejected(Seq<char>),
}

/// The state after an event.
pub open spec fn step<S, H>(m: RelayModel<S, H>, event: RelayEvent<S, H>) -> RelayModel<S, H> {
    match event {
        RelayEvent::Frame(kind, id) => m.after_frame(kind, id),
        RelayEvent::Request(id, request) => m.after_request(id, request),
        RelayEvent::Validated(id, validation_id, accepted) => m.after_validation(
            id,
            validation_id,
            accepted,
        ),
        RelayEvent::TaskFailed(_) => m.after_task_failure(),
        RelayEvent::Completed(outcome) => m.after_completion(outcome),
        RelayEvent::Closed(id, instance_id) => m.after_close(id, instance_id),
        RelayEvent::RecordRejected(id) => m.after_rejected_record(id),
    }
}

/// The state before the first event.
pub open spec fn initial<S, H>() -> RelayModel<S, H> {
    RelayModel {
        streams: Map::empty(),
        pending: Map::empty(),
        completing: None,
        running: 0,
        next_id: 0,
    }
}

/// The state after a sequence of events.
pub open spec fn state_after<S, H>(events: Seq<RelayEvent<S, H>>) -> RelayModel<S, H>
    decreases events.len(),
{
    if events.len() == 0 {
        initial()
    } else {
        step(state_after(events.drop_last()), events.last())
    }
}

/// Whether an event is a request that starts a validation.
pub open spec fn starts<S, H>(m: RelayModel<S, H>, event: RelayEvent<S, H>) -> bool {
    event matches RelayEvent::Request(_, Some((payload, _))) && m.accepts_payload(payload)
}

/// The identities of the validations that run after a sequence of events.
pub open spec fn running_after<S, H>(events: Seq<RelayEvent<S, H>>) -> Set<u64>
    decreases events.len(),
{
    if events.len() == 0 {
        Set::empty()
    } else {
        let before = running_after(events.drop_last());
        let m = state_after(events.drop_last());
        match events.last() {
            RelayEvent::Request(_, _) if starts(m, events.last()) => before.insert(
                m.next_id as u64,
            ),
            RelayEvent::Validated(_, validation_id, _) => before.remove(validation_id),
            RelayEvent::TaskFailed(validation_id) => before.remove(validation_id),
            _ => before,
        }
    }
}

/// Whether the event at `i` is the request for the routing id that started the
/// validation.
pub open spec fn started_at<S, H>(
    events: Seq<RelayEvent<S, H>>,
    i: int,
    id: Seq<char>,
    validation_id: u64,
) -> bool {
    &&& 0 <= i < events.len()
    &&& starts(state_after(events.take(i)), events[i])
    &&& events[i]->Request_0 == id
    &&& state_after(events.take(i)).next_id == validation_id
}

/// The handshake of a request that could be read.
pub open spec fn handshake_of<S, H>(event: RelayEvent<S, H>) -> H {
    (event->Request_1->0).1
}

/// Whether the event can come next: a request only where it is admitted, an answer
/// only to a validation that runs, under the routing id that it was started for,
/// and a completion at once after the validation that calls for it.
pub open spec fn can_follow<S, H>(events: Seq<RelayEvent<S, H>>, event: RelayEvent<S, H>) -> bool {
    let m = state_after(events);
    match event {
        RelayEvent::Completed(_) => m.completing is Some,
        RelayEvent::Request(id, _) => m.completing is None && m.admits(id),
        RelayEvent::Validated(id, validation_id, _) => {
            &&& m.completing is None
            &&& running_after(events).contains(validation_id)
            &&& exists|i: int| started_at(events, i, id, validation_id)
        },
        RelayEvent::TaskFailed(validation_id) => m.completing is None && running_after(
            events,
        ).contains(validation_id),
        _ => m.completing is None,
    }
}

/// Whether the events can come one after another.
pub open spec fn is_history<S, H>(events: Seq<RelayEvent<S, H>>) -> bool
    decreases events.len(),
{
    events.len() == 0 || {
        &&& is_history(events.drop_last())
        &&& can_follow(events.drop_last(), events.last())
    }
}

/// Whether an event gives up a handshake that waits under the routing id.
pub open spec fn disturbs<S, H>(event: RelayEvent<S, H>, id: Seq<char>) -> bool {
    match event {
        RelayEvent::Frame(kind, k) => k == id && (kind == RelayFrameBodyKind::Reset || kind
            == RelayFrameBodyKind::Data),
        RelayEvent::TaskFailed(_) => true,
        _ => false,
    }
}

/// Whether no event from one place to another gives up a handshake under the routing id.
pub open spec fn undisturbed<S, H>(
    events: Seq<RelayEvent<S, H>>,
    id: Seq<char>,
    from: int,
    to: int,
) -> bool {
    forall|k: int| from <= k < to ==> !disturbs(#[trigger] events[k], id)
}

/// Whether the stream that is open under the routing id goes back to the request
/// at `i`: the validation that this request started accepted, at `j`, nothing gave
/// the handshake up in between, and its completion opened the stream at once.
pub open spec fn opened_by<S, H>(
    events: Seq<RelayEvent<S, H>>,
    id: Seq<char>,
    i: int,
    j: int,
) -> bool {
    let stream = state_after(events).streams[id];
    &&& started_at(events, i, id, stream.instance_id)
    &&& i < j
    &&& j + 1 < events.len()
    &&& undisturbed(events, id, i + 1, j)
    &&& events[j] == RelayEvent::<S, H>::Validated(id, stream.instance_id, true)
    &&& state_after(events.take(j)).validation_step(id, stream.instance_id, true)
        == ValidationStep::Complete(handshake_of(events[i]))
    &&& events[j + 1] == RelayEvent::<S, H>::Completed(CompletionOutcome::Opened(stream.stream))
}

proof fn lemma_prefix<S, H>(events: Seq<RelayEvent<S, H>>, i: int)
    requires
        0 <= i < events.len(),
    ensures
        events.drop_last().take(i) == events.take(i),
        events.take(i + 1).drop_last() == events.take(i),
        events.take(i + 1).last() == events[i],
        events.drop_last().take(events.len() - 1) == events.drop_last(),
{
}

proof fn lemma_step_keeps_wf<S, H>(m: RelayModel<S, H>, event: RelayEvent<S, H>)
    requires
        m.wf(),
        event is Completed == m.completing is Some,
        event matches RelayEvent::Request(id, _) ==> m.admits(id),
        event is Validated || event is TaskFailed ==> m.running > 0,
    ensures
        step(m, event).wf(),
{
}

proof fn lemma_started_before<S, H>(
    events: Seq<RelayEvent<S, H>>,
    i: int,
    id: Seq<char>,
    validation_id: u64,
)
    requires
        started_at(events.drop_last(), i, id, validation_id),
        events.len() > 0,
    ensures
        started_at(events, i, id, validation_id),
        events[i] == events.drop_last()[i],
{
    lemma_prefix(events, i);
}

proof fn lemma_identities_grow<S, H>(events: Seq<RelayEvent<S, H>>, i: int, j: int)
    requires
        0 <= i <= j <= events.len(),
    ensures
        state_after(events.take(i)).next_id <= state_after(events.take(j)).next_id,
    decreases j,
{
    if i < j {
        lemma_identities_grow(events, i, j - 1);
        lemma_prefix(events, j - 1);
    }
}

/// A validation is started by one request only.
proof fn lemma_started_once<S, H>(
    events: Seq<RelayEvent<S, H>>,
    i: int,
    j: int,
    id: Seq<char>,
    other: Seq<char>,
    validation_id: u64,
)
    requires
        started_at(events, i, id, validation_id),
        started_at(events, j, other, validation_id),
    ensures
        i == j,
        id == other,
{
    if i < j {
        lemma_prefix(events, i);
        lemma_identities_grow(events, i + 1, j);
    } else if j < i {
        lemma_prefix(events, j);
        lemma_identities_grow(events, j + 1, i);
    }
}

/// Whether the handshake that waits under the routing id goes back to the request at `i`.
spec fn waits_since<S, H>(events: Seq<RelayEvent<S, H>>, id: Seq<char>, i: int) -> bool {
    let pending = state_after(events).pending[id];
    &&& started_at(events, i, id, pending.validation_id)
    &&& handshake_of(events[i]) == pending.handshake
    &&& undisturbed(events, id, i + 1, events.len() as int)
}

/// Every history ends in a well-formed state that accounts for the running
/// validations, and every handshake that waits goes back to a request.
proof fn lemma_history<S, H>(events: Seq<RelayEvent<S, H>>)
    requires
        is_history(events),
    ensures
        state_after(events).wf(),
        state_after(events).accounts_for(running_after(events)),
        forall|id: Seq<char>| #[trigger]
            state_after(events).pending.contains_key(id) ==> exists|i: int|
                waits_since(events, id, i),
    decreases events.len(),
{
    if events.len() > 0 {
        let n = events.len() as int;
        let before = events.drop_last();
        let m = state_after(before);
        let event = events.last();
        let after = state_after(events);
        lemma_history(before);
        lemma_prefix(events, n - 1);
        match event {
            RelayEvent::Validated(id, v, _) => {
                lemma_origin_is_unique(before, id, v);
                lemma_running(m, running_after(before), v);
                lemma_accounts(m, running_after(before), event);
            },
            RelayEvent::TaskFailed(v) => {
                lemma_running(m, running_after(before), v);
                lemma_accounts(m, running_after(before), event);
            },
            _ => {
                lemma_accounts(m, running_after(before), event);
            },
        }
        lemma_step_keeps_wf(m, event);
        assert forall|id: Seq<char>| #[trigger] after.pending.contains_key(id) implies exists|
            i: int,
        | waits_since(events, id, i) by {
            lemma_wait_goes_on(events, id);
        }
    }
}

proof fn lemma_wait_goes_on<S, H>(events: Seq<RelayEvent<S, H>>, id: Seq<char>)
    requires
        events.len() > 0,
        can_follow(events.drop_last(), events.last()),
        state_after(events.drop_last()).wf(),
        state_after(events.drop_last()).pending.contains_key(id) ==> exists|i: int|
            waits_since(events.drop_last(), id, i),
        state_after(events).pending.contains_key(id),
    ensures
        exists|i: int| waits_since(events, id, i),
{
    let n = events.len() as int;
    let before = events.drop_last();
    let m = state_after(before);
    let event = events.last();
    lemma_prefix(events, n - 1);
    if starts(m, event) && event->Request_0 == id {
        assert(events.take(n - 1) == before);
        assert(waits_since(events, id, n - 1));
    } else {
        assert(m.pending.contains_key(id) && m.pending[id] == state_after(events).pending[id]);
        let i = choose|i: int| waits_since(before, id, i);
        lemma_started_before(events, i, id, m.pending[id].validation_id);
        assert(!disturbs(event, id));
        assert forall|k: int| i + 1 <= k < n implies !disturbs(#[trigger] events[k], id) by {
            if k < n - 1 {
                assert(events[k] == before[k]);
            }
        }
        assert(waits_since(events, id, i));
    }
}

proof fn lemma_origin_is_unique<S, H>(events: Seq<RelayEvent<S, H>>, id: Seq<char>, v: u64)
    requires
        exists|i: int| started_at(events, i, id, v),
        forall|k: Seq<char>| #[trigger]
            state_after(events).pending.contains_key(k) ==> exists|i: int| waits_since(events, k, i),
    ensures
        state_after(events).was_started_for(id, v),
{
    let m = state_after(events);
    let i = choose|i: int| started_at(events, i, id, v);
    assert forall|k: Seq<char>| #[trigger] m.is_current(k, v) implies k == id by {
        assert(m.pending.contains_key(k));
        let j = choose|j: int| waits_since(events, k, j);
        lemma_started_once(events, i, j, id, k, v);
    }
}

proof fn lemma_running<S, H>(m: RelayModel<S, H>, ids: Set<u64>, v: u64)
    requires
        m.accounts_for(ids),
        ids.contains(v),
    ensures
        m.running > 0,
{
    if ids.len() == 0 {
        assert(ids =~= Set::empty());
    }
}

proof fn lemma_accounts<S, H>(m: RelayModel<S, H>, ids: Set<u64>, event: RelayEvent<S, H>)
    requires
        m.wf(),
        m.accounts_for(ids),
        event matches RelayEvent::Validated(id, v, _) ==> ids.contains(v) && m.was_started_for(
            id,
            v,
        ),
        event matches RelayEvent::TaskFailed(v) ==> ids.contains(v),
    ensures
        step(m, event).accounts_for(
            match event {
                RelayEvent::Request(_, _) if starts(m, event) => ids.insert(m.next_id as u64),
                RelayEvent::Validated(_, v, _) => ids.remove(v),
                RelayEvent::TaskFailed(v) => ids.remove(v),
                _ => ids,
            },
        ),
{
    let any = RelayFrameBodyKind::Ack;
    let nobody = Seq::<char>::empty();
    let outcome = CompletionOutcome::<S>::HandshakeFailed;
    match event {
        RelayEvent::Frame(kind, id) => law_running_validations_are_accounted_for(
            m,
            ids,
            kind,
            id,
            None,
            0,
            false,
            outcome,
        ),
        RelayEvent::Request(id, request) => {
            law_running_validations_are_accounted_for(
                m,
                ids,
                any,
                id,
                request,
                0,
                false,
                outcome,
            );
            if starts(m, event) {
                assert(m.after_request(id, request).running == m.running + 1);
            }
        },
        RelayEvent::Validated(id, v, accepted) => law_running_validations_are_accounted_for(
            m,
            ids,
            any,
            id,
            None,
            v,
            accepted,
            outcome,
        ),
        RelayEvent::TaskFailed(v) => law_running_validations_are_accounted_for(
            m,
            ids,
            any,
            nobody,
            None,
            v,
            false,
            outcome,
        ),
        RelayEvent::Completed(o) => law_running_validations_are_accounted_for(
            m,
            ids,
            any,
            nobody,
            None,
            0,
            false,
            o,
        ),
        RelayEvent::Closed(id, v) => law_running_validations_are_accounted_for(
            m,
            ids,
            any,
            id,
            None,
            v,
            false,
            outcome,
        ),
        RelayEvent::RecordRejected(id) => law_running_validations_are_accounted_for(
            m,
            ids,
            any,
            id,
            None,
            0,
            false,
            outcome,
        ),
    }
}

/// At all times, the state is well formed, no more streams are open than the limit
/// for streams, and no more validations run, and no more handshakes wait, than the
/// limit for validations.
pub proof fn law_bounds_hold_at_all_times<S, H>(events: Seq<RelayEvent<S, H>>)
    requires
        is_history(events),
    ensures
        state_after(events).wf(),
        state_after(events).accounts_for(running_after(events)),
        state_after(events).streams.dom().len() <= MAX_ACTIVE_NOISE_RELAY_STREAMS,
        running_after(events).len() <= MAX_PENDING_HANDSHAKE_VALIDATIONS,
        state_after(events).pending.dom().len() <= MAX_PENDING_HANDSHAKE_VALIDATIONS,
{
    lemma_history(events);
    law_pending_handshakes_are_bounded(state_after(events), running_after(events));
}

/// Whatever came before, a handshake is answered only where the validation that
/// its own request started accepted it and nothing gave it up in between; and what
/// is completed is the handshake of that request.
pub proof fn law_only_accepted_handshakes_are_answered<S, H>(
    events: Seq<RelayEvent<S, H>>,
    id: Seq<char>,
    validation_id: u64,
    accepted: bool,
)
    requires
        is_history(events),
        can_follow(events, RelayEvent::Validated(id, validation_id, accepted)),
        state_after(events).validation_step(id, validation_id, accepted) is Complete,
    ensures
        accepted,
        exists|i: int|
            {
                &&& #[trigger] started_at(events, i, id, validation_id)
                &&& undisturbed(events, id, i + 1, events.len() as int)
                &&& state_after(events).validation_step(id, validation_id, accepted)
                    == ValidationStep::Complete(handshake_of(events[i]))
            },
{
    lemma_history(events);
    assert(state_after(events).pending.contains_key(id));
    let i = choose|i: int| waits_since(events, id, i);
    assert(started_at(events, i, id, validation_id));
}

/// Whatever came before, every open stream goes back to one request: the
/// validation that this request started accepted it, no reset and no data for its
/// routing id came in between, and the completion of that very handshake opened
/// the stream.
pub proof fn law_open_streams_were_accepted<S, H>(events: Seq<RelayEvent<S, H>>, id: Seq<char>)
    requires
        is_history(events),
        state_after(events).streams.contains_key(id),
    ensures
        exists|i: int, j: int| opened_by(events, id, i, j),
    decreases events.len(),
{
    let n = events.len() as int;
    let before = events.drop_last();
    let m = state_after(before);
    let event = events.last();
    let stream = state_after(events).streams[id];
    lemma_prefix(events, n - 1);
    if m.streams.contains_key(id) && m.streams[id] == stream {
        law_open_streams_were_accepted(before, id);
        let (i, j) = choose|i: int, j: int| opened_by(before, id, i, j);
        lemma_started_before(events, i, id, stream.instance_id);
        lemma_prefix(events, j);
        assert forall|k: int| i + 1 <= k < j implies !disturbs(#[trigger] events[k], id) by {
            assert(events[k] == before[k]);
        }
        assert(events[j] == before[j] && events[j + 1] == before[j + 1]);
        assert(opened_by(events, id, i, j));
    } else {
        assert(event == RelayEvent::<S, H>::Completed(CompletionOutcome::Opened(stream.stream)));
        assert(m.completing == Some((id, stream.instance_id)));
        let earlier = before.drop_last();
        let j = n - 2;
        lemma_prefix(before, j);
        assert(events.take(j) =~= earlier);
        assert(before.last() == events[j]);
        assert(is_history(before) && before.len() > 0);
        assert(is_history(earlier) && can_follow(earlier, before.last()));
        assert(events[j] == RelayEvent::<S, H>::Validated(id, stream.instance_id, true));
        law_only_accepted_handshakes_are_answered(earlier, id, stream.instance_id, true);
        let i = choose|i: int|
            {
                &&& #[trigger] started_at(earlier, i, id, stream.instance_id)
                &&& undisturbed(earlier, id, i + 1, j)
                &&& state_after(earlier).validation_step(id, stream.instance_id, true)
                    == ValidationStep::Complete(handshake_of(earlier[i]))
            };
        lemma_started_before(before, i, id, stream.instance_id);
        lemma_started_before(events, i, id, stream.instance_id);
        assert forall|k: int| i + 1 <= k < j implies !disturbs(#[trigger] events[k], id) by {
            assert(events[k] == earlier[k]);
        }
        assert(opened_by(events, id, i, j));
    }
}

/// Whatever came before, a handshake for a routing id that is open or waits is
/// answered by a reset and changes nothing.
pub proof fn law_repeated_handshake_is_reset<S, H>(events: Seq<RelayEvent<S, H>>, id: Seq<char>)
    requires
        is_history(events),
        state_after(events).streams.contains_key(id) || state_after(events).pending.contains_key(
            id,
        ),
    ensures
        state_after(events).frame_step(RelayFrameBodyKind::Handshake, id) == FrameStep::<
            S,
        >::SendReset,
        state_after(events.push(RelayEvent::Frame(RelayFrameBodyKind::Handshake, id)))
            == state_after(events),
{
    assert(events.push(RelayEvent::Frame(RelayFrameBodyKind::Handshake, id)).drop_last() =~= events);
}

/// Whether an event ends the stream that is open under the routing id with this
/// identity: a reset of it, a record that it could not process, or its own end.
pub open spec fn ends<S, H>(event: RelayEvent<S, H>, id: Seq<char>, instance_id: u64) -> bool {
    ||| event == RelayEvent::<S, H>::Frame(RelayFrameBodyKind::Reset, id)
    ||| event == RelayEvent::<S, H>::RecordRejected(id)
    ||| event == RelayEvent::<S, H>::Closed(id, instance_id)
}

proof fn lemma_history_before<S, H>(events: Seq<RelayEvent<S, H>>, i: int)
    requires
        is_history(events),
        0 <= i <= events.len(),
    ensures
        is_history(events.take(i)),
    decreases events.len(),
{
    if i == events.len() {
        assert(events.take(i) =~= events);
    } else {
        lemma_history_before(events.drop_last(), i);
        assert(events.drop_last().take(i) =~= events.take(i));
    }
}

/// Once open, a stream stays open, with the same handle and under the same
/// identity, whatever happens, until a reset of it, a record that it could not
/// process, or its own end.
pub proof fn law_stream_stays_open_until_it_ends<S, H>(
    events: Seq<RelayEvent<S, H>>,
    id: Seq<char>,
    i: int,
    j: int,
)
    requires
        is_history(events),
        0 <= i <= j <= events.len(),
        state_after(events.take(i)).streams.contains_key(id),
        forall|k: int|
            i <= k < j ==> !ends(
                #[trigger] events[k],
                id,
                state_after(events.take(i)).streams[id].instance_id,
            ),
    ensures
        state_after(events.take(j)).streams.contains_key(id),
        state_after(events.take(j)).streams[id] == state_after(events.take(i)).streams[id],
    decreases j,
{
    if i < j {
        law_stream_stays_open_until_it_ends(events, id, i, j - 1);
        lemma_prefix(events, j - 1);
        lemma_history_before(events, j);
        let before = events.take(j - 1);
        let m = state_after(before);
        assert(is_history(events.take(j)) && events.take(j).len() > 0);
        assert(is_history(before) && can_follow(before, events[j - 1]));
        lemma_history(before);
        assert(!ends(events[j - 1], id, m.streams[id].instance_id));
        assert(state_after(events.take(j)) == step(m, events[j - 1]));
    }
}

/// After the event that ends a stream, it is not open any more.
pub proof fn law_ended_stream_is_gone<S, H>(
    events: Seq<RelayEvent<S, H>>,
    event: RelayEvent<S, H>,
    id: Seq<char>,
)
    requires
        state_after(events).streams.contains_key(id),
        ends(event, id, state_after(events).streams[id].instance_id),
    ensures
        !state_after(events.push(event)).streams.contains_key(id),
{
    assert(events.push(event).drop_last() =~= events);
}

} // verus!
