//! The persistence of an active thread: the order in which a store, a recorder
//! of live history and the metadata of the thread are brought up to date.
use vstd::prelude::*;

verus! {

/// Changes of the recorded history that go with one batch of items. A recorder
/// may hold them until they are committed or discarded.
#[derive(Debug, Clone)]
pub struct PreparedLiveHistoryAppend<M> {
    /// The changes.
    pub thread_history_mutations: Vec<M>,
    /// The commit that they belong to.
    pub writer_commit_id: Option<String>,
}

impl<M> PreparedLiveHistoryAppend<M> {
    /// Whether there is nothing in it.
    pub open spec fn is_empty(self) -> bool {
        self.thread_history_mutations@.len() == 0 && self.writer_commit_id is None
    }
}

impl<M> Default for PreparedLiveHistoryAppend<M> {
    fn default() -> (r: Self)
        ensures
            r.is_empty(),
    {
        PreparedLiveHistoryAppend { thread_history_mutations: Vec::new(), writer_commit_id: None }
    }
}

/// An observer of the items that are appended to a thread. By default it records
/// nothing. `T` are the items, `M` the changes of the history, `E` the errors.
pub trait LiveHistoryRecorder<T, M, E> {
    /// Takes up the persisted history before items are appended after a resumption.
    fn initialize_from_history(&self, _items: &[T]) -> (r: Result<(), E>)
        default_ensures
            r is Ok,
    {
        Ok(())
    }

    /// Prepares the changes that go with a batch of items.
    fn prepare_append(&self, _items: &[T]) -> (r: Result<PreparedLiveHistoryAppend<M>, E>)
        default_ensures
            r matches Ok(p) && p.is_empty(),
    {
        Ok(
            PreparedLiveHistoryAppend {
                thread_history_mutations: Vec::new(),
                writer_commit_id: None,
            },
        )
    }

    /// Takes up that the batch was appended.
    fn commit_prepared_append(&self, _prepared: PreparedLiveHistoryAppend<M>) {
    }

    /// Takes up that the batch was not appended.
    fn discard_prepared_append(&self, _prepared: PreparedLiveHistoryAppend<M>) {
    }
}

/// The recorder that records nothing.
#[derive(Debug, Clone, Copy, PartialEq, Eq, Structural)]
pub struct NoopLiveHistoryRecorder;

impl<T, M, E> LiveHistoryRecorder<T, M, E> for NoopLiveHistoryRecorder {

}

/// The recorder that records nothing.
pub fn noop_live_history_recorder() -> (r: NoopLiveHistoryRecorder)
    ensures
        r == NoopLiveHistoryRecorder,
{
    NoopLiveHistoryRecorder
}

/// An append that has been handed to the store.
pub struct PendingAppend<M> {
    prepared: PreparedLiveHistoryAppend<M>,
}

/// What a batch of items leads to.
pub enum AppendStep<M> {
    /// There is nothing to append.
    Nothing,
    /// The items, and the prepared changes with them, are to be appended.
    Append(PendingAppend<M>),
}

/// What the outcome of an append leads to.
pub enum AppendSettled<M, E> {
    /// The changes are to be committed, and the metadata is to observe the items.
    Commit(PreparedLiveHistoryAppend<M>),
    /// The changes are to be discarded, and the append fails.
    Discard(PreparedLiveHistoryAppend<M>, E),
}

impl<M> PendingAppend<M> {
    /// The changes that go with the append.
    pub closed spec fn changes(self) -> PreparedLiveHistoryAppend<M> {
        self.prepared
    }

    /// Starts an append of `item_count` items that are kept, with the prepared
    /// changes; there is nothing to do where there is neither an item nor a change.
    pub fn start(item_count: usize, prepared: PreparedLiveHistoryAppend<M>) -> (r: AppendStep<M>)
        ensures
            match r {
                AppendStep::Nothing => item_count == 0 && prepared.is_empty(),
                AppendStep::Append(p) => !(item_count == 0 && prepared.is_empty()) && p.changes()
                    == prepared,
            },
    {
        if item_count == 0 && prepared.thread_history_mutations.len() == 0
            && prepared.writer_commit_id.is_none() {
            return AppendStep::Nothing;
        }
        AppendStep::Append(PendingAppend { prepared })
    }

    /// The changes that go with the append.
    pub fn prepared(&self) -> (r: &PreparedLiveHistoryAppend<M>)
        ensures
            *r == self.changes(),
    {
        &self.prepared
    }

    /// Takes up the outcome of the append: the changes are committed if it
    /// succeeded, and discarded if it failed.
    pub fn settle<E>(self, outcome: Result<(), E>) -> (r: AppendSettled<M, E>)
        ensures
            match outcome {
                Ok(_) => r == AppendSettled::<M, E>::Commit(self.changes()),
                Err(e) => r == AppendSettled::<M, E>::Discard(self.changes(), e),
            },
    {
        match outcome {
            Ok(_) => AppendSettled::Commit(self.prepared),
            Err(e) => AppendSettled::Discard(self.prepared, e),
        }
    }
}

/// Takes up the outcome of a metadata update: it counts as applied, and is
/// returned to be marked so, only if it succeeded.
pub fn settle_metadata_update<U, E>(update: U, outcome: Result<(), E>) -> (r: Result<U, E>)
    ensures
        r == (match outcome {
            Ok(_) => Ok::<U, E>(update),
            Err(e) => Err::<U, E>(e),
        }),
{
    match outcome {
        Ok(_) => Ok(update),
        Err(e) => Err(e),
    }
}

/// How far a resumption has come.
#[derive(Debug, Clone, Copy, PartialEq, Eq, Structural)]
pub enum ResumeStage {
    /// The store is to open the thread.
    Opening,
    /// The history is to be loaded.
    Loading,
    /// The recorder is to take the history up.
    Initializing,
    /// The thread is live.
    Ready,
    /// The thread is not live.
    Failed,
}

/// What to do next in a resumption.
pub enum ResumeStep<E> {
    /// Load the history.
    LoadHistory,
    /// Have the recorder take the history up.
    InitializeRecorder,
    /// The thread is live.
    Ready,
    /// Give up. Where the store had opened the thread, that is to be discarded.
    Fail {
        /// Whether the opened thread is to be discarded.
        discard: bool,
        /// The error.
        error: E,
    },
}

/// A resumption of a thread, with its history once that is known.
pub struct ResumeFlow<H> {
    history: Option<H>,
    stage: ResumeStage,
}

/// A resumption as mathematical values.
#[verifier::ext_equal]
pub struct ResumeModel<H> {
    /// The history.
    pub history: Option<H>,
    /// The stage.
    pub stage: ResumeStage,
}

impl<H> ResumeModel<H> {
    /// The history is known from the stage on at which it is needed.
    pub open spec fn wf(self) -> bool {
        &&& self.stage == ResumeStage::Loading ==> self.history is None
        &&& self.stage == ResumeStage::Initializing || self.stage == ResumeStage::Ready
            ==> self.history is Some
    }
}

impl<H> View for ResumeFlow<H> {
    type V = ResumeModel<H>;

    closed spec fn view(&self) -> ResumeModel<H> {
        ResumeModel { history: self.history, stage: self.stage }
    }
}

/// What a resumption hears of.
pub enum ResumeEvent<H, E> {
    /// The store opened the thread, or failed to.
    Opened(Result<(), E>),
    /// The store loaded the history, or failed to.
    Loaded(Result<H, E>),
    /// The recorder took the history up, or failed to.
    Initialized(Result<(), E>),
}

impl<H> ResumeModel<H> {
    /// Whether the resumption waits for the event.
    pub open spec fn awaits<E>(self, event: ResumeEvent<H, E>) -> bool {
        match event {
            ResumeEvent::Opened(_) => self.stage == ResumeStage::Opening,
            ResumeEvent::Loaded(_) => self.stage == ResumeStage::Loading,
            ResumeEvent::Initialized(_) => self.stage == ResumeStage::Initializing,
        }
    }

    /// The resumption after an event, and what to do next.
    pub open spec fn after<E>(self, event: ResumeEvent<H, E>) -> (ResumeModel<H>, ResumeStep<E>) {
        match event {
            ResumeEvent::Opened(Err(error)) => (
                ResumeModel { stage: ResumeStage::Failed, ..self },
                ResumeStep::Fail { discard: false, error },
            ),
            ResumeEvent::Loaded(Err(error)) | ResumeEvent::Initialized(Err(error)) => (
                ResumeModel { stage: ResumeStage::Failed, ..self },
                ResumeStep::Fail { discard: true, error },
            ),
            ResumeEvent::Opened(Ok(_)) => if self.history is Some {
                (
                    ResumeModel { stage: ResumeStage::Initializing, ..self },
                    ResumeStep::InitializeRecorder,
                )
            } else {
                (ResumeModel { stage: ResumeStage::Loading, ..self }, ResumeStep::LoadHistory)
            },
            ResumeEvent::Loaded(Ok(history)) => (
                ResumeModel { history: Some(history), stage: ResumeStage::Initializing },
                ResumeStep::InitializeRecorder,
            ),
            ResumeEvent::Initialized(Ok(_)) => (
                ResumeModel { stage: ResumeStage::Ready, ..self },
                ResumeStep::Ready,
            ),
        }
    }

    /// Whether the store has the thread open.
    pub open spec fn is_open(self) -> bool {
        self.stage == ResumeStage::Loading || self.stage == ResumeStage::Initializing || self.stage
            == ResumeStage::Ready
    }
}

impl<H> ResumeFlow<H> {
    /// A resumption with the given history, if any.
    pub fn new(history: Option<H>) -> (r: Self)
        ensures
            r@ == (ResumeModel { history, stage: ResumeStage::Opening }),
            r@.wf(),
    {
        ResumeFlow { history, stage: ResumeStage::Opening }
    }

    /// Takes up an event that the resumption waits for.
    pub fn advance<E>(&mut self, event: ResumeEvent<H, E>) -> (r: ResumeStep<E>)
        requires
            old(self)@.wf(),
            old(self)@.awaits(event),
        ensures
            final(self)@.wf(),
            (final(self)@, r) == old(self)@.after(event),
    {
        match event {
            ResumeEvent::Opened(Ok(_)) => if self.history.is_some() {
                self.stage = ResumeStage::Initializing;
                ResumeStep::InitializeRecorder
            } else {
                self.stage = ResumeStage::Loading;
                ResumeStep::LoadHistory
            },
            ResumeEvent::Opened(Err(error)) => {
                self.stage = ResumeStage::Failed;
                ResumeStep::Fail { discard: false, error }
            },
            ResumeEvent::Loaded(Ok(history)) => {
                self.history = Some(history);
                self.stage = ResumeStage::Initializing;
                ResumeStep::InitializeRecorder
            },
            ResumeEvent::Loaded(Err(error)) | ResumeEvent::Initialized(Err(error)) => {
                self.stage = ResumeStage::Failed;
                ResumeStep::Fail { discard: true, error }
            },
            ResumeEvent::Initialized(Ok(_)) => {
                self.stage = ResumeStage::Ready;
                ResumeStep::Ready
            },
        }
    }

    /// The history, once it is known.
    pub fn history(&self) -> (r: Option<&H>)
        ensures
            match r {
                Some(h) => self@.history == Some(*h),
                None => self@.history is None,
            },
    {
        self.history.as_ref()
    }

    /// The stage.
    pub fn stage(&self) -> (r: ResumeStage)
        ensures
            r == self@.stage,
    {
        self.stage
    }
}

/// A resumption that fails leaves nothing open: the thread is discarded exactly
/// where the store had opened it.
pub proof fn law_failed_resumption_leaves_nothing_open<H, E>(
    m: ResumeModel<H>,
    event: ResumeEvent<H, E>,
)
    requires
        m.awaits(event),
    ensures
        ({
            let (next, step) = m.after(event);
            match step {
                ResumeStep::Fail { discard, .. } => discard == m.is_open() && !next.is_open(),
                _ => next.is_open(),
            }
        }),
{
}

/// A thread goes live only once the recorder has taken its history up: that which
/// came with the request, or else the one that the store loaded.
pub proof fn law_live_thread_has_its_history<H, E>(m: ResumeModel<H>, event: ResumeEvent<H, E>)
    requires
        m.wf(),
        m.awaits(event),
        m.after(event).1 is Ready,
    ensures
        event is Initialized,
        m.history is Some,
        m.after(event).0.history == m.history,
{
}

/// An operation on a live thread.
#[derive(Debug, Clone, Copy, PartialEq, Eq, Structural)]
pub enum LiveOperation {
    /// Make the thread durable.
    Persist,
    /// Write out what is buffered.
    Flush,
    /// Close the thread.
    Shutdown,
    /// Change the metadata of the thread.
    UpdateMetadata,
}

/// A call of the store, or two where metadata is pending.
#[derive(Debug, Clone, Copy, PartialEq, Eq, Structural)]
pub enum StoreStep {
    /// Make the thread durable.
    PersistThread,
    /// Write out what is buffered.
    FlushThread,
    /// Close the thread.
    ShutdownThread,
    /// Change the metadata as asked.
    UpdateMetadata,
    /// Apply the metadata that is pending, of an archived thread too.
    ApplyPendingMetadata {
        /// Only where the thread has a history already.
        existing_history_only: bool,
    },
}

/// The calls of the store that an operation makes, in order. The first that fails
/// ends the operation.
pub open spec fn operation_steps(operation: LiveOperation) -> Seq<StoreStep> {
    match operation {
        LiveOperation::Persist => seq![
            StoreStep::PersistThread,
            StoreStep::ApplyPendingMetadata { existing_history_only: false },
        ],
        LiveOperation::Flush => seq![
            StoreStep::FlushThread,
            StoreStep::ApplyPendingMetadata { existing_history_only: true },
        ],
        LiveOperation::Shutdown => seq![
            StoreStep::ApplyPendingMetadata { existing_history_only: true },
            StoreStep::ShutdownThread,
        ],
        LiveOperation::UpdateMetadata => seq![
            StoreStep::ApplyPendingMetadata { existing_history_only: false },
            StoreStep::UpdateMetadata,
        ],
    }
}

/// The call that comes after `done` calls of an operation.
pub fn operation_step(operation: LiveOperation, done: usize) -> (r: Option<StoreStep>)
    ensures
        r == (if done < operation_steps(operation).len() {
            Some(operation_steps(operation)[done as int])
        } else {
            None
        }),
{
    let pending_any = StoreStep::ApplyPendingMetadata { existing_history_only: false };
    let pending_existing = StoreStep::ApplyPendingMetadata { existing_history_only: true };
    let (first, second) = match operation {
        LiveOperation::Persist => (StoreStep::PersistThread, pending_any),
        LiveOperation::Flush => (StoreStep::FlushThread, pending_existing),
        LiveOperation::Shutdown => (pending_existing, StoreStep::ShutdownThread),
        LiveOperation::UpdateMetadata => (pending_any, StoreStep::UpdateMetadata),
    };
    if done == 0 {
        Some(first)
    } else if done == 1 {
        Some(second)
    } else {
        None
    }
}

/// Whatever the operation, metadata that is pending is applied: before the thread
/// is closed or its metadata is changed, and after it was written.
pub proof fn law_every_operation_applies_pending_metadata(operation: LiveOperation)
    ensures
        exists|i: int|
            0 <= i < operation_steps(operation).len() && #[trigger] operation_steps(
                operation,
            )[i] is ApplyPendingMetadata,
        operation_steps(operation)[0] is ApplyPendingMetadata <==> operation
            == LiveOperation::Shutdown || operation == LiveOperation::UpdateMetadata,
{
    let steps = operation_steps(operation);
    assert(steps[0] is ApplyPendingMetadata || steps[1] is ApplyPendingMetadata);
}

/// What can be done with the owner of a live thread.
#[derive(Debug, Clone, Copy, PartialEq, Eq, Structural)]
pub enum GuardCall {
    /// The thread is handed over to the session.
    Commit,
    /// The thread is taken out to be discarded.
    Discard,
}

/// The thread that is owned after a call.
pub open spec fn owned_after<L>(owned: Option<L>, call: GuardCall) -> Option<L> {
    match call {
        GuardCall::Commit | GuardCall::Discard => None,
    }
}

/// The thread that a call takes out to be discarded.
pub open spec fn taken_out<L>(owned: Option<L>, call: GuardCall) -> Option<L> {
    match call {
        GuardCall::Commit => None,
        GuardCall::Discard => owned,
    }
}

/// The thread that is owned after a list of calls, and what they took out.
pub open spec fn after_calls<L>(owned: Option<L>, calls: Seq<GuardCall>) -> (Option<L>, Seq<L>)
    decreases calls.len(),
{
    if calls.len() == 0 {
        (owned, Seq::empty())
    } else {
        let (here, out) = after_calls(owned, calls.drop_last());
        (
            owned_after(here, calls.last()),
            match taken_out(here, calls.last()) {
                Some(thread) => out.push(thread),
                None => out,
            },
        )
    }
}

/// Over any calls, the thread is taken out to be discarded at most once: by the
/// first call, if there is a thread and that call discards it. So it is never taken
/// out after it was handed over.
pub proof fn law_thread_is_discarded_once_and_never_after_commit<L>(
    owned: Option<L>,
    calls: Seq<GuardCall>,
)
    ensures
        after_calls(owned, calls).1 == (if owned is Some && calls.len() > 0 && calls[0]
            == GuardCall::Discard {
            seq![owned->0]
        } else {
            Seq::empty()
        }),
        after_calls(owned, calls).1.len() <= 1,
        calls.len() > 0 ==> after_calls(owned, calls).0 is None,
        calls.len() == 0 ==> after_calls(owned, calls).0 == owned,
    decreases calls.len(),
{
    if calls.len() > 0 {
        law_thread_is_discarded_once_and_never_after_commit(owned, calls.drop_last());
        if calls.len() > 1 {
            assert(calls.drop_last()[0] == calls[0]);
        } else {
            assert(calls.last() == calls[0]);
            if owned is Some {
                assert(Seq::<L>::empty().push(owned->0) =~= seq![owned->0]);
            }
        }
    }
}

/// The owner of a live thread while the session may still fail to start. Unless
/// the thread is handed over before, giving up the owner discards it.
pub struct LiveThreadInitGuard<L> {
    live_thread: Option<L>,
}

impl<L> View for LiveThreadInitGuard<L> {
    type V = Option<L>;

    closed spec fn view(&self) -> Option<L> {
        self.live_thread
    }
}

impl<L> LiveThreadInitGuard<L> {
    /// The owner of a thread, or of none.
    pub fn new(live_thread: Option<L>) -> (r: Self)
        ensures
            r@ == live_thread,
    {
        LiveThreadInitGuard { live_thread }
    }

    /// The thread.
    pub fn as_ref(&self) -> (r: Option<&L>)
        ensures
            match r {
                Some(l) => self@ == Some(*l),
                None => self@ is None,
            },
    {
        self.live_thread.as_ref()
    }

    /// Hands the thread over to the session: it is not discarded any more.
    pub fn commit(&mut self)
        ensures
            final(self)@ is None,
            final(self)@ == owned_after(old(self)@, GuardCall::Commit),
    {
        self.live_thread = None;
    }

    /// Takes the thread out to be discarded; it can be taken out once.
    pub fn discard(&mut self) -> (r: Option<L>)
        ensures
            r == old(self)@,
            r == taken_out(old(self)@, GuardCall::Discard),
            final(self)@ == owned_after(old(self)@, GuardCall::Discard),
    {
        self.live_thread.take()
    }
}

/// A resumption goes on after every success and fails, with the error that came,
/// after every failure. Once the thread is open, its history is loaded unless it
/// came with the request; the recorder takes up the one or the other; and then the
/// thread is live.
pub proof fn law_resumption_takes_one_step_after_another<H, E>(m: ResumeModel<H>, history: H, e: E)
    ensures
        m.history is Some ==> m.after(ResumeEvent::<H, E>::Opened(Ok(()))) == (
            ResumeModel { history: m.history, stage: ResumeStage::Initializing },
            ResumeStep::<E>::InitializeRecorder,
        ),
        m.history is None ==> m.after(ResumeEvent::<H, E>::Opened(Ok(()))) == (
            ResumeModel::<H> { history: None, stage: ResumeStage::Loading },
            ResumeStep::<E>::LoadHistory,
        ),
        m.after(ResumeEvent::<H, E>::Loaded(Ok(history))) == (
            ResumeModel { history: Some(history), stage: ResumeStage::Initializing },
            ResumeStep::<E>::InitializeRecorder,
        ),
        m.after(ResumeEvent::<H, E>::Initialized(Ok(()))) == (
            ResumeModel { history: m.history, stage: ResumeStage::Ready },
            ResumeStep::<E>::Ready,
        ),
        m.after(ResumeEvent::<H, E>::Opened(Err(e))).1 == (ResumeStep::Fail {
            discard: false,
            error: e,
        }),
        m.after(ResumeEvent::<H, E>::Loaded(Err(e))).1 == (ResumeStep::Fail {
            discard: true,
            error: e,
        }),
        m.after(ResumeEvent::<H, E>::Initialized(Err(e))).1 == (ResumeStep::Fail {
            discard: true,
            error: e,
        }),
{
}

/// An operation makes the call that it is named after, and applies pending metadata
/// besides, each once. Writing comes before the metadata, closing and changing come
/// after it; and flushing and closing apply metadata to existing histories only.
pub proof fn law_operation_makes_its_own_call_once(operation: LiveOperation, i: int)
    requires
        0 <= i < operation_steps(operation).len(),
    ensures
        operation_steps(operation).len() == 2,
        ({
            let step = operation_steps(operation)[i];
            let own = if operation == LiveOperation::Persist || operation == LiveOperation::Flush {
                0int
            } else {
                1
            };
            &&& i != own ==> step == (StoreStep::ApplyPendingMetadata {
                existing_history_only: operation == LiveOperation::Flush || operation
                    == LiveOperation::Shutdown,
            })
            &&& i == own && operation == LiveOperation::Persist ==> step
                == StoreStep::PersistThread
            &&& i == own && operation == LiveOperation::Flush ==> step == StoreStep::FlushThread
            &&& i == own && operation == LiveOperation::Shutdown ==> step
                == StoreStep::ShutdownThread
            &&& i == own && operation == LiveOperation::UpdateMetadata ==> step
                == StoreStep::UpdateMetadata
        }),
{
}

/// Whatever has changes or a commit in it is not empty, and nothing else.
pub proof fn law_changes_and_commits_count<M>(append: PreparedLiveHistoryAppend<M>)
    ensures
        append.thread_history_mutations@.len() > 0 ==> !append.is_empty(),
        append.writer_commit_id is Some ==> !append.is_empty(),
        !append.is_empty() ==> append.thread_history_mutations@.len() > 0
            || append.writer_commit_id is Some,
{
}

/// A resumption waits for one kind of event at a time: for the history once a thread
/// without one is opened, for the recorder once there is a history, and for nothing
/// once the recorder stands or something has failed.
pub proof fn law_resumption_waits_for_one_event<H, E>(
    m: ResumeModel<H>,
    event: ResumeEvent<H, E>,
    next: ResumeEvent<H, E>,
)
    requires
        m.awaits(event),
    ensures
        m.awaits(next) ==> (event is Opened <==> next is Opened) && (event is Loaded <==> next
            is Loaded),
        ({
            let failed = match event {
                ResumeEvent::Opened(r) => r is Err,
                ResumeEvent::Loaded(r) => r is Err,
                ResumeEvent::Initialized(r) => r is Err,
            };
            m.after(event).0.awaits(next) <==> !failed && match event {
                ResumeEvent::Opened(_) => if m.history is Some {
                    next is Initialized
                } else {
                    next is Loaded
                },
                ResumeEvent::Loaded(_) => next is Initialized,
                ResumeEvent::Initialized(_) => false,
            }
        }),
{
}

} // verus!
