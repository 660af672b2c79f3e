//! A request to delete a thread and the threads that it spawned.
use vstd::prelude::*;
use super::local::ThreadStoreError;
use crate::text::chars::chars_of;
use crate::text::chars::push_text;
use crate::text::chars::same_text;
use crate::text::chars::string_of;

verus! {

/// The answer to a request that failed.
#[derive(Debug, Clone, PartialEq, Eq)]
pub enum DeleteRequestError {
    /// The request cannot be fulfilled.
    InvalidRequest(String),
    /// The store does not support an operation.
    Unsupported(String),
    /// Something went wrong inside.
    Internal(String),
}

impl DeleteRequestError {
    /// Whether the request cannot be fulfilled, for the given reason.
    pub open spec fn is_invalid(self, message: Seq<char>) -> bool {
        self matches DeleteRequestError::InvalidRequest(m) && m@ == message
    }

    /// Whether something went wrong inside, with the given message.
    pub open spec fn is_internal(self, message: Seq<char>) -> bool {
        self matches DeleteRequestError::Internal(m) && m@ == message
    }
}

/// The answer where the id of the thread is none.
pub fn invalid_thread_id(reason: &str) -> (r: DeleteRequestError)
    ensures
        r.is_invalid("invalid thread id: "@ + reason@),
{
    let mut text = chars_of("invalid thread id: ");
    push_text(&mut text, reason);
    DeleteRequestError::InvalidRequest(string_of(&text))
}

/// Whether a request is answered as it should be where the store fails with an
/// error of the given text.
pub open spec fn answers(r: DeleteRequestError, err: ThreadStoreError, display: Seq<char>) -> bool {
    match err {
        ThreadStoreError::ThreadNotFound { thread_id } => r.is_invalid(
            "thread not found: "@ + thread_id@,
        ),
        ThreadStoreError::InvalidRequest { message } => r.is_invalid(message@),
        ThreadStoreError::Unsupported { operation } => r matches DeleteRequestError::Unsupported(o)
            && o@ == operation@,
        _ => r.is_internal("failed to delete thread: "@ + display),
    }
}

/// The answer to an error of the store, whose text is given.
pub fn thread_store_delete_error(err: ThreadStoreError, display: &str) -> (r: DeleteRequestError)
    ensures
        answers(r, err, display@),
{
    match err {
        ThreadStoreError::ThreadNotFound { thread_id } => {
            let mut text = chars_of("thread not found: ");
            push_text(&mut text, thread_id.as_str());
            DeleteRequestError::InvalidRequest(string_of(&text))
        },
        ThreadStoreError::InvalidRequest { message } => DeleteRequestError::InvalidRequest(message),
        ThreadStoreError::Unsupported { operation } => DeleteRequestError::Unsupported(operation),
        ThreadStoreError::Internal { .. } | ThreadStoreError::Other => {
            let mut text = chars_of("failed to delete thread: ");
            push_text(&mut text, display);
            DeleteRequestError::Internal(string_of(&text))
        },
    }
}

/// Whether a thread is let through, or refused as it should be.
pub open spec fn root_check(
    thread_id: Seq<char>,
    live_and_ephemeral: bool,
    stored: Result<(), (ThreadStoreError, String)>,
    r: Result<(), DeleteRequestError>,
) -> bool {
    if live_and_ephemeral {
        r matches Err(e) && e.is_invalid(
            "thread is not persisted and cannot be deleted: "@ + thread_id,
        )
    } else {
        match stored {
            Ok(_) => r is Ok,
            Err((err, display)) => r matches Err(e) && answers(e, err, display@),
        }
    }
}

/// Checks that the thread that is asked for can be deleted: it is not one that
/// lives in memory only, and the store has it.
pub fn validate_root_thread_delete(
    thread_id: &str,
    live_and_ephemeral: bool,
    stored: Result<(), (ThreadStoreError, String)>,
) -> (r: Result<(), DeleteRequestError>)
    ensures
        root_check(thread_id@, live_and_ephemeral, stored, r),
{
    if live_and_ephemeral {
        let mut text = chars_of("thread is not persisted and cannot be deleted: ");
        push_text(&mut text, thread_id);
        return Err(DeleteRequestError::InvalidRequest(string_of(&text)));
    }
    match stored {
        Ok(_) => Ok(()),
        Err((err, display)) => Err(thread_store_delete_error(err, display.as_str())),
    }
}

/// The threads that are stored, followed by those that live without being among
/// them, each of the latter once.
pub open spec fn merged(stored: Seq<Seq<char>>, live: Seq<Seq<char>>) -> Seq<Seq<char>>
    decreases live.len(),
{
    if live.len() == 0 {
        stored
    } else {
        let before = merged(stored, live.drop_last());
        if before.contains(live.last()) {
            before
        } else {
            before.push(live.last())
        }
    }
}

fn has_text(list: &Vec<String>, text: &str) -> (r: bool)
    ensures
        r == list.deep_view().contains(text@),
{
    let mut i: usize = 0;
    while i < list.len()
        invariant
            i <= list@.len(),
            forall|j: int| 0 <= j < i ==> list.deep_view()[j] != text@,
        decreases list@.len() - i,
    {
        assert(list.deep_view()[i as int] == list@[i as int]@);
        if same_text(list[i].as_str(), text) {
            return true;
        }
        i += 1;
    }
    false
}

/// The threads below the one that is asked for: those that are stored, and those
/// that live besides.
pub fn merge_subtree(stored: Vec<String>, live: &Vec<String>) -> (r: Vec<String>)
    ensures
        r.deep_view() == merged(stored.deep_view(), live.deep_view()),
{
    let mut r = stored;
    let ghost start = r.deep_view();
    let mut i: usize = 0;
    assert(live.deep_view().take(0).len() == 0);
    while i < live.len()
        invariant
            i <= live@.len(),
            r.deep_view() == merged(start, live.deep_view().take(i as int)),
        decreases live@.len() - i,
    {
        let ghost before = r.deep_view();
        let ghost upto = live.deep_view().take(i + 1);
        assert(upto.drop_last() =~= live.deep_view().take(i as int));
        assert(upto.last() == live@[i as int]@);
        if !has_text(&r, live[i].as_str()) {
            r.push(live[i].clone());
            assert(r.deep_view() =~= before.push(live@[i as int]@));
        }
        i += 1;
    }
    assert(live.deep_view().take(i as int) =~= live.deep_view());
    r
}

/// How far a request has come.
#[derive(Debug, Clone, Copy, PartialEq, Eq, Structural)]
pub enum DeleteStage {
    /// The threads that are stored below the one that is asked for are looked up.
    ListingStored,
    /// Those that live below it are looked up.
    ListingLive,
    /// The thread itself is checked.
    CheckingRoot,
    /// The thread itself is prepared and deleted.
    DeletingRoot,
    /// Its descendants are prepared and deleted, one after the other.
    DeletingDescendants,
    /// The request has failed.
    Failed,
}

/// The threads that live below one.
pub enum LiveSubtree {
    /// These do.
    Found(Vec<String>),
    /// The thread does not live.
    NotFound,
    /// They could not be looked up; this is the answer.
    Failed(DeleteRequestError),
}

/// The deletion of a thread and its descendants: the thread first, since only
/// that one's failure fails the request, then its descendants from the last to
/// the first.
pub struct ThreadDeletion {
    root: String,
    subtree: Vec<String>,
    remaining: usize,
    deleted: Vec<String>,
    stage: DeleteStage,
}

/// A deletion as mathematical values.
#[verifier::ext_equal]
pub struct DeletionModel {
    /// The thread that is asked for.
    pub root: Seq<char>,
    /// That thread and those below it, as far as they were looked up.
    pub subtree: Seq<Seq<char>>,
    /// The descendants that are yet to be deleted, the next one last.
    pub remaining: Seq<Seq<char>>,
    /// The threads that were deleted, in order.
    pub deleted: Seq<Seq<char>>,
    /// The stage.
    pub stage: DeleteStage,
}

impl DeletionModel {
    /// Nothing is deleted before the thread itself was checked and deleted, and
    /// then that thread is the first that is reported.
    pub open spec fn wf(self) -> bool {
        if self.stage == DeleteStage::DeletingDescendants {
            self.deleted.len() > 0 && self.deleted[0] == self.root
        } else {
            self.deleted.len() == 0 && self.remaining.len() == 0
        }
    }
}

/// The descendants in a list that begins with the thread itself.
pub open spec fn descendants(subtree: Seq<Seq<char>>) -> Seq<Seq<char>> {
    if subtree.len() == 0 {
        subtree
    } else {
        subtree.skip(1)
    }
}

impl View for ThreadDeletion {
    type V = DeletionModel;

    closed spec fn view(&self) -> DeletionModel {
        DeletionModel {
            root: self.root@,
            subtree: self.subtree.deep_view(),
            remaining: descendants(self.subtree.deep_view()).take(self.remaining as int),
            deleted: self.deleted.deep_view(),
            stage: self.stage,
        }
    }
}

impl ThreadDeletion {
    /// The state is one that a request can be in.
    pub closed spec fn wf(self) -> bool {
        self.remaining <= descendants(self.subtree.deep_view()).len() && self@.wf()
    }

    /// A request for a thread.
    pub fn new(root: String) -> (r: Self)
        ensures
            r.wf(),
            r@ == (DeletionModel {
                root: root@,
                subtree: Seq::empty(),
                remaining: Seq::empty(),
                deleted: Seq::empty(),
                stage: DeleteStage::ListingStored,
            }),
    {
        let r = ThreadDeletion {
            root,
            subtree: Vec::new(),
            remaining: 0,
            deleted: Vec::new(),
            stage: DeleteStage::ListingStored,
        };
        assert(r@.subtree =~= Seq::<Seq<char>>::empty());
        assert(r@.deleted =~= Seq::<Seq<char>>::empty());
        assert(r@.remaining =~= Seq::<Seq<char>>::empty());
        r
    }

    /// The stage.
    pub fn stage(&self) -> (r: DeleteStage)
        ensures
            r == self@.stage,
    {
        self.stage
    }

    fn fail(&mut self)
        requires
            old(self).wf(),
            old(self)@.stage != DeleteStage::DeletingDescendants,
        ensures
            final(self).wf(),
            final(self)@ == (DeletionModel { stage: DeleteStage::Failed, ..old(self)@ }),
    {
        self.stage = DeleteStage::Failed;
    }

    /// Takes up the threads that are stored, the one that is asked for first.
    pub fn stored_listed(&mut self, outcome: Result<Vec<String>, DeleteRequestError>) -> (r: Result<
        (),
        DeleteRequestError,
    >)
        requires
            old(self).wf(),
            old(self)@.stage == DeleteStage::ListingStored,
        ensures
            final(self).wf(),
            match outcome {
                Ok(ids) => r is Ok && final(self)@ == (DeletionModel {
                    subtree: ids.deep_view(),
                    stage: DeleteStage::ListingLive,
                    ..old(self)@
                }),
                Err(e) => r == Err::<(), DeleteRequestError>(e) && final(self)@ == (DeletionModel {
                    stage: DeleteStage::Failed,
                    ..old(self)@
                }),
            },
    {
        match outcome {
            Err(e) => {
                self.fail();
                Err(e)
            },
            Ok(ids) => {
                let ghost before = self@;
                self.subtree = ids;
                self.remaining = 0;
                self.stage = DeleteStage::ListingLive;
                assert(self@.remaining =~= before.remaining);
                Ok(())
            },
        }
    }

    /// Takes up the threads that live.
    pub fn live_listed(&mut self, outcome: LiveSubtree) -> (r: Result<(), DeleteRequestError>)
        requires
            old(self).wf(),
            old(self)@.stage == DeleteStage::ListingLive,
        ensures
            final(self).wf(),
            match outcome {
                LiveSubtree::Found(ids) => r is Ok && final(self)@ == (DeletionModel {
                    subtree: merged(old(self)@.subtree, ids.deep_view()),
                    stage: DeleteStage::CheckingRoot,
                    ..old(self)@
                }),
                LiveSubtree::NotFound => r is Ok && final(self)@ == (DeletionModel {
                    stage: DeleteStage::CheckingRoot,
                    ..old(self)@
                }),
                LiveSubtree::Failed(e) => r == Err::<(), DeleteRequestError>(e) && final(self)@ == (
                DeletionModel { stage: DeleteStage::Failed, ..old(self)@ }),
            },
    {
        match outcome {
            LiveSubtree::Failed(e) => {
                self.fail();
                Err(e)
            },
            LiveSubtree::NotFound => {
                self.stage = DeleteStage::CheckingRoot;
                Ok(())
            },
            LiveSubtree::Found(ids) => {
                let ghost before = self@;
                let mut stored: Vec<String> = Vec::new();
                std::mem::swap(&mut stored, &mut self.subtree);
                self.subtree = merge_subtree(stored, &ids);
                self.remaining = 0;
                self.stage = DeleteStage::CheckingRoot;
                assert(self@.remaining =~= before.remaining);
                Ok(())
            },
        }
    }

    /// Takes up whether the thread itself lives in memory only, and whether the
    /// store has it.
    pub fn root_checked(
        &mut self,
        live_and_ephemeral: bool,
        stored: Result<(), (ThreadStoreError, String)>,
    ) -> (r: Result<(), DeleteRequestError>)
        requires
            old(self).wf(),
            old(self)@.stage == DeleteStage::CheckingRoot,
        ensures
            final(self).wf(),
            root_check(old(self)@.root, live_and_ephemeral, stored, r),
            final(self)@ == (DeletionModel {
                stage: if r is Ok {
                    DeleteStage::DeletingRoot
                } else {
                    DeleteStage::Failed
                },
                ..old(self)@
            }),
    {
        match validate_root_thread_delete(self.root.as_str(), live_and_ephemeral, stored) {
            Ok(_) => {
                self.stage = DeleteStage::DeletingRoot;
                Ok(())
            },
            Err(e) => {
                self.fail();
                Err(e)
            },
        }
    }

    /// Takes up whether the thread itself was deleted. If it was not, the request
    /// fails and nothing else is deleted.
    pub fn root_deleted(&mut self, outcome: Result<(), (ThreadStoreError, String)>) -> (r: Result<
        (),
        DeleteRequestError,
    >)
        requires
            old(self).wf(),
            old(self)@.stage == DeleteStage::DeletingRoot,
        ensures
            final(self).wf(),
            match outcome {
                Ok(_) => r is Ok && final(self)@ == (DeletionModel {
                    remaining: descendants(old(self)@.subtree),
                    deleted: seq![old(self)@.root],
                    stage: DeleteStage::DeletingDescendants,
                    ..old(self)@
                }),
                Err((err, display)) => (r matches Err(e) && answers(e, err, display@))
                    && final(self)@ == (DeletionModel { stage: DeleteStage::Failed, ..old(self)@ }),
            },
    {
        if let Err((err, display)) = outcome {
            self.fail();
            return Err(thread_store_delete_error(err, display.as_str()));
        }
        let ghost before = self@;
        self.remaining = if self.subtree.len() == 0 {
            0
        } else {
            self.subtree.len() - 1
        };
        self.deleted.push(self.root.clone());
        self.stage = DeleteStage::DeletingDescendants;
        assert(self@.deleted =~= seq![before.root]);
        assert(self@.remaining =~= descendants(before.subtree));
        Ok(())
    }

    /// The descendant that is to be deleted next.
    pub fn next_descendant(&self) -> (r: Option<&String>)
        requires
            self.wf(),
        ensures
            match r {
                Some(id) => self@.remaining.len() > 0 && id@ == self@.remaining.last(),
                None => self@.remaining.len() == 0,
            },
    {
        if self.remaining == 0 {
            return None;
        }
        assert(self@.remaining.last() == self.subtree@[self.remaining as int]@);
        Some(&self.subtree[self.remaining])
    }

    /// Takes up whether that descendant was deleted. A failure is passed over.
    pub fn descendant_deleted(&mut self, succeeded: bool)
        requires
            old(self).wf(),
            old(self)@.remaining.len() > 0,
        ensures
            final(self).wf(),
            final(self)@ == old(self)@.after_descendant(succeeded),
    {
        let ghost before = self@;
        if succeeded {
            let id = self.subtree[self.remaining].clone();
            self.deleted.push(id);
        }
        self.remaining = self.remaining - 1;
        assert(self@.remaining =~= before.remaining.drop_last());
        assert(self@.deleted =~= before.after_descendant(succeeded).deleted);
    }

    /// The threads to report as deleted, in order.
    pub fn finish(self) -> (r: Vec<String>)
        requires
            self.wf(),
            self@.stage == DeleteStage::DeletingDescendants,
            self@.remaining.len() == 0,
        ensures
            r.deep_view() == self@.deleted,
    {
        self.deleted
    }
}

impl DeletionModel {
    /// The deletion after the next descendant was deleted or not.
    pub open spec fn after_descendant(self, succeeded: bool) -> DeletionModel {
        DeletionModel {
            remaining: self.remaining.drop_last(),
            deleted: if succeeded {
                self.deleted.push(self.remaining.last())
            } else {
                self.deleted
            },
            ..self
        }
    }
}

/// What is reported where each remaining descendant was deleted or not.
pub open spec fn after_outcomes(m: DeletionModel, outcomes: Seq<bool>) -> DeletionModel
    decreases outcomes.len(),
{
    if outcomes.len() == 0 {
        m
    } else {
        after_outcomes(m, outcomes.drop_last()).after_descendant(outcomes.last())
    }
}

/// The descendants that are taken up for as many outcomes, the last of the list
/// first, each with its outcome.
pub open spec fn attempts(all: Seq<Seq<char>>, outcomes: Seq<bool>) -> Seq<(Seq<char>, bool)> {
    Seq::new(outcomes.len(), |i: int| (all[all.len() - 1 - i], outcomes[i]))
}

/// Those of the attempts that succeeded, in order.
pub open spec fn succeeded(attempts: Seq<(Seq<char>, bool)>) -> Seq<Seq<char>> {
    attempts.filter(|a: (Seq<char>, bool)| a.1).map_values(|a: (Seq<char>, bool)| a.0)
}

/// Whatever the outcomes, the thread is reported first, and then those of its
/// descendants that were deleted, in the reverse of the order in which they are
/// listed; a descendant whose deletion failed is left out and holds up none of the
/// others.
pub proof fn law_root_first_then_descendants_in_reverse(
    m: DeletionModel,
    all: Seq<Seq<char>>,
    outcomes: Seq<bool>,
)
    requires
        m.deleted == seq![m.root],
        m.remaining == all,
        outcomes.len() <= all.len(),
    ensures
        after_outcomes(m, outcomes).remaining == all.take(all.len() - outcomes.len()),
        after_outcomes(m, outcomes).deleted == seq![m.root] + succeeded(attempts(all, outcomes)),
    decreases outcomes.len(),
{
    reveal(Seq::filter);
    let pairs = attempts(all, outcomes);
    if outcomes.len() == 0 {
        assert(all.take(all.len() as int) =~= all);
        assert(seq![m.root] + succeeded(pairs) =~= seq![m.root]);
    } else {
        let fewer = outcomes.drop_last();
        law_root_first_then_descendants_in_reverse(m, all, fewer);
        let here = after_outcomes(m, fewer);
        let n = outcomes.len();
        assert(pairs.drop_last() =~= attempts(all, fewer));
        assert(pairs.last() == (all[all.len() - n], outcomes.last()));
        assert(here.remaining.drop_last() =~= all.take(all.len() - n));
        assert(here.remaining.last() == all[all.len() - n]);
        if outcomes.last() {
            assert(succeeded(pairs) =~= succeeded(attempts(all, fewer)).push(all[all.len() - n]));
            assert(here.deleted.push(all[all.len() - n]) =~= seq![m.root] + succeeded(pairs));
        } else {
            assert(succeeded(pairs) =~= succeeded(attempts(all, fewer)));
        }
    }
}

/// The threads below the one that is asked for are all those that are stored,
/// in their order, and all those that live, and no others; and none of the
/// living is listed twice.
pub proof fn law_merged_subtree_is_complete(stored: Seq<Seq<char>>, live: Seq<Seq<char>>)
    ensures
        stored.len() <= merged(stored, live).len(),
        merged(stored, live).take(stored.len() as int) == stored,
        forall|x: Seq<char>| #[trigger]
            merged(stored, live).contains(x) <==> stored.contains(x) || live.contains(x),
        stored.no_duplicates() ==> merged(stored, live).no_duplicates(),
    decreases live.len(),
{
    if live.len() == 0 {
        assert(stored.take(stored.len() as int) =~= stored);
    } else {
        let earlier = live.drop_last();
        let last = live.last();
        law_merged_subtree_is_complete(stored, earlier);
        let before = merged(stored, earlier);
        let all = merged(stored, live);
        assert(all.take(stored.len() as int) =~= before.take(stored.len() as int));
        assert forall|x: Seq<char>| #[trigger] all.contains(x) <==> stored.contains(x)
            || live.contains(x) by {
            if all.contains(x) && !before.contains(x) {
                assert(x == last);
                assert(live[live.len() - 1] == x);
            }
            if before.contains(x) {
                let i = choose|i: int| 0 <= i < before.len() && before[i] == x;
                assert(all[i] == x);
                if earlier.contains(x) {
                    let j = choose|j: int| 0 <= j < earlier.len() && earlier[j] == x;
                    assert(live[j] == x);
                }
            }
            if live.contains(x) && !earlier.contains(x) {
                let j = choose|j: int| 0 <= j < live.len() && live[j] == x;
                if j < live.len() - 1 {
                    assert(earlier[j] == x);
                }
                assert(x == last);
                if !before.contains(last) {
                    assert(all[before.len() as int] == last);
                }
            }
        }
    }
}

/// A missing thread and a refused request are answered as ones that cannot be
/// fulfilled, an operation that is not supported as such, and everything else that
/// fails in the store as something that went wrong inside.
pub proof fn law_store_errors_are_answered_by_kind(
    r: DeleteRequestError,
    err: ThreadStoreError,
    display: Seq<char>,
)
    requires
        answers(r, err, display),
    ensures
        r is InvalidRequest <==> err is ThreadNotFound || err is InvalidRequest,
        r is Unsupported <==> err is Unsupported,
        r is Internal <==> err is Internal || err is Other,
        err matches ThreadStoreError::ThreadNotFound { thread_id } ==> r->InvalidRequest_0@
            == "thread not found: "@ + thread_id@,
        err matches ThreadStoreError::InvalidRequest { message } ==> r->InvalidRequest_0@
            == message@,
        err matches ThreadStoreError::Unsupported { operation } ==> r->Unsupported_0@ == operation@,
        err is Internal || err is Other ==> r->Internal_0@ == "failed to delete thread: "@
            + display,
{
}

/// A thread that lives in memory only is refused, whatever the store says; any
/// other is let through exactly where the store has it, and refused as the store
/// failed otherwise.
pub proof fn law_only_stored_threads_are_deleted(
    thread_id: Seq<char>,
    live_and_ephemeral: bool,
    stored: Result<(), (ThreadStoreError, String)>,
    r: Result<(), DeleteRequestError>,
)
    requires
        root_check(thread_id, live_and_ephemeral, stored, r),
    ensures
        r is Ok <==> !live_and_ephemeral && stored is Ok,
        live_and_ephemeral ==> (r matches Err(DeleteRequestError::InvalidRequest(m)) && m@
            == "thread is not persisted and cannot be deleted: "@ + thread_id),
        !live_and_ephemeral && stored is Err ==> (r matches Err(e) && answers(
            e,
            (stored->Err_0).0,
            (stored->Err_0).1@,
        )),
{
}

/// In a list that begins with a thread, all the others are its descendants, in
/// order.
pub proof fn law_all_but_the_first_are_descendants(root: Seq<char>, others: Seq<Seq<char>>)
    ensures
        descendants(seq![root] + others) == others,
        descendants(Seq::empty()) == Seq::<Seq<char>>::empty(),
{
    assert((seq![root] + others).skip(1) =~= others);
}

/// Living threads that are not stored come behind those that are, in the order in
/// which they were found.
pub proof fn law_living_threads_come_behind_stored_ones(
    stored: Seq<Seq<char>>,
    live: Seq<Seq<char>>,
    id: Seq<char>,
)
    ensures
        merged(stored, Seq::empty()) == stored,
        merged(stored, live).contains(id) ==> merged(stored, live.push(id)) == merged(
            stored,
            live,
        ),
        !merged(stored, live).contains(id) ==> merged(stored, live.push(id)) == merged(
            stored,
            live,
        ).push(id),
{
    assert(live.push(id).drop_last() =~= live);
}

} // verus!
