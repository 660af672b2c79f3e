//! The deletion of one thread from local storage. Deleting the rows of the state
//! database is the point of no return where there is a database; files are
//! removed after that as far as possible.
use vstd::prelude::*;
use crate::text::chars::chars_of;
use crate::text::chars::push_text;
use crate::text::chars::string_of;

verus! {

/// Why a thread store failed.
#[derive(Debug, Clone, PartialEq, Eq)]
pub enum ThreadStoreError {
    /// There is no such thread.
    ThreadNotFound {
        /// The thread.
        thread_id: String,
    },
    /// The request cannot be fulfilled.
    InvalidRequest {
        /// The reason.
        message: String,
    },
    /// The store does not support an operation.
    Unsupported {
        /// The operation.
        operation: String,
    },
    /// Something went wrong inside.
    Internal {
        /// What went wrong.
        message: String,
    },
    /// Anything else.
    Other,
}

/// The text that tells of a missing thread.
pub open spec fn not_found_text(thread_id: Seq<char>) -> Seq<char> {
    "thread "@ + thread_id + " not found"@
}

/// The text that tells of a missing thread.
pub fn thread_not_found_text(thread_id: &str) -> (r: String)
    ensures
        r@ == not_found_text(thread_id@),
{
    let mut text = chars_of("thread ");
    push_text(&mut text, thread_id);
    push_text(&mut text, " not found");
    string_of(&text)
}

/// Where the file of a thread was looked for.
pub enum RolloutLookup<P> {
    /// It is here.
    Found(P),
    /// There is none.
    Missing,
    /// The search failed, for this reason.
    Failed(String),
}

/// A deletion in progress: the files were looked for, then the rows of the state
/// database are deleted, then the files.
pub struct LocalDeletion<P> {
    thread_id: String,
    lookup_error: Option<String>,
    paths: Vec<P>,
    rows_done: bool,
    deleted_rows: u64,
    deleted_file: bool,
}

/// A deletion as mathematical values.
#[verifier::ext_equal]
pub struct LocalDeletionModel<P> {
    /// The thread.
    pub thread_id: Seq<char>,
    /// The first failure of a search.
    pub lookup_error: Option<Seq<char>>,
    /// The files that are yet to be deleted, in order.
    pub paths: Seq<P>,
    /// Whether the rows of the state database were dealt with.
    pub rows_done: bool,
    /// How many rows of the state database were deleted.
    pub deleted_rows: u64,
    /// Whether a file was deleted.
    pub deleted_file: bool,
}

impl<P> View for LocalDeletion<P> {
    type V = LocalDeletionModel<P>;

    closed spec fn view(&self) -> LocalDeletionModel<P> {
        LocalDeletionModel {
            thread_id: self.thread_id@,
            lookup_error: self.lookup_error.deep_view(),
            paths: self.paths@,
            rows_done: self.rows_done,
            deleted_rows: self.deleted_rows,
            deleted_file: self.deleted_file,
        }
    }
}

/// The first failure of the two searches.
pub open spec fn first_lookup_error<P>(
    thread_id: Seq<char>,
    active: RolloutLookup<P>,
    archived: RolloutLookup<P>,
) -> Option<Seq<char>> {
    match (active, archived) {
        (RolloutLookup::Failed(e), _) => Some(
            "failed to locate thread id "@ + thread_id + ": "@ + e@,
        ),
        (_, RolloutLookup::Failed(e)) => Some(
            "failed to locate archived thread id "@ + thread_id + ": "@ + e@,
        ),
        _ => None,
    }
}

/// The files to delete: those that were found, once where they are the same.
pub open spec fn found_paths<P>(
    active: RolloutLookup<P>,
    archived: RolloutLookup<P>,
    same: bool,
) -> Seq<P> {
    match (active, archived) {
        (RolloutLookup::Found(a), RolloutLookup::Found(b)) => if same {
            seq![a]
        } else {
            seq![a, b]
        },
        (RolloutLookup::Found(a), _) => seq![a],
        (_, RolloutLookup::Found(b)) => seq![b],
        _ => Seq::empty(),
    }
}

impl<P> LocalDeletionModel<P> {
    /// How the deletion ends.
    pub open spec fn outcome(self) -> Option<ThreadStoreErrorModel> {
        if self.deleted_rows > 0 || self.deleted_file {
            None
        } else {
            match self.lookup_error {
                Some(message) => Some(ThreadStoreErrorModel::InvalidRequest(message)),
                None => Some(ThreadStoreErrorModel::NotFound(self.thread_id)),
            }
        }
    }
}

/// An error with which a deletion ends.
pub enum ThreadStoreErrorModel {
    /// A search failed.
    InvalidRequest(Seq<char>),
    /// There is no such thread.
    NotFound(Seq<char>),
}

impl<P> LocalDeletion<P> {
    /// Takes up where the files of the thread were found; `same` tells whether
    /// both searches found the same file.
    pub fn located(
        thread_id: &str,
        active: RolloutLookup<P>,
        archived: RolloutLookup<P>,
        same: bool,
    ) -> (r: Self)
        ensures
            r@ == (LocalDeletionModel {
                thread_id: thread_id@,
                lookup_error: first_lookup_error(thread_id@, active, archived),
                paths: found_paths(active, archived, same),
                rows_done: false,
                deleted_rows: 0,
                deleted_file: false,
            }),
    {
        let mut paths: Vec<P> = Vec::new();
        let mut lookup_error: Option<String> = None;
        match active {
            RolloutLookup::Found(path) => {
                paths.push(path);
            },
            RolloutLookup::Missing => {},
            RolloutLookup::Failed(e) => {
                lookup_error = Some(lookup_failure("failed to locate thread id ", thread_id, &e));
            },
        }
        match archived {
            RolloutLookup::Found(path) => {
                if paths.len() == 0 || !same {
                    paths.push(path);
                }
            },
            RolloutLookup::Missing => {},
            RolloutLookup::Failed(e) => {
                if lookup_error.is_none() {
                    lookup_error = Some(
                        lookup_failure("failed to locate archived thread id ", thread_id, &e),
                    );
                }
            },
        }
        assert(paths@ =~= found_paths(active, archived, same));
        LocalDeletion {
            thread_id: thread_id.to_owned(),
            lookup_error,
            paths,
            rows_done: false,
            deleted_rows: 0,
            deleted_file: false,
        }
    }

    /// Takes up how many rows of the state database were deleted; there are none
    /// where there is no database. A failure ends the deletion.
    pub fn rows_deleted(&mut self, outcome: Option<Result<u64, String>>) -> (r: Result<
        (),
        ThreadStoreError,
    >)
        requires
            !old(self)@.rows_done,
        ensures
            match outcome {
                Some(Err(e)) => (r matches Err(ThreadStoreError::Internal { message }) && message@
                    == "failed to delete thread metadata for "@ + old(self)@.thread_id + ": "@ + e@)
                    && final(self)@ == old(self)@,
                Some(Ok(rows)) => r is Ok && final(self)@ == (LocalDeletionModel {
                    deleted_rows: rows,
                    rows_done: true,
                    ..old(self)@
                }),
                None => r is Ok && final(self)@ == (LocalDeletionModel {
                    rows_done: true,
                    ..old(self)@
                }),
            },
    {
        match outcome {
            Some(Ok(rows)) => {
                self.deleted_rows = rows;
                self.rows_done = true;
                Ok(())
            },
            Some(Err(e)) => {
                let mut text = chars_of("failed to delete thread metadata for ");
                push_text(&mut text, self.thread_id.as_str());
                push_text(&mut text, ": ");
                push_text(&mut text, e.as_str());
                Err(ThreadStoreError::Internal { message: string_of(&text) })
            },
            None => {
                self.rows_done = true;
                Ok(())
            },
        }
    }

    /// The file to delete next.
    pub fn next_path(&mut self) -> (r: Option<P>)
        requires
            old(self)@.rows_done,
        ensures
            if old(self)@.paths.len() > 0 {
                r == Some(old(self)@.paths[0]) && final(self)@ == (LocalDeletionModel {
                    paths: old(self)@.paths.skip(1),
                    ..old(self)@
                })
            } else {
                r is None && final(self)@ == old(self)@
            },
    {
        if self.paths.len() == 0 {
            return None;
        }
        let ghost before = self.paths@;
        let path = self.paths.remove(0);
        assert(self.paths@ =~= before.skip(1));
        Some(path)
    }

    /// Takes up whether a file was deleted. A failure counts only where no rows
    /// were deleted.
    pub fn file_deleted(&mut self, outcome: Result<bool, ThreadStoreError>) -> (r: Result<
        (),
        ThreadStoreError,
    >)
        requires
            old(self)@.rows_done,
        ensures
            match outcome {
                Ok(deleted) => r is Ok && final(self)@ == (LocalDeletionModel {
                    deleted_file: old(self)@.deleted_file || deleted,
                    ..old(self)@
                }),
                Err(e) => final(self)@ == old(self)@ && r == (if old(self)@.deleted_rows > 0 {
                    Ok::<(), ThreadStoreError>(())
                } else {
                    Err::<(), ThreadStoreError>(e)
                }),
            },
    {
        match outcome {
            Ok(deleted) => {
                self.deleted_file = self.deleted_file || deleted;
                Ok(())
            },
            Err(e) => if self.deleted_rows > 0 {
                Ok(())
            } else {
                Err(e)
            },
        }
    }

    /// Ends the deletion: something must have been deleted.
    pub fn finish(self) -> (r: Result<(), ThreadStoreError>)
        requires
            self@.rows_done,
            self@.paths.len() == 0,
        ensures
            match self@.outcome() {
                None => r is Ok,
                Some(ThreadStoreErrorModel::InvalidRequest(message)) => r matches Err(
                    ThreadStoreError::InvalidRequest { message: m },
                ) && m@ == message,
                Some(ThreadStoreErrorModel::NotFound(thread_id)) => r matches Err(
                    ThreadStoreError::ThreadNotFound { thread_id: id },
                ) && id@ == thread_id,
            },
    {
        if self.deleted_rows == 0 && !self.deleted_file {
            return match self.lookup_error {
                Some(message) => Err(ThreadStoreError::InvalidRequest { message }),
                None => Err(ThreadStoreError::ThreadNotFound { thread_id: self.thread_id }),
            };
        }
        Ok(())
    }
}

fn lookup_failure(head: &str, thread_id: &str, reason: &String) -> (r: String)
    ensures
        r@ == head@ + thread_id@ + ": "@ + reason@,
{
    let mut text = chars_of(head);
    push_text(&mut text, thread_id);
    push_text(&mut text, ": ");
    push_text(&mut text, reason.as_str());
    string_of(&text)
}

/// What came of removing a file.
pub enum FileRemoval {
    /// It is gone.
    Removed,
    /// There was none.
    NotFound,
    /// It could not be removed, for this reason.
    Failed(String),
}

/// Whether a file was deleted, given what came of removing it.
pub fn delete_rollout_file(path: &str, removal: FileRemoval) -> (r: Result<bool, ThreadStoreError>)
    ensures
        match removal {
            FileRemoval::Removed => r == Ok::<bool, ThreadStoreError>(true),
            FileRemoval::NotFound => r == Ok::<bool, ThreadStoreError>(false),
            FileRemoval::Failed(e) => r matches Err(ThreadStoreError::Internal { message })
                && message@ == "failed to delete rollout file `"@ + path@ + "`: "@ + e@,
        },
{
    match removal {
        FileRemoval::Removed => Ok(true),
        FileRemoval::NotFound => Ok(false),
        FileRemoval::Failed(e) => {
            let mut text = chars_of("failed to delete rollout file `");
            push_text(&mut text, path);
            push_text(&mut text, "`: ");
            push_text(&mut text, e.as_str());
            Err(ThreadStoreError::Internal { message: string_of(&text) })
        },
    }
}

/// The deletion after the outcomes of deleting files, each of which says whether
/// there was a file to delete; `None` where one of them ends the deletion.
pub open spec fn after_files<P>(m: LocalDeletionModel<P>, outcomes: Seq<Option<bool>>) -> Option<
    LocalDeletionModel<P>,
>
    decreases outcomes.len(),
{
    if outcomes.len() == 0 {
        Some(m)
    } else {
        match (after_files(m, outcomes.drop_last()), outcomes.last()) {
            (Some(here), Some(deleted)) => Some(
                LocalDeletionModel { deleted_file: here.deleted_file || deleted, ..here },
            ),
            (Some(here), None) => if here.deleted_rows > 0 {
                Some(here)
            } else {
                None
            },
            (None, _) => None,
        }
    }
}

/// Once rows of the state database were deleted, the deletion succeeds, whatever
/// the searches and the removal of files come to.
pub proof fn law_deleted_rows_are_the_point_of_no_return<P>(
    m: LocalDeletionModel<P>,
    outcomes: Seq<Option<bool>>,
)
    requires
        m.deleted_rows > 0,
    ensures
        after_files(m, outcomes) matches Some(end) && end.deleted_rows == m.deleted_rows
            && end.outcome() is None,
    decreases outcomes.len(),
{
    if outcomes.len() > 0 {
        law_deleted_rows_are_the_point_of_no_return(m, outcomes.drop_last());
    }
}

/// A thread of which nothing was found and nothing deleted is reported missing.
pub proof fn law_missing_thread_is_reported<P>(thread_id: Seq<char>)
    ensures
        (LocalDeletionModel::<P> {
            thread_id,
            lookup_error: first_lookup_error(
                thread_id,
                RolloutLookup::<P>::Missing,
                RolloutLookup::<P>::Missing,
            ),
            paths: Seq::empty(),
            rows_done: true,
            deleted_rows: 0,
            deleted_file: false,
        }).outcome() == Some(ThreadStoreErrorModel::NotFound(thread_id)),
{
}

/// A deletion ends well exactly where a row or a file was deleted. Otherwise a
/// failed search is reported, and only without one is the thread reported missing.
pub proof fn law_something_must_have_been_deleted<P>(m: LocalDeletionModel<P>)
    ensures
        m.outcome() is None <==> m.deleted_rows > 0 || m.deleted_file,
        m.deleted_rows == 0 && !m.deleted_file && m.lookup_error is Some ==> m.outcome() == Some(
            ThreadStoreErrorModel::InvalidRequest(m.lookup_error->0),
        ),
        m.deleted_rows == 0 && !m.deleted_file && m.lookup_error is None ==> m.outcome() == Some(
            ThreadStoreErrorModel::NotFound(m.thread_id),
        ),
{
}

/// Every file that was found is to be deleted, the active one first, and one that
/// was found twice only once.
pub proof fn law_every_file_found_is_deleted_once<P>(a: P, b: P, reason: String)
    ensures
        found_paths(RolloutLookup::Found(a), RolloutLookup::Found(b), false) == seq![a, b],
        found_paths(RolloutLookup::Found(a), RolloutLookup::Found(b), true) == seq![a],
        forall|same: bool|
            #![trigger found_paths(RolloutLookup::Found(a), RolloutLookup::Missing, same)]
            found_paths(RolloutLookup::Found(a), RolloutLookup::Missing, same) == seq![a],
        forall|same: bool|
            #![trigger found_paths(RolloutLookup::Missing, RolloutLookup::Found(b), same)]
            found_paths(RolloutLookup::Missing, RolloutLookup::Found(b), same) == seq![b],
        forall|same: bool|
            #![trigger found_paths(RolloutLookup::Failed(reason), RolloutLookup::Found(b), same)]
            found_paths(RolloutLookup::Failed(reason), RolloutLookup::Found(b), same) == seq![b],
        forall|same: bool|
            #![trigger found_paths(RolloutLookup::Found(a), RolloutLookup::Failed(reason), same)]
            found_paths(RolloutLookup::Found(a), RolloutLookup::Failed(reason), same) == seq![a],
        forall|same: bool|
            #![trigger found_paths(RolloutLookup::<P>::Missing, RolloutLookup::Missing, same)]
            found_paths(RolloutLookup::<P>::Missing, RolloutLookup::Missing, same) == Seq::<
                P,
            >::empty(),
{
}

/// A search that fails is remembered, the one for the active file before the other;
/// and nothing is remembered where neither fails.
pub proof fn law_first_failed_search_is_remembered<P>(
    thread_id: Seq<char>,
    active: RolloutLookup<P>,
    archived: RolloutLookup<P>,
)
    ensures
        first_lookup_error(thread_id, active, archived) is Some <==> active is Failed
            || archived is Failed,
        active matches RolloutLookup::Failed(e) ==> first_lookup_error(thread_id, active, archived)
            == Some("failed to locate thread id "@ + thread_id + ": "@ + e@),
        !(active is Failed) && archived is Failed ==> first_lookup_error(
            thread_id,
            active,
            archived,
        ) == Some(
            "failed to locate archived thread id "@ + thread_id + ": "@ + archived->Failed_0@,
        ),
{
}

/// Without deleted rows, a file that cannot be removed ends the deletion; where all
/// can be, a file counts as deleted exactly where one of them was there.
pub proof fn law_files_count_where_no_rows_were_deleted<P>(
    m: LocalDeletionModel<P>,
    outcomes: Seq<Option<bool>>,
)
    requires
        m.deleted_rows == 0,
    ensures
        after_files(m, outcomes) is None <==> exists|i: int|
            0 <= i < outcomes.len() && #[trigger] outcomes[i] is None,
        after_files(m, outcomes) matches Some(end) ==> end.deleted_rows == 0 && end.lookup_error
            == m.lookup_error && end.thread_id == m.thread_id && (end.deleted_file <==>
            m.deleted_file || exists|i: int|
            0 <= i < outcomes.len() && #[trigger] outcomes[i] == Some(true)),
    decreases outcomes.len(),
{
    if outcomes.len() > 0 {
        let fewer = outcomes.drop_last();
        law_files_count_where_no_rows_were_deleted(m, fewer);
        let last = outcomes.len() - 1;
        assert(outcomes[last] == outcomes.last());
        assert(forall|i: int| 0 <= i < fewer.len() ==> #[trigger] fewer[i] == outcomes[i]);
        if exists|i: int| 0 <= i < fewer.len() && #[trigger] fewer[i] is None {
            let i = choose|i: int| 0 <= i < fewer.len() && #[trigger] fewer[i] is None;
            assert(outcomes[i] is None);
        }
        if exists|i: int| 0 <= i < fewer.len() && #[trigger] fewer[i] == Some(true) {
            let i = choose|i: int| 0 <= i < fewer.len() && #[trigger] fewer[i] == Some(true);
            assert(outcomes[i] == Some(true));
        }
        if exists|i: int| 0 <= i < outcomes.len() && #[trigger] outcomes[i] is None {
            let i = choose|i: int| 0 <= i < outcomes.len() && #[trigger] outcomes[i] is None;
            if i < last {
                assert(fewer[i] is None);
            }
        }
        if exists|i: int| 0 <= i < outcomes.len() && #[trigger] outcomes[i] == Some(true) {
            let i = choose|i: int| 0 <= i < outcomes.len() && #[trigger] outcomes[i] == Some(true);
            if i < last {
                assert(fewer[i] == Some(true));
            }
        }
    }
}

/// The text that tells of a missing thread names it: it begins and ends in the same
/// words for all threads, and no two threads have the same one.
pub proof fn law_missing_thread_is_named(a: Seq<char>, b: Seq<char>)
    ensures
        not_found_text(a).take("thread "@.len() as int) == "thread "@,
        not_found_text(a).skip("thread "@.len() as int + a.len()) == " not found"@,
        not_found_text(a) == not_found_text(b) ==> a == b,
{
    reveal_strlit("thread ");
    reveal_strlit(" not found");
    let n = "thread "@.len() as int;
    assert(not_found_text(a).take(n) =~= "thread "@);
    assert(not_found_text(a).skip(n + a.len()) =~= " not found"@);
    assert(not_found_text(a).subrange(n, n + a.len()) =~= a);
    assert(not_found_text(b).subrange(n, n + b.len()) =~= b);
    assert(not_found_text(a).len() == n + a.len() + " not found"@.len());
    assert(not_found_text(b).len() == n + b.len() + " not found"@.len());
}

} // verus!
