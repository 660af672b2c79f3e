use codex_runtime::live_thread::noop_live_history_recorder;
use codex_runtime::live_thread::operation_step;
use codex_runtime::live_thread::settle_metadata_update;
use codex_runtime::live_thread::AppendSettled;
use codex_runtime::live_thread::AppendStep;
use codex_runtime::live_thread::LiveHistoryRecorder;
use codex_runtime::live_thread::LiveOperation;
use codex_runtime::live_thread::LiveThreadInitGuard;
use codex_runtime::live_thread::PendingAppend;
use codex_runtime::live_thread::PreparedLiveHistoryAppend;
use codex_runtime::live_thread::ResumeEvent;
use codex_runtime::live_thread::ResumeFlow;
use codex_runtime::live_thread::ResumeStage;
use codex_runtime::live_thread::ResumeStep;
use codex_runtime::live_thread::StoreStep;
use codex_runtime::thread_delete::local::delete_rollout_file;
use codex_runtime::thread_delete::local::thread_not_found_text;
use codex_runtime::thread_delete::local::FileRemoval;
use codex_runtime::thread_delete::local::LocalDeletion;
use codex_runtime::thread_delete::local::RolloutLookup;
use codex_runtime::thread_delete::local::ThreadStoreError;
use codex_runtime::thread_delete::request::invalid_thread_id;
use codex_runtime::thread_delete::request::merge_subtree;
use codex_runtime::thread_delete::request::thread_store_delete_error;
use codex_runtime::thread_delete::request::DeleteRequestError;
use codex_runtime::thread_delete::request::DeleteStage;
use codex_runtime::thread_delete::request::LiveSubtree;
use codex_runtime::thread_delete::request::ThreadDeletion;

const MISSING: &str = "00000000-0000-0000-0000-000000000303";

fn ids(names: &[&str]) -> Vec<String> {
    names.iter().map(|name| name.to_string()).collect()
}

#[test]
fn a_missing_thread_is_reported() {
    let mut deletion: LocalDeletion<&str> =
        LocalDeletion::located(MISSING, RolloutLookup::Missing, RolloutLookup::Missing, false);
    assert_eq!(deletion.rows_deleted(None), Ok(()));
    assert_eq!(deletion.next_path(), None);
    assert_eq!(
        deletion.finish(),
        Err(ThreadStoreError::ThreadNotFound { thread_id: MISSING.to_string() })
    );
    assert_eq!(
        thread_not_found_text(MISSING),
        "thread 00000000-0000-0000-0000-000000000303 not found"
    );
}

#[test]
fn the_files_that_are_found_are_deleted() {
    let mut deletion = LocalDeletion::located(
        "t",
        RolloutLookup::Found("active"),
        RolloutLookup::Found("archived"),
        false,
    );
    assert_eq!(deletion.rows_deleted(None), Ok(()));
    assert_eq!(deletion.next_path(), Some("active"));
    assert_eq!(deletion.file_deleted(Ok(false)), Ok(()));
    assert_eq!(deletion.next_path(), Some("archived"));
    assert_eq!(deletion.file_deleted(Ok(true)), Ok(()));
    assert_eq!(deletion.next_path(), None);
    assert_eq!(deletion.finish(), Ok(()));

    let mut same =
        LocalDeletion::located("t", RolloutLookup::Found(1), RolloutLookup::Found(1), true);
    assert_eq!(same.rows_deleted(None), Ok(()));
    assert_eq!(same.next_path(), Some(1));
    assert_eq!(same.next_path(), None);
    assert_eq!(same.finish(), Err(ThreadStoreError::ThreadNotFound { thread_id: "t".to_string() }));
}

#[test]
fn failed_searches_are_reported_where_nothing_is_deleted() {
    let located = || {
        LocalDeletion::<&str>::located(
            "t",
            RolloutLookup::Failed("a".to_string()),
            RolloutLookup::Failed("b".to_string()),
            false,
        )
    };
    let mut deletion = located();
    assert_eq!(deletion.rows_deleted(Some(Ok(0))), Ok(()));
    assert_eq!(
        deletion.finish(),
        Err(ThreadStoreError::InvalidRequest {
            message: "failed to locate thread id t: a".to_string()
        })
    );
    let mut archived = LocalDeletion::<&str>::located(
        "t",
        RolloutLookup::Missing,
        RolloutLookup::Failed("b".to_string()),
        false,
    );
    assert_eq!(archived.rows_deleted(None), Ok(()));
    assert_eq!(
        archived.finish(),
        Err(ThreadStoreError::InvalidRequest {
            message: "failed to locate archived thread id t: b".to_string()
        })
    );
    let mut deletion = located();
    assert_eq!(deletion.rows_deleted(Some(Ok(2))), Ok(()));
    assert_eq!(deletion.finish(), Ok(()));
    let mut deletion = located();
    assert_eq!(
        deletion.rows_deleted(Some(Err("locked".to_string()))),
        Err(ThreadStoreError::Internal {
            message: "failed to delete thread metadata for t: locked".to_string()
        })
    );
}

#[test]
fn files_that_cannot_be_deleted_count_only_without_rows() {
    let error = || ThreadStoreError::Internal { message: "no".to_string() };
    let located =
        || LocalDeletion::located("t", RolloutLookup::Found("a"), RolloutLookup::Missing, false);
    let mut with_rows = located();
    assert_eq!(with_rows.rows_deleted(Some(Ok(1))), Ok(()));
    assert_eq!(with_rows.next_path(), Some("a"));
    assert_eq!(with_rows.file_deleted(Err(error())), Ok(()));
    assert_eq!(with_rows.finish(), Ok(()));
    let mut without_rows = located();
    assert_eq!(without_rows.rows_deleted(Some(Ok(0))), Ok(()));
    assert_eq!(without_rows.next_path(), Some("a"));
    assert_eq!(without_rows.file_deleted(Err(error())), Err(error()));

    assert_eq!(delete_rollout_file("/x", FileRemoval::Removed), Ok(true));
    assert_eq!(delete_rollout_file("/x", FileRemoval::NotFound), Ok(false));
    assert_eq!(
        delete_rollout_file("/x", FileRemoval::Failed("busy".to_string())),
        Err(ThreadStoreError::Internal {
            message: "failed to delete rollout file `/x`: busy".to_string()
        })
    );
}

#[test]
fn descendants_are_deleted_from_the_last_to_the_first() {
    let mut deletion = ThreadDeletion::new("parent".to_string());
    assert_eq!(deletion.stored_listed(Ok(ids(&["parent", "child", "grandchild"]))), Ok(()));
    assert_eq!(deletion.live_listed(LiveSubtree::NotFound), Ok(()));
    assert_eq!(deletion.root_checked(false, Ok(())), Ok(()));
    assert_eq!(deletion.stage(), DeleteStage::DeletingRoot);
    assert_eq!(deletion.root_deleted(Ok(())), Ok(()));
    assert_eq!(deletion.next_descendant(), Some(&"grandchild".to_string()));
    deletion.descendant_deleted(true);
    assert_eq!(deletion.next_descendant(), Some(&"child".to_string()));
    deletion.descendant_deleted(true);
    assert_eq!(deletion.next_descendant(), None);
    assert_eq!(deletion.finish(), ids(&["parent", "grandchild", "child"]));
}

#[test]
fn descendants_that_cannot_be_deleted_are_passed_over() {
    let mut deletion = ThreadDeletion::new("parent".to_string());
    assert_eq!(deletion.stored_listed(Ok(ids(&["parent", "child"]))), Ok(()));
    assert_eq!(
        deletion.live_listed(LiveSubtree::Found(ids(&["child", "live", "live"]))),
        Ok(())
    );
    assert_eq!(deletion.root_checked(false, Ok(())), Ok(()));
    assert_eq!(deletion.root_deleted(Ok(())), Ok(()));
    assert_eq!(deletion.next_descendant(), Some(&"live".to_string()));
    deletion.descendant_deleted(false);
    assert_eq!(deletion.next_descendant(), Some(&"child".to_string()));
    deletion.descendant_deleted(true);
    assert_eq!(deletion.finish(), ids(&["parent", "child"]));
    assert_eq!(
        merge_subtree(ids(&["a", "b"]), &ids(&["b", "c", "a", "c"])),
        ids(&["a", "b", "c"])
    );
}

#[test]
fn a_request_fails_before_anything_is_deleted() {
    let internal = DeleteRequestError::Internal("list".to_string());
    let mut deletion = ThreadDeletion::new("p".to_string());
    assert_eq!(deletion.stored_listed(Err(internal.clone())), Err(internal.clone()));
    assert_eq!(deletion.stage(), DeleteStage::Failed);

    let mut deletion = ThreadDeletion::new("p".to_string());
    assert_eq!(deletion.stored_listed(Ok(ids(&["p"]))), Ok(()));
    assert_eq!(deletion.live_listed(LiveSubtree::Failed(internal.clone())), Err(internal));

    let mut deletion = ThreadDeletion::new("p".to_string());
    assert_eq!(deletion.stored_listed(Ok(ids(&[]))), Ok(()));
    assert_eq!(deletion.live_listed(LiveSubtree::NotFound), Ok(()));
    assert_eq!(
        deletion.root_checked(true, Ok(())),
        Err(DeleteRequestError::InvalidRequest(
            "thread is not persisted and cannot be deleted: p".to_string()
        ))
    );
    assert_eq!(
        invalid_thread_id("bad"),
        DeleteRequestError::InvalidRequest("invalid thread id: bad".to_string())
    );
}

#[test]
fn store_errors_become_answers() {
    assert_eq!(
        thread_store_delete_error(ThreadStoreError::ThreadNotFound { thread_id: "t".to_string() }, ""),
        DeleteRequestError::InvalidRequest("thread not found: t".to_string())
    );
    assert_eq!(
        thread_store_delete_error(ThreadStoreError::InvalidRequest { message: "m".to_string() }, ""),
        DeleteRequestError::InvalidRequest("m".to_string())
    );
    assert_eq!(
        thread_store_delete_error(ThreadStoreError::Unsupported { operation: "o".to_string() }, ""),
        DeleteRequestError::Unsupported("o".to_string())
    );
    assert_eq!(
        thread_store_delete_error(ThreadStoreError::Other, "boom"),
        DeleteRequestError::Internal("failed to delete thread: boom".to_string())
    );
}

#[test]
fn appends_are_committed_or_discarded() {
    let empty: PreparedLiveHistoryAppend<u32> = PreparedLiveHistoryAppend::default();
    assert!(matches!(PendingAppend::start(0, empty), AppendStep::Nothing));
    let prepared = || PreparedLiveHistoryAppend {
        thread_history_mutations: vec![7u32],
        writer_commit_id: None,
    };
    let pending = match PendingAppend::start(0, prepared()) {
        AppendStep::Append(pending) => pending,
        AppendStep::Nothing => panic!("there is a change to append"),
    };
    assert_eq!(pending.prepared().thread_history_mutations, vec![7]);
    assert!(matches!(pending.settle::<&str>(Ok(())), AppendSettled::Commit(_)));
    match PendingAppend::start(1, prepared()) {
        AppendStep::Append(pending) => {
            assert!(matches!(pending.settle(Err("full")), AppendSettled::Discard(_, "full")));
        }
        AppendStep::Nothing => panic!("there is an item to append"),
    }
    let with_id: PreparedLiveHistoryAppend<u32> = PreparedLiveHistoryAppend {
        thread_history_mutations: vec![],
        writer_commit_id: Some("c".to_string()),
    };
    assert!(matches!(PendingAppend::start(0, with_id), AppendStep::Append(_)));
    assert_eq!(settle_metadata_update::<_, &str>(5, Ok(())), Ok(5));
    assert_eq!(settle_metadata_update(5, Err("no")), Err("no"));
}

#[test]
fn the_default_recorder_records_nothing() {
    let recorder = noop_live_history_recorder();
    let initialized: Result<(), &str> =
        LiveHistoryRecorder::<u8, u8, &str>::initialize_from_history(&recorder, &[1]);
    assert_eq!(initialized, Ok(()));
    let prepared: PreparedLiveHistoryAppend<u8> =
        LiveHistoryRecorder::<u8, u8, &str>::prepare_append(&recorder, &[1]).expect("prepared");
    assert!(prepared.thread_history_mutations.is_empty());
    assert_eq!(prepared.writer_commit_id, None);
}

#[test]
fn a_failed_resumption_leaves_nothing_open() {
    let mut flow: ResumeFlow<Vec<u8>> = ResumeFlow::new(None);
    assert!(matches!(
        flow.advance(ResumeEvent::Opened(Err("closed"))),
        ResumeStep::Fail { discard: false, error: "closed" }
    ));
    let mut flow: ResumeFlow<Vec<u8>> = ResumeFlow::new(None);
    assert!(matches!(flow.advance(ResumeEvent::<_, &str>::Opened(Ok(()))), ResumeStep::LoadHistory));
    assert!(matches!(
        flow.advance(ResumeEvent::Loaded(Err("lost"))),
        ResumeStep::Fail { discard: true, error: "lost" }
    ));
    let mut flow = ResumeFlow::new(None);
    let _ = flow.advance(ResumeEvent::<_, &str>::Opened(Ok(())));
    assert!(matches!(
        flow.advance(ResumeEvent::<_, &str>::Loaded(Ok(vec![1]))),
        ResumeStep::InitializeRecorder
    ));
    assert_eq!(flow.history(), Some(&vec![1]));
    assert!(matches!(
        flow.advance(ResumeEvent::Initialized(Err("odd"))),
        ResumeStep::Fail { discard: true, error: "odd" }
    ));
    let mut flow = ResumeFlow::new(Some(vec![2]));
    assert!(matches!(
        flow.advance(ResumeEvent::<_, &str>::Opened(Ok(()))),
        ResumeStep::InitializeRecorder
    ));
    assert!(matches!(flow.advance(ResumeEvent::<_, &str>::Initialized(Ok(()))), ResumeStep::Ready));
    assert_eq!(flow.stage(), ResumeStage::Ready);
}

#[test]
fn pending_metadata_is_applied_in_its_place() {
    let steps = |operation: LiveOperation| {
        [operation_step(operation, 0), operation_step(operation, 1), operation_step(operation, 2)]
    };
    let any = Some(StoreStep::ApplyPendingMetadata { existing_history_only: false });
    let existing = Some(StoreStep::ApplyPendingMetadata { existing_history_only: true });
    assert_eq!(steps(LiveOperation::Persist), [Some(StoreStep::PersistThread), any, None]);
    assert_eq!(steps(LiveOperation::Flush), [Some(StoreStep::FlushThread), existing, None]);
    assert_eq!(steps(LiveOperation::Shutdown), [existing, Some(StoreStep::ShutdownThread), None]);
    assert_eq!(
        steps(LiveOperation::UpdateMetadata),
        [any, Some(StoreStep::UpdateMetadata), None]
    );
}

#[test]
fn a_thread_is_discarded_unless_it_is_handed_over() {
    let mut guard = LiveThreadInitGuard::new(Some("thread"));
    assert_eq!(guard.as_ref(), Some(&"thread"));
    assert_eq!(guard.discard(), Some("thread"));
    assert_eq!(guard.discard(), None);
    let mut guard = LiveThreadInitGuard::new(Some("thread"));
    guard.commit();
    assert_eq!(guard.discard(), None);
}

#[test]
fn a_thread_is_taken_out_once_and_never_after_it_was_handed_over() {
    let mut guard = LiveThreadInitGuard::new(Some("thread"));
    assert_eq!(guard.discard(), Some("thread"));
    assert_eq!(guard.discard(), None);
    guard.commit();
    assert_eq!(guard.discard(), None);
    let mut guard = LiveThreadInitGuard::new(Some("thread"));
    guard.commit();
    assert_eq!(guard.discard(), None);
}
