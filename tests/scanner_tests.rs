use flashfind::config::{Config, Theme};
use flashfind::error::FlashFindError;
use flashfind::index::FileIndex;
use flashfind::indexer::{insert_batch, state_after_save, state_after_scan, IndexResult, IndexState};
use flashfind::watcher::{action_for, apply_removals, ChangeAction, ChangeKind};

#[test]
fn test_default_config() {
    let config = Config::default();
    assert_eq!(config.auto_save_interval, 300);
    assert_eq!(config.max_index_size, 10_000_000);
    assert_eq!(config.theme, Theme::Dark);
    assert!(!config.show_hidden_files);
}

#[test]
fn autosave_schedule() {
    let mut config = Config::default();
    assert!(!config.autosave_due(299));
    assert!(config.autosave_due(300));
    config.auto_save_interval = 0;
    assert!(!config.autosave_due(100_000));
}

#[test]
fn test_error_messages() {
    let err = FlashFindError::IndexFull(1000000);
    assert!(err.user_message().contains("1000000"));
    assert!(err.is_recoverable() == false);
}

#[test]
fn test_recoverable_errors() {
    assert!(FlashFindError::Cancelled.is_recoverable());
    assert!(FlashFindError::Timeout(30).is_recoverable());
    assert!(!FlashFindError::OutOfMemory.is_recoverable());
}

#[test]
fn error_texts() {
    assert_eq!(
        FlashFindError::IndexFull(10).message(),
        "Index has reached maximum capacity of 10 files"
    );
    assert_eq!(
        FlashFindError::VersionMismatch { found: 7, expected: 1 }.message(),
        "Unsupported index version: 7, expected: 1"
    );
    assert_eq!(FlashFindError::Timeout(30).message(), "Operation timed out after 30 seconds");
    assert_eq!(
        FlashFindError::InvalidPath("/".to_string()).user_message(),
        "Invalid path: /"
    );
    assert_eq!(
        FlashFindError::PermissionDenied("/root".to_string()).user_message(),
        "Cannot access '/root'. Permission denied."
    );
    assert_eq!(
        FlashFindError::CorruptedIndex.user_message(),
        "Index file is corrupted. It will be rebuilt."
    );
    assert!(FlashFindError::WatchError { path: "/x".to_string() }.is_recoverable());
}

#[test]
fn batch_insert_counts_and_skips() {
    let mut index = FileIndex::new();
    let batch = vec![
        "/a/one.txt".to_string(),
        "/".to_string(),
        "/a/two.txt".to_string(),
        "/a/one.txt".to_string(),
    ];
    assert_eq!(insert_batch(&mut index, &batch), Ok(2));
    assert_eq!(index.len(), 2);
    assert_eq!(index.stats(), (2, 1, 0));
}

#[test]
fn scan_and_save_states() {
    let ok: Result<IndexResult, FlashFindError> = Ok(IndexResult { files_added: 3, duration_ms: 5 });
    assert!(matches!(state_after_scan(&ok), IndexState::Saving));
    let failed: Result<IndexResult, FlashFindError> = Err(FlashFindError::Cancelled);
    match state_after_scan(&failed) {
        IndexState::Error { message } => assert_eq!(message, "Operation cancelled by user"),
        other => panic!("unexpected state {:?}", other),
    }
    assert!(matches!(state_after_save(&Ok(())), IndexState::Idle));
    match state_after_save(&Err(FlashFindError::FileWriteError { path: "/i.bin".to_string() })) {
        IndexState::Error { message } => assert_eq!(message, "Failed to write file: /i.bin"),
        other => panic!("unexpected state {:?}", other),
    }
}

#[test]
fn change_actions() {
    assert_eq!(action_for(ChangeKind::Create), ChangeAction::Index);
    assert_eq!(action_for(ChangeKind::Modify), ChangeAction::Index);
    assert_eq!(action_for(ChangeKind::Remove), ChangeAction::Unindex);
    assert_eq!(action_for(ChangeKind::Other), ChangeAction::Ignore);
}

#[test]
fn removal_events() {
    let mut index = FileIndex::new();
    index.insert("/a/one.txt".to_string()).unwrap();
    index.insert("/a/two.txt".to_string()).unwrap();
    let gone = vec!["/a/one.txt".to_string(), "/a/none.txt".to_string()];
    assert_eq!(apply_removals(&mut index, &gone), 1);
    assert_eq!(index.len(), 2);
    assert_eq!(index.insert("/a/two.txt".to_string()), Ok(false));
    assert_eq!(index.insert("/a/one.txt".to_string()), Ok(true));
}
