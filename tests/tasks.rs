use resource_core::download_manager::{
    DownloadManager, DownloadProgress, DownloadStatus, TaskError, TaskEvent,
};
use tokio_util::sync::CancellationToken;

fn progress(task_id: &str, status: DownloadStatus, current: usize, total: usize) -> DownloadProgress {
    DownloadProgress {
        task_id: task_id.to_string(),
        status,
        current,
        total,
        current_file: None,
        speed: 0,
        eta: None,
        error: None,
    }
}

#[test]
fn new_task_is_pending_with_zero_progress() {
    let mut m = DownloadManager::new();
    let id = m.create_task("x".to_string(), "sounds".to_string(), "/out".to_string(), 1000);
    let t = m.get_task(&id).unwrap();
    assert_eq!(t.status, DownloadStatus::Pending);
    assert_eq!(t.progress.status, DownloadStatus::Pending);
    assert_eq!(t.progress.current, 0);
    assert_eq!(t.progress.total, 0);
    assert_eq!(t.name, "x");
    assert_eq!(t.task_type, "sounds");
    assert_eq!(t.output_dir, "/out");
    assert_eq!((t.created_at, t.updated_at), (1000, 1000));
    assert_eq!(t.progress.task_id, id);
    let events = m.take_events();
    assert_eq!(events.len(), 1);
    assert!(matches!(&events[0], TaskEvent::Created(e) if *e == id));
    assert!(m.take_events().is_empty());
}

#[test]
fn created_ids_are_distinct() {
    let mut m = DownloadManager::new();
    let a = m.create_task("a".to_string(), "t".to_string(), "/o".to_string(), 1);
    let b = m.create_task("b".to_string(), "t".to_string(), "/o".to_string(), 1);
    assert_ne!(a, b);
    assert_eq!(m.get_all_tasks().len(), 2);
}

#[test]
fn completed_progress_sets_status() {
    let mut m = DownloadManager::new();
    let id = m.create_task("x".to_string(), "sounds".to_string(), "/dir".to_string(), 5);
    m.update_progress(&id, progress(&id, DownloadStatus::Completed, 100, 100), 9);
    let t = m.get_task(&id).unwrap();
    assert_eq!(t.status, DownloadStatus::Completed);
    assert_eq!(t.progress.current, 100);
    assert_eq!(t.progress.total, 100);
    assert_eq!((t.created_at, t.updated_at), (5, 9));
}

#[test]
fn last_progress_report_wins() {
    let mut m = DownloadManager::new();
    let id = m.create_task("x".to_string(), "jar".to_string(), "/dir".to_string(), 0);
    m.update_progress(&id, progress(&id, DownloadStatus::Downloading, 80, 100), 1);
    m.update_progress(&id, progress(&id, DownloadStatus::Downloading, 20, 100), 2);
    let t = m.get_task(&id).unwrap();
    assert_eq!(t.progress.current, 20);
    assert_eq!(t.status, DownloadStatus::Downloading);
    let events = m.take_events();
    assert_eq!(events.len(), 3);
    assert!(matches!(&events[2], TaskEvent::Progress(p) if p.current == 20));
}

#[test]
fn progress_for_unknown_task_changes_nothing() {
    let mut m = DownloadManager::new();
    m.update_progress("missing", progress("missing", DownloadStatus::Failed, 1, 2), 3);
    assert!(m.get_task("missing").is_none());
    assert!(m.take_events().is_empty());
}

#[test]
fn clear_completed_removes_terminal_tasks() {
    let mut m = DownloadManager::new();
    let done = m.create_task("done".to_string(), "t".to_string(), "/o".to_string(), 0);
    let waiting = m.create_task("wait".to_string(), "t".to_string(), "/o".to_string(), 0);
    m.update_progress(&done, progress(&done, DownloadStatus::Completed, 1, 1), 1);
    assert_eq!(m.clear_completed(), 1);
    assert!(m.get_task(&done).is_none());
    assert!(m.get_task(&waiting).is_some());
    assert_eq!(m.clear_completed(), 0);
}

#[test]
fn clear_completed_keeps_order_of_rest() {
    let mut m = DownloadManager::new();
    let mut ids = Vec::new();
    for (i, status) in [
        DownloadStatus::Failed,
        DownloadStatus::Downloading,
        DownloadStatus::Cancelled,
        DownloadStatus::Paused,
        DownloadStatus::Completed,
    ]
    .into_iter()
    .enumerate()
    {
        let id = m.create_task(format!("t{}", i), "t".to_string(), "/o".to_string(), 0);
        m.update_progress(&id, progress(&id, status, 0, 0), 0);
        ids.push(id);
    }
    assert_eq!(m.clear_completed(), 3);
    let rest: Vec<String> = m.get_all_tasks().into_iter().map(|t| t.id).collect();
    assert_eq!(rest, vec![ids[1].clone(), ids[3].clone()]);
}

#[test]
fn cancel_marks_task_and_signals_token() {
    let mut m = DownloadManager::new();
    let id = m.create_task("x".to_string(), "t".to_string(), "/o".to_string(), 0);
    let token = CancellationToken::new();
    m.register_cancel_token(id.clone(), token.clone());
    assert!(m.cancel_task(&id, 7).is_ok());
    assert!(token.is_cancelled());
    assert!(m.get_cancel_token(&id).is_none());
    let t = m.get_task(&id).unwrap();
    assert_eq!(t.status, DownloadStatus::Cancelled);
    assert_eq!(t.progress.status, DownloadStatus::Cancelled);
    assert_eq!(t.updated_at, 7);
    let events = m.take_events();
    assert!(matches!(events.last(), Some(TaskEvent::Cancelled(e)) if *e == id));
}

#[test]
fn unknown_task_is_not_found() {
    let mut m = DownloadManager::new();
    match m.cancel_task("nope", 0) {
        Err(TaskError::TaskNotFound(id)) => assert_eq!(id, "nope"),
        Ok(()) => panic!("cancelling an unknown task must fail"),
    }
    match m.delete_task("nope") {
        Err(TaskError::TaskNotFound(id)) => assert_eq!(id, "nope"),
        Ok(()) => panic!("deleting an unknown task must fail"),
    }
}

#[test]
fn cancel_of_unknown_task_still_signals_token() {
    let mut m = DownloadManager::new();
    let token = CancellationToken::new();
    m.register_cancel_token("orphan".to_string(), token.clone());
    assert!(m.cancel_task("orphan", 0).is_err());
    assert!(token.is_cancelled());
    assert!(m.get_cancel_token("orphan").is_none());
}

#[test]
fn delete_removes_task_and_token() {
    let mut m = DownloadManager::new();
    let id = m.create_task("x".to_string(), "t".to_string(), "/o".to_string(), 0);
    let token = CancellationToken::new();
    m.register_cancel_token(id.clone(), token.clone());
    assert!(m.delete_task(&id).is_ok());
    assert!(token.is_cancelled());
    assert!(m.get_task(&id).is_none());
    assert!(m.get_cancel_token(&id).is_none());
    assert!(m.delete_task(&id).is_err());
    let events = m.take_events();
    assert!(matches!(events.last(), Some(TaskEvent::Deleted(e)) if *e == id));
}

#[test]
fn tokens_are_independent_of_tasks() {
    let mut m = DownloadManager::new();
    let first = CancellationToken::new();
    let second = CancellationToken::new();
    m.register_cancel_token("k".to_string(), first.clone());
    m.register_cancel_token("k".to_string(), second.clone());
    let handle = m.get_cancel_token("k").unwrap();
    handle.cancel();
    assert!(second.is_cancelled());
    assert!(!first.is_cancelled());
    m.remove_cancel_token("k");
    assert!(m.get_cancel_token("k").is_none());
    assert!(m.get_all_tasks().is_empty());
}

#[test]
fn insert_task_replaces_same_id() {
    let mut m = DownloadManager::new();
    m.insert_task("id-1".to_string(), "a".to_string(), "t".to_string(), "/o".to_string(), 1);
    m.update_progress("id-1", progress("id-1", DownloadStatus::Downloading, 3, 9), 2);
    m.insert_task("id-1".to_string(), "b".to_string(), "t".to_string(), "/o".to_string(), 4);
    let all = m.get_all_tasks();
    assert_eq!(all.len(), 1);
    assert_eq!(all[0].name, "b");
    assert_eq!(all[0].status, DownloadStatus::Pending);
}
