//! Lifecycle of the background-task supervisor against a real
//! concurrency runtime.

use std::time::Duration;

use cerberus::task::BackgroundTask;
use tokio_util::sync::CancellationToken;

#[test]
fn finish_is_not_idempotent() {
    let rt = tokio::runtime::Runtime::new().unwrap();
    rt.block_on(async {
        let token = CancellationToken::new();
        let guard = token.clone().drop_guard();
        let task_token = token.clone();
        let handle = tokio::spawn(async move {
            task_token.cancelled().await;
            42u32
        });
        let mut task = BackgroundTask::new(token, guard, handle);

        let first = task.prepare_finish();
        let handle = first.expect("first finish surrenders the handle");
        let result = handle.await.expect("task completes after cancellation");
        assert_eq!(result, 42);

        // The handle is consumed: a second finish fails.
        let second = task.prepare_finish();
        assert!(second.is_none());
    });
}

#[test]
fn dropping_the_supervisor_cancels_the_task() {
    let rt = tokio::runtime::Runtime::new().unwrap();
    rt.block_on(async {
        let token = CancellationToken::new();
        let observer = token.clone();
        let guard = token.clone().drop_guard();
        let task_token = token.clone();
        let handle = tokio::spawn(async move {
            task_token.cancelled().await;
        });
        let task = BackgroundTask::new(token, guard, handle);

        assert!(!observer.is_cancelled());
        drop(task);
        // The armed guard fires on drop: the task observes cancellation
        // within bounded time.
        let seen = tokio::time::timeout(Duration::from_secs(5), observer.cancelled()).await;
        assert!(seen.is_ok());
        assert!(observer.is_cancelled());
    });
}

#[test]
fn finish_signals_cancellation_before_waiting() {
    let rt = tokio::runtime::Runtime::new().unwrap();
    rt.block_on(async {
        let token = CancellationToken::new();
        let observer = token.clone();
        let guard = token.clone().drop_guard();
        let task_token = token.clone();
        let handle = tokio::spawn(async move {
            task_token.cancelled().await;
            "done"
        });
        let mut task = BackgroundTask::new(token, guard, handle);

        let handle = task.prepare_finish().unwrap();
        assert!(observer.is_cancelled());
        assert_eq!(handle.await.unwrap(), "done");
    });
}
