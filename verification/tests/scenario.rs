//! Whole-invocation scenarios: locator, plan, wait and argument
//! handling in concert.
use git_wait::invoke::{plan_invocation, rewrite_args, LaunchPlan};
use git_wait::locate::{traverse_to_git_dir, FsModel};
use git_wait::wait::{wait_for_clear, RecvOutcome, SubscribeOutcome, WaitError, WatchEvent, WatchEventKind};

fn components(parts: &[&str]) -> Vec<String> {
    parts.iter().map(|p| p.to_string()).collect()
}

#[test]
fn no_lock_hands_off_immediately() {
    // `/repo/.git` exists and holds no `index.lock`; running from
    // `/repo/sub/dir` hands off at once with the rewritten arguments.
    let mut fs = FsModel::new();
    fs.add_path(components(&["repo", ".git"]));
    let mut dir = components(&["repo", "sub", "dir"]);
    let found = traverse_to_git_dir(&mut dir, &fs);
    assert!(found);
    assert_eq!(dir, components(&["repo", ".git"]));

    let lock_exists = false;
    let plan = plan_invocation(found, None, lock_exists);
    assert_eq!(plan, Ok(LaunchPlan::HandOff));

    let mut args = components(&["git-wait", "status", "--short"]);
    rewrite_args(&mut args);
    assert_eq!(args, components(&["git", "status", "--short"]));
}

#[test]
fn lock_cleared_while_waiting_hands_off() {
    // The lock exists when the wrapper starts; an external actor
    // removes it while the wrapper waits without a timeout: the wait
    // ends successfully once the removal event arrives.
    let mut fs = FsModel::new();
    fs.add_path(components(&["repo", ".git"]));
    let mut dir = components(&["repo"]);
    let found = traverse_to_git_dir(&mut dir, &fs);
    assert!(found);

    let plan = plan_invocation(found, None, true);
    assert_eq!(plan, Ok(LaunchPlan::WaitThenHandOff { timeout_ms: None }));

    let mut lock = dir.clone();
    lock.push("index.lock".to_string());
    let trace: Vec<RecvOutcome> = vec![RecvOutcome::Received(WatchEvent {
        kind: WatchEventKind::FileRemoved,
        path: lock.clone(),
    })];
    assert_eq!(wait_for_clear(&lock, SubscribeOutcome::Established, &trace), Some(Ok(())));
}

#[test]
fn short_timeout_fails_before_removal() {
    // Same start, but a 10 ms timeout elapses before the removal is
    // observed: the wait fails with the timeout error and nothing is
    // handed off.
    let plan = plan_invocation(true, Some("10"), true);
    assert_eq!(plan, Ok(LaunchPlan::WaitThenHandOff { timeout_ms: Some(10) }));

    let lock = components(&["repo", ".git", "index.lock"]);
    let trace: Vec<RecvOutcome> = vec![RecvOutcome::TimedOut];
    assert_eq!(
        wait_for_clear(&lock, SubscribeOutcome::Established, &trace),
        Some(Err(WaitError::TimedOut))
    );
}
