use claude_code_sync::pull::VerbosityLevel;
use claude_code_sync::sync::{sync_bidirectional, SyncAction, SyncPhase, SyncRequest, SyncRun};

fn begin() -> SyncRun {
    let (run, action) = sync_bidirectional(SyncRequest {
        commit_message: Some("words".to_string()),
        branch: Some("dev".to_string()),
        exclude_attachments: true,
        interactive: true,
        verbosity: VerbosityLevel::Verbose,
    });
    match action {
        SyncAction::Pull(p) => {
            assert!(p.fetch_remote && p.interactive);
            assert_eq!(p.branch.as_deref(), Some("dev"));
            assert_eq!(p.verbosity, VerbosityLevel::Verbose);
        },
        _ => panic!("no pull"),
    }
    run
}

#[test]
fn push_follows_the_pull() {
    let (run, action) = begin().step(true);
    match action {
        SyncAction::Push(p) => {
            assert!(p.push_remote && p.interactive && p.exclude_attachments);
            assert_eq!(p.branch.as_deref(), Some("dev"));
            assert_eq!(p.commit_message.as_deref(), Some("words"));
            assert_eq!(p.verbosity, VerbosityLevel::Verbose);
        },
        _ => panic!("no push"),
    }
    let (run, action) = run.step(true);
    assert!(matches!(action, SyncAction::Finish));
    assert_eq!(run.phase, SyncPhase::Over);
    assert!(matches!(run.step(true).1, SyncAction::Reject));
}

#[test]
fn failed_pull_ends_the_sync() {
    let (run, action) = begin().step(false);
    assert!(matches!(action, SyncAction::Stop));
    assert_eq!(run.phase, SyncPhase::Over);
    assert!(matches!(run.step(true).1, SyncAction::Reject));
}

#[test]
fn failed_push_ends_the_sync() {
    let (run, _) = begin().step(true);
    let (run, action) = run.step(false);
    assert!(matches!(action, SyncAction::Stop));
    assert_eq!(run.phase, SyncPhase::Over);
}
