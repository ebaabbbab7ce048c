use claude_code_sync::filter::{Features, FilterConfig};
use claude_code_sync::pull::VerbosityLevel;
use claude_code_sync::pull_plan::{place_in_directory, place_in_project, remote_project_name, Placement};
use claude_code_sync::path::relative_to;
use claude_code_sync::push::{push_history, PushAction, PushEvent, PushPhase, PushRequest, PushRun, PushSetup};
use claude_code_sync::push_plan::{
    count_pushed, count_skipped, default_message_at, list_local_sessions, location_label,
    path_in_repository, place_session, short_hash, status_label, summarize_pushed, PushPlacement,
};
use claude_code_sync::session::{ConversationSession, SyncOperation};
use std::time::{Duration, SystemTime, UNIX_EPOCH};

const LOCAL: &str = "/home/u/history/projects";

fn session(id: &str, hash: &str, project: Option<&str>) -> ConversationSession {
    ConversationSession {
        session_id: id.to_string(),
        file_path: format!("{LOCAL}/-home-u-x/{id}.jsonl"),
        content_hash: hash.to_string(),
        latest_timestamp: None,
        message_count: 3,
        project_name: project.map(|p| p.to_string()),
    }
}

fn plain() -> Features {
    Features { use_project_name_only: false, sync_settings: false, enable_lfs: false }
}

fn request(message: Option<&str>, push_remote: bool, interactive: bool) -> PushRequest {
    PushRequest {
        commit_message: message.map(|m| m.to_string()),
        push_remote,
        branch: Some("dev".to_string()),
        exclude_attachments: false,
        interactive,
        verbosity: VerbosityLevel::Normal,
    }
}

fn setup(has_remote: bool, terminal: bool, features: Features) -> PushSetup {
    PushSetup {
        has_remote,
        filter: FilterConfig::default(),
        features,
        terminal,
        repo_path: "/repo".to_string(),
        sync_subdirectory: "projects".to_string(),
    }
}

fn begin(request: PushRequest, setup: PushSetup) -> (PushRun, PushAction) {
    let (run, action) = push_history(request, setup);
    assert!(matches!(action, PushAction::LocateProjects));
    run.step(PushEvent::ProjectsLocated(LOCAL.to_string()))
}

fn to_summaries(
    request: PushRequest,
    setup: PushSetup,
    sessions: Vec<ConversationSession>,
    existing: Vec<ConversationSession>,
) -> PushRun {
    let n = sessions.len();
    let (run, action) = begin(request, setup);
    assert!(matches!(action, PushAction::Discover { .. }));
    let (run, action) = run.step(PushEvent::Discovered(sessions));
    let run = match action {
        PushAction::FindCollisions => run.step(PushEvent::CollisionsShown).0,
        _ => run,
    };
    let (mut run, mut action) = run.step(PushEvent::ExistingFound(existing));
    for i in 0..n {
        assert!(matches!(&action, PushAction::WriteSession { session, .. } | PushAction::SkipSession { session } if *session == i));
        let next = run.step(PushEvent::SessionDone);
        run = next.0;
        action = next.1;
    }
    assert!(matches!(action, PushAction::CheckSummaries));
    run
}

#[test]
fn lfs_comes_first() {
    let features = Features { enable_lfs: true, ..plain() };
    let (run, action) = push_history(request(None, true, false), setup(true, false, features));
    assert!(matches!(action, PushAction::SetUpLfs));
    let (run, action) = run.step(PushEvent::LfsReady);
    assert!(matches!(action, PushAction::LocateProjects));
    let (run, action) = run.step(PushEvent::ProjectsLocated(LOCAL.to_string()));
    assert!(matches!(action, PushAction::Discover { .. }));
    assert_eq!(run.branch(), "dev");
}

#[test]
fn branch_of_a_push() {
    let mut ask = request(None, true, false);
    ask.branch = None;
    let (run, action) = begin(ask, setup(true, false, plain()));
    assert!(matches!(action, PushAction::ReadBranch));
    let (run, action) = run.step(PushEvent::BranchRead(None));
    assert!(matches!(action, PushAction::Discover { .. }));
    assert_eq!(run.branch(), "main");
}

#[test]
fn attachments_are_excluded_on_request() {
    let mut ask = request(None, true, false);
    ask.exclude_attachments = true;
    let (run, action) = begin(ask, setup(true, false, plain()));
    assert!(matches!(action, PushAction::Discover { filter, local_dir } if filter.exclude_attachments && local_dir == LOCAL));
    let (run, action) = run.step(PushEvent::Discovered(vec![]));
    assert!(matches!(&action, PushAction::DiscoverExisting { filter, projects_dir }
        if filter.exclude_attachments && projects_dir == "/repo/projects"));
    assert_eq!(run.projects_dir(), "/repo/projects");
    assert!(run.filter().exclude_attachments);
}

#[test]
fn push_with_changes() {
    let sessions = vec![session("a", "1", None), session("b", "2", None), session("c", "1", None)];
    let existing = vec![session("a", "1", None), session("b", "1", None)];
    let (run, action) = begin(request(None, true, true), setup(true, false, plain()));
    assert!(matches!(action, PushAction::Discover { .. }));
    let (run, action) = run.step(PushEvent::Discovered(sessions));
    assert!(matches!(action, PushAction::DiscoverExisting { .. }));
    let (run, action) = run.step(PushEvent::ExistingFound(existing));
    assert!(matches!(&action, PushAction::WriteSession { session: 0, dest } if dest == "/repo/projects/-home-u-x/a.jsonl"));
    let (run, action) = run.step(PushEvent::SessionDone);
    assert!(matches!(action, PushAction::WriteSession { session: 1, .. }));
    let (run, action) = run.step(PushEvent::SessionDone);
    assert!(matches!(action, PushAction::WriteSession { session: 2, .. }));
    let (run, action) = run.step(PushEvent::SessionDone);
    assert!(matches!(action, PushAction::CheckSummaries));
    assert_eq!(run.summaries().len(), 3);
    assert_eq!((run.sessions().len(), run.existing().len()), (3, 2));
    assert_eq!(run.claude_dir(), LOCAL);
    assert_eq!(run.setup().repo_path, "/repo");
    assert_eq!(run.request().verbosity, VerbosityLevel::Normal);
    assert_eq!(run.summaries()[1].project_path, "-home-u-x/b.jsonl");
    let counts = run.counts();
    assert_eq!((counts.added, counts.modified, counts.unchanged, counts.skipped, counts.with_context), (1, 1, 1, 0, 3));
    let (run, action) = run.step(PushEvent::SummariesChecked(vec![true, true, true]));
    assert!(matches!(action, PushAction::Stage));
    let (run, action) = run.step(PushEvent::Staged(true));
    assert!(matches!(action, PushAction::ReadHead));
    let (run, action) = run.step(PushEvent::HeadRead { head: Some("0123456789".to_string()), stamp: "noon".to_string() });
    assert!(matches!(action, PushAction::Commit { message } if message == "Sync 3 sessions at noon"));
    let (run, action) = run.step(PushEvent::Committed);
    assert!(matches!(action, PushAction::PushRemote { branch } if branch == "dev"));
    let (run, action) = run.step(PushEvent::RemotePushed);
    assert!(matches!(action, PushAction::SaveRecord));
    assert_eq!(run.head().as_deref(), Some("0123456789"));
    match run.step(PushEvent::RecordSaved) {
        (run, PushAction::Finish { report }) => {
            assert!(report.committed);
            assert_eq!(report.counts, counts);
            assert_eq!(report.projects.len(), 1);
            assert_eq!(report.projects[0].project, "-home-u-x");
            assert_eq!(report.projects[0].lines.len(), 2);
            assert_eq!(run.phase(), PushPhase::Finished);
        },
        _ => panic!("the push does not end"),
    }
}

#[test]
fn push_without_changes_leaves_no_record() {
    let run = to_summaries(
        request(None, true, false),
        setup(true, false, plain()),
        vec![session("a", "1", None)],
        vec![session("a", "1", None)],
    );
    let (run, action) = run.step(PushEvent::SummariesChecked(vec![true]));
    assert!(matches!(action, PushAction::Stage));
    match run.step(PushEvent::Staged(false)) {
        (run, PushAction::Finish { report }) => {
            assert!(!report.committed);
            assert_eq!(report.counts.unchanged, 1);
            assert!(report.projects.is_empty());
            assert_eq!(run.phase(), PushPhase::Finished);
        },
        _ => panic!("the push does not end"),
    }
}

#[test]
fn message_asked_for_is_used() {
    let run = to_summaries(request(Some("my words"), false, false), setup(true, false, plain()), vec![], vec![]);
    let (run, _) = run.step(PushEvent::SummariesChecked(vec![]));
    let (run, _) = run.step(PushEvent::Staged(true));
    let (run, action) = run.step(PushEvent::HeadRead { head: None, stamp: "noon".to_string() });
    assert!(matches!(action, PushAction::Commit { message } if message == "my words"));
    assert!(run.head().is_none());
    let (_, action) = run.step(PushEvent::Committed);
    assert!(matches!(action, PushAction::SaveRecord));
}

#[test]
fn nothing_is_pushed_without_a_remote() {
    let run = to_summaries(request(None, true, false), setup(false, false, plain()), vec![], vec![]);
    let (run, _) = run.step(PushEvent::SummariesChecked(vec![]));
    let (run, _) = run.step(PushEvent::Staged(true));
    let (run, _) = run.step(PushEvent::HeadRead { head: None, stamp: "noon".to_string() });
    let (_, action) = run.step(PushEvent::Committed);
    assert!(matches!(action, PushAction::SaveRecord));
}

#[test]
fn settings_need_consent() {
    let features = Features { sync_settings: true, ..plain() };
    let run = to_summaries(request(None, true, true), setup(true, true, features), vec![], vec![]);
    let (run, action) = run.step(PushEvent::SummariesChecked(vec![]));
    assert!(matches!(action, PushAction::Confirm));
    let (run, action) = run.step(PushEvent::SettingsPushed);
    assert!(matches!(action, PushAction::Reject));
    let (run, action) = run.step(PushEvent::Confirmed(true));
    assert!(matches!(action, PushAction::PushSettings));
    let (_, action) = run.step(PushEvent::SettingsPushed);
    assert!(matches!(action, PushAction::Stage));
}

#[test]
fn declined_push_is_over() {
    let run = to_summaries(request(None, true, true), setup(true, true, plain()), vec![], vec![]);
    let (run, _) = run.step(PushEvent::SummariesChecked(vec![]));
    let (run, action) = run.step(PushEvent::Confirmed(false));
    assert!(matches!(action, PushAction::Cancel));
    let (_, action) = run.step(PushEvent::Staged(true));
    assert!(matches!(action, PushAction::Reject));
}

#[test]
fn sessions_without_a_project_are_skipped_by_project_name() {
    let features = Features { use_project_name_only: true, ..plain() };
    let sessions = vec![session("a", "1", Some("x")), session("b", "1", None), session("c", "1", Some("x"))];
    let (run, _) = begin(request(None, true, false), setup(true, false, features));
    let (run, action) = run.step(PushEvent::Discovered(sessions));
    assert!(matches!(action, PushAction::FindCollisions));
    let (run, action) = run.step(PushEvent::CollisionsShown);
    assert!(matches!(action, PushAction::DiscoverExisting { .. }));
    let (run, action) = run.step(PushEvent::ExistingFound(vec![]));
    assert!(matches!(&action, PushAction::WriteSession { session: 0, dest } if dest == "/repo/projects/x/a.jsonl"));
    let (run, action) = run.step(PushEvent::SessionDone);
    assert!(matches!(action, PushAction::SkipSession { session: 1 }));
    let (run, action) = run.step(PushEvent::SessionDone);
    assert!(matches!(&action, PushAction::WriteSession { session: 2, dest } if dest == "/repo/projects/x/c.jsonl"));
    let (run, _) = run.step(PushEvent::SessionDone);
    let counts = run.counts();
    assert_eq!((counts.added, counts.modified, counts.unchanged, counts.skipped, counts.with_context), (2, 0, 0, 1, 2));
    assert_eq!(counts.added + counts.modified + counts.unchanged + counts.skipped, 3);
    assert_eq!(run.summaries().len(), 2);
    assert_eq!(run.summaries()[1].session_id, "c");
    assert_eq!(run.summaries()[1].project_path, "x/c.jsonl");
}

#[test]
fn number_of_checked_summaries_must_fit() {
    let run = to_summaries(request(None, true, false), setup(true, false, plain()), vec![session("a", "1", None)], vec![]);
    let (run, action) = run.step(PushEvent::SummariesChecked(vec![]));
    assert!(matches!(action, PushAction::Reject));
    let (run, action) = run.step(PushEvent::SummariesChecked(vec![false]));
    assert!(matches!(action, PushAction::Stage));
    assert!(run.summaries().is_empty());
}

#[test]
fn paths_in_the_repository() {
    let local_dir = LOCAL.to_string();
    let s = session("a", "1", Some("x"));
    assert_eq!(path_in_repository(&s, &local_dir, false), Some("-home-u-x/a.jsonl".to_string()));
    assert_eq!(path_in_repository(&s, &local_dir, true), Some("x/a.jsonl".to_string()));
    assert_eq!(path_in_repository(&session("a", "1", None), &local_dir, true), None);
    let mut outside = session("a", "1", Some("x"));
    outside.file_path = "/elsewhere/a.jsonl".to_string();
    assert_eq!(path_in_repository(&outside, &local_dir, false), Some("/elsewhere/a.jsonl".to_string()));
    outside.file_path = "/elsewhere/..".to_string();
    assert_eq!(path_in_repository(&outside, &local_dir, true), None);
}

#[test]
fn pushed_sessions_come_back() {
    let local_dir = LOCAL.to_string();
    let repo = "/repo/projects".to_string();
    let s = session("a", "1", Some("x"));
    match place_session(&s, &vec![], &local_dir, &repo, false) {
        PushPlacement::Placed { dest, .. } => {
            let back = place_in_directory(relative_to(&dest, &repo), &local_dir, SyncOperation::Added);
            assert!(matches!(back, Placement::Placed { dest, .. } if dest == s.file_path));
        },
        PushPlacement::Skipped => panic!("skipped"),
    }
    match place_session(&s, &vec![], &local_dir, &repo, true) {
        PushPlacement::Placed { dest, .. } => {
            let found = relative_to(&dest, &repo);
            assert_eq!(remote_project_name(&found), "x");
            let project = Some(format!("{LOCAL}/-home-u-x"));
            let back = place_in_project(found, &project, &local_dir, SyncOperation::Added);
            assert!(matches!(back, Placement::Placed { dest, .. } if dest == s.file_path));
        },
        PushPlacement::Skipped => panic!("skipped"),
    }
}

#[test]
fn counts_and_summaries_of_places() {
    let placed = |path: &str, operation| PushPlacement::Placed {
        relative: path.to_string(),
        dest: format!("/r/{path}"),
        operation,
    };
    let all = vec![
        placed("1", SyncOperation::Added),
        PushPlacement::Skipped,
        placed("2", SyncOperation::Unchanged),
        placed("3", SyncOperation::Added),
    ];
    assert_eq!(count_pushed(&all, SyncOperation::Added), 2);
    assert_eq!(count_pushed(&all, SyncOperation::Modified), 0);
    assert_eq!(count_pushed(&all, SyncOperation::Unchanged), 1);
    assert_eq!(count_skipped(&all), 1);
    let sessions = vec![session("a", "1", None), session("b", "1", None), session("c", "1", None), session("d", "1", None)];
    let summaries = summarize_pushed(&all, &sessions);
    let paths: Vec<&str> = summaries.iter().map(|s| s.project_path.as_str()).collect();
    assert_eq!(paths, vec!["1", "2", "3"]);
    assert_eq!(summaries[2].session_id, "d");
    assert_eq!(summaries[2].message_count, 3);
}

#[test]
fn commit_messages() {
    assert_eq!(default_message_at(12, "2025-01-02 03:04:05 UTC"), "Sync 12 sessions at 2025-01-02 03:04:05 UTC");
    let (run, _) = begin(request(None, true, false), setup(true, false, plain()));
    assert_eq!(run.commit_message_at("noon"), "Sync 0 sessions at noon");
    let (run, _) = begin(request(Some("my words"), true, false), setup(true, false, plain()));
    assert_eq!(run.commit_message_at("noon"), "my words");
    let (head, stamp) = match PushEvent::head_read_at(Some("0123".to_string()), SystemTime::now()) {
        Some(PushEvent::HeadRead { head, stamp }) => (head, stamp),
        _ => panic!("another event"),
    };
    assert_eq!(head.as_deref(), Some("0123"));
    assert!(PushEvent::head_read_at(None, UNIX_EPOCH - Duration::from_secs(1)).is_none());
    assert!(matches!(PushEvent::head_read_at(None, UNIX_EPOCH + Duration::from_millis(951_827_696_789)),
        Some(PushEvent::HeadRead { head: None, stamp }) if stamp == "2000-02-29 12:34:56 UTC"));
    assert_eq!(stamp.len(), 23);
    assert!(stamp.ends_with(" UTC"));
    for (i, c) in stamp.chars().take(19).enumerate() {
        assert!(match i {
            4 | 7 => c == '-',
            10 => c == ' ',
            13 | 16 => c == ':',
            _ => c.is_ascii_digit(),
        });
    }
}

#[test]
fn short_hashes() {
    assert_eq!(short_hash("0123456789abcdef"), "01234567");
    assert_eq!(short_hash("01234567"), "01234567");
    assert_eq!(short_hash("ééééx"), "éééé");
}

#[test]
fn labels_of_locations_and_statuses() {
    assert_eq!(location_label("/home/u/history/projects/-home-u-x"), "-home-u-x");
    assert_eq!(location_label("/"), "unknown");
    assert_eq!(status_label(SyncOperation::Unchanged), "unchanged");
    assert_eq!(status_label(SyncOperation::Modified), "modified");
    assert_eq!(status_label(SyncOperation::Added), "new");
}

#[test]
fn listing_of_local_sessions() {
    let mut sessions = Vec::new();
    for i in 0..25 {
        let project = if i % 2 == 0 { Some("x") } else { None };
        sessions.push(session(&format!("s{i}"), "1", project));
    }
    let existing = vec![session("s0", "1", None), session("s2", "2", None)];
    let by_directory = list_local_sessions(&sessions, &existing, &LOCAL.to_string(), false);
    assert_eq!(by_directory.len(), 20);
    assert_eq!(by_directory[19].number, 20);
    assert_eq!(by_directory[19].path, "-home-u-x/s19.jsonl");
    let by_project = list_local_sessions(&sessions, &existing, &LOCAL.to_string(), true);
    assert_eq!(by_project.len(), 10);
    assert_eq!(by_project[1].number, 3);
    assert_eq!(by_project[1].path, "x/s2.jsonl");
    assert_eq!(by_project[0].operation, SyncOperation::Unchanged);
    assert_eq!(by_project[1].operation, SyncOperation::Modified);
    assert_eq!(by_project[2].operation, SyncOperation::Added);
}
