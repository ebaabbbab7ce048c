use claude_code_sync::filter::{Features, FilterConfig};
use claude_code_sync::pull::{
    conflict_suffix, conflict_suffix_at, pull_history, PullAction, PullEvent, PullPhase, PullReport, PullRequest, PullRun,
    PullSetup, VerbosityLevel,
};
use claude_code_sync::pull_plan::{
    conflict_files, count_left_out, count_merged, count_placed, count_written, is_in_conflict, keep_accepted,
    list_remote_sessions, place_in_directory, place_in_project, remote_project_name, summarize_conflicts,
    summarize_placements, unresolved_conflicts, Conflict, MergeOutcome, Placement, Rename,
};
use claude_code_sync::session::{summarize, ConversationSession, SyncOperation};
use std::time::{Duration, SystemTime, UNIX_EPOCH};

const LOCAL: &str = "/home/u/history/projects";
const REMOTE: &str = "/repo/projects";

fn local(id: &str, hash: &str) -> ConversationSession {
    ConversationSession {
        session_id: id.to_string(),
        file_path: format!("{LOCAL}/-x/{id}.jsonl"),
        content_hash: hash.to_string(),
        latest_timestamp: None,
        message_count: 1,
        project_name: Some("x".to_string()),
    }
}

fn remote(id: &str, hash: &str) -> ConversationSession {
    ConversationSession {
        session_id: id.to_string(),
        file_path: format!("{REMOTE}/-x/{id}.jsonl"),
        content_hash: hash.to_string(),
        latest_timestamp: Some("2025-03-04T05:06:07Z".to_string()),
        message_count: 2,
        project_name: None,
    }
}

fn conflict(id: &str) -> Conflict {
    Conflict {
        session_id: id.to_string(),
        local_file: format!("{LOCAL}/-x/{id}.jsonl"),
        remote_file: format!("{REMOTE}/-x/{id}.jsonl"),
    }
}

fn plain() -> Features {
    Features { use_project_name_only: false, sync_settings: false, enable_lfs: false }
}

fn request(branch: Option<&str>, interactive: bool) -> PullRequest {
    PullRequest {
        fetch_remote: true,
        branch: branch.map(|b| b.to_string()),
        interactive,
        verbosity: VerbosityLevel::Normal,
    }
}

fn setup(has_remote: bool, terminal: bool, features: Features) -> PullSetup {
    PullSetup {
        has_remote,
        filter: FilterConfig::default(),
        features,
        terminal,
        claude_dir: LOCAL.to_string(),
        repo_path: "/repo".to_string(),
        sync_subdirectory: "projects".to_string(),
    }
}

fn discovered(
    terminal: bool,
    interactive: bool,
    features: Features,
    locals: Vec<ConversationSession>,
    remotes: Vec<ConversationSession>,
    conflicts: Vec<Conflict>,
) -> (PullRun, PullAction) {
    let (run, action) = pull_history(request(Some("dev"), interactive), setup(false, terminal, features));
    assert!(matches!(action, PullAction::Discover { .. }));
    run.step(PullEvent::Discovered { locals, remotes, conflicts })
}

fn finish(run: PullRun, action: PullAction) -> (PullRun, PullReport) {
    assert!(matches!(action, PullAction::CheckSummaries));
    let n = run.summaries().len();
    let (run, action) = run.step(PullEvent::SummariesChecked(vec![true; n]));
    assert!(matches!(action, PullAction::SaveRecord));
    match run.step(PullEvent::RecordSaved) {
        (run, PullAction::Finish { report }) => (run, report),
        _ => panic!("the pull does not end"),
    }
}

#[test]
fn requested_branch_is_fetched() {
    let (run, action) = pull_history(request(Some("dev"), false), setup(true, false, plain()));
    assert!(matches!(action, PullAction::Fetch { branch } if branch == "dev"));
    let (run, action) = run.step(PullEvent::Fetched);
    assert!(matches!(&action, PullAction::Discover { filter, local_dir, remote_dir }
        if *filter == FilterConfig::default() && local_dir == LOCAL && remote_dir == REMOTE));
    assert_eq!(run.branch(), "dev");
    assert_eq!(run.remote_dir(), REMOTE);
}

#[test]
fn current_branch_is_the_next_choice() {
    let (run, action) = pull_history(request(None, false), setup(true, false, plain()));
    assert!(matches!(action, PullAction::ReadBranch));
    let (_, action) = run.step(PullEvent::BranchRead(Some("topic".to_string())));
    assert!(matches!(action, PullAction::Fetch { branch } if branch == "topic"));
}

#[test]
fn main_is_the_last_choice() {
    let (run, _) = pull_history(request(None, false), setup(false, false, plain()));
    let (run, action) = run.step(PullEvent::BranchRead(None));
    assert!(matches!(action, PullAction::Discover { .. }));
    assert_eq!(run.branch(), "main");
}

#[test]
fn nothing_is_fetched_unasked() {
    let mut ask = request(Some("dev"), false);
    ask.fetch_remote = false;
    let (_, action) = pull_history(ask, setup(true, false, plain()));
    assert!(matches!(action, PullAction::Discover { .. }));
}

#[test]
fn pull_without_conflicts() {
    let locals = vec![local("a", "1"), local("b", "1")];
    let remotes = vec![remote("a", "1"), remote("b", "2"), remote("c", "1")];
    let (run, action) = discovered(false, true, plain(), locals, remotes, vec![]);
    assert!(matches!(action, PullAction::KeepSession { remote: 0 }));
    let (run, action) = run.step(PullEvent::SessionDone);
    assert!(matches!(&action, PullAction::WriteSession { remote: 1, dest } if dest == "/home/u/history/projects/-x/b.jsonl"));
    let (run, action) = run.step(PullEvent::SessionDone);
    assert!(matches!(&action, PullAction::WriteSession { remote: 2, dest } if dest == "/home/u/history/projects/-x/c.jsonl"));
    let (run, action) = run.step(PullEvent::SessionDone);
    assert_eq!(run.merged_count(), 2);
    assert_eq!(run.summaries().len(), 3);
    assert_eq!(run.summaries()[0].project_path, "-x/a.jsonl");
    assert_eq!(run.summaries()[0].operation, SyncOperation::Unchanged);
    let (run, report) = finish(run, action);
    assert_eq!((report.added, report.modified, report.conflicts, report.unchanged), (1, 1, 0, 1));
    assert_eq!((report.merged, report.skipped), (2, 0));
    assert_eq!(report.projects.len(), 1);
    assert_eq!(report.projects[0].project, "-x");
    assert_eq!(report.projects[0].lines.len(), 2);
    assert_eq!(report.added + report.modified + report.unchanged + report.skipped, 3);
    assert!(run.snapshot().is_none());
    assert_eq!(run.phase(), PullPhase::Finished);
}

#[test]
fn settings_come_after_the_sessions() {
    let features = Features { sync_settings: true, ..plain() };
    let (run, action) = discovered(false, false, features, vec![], vec![], vec![]);
    assert!(matches!(action, PullAction::PullSettings));
    let (run, action) = run.step(PullEvent::SettingsPulled);
    let (_, report) = finish(run, action);
    assert_eq!(report.added, 0);
    assert!(report.projects.is_empty());
}

#[test]
fn snapshot_comes_before_any_change() {
    let (run, action) = discovered(
        true,
        true,
        plain(),
        vec![local("a", "1")],
        vec![remote("a", "2")],
        vec![conflict("a")],
    );
    assert!(matches!(action, PullAction::SaveSnapshot { files } if files == vec!["/home/u/history/projects/-x/a.jsonl"]));
    let (run, action) = run.step(PullEvent::SnapshotSaved("/snap/1".to_string()));
    assert!(matches!(action, PullAction::Confirm));
    let (run, action) = run.step(PullEvent::Confirmed(true));
    assert!(matches!(action, PullAction::SmartMerge { conflict: 0, local: 0, remote: 0 }));
    assert_eq!(run.snapshot().as_deref(), Some("/snap/1"));
}

#[test]
fn declined_pull_is_over() {
    let (run, action) = discovered(true, true, plain(), vec![], vec![remote("a", "1")], vec![]);
    assert!(matches!(action, PullAction::Confirm));
    let (run, action) = run.step(PullEvent::Confirmed(false));
    assert!(matches!(action, PullAction::Cancel));
    assert_eq!(run.phase(), PullPhase::Finished);
    let (run, action) = run.step(PullEvent::SessionDone);
    assert!(matches!(action, PullAction::Reject));
    let (_, action) = run.step(PullEvent::Confirmed(true));
    assert!(matches!(action, PullAction::Reject));
}

#[test]
fn only_a_user_at_a_terminal_is_asked() {
    let (_, action) = discovered(false, true, plain(), vec![], vec![remote("a", "1")], vec![]);
    assert!(matches!(action, PullAction::WriteSession { .. }));
    let (_, action) = discovered(true, false, plain(), vec![], vec![remote("a", "1")], vec![]);
    assert!(matches!(action, PullAction::WriteSession { .. }));
}

#[test]
fn merged_conflicts_need_nothing_more() {
    let (run, _) = discovered(
        false,
        false,
        plain(),
        vec![local("a", "1"), local("a", "1b")],
        vec![remote("a", "2")],
        vec![conflict("a")],
    );
    let (run, action) = run.step(PullEvent::SnapshotSaved("s".to_string()));
    assert!(matches!(action, PullAction::SmartMerge { conflict: 0, local: 1, remote: 0 }));
    let (run, action) = run.step(PullEvent::MergeTried(MergeOutcome::Merged));
    assert_eq!(run.smart_merge_count(), 1);
    assert!(matches!(action, PullAction::SkipSession { remote: 0 }));
    let (run, action) = run.step(PullEvent::SessionDone);
    let (_, report) = finish(run, action);
    assert_eq!((report.added, report.modified, report.conflicts, report.unchanged), (0, 0, 1, 0));
    assert!(report.projects.is_empty());
}

#[test]
fn conflict_without_both_sessions_is_passed() {
    let (run, _) = discovered(
        false,
        false,
        plain(),
        vec![],
        vec![remote("a", "2")],
        vec![conflict("a")],
    );
    let (run, action) = run.step(PullEvent::SnapshotSaved("s".to_string()));
    assert!(matches!(action, PullAction::PassConflict { conflict: 0 }));
    let (run, action) = run.step(PullEvent::MergeTried(MergeOutcome::Merged));
    assert!(matches!(action, PullAction::Reject));
    let (run, action) = run.step(PullEvent::MergeTried(MergeOutcome::Unmatched));
    assert!(matches!(action, PullAction::SkipSession { remote: 0 }));
    assert_eq!(run.smart_merge_count(), 0);
}

#[test]
fn leftover_conflicts_keep_both_versions() {
    let (run, _) = discovered(
        false,
        false,
        plain(),
        vec![local("a", "1"), local("b", "1"), local("c", "1")],
        vec![remote("a", "2"), remote("b", "2"), remote("c", "2")],
        vec![conflict("a"), conflict("b"), conflict("c")],
    );
    let (run, _) = run.step(PullEvent::SnapshotSaved("s".to_string()));
    let (run, _) = run.step(PullEvent::MergeTried(MergeOutcome::Failed));
    let (run, _) = run.step(PullEvent::MergeTried(MergeOutcome::Merged));
    let (run, action) = run.step(PullEvent::MergeTried(MergeOutcome::WriteFailed));
    assert_eq!(run.smart_merge_count(), 2);
    assert_eq!(run.left_over(), vec![0, 2]);
    assert_eq!((run.locals().len(), run.remotes().len(), run.conflicts().len()), (3, 3, 3));
    assert!(!run.setup().terminal);
    assert!(matches!(action, PullAction::KeepBoth { conflict: 0 }));
    let (run, action) = run.step(PullEvent::KeptBoth(Some(format!("{LOCAL}/-x/a-conflict-1.jsonl"))));
    assert!(matches!(&action, PullAction::WriteRemoteCopy { remote: 0, dest } if dest.ends_with("/-x/a-conflict-1.jsonl")));
    let (run, action) = run.step(PullEvent::CopyWritten);
    assert!(matches!(action, PullAction::KeepBoth { conflict: 2 }));
    let (run, action) = run.step(PullEvent::KeptBoth(None));
    assert!(matches!(action, PullAction::SaveReport));
    assert_eq!(run.renames().len(), 1);
    assert_eq!(run.renames()[0].remote_file, format!("{REMOTE}/-x/a.jsonl"));
    let (mut run, mut action) = run.step(PullEvent::ReportSaved);
    for i in 0..3usize {
        assert!(matches!(action, PullAction::SkipSession { remote } if remote == i));
        let next = run.step(PullEvent::SessionDone);
        run = next.0;
        action = next.1;
    }
    assert_eq!(run.summaries().len(), 0);
    let (_, report) = finish(run, action);
    assert_eq!(report.conflicts, 3);
    assert!(report.projects.is_empty());
}

#[test]
fn user_resolves_leftover_conflicts() {
    let (run, _) = discovered(
        true,
        false,
        plain(),
        vec![local("a", "1")],
        vec![remote("a", "2")],
        vec![conflict("a")],
    );
    let (run, _) = run.step(PullEvent::SnapshotSaved("s".to_string()));
    let (run, action) = run.step(PullEvent::MergeTried(MergeOutcome::Failed));
    assert!(matches!(&action, PullAction::ResolveInteractive { conflicts } if conflicts == &vec![0]));
    let renames = vec![Rename {
        remote_file: format!("{REMOTE}/-x/a.jsonl"),
        renamed: format!("{LOCAL}/-x/a.jsonl-copy"),
    }];
    let (run, action) = run.step(PullEvent::Resolved(renames));
    assert!(matches!(action, PullAction::SaveReport));
    let (run, action) = run.step(PullEvent::ReportSaved);
    assert!(matches!(action, PullAction::SkipSession { remote: 0 }));
    let (run, action) = run.step(PullEvent::SessionDone);
    assert_eq!(run.summaries().len(), 1);
    assert_eq!(run.summaries()[0].operation, SyncOperation::Conflict);
    assert_eq!(run.summaries()[0].project_path, "-x/a.jsonl-copy");
    assert_eq!(run.summaries()[0].session_id, "a");
    let (_, report) = finish(run, action);
    assert_eq!(report.projects.len(), 1);
    assert_eq!(report.projects[0].lines[0].operation, SyncOperation::Conflict);
}

#[test]
fn sessions_go_to_their_projects() {
    let features = Features { use_project_name_only: true, ..plain() };
    let mut odd = remote("d", "1");
    odd.file_path = "/repo/projects/..".to_string();
    let mut root = remote("e", "1");
    root.file_path = "/repo/projects".to_string();
    let remotes = vec![remote("a", "1"), remote("b", "1"), odd, root];
    let (run, action) = discovered(false, false, features, vec![local("a", "1")], remotes, vec![]);
    assert!(matches!(&action, PullAction::FindProject { remote: 0, name } if name == "-x"));
    let (run, action) = run.step(PullEvent::ProjectFound(Some(format!("{LOCAL}/-other-x"))));
    assert!(matches!(action, PullAction::KeepSession { remote: 0 }));
    let (run, action) = run.step(PullEvent::SessionDone);
    assert!(matches!(&action, PullAction::FindProject { remote: 1, name } if name == "-x"));
    let (run, action) = run.step(PullEvent::ProjectFound(None));
    assert!(matches!(action, PullAction::SkipSession { remote: 1 }));
    let (run, action) = run.step(PullEvent::SessionDone);
    assert!(matches!(&action, PullAction::FindProject { remote: 2, name } if name == ".."));
    let (run, action) = run.step(PullEvent::ProjectFound(Some("/p".to_string())));
    assert!(matches!(action, PullAction::SkipSession { remote: 2 }));
    let (run, action) = run.step(PullEvent::SessionDone);
    assert!(matches!(&action, PullAction::FindProject { remote: 3, name } if name == "unknown"));
    let (run, action) = run.step(PullEvent::ProjectFound(Some("/p".to_string())));
    assert!(matches!(action, PullAction::SkipSession { remote: 3 }));
    let (run, action) = run.step(PullEvent::SessionDone);
    assert_eq!(run.summaries().len(), 1);
    assert_eq!(run.summaries()[0].project_path, "-other-x/a.jsonl");
    let (_, report) = finish(run, action);
    assert_eq!((report.added, report.modified, report.unchanged, report.skipped), (0, 0, 1, 3));
}

#[test]
fn wrong_answers_change_nothing() {
    let (run, _) = pull_history(request(None, false), setup(false, false, plain()));
    let (run, action) = run.step(PullEvent::Fetched);
    assert!(matches!(action, PullAction::Reject));
    assert_eq!(run.phase(), PullPhase::Branch);
    let (run, action) = run.step(PullEvent::BranchRead(None));
    assert!(matches!(action, PullAction::Discover { .. }));
    let (run, action) = run.step(PullEvent::Discovered { locals: vec![], remotes: vec![], conflicts: vec![] });
    assert!(matches!(action, PullAction::CheckSummaries));
    let (run, action) = run.step(PullEvent::SummariesChecked(vec![true]));
    assert!(matches!(action, PullAction::Reject));
    let (_, action) = run.step(PullEvent::SummariesChecked(vec![]));
    assert!(matches!(action, PullAction::SaveRecord));
}

#[test]
fn invalid_summaries_are_left_out() {
    let remotes = vec![remote("a", "1"), remote("b", "1")];
    let (run, _) = discovered(false, false, plain(), vec![], remotes, vec![]);
    let (run, _) = run.step(PullEvent::SessionDone);
    let (run, action) = run.step(PullEvent::SessionDone);
    assert!(matches!(action, PullAction::CheckSummaries));
    let (run, _) = run.step(PullEvent::SummariesChecked(vec![false, true]));
    assert_eq!(run.summaries().len(), 1);
    assert_eq!(run.summaries()[0].session_id, "b");
    match run.step(PullEvent::RecordSaved) {
        (_, PullAction::Finish { report }) => {
            assert_eq!(report.added, 2);
            assert_eq!(report.projects[0].lines.len(), 1);
        },
        _ => panic!("the pull does not end"),
    }
}

#[test]
fn conflict_suffixes() {
    assert_eq!(conflict_suffix_at("20250102-030405"), "conflict-20250102-030405");
    assert_eq!(conflict_suffix(UNIX_EPOCH).as_deref(), Some("conflict-19700101-000000"));
    let later = UNIX_EPOCH + Duration::from_millis(1_735_786_999_999);
    assert_eq!(conflict_suffix(later).as_deref(), Some("conflict-20250102-030319"));
    assert_eq!(conflict_suffix(UNIX_EPOCH - Duration::from_secs(1)), None);
    let now = conflict_suffix(SystemTime::now()).unwrap();
    let stamp = now.strip_prefix("conflict-").unwrap();
    assert_eq!(stamp.len(), 15);
    for (i, c) in stamp.chars().enumerate() {
        assert!(if i == 8 { c == '-' } else { c.is_ascii_digit() });
    }
}

#[test]
fn conflicts_and_outcomes() {
    let conflicts = vec![conflict("a"), conflict("b")];
    assert_eq!(conflict_files(&conflicts), vec![format!("{LOCAL}/-x/a.jsonl"), format!("{LOCAL}/-x/b.jsonl")]);
    assert!(is_in_conflict(&conflicts, &"b".to_string()));
    assert!(!is_in_conflict(&conflicts, &"c".to_string()));
    let outcomes = vec![MergeOutcome::Unmatched, MergeOutcome::Merged, MergeOutcome::WriteFailed, MergeOutcome::Failed];
    assert_eq!(unresolved_conflicts(&outcomes), vec![2, 3]);
    assert_eq!(count_merged(&outcomes), 2);
}

#[test]
fn places_of_remote_sessions() {
    let local_dir = LOCAL.to_string();
    assert_eq!(remote_project_name("x/1.jsonl"), "x");
    assert_eq!(remote_project_name("/x/1.jsonl"), "/");
    assert_eq!(remote_project_name(""), "unknown");
    let p = place_in_directory("x/1.jsonl".to_string(), &local_dir, SyncOperation::Added);
    assert!(matches!(&p, Placement::Placed { dest, tracking, operation: SyncOperation::Added }
        if dest == "/home/u/history/projects/x/1.jsonl" && tracking == "x/1.jsonl"));
    let q = place_in_project("x/1.jsonl".to_string(), &Some("/elsewhere/-x".to_string()), &local_dir, SyncOperation::Modified);
    assert!(matches!(&q, Placement::Placed { dest, tracking, .. } if dest == "/elsewhere/-x/1.jsonl" && tracking == "x/1.jsonl"));
    let r = place_in_project("x/1.jsonl".to_string(), &None, &local_dir, SyncOperation::Modified);
    assert!(matches!(r, Placement::NoProject));
    let s = place_in_project("x/..".to_string(), &Some("/p".to_string()), &local_dir, SyncOperation::Modified);
    assert!(matches!(s, Placement::NoFileName));
    let all = vec![p, q, r, s, Placement::Conflicted];
    assert_eq!(count_placed(&all, SyncOperation::Added), 1);
    assert_eq!(count_placed(&all, SyncOperation::Modified), 1);
    assert_eq!(count_placed(&all, SyncOperation::Unchanged), 0);
    assert_eq!(count_written(&all), 2);
    assert_eq!(count_left_out(&all), 2);
}

#[test]
fn summaries_of_conflicts_go_by_the_start_of_the_file_name() {
    let remotes = vec![remote("s1-x", "1"), remote("s2-y", "1")];
    let renames = vec![
        Rename { remote_file: String::new(), renamed: format!("{LOCAL}/-x/s2-conflict-7.jsonl") },
        Rename { remote_file: String::new(), renamed: "/tmp/zz-conflict-7.jsonl".to_string() },
    ];
    let r = summarize_conflicts(&renames, &remotes, &LOCAL.to_string());
    assert_eq!(r.len(), 1);
    assert_eq!(r[0].session_id, "s2-y");
    assert_eq!(r[0].project_path, "-x/s2-conflict-7.jsonl");
}

#[test]
fn summaries_of_places() {
    let remotes = vec![remote("a", "1"), remote("b", "1")];
    let first = vec![summarize(&remote("z", "1"), "z".to_string(), SyncOperation::Conflict)];
    let placements = vec![
        Placement::NoProject,
        Placement::Placed { dest: "d".to_string(), tracking: "t".to_string(), operation: SyncOperation::Added },
    ];
    let all = summarize_placements(first, &placements, &remotes);
    assert_eq!(all.len(), 2);
    assert_eq!(all[0].project_path, "z");
    assert_eq!(all[1].project_path, "t");
    assert_eq!(all[1].session_id, "b");
    let kept = keep_accepted(&all, &vec![true, false]);
    assert_eq!(kept.len(), 1);
    assert_eq!(kept[0].session_id, "z");
}

#[test]
fn listing_of_remote_sessions() {
    let mut remotes = Vec::new();
    for i in 0..25 {
        remotes.push(remote(&format!("s{i}"), "1"));
    }
    let listed = list_remote_sessions(&remotes, &REMOTE.to_string());
    assert_eq!(listed.len(), 20);
    assert_eq!(listed[0].number, 1);
    assert_eq!(listed[0].path, "-x/s0.jsonl");
    assert_eq!(listed[0].messages, 2);
    assert_eq!(listed[19].number, 20);
    assert_eq!(listed[19].path, "-x/s19.jsonl");
}
