use claude_code_sync::report::{operation_label, preview, project_reports, timestamp_date, MAX_CONVERSATIONS_TO_DISPLAY};
use claude_code_sync::session::{classify, find_first, find_last, summarize, ConversationSession, ConversationSummary, SyncOperation};

fn session(id: &str, hash: &str) -> ConversationSession {
    ConversationSession {
        session_id: id.to_string(),
        file_path: format!("/p/{id}.jsonl"),
        content_hash: hash.to_string(),
        latest_timestamp: Some("2025-03-04T05:06:07Z".to_string()),
        message_count: 4,
        project_name: None,
    }
}

fn summary(path: &str, operation: SyncOperation) -> ConversationSummary {
    summarize(&session("s", "h"), path.to_string(), operation)
}

#[test]
fn sessions_are_found_by_id() {
    let all = vec![session("a", "1"), session("b", "2"), session("a", "3")];
    assert_eq!(find_first(&all, &"a".to_string()), Some(0));
    assert_eq!(find_last(&all, &"a".to_string()), Some(2));
    assert_eq!(find_last(&all, &"b".to_string()), Some(1));
    assert_eq!(find_first(&all, &"c".to_string()), None);
    assert_eq!(find_last(&all, &"c".to_string()), None);
}

#[test]
fn operations_on_the_other_side() {
    let all = vec![session("a", "1"), session("a", "3")];
    assert_eq!(classify(&all, &session("a", "3")), SyncOperation::Unchanged);
    assert_eq!(classify(&all, &session("a", "1")), SyncOperation::Modified);
    assert_eq!(classify(&all, &session("b", "1")), SyncOperation::Added);
    assert_eq!(classify(&vec![], &session("b", "1")), SyncOperation::Added);
}

#[test]
fn brought_over_is_unchanged_next_time() {
    let mut all = vec![session("a", "1")];
    assert_eq!(classify(&all, &session("a", "2")), SyncOperation::Modified);
    all.push(session("a", "2"));
    assert_eq!(classify(&all, &session("a", "2")), SyncOperation::Unchanged);
}

#[test]
fn all_brought_over_are_unchanged_next_time() {
    let all = vec![session("a", "1"), session("b", "2"), session("c", "1")];
    for s in &all {
        assert_eq!(classify(&all, s), SyncOperation::Unchanged);
    }
}

#[test]
fn summaries_hold_what_the_session_tells() {
    let s = summarize(&session("a", "1"), "x/a.jsonl".to_string(), SyncOperation::Added);
    assert_eq!(s.session_id, "a");
    assert_eq!(s.project_path, "x/a.jsonl");
    assert_eq!(s.timestamp.as_deref(), Some("2025-03-04T05:06:07Z"));
    assert_eq!(s.message_count, 4);
    assert_eq!(s.operation, SyncOperation::Added);
}

#[test]
fn labels() {
    assert_eq!(operation_label(SyncOperation::Added), "ADD");
    assert_eq!(operation_label(SyncOperation::Modified), "MOD");
    assert_eq!(operation_label(SyncOperation::Conflict), "CONFLICT");
    assert_eq!(operation_label(SyncOperation::Unchanged), "---");
}

#[test]
fn previews() {
    assert_eq!(preview(0, 20), (0, 0));
    assert_eq!(preview(20, 20), (20, 0));
    assert_eq!(preview(21, 20), (20, 1));
    assert_eq!(preview(100, 3), (3, 97));
}

#[test]
fn dates() {
    assert_eq!(timestamp_date(&Some("2025-03-04T05:06:07Z".to_string())), "2025-03-04");
    assert_eq!(timestamp_date(&Some("noon".to_string())), "noon");
    assert_eq!(timestamp_date(&None), "unknown");
}

#[test]
fn overview_groups_by_project_in_order() {
    let all = vec![
        summary("b/1.jsonl", SyncOperation::Added),
        summary("a/2.jsonl", SyncOperation::Modified),
        summary("c/3.jsonl", SyncOperation::Unchanged),
        summary("b/4.jsonl", SyncOperation::Conflict),
        summary("5.jsonl", SyncOperation::Added),
        summary("a/6.jsonl", SyncOperation::Unchanged),
    ];
    let r = project_reports(&all);
    let names: Vec<&str> = r.iter().map(|p| p.project.as_str()).collect();
    assert_eq!(names, vec!["5.jsonl", "a", "b"]);
    assert_eq!(r[1].lines.len(), 1);
    assert_eq!(r[1].lines[0].path, "a/2.jsonl");
    assert_eq!(r[1].lines[0].operation, SyncOperation::Modified);
    assert_eq!(r[1].lines[0].messages, 4);
    assert_eq!(r[1].lines[0].date, "2025-03-04");
    assert_eq!(r[2].lines.len(), 2);
    assert_eq!(r[2].lines[0].path, "b/1.jsonl");
    assert_eq!(r[2].lines[1].path, "b/4.jsonl");
    assert_eq!(r[2].hidden, 0);
    let shown: usize = r.iter().map(|p| p.lines.len() + p.hidden).sum();
    assert_eq!(shown, 4);
}

#[test]
fn overview_hides_what_is_too_much() {
    let mut all = Vec::new();
    for i in 0..13 {
        all.push(summary(&format!("x/{i}.jsonl"), SyncOperation::Added));
    }
    let r = project_reports(&all);
    assert_eq!(r.len(), 1);
    assert_eq!(MAX_CONVERSATIONS_TO_DISPLAY, 10);
    assert_eq!(r[0].lines.len(), 10);
    assert_eq!(r[0].lines[9].path, "x/9.jsonl");
    assert_eq!(r[0].hidden, 3);
}

#[test]
fn overview_of_nothing() {
    assert!(project_reports(&vec![]).is_empty());
    assert!(project_reports(&vec![summary("a/b", SyncOperation::Unchanged)]).is_empty());
}
