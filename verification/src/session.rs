//! Conversation sessions, how one side's session stands to the other side, and summaries.
use vstd::prelude::*;

verus! {

/// A conversation session: what synchronisation reads of it.
pub struct ConversationSession {
    pub session_id: String,
    /// The file that the session was read from.
    pub file_path: String,
    /// A digest of the session's content.
    pub content_hash: String,
    pub latest_timestamp: Option<String>,
    pub message_count: usize,
    /// The name of the project, where the session tells its working directory.
    pub project_name: Option<String>,
}

/// What a synchronisation does to a session.
#[derive(Clone, Copy, Debug, PartialEq, Eq, Structural)]
pub enum SyncOperation {
    Added,
    Modified,
    Conflict,
    Unchanged,
}

/// The entry of a session in the record of an operation.
pub struct ConversationSummary {
    pub session_id: String,
    pub project_path: String,
    pub timestamp: Option<String>,
    pub message_count: usize,
    pub operation: SyncOperation,
}

/// The value of a summary.
pub struct SummaryView {
    pub session_id: Seq<char>,
    pub project_path: Seq<char>,
    pub timestamp: Option<Seq<char>>,
    pub message_count: usize,
    pub operation: SyncOperation,
}

/// The value of an optional text.
pub open spec fn text_option(t: Option<String>) -> Option<Seq<char>> {
    match t {
        Some(s) => Some(s@),
        None => None,
    }
}

impl View for ConversationSummary {
    type V = SummaryView;

    open spec fn view(&self) -> SummaryView {
        SummaryView {
            session_id: self.session_id@,
            project_path: self.project_path@,
            timestamp: text_option(self.timestamp),
            message_count: self.message_count,
            operation: self.operation,
        }
    }
}

/// The values of a list of summaries.
pub open spec fn summary_views(s: Seq<ConversationSummary>) -> Seq<SummaryView> {
    s.map_values(|x: ConversationSummary| x@)
}

/// The summary of a session recorded under `path`.
pub open spec fn summary_of(session: ConversationSession, path: Seq<char>, operation: SyncOperation) -> SummaryView {
    SummaryView {
        session_id: session.session_id@,
        project_path: path,
        timestamp: text_option(session.latest_timestamp),
        message_count: session.message_count,
        operation,
    }
}

/// A copy of an optional text.
pub fn copy_text(t: &Option<String>) -> (r: Option<String>)
    ensures
        r == *t,
{
    match t {
        Some(s) => Some(s.clone()),
        None => None,
    }
}

/// The summary of a session recorded under `path`.
pub fn summarize(session: &ConversationSession, path: String, operation: SyncOperation) -> (r: ConversationSummary)
    ensures
        r@ == summary_of(*session, path@, operation),
{
    ConversationSummary {
        session_id: session.session_id.clone(),
        project_path: path,
        timestamp: copy_text(&session.latest_timestamp),
        message_count: session.message_count,
        operation,
    }
}

/// The last session with the given id: a later one replaces an earlier one of the same id.
pub open spec fn last_with_id(sessions: Seq<ConversationSession>, id: Seq<char>) -> Option<usize>
    decreases sessions.len(),
{
    if sessions.len() == 0 {
        None
    } else if sessions.last().session_id@ == id {
        Some((sessions.len() - 1) as usize)
    } else {
        last_with_id(sessions.drop_last(), id)
    }
}

/// Whether a session has the given id.
pub open spec fn has_id(id: Seq<char>) -> spec_fn(ConversationSession) -> bool {
    |s: ConversationSession| s.session_id@ == id
}

/// The first session with the given id.
pub open spec fn first_with_id(sessions: Seq<ConversationSession>, id: Seq<char>) -> Option<usize> {
    first_match(sessions, has_id(id))
}

/// The first session that `wanted` accepts.
pub open spec fn first_match(sessions: Seq<ConversationSession>, wanted: spec_fn(ConversationSession) -> bool) -> Option<usize>
    decreases sessions.len(),
{
    if sessions.len() == 0 {
        None
    } else {
        match first_match(sessions.drop_last(), wanted) {
            Some(i) => Some(i),
            None => if wanted(sessions.last()) {
                Some((sessions.len() - 1) as usize)
            } else {
                None
            },
        }
    }
}

/// What bringing `session` over to a side that holds `existing` does there.
pub open spec fn operation_on(existing: Seq<ConversationSession>, session: ConversationSession) -> SyncOperation {
    match last_with_id(existing, session.session_id@) {
        Some(i) => if existing[i as int].content_hash@ == session.content_hash@ {
            SyncOperation::Unchanged
        } else {
            SyncOperation::Modified
        },
        None => SyncOperation::Added,
    }
}

/// `last_with_id` finds the id, and no later session has it; `None` means that none has it.
pub proof fn last_with_id_finds(sessions: Seq<ConversationSession>, id: Seq<char>)
    requires
        sessions.len() <= usize::MAX,
    ensures
        match last_with_id(sessions, id) {
            Some(i) => {
                &&& i < sessions.len()
                &&& sessions[i as int].session_id@ == id
                &&& forall|j: int| i < j < sessions.len() ==> (#[trigger] sessions[j]).session_id@ != id
            },
            None => forall|j: int| 0 <= j < sessions.len() ==> (#[trigger] sessions[j]).session_id@ != id,
        },
    decreases sessions.len(),
{
    if sessions.len() > 0 && sessions.last().session_id@ != id {
        let rest = sessions.drop_last();
        last_with_id_finds(rest, id);
        assert forall|j: int| 0 <= j < rest.len() implies (#[trigger] sessions[j]) == rest[j] by {}
    }
}

/// `first_match` finds an accepted session, and none before it is accepted; `None` means that
/// none is.
pub proof fn first_match_finds(sessions: Seq<ConversationSession>, wanted: spec_fn(ConversationSession) -> bool)
    requires
        sessions.len() <= usize::MAX,
    ensures
        match first_match(sessions, wanted) {
            Some(i) => {
                &&& i < sessions.len()
                &&& wanted(sessions[i as int])
                &&& forall|j: int| 0 <= j < i ==> !wanted(#[trigger] sessions[j])
            },
            None => forall|j: int| 0 <= j < sessions.len() ==> !wanted(#[trigger] sessions[j]),
        },
    decreases sessions.len(),
{
    if sessions.len() > 0 {
        let rest = sessions.drop_last();
        first_match_finds(rest, wanted);
        assert forall|j: int| 0 <= j < rest.len() implies (#[trigger] sessions[j]) == rest[j] by {}
    }
}

/// `first_with_id` finds the id, and no earlier session has it; `None` means that none has it.
pub proof fn first_with_id_finds(sessions: Seq<ConversationSession>, id: Seq<char>)
    requires
        sessions.len() <= usize::MAX,
    ensures
        match first_with_id(sessions, id) {
            Some(i) => {
                &&& i < sessions.len()
                &&& sessions[i as int].session_id@ == id
                &&& forall|j: int| 0 <= j < i ==> (#[trigger] sessions[j]).session_id@ != id
            },
            None => forall|j: int| 0 <= j < sessions.len() ==> (#[trigger] sessions[j]).session_id@ != id,
        },
{
    first_match_finds(sessions, has_id(id));
    assert forall|j: int| 0 <= j < sessions.len() implies has_id(id)(#[trigger] sessions[j]) == (sessions[j].session_id@ == id) by {}
}

/// The last session with the given id.
pub fn find_last(sessions: &Vec<ConversationSession>, id: &String) -> (r: Option<usize>)
    ensures
        r == last_with_id(sessions@, id@),
        r is Some ==> r->0 < sessions@.len(),
{
    let mut n: usize = sessions.len();
    assert(sessions@.take(n as int) =~= sessions@);
    while n > 0
        invariant
            n <= sessions.len(),
            last_with_id(sessions@, id@) == last_with_id(sessions@.take(n as int), id@),
        decreases n,
    {
        assert(sessions@.take(n as int).last() == sessions@[n - 1]);
        assert(sessions@.take(n as int).drop_last() =~= sessions@.take(n - 1));
        if sessions[n - 1].session_id == *id {
            return Some(n - 1);
        }
        n = n - 1;
    }
    None
}

/// The first session with the given id.
pub fn find_first(sessions: &Vec<ConversationSession>, id: &String) -> (r: Option<usize>)
    ensures
        r == first_with_id(sessions@, id@),
        r is Some ==> r->0 < sessions@.len(),
{
    let ghost wanted = has_id(id@);
    let mut i: usize = 0;
    while i < sessions.len()
        invariant
            i <= sessions.len(),
            wanted == has_id(id@),
            first_match(sessions@.take(i as int), wanted) is None,
        decreases sessions.len() - i,
    {
        assert(sessions@.take(i + 1).drop_last() =~= sessions@.take(i as int));
        assert(sessions@.take(i + 1).last() == sessions@[i as int]);
        if sessions[i].session_id == *id {
            proof {
                first_match_extends(sessions@, i + 1, wanted);
            }
            return Some(i);
        }
        i = i + 1;
    }
    assert(sessions@.take(i as int) =~= sessions@);
    None
}

/// A match among the first `n` sessions is the first match of all.
pub proof fn first_match_extends(sessions: Seq<ConversationSession>, n: int, wanted: spec_fn(ConversationSession) -> bool)
    requires
        0 <= n <= sessions.len(),
        first_match(sessions.take(n), wanted) is Some,
    ensures
        first_match(sessions, wanted) == first_match(sessions.take(n), wanted),
    decreases sessions.len() - n,
{
    if n < sessions.len() {
        assert(sessions.take(n + 1).drop_last() =~= sessions.take(n));
        first_match_extends(sessions, n + 1, wanted);
    } else {
        assert(sessions.take(n) =~= sessions);
    }
}

/// What bringing `session` over to a side that holds `existing` does there.
pub fn classify(existing: &Vec<ConversationSession>, session: &ConversationSession) -> (r: SyncOperation)
    ensures
        r == operation_on(existing@, *session),
{
    match find_last(existing, &session.session_id) {
        Some(i) => if existing[i].content_hash == session.content_hash {
            SyncOperation::Unchanged
        } else {
            SyncOperation::Modified
        },
        None => SyncOperation::Added,
    }
}

/// A session that has been brought over is unchanged the next time, until it changes again.
pub proof fn brought_over_is_unchanged(existing: Seq<ConversationSession>, session: ConversationSession)
    requires
        existing.len() < usize::MAX,
    ensures
        operation_on(existing.push(session), session) == SyncOperation::Unchanged,
{
}

/// Once all sessions of a side have been brought over, each under its own id, none of them is
/// new or changed the next time.
pub proof fn all_brought_over_are_unchanged(sessions: Seq<ConversationSession>, i: int)
    requires
        0 <= i < sessions.len() <= usize::MAX,
        forall|a: int, b: int|
            0 <= a < b < sessions.len() ==> (#[trigger] sessions[a]).session_id@ != (#[trigger] sessions[b]).session_id@,
    ensures
        operation_on(sessions, sessions[i]) == SyncOperation::Unchanged,
{
    last_with_id_finds(sessions, sessions[i].session_id@);
    let found = last_with_id(sessions, sessions[i].session_id@);
    if found is Some && found->0 != i {
        let j = found->0 as int;
        assert(sessions[j].session_id@ == sessions[i].session_id@);
    }
}

/// Whether the session at `i` is the one that a side holds under an id: it has the id, and no
/// later one has.
pub open spec fn is_held(sessions: Seq<ConversationSession>, id: Seq<char>, i: int) -> bool {
    &&& 0 <= i < sessions.len()
    &&& sessions[i].session_id@ == id
    &&& forall|j: int| i < j < sessions.len() ==> (#[trigger] sessions[j]).session_id@ != id
}

/// Whether no session has an id.
pub open spec fn is_unheld(sessions: Seq<ConversationSession>, id: Seq<char>) -> bool {
    forall|j: int| 0 <= j < sessions.len() ==> (#[trigger] sessions[j]).session_id@ != id
}

/// Under an id a side holds one session at most.
pub proof fn one_session_is_held(sessions: Seq<ConversationSession>, id: Seq<char>, i: int, j: int)
    requires
        is_held(sessions, id, i),
    ensures
        is_held(sessions, id, j) ==> i == j,
        !is_unheld(sessions, id),
{
    if is_held(sessions, id, j) && i != j {
        assert(sessions[i].session_id@ == id && sessions[j].session_id@ == id);
    }
}

/// What bringing a session over does goes by id and content alone: it is added where the other
/// side holds no session of its id; else it is unchanged exactly where the one held there has the
/// same content, and modified otherwise. It is never told as a conflict.
pub proof fn operation_goes_by_content(existing: Seq<ConversationSession>, session: ConversationSession)
    requires
        existing.len() <= usize::MAX,
    ensures
        operation_on(existing, session) == SyncOperation::Added <==> is_unheld(existing, session.session_id@),
        forall|i: int| #[trigger]
            is_held(existing, session.session_id@, i) ==> operation_on(existing, session) == if existing[i].content_hash@
                == session.content_hash@ {
                SyncOperation::Unchanged
            } else {
                SyncOperation::Modified
            },
        operation_on(existing, session) != SyncOperation::Conflict,
{
    let id = session.session_id@;
    last_with_id_finds(existing, id);
    if let Some(f) = last_with_id(existing, id) {
        assert(is_held(existing, id, f as int));
        assert forall|i: int| #[trigger] is_held(existing, id, i) implies i == f by {
            one_session_is_held(existing, id, i, f as int);
        }
        assert(existing[f as int].session_id@ == id);
    }
}

/// A summary tells of its session the id, the latest timestamp and the number of messages, and
/// the path and the operation it is made for.
pub proof fn summary_tells_the_session(session: ConversationSession, path: Seq<char>, operation: SyncOperation)
    ensures
        ({
            let s = summary_of(session, path, operation);
            &&& s.session_id == session.session_id@
            &&& s.project_path == path
            &&& session.latest_timestamp matches Some(t) ==> s.timestamp == Some(t@)
            &&& session.latest_timestamp is None ==> s.timestamp is None
            &&& s.message_count == session.message_count
            &&& s.operation == operation
        }),
{
}

/// The value of a summary is that of its fields, and a list of them has the values in order.
pub proof fn summary_value(summaries: Seq<ConversationSummary>, i: int)
    requires
        0 <= i < summaries.len(),
    ensures
        summary_views(summaries).len() == summaries.len(),
        ({
            let v = summary_views(summaries)[i];
            let s = summaries[i];
            &&& v.session_id == s.session_id@
            &&& v.project_path == s.project_path@
            &&& s.timestamp matches Some(t) ==> v.timestamp == Some(t@)
            &&& s.timestamp is None ==> v.timestamp is None
            &&& v.message_count == s.message_count
            &&& v.operation == s.operation
        }),
{
}

} // verus!
