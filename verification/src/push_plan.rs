//! The decisions of a push: where local sessions go, what is recorded, what is committed.
use crate::path::{file_name, join_paths, joined, path_file_name, relative, relative_to};
use crate::report::{by_value, count_if, filter_by_value, listed, preview, MAX_FILES_TO_LIST};
use crate::session::{
    classify, operation_on, summarize, summary_of, summary_views, text_option, ConversationSession, ConversationSummary,
    SummaryView, SyncOperation,
};
use crate::text::{decimal, decimal_text};
use vstd::prelude::*;
use vstd::string::StringExecFns;
use vstd::string::StringSliceAdditionalSpecFns;
use vstd::utf8::is_char_boundary;

verus! {

/// Where a local session goes in the sync repository.
pub enum PushPlacement {
    /// Nowhere: it does not tell its project, or its path has no file name.
    Skipped,
    /// To the file `dest`; it is recorded under the path `relative`.
    Placed { relative: String, dest: String, operation: SyncOperation },
}

/// The value of a placement.
pub enum PushPlacementView {
    Skipped,
    Placed { relative: Seq<char>, dest: Seq<char>, operation: SyncOperation },
}

impl View for PushPlacement {
    type V = PushPlacementView;

    open spec fn view(&self) -> PushPlacementView {
        match self {
            PushPlacement::Skipped => PushPlacementView::Skipped,
            PushPlacement::Placed { relative, dest, operation } => PushPlacementView::Placed {
                relative: relative@,
                dest: dest@,
                operation: *operation,
            },
        }
    }
}

/// The values of a list of placements.
pub open spec fn push_placement_views(p: Seq<PushPlacement>) -> Seq<PushPlacementView> {
    p.map_values(|x: PushPlacement| x@)
}

/// The path of a session within the sync repository: the path relative to the local directory,
/// or, by project name, the file name under the name of its project, where it has both.
pub open spec fn repository_path(session: ConversationSession, claude_dir: Seq<char>, by_project: bool) -> Option<Seq<char>> {
    let full = relative(session.file_path@, claude_dir);
    if by_project {
        match (file_name(full), text_option(session.project_name)) {
            (Some(name), Some(project)) => Some(joined(project, name)),
            _ => None,
        }
    } else {
        Some(full)
    }
}

/// Where a local session goes in a sync repository that holds `existing`.
pub open spec fn place_in_repository(
    session: ConversationSession,
    existing: Seq<ConversationSession>,
    claude_dir: Seq<char>,
    projects_dir: Seq<char>,
    by_project: bool,
) -> PushPlacementView {
    match repository_path(session, claude_dir, by_project) {
        Some(path) => PushPlacementView::Placed {
            relative: path,
            dest: joined(projects_dir, path),
            operation: operation_on(existing, session),
        },
        None => PushPlacementView::Skipped,
    }
}

/// The summaries of the sessions that were placed.
pub open spec fn push_summaries(placements: Seq<PushPlacementView>, sessions: Seq<ConversationSession>) -> Seq<SummaryView>
    decreases placements.len(),
{
    if placements.len() == 0 {
        Seq::empty()
    } else {
        let earlier = push_summaries(placements.drop_last(), sessions);
        match placements.last() {
            PushPlacementView::Placed { relative, operation, .. } => earlier.push(
                summary_of(sessions[placements.len() - 1], relative, operation),
            ),
            PushPlacementView::Skipped => earlier,
        }
    }
}

/// Whether a session was placed with the given operation.
pub open spec fn pushed_as(operation: SyncOperation) -> spec_fn(PushPlacementView) -> bool {
    |p: PushPlacementView| p matches PushPlacementView::Placed { operation: o, .. } && o == operation
}

/// Whether a session was skipped.
pub open spec fn is_skipped() -> spec_fn(PushPlacementView) -> bool {
    |p: PushPlacementView| p is Skipped
}

/// The commit message of a push for which none is given.
pub open spec fn default_message(sessions: nat, stamp: Seq<char>) -> Seq<char> {
    "Sync "@ + decimal(sessions) + " sessions at "@ + stamp
}

/// The path of a session within the sync repository.
pub fn path_in_repository(session: &ConversationSession, claude_dir: &String, by_project: bool) -> (r: Option<String>)
    ensures
        text_option(r) == repository_path(*session, claude_dir@, by_project),
{
    let full = relative_to(session.file_path.as_str(), claude_dir.as_str());
    if by_project {
        match (path_file_name(full.as_str()), &session.project_name) {
            (Some(name), Some(project)) => Some(join_paths(project.as_str(), name.as_str())),
            _ => None,
        }
    } else {
        Some(full)
    }
}

/// Where a local session goes in a sync repository that holds `existing`.
pub fn place_session(
    session: &ConversationSession,
    existing: &Vec<ConversationSession>,
    claude_dir: &String,
    projects_dir: &String,
    by_project: bool,
) -> (r: PushPlacement)
    ensures
        r@ == place_in_repository(*session, existing@, claude_dir@, projects_dir@, by_project),
{
    match path_in_repository(session, claude_dir, by_project) {
        Some(relative) => {
            let dest = join_paths(projects_dir.as_str(), relative.as_str());
            PushPlacement::Placed { relative, dest, operation: classify(existing, session) }
        },
        None => PushPlacement::Skipped,
    }
}

/// The summaries of the sessions that were placed.
pub fn summarize_pushed(placements: &Vec<PushPlacement>, sessions: &Vec<ConversationSession>) -> (r: Vec<ConversationSummary>)
    requires
        placements@.len() <= sessions@.len(),
    ensures
        summary_views(r@) == push_summaries(push_placement_views(placements@), sessions@),
{
    let ghost all = push_placement_views(placements@);
    let mut r: Vec<ConversationSummary> = Vec::new();
    let mut i: usize = 0;
    assert(all.take(0) =~= Seq::empty());
    assert(summary_views(r@) =~= push_summaries(all.take(0), sessions@));
    while i < placements.len()
        invariant
            i <= placements.len() <= sessions.len(),
            all == push_placement_views(placements@),
            summary_views(r@) == push_summaries(all.take(i as int), sessions@),
        decreases placements.len() - i,
    {
        let ghost old_r = r@;
        assert(all.take(i + 1).drop_last() =~= all.take(i as int));
        assert(all.take(i + 1).last() == placements@[i as int]@);
        if let PushPlacement::Placed { relative, dest: _, operation } = &placements[i] {
            let s = summarize(&sessions[i], relative.clone(), *operation);
            r.push(s);
            assert(summary_views(r@) =~= summary_views(old_r).push(s@));
        }
        i = i + 1;
    }
    assert(all.take(i as int) =~= all);
    r
}

/// Whether a session was placed with the given operation.
fn is_pushed_as(x: &PushPlacement, operation: SyncOperation) -> (b: bool)
    ensures
        b == pushed_as(operation)(x@),
{
    match x {
        PushPlacement::Placed { relative: _, dest: _, operation: o } => *o == operation,
        PushPlacement::Skipped => false,
    }
}

/// The number of sessions that were placed with the given operation.
pub fn count_pushed(placements: &Vec<PushPlacement>, operation: SyncOperation) -> (r: usize)
    ensures
        r == push_placement_views(placements@).filter(pushed_as(operation)).len(),
{
    proof {
        filter_by_value(placements@, push_placement_views(placements@), pushed_as(operation));
    }
    count_if(placements, operation, is_pushed_as, Ghost(by_value(pushed_as(operation))))
}

/// Whether a session was skipped.
fn has_no_place(x: &PushPlacement, _any: ()) -> (b: bool)
    ensures
        b == is_skipped()(x@),
{
    match x {
        PushPlacement::Placed { .. } => false,
        PushPlacement::Skipped => true,
    }
}

/// The number of sessions that were skipped.
pub fn count_skipped(placements: &Vec<PushPlacement>) -> (r: usize)
    ensures
        r == push_placement_views(placements@).filter(is_skipped()).len(),
{
    proof {
        filter_by_value(placements@, push_placement_views(placements@), is_skipped());
    }
    count_if(placements, (), has_no_place, Ghost(by_value(is_skipped())))
}

/// The commit message of a push of `sessions` sessions at the moment `stamp`.
pub fn default_message_at(sessions: usize, stamp: &str) -> (r: String)
    ensures
        r@ == default_message(sessions as nat, stamp@),
{
    "Sync ".to_string().concat(decimal_text(sessions).as_str()).concat(" sessions at ").concat(stamp)
}

/// The first eight bytes of a commit hash.
pub fn short_hash(hash: &str) -> (r: String)
    requires
        is_char_boundary(hash.spec_bytes(), 8),
    ensures
        r@ == vstd::utf8::decode_utf8(hash.spec_bytes().subrange(0, 8)),
{
    broadcast use vstd::utf8::encode_utf8_decode_utf8;

    let (first, _) = hash.split_at(8);
    first.to_string()
}

/// The last component of the location of a project, for the user.
pub fn location_label(path: &str) -> (r: String)
    ensures
        r@ == match file_name(path@) {
            Some(name) => name,
            None => "unknown"@,
        },
{
    match path_file_name(path) {
        Some(name) => name,
        None => "unknown".to_string(),
    }
}

/// One local session in a verbose listing.
pub struct ListedFile {
    pub number: usize,
    pub path: String,
    pub operation: SyncOperation,
}

/// The value of a listed session.
pub open spec fn listed_file_view(f: ListedFile) -> (usize, Seq<char>, SyncOperation) {
    (f.number, f.path@, f.operation)
}

/// The listing of the first `n` local sessions, numbered from one: those that have a path in the
/// sync repository.
pub open spec fn file_listing(
    sessions: Seq<ConversationSession>,
    existing: Seq<ConversationSession>,
    claude_dir: Seq<char>,
    by_project: bool,
    n: int,
) -> Seq<(usize, Seq<char>, SyncOperation)>
    decreases n,
{
    if n <= 0 {
        Seq::empty()
    } else {
        let earlier = file_listing(sessions, existing, claude_dir, by_project, n - 1);
        match repository_path(sessions[n - 1], claude_dir, by_project) {
            Some(path) => earlier.push((n as usize, path, operation_on(existing, sessions[n - 1]))),
            None => earlier,
        }
    }
}

/// The first local sessions, with their paths in the sync repository and what the push does.
pub fn list_local_sessions(
    sessions: &Vec<ConversationSession>,
    existing: &Vec<ConversationSession>,
    claude_dir: &String,
    by_project: bool,
) -> (r: Vec<ListedFile>)
    ensures
        r@.map_values(|f: ListedFile| listed_file_view(f)) == file_listing(
            sessions@,
            existing@,
            claude_dir@,
            by_project,
            listed(sessions@.len() as int, MAX_FILES_TO_LIST as int),
        ),
{
    let (n, _) = preview(sessions.len(), MAX_FILES_TO_LIST);
    let mut r: Vec<ListedFile> = Vec::new();
    let mut i: usize = 0;
    assert(r@.map_values(|f: ListedFile| listed_file_view(f)) =~= Seq::empty());
    while i < n
        invariant
            i <= n <= sessions.len(),
            n <= MAX_FILES_TO_LIST,
            r@.map_values(|f: ListedFile| listed_file_view(f)) == file_listing(
                sessions@,
                existing@,
                claude_dir@,
                by_project,
                i as int,
            ),
        decreases n - i,
    {
        let ghost old_r = r@;
        if let Some(path) = path_in_repository(&sessions[i], claude_dir, by_project) {
            let f = ListedFile { number: i + 1, path, operation: classify(existing, &sessions[i]) };
            r.push(f);
            assert(r@.map_values(|f: ListedFile| listed_file_view(f)) =~= old_r.map_values(
                |f: ListedFile| listed_file_view(f),
            ).push(listed_file_view(f)));
        }
        i = i + 1;
    }
    r
}

/// How a verbose listing names what a push does to a session.
pub fn status_label(operation: SyncOperation) -> (r: &'static str)
    ensures
        r@ == match operation {
            SyncOperation::Unchanged => "unchanged"@,
            SyncOperation::Added => "new"@,
            _ => "modified"@,
        },
{
    match operation {
        SyncOperation::Unchanged => "unchanged",
        SyncOperation::Added => "new",
        _ => "modified",
    }
}

/// Within the sync repository a session has its path from the local directory; by project, its
/// file name under the name of its project, and no path where it lacks either.
pub proof fn repository_path_is(session: ConversationSession, claude_dir: Seq<char>)
    ensures
        repository_path(session, claude_dir, false) == Some(relative(session.file_path@, claude_dir)),
        match (file_name(relative(session.file_path@, claude_dir)), session.project_name) {
            (Some(name), Some(project)) => repository_path(session, claude_dir, true) == Some(joined(project@, name)),
            _ => repository_path(session, claude_dir, true) is None,
        },
{
}

/// A session is written to its path in the projects directory, with the operation that bringing
/// it over is; without a path it is skipped.
pub proof fn session_goes_to_its_path(
    session: ConversationSession,
    existing: Seq<ConversationSession>,
    claude_dir: Seq<char>,
    projects_dir: Seq<char>,
    by_project: bool,
)
    ensures
        match repository_path(session, claude_dir, by_project) {
            Some(path) => place_in_repository(session, existing, claude_dir, projects_dir, by_project) == (PushPlacementView::Placed {
                relative: path,
                dest: joined(projects_dir, path),
                operation: operation_on(existing, session),
            }),
            None => place_in_repository(session, existing, claude_dir, projects_dir, by_project) is Skipped,
        },
{
}

/// The summaries of local sessions: each placed one adds one, under its path in the repository;
/// a skipped one adds none.
pub proof fn pushed_session_adds_a_summary(placements: Seq<PushPlacementView>, p: PushPlacementView, sessions: Seq<ConversationSession>)
    ensures
        push_summaries(Seq::empty(), sessions) == Seq::<SummaryView>::empty(),
        ({
            let earlier = push_summaries(placements, sessions);
            let all = push_summaries(placements.push(p), sessions);
            match p {
                PushPlacementView::Placed { relative, dest, operation } => all == earlier.push(
                    summary_of(sessions[placements.len() as int], relative, operation),
                ),
                PushPlacementView::Skipped => all == earlier,
            }
        }),
{
    assert(placements.push(p).drop_last() =~= placements);
}

/// Each kind of placement is counted as what it is.
pub proof fn push_placements_count_as_what_they_are(p: PushPlacementView, operation: SyncOperation)
    ensures
        pushed_as(operation)(p) <==> p is Placed && p->operation == operation,
        is_skipped()(p) <==> p is Skipped,
{
}

/// The value of a placement is that of its fields, and a list of them has the values in order.
pub proof fn push_placement_value(placements: Seq<PushPlacement>, i: int)
    ensures
        push_placement_views(placements).len() == placements.len(),
        0 <= i < placements.len() ==> match placements[i] {
            PushPlacement::Skipped => push_placement_views(placements)[i] is Skipped,
            PushPlacement::Placed { relative, dest, operation } => push_placement_views(placements)[i] == (PushPlacementView::Placed {
                relative: relative@,
                dest: dest@,
                operation,
            }),
        },
{
}

/// The made-up message tells the number of sessions and the moment, in this order.
pub proof fn message_tells_number_and_moment(sessions: nat, stamp: Seq<char>)
    ensures
        ({
            let m = default_message(sessions, stamp);
            let n = decimal(sessions).len() as int;
            &&& m.len() == 5 + n + 13 + stamp.len()
            &&& m.take(5) == seq!['S', 'y', 'n', 'c', ' ']
            &&& m.subrange(5, 5 + n) == decimal(sessions)
            &&& m.subrange(5 + n, 5 + n + 13) == " sessions at "@
            &&& m.skip(5 + n + 13) == stamp
        }),
{
    reveal_strlit("Sync ");
    reveal_strlit(" sessions at ");
    let m = default_message(sessions, stamp);
    let n = decimal(sessions).len() as int;
    assert(m.take(5) =~= seq!['S', 'y', 'n', 'c', ' ']);
    assert(m.subrange(5, 5 + n) =~= decimal(sessions));
    assert(m.subrange(5 + n, 5 + n + 13) =~= " sessions at "@);
    assert(m.skip(5 + n + 13) =~= stamp);
}

/// The listing of local sessions: the next one adds a line where it has a path, with its number
/// from one on, its path and its operation.
pub proof fn listing_adds_a_line(
    sessions: Seq<ConversationSession>,
    existing: Seq<ConversationSession>,
    claude_dir: Seq<char>,
    by_project: bool,
    n: int,
)
    requires
        0 <= n < sessions.len(),
    ensures
        file_listing(sessions, existing, claude_dir, by_project, 0) == Seq::<(usize, Seq<char>, SyncOperation)>::empty(),
        ({
            let earlier = file_listing(sessions, existing, claude_dir, by_project, n);
            let all = file_listing(sessions, existing, claude_dir, by_project, n + 1);
            match repository_path(sessions[n], claude_dir, by_project) {
                Some(path) => all == earlier.push(((n + 1) as usize, path, operation_on(existing, sessions[n]))),
                None => all == earlier,
            }
        }),
{
}

/// The value of a listed session is that of its fields.
pub proof fn listed_file_value(f: ListedFile)
    ensures
        listed_file_view(f) == (f.number, f.path@, f.operation),
{
}

} // verus!
