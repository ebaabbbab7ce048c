//! The decisions of a pull: conflicts, where remote sessions go, what is recorded.
use crate::path::{
    components, file_name, first_component, join_paths, joined, path_file_name, relative, relative_to, strip_prefix,
    stripped,
};
use crate::report::{by_value, count_if, filter_by_value, listed, preview, MAX_FILES_TO_LIST};
use crate::session::{
    copy_text, first_match, first_match_extends, first_match_finds, summarize, summary_of, summary_views, text_option, ConversationSession,
    ConversationSummary, SummaryView, SyncOperation,
};
use crate::text::{before, text_before};
use vstd::prelude::*;

verus! {

/// A session that has changed on both sides.
pub struct Conflict {
    pub session_id: String,
    pub local_file: String,
    pub remote_file: String,
}

/// What became of the attempt to merge a conflict.
#[derive(Clone, Copy, Debug, PartialEq, Eq, Structural)]
pub enum MergeOutcome {
    /// One of the two sessions was not found, so nothing was attempted.
    Unmatched,
    /// Merged, and the merged session was written.
    Merged,
    /// Merged, but the merged session could not be written.
    WriteFailed,
    /// The sessions could not be merged.
    Failed,
}

/// A remote version that was kept beside the local one.
pub struct Rename {
    pub remote_file: String,
    pub renamed: String,
}

/// Where a remote session goes.
pub enum Placement {
    /// It is in conflict, and dealt with as such.
    Conflicted,
    /// Its path has no file name.
    NoFileName,
    /// No local project has the name of its project.
    NoProject,
    /// It belongs in the file `dest` and is recorded under `tracking`.
    Placed { dest: String, tracking: String, operation: SyncOperation },
}

/// The value of a placement.
pub enum PlacementView {
    Conflicted,
    NoFileName,
    NoProject,
    Placed { dest: Seq<char>, tracking: Seq<char>, operation: SyncOperation },
}

impl View for Placement {
    type V = PlacementView;

    open spec fn view(&self) -> PlacementView {
        match self {
            Placement::Conflicted => PlacementView::Conflicted,
            Placement::NoFileName => PlacementView::NoFileName,
            Placement::NoProject => PlacementView::NoProject,
            Placement::Placed { dest, tracking, operation } => PlacementView::Placed {
                dest: dest@,
                tracking: tracking@,
                operation: *operation,
            },
        }
    }
}

/// The value of a rename: the remote file and the file it was kept in.
pub open spec fn rename_view(r: Rename) -> (Seq<char>, Seq<char>) {
    (r.remote_file@, r.renamed@)
}

/// The values of a list of renames.
pub open spec fn rename_views(r: Seq<Rename>) -> Seq<(Seq<char>, Seq<char>)> {
    r.map_values(|x: Rename| rename_view(x))
}

/// The values of a list of placements.
pub open spec fn placement_views(p: Seq<Placement>) -> Seq<PlacementView> {
    p.map_values(|x: Placement| x@)
}

/// The local files of conflicts.
pub open spec fn local_files(conflicts: Seq<Conflict>) -> Seq<Seq<char>> {
    conflicts.map_values(|c: Conflict| c.local_file@)
}

/// Whether the session with the given id is in conflict.
pub open spec fn in_conflict(conflicts: Seq<Conflict>, id: Seq<char>) -> bool {
    exists|i: int| 0 <= i < conflicts.len() && (#[trigger] conflicts[i]).session_id@ == id
}

/// Whether an attempt left a conflict for manual resolution.
pub open spec fn needs_resolution(outcome: MergeOutcome) -> bool {
    outcome == MergeOutcome::WriteFailed || outcome == MergeOutcome::Failed
}

/// The positions of the conflicts that are left for manual resolution, in order.
pub open spec fn unresolved(outcomes: Seq<MergeOutcome>) -> Seq<usize>
    decreases outcomes.len(),
{
    if outcomes.len() == 0 {
        Seq::empty()
    } else if needs_resolution(outcomes.last()) {
        unresolved(outcomes.drop_last()).push((outcomes.len() - 1) as usize)
    } else {
        unresolved(outcomes.drop_last())
    }
}

/// Whether the sessions of a conflict could be merged.
pub open spec fn was_merged() -> spec_fn(MergeOutcome) -> bool {
    |o: MergeOutcome| o == MergeOutcome::Merged || o == MergeOutcome::WriteFailed
}

/// The project that a remote session belongs to: the first component of its relative path.
pub open spec fn project_name(relative_path: Seq<char>) -> Seq<char> {
    if components(relative_path).len() > 0 {
        components(relative_path)[0]
    } else {
        "unknown"@
    }
}

/// Where a session goes in a repository that is laid out by directory: to the same place under
/// the local directory.
pub open spec fn place_by_directory(relative_path: Seq<char>, claude_dir: Seq<char>, operation: SyncOperation) -> PlacementView {
    PlacementView::Placed { dest: joined(claude_dir, relative_path), tracking: relative_path, operation }
}

/// Where a session goes in a repository that is laid out by project name: into the local
/// project's directory, if there is one.
pub open spec fn place_by_project(
    relative_path: Seq<char>,
    project_dir: Option<Seq<char>>,
    claude_dir: Seq<char>,
    operation: SyncOperation,
) -> PlacementView {
    match project_dir {
        None => PlacementView::NoProject,
        Some(dir) => match file_name(relative_path) {
            None => PlacementView::NoFileName,
            Some(name) => PlacementView::Placed {
                dest: joined(dir, name),
                tracking: match stripped(joined(dir, name), claude_dir) {
                    Some(t) => t,
                    None => relative_path,
                },
                operation,
            },
        },
    }
}

/// What a file name tells of its session: the part before the first dash.
pub open spec fn name_key(path: Seq<char>) -> Option<Seq<char>> {
    match file_name(path) {
        Some(name) => Some(before(name, '-')),
        None => None,
    }
}

/// Whether a session's file has the key of a path.
pub open spec fn has_key(path: Seq<char>) -> spec_fn(ConversationSession) -> bool {
    |s: ConversationSession| name_key(s.file_path@) == name_key(path)
}

/// The summaries of the conflicts that were kept beside the local version: each under its path,
/// for the first remote session with the key of its file name.
pub open spec fn conflict_summaries(
    renames: Seq<(Seq<char>, Seq<char>)>,
    remotes: Seq<ConversationSession>,
    claude_dir: Seq<char>,
) -> Seq<SummaryView>
    decreases renames.len(),
{
    if renames.len() == 0 {
        Seq::empty()
    } else {
        let earlier = conflict_summaries(renames.drop_last(), remotes, claude_dir);
        let renamed = renames.last().1;
        match first_match(remotes, has_key(renamed)) {
            Some(j) => earlier.push(summary_of(remotes[j as int], relative(renamed, claude_dir), SyncOperation::Conflict)),
            None => earlier,
        }
    }
}

/// The summaries of the sessions that were placed.
pub open spec fn placement_summaries(placements: Seq<PlacementView>, remotes: Seq<ConversationSession>) -> Seq<SummaryView>
    decreases placements.len(),
{
    if placements.len() == 0 {
        Seq::empty()
    } else {
        let earlier = placement_summaries(placements.drop_last(), remotes);
        match placements.last() {
            PlacementView::Placed { tracking, operation, .. } => earlier.push(
                summary_of(remotes[placements.len() - 1], tracking, operation),
            ),
            _ => earlier,
        }
    }
}

/// The summaries that were accepted.
pub open spec fn accepted(summaries: Seq<SummaryView>, flags: Seq<bool>) -> Seq<SummaryView>
    decreases summaries.len(),
{
    if summaries.len() == 0 {
        Seq::empty()
    } else {
        let earlier = accepted(summaries.drop_last(), flags);
        if flags[summaries.len() - 1] {
            earlier.push(summaries.last())
        } else {
            earlier
        }
    }
}

/// Whether a session was placed with the given operation.
pub open spec fn placed_as(operation: SyncOperation) -> spec_fn(PlacementView) -> bool {
    |p: PlacementView| p matches PlacementView::Placed { operation: o, .. } && o == operation
}

/// Whether a session was placed and has to be written.
pub open spec fn placed_anew() -> spec_fn(PlacementView) -> bool {
    |p: PlacementView| p matches PlacementView::Placed { operation: o, .. } && o != SyncOperation::Unchanged
}

/// Whether a session was left out for want of a place.
pub open spec fn left_out() -> spec_fn(PlacementView) -> bool {
    |p: PlacementView| p is NoFileName || p is NoProject
}

/// The local files of conflicts.
pub fn conflict_files(conflicts: &Vec<Conflict>) -> (r: Vec<String>)
    ensures
        r@.map_values(|s: String| s@) == local_files(conflicts@),
{
    let mut r: Vec<String> = Vec::new();
    let mut i: usize = 0;
    while i < conflicts.len()
        invariant
            i <= conflicts.len(),
            r@.len() == i,
            forall|k: int| 0 <= k < i ==> (#[trigger] r@[k])@ == conflicts@[k].local_file@,
        decreases conflicts.len() - i,
    {
        r.push(conflicts[i].local_file.clone());
        i = i + 1;
    }
    assert(r@.map_values(|s: String| s@) =~= local_files(conflicts@));
    r
}

/// Whether the session with the given id is in conflict.
pub fn is_in_conflict(conflicts: &Vec<Conflict>, id: &String) -> (r: bool)
    ensures
        r == in_conflict(conflicts@, id@),
{
    let mut i: usize = 0;
    while i < conflicts.len()
        invariant
            i <= conflicts.len(),
            forall|k: int| 0 <= k < i ==> (#[trigger] conflicts@[k]).session_id@ != id@,
        decreases conflicts.len() - i,
    {
        if conflicts[i].session_id == *id {
            return true;
        }
        i = i + 1;
    }
    false
}

/// The positions of the conflicts that are left for manual resolution.
pub fn unresolved_conflicts(outcomes: &Vec<MergeOutcome>) -> (r: Vec<usize>)
    ensures
        r@ == unresolved(outcomes@),
        r@.len() <= outcomes@.len(),
        forall|k: int| 0 <= k < r@.len() ==> (#[trigger] r@[k]) < outcomes@.len(),
{
    let mut r: Vec<usize> = Vec::new();
    let mut i: usize = 0;
    assert(outcomes@.take(0) =~= Seq::empty());
    while i < outcomes.len()
        invariant
            i <= outcomes.len(),
            r@ == unresolved(outcomes@.take(i as int)),
            r@.len() <= i,
            forall|k: int| 0 <= k < r@.len() ==> (#[trigger] r@[k]) < i,
        decreases outcomes.len() - i,
    {
        assert(outcomes@.take(i + 1).drop_last() =~= outcomes@.take(i as int));
        assert(outcomes@.take(i + 1).last() == outcomes@[i as int]);
        if outcomes[i] == MergeOutcome::WriteFailed || outcomes[i] == MergeOutcome::Failed {
            r.push(i);
        }
        i = i + 1;
    }
    assert(outcomes@.take(i as int) =~= outcomes@);
    r
}

/// Whether the sessions of a conflict could be merged.
fn could_be_merged(x: &MergeOutcome, _any: ()) -> (b: bool)
    ensures
        b == was_merged()(*x),
{
    *x == MergeOutcome::Merged || *x == MergeOutcome::WriteFailed
}

/// The number of conflicts whose sessions could be merged.
pub fn count_merged(outcomes: &Vec<MergeOutcome>) -> (r: usize)
    ensures
        r == outcomes@.filter(was_merged()).len(),
{
    count_if(outcomes, (), could_be_merged, Ghost(was_merged()))
}

/// The project that a remote session belongs to.
pub fn remote_project_name(relative_path: &str) -> (r: String)
    ensures
        r@ == project_name(relative_path@),
{
    match first_component(relative_path) {
        Some(c) => c,
        None => "unknown".to_string(),
    }
}

/// Where a session goes in a repository that is laid out by directory.
pub fn place_in_directory(relative_path: String, claude_dir: &String, operation: SyncOperation) -> (r: Placement)
    ensures
        r@ == place_by_directory(relative_path@, claude_dir@, operation),
{
    Placement::Placed {
        dest: join_paths(claude_dir.as_str(), relative_path.as_str()),
        tracking: relative_path,
        operation,
    }
}

/// Where a session goes in a repository that is laid out by project name.
pub fn place_in_project(relative_path: String, project_dir: &Option<String>, claude_dir: &String, operation: SyncOperation) -> (r: Placement)
    ensures
        r@ == place_by_project(relative_path@, text_option(*project_dir), claude_dir@, operation),
{
    match project_dir {
        None => Placement::NoProject,
        Some(dir) => match path_file_name(relative_path.as_str()) {
            None => Placement::NoFileName,
            Some(name) => {
                let dest = join_paths(dir.as_str(), name.as_str());
                let tracking = match strip_prefix(dest.as_str(), claude_dir.as_str()) {
                    Some(t) => t,
                    None => relative_path,
                };
                Placement::Placed { dest, tracking, operation }
            },
        },
    }
}

fn path_key(path: &str) -> (r: Option<String>)
    ensures
        text_option(r) == name_key(path@),
{
    match path_file_name(path) {
        Some(name) => Some(text_before(name.as_str(), '-')),
        None => None,
    }
}

fn same_text(a: &Option<String>, b: &Option<String>) -> (r: bool)
    ensures
        r == (text_option(*a) == text_option(*b)),
{
    match (a, b) {
        (Some(x), Some(y)) => *x == *y,
        (None, None) => true,
        _ => false,
    }
}

fn find_by_key(remotes: &Vec<ConversationSession>, path: &str) -> (r: Option<usize>)
    ensures
        r == first_match(remotes@, has_key(path@)),
        r is Some ==> r->0 < remotes@.len(),
{
    let key = path_key(path);
    let ghost wanted = has_key(path@);
    let mut i: usize = 0;
    while i < remotes.len()
        invariant
            i <= remotes.len(),
            wanted == has_key(path@),
            text_option(key) == name_key(path@),
            first_match(remotes@.take(i as int), wanted) is None,
        decreases remotes.len() - i,
    {
        assert(remotes@.take(i + 1).drop_last() =~= remotes@.take(i as int));
        assert(remotes@.take(i + 1).last() == remotes@[i as int]);
        if same_text(&path_key(remotes[i].file_path.as_str()), &key) {
            proof {
                first_match_extends(remotes@, i + 1, wanted);
            }
            return Some(i);
        }
        i = i + 1;
    }
    assert(remotes@.take(i as int) =~= remotes@);
    None
}

/// The summaries of the conflicts that were kept beside the local version.
pub fn summarize_conflicts(renames: &Vec<Rename>, remotes: &Vec<ConversationSession>, claude_dir: &String) -> (r: Vec<ConversationSummary>)
    ensures
        summary_views(r@) == conflict_summaries(rename_views(renames@), remotes@, claude_dir@),
{
    let ghost all = rename_views(renames@);
    let mut r: Vec<ConversationSummary> = Vec::new();
    let mut i: usize = 0;
    assert(all.take(0) =~= Seq::empty());
    assert(summary_views(r@) =~= conflict_summaries(all.take(0), remotes@, claude_dir@));
    while i < renames.len()
        invariant
            i <= renames.len(),
            all == rename_views(renames@),
            summary_views(r@) == conflict_summaries(all.take(i as int), remotes@, claude_dir@),
        decreases renames.len() - i,
    {
        let ghost old_r = r@;
        assert(all.take(i + 1).drop_last() =~= all.take(i as int));
        assert(all.take(i + 1).last() == rename_view(renames@[i as int]));
        let renamed = renames[i].renamed.as_str();
        if let Some(j) = find_by_key(remotes, renamed) {
            let s = summarize(&remotes[j], relative_to(renamed, claude_dir.as_str()), SyncOperation::Conflict);
            r.push(s);
            assert(summary_views(r@) =~= summary_views(old_r).push(s@));
        }
        i = i + 1;
    }
    assert(all.take(i as int) =~= all);
    r
}

/// Adds the summaries of the sessions that were placed.
pub fn summarize_placements(
    mut summaries: Vec<ConversationSummary>,
    placements: &Vec<Placement>,
    remotes: &Vec<ConversationSession>,
) -> (r: Vec<ConversationSummary>)
    requires
        placements@.len() <= remotes@.len(),
    ensures
        summary_views(r@) == summary_views(summaries@) + placement_summaries(placement_views(placements@), remotes@),
{
    let ghost all = placement_views(placements@);
    let ghost first = summary_views(summaries@);
    let mut i: usize = 0;
    assert(all.take(0) =~= Seq::empty());
    assert(first =~= first + placement_summaries(all.take(0), remotes@));
    while i < placements.len()
        invariant
            i <= placements.len() <= remotes.len(),
            all == placement_views(placements@),
            summary_views(summaries@) == first + placement_summaries(all.take(i as int), remotes@),
        decreases placements.len() - i,
    {
        let ghost old_s = summaries@;
        assert(all.take(i + 1).drop_last() =~= all.take(i as int));
        assert(all.take(i + 1).last() == placements@[i as int]@);
        match &placements[i] {
            Placement::Placed { dest: _, tracking, operation } => {
                let s = summarize(&remotes[i], tracking.clone(), *operation);
                summaries.push(s);
                assert(summary_views(summaries@) =~= summary_views(old_s).push(s@));
                assert(summary_views(summaries@) =~= first + placement_summaries(all.take(i + 1), remotes@));
            },
            _ => {},
        }
        i = i + 1;
    }
    assert(all.take(i as int) =~= all);
    summaries
}

fn copy_summary(s: &ConversationSummary) -> (r: ConversationSummary)
    ensures
        r@ == s@,
{
    ConversationSummary {
        session_id: s.session_id.clone(),
        project_path: s.project_path.clone(),
        timestamp: copy_text(&s.timestamp),
        message_count: s.message_count,
        operation: s.operation,
    }
}

/// The summaries that were accepted.
pub fn keep_accepted(summaries: &Vec<ConversationSummary>, flags: &Vec<bool>) -> (r: Vec<ConversationSummary>)
    requires
        flags@.len() == summaries@.len(),
    ensures
        summary_views(r@) == accepted(summary_views(summaries@), flags@),
{
    let ghost all = summary_views(summaries@);
    let mut r: Vec<ConversationSummary> = Vec::new();
    let mut i: usize = 0;
    assert(all.take(0) =~= Seq::empty());
    assert(summary_views(r@) =~= accepted(all.take(0), flags@));
    while i < summaries.len()
        invariant
            i <= summaries.len(),
            flags@.len() == summaries@.len(),
            all == summary_views(summaries@),
            summary_views(r@) == accepted(all.take(i as int), flags@),
        decreases summaries.len() - i,
    {
        let ghost old_r = r@;
        assert(all.take(i + 1).drop_last() =~= all.take(i as int));
        assert(all.take(i + 1).last() == summaries@[i as int]@);
        if flags[i] {
            let s = copy_summary(&summaries[i]);
            r.push(s);
            assert(summary_views(r@) =~= summary_views(old_r).push(s@));
        }
        i = i + 1;
    }
    assert(all.take(i as int) =~= all);
    r
}

/// Whether a session was placed with the given operation.
fn is_placed_as(x: &Placement, operation: SyncOperation) -> (b: bool)
    ensures
        b == placed_as(operation)(x@),
{
    match x {
        Placement::Placed { dest: _, tracking: _, operation: o } => *o == operation,
        _ => false,
    }
}

/// The number of sessions that were placed with the given operation.
pub fn count_placed(placements: &Vec<Placement>, operation: SyncOperation) -> (r: usize)
    ensures
        r == placement_views(placements@).filter(placed_as(operation)).len(),
{
    proof {
        filter_by_value(placements@, placement_views(placements@), placed_as(operation));
    }
    count_if(placements, operation, is_placed_as, Ghost(by_value(placed_as(operation))))
}

/// Whether a session was placed and had to be written.
fn is_placed_anew(x: &Placement, _any: ()) -> (b: bool)
    ensures
        b == placed_anew()(x@),
{
    match x {
        Placement::Placed { dest: _, tracking: _, operation } => *operation != SyncOperation::Unchanged,
        _ => false,
    }
}

/// The number of sessions that were placed and had to be written.
pub fn count_written(placements: &Vec<Placement>) -> (r: usize)
    ensures
        r == placement_views(placements@).filter(placed_anew()).len(),
{
    proof {
        filter_by_value(placements@, placement_views(placements@), placed_anew());
    }
    count_if(placements, (), is_placed_anew, Ghost(by_value(placed_anew())))
}

/// Whether a session was left out for want of a place.
fn is_left_out(x: &Placement, _any: ()) -> (b: bool)
    ensures
        b == left_out()(x@),
{
    match x {
        Placement::NoFileName => true,
        Placement::NoProject => true,
        _ => false,
    }
}

/// The number of sessions that were left out for want of a place.
pub fn count_left_out(placements: &Vec<Placement>) -> (r: usize)
    ensures
        r == placement_views(placements@).filter(left_out()).len(),
{
    proof {
        filter_by_value(placements@, placement_views(placements@), left_out());
    }
    count_if(placements, (), is_left_out, Ghost(by_value(left_out())))
}

/// One remote session in a verbose listing.
pub struct ListedSession {
    pub number: usize,
    pub path: String,
    pub messages: usize,
}

/// The first remote sessions, numbered from one, with their relative paths.
pub fn list_remote_sessions(remotes: &Vec<ConversationSession>, remote_dir: &String) -> (r: Vec<ListedSession>)
    ensures
        r@.len() == listed(remotes@.len() as int, MAX_FILES_TO_LIST as int),
        forall|i: int| 0 <= i < r@.len() ==> (#[trigger] r@[i]).number == i + 1 && r@[i].path@ == relative(remotes@[i].file_path@, remote_dir@)
            && r@[i].messages == remotes@[i].message_count,
{
    let (n, _) = preview(remotes.len(), MAX_FILES_TO_LIST);
    let mut r: Vec<ListedSession> = Vec::new();
    let mut i: usize = 0;
    while i < n
        invariant
            i <= n <= remotes.len(),
            n <= MAX_FILES_TO_LIST,
            r@.len() == i,
            forall|k: int| 0 <= k < i ==> (#[trigger] r@[k]).number == k + 1 && r@[k].path@ == relative(remotes@[k].file_path@, remote_dir@)
                && r@[k].messages == remotes@[k].message_count,
        decreases n - i,
    {
        r.push(
            ListedSession {
                number: i + 1,
                path: relative_to(remotes[i].file_path.as_str(), remote_dir.as_str()),
                messages: remotes[i].message_count,
            },
        );
        i = i + 1;
    }
    r
}

/// The files of conflicts are their local files, in order.
pub proof fn files_of_conflicts(conflicts: Seq<Conflict>, i: int)
    ensures
        local_files(conflicts).len() == conflicts.len(),
        0 <= i < conflicts.len() ==> local_files(conflicts)[i] == conflicts[i].local_file@,
{
}

/// A session is in conflict exactly where one of the conflicts has its id.
pub proof fn conflict_has_its_id(conflicts: Seq<Conflict>, id: Seq<char>, i: int)
    ensures
        0 <= i < conflicts.len() && conflicts[i].session_id@ == id ==> in_conflict(conflicts, id),
        (forall|j: int| 0 <= j < conflicts.len() ==> (#[trigger] conflicts[j]).session_id@ != id) ==> !in_conflict(conflicts, id),
{
}

/// Left over are, in order, exactly the conflicts that could not be merged, or whose merged
/// session could not be written.
pub proof fn leftovers_are_the_failures(outcomes: Seq<MergeOutcome>)
    requires
        outcomes.len() <= usize::MAX,
    ensures
        forall|a: int, b: int| 0 <= a < b < unresolved(outcomes).len() ==> (#[trigger] unresolved(outcomes)[a]) < (#[trigger] unresolved(outcomes)[b]),
        forall|a: int| 0 <= a < unresolved(outcomes).len() ==> {
            let k = #[trigger] unresolved(outcomes)[a];
            k < outcomes.len() && (outcomes[k as int] is Failed || outcomes[k as int] is WriteFailed)
        },
        forall|k: int| 0 <= k < outcomes.len() && ((#[trigger] outcomes[k]) is Failed || outcomes[k] is WriteFailed)
            ==> unresolved(outcomes).contains(k as usize),
    decreases outcomes.len(),
{
    if outcomes.len() > 0 {
        let rest = outcomes.drop_last();
        leftovers_are_the_failures(rest);
        let u = unresolved(outcomes);
        let v = unresolved(rest);
        assert forall|a: int| 0 <= a < u.len() implies {
            let k = #[trigger] u[a];
            k < outcomes.len() && (outcomes[k as int] is Failed || outcomes[k as int] is WriteFailed)
        } by {
            if a < v.len() {
                assert(u[a] == v[a]);
                assert(rest[v[a] as int] == outcomes[v[a] as int]);
            }
        }
        assert forall|k: int| 0 <= k < outcomes.len() && ((#[trigger] outcomes[k]) is Failed || outcomes[k] is WriteFailed) implies u.contains(
            k as usize,
        ) by {
            if k < rest.len() {
                assert(rest[k] == outcomes[k]);
                let a = choose|a: int| 0 <= a < v.len() && v[a] == k as usize;
                assert(u[a] == k as usize);
            } else {
                assert(u.last() == k as usize);
            }
        }
        assert forall|a: int, b: int| 0 <= a < b < u.len() implies (#[trigger] u[a]) < (#[trigger] u[b]) by {
            assert(u[a] == v[a]);
            if b < v.len() {
                assert(u[b] == v[b]);
            }
        }
    }
}

/// Counted as merged are the conflicts whose sessions could be merged, written or not.
pub proof fn merged_means_merged(outcome: MergeOutcome)
    ensures
        was_merged()(outcome) <==> outcome is Merged || outcome is WriteFailed,
{
}

/// The project of a remote session is the first component of its path.
pub proof fn project_is_the_first_component(path: Seq<char>)
    ensures
        components(path).len() > 0 ==> project_name(path) == components(path)[0],
        components(path).len() == 0 ==> project_name(path) == "unknown"@,
{
}

/// By directory a session goes to its relative path under the local directory.
pub proof fn directory_keeps_the_path(path: Seq<char>, claude_dir: Seq<char>, operation: SyncOperation)
    ensures
        place_by_directory(path, claude_dir, operation) == (PlacementView::Placed {
            dest: joined(claude_dir, path),
            tracking: path,
            operation,
        }),
{
}

/// By project a session goes, under its own file name, into the directory of the project, and is
/// recorded under its path from the local directory where it lies there; without a project, or
/// without a file name, it goes nowhere.
pub proof fn project_takes_the_file(
    path: Seq<char>,
    project_dir: Option<Seq<char>>,
    claude_dir: Seq<char>,
    operation: SyncOperation,
)
    ensures
        ({
            let p = place_by_project(path, project_dir, claude_dir, operation);
            match (project_dir, file_name(path)) {
                (None, _) => p is NoProject,
                (Some(_), None) => p is NoFileName,
                (Some(dir), Some(name)) => {
                    &&& p matches PlacementView::Placed { dest, tracking, operation: o }
                    &&& dest == joined(dir, name)
                    &&& o == operation
                    &&& stripped(dest, claude_dir) matches Some(t) ==> tracking == t
                    &&& stripped(dest, claude_dir) is None ==> tracking == path
                },
            }
        }),
{
}

/// A session's file has the key of a path where both file names are the same up to the first
/// dash, or neither path has a file name.
pub proof fn keys_agree_up_to_the_dash(path: Seq<char>, session: ConversationSession)
    ensures
        has_key(path)(session) <==> match (file_name(session.file_path@), file_name(path)) {
            (Some(a), Some(b)) => before(a, '-') == before(b, '-'),
            (None, None) => true,
            _ => false,
        },
{
}

/// The summaries of kept conflicts: each kept file adds one, for the first remote session whose
/// file has its key, under its path from the local directory; none where no session has.
pub proof fn kept_conflict_adds_a_summary(
    renames: Seq<(Seq<char>, Seq<char>)>,
    rename: (Seq<char>, Seq<char>),
    remotes: Seq<ConversationSession>,
    claude_dir: Seq<char>,
    j: int,
)
    requires
        remotes.len() <= usize::MAX,
    ensures
        conflict_summaries(Seq::empty(), remotes, claude_dir) == Seq::<SummaryView>::empty(),
        ({
            let earlier = conflict_summaries(renames, remotes, claude_dir);
            let all = conflict_summaries(renames.push(rename), remotes, claude_dir);
            let key = has_key(rename.1);
            &&& (0 <= j < remotes.len() && key(remotes[j]) && forall|i: int| 0 <= i < j ==> !key(#[trigger] remotes[i])) ==> all
                == earlier.push(summary_of(remotes[j], relative(rename.1, claude_dir), SyncOperation::Conflict))
            &&& (forall|i: int| 0 <= i < remotes.len() ==> !key(#[trigger] remotes[i])) ==> all == earlier
        }),
{
    assert(renames.push(rename).drop_last() =~= renames);
    first_match_finds(remotes, has_key(rename.1));
}

/// The summaries of remote sessions: each placed one adds one, under the path that it is recorded
/// under; the others add none.
pub proof fn placed_session_adds_a_summary(placements: Seq<PlacementView>, p: PlacementView, remotes: Seq<ConversationSession>)
    ensures
        placement_summaries(Seq::empty(), remotes) == Seq::<SummaryView>::empty(),
        ({
            let earlier = placement_summaries(placements, remotes);
            let all = placement_summaries(placements.push(p), remotes);
            match p {
                PlacementView::Placed { dest, tracking, operation } => all == earlier.push(
                    summary_of(remotes[placements.len() as int], tracking, operation),
                ),
                _ => all == earlier,
            }
        }),
{
    assert(placements.push(p).drop_last() =~= placements);
}

/// The valid summaries stay, in order, and the others go.
pub proof fn valid_summaries_stay(summaries: Seq<SummaryView>, s: SummaryView, flags: Seq<bool>)
    ensures
        accepted(Seq::empty(), flags) == Seq::<SummaryView>::empty(),
        accepted(summaries.push(s), flags) == if flags[summaries.len() as int] {
            accepted(summaries, flags).push(s)
        } else {
            accepted(summaries, flags)
        },
{
    assert(summaries.push(s).drop_last() =~= summaries);
}

/// Each kind of placement is counted as what it is.
pub proof fn placements_count_as_what_they_are(p: PlacementView, operation: SyncOperation)
    ensures
        placed_as(operation)(p) <==> p is Placed && p->operation == operation,
        placed_anew()(p) <==> p is Placed && p->operation != SyncOperation::Unchanged,
        left_out()(p) <==> p is NoFileName || p is NoProject,
{
}

/// The value of a placement and of a rename is that of its fields, and lists have the values in
/// order.
pub proof fn placement_value(placements: Seq<Placement>, renames: Seq<Rename>, i: int)
    ensures
        placement_views(placements).len() == placements.len(),
        rename_views(renames).len() == renames.len(),
        0 <= i < renames.len() ==> rename_views(renames)[i] == (renames[i].remote_file@, renames[i].renamed@),
        0 <= i < placements.len() ==> match placements[i] {
            Placement::Conflicted => placement_views(placements)[i] is Conflicted,
            Placement::NoFileName => placement_views(placements)[i] is NoFileName,
            Placement::NoProject => placement_views(placements)[i] is NoProject,
            Placement::Placed { dest, tracking, operation } => placement_views(placements)[i] == (PlacementView::Placed {
                dest: dest@,
                tracking: tracking@,
                operation,
            }),
        },
{
}

} // verus!
