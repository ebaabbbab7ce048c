//! What each answer leads to in a pull, told by the request, the setup and what was answered.
use crate::path::{components, joined, relative};
use crate::pull::{
    fresh_pull, unresolved_bounds, PullAction, PullActionView, PullEvent, PullEventView, PullPhase, PullReport,
    PullRequest, PullSetup, PullState,
};
use crate::pull_laws::{all_fit, earlier_fit, pull_action_after, pull_after, pull_stays_well_formed};
use crate::pull_plan::{
    accepted, conflict_summaries, directory_keeps_the_path, files_of_conflicts, leftovers_are_the_failures, left_out, local_files,
    place_by_project, placed_anew, placed_as, placement_summaries,
    project_is_the_first_component, rename_views, unresolved, Conflict, MergeOutcome, PlacementView,
};
use crate::report::{is_overview, project_views};
use crate::session::{
    first_with_id_finds, is_held, is_unheld, last_with_id_finds, operation_goes_by_content, ConversationSession, SyncOperation,
};
use vstd::prelude::*;

verus! {

/// Whether each side has a session with the id of a conflict.
pub open spec fn both_held(s: PullState, k: int) -> bool {
    &&& !is_unheld(s.locals, s.conflicts[k].session_id@)
    &&& !is_unheld(s.remotes, s.conflicts[k].session_id@)
}

/// Which events answer the action that a run waits for.
pub open spec fn pull_answers(s: PullState, event: PullEventView) -> bool {
    match s.phase {
        PullPhase::Branch => event is BranchRead,
        PullPhase::Fetch => event is Fetched,
        PullPhase::Discovery => event is Discovered,
        PullPhase::Snapshot => event is SnapshotSaved,
        PullPhase::Confirmation => event is Confirmed,
        PullPhase::SmartMerge => event matches PullEventView::MergeTried(o) && (o is Unmatched <==> !both_held(
            s,
            s.outcomes.len() as int,
        )),
        PullPhase::Interactive => event is Resolved,
        PullPhase::KeepBoth => event is KeptBoth,
        PullPhase::RemoteCopy => event is CopyWritten,
        PullPhase::Report => event is ReportSaved,
        PullPhase::Project => event is ProjectFound,
        PullPhase::Session => event is SessionDone,
        PullPhase::Settings => event is SettingsPulled,
        PullPhase::Summaries => event matches PullEventView::SummariesChecked(flags) && flags.len() == s.summaries.len(),
        PullPhase::Record => event is RecordSaved,
        PullPhase::Finished => false,
    }
}

/// Whether a machine can hold the sessions of a run.
pub open spec fn is_holdable(s: PullState) -> bool {
    s.locals.len() <= usize::MAX && s.remotes.len() <= usize::MAX && s.conflicts.len() <= usize::MAX
}

/// The pair of a conflict, where there is one, is of the sessions that both sides hold under its
/// id.
proof fn pair_is_held(s: PullState, k: int)
    requires
        is_holdable(s),
    ensures
        s.conflict_pair(k) is Some <==> both_held(s, k),
        s.conflict_pair(k) matches Some((l, r)) ==> is_held(s.locals, s.conflicts[k].session_id@, l as int) && is_held(
            s.remotes,
            s.conflicts[k].session_id@,
            r as int,
        ),
{
    let id = s.conflicts[k].session_id@;
    last_with_id_finds(s.locals, id);
    last_with_id_finds(s.remotes, id);
}

/// An event that does not answer is rejected and changes nothing; one that does is not rejected.
/// No event changes the request or the setup, and what the run is afterwards is what the laws of
/// whole runs say.
pub proof fn only_pull_answers_are_taken(s: PullState, event: PullEventView, next: PullState, action: PullActionView)
    requires
        is_holdable(s),
        s.steps_to(event, next, action),
    ensures
        !pull_answers(s, event) ==> next == s && action is Reject,
        pull_answers(s, event) ==> !(action is Reject),
        next.request == s.request && next.setup == s.setup,
        next == s.next(event),
{
    pair_is_held(s, s.outcomes.len() as int);
}

/// Whether the run turns from `s` to the branch `branch`: it is fetched exactly where that is
/// asked for and there is a remote; else the sessions of both directories are discovered.
pub open spec fn turns_to_branch(s: PullState, branch: Seq<char>, next: PullState, action: PullActionView) -> bool {
    if s.request.fetch_remote && s.setup.has_remote {
        &&& action == PullActionView::Fetch { branch }
        &&& next == (PullState { branch, phase: PullPhase::Fetch, ..s })
    } else {
        &&& discovers_both(s, action)
        &&& next == (PullState { branch, phase: PullPhase::Discovery, ..s })
    }
}

/// Whether an action discovers the sessions of both directories.
pub open spec fn discovers_both(s: PullState, action: PullActionView) -> bool {
    action == PullActionView::Discover {
        filter: s.setup.filter,
        local_dir: s.setup.claude_dir@,
        remote_dir: joined(s.setup.repo_path@, s.setup.sync_subdirectory@),
    }
}

/// At the start nothing is known; the branch asked for is turned to, or else the current one is
/// read.
pub proof fn pull_starts(request: PullRequest, setup: PullSetup)
    ensures
        ({
            let fresh = fresh_pull(request, setup);
            let (s, a) = fresh.to_start();
            &&& fresh.request == request && fresh.setup == setup
            &&& fresh.locals.len() == 0 && fresh.remotes.len() == 0 && fresh.conflicts.len() == 0 && fresh.snapshot is None
            &&& fresh.outcomes.len() == 0 && fresh.kept == 0 && fresh.renames.len() == 0 && fresh.placements.len() == 0
                && fresh.summaries.len() == 0
            &&& request.branch matches Some(b) ==> turns_to_branch(fresh, b@, s, a)
            &&& request.branch is None ==> a is ReadBranch && s == (PullState { phase: PullPhase::Branch, ..fresh })
        }),
{
}

/// The branch of a pull without one asked for is the current one, or `main` where there is none.
pub proof fn current_branch_is_pulled(s: PullState, current: Option<Seq<char>>, next: PullState, action: PullActionView)
    requires
        s.phase == PullPhase::Branch,
        s.steps_to(PullEventView::BranchRead(current), next, action),
    ensures
        current matches Some(b) ==> turns_to_branch(s, b, next, action),
        current is None ==> turns_to_branch(s, "main"@, next, action),
{
}

/// After the fetch, whatever came of it, the sessions of both directories are discovered.
pub proof fn fetch_is_followed_by_discovery(s: PullState, next: PullState, action: PullActionView)
    requires
        s.phase == PullPhase::Fetch,
        s.steps_to(PullEventView::Fetched, next, action),
    ensures
        discovers_both(s, action),
        next == (PullState { phase: PullPhase::Discovery, ..s }),
{
}

/// Whether the run turns from `s` to the user, exactly where that is asked for and there is one to
/// ask, and else to the conflicts.
pub open spec fn turns_to_consent(s: PullState, next: PullState, action: PullActionView) -> bool {
    if s.request.interactive && s.setup.terminal {
        action is Confirm && next == (PullState { phase: PullPhase::Confirmation, ..s })
    } else {
        turns_to_conflicts(s, next, action)
    }
}

/// Whether the run turns from `s` to the next conflict: the two sessions with its id that the
/// sides hold are merged; it is passed where a side has none. After the last one it turns to
/// those left over.
pub open spec fn turns_to_conflicts(s: PullState, next: PullState, action: PullActionView) -> bool {
    let k = s.outcomes.len() as int;
    if k < s.conflicts.len() {
        &&& next == (PullState { phase: PullPhase::SmartMerge, ..s })
        &&& both_held(s, k) ==> (action matches PullActionView::SmartMerge { conflict, local, remote } && conflict == k && is_held(
            s.locals,
            s.conflicts[k].session_id@,
            local,
        ) && is_held(s.remotes, s.conflicts[k].session_id@, remote))
        &&& !both_held(s, k) ==> action == (PullActionView::PassConflict { conflict: k })
    } else {
        turns_to_leftovers(s, next, action)
    }
}

/// Whether a merge failed, or the merged session could not be written.
pub open spec fn is_failure(o: MergeOutcome) -> bool {
    o is Failed || o is WriteFailed
}

/// Whether no conflict is left over.
pub open spec fn none_failed(outcomes: Seq<MergeOutcome>) -> bool {
    forall|k: int| 0 <= k < outcomes.len() ==> !is_failure(#[trigger] outcomes[k])
}

/// Whether these are, in order, the positions of the conflicts left over.
pub open spec fn are_failures(outcomes: Seq<MergeOutcome>, left: Seq<usize>) -> bool {
    &&& forall|a: int, b: int| 0 <= a < b < left.len() ==> (#[trigger] left[a]) < (#[trigger] left[b])
    &&& forall|a: int| 0 <= a < left.len() ==> (#[trigger] left[a]) < outcomes.len() && is_failure(outcomes[left[a] as int])
    &&& forall|k: int| 0 <= k < outcomes.len() && is_failure(#[trigger] outcomes[k]) ==> left.contains(k as usize)
}

/// Whether the run turns from `s` to the conflicts left over: the user resolves all of them where
/// there is one to ask, else both versions of each are kept. Without any it turns to the sessions.
pub open spec fn turns_to_leftovers(s: PullState, next: PullState, action: PullActionView) -> bool {
    if none_failed(s.outcomes) {
        turns_to_sessions(s, next, action)
    } else if s.setup.terminal {
        &&& action matches PullActionView::ResolveInteractive { conflicts } && are_failures(s.outcomes, conflicts)
        &&& next == (PullState { phase: PullPhase::Interactive, ..s })
    } else {
        turns_to_keeping(s, next, action)
    }
}

/// Whether the run turns from `s` to the next conflict left over, of which both versions are kept;
/// after the last one to the report of the conflicts.
pub open spec fn turns_to_keeping(s: PullState, next: PullState, action: PullActionView) -> bool {
    exists|left: Seq<usize>| #[trigger]
        are_failures(s.outcomes, left) && if s.kept < left.len() {
            &&& action == PullActionView::KeepBoth { conflict: left[s.kept] as int }
            &&& next == (PullState { phase: PullPhase::KeepBoth, ..s })
        } else {
            action is SaveReport && next == (PullState { phase: PullPhase::Report, ..s })
        }
}

/// The path of a remote session from the projects directory of the repository.
pub open spec fn from_there(s: PullState, i: int) -> Seq<char> {
    relative(s.remotes[i].file_path@, joined(s.setup.repo_path@, s.setup.sync_subdirectory@))
}

/// Whether `operation` is what bringing the session at `i` over does, by id and content.
pub open spec fn is_operation(s: PullState, i: int, operation: SyncOperation) -> bool {
    let id = s.remotes[i].session_id@;
    &&& operation == SyncOperation::Added <==> is_unheld(s.locals, id)
    &&& forall|j: int| #[trigger]
        is_held(s.locals, id, j) ==> operation == if s.locals[j].content_hash@ == s.remotes[i].content_hash@ {
            SyncOperation::Unchanged
        } else {
            SyncOperation::Modified
        }
    &&& operation != SyncOperation::Conflict
}

/// Whether the run settles the session at the next position as `p`: what is placed is written
/// there, unless it is unchanged; anything else is skipped.
pub open spec fn settles_as(s: PullState, p: PlacementView, next: PullState, action: PullActionView) -> bool {
    let i = s.placements.len() as int;
    &&& next == (PullState { placements: s.placements.push(p), phase: PullPhase::Session, ..s })
    &&& match p {
        PlacementView::Placed { dest, tracking, operation } => if operation == SyncOperation::Unchanged {
            action == PullActionView::KeepSession { remote: i }
        } else {
            action == PullActionView::WriteSession { remote: i, dest }
        },
        _ => action == PullActionView::SkipSession { remote: i },
    }
}

/// Whether the run turns from `s` to the next remote session: one in conflict is skipped; by
/// project its project is looked for, by the first component of its path; by directory it goes to
/// its path under the local directory. After the last one it turns to the settings.
pub open spec fn turns_to_sessions(s: PullState, next: PullState, action: PullActionView) -> bool {
    let i = s.placements.len() as int;
    if i >= s.remotes.len() {
        turns_to_settings(s, next, action)
    } else if exists|c: int| 0 <= c < s.conflicts.len() && (#[trigger] s.conflicts[c]).session_id@ == s.remotes[i].session_id@ {
        settles_as(s, PlacementView::Conflicted, next, action)
    } else if s.setup.features.use_project_name_only {
        &&& next == (PullState { phase: PullPhase::Project, ..s })
        &&& action matches PullActionView::FindProject { remote, name } && remote == i && if components(from_there(s, i)).len() > 0 {
            name == components(from_there(s, i))[0]
        } else {
            name == "unknown"@
        }
    } else {
        exists|operation: SyncOperation| #[trigger]
            is_operation(s, i, operation) && settles_as(
                s,
                PlacementView::Placed {
                    dest: joined(s.setup.claude_dir@, from_there(s, i)),
                    tracking: from_there(s, i),
                    operation,
                },
                next,
                action,
            )
    }
}

/// Whether the run turns from `s` to the settings, where they are synchronised, and else to the
/// summaries.
pub open spec fn turns_to_settings(s: PullState, next: PullState, action: PullActionView) -> bool {
    if s.setup.features.sync_settings {
        action is PullSettings && next == (PullState { phase: PullPhase::Settings, ..s })
    } else {
        sums_up(s, next, action)
    }
}

/// Whether the run turns from `s` to the summaries: of the conflicts kept, then of the sessions
/// placed.
pub open spec fn sums_up(s: PullState, next: PullState, action: PullActionView) -> bool {
    &&& action is CheckSummaries
    &&& next == (PullState {
        summaries: conflict_summaries(s.renames, s.remotes, s.setup.claude_dir@) + placement_summaries(s.placements, s.remotes),
        phase: PullPhase::Summaries,
        ..s
    })
}

/// The machine turns to the next session as is told.
proof fn to_session_turns(s: PullState)
    requires
        is_holdable(s),
    ensures
        turns_to_sessions(s, s.to_session().0, s.to_session().1),
{
    let i = s.placements.len() as int;
    if i < s.remotes.len() {
        operation_goes_by_content(s.locals, s.remotes[i]);
        assert(is_operation(s, i, s.operation(i)));
        directory_keeps_the_path(from_there(s, i), s.setup.claude_dir@, s.operation(i));
        project_is_the_first_component(from_there(s, i));
    }
}

/// The positions left over are those of the failures.
proof fn leftovers_are_failures(outcomes: Seq<MergeOutcome>)
    requires
        outcomes.len() <= usize::MAX,
    ensures
        are_failures(outcomes, unresolved(outcomes)),
        unresolved(outcomes).len() == 0 <==> none_failed(outcomes),
{
    leftovers_are_the_failures(outcomes);
    if unresolved(outcomes).len() > 0 {
        let k = unresolved(outcomes)[0] as int;
        assert(is_failure(outcomes[k]));
    }
    assert forall|k: int| 0 <= k < outcomes.len() && is_failure(#[trigger] outcomes[k]) implies unresolved(outcomes).contains(k as usize) by {}
}

/// The machine turns to the next conflict as is told.
proof fn to_conflict_turns(s: PullState)
    requires
        is_holdable(s),
        s.outcomes.len() <= s.conflicts.len(),
    ensures
        turns_to_conflicts(s, s.to_smart_merge().0, s.to_smart_merge().1),
{
    pair_is_held(s, s.outcomes.len() as int);
    leftovers_are_failures(s.outcomes);
    to_session_turns(s);
}

/// The discovered sessions and conflicts are those of the pull. The local files of all conflicts
/// are saved, in order, before anything else, where there are any; else the user is turned to.
pub proof fn discovery_is_followed_by_the_snapshot(
    s: PullState,
    locals: Seq<ConversationSession>,
    remotes: Seq<ConversationSession>,
    conflicts: Seq<Conflict>,
    next: PullState,
    action: PullActionView,
)
    requires
        s.phase == PullPhase::Discovery,
        s.outcomes.len() == 0,
        is_holdable(PullState { locals, remotes, conflicts, ..s }),
        s.steps_to(PullEventView::Discovered { locals, remotes, conflicts }, next, action),
    ensures
        ({
            let t = PullState { locals, remotes, conflicts, ..s };
            &&& conflicts.len() > 0 ==> {
                &&& next == (PullState { phase: PullPhase::Snapshot, ..t })
                &&& action matches PullActionView::SaveSnapshot { files } && files.len() == conflicts.len() && forall|i: int|
                    0 <= i < files.len() ==> (#[trigger] files[i]) == conflicts[i].local_file@
            }
            &&& conflicts.len() == 0 ==> turns_to_consent(t, next, action)
        }),
{
    let t = PullState { locals, remotes, conflicts, ..s };
    assert forall|i: int| 0 <= i < conflicts.len() implies (#[trigger] local_files(conflicts)[i])
        == conflicts[i].local_file@ by {
        files_of_conflicts(conflicts, i);
    }
    to_conflict_turns(t);
}

/// The snapshot is kept for the record, and the user is turned to.
pub proof fn snapshot_is_followed_by_consent(s: PullState, path: Seq<char>, next: PullState, action: PullActionView)
    requires
        s.phase == PullPhase::Snapshot,
        s.outcomes.len() <= s.conflicts.len(),
        is_holdable(s),
        s.steps_to(PullEventView::SnapshotSaved(path), next, action),
    ensures
        turns_to_consent(PullState { snapshot: Some(path), ..s }, next, action),
{
    to_conflict_turns(PullState { snapshot: Some(path), ..s });
}

/// With consent the conflicts are turned to; without it the pull is over.
pub proof fn consent_is_followed_by_conflicts(s: PullState, yes: bool, next: PullState, action: PullActionView)
    requires
        s.phase == PullPhase::Confirmation,
        s.outcomes.len() <= s.conflicts.len(),
        is_holdable(s),
        s.steps_to(PullEventView::Confirmed(yes), next, action),
    ensures
        yes ==> turns_to_conflicts(s, next, action),
        !yes ==> action is Cancel && next == (PullState { phase: PullPhase::Finished, ..s }),
{
    to_conflict_turns(s);
}

/// What came of a merge is kept, and the next conflict is turned to.
pub proof fn merges_are_tried_in_turn(s: PullState, outcome: MergeOutcome, next: PullState, action: PullActionView)
    requires
        s.phase == PullPhase::SmartMerge,
        s.outcomes.len() < s.conflicts.len(),
        is_holdable(s),
        outcome is Unmatched <==> !both_held(s, s.outcomes.len() as int),
        s.steps_to(PullEventView::MergeTried(outcome), next, action),
    ensures
        turns_to_conflicts(PullState { outcomes: s.outcomes.push(outcome), ..s }, next, action),
{
    pair_is_held(s, s.outcomes.len() as int);
    to_conflict_turns(PullState { outcomes: s.outcomes.push(outcome), ..s });
}

/// The versions that the user kept are those kept, and the report of the conflicts is saved.
pub proof fn resolution_is_followed_by_the_report(
    s: PullState,
    renames: Seq<(Seq<char>, Seq<char>)>,
    next: PullState,
    action: PullActionView,
)
    requires
        s.phase == PullPhase::Interactive,
        s.steps_to(PullEventView::Resolved(renames), next, action),
    ensures
        action is SaveReport,
        next == (PullState { renames, phase: PullPhase::Report, ..s }),
{
}

/// Keeping both versions of the conflict that stands at `left[kept]`: the first remote session with
/// its id is written to the file chosen, and the file is kept for the record; without a file, or
/// without a session, the next conflict is turned to.
pub proof fn remote_version_is_kept(
    s: PullState,
    left: Seq<usize>,
    file: Option<Seq<char>>,
    next: PullState,
    action: PullActionView,
)
    requires
        s.wf(),
        s.phase == PullPhase::KeepBoth,
        is_holdable(s),
        are_failures(s.outcomes, left),
        s.steps_to(PullEventView::KeptBoth(file), next, action),
    ensures
        0 <= s.kept < left.len(),
        match file {
            Some(dest) => {
                let conflict = s.conflicts[left[s.kept] as int];
                let renamed = PullState { renames: s.renames.push((conflict.remote_file@, dest)), ..s };
                &&& is_unheld(s.remotes, conflict.session_id@) ==> turns_to_keeping(
                    PullState { kept: s.kept + 1, ..renamed },
                    next,
                    action,
                )
                &&& !is_unheld(s.remotes, conflict.session_id@) ==> {
                    &&& action matches PullActionView::WriteRemoteCopy { remote, dest: d } && d == dest && 0 <= remote
                        < s.remotes.len() && s.remotes[remote].session_id@ == conflict.session_id@ && forall|j: int|
                        0 <= j < remote ==> (#[trigger] s.remotes[j]).session_id@ != conflict.session_id@
                    &&& next == (PullState { phase: PullPhase::RemoteCopy, ..renamed })
                }
            },
            None => turns_to_keeping(PullState { kept: s.kept + 1, ..s }, next, action),
        },
{
    leftovers_are_failures(s.outcomes);
    same_failures(s.outcomes, left, unresolved(s.outcomes));
    let conflict = s.conflicts[left[s.kept] as int];
    first_with_id_finds(s.remotes, conflict.session_id@);
    assert(are_failures(s.outcomes, unresolved(s.outcomes)));
}

/// There is one list of the conflicts left over.
pub proof fn same_failures(outcomes: Seq<MergeOutcome>, a: Seq<usize>, b: Seq<usize>)
    requires
        outcomes.len() <= usize::MAX,
        are_failures(outcomes, a),
        are_failures(outcomes, b),
    ensures
        a == b,
    decreases outcomes.len(),
{
    if outcomes.len() == 0 {
        if a.len() > 0 {
            assert(a[0] < outcomes.len());
        }
        if b.len() > 0 {
            assert(b[0] < outcomes.len());
        }
        assert(a =~= b);
    } else {
        let n = outcomes.len() - 1;
        let rest = outcomes.drop_last();
        if is_failure(outcomes[n]) {
            last_failure(outcomes, a);
            last_failure(outcomes, b);
            same_failures(rest, a.drop_last(), b.drop_last());
            assert(a =~= a.drop_last().push(n as usize));
            assert(b =~= b.drop_last().push(n as usize));
        } else {
            earlier_failures(outcomes, a);
            earlier_failures(outcomes, b);
            same_failures(rest, a, b);
        }
    }
}

proof fn last_failure(outcomes: Seq<MergeOutcome>, a: Seq<usize>)
    requires
        0 < outcomes.len() <= usize::MAX,
        are_failures(outcomes, a),
        is_failure(outcomes[outcomes.len() - 1]),
    ensures
        a.len() > 0,
        a.last() == outcomes.len() - 1,
        are_failures(outcomes.drop_last(), a.drop_last()),
{
    let n = outcomes.len() - 1;
    let rest = outcomes.drop_last();
    assert(a.contains(n as usize));
    let at = choose|at: int| 0 <= at < a.len() && a[at] == n as usize;
    if at < a.len() - 1 {
        assert(a[at] < a[a.len() - 1]);
        assert(a[a.len() - 1] < outcomes.len());
    }
    let c = a.drop_last();
    assert forall|x: int| 0 <= x < c.len() implies (#[trigger] c[x]) < rest.len() && is_failure(rest[c[x] as int]) by {
        assert(a[x] < a[a.len() - 1]);
        assert(rest[a[x] as int] == outcomes[a[x] as int]);
    }
    assert forall|k: int| 0 <= k < rest.len() && is_failure(#[trigger] rest[k]) implies c.contains(k as usize) by {
        assert(rest[k] == outcomes[k]);
        let x = choose|x: int| 0 <= x < a.len() && a[x] == k as usize;
        assert(c[x] == k as usize);
    }
    assert forall|x: int, y: int| 0 <= x < y < c.len() implies (#[trigger] c[x]) < (#[trigger] c[y]) by {
        assert(a[x] < a[y]);
    }
}

proof fn earlier_failures(outcomes: Seq<MergeOutcome>, a: Seq<usize>)
    requires
        0 < outcomes.len() <= usize::MAX,
        are_failures(outcomes, a),
        !is_failure(outcomes[outcomes.len() - 1]),
    ensures
        are_failures(outcomes.drop_last(), a),
{
    let rest = outcomes.drop_last();
    assert forall|x: int| 0 <= x < a.len() implies (#[trigger] a[x]) < rest.len() && is_failure(rest[a[x] as int]) by {
        assert(is_failure(outcomes[a[x] as int]));
        assert(rest[a[x] as int] == outcomes[a[x] as int]);
    }
    assert forall|k: int| 0 <= k < rest.len() && is_failure(#[trigger] rest[k]) implies a.contains(k as usize) by {
        assert(rest[k] == outcomes[k]);
    }
}

/// After a copy the next conflict left over is turned to.
pub proof fn copies_are_written_in_turn(s: PullState, next: PullState, action: PullActionView)
    requires
        s.wf(),
        s.phase == PullPhase::RemoteCopy,
        s.steps_to(PullEventView::CopyWritten, next, action),
    ensures
        turns_to_keeping(PullState { kept: s.kept + 1, ..s }, next, action),
{
    leftovers_are_failures(s.outcomes);
}

/// After the report of the conflicts, and after each session, the next session is turned to.
pub proof fn remote_sessions_are_taken_in_turn(s: PullState, event: PullEventView, next: PullState, action: PullActionView)
    requires
        s.phase == PullPhase::Report && event is ReportSaved || s.phase == PullPhase::Session && event is SessionDone,
        is_holdable(s),
        s.steps_to(event, next, action),
    ensures
        turns_to_sessions(s, next, action),
{
    to_session_turns(s);
}

/// By project a session is settled by what was found of its project, with the operation by id and
/// content.
pub proof fn project_settles_the_session(s: PullState, dir: Option<Seq<char>>, next: PullState, action: PullActionView)
    requires
        s.phase == PullPhase::Project,
        is_holdable(s),
        s.placements.len() < s.remotes.len(),
        s.steps_to(PullEventView::ProjectFound(dir), next, action),
    ensures
        ({
            let i = s.placements.len() as int;
            exists|operation: SyncOperation| #[trigger]
                is_operation(s, i, operation) && settles_as(
                    s,
                    place_by_project(from_there(s, i), dir, s.setup.claude_dir@, operation),
                    next,
                    action,
                )
        }),
{
    let i = s.placements.len() as int;
    operation_goes_by_content(s.locals, s.remotes[i]);
    assert(is_operation(s, i, s.operation(i)));
}

/// After the settings the run is summed up.
pub proof fn settings_are_followed_by_summaries(s: PullState, next: PullState, action: PullActionView)
    requires
        s.phase == PullPhase::Settings,
        s.steps_to(PullEventView::SettingsPulled, next, action),
    ensures
        sums_up(s, next, action),
{
}

/// The summaries that are valid are kept, and the pull is recorded.
pub proof fn summaries_are_followed_by_the_record(s: PullState, flags: Seq<bool>, next: PullState, action: PullActionView)
    requires
        s.phase == PullPhase::Summaries,
        flags.len() == s.summaries.len(),
        s.steps_to(PullEventView::SummariesChecked(flags), next, action),
    ensures
        action is SaveRecord,
        next == (PullState { summaries: accepted(s.summaries, flags), phase: PullPhase::Record, ..s }),
{
}

/// After the record the pull is over, with a report: how many sessions were placed with each
/// operation, how many were written, how many had no place, how many conflicts there were, and the
/// overview of the summaries.
pub proof fn pull_record_is_followed_by_the_report(s: PullState, next: PullState, action: PullActionView)
    requires
        s.phase == PullPhase::Record,
        s.steps_to(PullEventView::RecordSaved, next, action),
    ensures
        next == (PullState { phase: PullPhase::Finished, ..s }),
        action matches PullActionView::Finish { report } && {
            &&& report.added == s.placements.filter(placed_as(SyncOperation::Added)).len()
            &&& report.modified == s.placements.filter(placed_as(SyncOperation::Modified)).len()
            &&& report.unchanged == s.placements.filter(placed_as(SyncOperation::Unchanged)).len()
            &&& report.merged == s.placements.filter(placed_anew()).len()
            &&& report.skipped == s.placements.filter(left_out()).len()
            &&& report.conflicts == s.conflicts.len()
            &&& is_overview(s.summaries, report.projects)
        },
{
}

/// In every run the sessions that are merged are the two of the conflict that is merged, and a
/// conflict is passed only where a side has no session with its id.
pub proof fn merged_sessions_are_of_their_conflict(
    request: PullRequest,
    setup: PullSetup,
    events: Seq<PullEventView>,
    event: PullEventView,
    next: PullState,
    action: PullActionView,
)
    requires
        all_fit(events),
        pull_after(request, setup, events).steps_to(event, next, action),
        is_holdable(next),
    ensures
        action matches PullActionView::SmartMerge { conflict, local, remote } ==> {
            &&& 0 <= conflict < next.conflicts.len()
            &&& 0 <= local < next.locals.len()
            &&& 0 <= remote < next.remotes.len()
            &&& next.locals[local].session_id@ == next.conflicts[conflict].session_id@
            &&& next.remotes[remote].session_id@ == next.conflicts[conflict].session_id@
            &&& is_held(next.locals, next.conflicts[conflict].session_id@, local)
            &&& is_held(next.remotes, next.conflicts[conflict].session_id@, remote)
            &&& conflict == next.outcomes.len()
        },
        action matches PullActionView::PassConflict { conflict } ==> {
            &&& 0 <= conflict < next.conflicts.len()
            &&& is_unheld(next.locals, next.conflicts[conflict].session_id@) || is_unheld(
                next.remotes,
                next.conflicts[conflict].session_id@,
            )
        },
{
    pull_stays_well_formed(request, setup, events);
    if action is SmartMerge || action is PassConflict {
        pair_is_held(next, next.outcomes.len() as int);
    }
}

/// The conflict of which a run asked last that both versions be kept.
pub open spec fn named_last(request: PullRequest, setup: PullSetup, events: Seq<PullEventView>) -> Option<int>
    decreases events.len(),
{
    if events.len() == 0 {
        None
    } else {
        match pull_action_after(pull_after(request, setup, events.drop_last()), events.last()) {
            PullActionView::KeepBoth { conflict } => Some(conflict),
            _ => named_last(request, setup, events.drop_last()),
        }
    }
}

/// A step to a conflict left over names it; any other that waits for one changes nothing.
proof fn keeping_is_named(s: PullState, event: PullEventView)
    ensures
        s.next(event).phase == PullPhase::KeepBoth ==> {
            let n = s.next(event);
            ||| pull_action_after(s, event) == (PullActionView::KeepBoth { conflict: unresolved(n.outcomes)[n.kept] as int })
            ||| n == s && !(pull_action_after(s, event) is KeepBoth)
        },
{
}

/// While a run waits for the file of a conflict left over, that conflict was named last.
proof fn awaited_was_named(request: PullRequest, setup: PullSetup, events: Seq<PullEventView>)
    requires
        all_fit(events),
    ensures
        ({
            let s = pull_after(request, setup, events);
            s.phase == PullPhase::KeepBoth ==> named_last(request, setup, events) == Some(unresolved(s.outcomes)[s.kept] as int)
        }),
    decreases events.len(),
{
    if events.len() > 0 {
        earlier_fit(events);
        awaited_was_named(request, setup, events.drop_last());
        keeping_is_named(pull_after(request, setup, events.drop_last()), events.last());
    }
}

/// In every run the remote version that is kept answers the file chosen for the conflict that was
/// named last: the file is that one, and the session is the first remote one with the id of that
/// conflict. Where there is none, nothing is written, and the choice is kept all the same.
pub proof fn kept_version_is_of_its_conflict(
    request: PullRequest,
    setup: PullSetup,
    events: Seq<PullEventView>,
    event: PullEventView,
    next: PullState,
    action: PullActionView,
)
    requires
        all_fit(events),
        pull_after(request, setup, events).steps_to(event, next, action),
    ensures
        ({
            let s = pull_after(request, setup, events);
            &&& action matches PullActionView::WriteRemoteCopy { remote, dest } ==> {
                &&& event == PullEventView::KeptBoth(Some(dest))
                &&& named_last(request, setup, events) matches Some(k) && {
                    &&& 0 <= k < s.conflicts.len()
                    &&& 0 <= remote < s.remotes.len()
                    &&& s.remotes[remote].session_id@ == s.conflicts[k].session_id@
                    &&& forall|j: int| 0 <= j < remote ==> (#[trigger] s.remotes[j]).session_id@ != s.conflicts[k].session_id@
                    &&& next.renames == s.renames.push((s.conflicts[k].remote_file@, dest))
                }
            }
            &&& s.phase == PullPhase::KeepBoth && !(action is WriteRemoteCopy) ==> (event matches PullEventView::KeptBoth(Some(dest)) ==> {
                &&& named_last(request, setup, events) matches Some(k) && {
                    &&& is_unheld(s.remotes, s.conflicts[k].session_id@)
                    &&& next.renames == s.renames.push((s.conflicts[k].remote_file@, dest))
                }
            })
        }),
{
    let s = pull_after(request, setup, events);
    pull_stays_well_formed(request, setup, events);
    awaited_was_named(request, setup, events);
    unresolved_bounds(s.outcomes);
    if s.phase == PullPhase::KeepBoth {
        first_with_id_finds(s.remotes, s.conflicts[unresolved(s.outcomes)[s.kept] as int].session_id@);
    }
}

/// In every run in which the settings are synchronised, the pull is recorded only after they were
/// pulled.
pub proof fn settings_are_pulled_before_the_record(request: PullRequest, setup: PullSetup, events: Seq<PullEventView>)
    requires
        setup.features.sync_settings,
        all_fit(events),
    ensures
        ({
            let phase = pull_after(request, setup, events).phase;
            phase == PullPhase::Summaries || phase == PullPhase::Record ==> exists|i: int|
                0 <= i < events.len() && (#[trigger] events[i]) is SettingsPulled
        }),
    decreases events.len(),
{
    if events.len() > 0 {
        let rest = events.drop_last();
        earlier_fit(events);
        settings_are_pulled_before_the_record(request, setup, rest);
        pull_stays_well_formed(request, setup, rest);
        if exists|i: int| 0 <= i < rest.len() && (#[trigger] rest[i]) is SettingsPulled {
            let i = choose|i: int| 0 <= i < rest.len() && (#[trigger] rest[i]) is SettingsPulled;
            assert(events[i] is SettingsPulled);
        }
        if events.last() is SettingsPulled {
            assert(events[events.len() - 1] is SettingsPulled);
        }
    }
}

/// In every run in which a fetch is asked for and there is a remote, the sessions are discovered
/// only after it was tried.
pub proof fn fetch_is_tried_before_discovery(request: PullRequest, setup: PullSetup, events: Seq<PullEventView>)
    requires
        request.fetch_remote && setup.has_remote,
        all_fit(events),
    ensures
        ({
            let phase = pull_after(request, setup, events).phase;
            phase != PullPhase::Branch && phase != PullPhase::Fetch ==> exists|i: int|
                0 <= i < events.len() && (#[trigger] events[i]) is Fetched
        }),
    decreases events.len(),
{
    if events.len() > 0 {
        let rest = events.drop_last();
        earlier_fit(events);
        fetch_is_tried_before_discovery(request, setup, rest);
        pull_stays_well_formed(request, setup, rest);
        if exists|i: int| 0 <= i < rest.len() && (#[trigger] rest[i]) is Fetched {
            let i = choose|i: int| 0 <= i < rest.len() && (#[trigger] rest[i]) is Fetched;
            assert(events[i] is Fetched);
        }
        if events.last() is Fetched {
            assert(events[events.len() - 1] is Fetched);
        }
    }
}

/// The value of an action is that of its fields.
pub proof fn pull_action_value(a: PullAction)
    ensures
        match a {
            PullAction::ReadBranch => a@ is ReadBranch,
            PullAction::Fetch { branch } => a@ == (PullActionView::Fetch { branch: branch@ }),
            PullAction::Discover { filter, local_dir, remote_dir } => a@ == (PullActionView::Discover {
                filter,
                local_dir: local_dir@,
                remote_dir: remote_dir@,
            }),
            PullAction::SaveSnapshot { files } => a@ matches PullActionView::SaveSnapshot { files: v } && v.len() == files@.len() && forall|
                i: int,
            |
                0 <= i < v.len() ==> (#[trigger] v[i]) == files@[i]@,
            PullAction::Confirm => a@ is Confirm,
            PullAction::SmartMerge { conflict, local, remote } => a@ == (PullActionView::SmartMerge {
                conflict: conflict as int,
                local: local as int,
                remote: remote as int,
            }),
            PullAction::PassConflict { conflict } => a@ == (PullActionView::PassConflict { conflict: conflict as int }),
            PullAction::ResolveInteractive { conflicts } => a@ == (PullActionView::ResolveInteractive { conflicts: conflicts@ }),
            PullAction::KeepBoth { conflict } => a@ == (PullActionView::KeepBoth { conflict: conflict as int }),
            PullAction::WriteRemoteCopy { remote, dest } => a@ == (PullActionView::WriteRemoteCopy { remote: remote as int, dest: dest@ }),
            PullAction::SaveReport => a@ is SaveReport,
            PullAction::FindProject { remote, name } => a@ == (PullActionView::FindProject { remote: remote as int, name: name@ }),
            PullAction::SkipSession { remote } => a@ == (PullActionView::SkipSession { remote: remote as int }),
            PullAction::KeepSession { remote } => a@ == (PullActionView::KeepSession { remote: remote as int }),
            PullAction::WriteSession { remote, dest } => a@ == (PullActionView::WriteSession { remote: remote as int, dest: dest@ }),
            PullAction::PullSettings => a@ is PullSettings,
            PullAction::CheckSummaries => a@ is CheckSummaries,
            PullAction::SaveRecord => a@ is SaveRecord,
            PullAction::Finish { report } => a@ matches PullActionView::Finish { report: v } && v == report@,
            PullAction::Cancel => a@ is Cancel,
            PullAction::Reject => a@ is Reject,
        },
{
}

/// The value of an event is that of its fields.
pub proof fn pull_event_value(e: PullEvent)
    ensures
        match e {
            PullEvent::BranchRead(Some(b)) => e@ == PullEventView::BranchRead(Some(b@)),
            PullEvent::BranchRead(None) => e@ == PullEventView::BranchRead(None),
            PullEvent::Fetched => e@ is Fetched,
            PullEvent::Discovered { locals, remotes, conflicts } => e@ == (PullEventView::Discovered {
                locals: locals@,
                remotes: remotes@,
                conflicts: conflicts@,
            }),
            PullEvent::SnapshotSaved(path) => e@ == PullEventView::SnapshotSaved(path@),
            PullEvent::Confirmed(yes) => e@ == PullEventView::Confirmed(yes),
            PullEvent::MergeTried(o) => e@ == PullEventView::MergeTried(o),
            PullEvent::Resolved(renames) => e@ == PullEventView::Resolved(rename_views(renames@)),
            PullEvent::KeptBoth(Some(file)) => e@ == PullEventView::KeptBoth(Some(file@)),
            PullEvent::KeptBoth(None) => e@ == PullEventView::KeptBoth(None),
            PullEvent::CopyWritten => e@ is CopyWritten,
            PullEvent::ReportSaved => e@ is ReportSaved,
            PullEvent::ProjectFound(Some(dir)) => e@ == PullEventView::ProjectFound(Some(dir@)),
            PullEvent::ProjectFound(None) => e@ == PullEventView::ProjectFound(None),
            PullEvent::SessionDone => e@ is SessionDone,
            PullEvent::SettingsPulled => e@ is SettingsPulled,
            PullEvent::SummariesChecked(flags) => e@ == PullEventView::SummariesChecked(flags@),
            PullEvent::RecordSaved => e@ is RecordSaved,
        },
{
}

/// The value of a report is that of its fields.
pub proof fn pull_report_value(r: PullReport)
    ensures
        r@.added == r.added && r@.modified == r.modified && r@.conflicts == r.conflicts && r@.unchanged == r.unchanged,
        r@.merged == r.merged && r@.skipped == r.skipped,
        r@.projects == project_views(r.projects@),
{
}

} // verus!
