//! Laws of a pull: what holds of every run, whatever the outside answers.
use crate::path::{components, stripped};
use crate::path_laws::{here_has_component, join_appends_components, tail_keeps_components};
use crate::pull::{
    fresh_pull, step_keeps_wf, PullActionView, PullEventView, PullPhase, PullReportView, PullRequest, PullSetup, PullState,
};
use crate::pull_plan::{
    in_conflict, left_out, local_files, place_by_directory, place_by_project, placed_anew, placed_as, unresolved,
    PlacementView,
};
use crate::session::SyncOperation;
use vstd::prelude::*;

verus! {

/// What a run is after a list of events.
pub open spec fn run(start: PullState, events: Seq<PullEventView>) -> PullState
    decreases events.len(),
{
    if events.len() == 0 {
        start
    } else {
        run(start, events.drop_last()).next(events.last())
    }
}

/// A pull after a list of events.
pub open spec fn pull_after(request: PullRequest, setup: PullSetup, events: Seq<PullEventView>) -> PullState {
    run(fresh_pull(request, setup).to_start().0, events)
}

/// Whether an action may change a session file or the settings.
pub open spec fn changes_files(action: PullActionView) -> bool {
    ||| action is SmartMerge
    ||| action is ResolveInteractive
    ||| action is WriteRemoteCopy
    ||| action is WriteSession
    ||| action is PullSettings
}

/// Events that a machine can hold.
pub open spec fn fits(event: PullEventView) -> bool {
    event matches PullEventView::Discovered { remotes, conflicts, .. } ==> remotes.len() <= usize::MAX && conflicts.len()
        <= usize::MAX
}

/// Events that a machine can hold.
pub open spec fn all_fit(events: Seq<PullEventView>) -> bool {
    forall|i: int| 0 <= i < events.len() ==> fits(#[trigger] events[i])
}

/// Where events fit, so do the last one and those before it.
pub proof fn earlier_fit(events: Seq<PullEventView>)
    requires
        events.len() > 0,
        all_fit(events),
    ensures
        all_fit(events.drop_last()),
        fits(events.last()),
{
    let rest = events.drop_last();
    assert forall|i: int| 0 <= i < rest.len() implies fits(#[trigger] rest[i]) by {
        assert(rest[i] == events[i]);
    }
    assert(fits(events[events.len() - 1]));
}

/// Whether the request and the setup of a run are these.
pub open spec fn is_for(s: PullState, request: PullRequest, setup: PullSetup) -> bool {
    s.request == request && s.setup == setup
}

/// Whether the files in conflict are saved by now, if there are any.
pub open spec fn saved_if_needed(s: PullState) -> bool {
    ||| s.phase == PullPhase::Branch
    ||| s.phase == PullPhase::Fetch
    ||| s.phase == PullPhase::Discovery
    ||| s.phase == PullPhase::Snapshot
    ||| s.conflicts.len() > 0 ==> s.snapshot is Some
}

/// Whether a session's placement is the right one: a session in conflict has none; by directory
/// it keeps its place; by project it goes where some answer to the search for its project says.
pub open spec fn placement_fits(s: PullState, i: int) -> bool {
    if in_conflict(s.conflicts, s.remotes[i].session_id@) {
        s.placements[i] == PlacementView::Conflicted
    } else if s.setup.features.use_project_name_only {
        exists|dir: Option<Seq<char>>|
            s.placements[i] == #[trigger] place_by_project(s.remote_relative(i), dir, s.setup.claude_dir@, s.operation(i))
    } else {
        s.placements[i] == place_by_directory(s.remote_relative(i), s.setup.claude_dir@, s.operation(i))
    }
}

/// Whether every placement so far is the right one.
pub open spec fn placements_fit(s: PullState) -> bool {
    forall|i: int| 0 <= i < s.placements.len() ==> #[trigger] placement_fits(s, i)
}

/// Whether two runs have the same sessions and the same setup.
spec fn alike(s: PullState, n: PullState) -> bool {
    s.conflicts == n.conflicts && s.remotes == n.remotes && s.locals == n.locals && s.setup == n.setup
}

/// A placement stays right as long as sessions and setup stay.
proof fn placement_carries(s: PullState, n: PullState, i: int)
    requires
        alike(s, n),
        s.placements[i] == n.placements[i],
        placement_fits(s, i),
    ensures
        placement_fits(n, i),
{
    assert(s.remote_relative(i) == n.remote_relative(i));
    assert(s.operation(i) == n.operation(i));
    if !in_conflict(s.conflicts, s.remotes[i].session_id@) && s.setup.features.use_project_name_only {
        let dir = choose|dir: Option<Seq<char>>|
            s.placements[i] == #[trigger] place_by_project(s.remote_relative(i), dir, s.setup.claude_dir@, s.operation(i));
        assert(n.placements[i] == place_by_project(n.remote_relative(i), dir, n.setup.claude_dir@, n.operation(i)));
    }
}

/// Placements stay right when nothing is placed.
proof fn placements_carry(s: PullState, n: PullState)
    requires
        alike(s, n) || s.placements.len() == 0,
        s.placements == n.placements,
        placements_fit(s),
    ensures
        placements_fit(n),
{
    assert forall|i: int| 0 <= i < n.placements.len() implies #[trigger] placement_fits(n, i) by {
        assert(placement_fits(s, i));
        placement_carries(s, n, i);
    }
}

/// Placements stay right when the next one is right.
proof fn placed_fits(s: PullState, p: PlacementView)
    requires
        placements_fit(s),
        placement_fits(PullState { placements: s.placements.push(p), ..s }, s.placements.len() as int),
    ensures
        placements_fit(s.placed(p).0),
{
    let n = s.placed(p).0;
    assert forall|i: int| 0 <= i < n.placements.len() implies #[trigger] placement_fits(n, i) by {
        if i < s.placements.len() {
            assert(placement_fits(s, i));
            placement_carries(s, n, i);
        } else {
            placement_carries(PullState { placements: s.placements.push(p), ..s }, n, i);
        }
    }
}

/// Turning to the next session keeps placements right.
proof fn to_session_fits(s: PullState)
    requires
        placements_fit(s),
    ensures
        placements_fit(s.to_session().0),
{
    let i = s.placements.len() as int;
    let n = s.to_session().0;
    if i < s.remotes.len() && in_conflict(s.conflicts, s.remotes[i].session_id@) {
        placed_fits(s, PlacementView::Conflicted);
    } else if i < s.remotes.len() && !s.setup.features.use_project_name_only {
        placed_fits(s, place_by_directory(s.remote_relative(i), s.setup.claude_dir@, s.operation(i)));
    } else {
        placements_carry(s, n);
    }
}

/// Turning to the next conflict keeps placements right.
proof fn to_smart_merge_fits(s: PullState)
    requires
        placements_fit(s),
    ensures
        placements_fit(s.to_smart_merge().0),
{
    if s.outcomes.len() >= s.conflicts.len() && unresolved(s.outcomes).len() == 0 {
        to_session_fits(s);
    } else {
        placements_carry(s, s.to_smart_merge().0);
    }
}

/// One step keeps placements right.
proof fn step_keeps_placements(s: PullState, event: PullEventView)
    requires
        s.wf(),
        placements_fit(s),
    ensures
        placements_fit(s.next(event)),
{
    let n = s.next(event);
    match (s.phase, event) {
        (PullPhase::Discovery, PullEventView::Discovered { locals, remotes, conflicts }) => {
            let t = PullState { locals, remotes, conflicts, ..s };
            placements_carry(s, t);
            if conflicts.len() == 0 && !t.asks() {
                to_smart_merge_fits(t);
            } else {
                placements_carry(t, n);
            }
        },
        (PullPhase::Snapshot, PullEventView::SnapshotSaved(path)) => {
            let t = PullState { snapshot: Some(path), ..s };
            placements_carry(s, t);
            if !t.asks() {
                to_smart_merge_fits(t);
            } else {
                placements_carry(t, n);
            }
        },
        (PullPhase::Confirmation, PullEventView::Confirmed(yes)) => {
            if yes {
                to_smart_merge_fits(s);
            } else {
                placements_carry(s, n);
            }
        },
        (PullPhase::SmartMerge, PullEventView::MergeTried(outcome)) => {
            let t = PullState { outcomes: s.outcomes.push(outcome), ..s };
            placements_carry(s, t);
            to_smart_merge_fits(t);
            if s.after(event) is None {
                placements_carry(s, n);
            }
        },
        (PullPhase::Report, PullEventView::ReportSaved) => {
            to_session_fits(s);
        },
        (PullPhase::Session, PullEventView::SessionDone) => {
            to_session_fits(s);
        },
        (PullPhase::Project, PullEventView::ProjectFound(dir)) => {
            let i = s.placements.len() as int;
            let p = place_by_project(s.remote_relative(i), dir, s.setup.claude_dir@, s.operation(i));
            let t = PullState { placements: s.placements.push(p), ..s };
            assert(t.placements[i] == place_by_project(t.remote_relative(i), dir, t.setup.claude_dir@, t.operation(i)));
            placed_fits(s, p);
        },
        _ => {
            placements_carry(s, n);
        },
    }
}

/// One step keeps the request, the setup, the invariant, the saving of conflicts and the
/// placements.
proof fn step_keeps_all(s: PullState, event: PullEventView)
    requires
        s.wf(),
        saved_if_needed(s),
        placements_fit(s),
        fits(event),
    ensures
        s.next(event).wf(),
        saved_if_needed(s.next(event)),
        placements_fit(s.next(event)),
        s.next(event).request == s.request,
        s.next(event).setup == s.setup,
{
    step_keeps_wf(s, event);
    step_keeps_placements(s, event);
}

/// A pull keeps its invariant through any events.
pub proof fn pull_stays_well_formed(request: PullRequest, setup: PullSetup, events: Seq<PullEventView>)
    requires
        all_fit(events),
    ensures
        pull_after(request, setup, events).wf(),
        saved_if_needed(pull_after(request, setup, events)),
        placements_fit(pull_after(request, setup, events)),
        is_for(pull_after(request, setup, events), request, setup),
    decreases events.len(),
{
    if events.len() > 0 {
        let rest = events.drop_last();
        earlier_fit(events);
        pull_stays_well_formed(request, setup, rest);
        step_keeps_all(pull_after(request, setup, rest), events.last());
    }
}

/// Nothing is changed before the local files in conflict are saved in a snapshot: the snapshot
/// is of exactly those files, is asked for only where there are any, and every change comes
/// after it.
pub proof fn snapshot_precedes_changes(request: PullRequest, setup: PullSetup, events: Seq<PullEventView>, event: PullEventView)
    requires
        all_fit(events),
        fits(event),
    ensures
        pull_after(request, setup, events).after(event) matches Some((next, action)) ==> {
            &&& changes_files(action) && next.conflicts.len() > 0 ==> next.snapshot is Some
            &&& action matches PullActionView::SaveSnapshot { files } ==> files == local_files(next.conflicts) && files.len() > 0
            &&& event is Discovered && next.conflicts.len() > 0 ==> action is SaveSnapshot
        },
{
    pull_stays_well_formed(request, setup, events);
    step_keeps_all(pull_after(request, setup, events), event);
}

/// Whether the user has agreed among these events.
pub open spec fn agreed(events: Seq<PullEventView>) -> bool {
    exists|i: int| 0 <= i < events.len() && (#[trigger] events[i]) == PullEventView::Confirmed(true)
}

/// Where the user is asked, nothing is changed unless the user agrees.
pub proof fn nothing_changes_without_consent(
    request: PullRequest,
    setup: PullSetup,
    events: Seq<PullEventView>,
    event: PullEventView,
)
    requires
        request.interactive && setup.terminal,
        all_fit(events),
        !agreed(events),
        event != PullEventView::Confirmed(true),
    ensures
        pull_after(request, setup, events).is_early() || pull_after(request, setup, events).phase == PullPhase::Finished,
        pull_after(request, setup, events).after(event) matches Some((_, action)) ==> !changes_files(action),
    decreases events.len(),
{
    pull_stays_well_formed(request, setup, events);
    if events.len() > 0 {
        let rest = events.drop_last();
        earlier_fit(events);
        assert forall|i: int| 0 <= i < rest.len() implies (#[trigger] rest[i]) != PullEventView::Confirmed(true) by {
            assert(rest[i] == events[i]);
        }
        assert(events.last() == events[events.len() - 1]);
        pull_stays_well_formed(request, setup, rest);
        nothing_changes_without_consent(request, setup, rest, events.last());
    }
}

/// A declined pull is over: nothing more is done, whatever happens.
pub proof fn declined_is_over(s: PullState, event: PullEventView)
    requires
        s.phase == PullPhase::Confirmation,
    ensures
        s.after(PullEventView::Confirmed(false)) == Some((PullState { phase: PullPhase::Finished, ..s }, PullActionView::Cancel)),
        s.next(PullEventView::Confirmed(false)).after(event) is None,
        s.next(PullEventView::Confirmed(false)).next(event) == s.next(PullEventView::Confirmed(false)),
{
}

/// A session is written into the local side only where it differs from it and is not in
/// conflict.
pub proof fn only_new_content_is_written(s: PullState, event: PullEventView)
    requires
        s.wf(),
    ensures
        s.after(event) matches Some((next, PullActionView::WriteSession { remote, dest })) ==> {
            &&& 0 <= remote < next.remotes.len()
            &&& !in_conflict(next.conflicts, next.remotes[remote].session_id@)
            &&& next.operation(remote) != SyncOperation::Unchanged
        },
{
}

/// The placements of each kind in a list.
pub open spec fn tally(p: Seq<PlacementView>) -> nat {
    p.filter(placed_as(SyncOperation::Added)).len() + p.filter(placed_as(SyncOperation::Modified)).len() + p.filter(
        placed_as(SyncOperation::Unchanged),
    ).len() + p.filter(left_out()).len() + p.filter(|x: PlacementView| x is Conflicted).len()
}

/// Each placement is of one kind.
proof fn tally_counts_all(p: Seq<PlacementView>)
    requires
        forall|i: int| 0 <= i < p.len() ==> ((#[trigger] p[i]) matches PlacementView::Placed { operation, .. } ==> operation
            != SyncOperation::Conflict),
    ensures
        tally(p) == p.len(),
        p.filter(placed_anew()).len() == p.filter(placed_as(SyncOperation::Added)).len() + p.filter(
            placed_as(SyncOperation::Modified),
        ).len(),
    decreases p.len(),
{
    reveal(Seq::filter);
    if p.len() > 0 {
        let rest = p.drop_last();
        assert forall|i: int| 0 <= i < rest.len() implies ((#[trigger] rest[i]) matches PlacementView::Placed {
            operation,
            ..
        } ==> operation != SyncOperation::Conflict) by {
            assert(rest[i] == p[i]);
        }
        tally_counts_all(rest);
        assert(p[p.len() - 1] == p.last());
    }
}

/// At the end every remote session is accounted for: it was added, modified or unchanged, was in
/// conflict, or was left out for want of a place; and what was merged in is what was added or
/// modified.
pub proof fn every_session_is_accounted_for(
    request: PullRequest,
    setup: PullSetup,
    events: Seq<PullEventView>,
    report: PullReportView,
)
    requires
        all_fit(events),
        pull_after(request, setup, events).phase == PullPhase::Record,
        pull_after(request, setup, events).reports(report),
    ensures
        ({
            let s = pull_after(request, setup, events);
            let in_conflict_here = s.placements.filter(|x: PlacementView| x is Conflicted).len();
            &&& report.added + report.modified + report.unchanged + report.skipped + in_conflict_here == s.remotes.len()
            &&& report.merged == report.added + report.modified
        }),
{
    pull_stays_well_formed(request, setup, events);
    let s = pull_after(request, setup, events);
    assert forall|i: int| 0 <= i < s.placements.len() implies ((#[trigger] s.placements[i]) matches PlacementView::Placed {
        operation,
        ..
    } ==> operation != SyncOperation::Conflict) by {
        assert(placement_fits(s, i));
    }
    tally_counts_all(s.placements);
}

/// A remote session of the sync repository goes to the same place under the local directory.
pub proof fn pulled_to_the_same_place(s: PullState, i: int)
    requires
        0 <= i < s.remotes.len(),
        s.remote_dir().len() > 0,
        stripped(s.remotes[i].file_path@, s.remote_dir()) is Some,
    ensures
        place_by_directory(s.remote_relative(i), s.setup.claude_dir@, s.operation(i)) matches PlacementView::Placed {
            dest,
            tracking,
            ..
        } && components(dest) == components(s.setup.claude_dir@) + components(tracking) && components(s.remotes[i].file_path@)
            == components(s.remote_dir()) + components(tracking),
{
    let file = s.remotes[i].file_path@;
    let k = components(s.remote_dir()).len() as int;
    here_has_component(s.remote_dir());
    tail_keeps_components(file, k);
    join_appends_components(s.setup.claude_dir@, s.remote_relative(i));
    assert(components(s.remote_dir()) + components(file).skip(k) =~= components(file));
}

/// Once the branch is known no step changes it.
proof fn step_keeps_the_branch(s: PullState, event: PullEventView)
    ensures
        s.next(event).request == s.request && s.next(event).setup == s.setup,
        s.phase != PullPhase::Branch ==> s.next(event).branch == s.branch && s.next(event).phase != PullPhase::Branch,
        s.next(event).phase == PullPhase::Fetch ==> s.phase == PullPhase::Fetch || s.request.fetch_remote
            && s.setup.has_remote,
{
}

/// The branch of a run is the one asked for, and it is fetched only where that is asked for and
/// there is a remote.
pub proof fn requested_branch_is_pulled(request: PullRequest, setup: PullSetup, events: Seq<PullEventView>)
    ensures
        pull_after(request, setup, events).request == request,
        pull_after(request, setup, events).setup == setup,
        request.branch is Some ==> pull_after(request, setup, events).branch == request.branch->0@,
        request.branch is Some ==> pull_after(request, setup, events).phase != PullPhase::Branch,
        pull_after(request, setup, events).phase == PullPhase::Fetch ==> request.fetch_remote && setup.has_remote,
    decreases events.len(),
{
    if events.len() > 0 {
        requested_branch_is_pulled(request, setup, events.drop_last());
        step_keeps_the_branch(pull_after(request, setup, events.drop_last()), events.last());
    }
}

/// The action that an event calls for.
pub open spec fn pull_action_after(s: PullState, event: PullEventView) -> PullActionView {
    match s.after(event) {
        Some((_, action)) => action,
        None => PullActionView::Reject,
    }
}

/// Whether the action of a step deals with a remote session: writes it to its place, leaves it
/// where it is unchanged, or skips it where it is in conflict or has no place.
pub open spec fn settles(action: PullActionView, i: int, placement: PlacementView) -> bool {
    match placement {
        PlacementView::Placed { dest, operation, .. } => if operation == SyncOperation::Unchanged {
            action == PullActionView::KeepSession { remote: i }
        } else {
            action == PullActionView::WriteSession { remote: i, dest }
        },
        _ => action == PullActionView::SkipSession { remote: i },
    }
}

/// Whether one of these events called for the action that deals with a remote session.
pub open spec fn settled_among(start: PullState, events: Seq<PullEventView>, i: int, placement: PlacementView) -> bool {
    exists|k: int|
        0 <= k < events.len() && settles(#[trigger] pull_action_after(run(start, events.take(k)), events[k]), i, placement)
}

/// What was dealt with stays so.
proof fn settled_before(start: PullState, events: Seq<PullEventView>, i: int, placement: PlacementView)
    requires
        events.len() > 0,
        settled_among(start, events.drop_last(), i, placement),
    ensures
        settled_among(start, events, i, placement),
{
    let rest = events.drop_last();
    let k = choose|k: int|
        0 <= k < rest.len() && settles(#[trigger] pull_action_after(run(start, rest.take(k)), rest[k]), i, placement);
    assert(rest.take(k) =~= events.take(k));
    assert(rest[k] == events[k]);
    assert(settles(pull_action_after(run(start, events.take(k)), events[k]), i, placement));
}

/// Placing the next session is what turning to it does, at once or once its project is known.
proof fn to_session_settles(s: PullState)
    ensures
        s.to_session().0.placements == s.placements || s.to_session().0.placements == s.placements.push(
            s.to_session().0.placements.last(),
        ) && settles(s.to_session().1, s.placements.len() as int, s.to_session().0.placements.last()),
{
    let i = s.placements.len() as int;
    if i < s.remotes.len() {
        if in_conflict(s.conflicts, s.remotes[i].session_id@) {
            assert(s.placements.push(PlacementView::Conflicted).last() == PlacementView::Conflicted);
        } else if !s.setup.features.use_project_name_only {
            let p = place_by_directory(s.remote_relative(i), s.setup.claude_dir@, s.operation(i));
            assert(s.placements.push(p).last() == p);
        }
    }
}

/// A step places at most one session, and deals with it.
proof fn step_settles(s: PullState, event: PullEventView)
    requires
        s.wf(),
    ensures
        s.next(event).placements == s.placements || s.next(event).placements == s.placements.push(s.next(event).placements.last())
            && settles(pull_action_after(s, event), s.placements.len() as int, s.next(event).placements.last()),
{
    match (s.phase, event) {
        (PullPhase::Discovery, PullEventView::Discovered { locals, remotes, conflicts }) => {
            to_session_settles(PullState { locals, remotes, conflicts, ..s });
        },
        (PullPhase::Snapshot, PullEventView::SnapshotSaved(path)) => {
            to_session_settles(PullState { snapshot: Some(path), ..s });
        },
        (PullPhase::SmartMerge, PullEventView::MergeTried(outcome)) => {
            to_session_settles(PullState { outcomes: s.outcomes.push(outcome), ..s });
        },
        (PullPhase::Project, PullEventView::ProjectFound(dir)) => {
            let i = s.placements.len() as int;
            let p = place_by_project(s.remote_relative(i), dir, s.setup.claude_dir@, s.operation(i));
            assert(s.placements.push(p).last() == p);
        },
        _ => {
            to_session_settles(s);
        },
    }
}

/// Every remote session is dealt with: by the time that the settings are pulled or the record is
/// made, each was written to its place, left alone because it is unchanged, or skipped because it
/// is in conflict or has no place.
pub proof fn every_remote_session_is_dealt_with(request: PullRequest, setup: PullSetup, events: Seq<PullEventView>, i: int)
    requires
        all_fit(events),
        0 <= i < pull_after(request, setup, events).placements.len(),
    ensures
        placement_fits(pull_after(request, setup, events), i),
        settled_among(fresh_pull(request, setup).to_start().0, events, i, pull_after(request, setup, events).placements[i]),
        ({
            let s = pull_after(request, setup, events);
            s.phase == PullPhase::Settings || s.phase == PullPhase::Summaries || s.phase == PullPhase::Record
                ==> s.placements.len() == s.remotes.len()
        }),
    decreases events.len(),
{
    let start = fresh_pull(request, setup).to_start().0;
    let s = pull_after(request, setup, events);
    pull_stays_well_formed(request, setup, events);
    let rest = events.drop_last();
    let before = pull_after(request, setup, rest);
    earlier_fit(events);
    pull_stays_well_formed(request, setup, rest);
    step_settles(before, events.last());
    if i < before.placements.len() {
        every_remote_session_is_dealt_with(request, setup, rest, i);
        assert(before.placements[i] == s.placements[i]);
        settled_before(start, events, i, s.placements[i]);
    } else {
        let k = events.len() - 1;
        assert(events.take(k) =~= rest);
        assert(s.placements.last() == s.placements[i]);
        assert(settles(pull_action_after(run(start, events.take(k)), events[k]), i, s.placements[i]));
    }
}

/// Whether the conflicts left over by merging were resolved: by the user, or else by keeping both
/// versions of each.
pub open spec fn leftovers_resolved(s: PullState, events: Seq<PullEventView>) -> bool {
    unresolved(s.outcomes).len() > 0 ==> if s.setup.terminal {
        exists|i: int| 0 <= i < events.len() && (#[trigger] events[i]) is Resolved
    } else {
        s.kept == unresolved(s.outcomes).len()
    }
}

/// Whether the conflicts are behind a run.
pub open spec fn is_past_conflicts(s: PullState) -> bool {
    ||| s.phase == PullPhase::Report
    ||| s.phase == PullPhase::Project
    ||| s.phase == PullPhase::Session
    ||| s.phase == PullPhase::Settings
    ||| s.phase == PullPhase::Summaries
    ||| s.phase == PullPhase::Record
}

/// No conflict is passed over: before any session without a conflict is touched, merging was
/// tried on every conflict, and those left over were resolved, by the user exactly where there is
/// one to ask.
pub proof fn no_conflict_is_passed_over(request: PullRequest, setup: PullSetup, events: Seq<PullEventView>)
    requires
        all_fit(events),
    ensures
        is_past_conflicts(pull_after(request, setup, events)) ==> {
            &&& pull_after(request, setup, events).outcomes.len() == pull_after(request, setup, events).conflicts.len()
            &&& leftovers_resolved(pull_after(request, setup, events), events)
        },
        pull_after(request, setup, events).phase == PullPhase::Interactive ==> setup.terminal,
        pull_after(request, setup, events).phase == PullPhase::KeepBoth || pull_after(request, setup, events).phase
            == PullPhase::RemoteCopy ==> !setup.terminal,
    decreases events.len(),
{
    pull_stays_well_formed(request, setup, events);
    if events.len() > 0 {
        let rest = events.drop_last();
        let before = pull_after(request, setup, rest);
        let s = pull_after(request, setup, events);
        earlier_fit(events);
        pull_stays_well_formed(request, setup, rest);
        no_conflict_is_passed_over(request, setup, rest);
        if exists|i: int| 0 <= i < rest.len() && (#[trigger] rest[i]) is Resolved {
            let i = choose|i: int| 0 <= i < rest.len() && (#[trigger] rest[i]) is Resolved;
            assert(events[i] is Resolved);
        }
        if events.last() is Resolved {
            assert(events[events.len() - 1] is Resolved);
        }
    }
}

} // verus!
