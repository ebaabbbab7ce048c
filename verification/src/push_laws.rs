//! Laws of a push: what holds of every run, whatever the outside answers.
use crate::path::{components, file_name, is_name, joined, relative, stripped};
use crate::path_laws::{
    file_name_is_one_component, here_has_component, join_appends_components, joined_file_name, moved_there_and_back,
    name_in_named_directory, strip_undoes_join, tail_keeps_components,
};
use crate::pull_plan::{place_by_directory, place_by_project, project_name, PlacementView};
use crate::push::{
    fresh_push, push_step_keeps_wf, PushActionView, PushEventView, PushPhase, PushReportView, PushRequest, PushSetup, PushState,
};
use crate::push_plan::{default_message, is_skipped, place_in_repository, pushed_as, repository_path, PushPlacementView};
use crate::session::{text_option, ConversationSession, SyncOperation};
use vstd::prelude::*;

verus! {

/// What a run is after a list of events.
pub open spec fn push_run(start: PushState, events: Seq<PushEventView>) -> PushState
    decreases events.len(),
{
    if events.len() == 0 {
        start
    } else {
        push_run(start, events.drop_last()).next(events.last())
    }
}

/// A push after a list of events.
pub open spec fn push_after(request: PushRequest, setup: PushSetup, events: Seq<PushEventView>) -> PushState {
    push_run(fresh_push(request, setup).to_start().0, events)
}

/// Whether an action changes the settings or the history of the sync repository.
pub open spec fn publishes(action: PushActionView) -> bool {
    ||| action is PushSettings
    ||| action is Stage
    ||| action is Commit
    ||| action is PushRemote
    ||| action is SaveRecord
}

/// An event that a machine can hold.
pub open spec fn push_fits(event: PushEventView) -> bool {
    event matches PushEventView::Discovered(sessions) ==> sessions.len() <= usize::MAX
}

/// Events that a machine can hold.
pub open spec fn all_push_fit(events: Seq<PushEventView>) -> bool {
    forall|i: int| 0 <= i < events.len() ==> push_fits(#[trigger] events[i])
}

/// Where events fit, so do the last one and those before it.
pub proof fn earlier_push_fit(events: Seq<PushEventView>)
    requires
        events.len() > 0,
        all_push_fit(events),
    ensures
        all_push_fit(events.drop_last()),
        push_fits(events.last()),
{
    let rest = events.drop_last();
    assert forall|i: int| 0 <= i < rest.len() implies push_fits(#[trigger] rest[i]) by {
        assert(rest[i] == events[i]);
    }
    assert(push_fits(events[events.len() - 1]));
}

/// Where events and one more fit, so do all of them together.
proof fn extended_push_fit(events: Seq<PushEventView>, event: PushEventView)
    requires
        all_push_fit(events),
        push_fits(event),
    ensures
        all_push_fit(events.push(event)),
        events.push(event).drop_last() == events,
{
    let all = events.push(event);
    assert forall|i: int| 0 <= i < all.len() implies push_fits(#[trigger] all[i]) by {
        if i < events.len() {
            assert(all[i] == events[i]);
        }
    }
    assert(all.drop_last() =~= events);
}

/// Whether an event is among these.
pub open spec fn happened(events: Seq<PushEventView>, event: PushEventView) -> bool {
    exists|i: int| 0 <= i < events.len() && (#[trigger] events[i]) == event
}

/// Whether what is done in this phase was preceded by what it needs: consent where the user is
/// asked, staged changes before a commit, a commit before the remote and the record.
pub open spec fn is_due(s: PushState, events: Seq<PushEventView>) -> bool {
    &&& s.phase == PushPhase::Settings || s.phase == PushPhase::Staging || s.phase == PushPhase::Head || s.phase
        == PushPhase::Commit || s.phase == PushPhase::Remote || s.phase == PushPhase::Record ==> (s.asks() ==> happened(
        events,
        PushEventView::Confirmed(true),
    ))
    &&& s.phase == PushPhase::Head || s.phase == PushPhase::Commit || s.phase == PushPhase::Remote || s.phase
        == PushPhase::Record ==> happened(events, PushEventView::Staged(true))
    &&& s.phase == PushPhase::Remote || s.phase == PushPhase::Record ==> happened(events, PushEventView::Committed)
    &&& s.phase == PushPhase::Remote ==> s.request.push_remote && s.setup.has_remote
}

/// What has happened stays so.
pub proof fn happened_before(events: Seq<PushEventView>, event: PushEventView)
    requires
        events.len() > 0,
        happened(events.drop_last(), event) || events.last() == event,
    ensures
        happened(events, event),
{
    if happened(events.drop_last(), event) {
        let i = choose|i: int| 0 <= i < events.drop_last().len() && (#[trigger] events.drop_last()[i]) == event;
        assert(events[i] == event);
    } else {
        assert(events[events.len() - 1] == event);
    }
}

/// A push keeps its invariant, its request and its setup through any events, and does nothing
/// before it is due.
pub proof fn push_stays_well_formed(request: PushRequest, setup: PushSetup, events: Seq<PushEventView>)
    requires
        all_push_fit(events),
    ensures
        push_after(request, setup, events).wf(),
        push_after(request, setup, events).request == request,
        push_after(request, setup, events).setup == setup,
        is_due(push_after(request, setup, events), events),
    decreases events.len(),
{
    let s = push_after(request, setup, events);
    if events.len() == 0 {
        assert(s.is_placed()) by {
            reveal(PushState::is_placed);
        }
    } else {
        let rest = events.drop_last();
        let before = push_after(request, setup, rest);
        earlier_push_fit(events);
        push_stays_well_formed(request, setup, rest);
        push_step_keeps_wf(before, events.last());
        if happened(rest, PushEventView::Confirmed(true)) || events.last() == PushEventView::Confirmed(true) {
            happened_before(events, PushEventView::Confirmed(true));
        }
        if happened(rest, PushEventView::Staged(true)) || events.last() == PushEventView::Staged(true) {
            happened_before(events, PushEventView::Staged(true));
        }
        if happened(rest, PushEventView::Committed) || events.last() == PushEventView::Committed {
            happened_before(events, PushEventView::Committed);
        }
    }
}

/// Where the user is asked, nothing is committed, pushed, recorded or staged and no settings are
/// written unless the user agrees.
pub proof fn nothing_is_published_without_consent(
    request: PushRequest,
    setup: PushSetup,
    events: Seq<PushEventView>,
    event: PushEventView,
)
    requires
        request.interactive && setup.terminal,
        all_push_fit(events),
        push_fits(event),
        !happened(events.push(event), PushEventView::Confirmed(true)),
    ensures
        push_after(request, setup, events).after(event) matches Some((_, action)) ==> !publishes(action),
{
    let all = events.push(event);
    extended_push_fit(events, event);
    push_stays_well_formed(request, setup, events);
    push_stays_well_formed(request, setup, all);
}

/// Only staged changes are committed, under the message asked for or else one that tells the
/// number of sessions; only a commit is pushed, to the branch of the run, and only where that is
/// asked for and there is a remote; and only a commit is recorded.
pub proof fn only_changes_are_committed(
    request: PushRequest,
    setup: PushSetup,
    events: Seq<PushEventView>,
    event: PushEventView,
)
    requires
        all_push_fit(events),
        push_fits(event),
    ensures
        push_after(request, setup, events).after(event) matches Some((next, action)) ==> {
            &&& action matches PushActionView::Commit { message } ==> {
                &&& happened(events, PushEventView::Staged(true))
                &&& event matches PushEventView::HeadRead { stamp, .. } && message == match request.commit_message {
                    Some(m) => m@,
                    None => default_message(next.sessions.len(), stamp),
                }
            }
            &&& action matches PushActionView::PushRemote { branch } ==> {
                &&& event == PushEventView::Committed
                &&& request.push_remote && setup.has_remote
                &&& branch == next.branch
            }
            &&& action is SaveRecord ==> happened(events.push(event), PushEventView::Committed)
        },
{
    let all = events.push(event);
    extended_push_fit(events, event);
    push_stays_well_formed(request, setup, events);
    push_stays_well_formed(request, setup, all);
}

/// A declined push is over: nothing more is done, whatever happens.
pub proof fn declined_push_is_over(s: PushState, event: PushEventView)
    requires
        s.phase == PushPhase::Confirmation,
    ensures
        s.after(PushEventView::Confirmed(false)) == Some((PushState { phase: PushPhase::Finished, ..s }, PushActionView::Cancel)),
        s.next(PushEventView::Confirmed(false)).after(event) is None,
        s.next(PushEventView::Confirmed(false)).next(event) == s.next(PushEventView::Confirmed(false)),
{
}

/// The branch of a run is the one asked for.
pub proof fn requested_branch_is_used(request: PushRequest, setup: PushSetup, events: Seq<PushEventView>)
    requires
        request.branch is Some,
    ensures
        push_after(request, setup, events).phase != PushPhase::Lfs && push_after(request, setup, events).phase
            != PushPhase::Location ==> push_after(request, setup, events).branch == request.branch->0@,
        push_after(request, setup, events).phase != PushPhase::Branch,
        push_after(request, setup, events).request == request,
    decreases events.len(),
{
    if events.len() > 0 {
        requested_branch_is_used(request, setup, events.drop_last());
    }
}

/// Whether the action of a step deals with a session: writes it to its place, or skips it where
/// it has none.
pub open spec fn deals_with(action: PushActionView, i: int, place: PushPlacementView) -> bool {
    match place {
        PushPlacementView::Placed { dest, .. } => action == PushActionView::WriteSession { session: i, dest },
        PushPlacementView::Skipped => action == PushActionView::SkipSession { session: i },
    }
}

/// The action that an event calls for.
pub open spec fn action_after(s: PushState, event: PushEventView) -> PushActionView {
    match s.after(event) {
        Some((_, action)) => action,
        None => PushActionView::Reject,
    }
}

/// Whether one of these events called for the action that deals with a session.
pub open spec fn dealt_with(start: PushState, events: Seq<PushEventView>, i: int, place: PushPlacementView) -> bool {
    exists|k: int|
        0 <= k < events.len() && deals_with(#[trigger] action_after(push_run(start, events.take(k)), events[k]), i, place)
}

/// What was dealt with stays so.
proof fn dealt_with_before(start: PushState, events: Seq<PushEventView>, i: int, place: PushPlacementView)
    requires
        events.len() > 0,
        dealt_with(start, events.drop_last(), i, place),
    ensures
        dealt_with(start, events, i, place),
{
    let rest = events.drop_last();
    let k = choose|k: int|
        0 <= k < rest.len() && deals_with(#[trigger] action_after(push_run(start, rest.take(k)), rest[k]), i, place);
    assert(rest.take(k) =~= events.take(k));
    assert(rest[k] == events[k]);
    assert(deals_with(action_after(push_run(start, events.take(k)), events[k]), i, place));
}

/// Every local session is dealt with, unchanged ones too: by the time that the summaries are
/// checked, each was written to its place in the sync repository, or was skipped for want of
/// one.
pub proof fn every_session_is_dealt_with(request: PushRequest, setup: PushSetup, events: Seq<PushEventView>, i: int)
    requires
        all_push_fit(events),
        0 <= i < push_after(request, setup, events).placements.len(),
    ensures
        push_after(request, setup, events).placements[i] == push_after(request, setup, events).placement(i),
        dealt_with(fresh_push(request, setup).to_start().0, events, i, push_after(request, setup, events).placement(i)),
        push_after(request, setup, events).phase == PushPhase::Summaries ==> push_after(request, setup, events).placements.len()
            == push_after(request, setup, events).sessions.len(),
    decreases events.len(),
{
    let start = fresh_push(request, setup).to_start().0;
    let s = push_after(request, setup, events);
    push_stays_well_formed(request, setup, events);
    assert(s.placements[i] == s.placement(i)) by {
        reveal(PushState::is_placed);
    }
    let rest = events.drop_last();
    let before = push_after(request, setup, rest);
    earlier_push_fit(events);
    push_stays_well_formed(request, setup, rest);
    if i < before.placements.len() {
        every_session_is_dealt_with(request, setup, rest, i);
        assert(before.placement(i) == s.placement(i));
        dealt_with_before(start, events, i, s.placement(i));
    } else {
        let k = events.len() - 1;
        assert(events.take(k) =~= rest);
        assert(deals_with(action_after(push_run(start, events.take(k)), events[k]), i, s.placement(i)));
    }
}

/// Each placement is of one kind.
proof fn kinds_count_all(p: Seq<PushPlacementView>)
    requires
        forall|i: int| 0 <= i < p.len() ==> ((#[trigger] p[i]) matches PushPlacementView::Placed { operation, .. } ==> operation
            != SyncOperation::Conflict),
    ensures
        p.filter(pushed_as(SyncOperation::Added)).len() + p.filter(pushed_as(SyncOperation::Modified)).len() + p.filter(
            pushed_as(SyncOperation::Unchanged),
        ).len() + p.filter(is_skipped()).len() == p.len(),
    decreases p.len(),
{
    reveal(Seq::filter);
    if p.len() > 0 {
        let rest = p.drop_last();
        assert forall|i: int| 0 <= i < rest.len() implies ((#[trigger] rest[i]) matches PushPlacementView::Placed {
            operation,
            ..
        } ==> operation != SyncOperation::Conflict) by {
            assert(rest[i] == p[i]);
        }
        kinds_count_all(rest);
        assert(p[p.len() - 1] == p.last());
    }
}

/// The report of a push accounts for every local session: it was added, modified, unchanged or
/// skipped, and those with a project context are the ones not skipped.
pub proof fn every_session_is_counted(
    request: PushRequest,
    setup: PushSetup,
    events: Seq<PushEventView>,
    event: PushEventView,
    report: PushReportView,
)
    requires
        all_push_fit(events),
        push_after(request, setup, events).ends_with(event),
        push_after(request, setup, events).reports(report),
    ensures
        report.counts.added + report.counts.modified + report.counts.unchanged + report.counts.skipped == push_after(
            request,
            setup,
            events,
        ).sessions.len(),
        report.counts.with_context == report.counts.added + report.counts.modified + report.counts.unchanged,
        report.committed == (event is RecordSaved),
{
    let s = push_after(request, setup, events);
    push_stays_well_formed(request, setup, events);
    assert forall|i: int| 0 <= i < s.placements.len() implies ((#[trigger] s.placements[i]) matches PushPlacementView::Placed {
        operation,
        ..
    } ==> operation != SyncOperation::Conflict) by {
        reveal(PushState::is_placed);
        assert(s.placements[i] == s.placement(i));
    }
    kinds_count_all(s.placements);
}

/// A local session goes to the same place under the projects directory of the sync repository.
pub proof fn pushed_to_the_same_place(
    session: ConversationSession,
    existing: Seq<ConversationSession>,
    claude_dir: Seq<char>,
    projects_dir: Seq<char>,
)
    requires
        claude_dir.len() > 0,
        stripped(session.file_path@, claude_dir) is Some,
    ensures
        place_in_repository(session, existing, claude_dir, projects_dir, false) matches PushPlacementView::Placed {
            relative: path,
            dest,
            ..
        } && components(dest) == components(projects_dir) + components(path) && components(session.file_path@) == components(
            claude_dir,
        ) + components(path),
{
    let file = session.file_path@;
    let k = components(claude_dir).len() as int;
    here_has_component(claude_dir);
    tail_keeps_components(file, k);
    join_appends_components(projects_dir, relative(file, claude_dir));
    assert(components(claude_dir) + components(file).skip(k) =~= components(file));
}

/// A session that is pushed comes back: what a pull finds at the place of the pushed file goes
/// to the path that the session came from, or, under another local directory, to the same path
/// below that one.
pub proof fn pushed_session_comes_back(
    session: ConversationSession,
    existing: Seq<ConversationSession>,
    claude_dir: Seq<char>,
    projects_dir: Seq<char>,
    other_dir: Seq<char>,
    operation: SyncOperation,
)
    requires
        claude_dir.len() > 0,
        stripped(session.file_path@, claude_dir) is Some,
    ensures
        ({
            let pushed = place_in_repository(session, existing, claude_dir, projects_dir, false);
            let found = relative(pushed->dest, projects_dir);
            &&& pushed is Placed
            &&& found == relative(session.file_path@, claude_dir)
            &&& place_by_directory(found, claude_dir, operation) matches PlacementView::Placed { dest, .. } && components(dest)
                == components(session.file_path@)
            &&& place_by_directory(found, other_dir, operation) matches PlacementView::Placed { dest, .. } && components(dest)
                == components(other_dir) + components(found)
        }),
{
    let file = session.file_path@;
    moved_there_and_back(file, claude_dir, projects_dir);
    here_has_component(claude_dir);
    tail_keeps_components(file, components(claude_dir).len() as int);
    join_appends_components(other_dir, relative(file, claude_dir));
}

/// By project name too a pushed session comes back: a pull finds under the pushed file the name
/// of its project and its file name, and puts it, by that file name, into the local directory of
/// that project.
pub proof fn pushed_session_finds_its_project(
    session: ConversationSession,
    existing: Seq<ConversationSession>,
    claude_dir: Seq<char>,
    projects_dir: Seq<char>,
    project: Seq<char>,
    name: Seq<char>,
    project_dir: Seq<char>,
    operation: SyncOperation,
)
    requires
        text_option(session.project_name) == Some(project),
        components(project) == seq![project],
        is_name(project),
        file_name(relative(session.file_path@, claude_dir)) == Some(name),
    ensures
        ({
            let pushed = place_in_repository(session, existing, claude_dir, projects_dir, true);
            let found = relative(pushed->dest, projects_dir);
            &&& pushed is Placed
            &&& found == joined(project, name)
            &&& project_name(found) == project
            &&& place_by_project(found, Some(project_dir), claude_dir, operation) matches PlacementView::Placed { dest, .. }
                && dest == joined(project_dir, name) && components(dest) == components(project_dir).push(name)
        }),
{
    file_name_is_one_component(relative(session.file_path@, claude_dir), name);
    name_in_named_directory(project, name);
    joined_file_name(project, name);
    joined_file_name(project_dir, name);
    strip_undoes_join(projects_dir, joined(project, name));
    assert(repository_path(session, claude_dir, true) == Some(joined(project, name)));
}

} // verus!
