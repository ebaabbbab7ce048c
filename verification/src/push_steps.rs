//! What each answer leads to in a push, told by the request, the setup and what was answered.
use crate::filter::FilterConfig;
use crate::path::{file_name, joined, relative};
use crate::pull_plan::accepted;
use crate::push::{
    fresh_push, PushAction, PushActionView, PushCounts, PushEvent, PushEventView, PushPhase, PushReport, PushReportView,
    PushRequest, PushSetup, PushState,
};
use crate::push_laws::{all_push_fit, earlier_push_fit, happened, happened_before, push_after, push_stays_well_formed};
use crate::push_plan::{
    default_message, is_skipped, push_summaries, pushed_as, repository_path_is, session_goes_to_its_path, PushPlacementView,
};
use crate::report::{is_overview, project_views};
use crate::session::{
    is_held, is_unheld, operation_goes_by_content, ConversationSession, SyncOperation,
};
use vstd::prelude::*;

verus! {

/// Which events answer the action that a run waits for in a phase.
pub open spec fn answers(phase: PushPhase, event: PushEventView, summaries: nat) -> bool {
    match phase {
        PushPhase::Lfs => event is LfsReady,
        PushPhase::Location => event is ProjectsLocated,
        PushPhase::Branch => event is BranchRead,
        PushPhase::Discovery => event is Discovered,
        PushPhase::Collisions => event is CollisionsShown,
        PushPhase::Existing => event is ExistingFound,
        PushPhase::Session => event is SessionDone,
        PushPhase::Summaries => event matches PushEventView::SummariesChecked(flags) && flags.len() == summaries,
        PushPhase::Confirmation => event is Confirmed,
        PushPhase::Settings => event is SettingsPushed,
        PushPhase::Staging => event is Staged,
        PushPhase::Head => event is HeadRead,
        PushPhase::Commit => event is Committed,
        PushPhase::Remote => event is RemotePushed,
        PushPhase::Record => event is RecordSaved,
        PushPhase::Finished => false,
    }
}

/// An event that does not answer is rejected and changes nothing; one that does is not rejected.
/// No event changes the request or the setup, and what the run is afterwards is what the laws of
/// whole runs say.
pub proof fn only_answers_are_taken(s: PushState, event: PushEventView, next: PushState, action: PushActionView)
    requires
        s.steps_to(event, next, action),
    ensures
        !answers(s.phase, event, s.summaries.len()) ==> next == s && action is Reject,
        answers(s.phase, event, s.summaries.len()) ==> !(action is Reject),
        next.request == s.request && next.setup == s.setup,
        next == s.next(event),
{
}

/// At the start nothing is known, and Git LFS comes first where it is enabled, else the local
/// projects are located.
pub proof fn push_starts(request: PushRequest, setup: PushSetup)
    ensures
        ({
            let (s, a) = fresh_push(request, setup).to_start();
            &&& s.request == request && s.setup == setup
            &&& s.sessions.len() == 0 && s.existing.len() == 0 && s.placements.len() == 0 && s.summaries.len() == 0 && s.head is None
            &&& setup.features.enable_lfs ==> s.phase == PushPhase::Lfs && a is SetUpLfs
            &&& !setup.features.enable_lfs ==> s.phase == PushPhase::Location && a is LocateProjects
        }),
{
}

/// After Git LFS the local projects are located.
pub proof fn lfs_is_followed_by_location(s: PushState, next: PushState, action: PushActionView)
    requires
        s.phase == PushPhase::Lfs,
        s.steps_to(PushEventView::LfsReady, next, action),
    ensures
        action is LocateProjects,
        next == (PushState { phase: PushPhase::Location, ..s }),
{
}

/// Whether `f` leaves attachments out exactly where the setup or the request does.
pub open spec fn is_in_force(f: FilterConfig, s: PushState) -> bool {
    f.exclude_attachments <==> s.setup.filter.exclude_attachments || s.request.exclude_attachments
}

/// Once the local projects are located, the sessions there are discovered, for the branch asked
/// for; without one the current branch is read first.
pub proof fn location_is_followed_by_discovery(s: PushState, dir: Seq<char>, next: PushState, action: PushActionView)
    requires
        s.phase == PushPhase::Location,
        s.steps_to(PushEventView::ProjectsLocated(dir), next, action),
    ensures
        match s.request.branch {
            Some(b) => {
                &&& action matches PushActionView::Discover { filter, local_dir } && is_in_force(filter, s) && local_dir == dir
                &&& next == (PushState { claude_dir: dir, branch: b@, phase: PushPhase::Discovery, ..s })
            },
            None => action is ReadBranch && next == (PushState { claude_dir: dir, phase: PushPhase::Branch, ..s }),
        },
{
}

/// The branch of a push without one asked for is the current one, or `main` where there is none.
pub proof fn current_branch_is_taken(s: PushState, current: Option<Seq<char>>, next: PushState, action: PushActionView)
    requires
        s.phase == PushPhase::Branch,
        s.steps_to(PushEventView::BranchRead(current), next, action),
    ensures
        action matches PushActionView::Discover { filter, local_dir } && is_in_force(filter, s) && local_dir == s.claude_dir,
        next == (PushState { branch: next.branch, phase: PushPhase::Discovery, ..s }),
        current matches Some(b) ==> next.branch == b,
        current is None ==> next.branch == "main"@,
{
}

/// The discovered sessions are those of the push; by project name collisions are shown, else the
/// sessions of the repository are discovered.
pub proof fn discovered_sessions_are_pushed(s: PushState, sessions: Seq<ConversationSession>, next: PushState, action: PushActionView)
    requires
        s.phase == PushPhase::Discovery,
        s.steps_to(PushEventView::Discovered(sessions), next, action),
    ensures
        s.setup.features.use_project_name_only ==> action is FindCollisions && next == (PushState {
            sessions,
            phase: PushPhase::Collisions,
            ..s
        }),
        !s.setup.features.use_project_name_only ==> discovers_existing(s, action) && next == (PushState {
            sessions,
            phase: PushPhase::Existing,
            ..s
        }),
{
}

/// Whether an action discovers the sessions of the repository, in its projects directory.
pub open spec fn discovers_existing(s: PushState, action: PushActionView) -> bool {
    action matches PushActionView::DiscoverExisting { filter, projects_dir } && is_in_force(filter, s) && projects_dir == joined(
        s.setup.repo_path@,
        s.setup.sync_subdirectory@,
    )
}

/// After the collisions the sessions of the repository are discovered.
pub proof fn collisions_are_followed_by_discovery(s: PushState, next: PushState, action: PushActionView)
    requires
        s.phase == PushPhase::Collisions,
        s.steps_to(PushEventView::CollisionsShown, next, action),
    ensures
        discovers_existing(s, action),
        next == (PushState { phase: PushPhase::Existing, ..s }),
{
}

/// Whether `p` is where a local session belongs: by directory at its path from the local
/// directory, by project under its file name in the directory of its project's name, below the
/// projects directory; nowhere where, by project, it lacks either name.
pub open spec fn belongs(s: PushState, session: ConversationSession, p: PushPlacementView) -> bool {
    let from_here = relative(session.file_path@, s.claude_dir);
    let projects_dir = joined(s.setup.repo_path@, s.setup.sync_subdirectory@);
    if !s.setup.features.use_project_name_only {
        p matches PushPlacementView::Placed { relative: path, dest, operation } && path == from_here && dest == joined(
            projects_dir,
            from_here,
        )
    } else {
        match (file_name(from_here), session.project_name) {
            (Some(name), Some(project)) => {
                p matches PushPlacementView::Placed { relative: path, dest, operation } && path == joined(project@, name) && dest
                    == joined(projects_dir, joined(project@, name))
            },
            _ => p is Skipped,
        }
    }
}

/// Whether the run turns from `s` to the next local session, at position `i`: where it belongs
/// somewhere it is written there, unchanged or not, and otherwise skipped. Its operation goes by
/// id and content.
pub open spec fn turns_to_session(s: PushState, next: PushState, action: PushActionView) -> bool {
    let i = s.placements.len() as int;
    let p = next.placements.last();
    &&& next == (PushState { placements: s.placements.push(p), phase: PushPhase::Session, ..s })
    &&& belongs(s, s.sessions[i], p)
    &&& match p {
        PushPlacementView::Placed { relative: path, dest, operation } => {
            &&& action == PushActionView::WriteSession { session: i, dest }
            &&& operation == SyncOperation::Added <==> is_unheld(s.existing, s.sessions[i].session_id@)
            &&& forall|j: int| #[trigger]
                is_held(s.existing, s.sessions[i].session_id@, j) ==> operation == if s.existing[j].content_hash@
                    == s.sessions[i].content_hash@ {
                    SyncOperation::Unchanged
                } else {
                    SyncOperation::Modified
                }
            &&& operation != SyncOperation::Conflict
        },
        PushPlacementView::Skipped => action == PushActionView::SkipSession { session: i },
    }
}

/// Whether the run turns from `s` to the summaries of the sessions placed.
pub open spec fn turns_to_summaries(s: PushState, next: PushState, action: PushActionView) -> bool {
    &&& action is CheckSummaries
    &&& next == (PushState { summaries: push_summaries(s.placements, s.sessions), phase: PushPhase::Summaries, ..s })
}

/// One local session after the other is dealt with, then the summaries are checked.
pub proof fn sessions_are_taken_in_turn(
    s: PushState,
    existing: Seq<ConversationSession>,
    next: PushState,
    action: PushActionView,
)
    requires
        ({
            ||| s.phase == PushPhase::Existing && s.steps_to(PushEventView::ExistingFound(existing), next, action)
            ||| s.phase == PushPhase::Session && existing == s.existing && s.steps_to(PushEventView::SessionDone, next, action)
        }),
        existing.len() <= usize::MAX,
    ensures
        ({
            let t = PushState { existing, ..s };
            &&& t.placements.len() < t.sessions.len() ==> turns_to_session(t, next, action)
            &&& t.placements.len() >= t.sessions.len() ==> turns_to_summaries(t, next, action)
        }),
{
    let t = PushState { existing, ..s };
    if t.placements.len() < t.sessions.len() {
        let session = t.sessions[t.placements.len() as int];
        let dir = joined(t.setup.repo_path@, t.setup.sync_subdirectory@);
        operation_goes_by_content(existing, session);
        repository_path_is(session, t.claude_dir);
        session_goes_to_its_path(session, existing, t.claude_dir, dir, t.setup.features.use_project_name_only);
        assert(next.placements.last() == t.placement(t.placements.len() as int));
    }
}

/// The summaries that are valid are kept. Then the user is asked, exactly where that is asked for
/// and there is one to ask; else the settings are pushed where they are synchronised, and
/// otherwise all is staged.
pub proof fn summaries_are_followed_by_consent(s: PushState, flags: Seq<bool>, next: PushState, action: PushActionView)
    requires
        s.phase == PushPhase::Summaries,
        flags.len() == s.summaries.len(),
        s.steps_to(PushEventView::SummariesChecked(flags), next, action),
    ensures
        next == (PushState { summaries: accepted(s.summaries, flags), phase: next.phase, ..s }),
        s.request.interactive && s.setup.terminal ==> action is Confirm && next.phase == PushPhase::Confirmation,
        !(s.request.interactive && s.setup.terminal) && s.setup.features.sync_settings ==> action is PushSettings && next.phase
            == PushPhase::Settings,
        !(s.request.interactive && s.setup.terminal) && !s.setup.features.sync_settings ==> action is Stage && next.phase
            == PushPhase::Staging,
{
}

/// With consent the settings are pushed where they are synchronised, and otherwise all is staged;
/// without it the push is over.
pub proof fn consent_is_followed_by_settings(s: PushState, yes: bool, next: PushState, action: PushActionView)
    requires
        s.phase == PushPhase::Confirmation,
        s.steps_to(PushEventView::Confirmed(yes), next, action),
    ensures
        next == (PushState { phase: next.phase, ..s }),
        yes && s.setup.features.sync_settings ==> action is PushSettings && next.phase == PushPhase::Settings,
        yes && !s.setup.features.sync_settings ==> action is Stage && next.phase == PushPhase::Staging,
        !yes ==> action is Cancel && next.phase == PushPhase::Finished,
{
}

/// After the settings all is staged.
pub proof fn settings_are_followed_by_staging(s: PushState, next: PushState, action: PushActionView)
    requires
        s.phase == PushPhase::Settings,
        s.steps_to(PushEventView::SettingsPushed, next, action),
    ensures
        action is Stage,
        next == (PushState { phase: PushPhase::Staging, ..s }),
{
}

/// Staged changes are committed, once the current commit is read; without any the push is over,
/// with a report that says so.
pub proof fn staged_changes_are_committed(s: PushState, changed: bool, next: PushState, action: PushActionView)
    requires
        s.phase == PushPhase::Staging,
        s.steps_to(PushEventView::Staged(changed), next, action),
    ensures
        changed ==> action is ReadHead && next == (PushState { phase: PushPhase::Head, ..s }),
        !changed ==> next == (PushState { phase: PushPhase::Finished, ..s }) && (action matches PushActionView::Finish { report }
            && tells_of_push(s, report) && !report.committed),
{
}

/// The commit has the message asked for, or else one that tells the number of sessions and the
/// moment; the current commit is kept for undo.
pub proof fn commit_has_its_message(
    s: PushState,
    head: Option<Seq<char>>,
    stamp: Seq<char>,
    next: PushState,
    action: PushActionView,
)
    requires
        s.phase == PushPhase::Head,
        s.steps_to(PushEventView::HeadRead { head, stamp }, next, action),
    ensures
        next == (PushState { head, phase: PushPhase::Commit, ..s }),
        s.request.commit_message matches Some(m) ==> action == (PushActionView::Commit { message: m@ }),
        s.request.commit_message is None ==> action == (PushActionView::Commit {
            message: default_message(s.sessions.len(), stamp),
        }),
{
}

/// A commit is pushed to the branch of the run exactly where that is asked for and there is a
/// remote, whatever the commit before it was; else it is recorded.
pub proof fn commit_is_pushed(s: PushState, next: PushState, action: PushActionView)
    requires
        s.phase == PushPhase::Commit,
        s.steps_to(PushEventView::Committed, next, action),
    ensures
        s.request.push_remote && s.setup.has_remote ==> action == (PushActionView::PushRemote { branch: s.branch }) && next == (
        PushState { phase: PushPhase::Remote, ..s }),
        !(s.request.push_remote && s.setup.has_remote) ==> action is SaveRecord && next == (PushState {
            phase: PushPhase::Record,
            ..s
        }),
{
}

/// After the remote the push is recorded.
pub proof fn remote_is_followed_by_record(s: PushState, next: PushState, action: PushActionView)
    requires
        s.phase == PushPhase::Remote,
        s.steps_to(PushEventView::RemotePushed, next, action),
    ensures
        action is SaveRecord,
        next == (PushState { phase: PushPhase::Record, ..s }),
{
}

/// After the record the push is over, with a report of a commit.
pub proof fn record_is_followed_by_the_report(s: PushState, next: PushState, action: PushActionView)
    requires
        s.phase == PushPhase::Record,
        s.steps_to(PushEventView::RecordSaved, next, action),
    ensures
        next == (PushState { phase: PushPhase::Finished, ..s }),
        action matches PushActionView::Finish { report } && tells_of_push(s, report) && report.committed,
{
}

/// Whether a report tells of a push: how many sessions were placed with each operation, how many
/// were skipped and how many were not, and the overview of the summaries.
pub open spec fn tells_of_push(s: PushState, report: PushReportView) -> bool {
    &&& counts_sessions(s, report.counts)
    &&& is_overview(s.summaries, report.projects)
}

/// Whether these are the numbers of the sessions placed so far.
pub open spec fn counts_sessions(s: PushState, c: PushCounts) -> bool {
    &&& c.added == s.placements.filter(pushed_as(SyncOperation::Added)).len()
    &&& c.modified == s.placements.filter(pushed_as(SyncOperation::Modified)).len()
    &&& c.unchanged == s.placements.filter(pushed_as(SyncOperation::Unchanged)).len()
    &&& c.skipped == s.placements.filter(is_skipped()).len()
    &&& c.skipped <= s.sessions.len() ==> c.with_context + c.skipped == s.sessions.len()
}

/// The numbers of a push are those of its sessions.
pub proof fn numbers_count_sessions(s: PushState, c: PushCounts)
    requires
        s.counts(c),
    ensures
        counts_sessions(s, c),
{
}

/// The value of an action is that of its fields.
pub proof fn push_action_value(a: PushAction)
    ensures
        match a {
            PushAction::SetUpLfs => a@ is SetUpLfs,
            PushAction::LocateProjects => a@ is LocateProjects,
            PushAction::ReadBranch => a@ is ReadBranch,
            PushAction::Discover { filter, local_dir } => a@ == (PushActionView::Discover { filter, local_dir: local_dir@ }),
            PushAction::FindCollisions => a@ is FindCollisions,
            PushAction::DiscoverExisting { filter, projects_dir } => a@ == (PushActionView::DiscoverExisting {
                filter,
                projects_dir: projects_dir@,
            }),
            PushAction::SkipSession { session } => a@ == (PushActionView::SkipSession { session: session as int }),
            PushAction::WriteSession { session, dest } => a@ == (PushActionView::WriteSession { session: session as int, dest: dest@ }),
            PushAction::CheckSummaries => a@ is CheckSummaries,
            PushAction::Confirm => a@ is Confirm,
            PushAction::PushSettings => a@ is PushSettings,
            PushAction::Stage => a@ is Stage,
            PushAction::ReadHead => a@ is ReadHead,
            PushAction::Commit { message } => a@ == (PushActionView::Commit { message: message@ }),
            PushAction::PushRemote { branch } => a@ == (PushActionView::PushRemote { branch: branch@ }),
            PushAction::SaveRecord => a@ is SaveRecord,
            PushAction::Finish { report } => a@ matches PushActionView::Finish { report: v } && v == report@,
            PushAction::Cancel => a@ is Cancel,
            PushAction::Reject => a@ is Reject,
        },
{
}

/// The value of an event is that of its fields.
pub proof fn push_event_value(e: PushEvent)
    ensures
        match e {
            PushEvent::LfsReady => e@ is LfsReady,
            PushEvent::ProjectsLocated(dir) => e@ == PushEventView::ProjectsLocated(dir@),
            PushEvent::BranchRead(Some(b)) => e@ == PushEventView::BranchRead(Some(b@)),
            PushEvent::BranchRead(None) => e@ == PushEventView::BranchRead(None),
            PushEvent::Discovered(sessions) => e@ == PushEventView::Discovered(sessions@),
            PushEvent::CollisionsShown => e@ is CollisionsShown,
            PushEvent::ExistingFound(sessions) => e@ == PushEventView::ExistingFound(sessions@),
            PushEvent::SessionDone => e@ is SessionDone,
            PushEvent::SummariesChecked(flags) => e@ == PushEventView::SummariesChecked(flags@),
            PushEvent::Confirmed(yes) => e@ == PushEventView::Confirmed(yes),
            PushEvent::SettingsPushed => e@ is SettingsPushed,
            PushEvent::Staged(changed) => e@ == PushEventView::Staged(changed),
            PushEvent::HeadRead { head: Some(h), stamp } => e@ == (PushEventView::HeadRead { head: Some(h@), stamp: stamp@ }),
            PushEvent::HeadRead { head: None, stamp } => e@ == (PushEventView::HeadRead { head: None, stamp: stamp@ }),
            PushEvent::Committed => e@ is Committed,
            PushEvent::RemotePushed => e@ is RemotePushed,
            PushEvent::RecordSaved => e@ is RecordSaved,
        },
{
}

/// The value of a report is that of its fields.
pub proof fn push_report_value(r: PushReport)
    ensures
        r@.counts == r.counts,
        r@.committed == r.committed,
        r@.projects == project_views(r.projects@),
{
}

/// In every run in which the settings are synchronised, staging comes only after they were pushed,
/// and so does all that follows it.
pub proof fn settings_are_pushed_before_staging(request: PushRequest, setup: PushSetup, events: Seq<PushEventView>)
    requires
        setup.features.sync_settings,
        all_push_fit(events),
    ensures
        ({
            let phase = push_after(request, setup, events).phase;
            phase == PushPhase::Staging || phase == PushPhase::Head || phase == PushPhase::Commit || phase == PushPhase::Remote || phase
                == PushPhase::Record ==> happened(events, PushEventView::SettingsPushed)
        }),
    decreases events.len(),
{
    if events.len() > 0 {
        earlier_push_fit(events);
        settings_are_pushed_before_staging(request, setup, events.drop_last());
        push_stays_well_formed(request, setup, events.drop_last());
        if happened(events.drop_last(), PushEventView::SettingsPushed) || events.last() == PushEventView::SettingsPushed {
            happened_before(events, PushEventView::SettingsPushed);
        }
    }
}

/// In every run in which Git LFS is enabled, it is set up before the local projects are located,
/// and so before all that follows.
pub proof fn lfs_is_ready_before_all_else(request: PushRequest, setup: PushSetup, events: Seq<PushEventView>)
    requires
        setup.features.enable_lfs,
        all_push_fit(events),
    ensures
        push_after(request, setup, events).phase != PushPhase::Lfs ==> happened(events, PushEventView::LfsReady),
    decreases events.len(),
{
    if events.len() > 0 {
        earlier_push_fit(events);
        lfs_is_ready_before_all_else(request, setup, events.drop_last());
        push_stays_well_formed(request, setup, events.drop_last());
        if happened(events.drop_last(), PushEventView::LfsReady) || events.last() == PushEventView::LfsReady {
            happened_before(events, PushEventView::LfsReady);
        }
    }
}

/// In every run a commit calls for its push to the branch of the run, where that is asked for and
/// there is a remote, and the push is recorded only after that.
pub proof fn every_commit_is_pushed(
    request: PushRequest,
    setup: PushSetup,
    events: Seq<PushEventView>,
    next: PushState,
    action: PushActionView,
)
    requires
        request.push_remote && setup.has_remote,
        all_push_fit(events),
        push_after(request, setup, events).phase == PushPhase::Commit,
        push_after(request, setup, events).steps_to(PushEventView::Committed, next, action),
    ensures
        action == (PushActionView::PushRemote { branch: push_after(request, setup, events).branch }),
        next.phase == PushPhase::Remote,
{
    push_stays_well_formed(request, setup, events);
    commit_is_pushed(push_after(request, setup, events), next, action);
}

/// In every run in which a push to the remote is asked for and there is a remote, the record is
/// saved only after the push to the remote was tried.
pub proof fn remote_is_tried_before_the_record(request: PushRequest, setup: PushSetup, events: Seq<PushEventView>)
    requires
        request.push_remote && setup.has_remote,
        all_push_fit(events),
    ensures
        push_after(request, setup, events).phase == PushPhase::Record ==> happened(events, PushEventView::RemotePushed),
    decreases events.len(),
{
    if events.len() > 0 {
        earlier_push_fit(events);
        remote_is_tried_before_the_record(request, setup, events.drop_last());
        push_stays_well_formed(request, setup, events.drop_last());
        if happened(events.drop_last(), PushEventView::RemotePushed) || events.last() == PushEventView::RemotePushed {
            happened_before(events, PushEventView::RemotePushed);
        }
    }
}

} // verus!
