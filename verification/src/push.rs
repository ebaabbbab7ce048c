//! A push, step by step: from what has happened to what is to be done next.
//!
//! As with a pull, a run names one action at a time, the caller carries it out and answers with
//! its result, and an action that fails ends the push.
use crate::clock::{is_common, is_readable_stamp, readable_stamp, stamp_text, READABLE_FORMAT};
use crate::filter::{Features, FilterConfig};
use crate::path::{join_paths, joined};
use crate::pull::VerbosityLevel;
use crate::pull_plan::{accepted, keep_accepted};
use crate::push_plan::{
    count_pushed, count_skipped, default_message, default_message_at, is_skipped, place_in_repository, place_session, push_placement_views, push_summaries,
    pushed_as, summarize_pushed, PushPlacement, PushPlacementView,
};
use crate::report::{is_overview, project_reports, project_views, ProjectReport, ProjectView};
use crate::session::{
    copy_text, summary_views, text_option, ConversationSession, ConversationSummary, SummaryView, SyncOperation,
};
use std::time::SystemTime;
use vstd::prelude::*;

verus! {

/// What the user asks of a push.
pub struct PushRequest {
    pub commit_message: Option<String>,
    pub push_remote: bool,
    pub branch: Option<String>,
    pub exclude_attachments: bool,
    pub interactive: bool,
    pub verbosity: VerbosityLevel,
}

/// What a push finds configured.
pub struct PushSetup {
    pub has_remote: bool,
    pub filter: FilterConfig,
    pub features: Features,
    /// Whether the user can be asked.
    pub terminal: bool,
    /// The directory of the sync repository.
    pub repo_path: String,
    /// The directory of the projects within the sync repository.
    pub sync_subdirectory: String,
}

/// Which action a push waits for.
#[derive(Clone, Copy, Debug, PartialEq, Eq, Structural)]
pub enum PushPhase {
    Lfs,
    Location,
    Branch,
    Discovery,
    Collisions,
    Existing,
    Session,
    Summaries,
    Confirmation,
    Settings,
    Staging,
    Head,
    Commit,
    Remote,
    Record,
    Finished,
}

/// A push under way.
pub struct PushRun {
    request: PushRequest,
    setup: PushSetup,
    /// The directory of the local projects, once it is known.
    claude_dir: String,
    branch: String,
    /// The local sessions.
    sessions: Vec<ConversationSession>,
    /// The sessions that the sync repository held before.
    existing: Vec<ConversationSession>,
    /// Where the local sessions that were looked at so far go.
    placements: Vec<PushPlacement>,
    /// The summaries for the record of the operation.
    summaries: Vec<ConversationSummary>,
    /// The commit before the push, by which it can be undone.
    head: Option<String>,
    phase: PushPhase,
}

/// The value of a push under way.
pub struct PushState {
    pub request: PushRequest,
    pub setup: PushSetup,
    pub claude_dir: Seq<char>,
    pub branch: Seq<char>,
    pub sessions: Seq<ConversationSession>,
    pub existing: Seq<ConversationSession>,
    pub placements: Seq<PushPlacementView>,
    pub summaries: Seq<SummaryView>,
    pub head: Option<Seq<char>>,
    pub phase: PushPhase,
}

impl View for PushRun {
    type V = PushState;

    closed spec fn view(&self) -> PushState {
        PushState {
            request: self.request,
            setup: self.setup,
            claude_dir: self.claude_dir@,
            branch: self.branch@,
            sessions: self.sessions@,
            existing: self.existing@,
            placements: push_placement_views(self.placements@),
            summaries: summary_views(self.summaries@),
            head: text_option(self.head),
            phase: self.phase,
        }
    }
}

/// The numbers of a push.
#[derive(Clone, Copy, Debug, PartialEq, Eq, Structural)]
pub struct PushCounts {
    pub added: usize,
    pub modified: usize,
    pub unchanged: usize,
    pub skipped: usize,
    /// Sessions with a place in the sync repository.
    pub with_context: usize,
}

/// What a push did, for the user.
pub struct PushReport {
    pub counts: PushCounts,
    /// Whether there was anything to commit.
    pub committed: bool,
    pub projects: Vec<ProjectReport>,
}

/// The value of a report.
pub struct PushReportView {
    pub counts: PushCounts,
    pub committed: bool,
    pub projects: Seq<ProjectView>,
}

/// What is to be done next. Sessions are named by their position.
pub enum PushAction {
    /// Set up Git LFS in the sync repository.
    SetUpLfs,
    /// Find the directory of the local projects.
    LocateProjects,
    /// Read the current branch of the sync repository.
    ReadBranch,
    /// Discover the local sessions that the filter covers.
    Discover { filter: FilterConfig, local_dir: String },
    /// Find projects of the same name, and warn of them.
    FindCollisions,
    /// Create the projects directory and discover the sessions there.
    DiscoverExisting { filter: FilterConfig, projects_dir: String },
    /// Nothing is to be done for this session: it has no place in the sync repository.
    SkipSession { session: usize },
    /// Write a session to this file.
    WriteSession { session: usize, dest: String },
    /// Check which summaries of the run are valid.
    CheckSummaries,
    /// Ask the user whether to go on.
    Confirm,
    /// Push `settings.json`.
    PushSettings,
    /// Stage all changes, and see whether there are any.
    Stage,
    /// Read the current commit, and the moment for a commit message.
    ReadHead,
    /// Commit with this message.
    Commit { message: String },
    /// Push the branch to the remote `origin`.
    PushRemote { branch: String },
    /// Save the record of the operation: branch, summaries and earlier commit of the run.
    SaveRecord,
    /// Show the report and clean up: the push is done.
    Finish { report: PushReport },
    /// Stop: the user declined.
    Cancel,
    /// The event does not answer the action that the run waits for.
    Reject,
}

/// The value of an action.
pub enum PushActionView {
    SetUpLfs,
    LocateProjects,
    ReadBranch,
    Discover { filter: FilterConfig, local_dir: Seq<char> },
    FindCollisions,
    DiscoverExisting { filter: FilterConfig, projects_dir: Seq<char> },
    SkipSession { session: int },
    WriteSession { session: int, dest: Seq<char> },
    CheckSummaries,
    Confirm,
    PushSettings,
    Stage,
    ReadHead,
    Commit { message: Seq<char> },
    PushRemote { branch: Seq<char> },
    SaveRecord,
    Finish { report: PushReportView },
    Cancel,
    Reject,
}

/// The result of an action.
pub enum PushEvent {
    LfsReady,
    /// The directory of the local projects.
    ProjectsLocated(String),
    /// The current branch, if the repository tells it.
    BranchRead(Option<String>),
    Discovered(Vec<ConversationSession>),
    CollisionsShown,
    ExistingFound(Vec<ConversationSession>),
    SessionDone,
    /// For each summary, whether it is valid.
    SummariesChecked(Vec<bool>),
    Confirmed(bool),
    SettingsPushed,
    /// Whether anything is staged.
    Staged(bool),
    /// The current commit, if there is one, and the moment for the commit message.
    HeadRead { head: Option<String>, stamp: String },
    Committed,
    /// The push to the remote was tried; a failure leaves the commit local.
    RemotePushed,
    RecordSaved,
}

/// The value of an event.
pub enum PushEventView {
    LfsReady,
    ProjectsLocated(Seq<char>),
    BranchRead(Option<Seq<char>>),
    Discovered(Seq<ConversationSession>),
    CollisionsShown,
    ExistingFound(Seq<ConversationSession>),
    SessionDone,
    SummariesChecked(Seq<bool>),
    Confirmed(bool),
    SettingsPushed,
    Staged(bool),
    HeadRead { head: Option<Seq<char>>, stamp: Seq<char> },
    Committed,
    RemotePushed,
    RecordSaved,
}

impl View for PushReport {
    type V = PushReportView;

    open spec fn view(&self) -> PushReportView {
        PushReportView { counts: self.counts, committed: self.committed, projects: project_views(self.projects@) }
    }
}

impl View for PushAction {
    type V = PushActionView;

    open spec fn view(&self) -> PushActionView {
        match self {
            PushAction::SetUpLfs => PushActionView::SetUpLfs,
            PushAction::LocateProjects => PushActionView::LocateProjects,
            PushAction::ReadBranch => PushActionView::ReadBranch,
            PushAction::Discover { filter, local_dir } => PushActionView::Discover { filter: *filter, local_dir: local_dir@ },
            PushAction::FindCollisions => PushActionView::FindCollisions,
            PushAction::DiscoverExisting { filter, projects_dir } => PushActionView::DiscoverExisting {
                filter: *filter,
                projects_dir: projects_dir@,
            },
            PushAction::SkipSession { session } => PushActionView::SkipSession { session: *session as int },
            PushAction::WriteSession { session, dest } => PushActionView::WriteSession { session: *session as int, dest: dest@ },
            PushAction::CheckSummaries => PushActionView::CheckSummaries,
            PushAction::Confirm => PushActionView::Confirm,
            PushAction::PushSettings => PushActionView::PushSettings,
            PushAction::Stage => PushActionView::Stage,
            PushAction::ReadHead => PushActionView::ReadHead,
            PushAction::Commit { message } => PushActionView::Commit { message: message@ },
            PushAction::PushRemote { branch } => PushActionView::PushRemote { branch: branch@ },
            PushAction::SaveRecord => PushActionView::SaveRecord,
            PushAction::Finish { report } => PushActionView::Finish { report: report@ },
            PushAction::Cancel => PushActionView::Cancel,
            PushAction::Reject => PushActionView::Reject,
        }
    }
}

impl View for PushEvent {
    type V = PushEventView;

    open spec fn view(&self) -> PushEventView {
        match self {
            PushEvent::LfsReady => PushEventView::LfsReady,
            PushEvent::ProjectsLocated(dir) => PushEventView::ProjectsLocated(dir@),
            PushEvent::BranchRead(b) => PushEventView::BranchRead(text_option(*b)),
            PushEvent::Discovered(s) => PushEventView::Discovered(s@),
            PushEvent::CollisionsShown => PushEventView::CollisionsShown,
            PushEvent::ExistingFound(s) => PushEventView::ExistingFound(s@),
            PushEvent::SessionDone => PushEventView::SessionDone,
            PushEvent::SummariesChecked(f) => PushEventView::SummariesChecked(f@),
            PushEvent::Confirmed(yes) => PushEventView::Confirmed(*yes),
            PushEvent::SettingsPushed => PushEventView::SettingsPushed,
            PushEvent::Staged(changed) => PushEventView::Staged(*changed),
            PushEvent::HeadRead { head, stamp } => PushEventView::HeadRead { head: text_option(*head), stamp: stamp@ },
            PushEvent::Committed => PushEventView::Committed,
            PushEvent::RemotePushed => PushEventView::RemotePushed,
            PushEvent::RecordSaved => PushEventView::RecordSaved,
        }
    }
}

impl PushEvent {
    /// The current commit, if there is one, as read at the moment `now`; `None` where the moment
    /// has no stamp.
    pub fn head_read_at(head: Option<String>, now: SystemTime) -> (r: Option<PushEvent>)
        ensures
            match stamp_text(now, READABLE_FORMAT@) {
                Some(stamp) => {
                    &&& r is Some
                    &&& r->0@ == (PushEventView::HeadRead { head: text_option(head), stamp })
                    &&& is_readable_stamp(stamp)
                },
                None => r is None,
            },
            is_common(now) ==> r is Some,
    {
        match readable_stamp(now) {
            Some(stamp) => Some(PushEvent::HeadRead { head, stamp }),
            None => None,
        }
    }
}

impl PushState {
    /// The filter that is in force: attachments are left out where the request says so, too.
    pub open spec fn filter(self) -> FilterConfig {
        FilterConfig {
            exclude_attachments: self.setup.filter.exclude_attachments || self.request.exclude_attachments,
        }
    }

    /// The directory of the projects in the sync repository.
    pub open spec fn projects_dir(self) -> Seq<char> {
        joined(self.setup.repo_path@, self.setup.sync_subdirectory@)
    }

    /// Whether the user is asked before anything is committed.
    pub open spec fn asks(self) -> bool {
        self.request.interactive && self.setup.terminal
    }

    /// The message of the commit at the moment `stamp`: the one asked for, or else one that tells
    /// the number of local sessions and the moment.
    pub open spec fn commit_message(self, stamp: Seq<char>) -> Seq<char> {
        match self.request.commit_message {
            Some(m) => m@,
            None => default_message(self.sessions.len(), stamp),
        }
    }

    /// At the start: Git LFS, if it is enabled.
    pub open spec fn to_start(self) -> (PushState, PushActionView) {
        if self.setup.features.enable_lfs {
            (PushState { phase: PushPhase::Lfs, ..self }, PushActionView::SetUpLfs)
        } else {
            self.to_location()
        }
    }

    /// The directory of the local projects.
    pub open spec fn to_location(self) -> (PushState, PushActionView) {
        (PushState { phase: PushPhase::Location, ..self }, PushActionView::LocateProjects)
    }

    /// The branch asked for, or else the current one is looked up.
    pub open spec fn to_branch(self) -> (PushState, PushActionView) {
        match self.request.branch {
            Some(b) => self.to_discovery(b@),
            None => (PushState { phase: PushPhase::Branch, ..self }, PushActionView::ReadBranch),
        }
    }

    /// The local sessions.
    pub open spec fn to_discovery(self, branch: Seq<char>) -> (PushState, PushActionView) {
        (
            PushState { branch, phase: PushPhase::Discovery, ..self },
            PushActionView::Discover { filter: self.filter(), local_dir: self.claude_dir },
        )
    }

    /// Projects of the same name, if the repository is laid out by project name.
    pub open spec fn to_collisions(self) -> (PushState, PushActionView) {
        if self.setup.features.use_project_name_only {
            (PushState { phase: PushPhase::Collisions, ..self }, PushActionView::FindCollisions)
        } else {
            self.to_existing()
        }
    }

    /// The sessions that the sync repository holds.
    pub open spec fn to_existing(self) -> (PushState, PushActionView) {
        (
            PushState { phase: PushPhase::Existing, ..self },
            PushActionView::DiscoverExisting { filter: self.filter(), projects_dir: self.projects_dir() },
        )
    }

    /// Where a local session goes.
    pub open spec fn placement(self, i: int) -> PushPlacementView {
        place_in_repository(
            self.sessions[i],
            self.existing,
            self.claude_dir,
            self.projects_dir(),
            self.setup.features.use_project_name_only,
        )
    }

    /// The next local session: it is written to its place, if it has one; after the last one,
    /// the summaries.
    pub open spec fn to_session(self) -> (PushState, PushActionView) {
        let i = self.placements.len() as int;
        if i < self.sessions.len() {
            (
                PushState { placements: self.placements.push(self.placement(i)), phase: PushPhase::Session, ..self },
                match self.placement(i) {
                    PushPlacementView::Placed { dest, .. } => PushActionView::WriteSession { session: i, dest },
                    PushPlacementView::Skipped => PushActionView::SkipSession { session: i },
                },
            )
        } else {
            (
                PushState { summaries: push_summaries(self.placements, self.sessions), phase: PushPhase::Summaries, ..self },
                PushActionView::CheckSummaries,
            )
        }
    }

    /// Before anything is committed: ask the user, if there is one to ask.
    pub open spec fn to_confirmation(self) -> (PushState, PushActionView) {
        if self.asks() {
            (PushState { phase: PushPhase::Confirmation, ..self }, PushActionView::Confirm)
        } else {
            self.to_settings()
        }
    }

    /// The settings, if they are synchronised.
    pub open spec fn to_settings(self) -> (PushState, PushActionView) {
        if self.setup.features.sync_settings {
            (PushState { phase: PushPhase::Settings, ..self }, PushActionView::PushSettings)
        } else {
            (PushState { phase: PushPhase::Staging, ..self }, PushActionView::Stage)
        }
    }

    /// After the commit: push it, if asked to and there is a remote.
    pub open spec fn to_remote(self) -> (PushState, PushActionView) {
        if self.request.push_remote && self.setup.has_remote {
            (PushState { phase: PushPhase::Remote, ..self }, PushActionView::PushRemote { branch: self.branch })
        } else {
            (PushState { phase: PushPhase::Record, ..self }, PushActionView::SaveRecord)
        }
    }

    /// Whether these are the numbers of this push.
    pub open spec fn counts(self, c: PushCounts) -> bool {
        &&& c.added == self.placements.filter(pushed_as(SyncOperation::Added)).len()
        &&& c.modified == self.placements.filter(pushed_as(SyncOperation::Modified)).len()
        &&& c.unchanged == self.placements.filter(pushed_as(SyncOperation::Unchanged)).len()
        &&& c.skipped == self.placements.filter(is_skipped()).len()
        &&& c.with_context == if c.skipped <= self.sessions.len() {
            self.sessions.len() - c.skipped
        } else {
            0
        }
    }

    /// Whether `r` reports this push.
    pub open spec fn reports(self, r: PushReportView) -> bool {
        &&& self.counts(r.counts)
        &&& r.committed == (self.phase == PushPhase::Record)
        &&& is_overview(self.summaries, r.projects)
    }

    /// The invariant of a run.
    pub open spec fn wf(self) -> bool {
        &&& self.placements.len() <= self.sessions.len() <= usize::MAX
        &&& self.phase == PushPhase::Lfs || self.phase == PushPhase::Location || self.phase == PushPhase::Branch || self.phase == PushPhase::Discovery
            || self.phase == PushPhase::Collisions || self.phase == PushPhase::Existing ==> self.placements.len() == 0
        &&& self.phase == PushPhase::Summaries || self.phase == PushPhase::Confirmation || self.phase == PushPhase::Settings
            || self.phase == PushPhase::Staging || self.phase == PushPhase::Head || self.phase == PushPhase::Commit
            || self.phase == PushPhase::Remote || self.phase == PushPhase::Record ==> self.placements.len()
            == self.sessions.len()
        &&& self.is_placed()
    }

    /// Whether every local session that was looked at goes to its place.
    #[verifier::opaque]
    pub open spec fn is_placed(self) -> bool {
        forall|i: int| 0 <= i < self.placements.len() ==> (#[trigger] self.placements[i]) == self.placement(i)
    }

    /// The step that an event calls for, where it does not end the push. `None` where the event
    /// does not answer the action.
    pub open spec fn after(self, event: PushEventView) -> Option<(PushState, PushActionView)> {
        match (self.phase, event) {
            (PushPhase::Lfs, PushEventView::LfsReady) => Some(self.to_location()),
            (PushPhase::Location, PushEventView::ProjectsLocated(claude_dir)) => Some(
                PushState { claude_dir, ..self }.to_branch(),
            ),
            (PushPhase::Branch, PushEventView::BranchRead(current)) => Some(
                self.to_discovery(
                    match current {
                        Some(b) => b,
                        None => "main"@,
                    },
                ),
            ),
            (PushPhase::Discovery, PushEventView::Discovered(sessions)) => Some(
                PushState { sessions, ..self }.to_collisions(),
            ),
            (PushPhase::Collisions, PushEventView::CollisionsShown) => Some(self.to_existing()),
            (PushPhase::Existing, PushEventView::ExistingFound(existing)) => Some(
                PushState { existing, ..self }.to_session(),
            ),
            (PushPhase::Session, PushEventView::SessionDone) => Some(self.to_session()),
            (PushPhase::Summaries, PushEventView::SummariesChecked(flags)) => if flags.len() == self.summaries.len() {
                Some(PushState { summaries: accepted(self.summaries, flags), ..self }.to_confirmation())
            } else {
                None
            },
            (PushPhase::Confirmation, PushEventView::Confirmed(yes)) => Some(
                if yes {
                    self.to_settings()
                } else {
                    (PushState { phase: PushPhase::Finished, ..self }, PushActionView::Cancel)
                },
            ),
            (PushPhase::Settings, PushEventView::SettingsPushed) => Some(
                (PushState { phase: PushPhase::Staging, ..self }, PushActionView::Stage),
            ),
            (PushPhase::Staging, PushEventView::Staged(true)) => Some(
                (PushState { phase: PushPhase::Head, ..self }, PushActionView::ReadHead),
            ),
            (PushPhase::Head, PushEventView::HeadRead { head, stamp }) => Some(
                (
                    PushState { head, phase: PushPhase::Commit, ..self },
                    PushActionView::Commit { message: self.commit_message(stamp) },
                ),
            ),
            (PushPhase::Commit, PushEventView::Committed) => Some(self.to_remote()),
            (PushPhase::Remote, PushEventView::RemotePushed) => Some(
                (PushState { phase: PushPhase::Record, ..self }, PushActionView::SaveRecord),
            ),
            _ => None,
        }
    }

    /// Whether an event ends the push: the record is saved, or there was nothing to commit.
    pub open spec fn ends_with(self, event: PushEventView) -> bool {
        ||| self.phase == PushPhase::Record && event is RecordSaved
        ||| self.phase == PushPhase::Staging && event == PushEventView::Staged(false)
    }

    /// What the run is after an event.
    pub open spec fn next(self, event: PushEventView) -> PushState {
        if self.ends_with(event) {
            PushState { phase: PushPhase::Finished, ..self }
        } else {
            match self.after(event) {
                Some((s, _)) => s,
                None => self,
            }
        }
    }

    /// Whether an event leads from this run to `next` with the action `action`.
    pub open spec fn steps_to(self, event: PushEventView, next: PushState, action: PushActionView) -> bool {
        if self.ends_with(event) {
            &&& next == self.next(event)
            &&& action matches PushActionView::Finish { report } && self.reports(report)
        } else {
            match self.after(event) {
                Some((s, a)) => next == s && action == a,
                None => next == self && action == PushActionView::Reject,
            }
        }
    }
}

/// A push that has not begun.
pub open spec fn fresh_push(request: PushRequest, setup: PushSetup) -> PushState {
    PushState {
        request,
        setup,
        claude_dir: Seq::empty(),
        branch: Seq::empty(),
        sessions: Seq::empty(),
        existing: Seq::empty(),
        placements: Seq::empty(),
        summaries: Seq::empty(),
        head: None,
        phase: PushPhase::Lfs,
    }
}

/// Begins a push.
pub fn push_history(request: PushRequest, setup: PushSetup) -> (r: (PushRun, PushAction))
    ensures
        (r.0@, r.1@) == fresh_push(request, setup).to_start(),
        r.0@.wf(),
{
    let run = PushRun {
        request,
        setup,
        claude_dir: String::new(),
        branch: String::new(),
        sessions: Vec::new(),
        existing: Vec::new(),
        placements: Vec::new(),
        summaries: Vec::new(),
        head: None,
        phase: PushPhase::Lfs,
    };
    proof {
        assert(push_placement_views(run.placements@) =~= Seq::empty());
        assert(summary_views(run.summaries@) =~= Seq::empty());
        assert(run@ == fresh_push(request, setup));
        reveal(PushState::is_placed);
    }
    if run.setup.features.enable_lfs {
        (run, PushAction::SetUpLfs)
    } else {
        run.to_location()
    }
}

impl PushRun {
    /// Which action the run waits for.
    pub fn phase(&self) -> (r: PushPhase)
        ensures
            r == self@.phase,
    {
        self.phase
    }

    /// What the user asked for.
    pub fn request(&self) -> (r: &PushRequest)
        ensures
            *r == self@.request,
    {
        &self.request
    }

    /// What the run found configured.
    pub fn setup(&self) -> (r: &PushSetup)
        ensures
            *r == self@.setup,
    {
        &self.setup
    }

    /// The directory of the local projects, once it is known.
    pub fn claude_dir(&self) -> (r: &String)
        ensures
            r@ == self@.claude_dir,
    {
        &self.claude_dir
    }

    /// The branch, once it is known.
    pub fn branch(&self) -> (r: &String)
        ensures
            r@ == self@.branch,
    {
        &self.branch
    }

    /// The local sessions, once they are discovered.
    pub fn sessions(&self) -> (r: &Vec<ConversationSession>)
        ensures
            r@ == self@.sessions,
    {
        &self.sessions
    }

    /// The sessions that the sync repository held before.
    pub fn existing(&self) -> (r: &Vec<ConversationSession>)
        ensures
            r@ == self@.existing,
    {
        &self.existing
    }

    /// The commit before the push, by which it can be undone.
    pub fn head(&self) -> (r: &Option<String>)
        ensures
            text_option(*r) == self@.head,
    {
        &self.head
    }

    /// The summaries for the record of the operation.
    pub fn summaries(&self) -> (r: &Vec<ConversationSummary>)
        ensures
            summary_views(r@) == self@.summaries,
    {
        &self.summaries
    }

    /// The filter that is in force.
    pub fn filter(&self) -> (r: FilterConfig)
        ensures
            r == self@.filter(),
    {
        self.setup.filter.excluding_attachments(self.request.exclude_attachments)
    }

    /// The directory of the projects in the sync repository.
    pub fn projects_dir(&self) -> (r: String)
        ensures
            r@ == self@.projects_dir(),
    {
        join_paths(self.setup.repo_path.as_str(), self.setup.sync_subdirectory.as_str())
    }

    /// The message of the commit at the moment `stamp`.
    pub fn commit_message_at(&self, stamp: &str) -> (r: String)
        ensures
            r@ == self@.commit_message(stamp@),
    {
        match copy_text(&self.request.commit_message) {
            Some(m) => m,
            None => default_message_at(self.sessions.len(), stamp),
        }
    }

    fn to_location(self) -> (r: (PushRun, PushAction))
        ensures
            (r.0@, r.1@) == self@.to_location(),
    {
        (PushRun { phase: PushPhase::Location, ..self }, PushAction::LocateProjects)
    }

    fn to_branch(self) -> (r: (PushRun, PushAction))
        ensures
            (r.0@, r.1@) == self@.to_branch(),
    {
        match copy_text(&self.request.branch) {
            Some(b) => self.to_discovery(b),
            None => (PushRun { phase: PushPhase::Branch, ..self }, PushAction::ReadBranch),
        }
    }

    fn to_discovery(self, branch: String) -> (r: (PushRun, PushAction))
        ensures
            (r.0@, r.1@) == self@.to_discovery(branch@),
    {
        let action = PushAction::Discover { filter: self.filter(), local_dir: self.claude_dir.clone() };
        (PushRun { branch, phase: PushPhase::Discovery, ..self }, action)
    }

    fn to_collisions(self) -> (r: (PushRun, PushAction))
        ensures
            (r.0@, r.1@) == self@.to_collisions(),
    {
        if self.setup.features.use_project_name_only {
            (PushRun { phase: PushPhase::Collisions, ..self }, PushAction::FindCollisions)
        } else {
            self.to_existing()
        }
    }

    fn to_existing(self) -> (r: (PushRun, PushAction))
        ensures
            (r.0@, r.1@) == self@.to_existing(),
    {
        let filter = self.filter();
        let projects_dir = self.projects_dir();
        (PushRun { phase: PushPhase::Existing, ..self }, PushAction::DiscoverExisting { filter, projects_dir })
    }

    fn to_session(self) -> (r: (PushRun, PushAction))
        requires
            self.placements@.len() <= self.sessions@.len(),
        ensures
            (r.0@, r.1@) == self@.to_session(),
    {
        let session = self.placements.len();
        if session < self.sessions.len() {
            let p = place_session(
                &self.sessions[session],
                &self.existing,
                &self.claude_dir,
                &self.projects_dir(),
                self.setup.features.use_project_name_only,
            );
            let action = match &p {
                PushPlacement::Placed { relative: _, dest, operation: _ } => PushAction::WriteSession { session, dest: dest.clone() },
                PushPlacement::Skipped => PushAction::SkipSession { session },
            };
            let mut run = self;
            let ghost before = run.placements@;
            run.placements.push(p);
            assert(push_placement_views(run.placements@) =~= push_placement_views(before).push(p@));
            (PushRun { phase: PushPhase::Session, ..run }, action)
        } else {
            let summaries = summarize_pushed(&self.placements, &self.sessions);
            (PushRun { summaries, phase: PushPhase::Summaries, ..self }, PushAction::CheckSummaries)
        }
    }

    fn to_confirmation(self) -> (r: (PushRun, PushAction))
        ensures
            (r.0@, r.1@) == self@.to_confirmation(),
    {
        if self.request.interactive && self.setup.terminal {
            (PushRun { phase: PushPhase::Confirmation, ..self }, PushAction::Confirm)
        } else {
            self.to_settings()
        }
    }

    fn to_settings(self) -> (r: (PushRun, PushAction))
        ensures
            (r.0@, r.1@) == self@.to_settings(),
    {
        if self.setup.features.sync_settings {
            (PushRun { phase: PushPhase::Settings, ..self }, PushAction::PushSettings)
        } else {
            (PushRun { phase: PushPhase::Staging, ..self }, PushAction::Stage)
        }
    }

    fn to_remote(self) -> (r: (PushRun, PushAction))
        ensures
            (r.0@, r.1@) == self@.to_remote(),
    {
        if self.request.push_remote && self.setup.has_remote {
            let branch = self.branch.clone();
            (PushRun { phase: PushPhase::Remote, ..self }, PushAction::PushRemote { branch })
        } else {
            (PushRun { phase: PushPhase::Record, ..self }, PushAction::SaveRecord)
        }
    }

    /// The numbers of the push so far.
    pub fn counts(&self) -> (r: PushCounts)
        ensures
            self@.counts(r),
    {
        let skipped = count_skipped(&self.placements);
        let with_context = if skipped <= self.sessions.len() {
            self.sessions.len() - skipped
        } else {
            0
        };
        PushCounts {
            added: count_pushed(&self.placements, SyncOperation::Added),
            modified: count_pushed(&self.placements, SyncOperation::Modified),
            unchanged: count_pushed(&self.placements, SyncOperation::Unchanged),
            skipped,
            with_context,
        }
    }

    fn finish(self) -> (r: (PushRun, PushAction))
        ensures
            r.0@ == (PushState { phase: PushPhase::Finished, ..self@ }),
            r.1@ matches PushActionView::Finish { report } && self@.reports(report),
    {
        let report = PushReport {
            counts: self.counts(),
            committed: self.phase == PushPhase::Record,
            projects: project_reports(&self.summaries),
        };
        (PushRun { phase: PushPhase::Finished, ..self }, PushAction::Finish { report })
    }

    /// Takes the result of the action that the run waits for, and names the next action. An
    /// event that does not answer the action changes nothing and is rejected.
    pub fn step(self, event: PushEvent) -> (r: (PushRun, PushAction))
        requires
            self@.wf(),
        ensures
            self@.steps_to(event@, r.0@, r.1@),
            r.0@.wf(),
    {
        proof {
            if event is Discovered {
                assert(event->Discovered_0.len() <= usize::MAX);
            }
            push_step_keeps_wf(self@, event@);
        }
        match (self.phase, event) {
            (PushPhase::Lfs, PushEvent::LfsReady) => self.to_location(),
            (PushPhase::Location, PushEvent::ProjectsLocated(claude_dir)) => PushRun { claude_dir, ..self }.to_branch(),
            (PushPhase::Branch, PushEvent::BranchRead(current)) => {
                let branch = match current {
                    Some(b) => b,
                    None => "main".to_string(),
                };
                self.to_discovery(branch)
            },
            (PushPhase::Discovery, PushEvent::Discovered(sessions)) => PushRun { sessions, ..self }.to_collisions(),
            (PushPhase::Collisions, PushEvent::CollisionsShown) => self.to_existing(),
            (PushPhase::Existing, PushEvent::ExistingFound(existing)) => PushRun { existing, ..self }.to_session(),
            (PushPhase::Session, PushEvent::SessionDone) => self.to_session(),
            (PushPhase::Summaries, PushEvent::SummariesChecked(flags)) => if flags.len() == self.summaries.len() {
                let summaries = keep_accepted(&self.summaries, &flags);
                PushRun { summaries, ..self }.to_confirmation()
            } else {
                (self, PushAction::Reject)
            },
            (PushPhase::Confirmation, PushEvent::Confirmed(yes)) => if yes {
                self.to_settings()
            } else {
                (PushRun { phase: PushPhase::Finished, ..self }, PushAction::Cancel)
            },
            (PushPhase::Settings, PushEvent::SettingsPushed) => (PushRun { phase: PushPhase::Staging, ..self }, PushAction::Stage),
            (PushPhase::Staging, PushEvent::Staged(changed)) => if changed {
                (PushRun { phase: PushPhase::Head, ..self }, PushAction::ReadHead)
            } else {
                self.finish()
            },
            (PushPhase::Head, PushEvent::HeadRead { head, stamp }) => {
                let message = self.commit_message_at(stamp.as_str());
                (PushRun { head, phase: PushPhase::Commit, ..self }, PushAction::Commit { message })
            },
            (PushPhase::Commit, PushEvent::Committed) => self.to_remote(),
            (PushPhase::Remote, PushEvent::RemotePushed) => (PushRun { phase: PushPhase::Record, ..self }, PushAction::SaveRecord),
            (PushPhase::Record, PushEvent::RecordSaved) => self.finish(),
            _ => (self, PushAction::Reject),
        }
    }
}

/// Every step keeps the invariant.
pub proof fn push_step_keeps_wf(s: PushState, event: PushEventView)
    requires
        s.wf(),
        event matches PushEventView::Discovered(sessions) ==> sessions.len() <= usize::MAX,
    ensures
        s.next(event).wf(),
{
    let n = s.next(event);
    if n.placements == s.placements {
        placed_carries(s, n);
    } else if s.phase == PushPhase::Existing {
        let with_existing = PushState { existing: event->ExistingFound_0, ..s };
        placed_carries(s, with_existing);
        to_session_keeps_placed(with_existing);
    } else {
        to_session_keeps_placed(s);
    }
}

/// A step that places no session leaves the others in place.
proof fn placed_carries(s: PushState, n: PushState)
    requires
        s.is_placed(),
        n.placements == s.placements,
        n.placements.len() == 0 || (n.sessions == s.sessions && n.existing == s.existing && n.setup == s.setup
            && n.claude_dir == s.claude_dir),
    ensures
        n.is_placed(),
{
    reveal(PushState::is_placed);
    assert forall|i: int| 0 <= i < n.placements.len() implies (#[trigger] n.placements[i]) == n.placement(i) by {
        assert(s.placements[i] == s.placement(i));
    }
}

/// The next session goes to its place.
proof fn to_session_keeps_placed(s: PushState)
    requires
        s.is_placed(),
    ensures
        s.to_session().0.is_placed(),
{
    reveal(PushState::is_placed);
    let n = s.to_session().0;
    assert forall|i: int| 0 <= i < n.placements.len() implies (#[trigger] n.placements[i]) == n.placement(i) by {
        if i < s.placements.len() {
            assert(s.placements[i] == s.placement(i));
        }
        assert(n.placement(i) == s.placement(i));
    }
}

/// The value of a run is that of its fields.
proof fn push_run_value(run: PushRun)
    ensures
        run@.request == run.request && run@.setup == run.setup && run@.phase == run.phase,
        run@.claude_dir == run.claude_dir@ && run@.branch == run.branch@,
        run@.sessions == run.sessions@ && run@.existing == run.existing@,
        run@.placements == push_placement_views(run.placements@),
        run@.summaries == summary_views(run.summaries@),
        run.head matches Some(h) ==> run@.head == Some(h@),
        run.head is None ==> run@.head is None,
{
}

} // verus!
