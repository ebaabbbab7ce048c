//! A pull, step by step: from what has happened to what is to be done next.
//!
//! A run names one action at a time. The caller carries the action out and answers with the
//! event that tells its result. An action that fails ends the pull: the caller stops and reports
//! the failure.
use crate::clock::{compact_stamp, is_common, is_compact_stamp, stamp_text, COMPACT_FORMAT};
use crate::filter::{Features, FilterConfig};
use crate::path::{join_paths, joined, relative, relative_to};
use crate::pull_plan::{
    accepted, conflict_files, conflict_summaries, count_left_out, count_merged, count_placed, count_written, in_conflict,
    is_in_conflict, keep_accepted, left_out, local_files, place_by_directory, place_by_project, place_in_directory,
    place_in_project, placed_anew, placed_as, placement_summaries, placement_views, project_name, remote_project_name,
    rename_view, rename_views, summarize_conflicts, summarize_placements, unresolved, unresolved_conflicts, was_merged,
    Conflict, MergeOutcome, Placement, PlacementView, Rename,
};
use crate::report::{is_overview, project_reports, project_views, ProjectReport, ProjectView};
use crate::session::{
    classify, copy_text, find_first, find_last, first_with_id, last_with_id, operation_on, summary_views, text_option,
    ConversationSession, ConversationSummary, SummaryView, SyncOperation,
};
use std::time::SystemTime;
use vstd::prelude::*;
use vstd::string::StringExecFns;

verus! {

/// How much is told to the user.
#[derive(Clone, Copy, Debug, PartialEq, Eq, Structural)]
pub enum VerbosityLevel {
    Quiet,
    Normal,
    Verbose,
}

/// What the user asks of a pull.
pub struct PullRequest {
    pub fetch_remote: bool,
    pub branch: Option<String>,
    pub interactive: bool,
    pub verbosity: VerbosityLevel,
}

/// What a pull finds configured.
pub struct PullSetup {
    pub has_remote: bool,
    pub filter: FilterConfig,
    pub features: Features,
    /// Whether the user can be asked.
    pub terminal: bool,
    /// The directory of the local projects.
    pub claude_dir: String,
    /// The directory of the sync repository.
    pub repo_path: String,
    /// The directory of the projects within the sync repository.
    pub sync_subdirectory: String,
}

/// Which action a pull waits for.
#[derive(Clone, Copy, Debug, PartialEq, Eq, Structural)]
pub enum PullPhase {
    Branch,
    Fetch,
    Discovery,
    Snapshot,
    Confirmation,
    SmartMerge,
    Interactive,
    KeepBoth,
    RemoteCopy,
    Report,
    Project,
    Session,
    Settings,
    Summaries,
    Record,
    Finished,
}

/// A pull under way.
pub struct PullRun {
    request: PullRequest,
    setup: PullSetup,
    branch: String,
    locals: Vec<ConversationSession>,
    remotes: Vec<ConversationSession>,
    conflicts: Vec<Conflict>,
    /// The snapshot of the files in conflict, once it is saved.
    snapshot: Option<String>,
    /// What became of the conflicts that were looked at so far.
    outcomes: Vec<MergeOutcome>,
    /// How many conflicts left over have been kept in both versions.
    kept: usize,
    renames: Vec<Rename>,
    /// Where the remote sessions that were looked at so far go.
    placements: Vec<Placement>,
    /// The summaries for the record of the operation.
    summaries: Vec<ConversationSummary>,
    phase: PullPhase,
}

/// The value of a pull under way.
pub struct PullState {
    pub request: PullRequest,
    pub setup: PullSetup,
    pub branch: Seq<char>,
    pub locals: Seq<ConversationSession>,
    pub remotes: Seq<ConversationSession>,
    pub conflicts: Seq<Conflict>,
    pub snapshot: Option<Seq<char>>,
    pub outcomes: Seq<MergeOutcome>,
    pub kept: int,
    pub renames: Seq<(Seq<char>, Seq<char>)>,
    pub placements: Seq<PlacementView>,
    pub summaries: Seq<SummaryView>,
    pub phase: PullPhase,
}

impl View for PullRun {
    type V = PullState;

    closed spec fn view(&self) -> PullState {
        PullState {
            request: self.request,
            setup: self.setup,
            branch: self.branch@,
            locals: self.locals@,
            remotes: self.remotes@,
            conflicts: self.conflicts@,
            snapshot: text_option(self.snapshot),
            outcomes: self.outcomes@,
            kept: self.kept as int,
            renames: rename_views(self.renames@),
            placements: placement_views(self.placements@),
            summaries: summary_views(self.summaries@),
            phase: self.phase,
        }
    }
}

/// What a pull did, for the user.
pub struct PullReport {
    pub added: usize,
    pub modified: usize,
    pub conflicts: usize,
    pub unchanged: usize,
    pub merged: usize,
    pub skipped: usize,
    pub projects: Vec<ProjectReport>,
}

/// What is to be done next. Sessions and conflicts are named by their position.
pub enum PullAction {
    /// Read the current branch of the sync repository.
    ReadBranch,
    /// Fetch and merge the branch from the remote `origin`.
    Fetch { branch: String },
    /// Discover the sessions that the filter covers in both directories, and their conflicts.
    Discover { filter: FilterConfig, local_dir: String, remote_dir: String },
    /// Save a snapshot of these files.
    SaveSnapshot { files: Vec<String> },
    /// Ask the user whether to go on.
    Confirm,
    /// Merge two sessions and write the merged session to the local file of the conflict.
    SmartMerge { conflict: usize, local: usize, remote: usize },
    /// Nothing is to be done for this conflict: one of its sessions is missing.
    PassConflict { conflict: usize },
    /// Let the user resolve these conflicts, and apply the resolutions.
    ResolveInteractive { conflicts: Vec<usize> },
    /// Choose a file in which the remote version of a conflict is kept.
    KeepBoth { conflict: usize },
    /// Write a remote session to that file.
    WriteRemoteCopy { remote: usize, dest: String },
    /// Save the report of all conflicts.
    SaveReport,
    /// Find the local project with this name.
    FindProject { remote: usize, name: String },
    /// Nothing is to be done for this session: it is in conflict, or has no place here.
    SkipSession { remote: usize },
    /// Nothing is to be done for this session: it is unchanged.
    KeepSession { remote: usize },
    /// Write a remote session to this file.
    WriteSession { remote: usize, dest: String },
    /// Pull `settings.json`.
    PullSettings,
    /// Check which summaries of the run are valid.
    CheckSummaries,
    /// Save the record of the operation: branch, summaries and snapshot of the run.
    SaveRecord,
    /// Show the report and clean up: the pull is done.
    Finish { report: PullReport },
    /// Stop: the user declined.
    Cancel,
    /// The event does not answer the action that the run waits for.
    Reject,
}

/// The result of an action.
pub enum PullEvent {
    /// The current branch, if the repository tells it.
    BranchRead(Option<String>),
    /// The fetch was tried; a failure leaves the repository as it is.
    Fetched,
    Discovered { locals: Vec<ConversationSession>, remotes: Vec<ConversationSession>, conflicts: Vec<Conflict> },
    SnapshotSaved(String),
    Confirmed(bool),
    MergeTried(MergeOutcome),
    /// The versions that the user chose to keep beside the local ones.
    Resolved(Vec<Rename>),
    /// The file for the remote version, if one could be chosen.
    KeptBoth(Option<String>),
    CopyWritten,
    ReportSaved,
    /// The directory of the local project, if there is one.
    ProjectFound(Option<String>),
    SessionDone,
    SettingsPulled,
    /// For each summary, whether it is valid.
    SummariesChecked(Vec<bool>),
    RecordSaved,
}

/// The value of a report.
pub struct PullReportView {
    pub added: int,
    pub modified: int,
    pub conflicts: int,
    pub unchanged: int,
    pub merged: int,
    pub skipped: int,
    pub projects: Seq<ProjectView>,
}

/// The value of an action.
pub enum PullActionView {
    ReadBranch,
    Fetch { branch: Seq<char> },
    Discover { filter: FilterConfig, local_dir: Seq<char>, remote_dir: Seq<char> },
    SaveSnapshot { files: Seq<Seq<char>> },
    Confirm,
    SmartMerge { conflict: int, local: int, remote: int },
    PassConflict { conflict: int },
    ResolveInteractive { conflicts: Seq<usize> },
    KeepBoth { conflict: int },
    WriteRemoteCopy { remote: int, dest: Seq<char> },
    SaveReport,
    FindProject { remote: int, name: Seq<char> },
    SkipSession { remote: int },
    KeepSession { remote: int },
    WriteSession { remote: int, dest: Seq<char> },
    PullSettings,
    CheckSummaries,
    SaveRecord,
    Finish { report: PullReportView },
    Cancel,
    Reject,
}

/// The value of an event.
pub enum PullEventView {
    BranchRead(Option<Seq<char>>),
    Fetched,
    Discovered { locals: Seq<ConversationSession>, remotes: Seq<ConversationSession>, conflicts: Seq<Conflict> },
    SnapshotSaved(Seq<char>),
    Confirmed(bool),
    MergeTried(MergeOutcome),
    Resolved(Seq<(Seq<char>, Seq<char>)>),
    KeptBoth(Option<Seq<char>>),
    CopyWritten,
    ReportSaved,
    ProjectFound(Option<Seq<char>>),
    SessionDone,
    SettingsPulled,
    SummariesChecked(Seq<bool>),
    RecordSaved,
}

impl View for PullReport {
    type V = PullReportView;

    open spec fn view(&self) -> PullReportView {
        PullReportView {
            added: self.added as int,
            modified: self.modified as int,
            conflicts: self.conflicts as int,
            unchanged: self.unchanged as int,
            merged: self.merged as int,
            skipped: self.skipped as int,
            projects: project_views(self.projects@),
        }
    }
}

impl View for PullAction {
    type V = PullActionView;

    open spec fn view(&self) -> PullActionView {
        match self {
            PullAction::ReadBranch => PullActionView::ReadBranch,
            PullAction::Fetch { branch } => PullActionView::Fetch { branch: branch@ },
            PullAction::Discover { filter, local_dir, remote_dir } => PullActionView::Discover {
                filter: *filter,
                local_dir: local_dir@,
                remote_dir: remote_dir@,
            },
            PullAction::SaveSnapshot { files } => PullActionView::SaveSnapshot { files: files@.map_values(|s: String| s@) },
            PullAction::Confirm => PullActionView::Confirm,
            PullAction::SmartMerge { conflict, local, remote } => PullActionView::SmartMerge {
                conflict: *conflict as int,
                local: *local as int,
                remote: *remote as int,
            },
            PullAction::PassConflict { conflict } => PullActionView::PassConflict { conflict: *conflict as int },
            PullAction::ResolveInteractive { conflicts } => PullActionView::ResolveInteractive { conflicts: conflicts@ },
            PullAction::KeepBoth { conflict } => PullActionView::KeepBoth { conflict: *conflict as int },
            PullAction::WriteRemoteCopy { remote, dest } => PullActionView::WriteRemoteCopy { remote: *remote as int, dest: dest@ },
            PullAction::SaveReport => PullActionView::SaveReport,
            PullAction::FindProject { remote, name } => PullActionView::FindProject { remote: *remote as int, name: name@ },
            PullAction::SkipSession { remote } => PullActionView::SkipSession { remote: *remote as int },
            PullAction::KeepSession { remote } => PullActionView::KeepSession { remote: *remote as int },
            PullAction::WriteSession { remote, dest } => PullActionView::WriteSession { remote: *remote as int, dest: dest@ },
            PullAction::PullSettings => PullActionView::PullSettings,
            PullAction::CheckSummaries => PullActionView::CheckSummaries,
            PullAction::SaveRecord => PullActionView::SaveRecord,
            PullAction::Finish { report } => PullActionView::Finish { report: report@ },
            PullAction::Cancel => PullActionView::Cancel,
            PullAction::Reject => PullActionView::Reject,
        }
    }
}

impl View for PullEvent {
    type V = PullEventView;

    open spec fn view(&self) -> PullEventView {
        match self {
            PullEvent::BranchRead(b) => PullEventView::BranchRead(text_option(*b)),
            PullEvent::Fetched => PullEventView::Fetched,
            PullEvent::Discovered { locals, remotes, conflicts } => PullEventView::Discovered {
                locals: locals@,
                remotes: remotes@,
                conflicts: conflicts@,
            },
            PullEvent::SnapshotSaved(p) => PullEventView::SnapshotSaved(p@),
            PullEvent::Confirmed(yes) => PullEventView::Confirmed(*yes),
            PullEvent::MergeTried(o) => PullEventView::MergeTried(*o),
            PullEvent::Resolved(r) => PullEventView::Resolved(rename_views(r@)),
            PullEvent::KeptBoth(p) => PullEventView::KeptBoth(text_option(*p)),
            PullEvent::CopyWritten => PullEventView::CopyWritten,
            PullEvent::ReportSaved => PullEventView::ReportSaved,
            PullEvent::ProjectFound(d) => PullEventView::ProjectFound(text_option(*d)),
            PullEvent::SessionDone => PullEventView::SessionDone,
            PullEvent::SettingsPulled => PullEventView::SettingsPulled,
            PullEvent::SummariesChecked(f) => PullEventView::SummariesChecked(f@),
            PullEvent::RecordSaved => PullEventView::RecordSaved,
        }
    }
}

impl PullState {
    /// The directory of the remote sessions.
    pub open spec fn remote_dir(self) -> Seq<char> {
        joined(self.setup.repo_path@, self.setup.sync_subdirectory@)
    }

    /// The path of a remote session relative to that directory.
    pub open spec fn remote_relative(self, i: int) -> Seq<char> {
        relative(self.remotes[i].file_path@, self.remote_dir())
    }

    /// What writing a remote session does to the local side.
    pub open spec fn operation(self, i: int) -> SyncOperation {
        operation_on(self.locals, self.remotes[i])
    }

    /// The two sessions of a conflict, where both are found.
    pub open spec fn conflict_pair(self, k: int) -> Option<(usize, usize)> {
        let id = self.conflicts[k].session_id@;
        match (last_with_id(self.locals, id), last_with_id(self.remotes, id)) {
            (Some(l), Some(r)) => Some((l, r)),
            _ => None,
        }
    }

    /// Whether the user is asked before anything is changed.
    pub open spec fn asks(self) -> bool {
        self.request.interactive && self.setup.terminal
    }

    /// After the branch is known: fetch it, if asked to and there is a remote.
    pub open spec fn to_fetch(self, branch: Seq<char>) -> (PullState, PullActionView) {
        if self.request.fetch_remote && self.setup.has_remote {
            (PullState { branch, phase: PullPhase::Fetch, ..self }, PullActionView::Fetch { branch })
        } else {
            PullState { branch, ..self }.to_discovery()
        }
    }

    /// The sessions of both sides.
    pub open spec fn to_discovery(self) -> (PullState, PullActionView) {
        (
            PullState { phase: PullPhase::Discovery, ..self },
            PullActionView::Discover {
                filter: self.setup.filter,
                local_dir: self.setup.claude_dir@,
                remote_dir: self.remote_dir(),
            },
        )
    }

    /// At the start: the branch asked for, or else the current one is looked up.
    pub open spec fn to_start(self) -> (PullState, PullActionView) {
        match self.request.branch {
            Some(b) => self.to_fetch(b@),
            None => (PullState { phase: PullPhase::Branch, ..self }, PullActionView::ReadBranch),
        }
    }

    /// After the sessions are discovered: a snapshot of the files in conflict, if there are any.
    pub open spec fn to_snapshot(self) -> (PullState, PullActionView) {
        if self.conflicts.len() > 0 {
            (PullState { phase: PullPhase::Snapshot, ..self }, PullActionView::SaveSnapshot { files: local_files(self.conflicts) })
        } else {
            self.to_confirmation()
        }
    }

    /// Before anything is changed: ask the user, if there is one to ask.
    pub open spec fn to_confirmation(self) -> (PullState, PullActionView) {
        if self.asks() {
            (PullState { phase: PullPhase::Confirmation, ..self }, PullActionView::Confirm)
        } else {
            self.to_smart_merge()
        }
    }

    /// The next conflict: merge its two sessions, where both are found.
    pub open spec fn to_smart_merge(self) -> (PullState, PullActionView) {
        let k = self.outcomes.len() as int;
        if k < self.conflicts.len() {
            (
                PullState { phase: PullPhase::SmartMerge, ..self },
                match self.conflict_pair(k) {
                    Some((l, r)) => PullActionView::SmartMerge { conflict: k, local: l as int, remote: r as int },
                    None => PullActionView::PassConflict { conflict: k },
                },
            )
        } else {
            self.to_resolution()
        }
    }

    /// The conflicts left over: the user resolves them, or else both versions are kept.
    pub open spec fn to_resolution(self) -> (PullState, PullActionView) {
        if unresolved(self.outcomes).len() == 0 {
            self.to_session()
        } else if self.setup.terminal {
            (
                PullState { phase: PullPhase::Interactive, ..self },
                PullActionView::ResolveInteractive { conflicts: unresolved(self.outcomes) },
            )
        } else {
            self.to_keep_both()
        }
    }

    /// The next conflict of which both versions are kept; after the last one, the report.
    pub open spec fn to_keep_both(self) -> (PullState, PullActionView) {
        if self.kept < unresolved(self.outcomes).len() {
            (
                PullState { phase: PullPhase::KeepBoth, ..self },
                PullActionView::KeepBoth { conflict: unresolved(self.outcomes)[self.kept] as int },
            )
        } else {
            (PullState { phase: PullPhase::Report, ..self }, PullActionView::SaveReport)
        }
    }

    /// A file was chosen for the remote version of the conflict: write the remote session there,
    /// if there is one.
    pub open spec fn to_remote_copy(self, dest: Seq<char>) -> (PullState, PullActionView) {
        let conflict = self.conflicts[unresolved(self.outcomes)[self.kept] as int];
        let renamed = PullState { renames: self.renames.push((conflict.remote_file@, dest)), ..self };
        match first_with_id(self.remotes, conflict.session_id@) {
            Some(j) => (PullState { phase: PullPhase::RemoteCopy, ..renamed }, PullActionView::WriteRemoteCopy { remote: j as int, dest }),
            None => PullState { kept: self.kept + 1, ..renamed }.to_keep_both(),
        }
    }

    /// The next remote session: sessions in conflict are dealt with already; the others go to
    /// the local project of the same name, or to the same place.
    pub open spec fn to_session(self) -> (PullState, PullActionView) {
        let i = self.placements.len() as int;
        if i < self.remotes.len() {
            if in_conflict(self.conflicts, self.remotes[i].session_id@) {
                self.placed(PlacementView::Conflicted)
            } else if self.setup.features.use_project_name_only {
                (
                    PullState { phase: PullPhase::Project, ..self },
                    PullActionView::FindProject { remote: i, name: project_name(self.remote_relative(i)) },
                )
            } else {
                self.placed(place_by_directory(self.remote_relative(i), self.setup.claude_dir@, self.operation(i)))
            }
        } else {
            self.to_settings()
        }
    }

    /// A remote session has its place: write it there, unless it is unchanged.
    pub open spec fn placed(self, p: PlacementView) -> (PullState, PullActionView) {
        let i = self.placements.len() as int;
        (
            PullState { placements: self.placements.push(p), phase: PullPhase::Session, ..self },
            match p {
                PlacementView::Placed { dest, operation, .. } => if operation == SyncOperation::Unchanged {
                    PullActionView::KeepSession { remote: i }
                } else {
                    PullActionView::WriteSession { remote: i, dest }
                },
                _ => PullActionView::SkipSession { remote: i },
            },
        )
    }

    /// After the sessions: the settings, if they are synchronised.
    pub open spec fn to_settings(self) -> (PullState, PullActionView) {
        if self.setup.features.sync_settings {
            (PullState { phase: PullPhase::Settings, ..self }, PullActionView::PullSettings)
        } else {
            self.to_summaries()
        }
    }

    /// The summaries of the operation: kept conflicts first, then the sessions placed.
    pub open spec fn to_summaries(self) -> (PullState, PullActionView) {
        (
            PullState {
                summaries: conflict_summaries(self.renames, self.remotes, self.setup.claude_dir@) + placement_summaries(
                    self.placements,
                    self.remotes,
                ),
                phase: PullPhase::Summaries,
                ..self
            },
            PullActionView::CheckSummaries,
        )
    }

    /// Whether `r` reports this pull.
    pub open spec fn reports(self, r: PullReportView) -> bool {
        &&& r.added == self.placements.filter(placed_as(SyncOperation::Added)).len()
        &&& r.modified == self.placements.filter(placed_as(SyncOperation::Modified)).len()
        &&& r.unchanged == self.placements.filter(placed_as(SyncOperation::Unchanged)).len()
        &&& r.conflicts == self.conflicts.len()
        &&& r.merged == self.placements.filter(placed_anew()).len()
        &&& r.skipped == self.placements.filter(left_out()).len()
        &&& is_overview(self.summaries, r.projects)
    }

    /// Whether nothing has been changed yet.
    pub open spec fn is_early(self) -> bool {
        ||| self.phase == PullPhase::Branch
        ||| self.phase == PullPhase::Fetch
        ||| self.phase == PullPhase::Discovery
        ||| self.phase == PullPhase::Snapshot
        ||| self.phase == PullPhase::Confirmation
    }

    /// Whether smart merging has been tried on all conflicts.
    pub open spec fn is_late(self) -> bool {
        ||| self.phase == PullPhase::Interactive
        ||| self.phase == PullPhase::KeepBoth
        ||| self.phase == PullPhase::RemoteCopy
        ||| self.phase == PullPhase::Report
        ||| self.phase == PullPhase::Project
        ||| self.phase == PullPhase::Session
        ||| self.phase == PullPhase::Settings
        ||| self.phase == PullPhase::Summaries
        ||| self.phase == PullPhase::Record
    }

    /// The invariant of a run: what has been done so far fits the phase.
    pub open spec fn wf(self) -> bool {
        &&& self.outcomes.len() <= self.conflicts.len() <= usize::MAX
        &&& self.placements.len() <= self.remotes.len() <= usize::MAX
        &&& 0 <= self.kept <= unresolved(self.outcomes).len()
        &&& self.is_early() ==> self.outcomes.len() == 0 && self.renames.len() == 0 && self.placements.len() == 0
        &&& self.phase == PullPhase::SmartMerge ==> self.outcomes.len() < self.conflicts.len()
        &&& self.phase == PullPhase::KeepBoth || self.phase == PullPhase::RemoteCopy ==> self.kept < unresolved(
            self.outcomes,
        ).len()
        &&& self.phase == PullPhase::Project ==> self.setup.features.use_project_name_only && self.placements.len()
            < self.remotes.len() && !in_conflict(
            self.conflicts,
            self.remotes[self.placements.len() as int].session_id@,
        )
        &&& self.is_late() ==> self.outcomes.len() == self.conflicts.len()
        &&& self.phase == PullPhase::Settings || self.phase == PullPhase::Summaries || self.phase == PullPhase::Record
            ==> self.placements.len() == self.remotes.len()
    }

    /// The step that an event calls for, but for the report: what the run is afterwards, and
    /// what is to be done next. `None` where the event does not answer the action.
    pub open spec fn after(self, event: PullEventView) -> Option<(PullState, PullActionView)> {
        match (self.phase, event) {
            (PullPhase::Branch, PullEventView::BranchRead(current)) => Some(
                self.to_fetch(
                    match current {
                        Some(b) => b,
                        None => "main"@,
                    },
                ),
            ),
            (PullPhase::Fetch, PullEventView::Fetched) => Some(self.to_discovery()),
            (PullPhase::Discovery, PullEventView::Discovered { locals, remotes, conflicts }) => Some(
                PullState { locals, remotes, conflicts, ..self }.to_snapshot(),
            ),
            (PullPhase::Snapshot, PullEventView::SnapshotSaved(path)) => Some(
                PullState { snapshot: Some(path), ..self }.to_confirmation(),
            ),
            (PullPhase::Confirmation, PullEventView::Confirmed(yes)) => Some(
                if yes {
                    self.to_smart_merge()
                } else {
                    (PullState { phase: PullPhase::Finished, ..self }, PullActionView::Cancel)
                },
            ),
            (PullPhase::SmartMerge, PullEventView::MergeTried(outcome)) => {
                let k = self.outcomes.len() as int;
                if (outcome == MergeOutcome::Unmatched) == (self.conflict_pair(k) is None) {
                    Some(PullState { outcomes: self.outcomes.push(outcome), ..self }.to_smart_merge())
                } else {
                    None
                }
            },
            (PullPhase::Interactive, PullEventView::Resolved(renames)) => Some(
                (PullState { renames, phase: PullPhase::Report, ..self }, PullActionView::SaveReport),
            ),
            (PullPhase::KeepBoth, PullEventView::KeptBoth(file)) => Some(
                match file {
                    Some(dest) => self.to_remote_copy(dest),
                    None => PullState { kept: self.kept + 1, ..self }.to_keep_both(),
                },
            ),
            (PullPhase::RemoteCopy, PullEventView::CopyWritten) => Some(
                PullState { kept: self.kept + 1, ..self }.to_keep_both(),
            ),
            (PullPhase::Report, PullEventView::ReportSaved) => Some(self.to_session()),
            (PullPhase::Project, PullEventView::ProjectFound(dir)) => {
                let i = self.placements.len() as int;
                Some(
                    self.placed(
                        place_by_project(self.remote_relative(i), dir, self.setup.claude_dir@, self.operation(i)),
                    ),
                )
            },
            (PullPhase::Session, PullEventView::SessionDone) => Some(self.to_session()),
            (PullPhase::Settings, PullEventView::SettingsPulled) => Some(self.to_summaries()),
            (PullPhase::Summaries, PullEventView::SummariesChecked(flags)) => if flags.len() == self.summaries.len() {
                Some(
                    (
                        PullState { summaries: accepted(self.summaries, flags), phase: PullPhase::Record, ..self },
                        PullActionView::SaveRecord,
                    ),
                )
            } else {
                None
            },
            _ => None,
        }
    }

    /// What the run is after an event.
    pub open spec fn next(self, event: PullEventView) -> PullState {
        if self.phase == PullPhase::Record && event is RecordSaved {
            PullState { phase: PullPhase::Finished, ..self }
        } else {
            match self.after(event) {
                Some((s, _)) => s,
                None => self,
            }
        }
    }

    /// Whether an event leads from this run to `next` with the action `action`.
    pub open spec fn steps_to(self, event: PullEventView, next: PullState, action: PullActionView) -> bool {
        if self.phase == PullPhase::Record && event is RecordSaved {
            &&& next == self.next(event)
            &&& action matches PullActionView::Finish { report } && self.reports(report)
        } else {
            match self.after(event) {
                Some((s, a)) => next == s && action == a,
                None => next == self && action == PullActionView::Reject,
            }
        }
    }
}

/// A pull that has not begun.
pub open spec fn fresh_pull(request: PullRequest, setup: PullSetup) -> PullState {
    PullState {
        request,
        setup,
        branch: Seq::empty(),
        locals: Seq::empty(),
        remotes: Seq::empty(),
        conflicts: Seq::empty(),
        snapshot: None,
        outcomes: Seq::empty(),
        kept: 0,
        renames: Seq::empty(),
        placements: Seq::empty(),
        summaries: Seq::empty(),
        phase: PullPhase::Branch,
    }
}

/// Begins a pull.
pub fn pull_history(request: PullRequest, setup: PullSetup) -> (r: (PullRun, PullAction))
    ensures
        (r.0@, r.1@) == fresh_pull(request, setup).to_start(),
        r.0@.wf(),
{
    let run = PullRun {
        request,
        setup,
        branch: String::new(),
        locals: Vec::new(),
        remotes: Vec::new(),
        conflicts: Vec::new(),
        snapshot: None,
        outcomes: Vec::new(),
        kept: 0,
        renames: Vec::new(),
        placements: Vec::new(),
        summaries: Vec::new(),
        phase: PullPhase::Branch,
    };
    proof {
        assert(rename_views(run.renames@) =~= Seq::empty());
        assert(placement_views(run.placements@) =~= Seq::empty());
        assert(summary_views(run.summaries@) =~= Seq::empty());
        assert(run@ == fresh_pull(request, setup));
    }
    match copy_text(&run.request.branch) {
        Some(b) => run.to_fetch(b),
        None => (run, PullAction::ReadBranch),
    }
}

/// What marks the file of a remote version that is kept beside the local one.
pub open spec fn conflict_suffix_text(stamp: Seq<char>) -> Seq<char> {
    "conflict-"@ + stamp
}

/// What marks the file of a remote version kept at the moment `stamp`.
pub fn conflict_suffix_at(stamp: &str) -> (r: String)
    ensures
        r@ == conflict_suffix_text(stamp@),
{
    "conflict-".to_string().concat(stamp)
}

/// What marks the file of a remote version kept at the moment `now`; `None` where the moment has
/// no stamp.
pub fn conflict_suffix(now: SystemTime) -> (r: Option<String>)
    ensures
        match stamp_text(now, COMPACT_FORMAT@) {
            Some(stamp) => r is Some && r->0@ == conflict_suffix_text(stamp) && is_compact_stamp(stamp),
            None => r is None,
        },
        is_common(now) ==> r is Some,
{
    match compact_stamp(now) {
        Some(stamp) => Some(conflict_suffix_at(stamp.as_str())),
        None => None,
    }
}

/// A suffix begins with what marks a conflict, and the moment follows.
pub proof fn suffix_tells_the_moment(stamp: Seq<char>)
    ensures
        ({
            let suffix = conflict_suffix_text(stamp);
            &&& suffix.take(9) == "conflict-"@
            &&& suffix.skip(9) == stamp
        }),
{
    reveal_strlit("conflict-");
    assert(conflict_suffix_text(stamp).take(9) =~= "conflict-"@);
    assert(conflict_suffix_text(stamp).skip(9) =~= stamp);
}

/// Every position left over is that of a conflict that was looked at.
pub proof fn unresolved_bounds(outcomes: Seq<MergeOutcome>)
    requires
        outcomes.len() <= usize::MAX,
    ensures
        unresolved(outcomes).len() <= outcomes.len(),
        forall|k: int| 0 <= k < unresolved(outcomes).len() ==> (#[trigger] unresolved(outcomes)[k]) < outcomes.len(),
    decreases outcomes.len(),
{
    if outcomes.len() > 0 {
        unresolved_bounds(outcomes.drop_last());
    }
}

impl PullRun {
    /// Which action the run waits for.
    pub fn phase(&self) -> (r: PullPhase)
        ensures
            r == self@.phase,
    {
        self.phase
    }

    /// What the run found configured.
    pub fn setup(&self) -> (r: &PullSetup)
        ensures
            *r == self@.setup,
    {
        &self.setup
    }

    /// The branch, once it is known.
    pub fn branch(&self) -> (r: &String)
        ensures
            r@ == self@.branch,
    {
        &self.branch
    }

    /// The local sessions, once they are discovered.
    pub fn locals(&self) -> (r: &Vec<ConversationSession>)
        ensures
            r@ == self@.locals,
    {
        &self.locals
    }

    /// The remote sessions, once they are discovered.
    pub fn remotes(&self) -> (r: &Vec<ConversationSession>)
        ensures
            r@ == self@.remotes,
    {
        &self.remotes
    }

    /// The conflicts, once they are discovered.
    pub fn conflicts(&self) -> (r: &Vec<Conflict>)
        ensures
            r@ == self@.conflicts,
    {
        &self.conflicts
    }

    /// The snapshot of the files in conflict, once it is saved.
    pub fn snapshot(&self) -> (r: &Option<String>)
        ensures
            text_option(*r) == self@.snapshot,
    {
        &self.snapshot
    }

    /// The remote versions that were kept beside the local ones so far.
    pub fn renames(&self) -> (r: &Vec<Rename>)
        ensures
            rename_views(r@) == self@.renames,
    {
        &self.renames
    }

    /// The positions of the conflicts that merging has left over so far.
    pub fn left_over(&self) -> (r: Vec<usize>)
        ensures
            r@ == unresolved(self@.outcomes),
    {
        unresolved_conflicts(&self.outcomes)
    }

    /// The summaries for the record of the operation.
    pub fn summaries(&self) -> (r: &Vec<ConversationSummary>)
        ensures
            summary_views(r@) == self@.summaries,
    {
        &self.summaries
    }

    fn to_fetch(self, branch: String) -> (r: (PullRun, PullAction))
        ensures
            (r.0@, r.1@) == self@.to_fetch(branch@),
    {
        if self.request.fetch_remote && self.setup.has_remote {
            (PullRun { branch: branch.clone(), phase: PullPhase::Fetch, ..self }, PullAction::Fetch { branch })
        } else {
            PullRun { branch, ..self }.to_discovery()
        }
    }

    fn to_discovery(self) -> (r: (PullRun, PullAction))
        ensures
            (r.0@, r.1@) == self@.to_discovery(),
    {
        let action = PullAction::Discover {
            filter: self.setup.filter,
            local_dir: self.setup.claude_dir.clone(),
            remote_dir: self.remote_dir(),
        };
        (PullRun { phase: PullPhase::Discovery, ..self }, action)
    }

    /// The directory of the remote sessions.
    pub fn remote_dir(&self) -> (r: String)
        ensures
            r@ == self@.remote_dir(),
    {
        join_paths(self.setup.repo_path.as_str(), self.setup.sync_subdirectory.as_str())
    }

    fn to_snapshot(self) -> (r: (PullRun, PullAction))
        requires
            self.placements@.len() <= self.remotes@.len(),
            self.outcomes@.len() <= self.conflicts@.len(),
        ensures
            (r.0@, r.1@) == self@.to_snapshot(),
    {
        if self.conflicts.len() > 0 {
            let files = conflict_files(&self.conflicts);
            (PullRun { phase: PullPhase::Snapshot, ..self }, PullAction::SaveSnapshot { files })
        } else {
            self.to_confirmation()
        }
    }

    fn to_confirmation(self) -> (r: (PullRun, PullAction))
        requires
            self.placements@.len() <= self.remotes@.len(),
            self.outcomes@.len() <= self.conflicts@.len(),
        ensures
            (r.0@, r.1@) == self@.to_confirmation(),
    {
        if self.request.interactive && self.setup.terminal {
            (PullRun { phase: PullPhase::Confirmation, ..self }, PullAction::Confirm)
        } else {
            self.to_smart_merge()
        }
    }

    fn conflict_pair(&self, k: usize) -> (r: Option<(usize, usize)>)
        requires
            k < self.conflicts@.len(),
        ensures
            r == self@.conflict_pair(k as int),
    {
        let id = &self.conflicts[k].session_id;
        match (find_last(&self.locals, id), find_last(&self.remotes, id)) {
            (Some(l), Some(r)) => Some((l, r)),
            _ => None,
        }
    }

    fn to_smart_merge(self) -> (r: (PullRun, PullAction))
        requires
            self.placements@.len() <= self.remotes@.len(),
            self.outcomes@.len() <= self.conflicts@.len(),
        ensures
            (r.0@, r.1@) == self@.to_smart_merge(),
    {
        let k = self.outcomes.len();
        if k < self.conflicts.len() {
            let action = match self.conflict_pair(k) {
                Some((local, remote)) => PullAction::SmartMerge { conflict: k, local, remote },
                None => PullAction::PassConflict { conflict: k },
            };
            (PullRun { phase: PullPhase::SmartMerge, ..self }, action)
        } else {
            self.to_resolution()
        }
    }

    fn to_resolution(self) -> (r: (PullRun, PullAction))
        requires
            self.placements@.len() <= self.remotes@.len(),
            self.outcomes@.len() <= self.conflicts@.len(),
        ensures
            (r.0@, r.1@) == self@.to_resolution(),
    {
        let left = unresolved_conflicts(&self.outcomes);
        if left.len() == 0 {
            self.to_session()
        } else if self.setup.terminal {
            (PullRun { phase: PullPhase::Interactive, ..self }, PullAction::ResolveInteractive { conflicts: left })
        } else {
            self.to_keep_both()
        }
    }

    fn to_keep_both(self) -> (r: (PullRun, PullAction))
        ensures
            (r.0@, r.1@) == self@.to_keep_both(),
    {
        let left = unresolved_conflicts(&self.outcomes);
        if self.kept < left.len() {
            let conflict = left[self.kept];
            (PullRun { phase: PullPhase::KeepBoth, ..self }, PullAction::KeepBoth { conflict })
        } else {
            (PullRun { phase: PullPhase::Report, ..self }, PullAction::SaveReport)
        }
    }

    fn to_remote_copy(self, dest: String) -> (r: (PullRun, PullAction))
        requires
            self.outcomes@.len() <= self.conflicts@.len(),
            self.kept < unresolved(self.outcomes@).len(),
        ensures
            (r.0@, r.1@) == self@.to_remote_copy(dest@),
    {
        let left = unresolved_conflicts(&self.outcomes);
        let conflict = &self.conflicts[left[self.kept]];
        let found = find_first(&self.remotes, &conflict.session_id);
        let rename = Rename { remote_file: conflict.remote_file.clone(), renamed: dest.clone() };
        let mut run = self;
        let ghost before = run.renames@;
        run.renames.push(rename);
        assert(rename_views(run.renames@) =~= rename_views(before).push(rename_view(rename)));
        match found {
            Some(remote) => (PullRun { phase: PullPhase::RemoteCopy, ..run }, PullAction::WriteRemoteCopy { remote, dest }),
            None => {
                assert(run.kept < left.len());
                run.kept = run.kept + 1;
                run.to_keep_both()
            },
        }
    }

    fn remote_relative(&self, i: usize) -> (r: String)
        requires
            i < self.remotes@.len(),
        ensures
            r@ == self@.remote_relative(i as int),
    {
        let dir = self.remote_dir();
        relative_to(self.remotes[i].file_path.as_str(), dir.as_str())
    }

    fn to_session(self) -> (r: (PullRun, PullAction))
        requires
            self.placements@.len() <= self.remotes@.len(),
        ensures
            (r.0@, r.1@) == self@.to_session(),
    {
        let i = self.placements.len();
        if i < self.remotes.len() {
            if is_in_conflict(&self.conflicts, &self.remotes[i].session_id) {
                self.placed(Placement::Conflicted)
            } else if self.setup.features.use_project_name_only {
                let name = remote_project_name(self.remote_relative(i).as_str());
                (PullRun { phase: PullPhase::Project, ..self }, PullAction::FindProject { remote: i, name })
            } else {
                let operation = classify(&self.locals, &self.remotes[i]);
                let p = place_in_directory(self.remote_relative(i), &self.setup.claude_dir, operation);
                self.placed(p)
            }
        } else {
            self.to_settings()
        }
    }

    fn placed(self, p: Placement) -> (r: (PullRun, PullAction))
        requires
            self.placements@.len() < self.remotes@.len(),
        ensures
            (r.0@, r.1@) == self@.placed(p@),
    {
        let remote = self.placements.len();
        let action = match &p {
            Placement::Placed { dest, tracking: _, operation } => if *operation == SyncOperation::Unchanged {
                PullAction::KeepSession { remote }
            } else {
                PullAction::WriteSession { remote, dest: dest.clone() }
            },
            _ => PullAction::SkipSession { remote },
        };
        let mut run = self;
        let ghost before = run.placements@;
        run.placements.push(p);
        assert(placement_views(run.placements@) =~= placement_views(before).push(p@));
        (PullRun { phase: PullPhase::Session, ..run }, action)
    }

    fn to_settings(self) -> (r: (PullRun, PullAction))
        requires
            self.placements@.len() <= self.remotes@.len(),
        ensures
            (r.0@, r.1@) == self@.to_settings(),
    {
        if self.setup.features.sync_settings {
            (PullRun { phase: PullPhase::Settings, ..self }, PullAction::PullSettings)
        } else {
            self.to_summaries()
        }
    }

    fn to_summaries(self) -> (r: (PullRun, PullAction))
        requires
            self.placements@.len() <= self.remotes@.len(),
        ensures
            (r.0@, r.1@) == self@.to_summaries(),
    {
        let kept = summarize_conflicts(&self.renames, &self.remotes, &self.setup.claude_dir);
        let summaries = summarize_placements(kept, &self.placements, &self.remotes);
        (PullRun { summaries, phase: PullPhase::Summaries, ..self }, PullAction::CheckSummaries)
    }

    fn report(&self) -> (r: PullReport)
        ensures
            self@.reports(r@),
    {
        PullReport {
            added: count_placed(&self.placements, SyncOperation::Added),
            modified: count_placed(&self.placements, SyncOperation::Modified),
            conflicts: self.conflicts.len(),
            unchanged: count_placed(&self.placements, SyncOperation::Unchanged),
            merged: count_written(&self.placements),
            skipped: count_left_out(&self.placements),
            projects: project_reports(&self.summaries),
        }
    }

    /// The number of conflicts that smart merging has settled so far, of those looked at.
    pub fn smart_merge_count(&self) -> (r: usize)
        ensures
            r == self@.outcomes.filter(was_merged()).len(),
    {
        count_merged(&self.outcomes)
    }

    /// The number of remote sessions that have been merged in so far.
    pub fn merged_count(&self) -> (r: usize)
        ensures
            r == self@.placements.filter(placed_anew()).len(),
    {
        count_written(&self.placements)
    }

    /// Takes the result of the action that the run waits for, and names the next action. An
    /// event that does not answer the action changes nothing and is rejected.
    pub fn step(self, event: PullEvent) -> (r: (PullRun, PullAction))
        requires
            self@.wf(),
        ensures
            self@.steps_to(event@, r.0@, r.1@),
            r.0@.wf(),
    {
        proof {
            if event is Discovered {
                assert(event->remotes.len() <= usize::MAX && event->conflicts.len() <= usize::MAX);
            }
            step_keeps_wf(self@, event@);
            unresolved_bounds(self.outcomes@);
        }
        match (self.phase, event) {
            (PullPhase::Branch, PullEvent::BranchRead(current)) => {
                let branch = match current {
                    Some(b) => b,
                    None => "main".to_string(),
                };
                self.to_fetch(branch)
            },
            (PullPhase::Fetch, PullEvent::Fetched) => self.to_discovery(),
            (PullPhase::Discovery, PullEvent::Discovered { locals, remotes, conflicts }) => {
                PullRun { locals, remotes, conflicts, ..self }.to_snapshot()
            },
            (PullPhase::Snapshot, PullEvent::SnapshotSaved(path)) => {
                PullRun { snapshot: Some(path), ..self }.to_confirmation()
            },
            (PullPhase::Confirmation, PullEvent::Confirmed(yes)) => if yes {
                self.to_smart_merge()
            } else {
                (PullRun { phase: PullPhase::Finished, ..self }, PullAction::Cancel)
            },
            (PullPhase::SmartMerge, PullEvent::MergeTried(outcome)) => {
                let pair = self.conflict_pair(self.outcomes.len());
                if (outcome == MergeOutcome::Unmatched) == pair.is_none() {
                    let mut run = self;
                    run.outcomes.push(outcome);
                    run.to_smart_merge()
                } else {
                    (self, PullAction::Reject)
                }
            },
            (PullPhase::Interactive, PullEvent::Resolved(renames)) => {
                (PullRun { renames, phase: PullPhase::Report, ..self }, PullAction::SaveReport)
            },
            (PullPhase::KeepBoth, PullEvent::KeptBoth(file)) => match file {
                Some(dest) => self.to_remote_copy(dest),
                None => {
                    PullRun { kept: self.kept + 1, ..self }.to_keep_both()
                },
            },
            (PullPhase::RemoteCopy, PullEvent::CopyWritten) => {
                PullRun { kept: self.kept + 1, ..self }.to_keep_both()
            },
            (PullPhase::Report, PullEvent::ReportSaved) => self.to_session(),
            (PullPhase::Project, PullEvent::ProjectFound(dir)) => {
                let i = self.placements.len();
                let operation = classify(&self.locals, &self.remotes[i]);
                let p = place_in_project(self.remote_relative(i), &dir, &self.setup.claude_dir, operation);
                self.placed(p)
            },
            (PullPhase::Session, PullEvent::SessionDone) => self.to_session(),
            (PullPhase::Settings, PullEvent::SettingsPulled) => self.to_summaries(),
            (PullPhase::Summaries, PullEvent::SummariesChecked(flags)) => if flags.len() == self.summaries.len() {
                let summaries = keep_accepted(&self.summaries, &flags);
                (PullRun { summaries, phase: PullPhase::Record, ..self }, PullAction::SaveRecord)
            } else {
                (self, PullAction::Reject)
            },
            (PullPhase::Record, PullEvent::RecordSaved) => {
                let report = self.report();
                (PullRun { phase: PullPhase::Finished, ..self }, PullAction::Finish { report })
            },
            _ => (self, PullAction::Reject),
        }
    }
}

/// Every step keeps the invariant.
pub proof fn step_keeps_wf(s: PullState, event: PullEventView)
    requires
        s.wf(),
        event matches PullEventView::Discovered { remotes, conflicts, .. } ==> remotes.len() <= usize::MAX && conflicts.len()
            <= usize::MAX,
    ensures
        s.after(event) matches Some((next, _)) ==> next.wf(),
{
    unresolved_bounds(s.outcomes);
    if let PullEventView::MergeTried(o) = event {
        assert(s.outcomes.push(o).drop_last() =~= s.outcomes);
        assert(unresolved(s.outcomes.push(o)).len() >= unresolved(s.outcomes).len());
    }
}

/// The value of a run is that of its fields.
proof fn pull_run_value(run: PullRun)
    ensures
        run@.request == run.request && run@.setup == run.setup && run@.phase == run.phase,
        run@.branch == run.branch@ && run@.kept == run.kept,
        run@.locals == run.locals@ && run@.remotes == run.remotes@ && run@.conflicts == run.conflicts@,
        run@.outcomes == run.outcomes@,
        run@.renames == rename_views(run.renames@),
        run@.placements == placement_views(run.placements@),
        run@.summaries == summary_views(run.summaries@),
        run.snapshot matches Some(p) ==> run@.snapshot == Some(p@),
        run.snapshot is None ==> run@.snapshot is None,
{
}

} // verus!
