//! A synchronisation in both directions: a pull, then a push.
use crate::pull::{PullRequest, VerbosityLevel};
use crate::push::PushRequest;
use crate::session::{copy_text, text_option};
use vstd::prelude::*;

verus! {

/// What the user asks of a synchronisation.
pub struct SyncRequest {
    pub commit_message: Option<String>,
    pub branch: Option<String>,
    pub exclude_attachments: bool,
    pub interactive: bool,
    pub verbosity: VerbosityLevel,
}

/// Which half of a synchronisation is under way.
#[derive(Clone, Copy, Debug, PartialEq, Eq, Structural)]
pub enum SyncPhase {
    Pulling,
    Pushing,
    Over,
}

/// A synchronisation under way.
pub struct SyncRun {
    pub request: SyncRequest,
    pub phase: SyncPhase,
}

/// What is to be done next.
pub enum SyncAction {
    /// Pull, and answer whether it succeeded. A pull that the user declined has.
    Pull(PullRequest),
    /// Push, and answer whether it succeeded. A push that the user declined has.
    Push(PushRequest),
    /// Both sides are in sync.
    Finish,
    /// Stop: what was tried last has failed.
    Stop,
    /// The synchronisation is over already.
    Reject,
}

impl SyncRequest {
    /// Whether `p` is the pull of this synchronisation: of the remote too, for the same branch.
    pub open spec fn pulls_as(self, p: PullRequest) -> bool {
        &&& p.fetch_remote
        &&& text_option(p.branch) == text_option(self.branch)
        &&& p.interactive == self.interactive
        &&& p.verbosity == self.verbosity
    }

    /// Whether `p` is the push of this synchronisation: to the remote too, for the same branch.
    pub open spec fn pushes_as(self, p: PushRequest) -> bool {
        &&& p.push_remote
        &&& text_option(p.commit_message) == text_option(self.commit_message)
        &&& text_option(p.branch) == text_option(self.branch)
        &&& p.exclude_attachments == self.exclude_attachments
        &&& p.interactive == self.interactive
        &&& p.verbosity == self.verbosity
    }
}

impl SyncRun {
    /// The phase that follows this one.
    pub open spec fn next_phase(self, succeeded: bool) -> SyncPhase {
        if self.phase == SyncPhase::Pulling && succeeded {
            SyncPhase::Pushing
        } else {
            SyncPhase::Over
        }
    }

    /// Whether `action` is to be done next.
    pub open spec fn calls_for(self, succeeded: bool, action: SyncAction) -> bool {
        match self.phase {
            SyncPhase::Over => action is Reject,
            SyncPhase::Pulling if succeeded => action matches SyncAction::Push(p) && self.request.pushes_as(p),
            SyncPhase::Pushing if succeeded => action is Finish,
            _ => action is Stop,
        }
    }

    /// Takes whether the last action succeeded, and names the next one: the push comes only
    /// after a pull that succeeded, and a failure ends the synchronisation.
    pub fn step(self, succeeded: bool) -> (r: (SyncRun, SyncAction))
        ensures
            r.0.request == self.request,
            r.0.phase == self.next_phase(succeeded),
            self.calls_for(succeeded, r.1),
    {
        match self.phase {
            SyncPhase::Over => (self, SyncAction::Reject),
            SyncPhase::Pulling if succeeded => {
                let push = PushRequest {
                    commit_message: copy_text(&self.request.commit_message),
                    push_remote: true,
                    branch: copy_text(&self.request.branch),
                    exclude_attachments: self.request.exclude_attachments,
                    interactive: self.request.interactive,
                    verbosity: self.request.verbosity,
                };
                (SyncRun { phase: SyncPhase::Pushing, ..self }, SyncAction::Push(push))
            },
            SyncPhase::Pushing if succeeded => (SyncRun { phase: SyncPhase::Over, ..self }, SyncAction::Finish),
            _ => (SyncRun { phase: SyncPhase::Over, ..self }, SyncAction::Stop),
        }
    }
}

/// Begins a synchronisation in both directions: the pull comes first.
pub fn sync_bidirectional(request: SyncRequest) -> (r: (SyncRun, SyncAction))
    ensures
        r.0.request == request,
        r.0.phase == SyncPhase::Pulling,
        r.1 matches SyncAction::Pull(p) && request.pulls_as(p),
{
    let pull = PullRequest {
        fetch_remote: true,
        branch: copy_text(&request.branch),
        interactive: request.interactive,
        verbosity: request.verbosity,
    };
    (SyncRun { request, phase: SyncPhase::Pulling }, SyncAction::Pull(pull))
}

/// A synchronisation takes two answers at most: after the second, or after a failure, it is over
/// and stays so; and both sides are in sync exactly where both halves succeeded.
pub proof fn both_halves_make_a_sync(first: SyncRun, second: SyncRun, pulled: bool, pushed: bool, action: SyncAction)
    requires
        first.phase == SyncPhase::Pulling,
        second.request == first.request,
        second.phase == first.next_phase(pulled),
        second.calls_for(pushed, action),
    ensures
        action is Finish <==> pulled && pushed,
        second.next_phase(pushed) == SyncPhase::Over,
        !pulled ==> action is Reject,
{
}

/// The two halves of a synchronisation are asked for as the whole is: with the same branch,
/// verbosity and readiness to ask, the pull from the remote and the push to it, the push with the
/// same message and the same choice on attachments.
pub proof fn halves_are_asked_for_alike(request: SyncRequest, pull: PullRequest, push: PushRequest)
    requires
        request.pulls_as(pull),
        request.pushes_as(push),
    ensures
        pull.fetch_remote && push.push_remote,
        pull.interactive == request.interactive && push.interactive == request.interactive,
        pull.verbosity == request.verbosity && push.verbosity == request.verbosity,
        push.exclude_attachments == request.exclude_attachments,
        request.branch matches Some(b) ==> (pull.branch matches Some(p) && p@ == b@) && (push.branch matches Some(q) && q@ == b@),
        request.branch is None ==> pull.branch is None && push.branch is None,
        request.commit_message matches Some(m) ==> (push.commit_message matches Some(p) && p@ == m@),
        request.commit_message is None ==> push.commit_message is None,
{
}

/// The push is asked for after the pull, and only then, where the pull succeeded; it is over after
/// the push, or after a failure.
pub proof fn push_follows_a_successful_pull(run: SyncRun, succeeded: bool, action: SyncAction)
    requires
        run.calls_for(succeeded, action),
    ensures
        action is Push <==> run.phase == SyncPhase::Pulling && succeeded,
        action is Finish <==> run.phase == SyncPhase::Pushing && succeeded,
        action is Stop <==> run.phase != SyncPhase::Over && !succeeded,
        action is Reject <==> run.phase == SyncPhase::Over,
        action matches SyncAction::Push(p) ==> run.request.pushes_as(p),
        run.next_phase(succeeded) == SyncPhase::Pushing <==> run.phase == SyncPhase::Pulling && succeeded,
        run.next_phase(succeeded) != SyncPhase::Pulling,
{
}

} // verus!
