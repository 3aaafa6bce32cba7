//! Pausing the VM for a checkpoint, and resuming it.
//!
//! The agent is disconnected before the VM is paused and connected again
//! afterwards, also when pausing fails.

use vstd::prelude::*;

use crate::checkpoint::VirtCheckpointRestore;
use crate::text::{concat2, opt_text, texts};

verus! {

/// How long the guest gets to see that the agent was disconnected, in
/// milliseconds.
pub const DISCONNECT_WAIT_MS: u64 = 250;

/// What the caller is doing to pause the VM.
#[derive(Debug, PartialEq, Eq)]
pub enum PauseState<S> {
    /// Nothing yet.
    Start,
    Disconnecting,
    Sleeping,
    Pausing,
    /// Connecting the agent again, after pausing failed.
    Reconnecting { failure: S },
    /// Nothing more.
    Ended,
}

/// What the caller is to do to pause the VM.
#[derive(Debug, PartialEq, Eq)]
pub enum PauseAction<S> {
    DisconnectAgent,
    Sleep { ms: u64 },
    PauseVm,
    ReconnectAgent,
    /// The VM is paused.
    Succeed,
    /// The VM is not paused.
    Fail(PauseError<S>),
    /// Nothing is left to do.
    Nothing,
}

/// Why the VM is not paused.
#[derive(Debug, PartialEq, Eq)]
pub enum PauseError<S> {
    /// The agent could not be disconnected.
    Disconnect { failure: S },
    /// The VM could not be paused.
    Pause { failure: S },
    /// The VM could not be paused, and the agent not be connected again.
    PauseAndReconnect { failure: S, reconnect: S },
}

impl View for PauseState<String> {
    type V = PauseState<Seq<char>>;

    open spec fn view(&self) -> PauseState<Seq<char>> {
        match self {
            PauseState::Start => PauseState::Start,
            PauseState::Disconnecting => PauseState::Disconnecting,
            PauseState::Sleeping => PauseState::Sleeping,
            PauseState::Pausing => PauseState::Pausing,
            PauseState::Reconnecting { failure } => PauseState::Reconnecting { failure: failure@ },
            PauseState::Ended => PauseState::Ended,
        }
    }
}

impl View for PauseError<String> {
    type V = PauseError<Seq<char>>;

    open spec fn view(&self) -> PauseError<Seq<char>> {
        match self {
            PauseError::Disconnect { failure } => PauseError::Disconnect { failure: failure@ },
            PauseError::Pause { failure } => PauseError::Pause { failure: failure@ },
            PauseError::PauseAndReconnect { failure, reconnect } => {
                PauseError::PauseAndReconnect { failure: failure@, reconnect: reconnect@ }
            },
        }
    }
}

impl View for PauseAction<String> {
    type V = PauseAction<Seq<char>>;

    open spec fn view(&self) -> PauseAction<Seq<char>> {
        match self {
            PauseAction::DisconnectAgent => PauseAction::DisconnectAgent,
            PauseAction::Sleep { ms } => PauseAction::Sleep { ms: *ms },
            PauseAction::PauseVm => PauseAction::PauseVm,
            PauseAction::ReconnectAgent => PauseAction::ReconnectAgent,
            PauseAction::Succeed => PauseAction::Succeed,
            PauseAction::Fail(e) => PauseAction::Fail(e@),
            PauseAction::Nothing => PauseAction::Nothing,
        }
    }
}

/// What the outcome of an action leads to; `failure` says why it failed, if it
/// did.
pub open spec fn pause_step(state: PauseState<Seq<char>>, failure: Option<Seq<char>>) -> (
    PauseState<Seq<char>>,
    PauseAction<Seq<char>>,
) {
    match (state, failure) {
        (PauseState::Start, _) => (PauseState::Disconnecting, PauseAction::DisconnectAgent),
        (PauseState::Disconnecting, None) => (
            PauseState::Sleeping,
            PauseAction::Sleep { ms: DISCONNECT_WAIT_MS },
        ),
        (PauseState::Disconnecting, Some(why)) => (
            PauseState::Ended,
            PauseAction::Fail(PauseError::Disconnect { failure: why }),
        ),
        (PauseState::Sleeping, _) => (PauseState::Pausing, PauseAction::PauseVm),
        (PauseState::Pausing, None) => (PauseState::Ended, PauseAction::Succeed),
        (PauseState::Pausing, Some(why)) => (
            PauseState::Reconnecting { failure: why },
            PauseAction::ReconnectAgent,
        ),
        (PauseState::Reconnecting { failure }, None) => (
            PauseState::Ended,
            PauseAction::Fail(PauseError::Pause { failure }),
        ),
        (PauseState::Reconnecting { failure }, Some(why)) => (
            PauseState::Ended,
            PauseAction::Fail(PauseError::PauseAndReconnect { failure, reconnect: why }),
        ),
        (PauseState::Ended, _) => (PauseState::Ended, PauseAction::Nothing),
    }
}

impl<S, M> VirtCheckpointRestore<S, M> {
    /// Says what follows an action of pausing the VM.
    pub fn pause_checkpoint_tasks(
        &self,
        state: PauseState<String>,
        failure: Option<String>,
    ) -> (r: (PauseState<String>, PauseAction<String>))
        ensures
            (r.0@, r.1@) == pause_step(state@, opt_text(failure)),
    {
        match (state, failure) {
            (PauseState::Start, _) => (PauseState::Disconnecting, PauseAction::DisconnectAgent),
            (PauseState::Disconnecting, None) => (
                PauseState::Sleeping,
                PauseAction::Sleep { ms: DISCONNECT_WAIT_MS },
            ),
            (PauseState::Disconnecting, Some(why)) => (
                PauseState::Ended,
                PauseAction::Fail(PauseError::Disconnect { failure: why }),
            ),
            (PauseState::Sleeping, _) => (PauseState::Pausing, PauseAction::PauseVm),
            (PauseState::Pausing, None) => (PauseState::Ended, PauseAction::Succeed),
            (PauseState::Pausing, Some(why)) => (
                PauseState::Reconnecting { failure: why },
                PauseAction::ReconnectAgent,
            ),
            (PauseState::Reconnecting { failure }, None) => (
                PauseState::Ended,
                PauseAction::Fail(PauseError::Pause { failure }),
            ),
            (PauseState::Reconnecting { failure }, Some(why)) => (
                PauseState::Ended,
                PauseAction::Fail(PauseError::PauseAndReconnect { failure, reconnect: why }),
            ),
            (PauseState::Ended, _) => (PauseState::Ended, PauseAction::Nothing),
        }
    }
}

/// What an error is about, from the cause outwards.
pub open spec fn pause_error_chain(e: PauseError<Seq<char>>) -> Seq<Seq<char>> {
    match e {
        PauseError::Disconnect { failure } => seq![
            failure,
            "disconnect agent before checkpoint"@,
        ],
        PauseError::Pause { failure } => seq![failure, "pause VM"@],
        PauseError::PauseAndReconnect { failure, reconnect } => seq![
            failure,
            "pause VM"@,
            "failed to reconnect agent after pause error: "@ + reconnect,
        ],
    }
}

impl PauseError<String> {
    /// What the error is about, from the cause outwards.
    pub fn chain(self) -> (r: Vec<String>)
        ensures
            texts(r@) == pause_error_chain(self@),
    {
        let ghost e = self@;
        let mut r: Vec<String> = Vec::new();
        match self {
            PauseError::Disconnect { failure } => {
                r.push(failure);
                r.push("disconnect agent before checkpoint".to_owned());
            },
            PauseError::Pause { failure } => {
                r.push(failure);
                r.push("pause VM".to_owned());
            },
            PauseError::PauseAndReconnect { failure, reconnect } => {
                r.push(failure);
                r.push("pause VM".to_owned());
                r.push(
                    concat2(
                        "failed to reconnect agent after pause error: ",
                        reconnect.as_str(),
                    ),
                );
            },
        }
        assert(texts(r@) =~= pause_error_chain(e));
        r
    }
}

/// A VM that cannot be paused is reported with its own cause, whatever becomes
/// of connecting the agent again, which is always tried.
pub proof fn law_pause_failure_is_reported(failure: Seq<char>, reconnect: Option<Seq<char>>)
    ensures
        ({
            let (state, action) = pause_step(PauseState::Pausing, Some(failure));
            let (end, last) = pause_step(state, reconnect);
            &&& action is ReconnectAgent
            &&& end is Ended
            &&& last matches PauseAction::Fail(e) && pause_error_chain(e)[0] == failure
                && pause_error_chain(e)[1] == "pause VM"@
        }),
{
}

/// How many steps pausing can still take.
pub open spec fn pause_steps_left(state: PauseState<Seq<char>>) -> nat {
    match state {
        PauseState::Start => 5,
        PauseState::Disconnecting => 4,
        PauseState::Sleeping => 3,
        PauseState::Pausing => 2,
        PauseState::Reconnecting { .. } => 1,
        PauseState::Ended => 0,
    }
}

/// Pausing ends, and then it is known whether the VM is paused.
pub proof fn law_pausing_ends(state: PauseState<Seq<char>>, failure: Option<Seq<char>>)
    requires
        !(state is Ended),
    ensures
        pause_steps_left(pause_step(state, failure).0) < pause_steps_left(state),
        pause_step(state, failure).0 is Ended <==> pause_step(state, failure).1 is Succeed
            || pause_step(state, failure).1 is Fail,
        pause_step(state, failure).1 is Succeed <==> state is Pausing && failure is None,
{
}

/// The agent is disconnected, and has been for a while, when the VM is paused.
pub proof fn law_agent_is_disconnected_first(
    state: PauseState<Seq<char>>,
    failure: Option<Seq<char>>,
)
    ensures
        pause_step(state, failure).1 is PauseVm <==> state is Sleeping,
        pause_step(state, failure).0 is Sleeping <==> state is Disconnecting && failure is None,
        pause_step(state, failure).0 is Disconnecting <==> state is Start,
{
}

/// What the caller is doing to resume the VM.
#[derive(Debug, Clone, Copy, PartialEq, Eq, Structural)]
pub enum ResumeState {
    Start,
    Resuming,
    Reconnecting,
    Ended,
}

/// What the caller is to do to resume the VM.
#[derive(Debug, Clone, Copy, PartialEq, Eq, Structural)]
pub enum ResumeAction {
    ResumeVm,
    ReconnectAgent,
    Succeed,
    /// Report the failure under the context `resume VM`.
    FailResume,
    /// Report the failure as it is.
    FailReconnect,
    /// Nothing is left to do.
    Nothing,
}

/// What the outcome of an action leads to.
pub open spec fn resume_step(state: ResumeState, succeeded: bool) -> (ResumeState, ResumeAction) {
    match state {
        ResumeState::Start => (ResumeState::Resuming, ResumeAction::ResumeVm),
        ResumeState::Resuming => if succeeded {
            (ResumeState::Reconnecting, ResumeAction::ReconnectAgent)
        } else {
            (ResumeState::Ended, ResumeAction::FailResume)
        },
        ResumeState::Reconnecting => if succeeded {
            (ResumeState::Ended, ResumeAction::Succeed)
        } else {
            (ResumeState::Ended, ResumeAction::FailReconnect)
        },
        ResumeState::Ended => (ResumeState::Ended, ResumeAction::Nothing),
    }
}

impl<S, M> VirtCheckpointRestore<S, M> {
    /// Says what follows an action of resuming the VM.
    pub fn resume_checkpoint_tasks(&self, state: ResumeState, succeeded: bool) -> (r: (
        ResumeState,
        ResumeAction,
    ))
        ensures
            r == resume_step(state, succeeded),
    {
        match state {
            ResumeState::Start => (ResumeState::Resuming, ResumeAction::ResumeVm),
            ResumeState::Resuming => if succeeded {
                (ResumeState::Reconnecting, ResumeAction::ReconnectAgent)
            } else {
                (ResumeState::Ended, ResumeAction::FailResume)
            },
            ResumeState::Reconnecting => if succeeded {
                (ResumeState::Ended, ResumeAction::Succeed)
            } else {
                (ResumeState::Ended, ResumeAction::FailReconnect)
            },
            ResumeState::Ended => (ResumeState::Ended, ResumeAction::Nothing),
        }
    }
}

/// What is to be done to connect the agent again.
#[derive(Debug, PartialEq, Eq)]
pub enum ReconnectStep {
    /// Start the agent at an address, under a context.
    StartAgent { address: String, context: String },
    /// Give up, under a context.
    Fail { failure: String, context: String },
}

impl<S, M> VirtCheckpointRestore<S, M> {
    /// Connects the agent again, at the socket that the hypervisor names.
    pub fn reconnect_agent(&self, socket: Result<String, String>) -> (r: ReconnectStep)
        ensures
            match (r, socket) {
                (ReconnectStep::StartAgent { address, context }, Ok(s)) => address == s && context@
                    == "reconnect agent after checkpoint"@,
                (ReconnectStep::Fail { failure, context }, Err(e)) => failure == e && context@
                    == "get agent socket after checkpoint"@,
                _ => false,
            },
    {
        match socket {
            Ok(address) => ReconnectStep::StartAgent {
                address,
                context: "reconnect agent after checkpoint".to_owned(),
            },
            Err(failure) => ReconnectStep::Fail {
                failure,
                context: "get agent socket after checkpoint".to_owned(),
            },
        }
    }
}

} // verus!
