//! The kernel lifecycle state machine.
//!
//! The kernel's state is one tagged-union value, replaced whole at every
//! transition so an observer never sees a half-finished state. While the
//! kernel runs, the value also carries its last-known execution state and
//! the metadata from its kernel-info reply.

use vstd::prelude::*;

use crate::messages::ExecutionState;

verus! {

/// Metadata the kernel reports about itself once it is running.
pub struct KernelInfo {
    /// Name of the language the kernel executes.
    pub language: String,
}

/// What the session knows about a live kernel.
pub struct RunningState {
    /// Last execution state the kernel reported.
    pub execution_state: ExecutionState,
    /// Metadata from the kernel-info reply, once received.
    pub kernel_info: Option<KernelInfo>,
}

/// The kernel's lifecycle state. Exactly one variant is active at a time;
/// transitions replace the whole value.
pub enum Kernel {
    /// Startup is in flight; the shared startup task has not resolved yet.
    StartingKernel,
    /// The kernel is live and reachable through its transport.
    RunningKernel(RunningState),
    /// Startup failed; terminal until a restart is requested.
    ErroredLaunch(String),
    /// A shutdown request was issued; a forced kill is pending.
    ShuttingDown,
    /// The kernel is gone; terminal until a restart or a new execution
    /// forces a fresh start.
    Shutdown,
    /// The previous transport is being torn down and the next one is not
    /// ready yet.
    Restarting,
}

/// A kernel state reduced to the label telemetry reports.
#[derive(Clone, Copy, PartialEq, Eq, Structural, Debug)]
pub enum KernelStatus {
    Idle,
    Busy,
    Starting,
    Error,
    ShuttingDown,
    Shutdown,
    Restarting,
}

impl Kernel {
    /// The status label of this state, a pure projection of the variant
    /// (and, while running, of the reported execution state).
    pub open spec fn spec_status(self) -> KernelStatus {
        match self {
            Kernel::StartingKernel => KernelStatus::Starting,
            Kernel::RunningKernel(running) => match running.execution_state {
                ExecutionState::Idle => KernelStatus::Idle,
                ExecutionState::Busy => KernelStatus::Busy,
            },
            Kernel::ErroredLaunch(_) => KernelStatus::Error,
            Kernel::ShuttingDown => KernelStatus::ShuttingDown,
            Kernel::Shutdown => KernelStatus::Shutdown,
            Kernel::Restarting => KernelStatus::Restarting,
        }
    }

    /// Report the status label of this state.
    pub fn status(&self) -> (s: KernelStatus)
        ensures
            s == self.spec_status(),
    {
        match self {
            Kernel::StartingKernel => KernelStatus::Starting,
            Kernel::RunningKernel(running) => match running.execution_state {
                ExecutionState::Idle => KernelStatus::Idle,
                ExecutionState::Busy => KernelStatus::Busy,
            },
            Kernel::ErroredLaunch(_) => KernelStatus::Error,
            Kernel::ShuttingDown => KernelStatus::ShuttingDown,
            Kernel::Shutdown => KernelStatus::Shutdown,
            Kernel::Restarting => KernelStatus::Restarting,
        }
    }

    /// The state a status report leaves the kernel in: only a running
    /// kernel's execution-state field changes; every other variant, the
    /// terminal `Shutdown` included, is left exactly as it was.
    pub open spec fn spec_with_execution_state(self, state: ExecutionState) -> Kernel {
        match self {
            Kernel::RunningKernel(running) => Kernel::RunningKernel(
                RunningState { execution_state: state, kernel_info: running.kernel_info },
            ),
            _ => self,
        }
    }

    /// Record the execution state the kernel reported. This never changes
    /// which lifecycle variant is active.
    pub fn set_execution_state(&mut self, state: ExecutionState)
        ensures
            *final(self) == old(self).spec_with_execution_state(state),
            final(self).spec_status() == old(self).spec_status()
                || (*final(self)) is RunningKernel,
    {
        match self {
            Kernel::RunningKernel(running) => {
                running.execution_state = state;
            },
            _ => {},
        }
    }

    /// The state a kernel-info reply leaves the kernel in: only a running
    /// kernel records the metadata; every other variant is unchanged.
    pub open spec fn spec_with_kernel_info(self, info: KernelInfo) -> Kernel {
        match self {
            Kernel::RunningKernel(running) => Kernel::RunningKernel(
                RunningState { execution_state: running.execution_state, kernel_info: Some(info) },
            ),
            _ => self,
        }
    }

    /// Record the metadata from a kernel-info reply.
    pub fn set_kernel_info(&mut self, info: KernelInfo)
        ensures
            *final(self) == old(self).spec_with_kernel_info(info),
    {
        match self {
            Kernel::RunningKernel(running) => {
                running.kernel_info = Some(info);
            },
            _ => {},
        }
    }

    /// Law: a status report never changes which lifecycle variant is
    /// active — it touches only a running kernel's execution-state field,
    /// and while the kernel is shut down it is a no-op.
    pub proof fn lemma_status_report_preserves_variant(self, state: ExecutionState)
        ensures
            self.spec_with_execution_state(state) is RunningKernel <==> self is RunningKernel,
            self is RunningKernel ==> self.spec_with_execution_state(state)
                == Kernel::RunningKernel(
                RunningState {
                    execution_state: state,
                    kernel_info: self->RunningKernel_0.kernel_info,
                },
            ),
            !(self is RunningKernel) ==> self.spec_with_execution_state(state) == self,
            self is Shutdown ==> self.spec_with_execution_state(state) == self,
    {
    }

    /// The user-visible status text of this state: the kernel's language
    /// once known while running, a fixed label for every transitional
    /// state, and the launch error behind an `Error: ` prefix.
    pub fn status_text(&self) -> (t: Option<String>)
        ensures
            *self is StartingKernel ==> {
                &&& t matches Some(s)
                &&& s@ == "Starting"@
            },
            self matches Kernel::RunningKernel(running) ==> {
                &&& running.kernel_info matches Some(info) ==> {
                    &&& t matches Some(s)
                    &&& s@ == info.language@
                }
                &&& running.kernel_info is None ==> t is None
            },
            self matches Kernel::ErroredLaunch(error) ==> {
                &&& t matches Some(s)
                &&& s@ == "Error: "@ + error@
            },
            *self is ShuttingDown ==> {
                &&& t matches Some(s)
                &&& s@ == "Shutting Down"@
            },
            *self is Shutdown ==> {
                &&& t matches Some(s)
                &&& s@ == "Shutdown"@
            },
            *self is Restarting ==> {
                &&& t matches Some(s)
                &&& s@ == "Restarting"@
            },
    {
        match self {
            Kernel::RunningKernel(running) => match &running.kernel_info {
                Some(info) => Some(info.language.clone()),
                None => None,
            },
            Kernel::StartingKernel => Some("Starting".to_owned()),
            Kernel::ErroredLaunch(error) => {
                let mut text = "Error: ".to_owned();
                text.append(error.as_str());
                Some(text)
            },
            Kernel::ShuttingDown => Some("Shutting Down".to_owned()),
            Kernel::Shutdown => Some("Shutdown".to_owned()),
            Kernel::Restarting => Some("Restarting".to_owned()),
        }
    }

    /// Whether a shutdown is currently in flight.
    pub fn is_shutting_down(&self) -> (r: bool)
        ensures
            r == (*self is ShuttingDown),
    {
        match self {
            Kernel::ShuttingDown => true,
            _ => false,
        }
    }
}

} // verus!
