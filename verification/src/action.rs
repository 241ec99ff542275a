//! The device commands that the host carries out, and the two fixed
//! sequences of them: building a session and running one inference.

use vstd::prelude::*;
use crate::error::PipelineError;
use crate::kernel::Kernel;
use crate::resource::Resource;

verus! {

/// One thing for the host to do on the device.
#[derive(Clone, Copy, Debug, PartialEq, Eq, Structural)]
pub enum Action {
    /// Initialise the driver.
    InitDriver,
    /// Select the device of ordinal `DEVICE_ORDINAL`.
    SelectDevice,
    /// Create the device context and bind it to the calling thread.
    CreateContext,
    /// Load the kernel module from the embedded program.
    LoadModule,
    /// Create the non-blocking command queue.
    CreateStream,
    /// Allocate the buffer and copy the host value into it.
    Upload(Resource),
    /// Allocate the buffer and fill it with zeros.
    AllocZeroed(Resource),
    /// Put the kernel on the queue.
    Launch(Kernel),
    /// Block until the queue has drained.
    Synchronize,
    /// Copy the buffer back to the host.
    Download(Resource),
    /// Give the resource back to the device.
    Release(Resource),
    /// Nothing is due.
    Idle,
}

impl Action {
    /// The resource that the action brings into being, if it succeeds.
    pub open spec fn spec_acquires(self) -> Option<Resource> {
        match self {
            Action::CreateContext => Some(Resource::Context),
            Action::LoadModule => Some(Resource::Module),
            Action::CreateStream => Some(Resource::Stream),
            Action::Upload(r) => Some(r),
            Action::AllocZeroed(r) => Some(r),
            _ => None,
        }
    }

    /// The error that the caller sees when the action fails. Setting up
    /// the device and uploading the weights are part of construction; a
    /// release reports nothing, and neither does idling.
    pub open spec fn spec_failure(self) -> Option<PipelineError> {
        match self {
            Action::InitDriver
            | Action::SelectDevice
            | Action::CreateContext
            | Action::LoadModule
            | Action::CreateStream => Some(PipelineError::DeviceInitError),
            Action::Upload(r) | Action::AllocZeroed(r) => if r.is_transient() {
                Some(PipelineError::TransferError)
            } else {
                Some(PipelineError::DeviceInitError)
            },
            Action::Download(_) => Some(PipelineError::TransferError),
            Action::Launch(_) => Some(PipelineError::KernelLaunchError),
            Action::Synchronize => Some(PipelineError::SyncError),
            Action::Release(_) | Action::Idle => None,
        }
    }

    /// The resource that the action brings into being, if it succeeds.
    pub fn acquires(self) -> (r: Option<Resource>)
        ensures
            r == self.spec_acquires(),
    {
        match self {
            Action::CreateContext => Some(Resource::Context),
            Action::LoadModule => Some(Resource::Module),
            Action::CreateStream => Some(Resource::Stream),
            Action::Upload(r) => Some(r),
            Action::AllocZeroed(r) => Some(r),
            _ => None,
        }
    }

    /// The error that the caller sees when the action fails.
    pub fn failure(self) -> (e: Option<PipelineError>)
        ensures
            e == self.spec_failure(),
    {
        match self {
            Action::InitDriver
            | Action::SelectDevice
            | Action::CreateContext
            | Action::LoadModule
            | Action::CreateStream => Some(PipelineError::DeviceInitError),
            Action::Upload(r) | Action::AllocZeroed(r) => match r {
                Resource::Input | Resource::Intermediate | Resource::Output => Some(
                    PipelineError::TransferError,
                ),
                _ => Some(PipelineError::DeviceInitError),
            },
            Action::Download(_) => Some(PipelineError::TransferError),
            Action::Launch(_) => Some(PipelineError::KernelLaunchError),
            Action::Synchronize => Some(PipelineError::SyncError),
            Action::Release(_) | Action::Idle => None,
        }
    }

    /// The resources held once the action has succeeded.
    pub open spec fn held_after(self, held: Set<Resource>) -> Set<Resource> {
        match self {
            Action::Release(r) => held.remove(r),
            _ => match self.spec_acquires() {
                Some(r) => held.insert(r),
                None => held,
            },
        }
    }

    /// The number of kernels on the queue once the action has succeeded.
    pub open spec fn queued_after(self, queued: nat) -> nat {
        match self {
            Action::Launch(_) => queued + 1,
            Action::Synchronize => 0,
            _ => queued,
        }
    }
}

/// What building a session does, in order.
pub open spec fn setup_script() -> Seq<Action> {
    seq![
        Action::InitDriver,
        Action::SelectDevice,
        Action::CreateContext,
        Action::LoadModule,
        Action::CreateStream,
        Action::Upload(Resource::ConvWeights),
        Action::Upload(Resource::OutputWeights),
    ]
}

/// What one inference does, in order, before it gives its buffers back.
pub open spec fn inference_script() -> Seq<Action> {
    seq![
        Action::Upload(Resource::Input),
        Action::AllocZeroed(Resource::Intermediate),
        Action::Launch(Kernel::Convolution),
        Action::Synchronize,
        Action::Launch(Kernel::Activation),
        Action::Synchronize,
        Action::AllocZeroed(Resource::Output),
        Action::Launch(Kernel::Output),
        Action::Synchronize,
        Action::Download(Resource::Output),
    ]
}

/// The resources that the first `n` actions of `script` acquire.
pub open spec fn acquired(script: Seq<Action>, n: nat) -> Set<Resource>
    decreases n,
{
    if n == 0 {
        Set::empty()
    } else {
        script[n - 1].held_after(acquired(script, (n - 1) as nat))
    }
}

/// The number of kernels on the queue after the first `n` actions of
/// `script`, when the queue was empty before them.
pub open spec fn queued(script: Seq<Action>, n: nat) -> nat
    decreases n,
{
    if n == 0 {
        0
    } else {
        script[n - 1].queued_after(queued(script, (n - 1) as nat))
    }
}

} // verus!
