//! What can go wrong on the device, as the caller sees it.

use vstd::prelude::*;

verus! {

/// The ways in which construction or an inference fails.
#[derive(Clone, Copy, Debug, PartialEq, Eq, Structural)]
pub enum PipelineError {
    /// Driver, device, context, module or queue setup failed, or one of the
    /// two weight uploads did.
    DeviceInitError,
    /// A copy between host and device, or the allocation behind it, failed.
    TransferError,
    /// A kernel could not be configured or dispatched.
    KernelLaunchError,
    /// Waiting for the queue to drain failed.
    SyncError,
}

} // verus!
