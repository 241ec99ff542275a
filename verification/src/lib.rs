//! Host-side control of a fixed three-stage inference pipeline on an
//! accelerator: convolution, activation, fully connected output.
//!
//! The library decides and never touches a device. It says which device
//! command is due next, what a failure of it means for the caller, and in
//! which order device-resident resources are given back; the host carries
//! the commands out.
//!
//! [`CudaContext`] is the built session. Its three operations, `init`,
//! `compute` and `close`, each run to their end: they hand one [`Action`]
//! after the other to a function of the host and go by what it answers.
//! [`Control`] is the same session one step at a time, for a host that
//! wants to run the loop itself.
//!
//! The modules `protocol`, `construction`, `inference`, `teardown` and
//! `device` hold what is proved of every session.

pub mod action;
pub mod construction;
pub mod control;
pub mod cuda;
pub mod device;
pub mod error;
pub mod geometry;
pub mod inference;
pub mod kernel;
pub mod model;
pub mod protocol;
pub mod resource;
pub mod runs;
pub mod teardown;

pub use action::Action;
pub use control::Control;
pub use cuda::CudaContext;
pub use error::PipelineError;
pub use geometry::{
    Dim3, LaunchConfig, CONV_LAYER_SIZE, CONV_OUT_DIM, DEVICE_ORDINAL, OUT_LAYER_SIZE,
};
pub use kernel::Kernel;
pub use model::{Phase, SessionState};
pub use resource::{Held, Resource};
