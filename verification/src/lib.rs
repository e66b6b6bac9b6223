//! Host-side orchestration of a double-buffered particle simulation that runs
//! on a compute accelerator.
//!
//! The crate decides; it never touches a device. Each operation of
//! [`Pipeline`] updates the host's bookkeeping and hands back a plain
//! description of what has to happen on the device: the bytes to upload, the
//! region to map, the batch of dispatches to submit. A thin driver performs
//! those commands and reports back.
//!
//! - [`structures`]: the records shared with the kernel.
//! - [`wire`]: their byte layout in device memory.
//! - [`kernel`]: how the kernel learns its capacity and finds its buffers.
//! - [`pipeline`]: the ping-pong state and the operations on it.
//! - [`error`]: what can go wrong.
//! - [`device`]: a model of device memory under the commands of a pipeline.
//! - [`laws`]: what holds across several operations.

pub mod device;
pub mod error;
pub mod kernel;
pub mod laws;
pub mod pipeline;
pub mod structures;
pub mod wire;

pub use error::{PipelineError, Severity};
pub use pipeline::{
    BufferSlice, BufferWrite, Completion, DeviceSetup, Dispatch, Pipeline, PipelineState,
    SourceBuffer, Submission, Wait,
};
pub use structures::{Body, DynamicConfig, StaticConfig, DEFAULT_DT};
