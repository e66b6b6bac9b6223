//! What can go wrong while a pipeline is set up or driven.

use vstd::prelude::*;

verus! {

/// The failures of a pipeline. The first four arise while the pipeline is
/// being built, the last two in a single call on a pipeline that exists.
#[derive(Debug, Clone, PartialEq, Eq)]
pub enum PipelineError {
    /// No compute accelerator could be found.
    AcceleratorUnavailable,
    /// An accelerator was found but gave no logical device.
    DeviceAcquisitionFailed,
    /// The kernel template could not be turned into kernel source. Holds the
    /// reason.
    KernelTemplateError(String),
    /// The kernel source did not compile. Holds the compiler's words as they
    /// came.
    KernelCompileError(String),
    /// A region of device memory could not be mapped, or was not mapped as
    /// asked.
    MemoryMapFailed,
    /// More bodies were written than the pipeline was built for.
    CapacityExceeded,
}

/// How a caller may react to a failure.
#[derive(Debug, Clone, Copy, PartialEq, Eq, Structural)]
pub enum Severity {
    /// The pipeline could not be built; there is nothing to go on with.
    Fatal,
    /// The call failed for a reason that may pass; it can be tried again.
    Retryable,
    /// The call was refused because of its arguments; the pipeline is as it
    /// was.
    Rejected,
}

impl PipelineError {
    /// How a caller may react to this failure.
    pub open spec fn spec_severity(&self) -> Severity {
        match self {
            PipelineError::AcceleratorUnavailable => Severity::Fatal,
            PipelineError::DeviceAcquisitionFailed => Severity::Fatal,
            PipelineError::KernelTemplateError(_) => Severity::Fatal,
            PipelineError::KernelCompileError(_) => Severity::Fatal,
            PipelineError::MemoryMapFailed => Severity::Retryable,
            PipelineError::CapacityExceeded => Severity::Rejected,
        }
    }

    /// How a caller may react to this failure.
    #[verifier::when_used_as_spec(spec_severity)]
    pub fn severity(&self) -> (r: Severity)
        ensures
            r == self.spec_severity(),
    {
        match self {
            PipelineError::AcceleratorUnavailable => Severity::Fatal,
            PipelineError::DeviceAcquisitionFailed => Severity::Fatal,
            PipelineError::KernelTemplateError(_) => Severity::Fatal,
            PipelineError::KernelCompileError(_) => Severity::Fatal,
            PipelineError::MemoryMapFailed => Severity::Retryable,
            PipelineError::CapacityExceeded => Severity::Rejected,
        }
    }
}

} // verus!
