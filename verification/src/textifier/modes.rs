use vstd::prelude::*;

use crate::args::ProcessingModes;

verus! {

/// Which backend renders the next frame.
#[derive(Clone, Copy, Debug, PartialEq, Eq, Structural)]
pub enum Backend {
    /// No mode is settled yet: try the GPU, fall back to the CPU.
    TryGpu,
    Gpu,
    Cpu,
}

/// The backend for a frame under the current processing mode.
pub fn backend_for(mode: Option<ProcessingModes>) -> (b: Backend)
    ensures
        b == match mode {
            None => Backend::TryGpu,
            Some(ProcessingModes::Gpu) => Backend::Gpu,
            Some(ProcessingModes::CpuSimple) => Backend::Cpu,
        },
{
    match mode {
        None => Backend::TryGpu,
        Some(ProcessingModes::Gpu) => Backend::Gpu,
        Some(ProcessingModes::CpuSimple) => Backend::Cpu,
    }
}

/// What to do with the GPU's answer for a frame.
#[derive(Clone, Copy, Debug, PartialEq, Eq, Structural)]
pub enum GpuVerdict {
    /// Render the GPU's data.
    Use,
    /// Render this frame on the CPU instead.
    FallBack,
    /// Report the GPU's error.
    Fail,
}

/// The mode after a GPU attempt, and what to do with its answer. An open mode
/// settles on the GPU when it worked and on the CPU when it failed; a settled
/// mode stays as it is.
pub open spec fn after_gpu_spec(mode: Option<ProcessingModes>, gpu_ok: bool) -> (Option<ProcessingModes>, GpuVerdict) {
    match mode {
        None => if gpu_ok {
            (Some(ProcessingModes::Gpu), GpuVerdict::Use)
        } else {
            (Some(ProcessingModes::CpuSimple), GpuVerdict::FallBack)
        },
        Some(m) => (Some(m), if gpu_ok {
            GpuVerdict::Use
        } else {
            GpuVerdict::Fail
        }),
    }
}

/// Decides the mode and the next step after the GPU answered for a frame.
pub fn after_gpu(mode: Option<ProcessingModes>, gpu_ok: bool) -> (r: (Option<ProcessingModes>, GpuVerdict))
    requires
        mode != Some(ProcessingModes::CpuSimple),
    ensures
        r == after_gpu_spec(mode, gpu_ok),
{
    match mode {
        None => if gpu_ok {
            (Some(ProcessingModes::Gpu), GpuVerdict::Use)
        } else {
            (Some(ProcessingModes::CpuSimple), GpuVerdict::FallBack)
        },
        Some(m) => (Some(m), if gpu_ok {
            GpuVerdict::Use
        } else {
            GpuVerdict::Fail
        }),
    }
}

/// A settled processing mode never changes, and an open one is settled by
/// the first frame, whatever the GPU answered.
pub proof fn lemma_mode_settles(mode: Option<ProcessingModes>, gpu_ok: bool)
    ensures
        after_gpu_spec(mode, gpu_ok).0 is Some,
        mode is Some ==> after_gpu_spec(mode, gpu_ok).0 == mode,
        mode is None ==> (after_gpu_spec(mode, gpu_ok).1 == GpuVerdict::FallBack <==> after_gpu_spec(mode, gpu_ok).0 == Some(ProcessingModes::CpuSimple)),
{
}

} // verus!
