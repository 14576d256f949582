use vstd::prelude::*;

verus! {

/// Why a transform produced no output.
#[derive(Clone, Copy, Debug, PartialEq, Eq, Structural)]
pub enum PipelineError {
    /// No compute-capable device could be acquired.
    DeviceUnavailable,
    /// A device resource could not be created (out of memory, or a
    /// descriptor the device cannot take).
    ResourceCreationFailed,
    /// The padded readback buffer is shorter than its rows require.
    TruncatedReadback,
    /// The domain has a zero width or height.
    UnsupportedDomain,
}

} // verus!
