use vstd::prelude::*;

verus! {

/// One failure kind per pipeline stage that can fail; every stage propagates
/// its error immediately, so a run aborts at the first failing stage.
#[derive(Clone, Copy, Debug, PartialEq, Eq, Structural)]
pub enum PipelineError {
    /// The proof engine rejected the statement (for instance, the claimed
    /// member is not in the set) or its configuration.
    ProofGeneration,
    /// The recursive wrapping circuit could not absorb the input proof.
    Wrapping,
    /// Compressed bytes were corrupted or truncated, or the bundle's
    /// metadata did not match, during compression or decompression.
    Serialization,
    /// The packaging input exceeds the transport's maximum aggregate capacity.
    Oversize,
    /// The network rejected the transaction outright.
    Broadcast,
    /// The confirmation poll budget ran out before a receipt arrived.
    ConfirmationTimeout,
    /// A receipt field disagrees with the submitter's expectations.
    VerificationMismatch,
}

impl PipelineError {
    /// The stable name of each failure kind.
    pub open spec fn spec_name(self) -> Seq<char> {
        match self {
            PipelineError::ProofGeneration => "ProofGenerationError"@,
            PipelineError::Wrapping => "WrappingError"@,
            PipelineError::Serialization => "SerializationError"@,
            PipelineError::Oversize => "OversizeError"@,
            PipelineError::Broadcast => "BroadcastError"@,
            PipelineError::ConfirmationTimeout => "ConfirmationTimeout"@,
            PipelineError::VerificationMismatch => "VerificationMismatch"@,
        }
    }

    /// A short stable name for each failure kind, for reporting outside the
    /// library.
    pub fn name(&self) -> (r: &'static str)
        ensures
            r@ == self.spec_name(),
    {
        match self {
            PipelineError::ProofGeneration => "ProofGenerationError",
            PipelineError::Wrapping => "WrappingError",
            PipelineError::Serialization => "SerializationError",
            PipelineError::Oversize => "OversizeError",
            PipelineError::Broadcast => "BroadcastError",
            PipelineError::ConfirmationTimeout => "ConfirmationTimeout",
            PipelineError::VerificationMismatch => "VerificationMismatch",
        }
    }
}

} // verus!
