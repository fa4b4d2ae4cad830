use vstd::prelude::*;

use crate::error::PipelineError;

verus! {

/// A recursive proof bundle in its serialized form: the wrapper circuit's
/// verifier metadata, its circuit metadata, and the proof with public
/// inputs, each as the proving backend's canonical byte encoding. The
/// compression codec consumes the bundle; it is the only stage that looks
/// inside these bytes, and it does so through the proving backend, so the
/// bytes are opaque to this library.
#[derive(Debug, PartialEq, Eq)]
pub struct Bundle {
    /// The verifier-only circuit data of the wrapper circuit.
    pub verifier_bytes: Vec<u8>,
    /// The common circuit data the wrapper circuit was built with.
    pub common_bytes: Vec<u8>,
    /// The wrapped proof together with its public inputs.
    pub proof_bytes: Vec<u8>,
}

impl Bundle {
    /// Assembles a bundle from the three byte encodings the recursive
    /// wrapping engine hands back.
    pub fn assemble(verifier_bytes: Vec<u8>, common_bytes: Vec<u8>, proof_bytes: Vec<u8>) -> (r:
        Bundle)
        ensures
            r.verifier_bytes == verifier_bytes,
            r.common_bytes == common_bytes,
            r.proof_bytes == proof_bytes,
    {
        Bundle { verifier_bytes, common_bytes, proof_bytes }
    }
}

/// Accepts the recursive wrapping engine's outcome: the bundle's three byte
/// encodings when the engine absorbed the input proof, or nothing when it
/// could not. Failure halts the pipeline with `Wrapping`; nothing past this
/// stage is attempted.
pub fn accept_wrap_outcome(outcome: Option<(Vec<u8>, Vec<u8>, Vec<u8>)>) -> (r: Result<
    Bundle,
    PipelineError,
>)
    ensures
        outcome is Some <==> r is Ok,
        r is Ok ==> (r->Ok_0.verifier_bytes, r->Ok_0.common_bytes, r->Ok_0.proof_bytes)
            == outcome->0,
        r is Err ==> r->Err_0 == PipelineError::Wrapping,
{
    match outcome {
        Some((verifier_bytes, common_bytes, proof_bytes)) => Ok(
            Bundle { verifier_bytes, common_bytes, proof_bytes },
        ),
        None => Err(PipelineError::Wrapping),
    }
}

/// Accepts the compression codec's outcome: the flat compressed byte buffer
/// when the codec accepted the bundle, or nothing when the bundle's bytes
/// did not parse or its circuit metadata did not match its verifier
/// metadata. Failure halts the pipeline with `Serialization`.
pub fn accept_compression_outcome(outcome: Option<Vec<u8>>) -> (r: Result<Vec<u8>, PipelineError>)
    ensures
        outcome is Some <==> r is Ok,
        r is Ok ==> r->Ok_0 == outcome->0,
        r is Err ==> r->Err_0 == PipelineError::Serialization,
{
    match outcome {
        Some(bytes) => Ok(bytes),
        None => Err(PipelineError::Serialization),
    }
}

/// The byte-count check on the durable artifact: a write or read of the
/// compressed buffer counts its bytes, and only a count that matches the
/// buffer's length may be treated as a complete artifact; anything else is
/// a truncated transfer and halts the pipeline with `Serialization`.
pub fn check_artifact_count(bytes: &Vec<u8>, transferred: usize) -> (r: Result<(), PipelineError>)
    ensures
        r is Ok <==> transferred == bytes@.len(),
        r is Err ==> r->Err_0 == PipelineError::Serialization,
{
    if transferred == bytes.len() {
        Ok(())
    } else {
        Err(PipelineError::Serialization)
    }
}

} // verus!
