use vstd::prelude::*;

use crate::error::PipelineError;
use crate::orchestrator::{Orchestrator, Stage};
use crate::sidecar::{chunk_count, package, CHUNK_CAPACITY, MAX_CHUNKS};

verus! {

/// The publish half of the pipeline: packages a compressed proof buffer
/// (fresh from the codec, or read back from the durable artifact) into a
/// sidecar and constructs the transaction intent around it, ready for
/// signing. Oversize input is rejected whole with `Oversize` and no intent
/// is constructed.
pub fn prepare_submission(
    compressed: Vec<u8>,
    signer: Vec<u8>,
    recipient: Vec<u8>,
    poll_budget: u32,
) -> (r: Result<Orchestrator, PipelineError>)
    ensures
        r is Ok <==> compressed@.len() <= MAX_CHUNKS * CHUNK_CAPACITY,
        r is Err ==> r->Err_0 == PipelineError::Oversize,
        r is Ok ==> {
            let o = r->Ok_0;
            &&& o.wf()
            &&& o.stage == Stage::Built
            &&& o.signer == signer
            &&& o.recipient == recipient
            &&& o.polls_left == poll_budget
            &&& o.sidecar.wf()
            &&& o.sidecar.payload() == compressed@
            &&& o.sidecar.chunks@.len() == chunk_count(compressed@.len() as nat)
        },
{
    let sidecar = match package(&compressed) {
        Ok(s) => s,
        Err(e) => {
            return Err(e);
        },
    };
    Ok(Orchestrator::build(signer, recipient, sidecar, poll_budget))
}

} // verus!
