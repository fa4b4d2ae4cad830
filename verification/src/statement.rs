use vstd::prelude::*;

use crate::error::PipelineError;

verus! {

/// A logical statement to be proven: a claimed member value together with
/// the committed set it is claimed to belong to. Immutable once constructed.
#[derive(Debug, PartialEq, Eq)]
pub struct Statement {
    /// The elements of the committed set.
    pub set_elements: Vec<i64>,
    /// The value claimed to be a member of the set.
    pub member: i64,
}

impl Statement {
    /// The statement holds exactly when the claimed member occurs among the
    /// set's elements.
    pub open spec fn holds(self) -> bool {
        self.set_elements@.contains(self.member)
    }
}

/// A succinct proof attesting a statement, as handed back by the proof
/// engine: opaque bytes plus the statement they attest. Produced exactly once
/// per statement and consumed exactly once by the recursive wrapper.
#[derive(Debug, PartialEq, Eq)]
pub struct ProofObject {
    /// The statement the proof attests.
    pub statement: Statement,
    /// The engine's proof, opaque to this library.
    pub proof_bytes: Vec<u8>,
}

/// Builds the statement "`member` is in the set of `set_elements`",
/// performing the membership check the proof engine would enforce: a claimed
/// member that is not in the set can never be proven, so it is rejected here
/// with `ProofGeneration` before any engine work is attempted.
pub fn build_statement(set_elements: Vec<i64>, member: i64) -> (r: Result<
    Statement,
    PipelineError,
>)
    ensures
        set_elements@.contains(member) <==> r is Ok,
        r is Ok ==> r->Ok_0 == (Statement { set_elements, member }) && r->Ok_0.holds(),
        r is Err ==> r->Err_0 == PipelineError::ProofGeneration,
{
    let mut i: usize = 0;
    let mut found: bool = false;
    while i < set_elements.len()
        invariant
            i <= set_elements@.len(),
            found <==> exists|k: int| 0 <= k < i && set_elements@[k] == member,
        decreases set_elements@.len() - i,
    {
        if set_elements[i] == member {
            found = true;
        }
        i = i + 1;
    }
    if found {
        Ok(Statement { set_elements, member })
    } else {
        Err(PipelineError::ProofGeneration)
    }
}

/// Attaches the engine's proof bytes to the statement they attest, forming
/// the Proof Object that the recursive wrapper consumes.
pub fn attach_proof(statement: Statement, proof_bytes: Vec<u8>) -> (r: ProofObject)
    ensures
        r.statement == statement,
        r.proof_bytes == proof_bytes,
{
    ProofObject { statement, proof_bytes }
}

} // verus!
