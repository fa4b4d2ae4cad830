use vstd::prelude::*;

use crate::error::PipelineError;
use crate::sidecar::{Sidecar, DATA_GAS_PER_CHUNK, MAX_CHUNKS};

verus! {

/// The stages of a submission, in the order a successful run passes them.
#[derive(Clone, Copy, Debug, PartialEq, Eq, Structural)]
pub enum Stage {
    /// The transaction intent is constructed, unsigned.
    Built,
    /// The intent is signed with the holder's key.
    Signed,
    /// The signed transaction has been handed to the network.
    Broadcast,
    /// The network accepted the transaction; awaiting inclusion.
    Pending,
    /// A receipt with a block number arrived.
    Confirmed,
    /// Every post-confirmation check on the receipt passed.
    Verified,
    /// A post-confirmation check failed; terminal, never retried.
    Rejected,
}

/// How far along a successful run a stage lies. The two terminal stages
/// share the top rank; no step leaves either of them.
pub open spec fn rank(s: Stage) -> nat {
    match s {
        Stage::Built => 0,
        Stage::Signed => 1,
        Stage::Broadcast => 2,
        Stage::Pending => 3,
        Stage::Confirmed => 4,
        Stage::Verified => 5,
        Stage::Rejected => 5,
    }
}

/// The orchestrator's transition relation: strictly forward, with the one
/// self-loop on `Pending` for a poll that found no receipt yet.
pub open spec fn valid_step(a: Stage, b: Stage) -> bool {
    ||| (a == Stage::Built && b == Stage::Signed)
    ||| (a == Stage::Signed && b == Stage::Broadcast)
    ||| (a == Stage::Broadcast && b == Stage::Pending)
    ||| (a == Stage::Pending && b == Stage::Pending)
    ||| (a == Stage::Pending && b == Stage::Confirmed)
    ||| (a == Stage::Confirmed && b == Stage::Verified)
    ||| (a == Stage::Confirmed && b == Stage::Rejected)
}

/// The fields of a chain receipt that this library reads, as plain values:
/// a 20-byte sender, an optional 20-byte recipient, the block number if the
/// transaction was included, and the data-carrying gas if the transaction
/// carried a sidecar.
#[derive(Debug, PartialEq, Eq)]
pub struct ReceiptData {
    /// The sender the chain recorded.
    pub from: Vec<u8>,
    /// The recipient the chain recorded, if any.
    pub to: Option<Vec<u8>>,
    /// The block the transaction was included in; absence means not yet
    /// included.
    pub block_number: Option<u64>,
    /// The data-carrying gas consumed; absence means the transaction
    /// carried no sidecar.
    pub blob_gas_used: Option<u64>,
}

impl ReceiptData {
    /// The checks of the `Verified` stage: the recorded sender is the
    /// signer, the recorded recipient is the intended one, the transaction
    /// was included, and its data-carrying gas is the per-chunk constant
    /// once per attached chunk.
    pub open spec fn matches_expectation(self, signer: Seq<u8>, recipient: Seq<u8>, chunks: int) -> bool {
        &&& self.from@ == signer
        &&& self.to is Some && self.to->0@ == recipient
        &&& self.block_number is Some
        &&& self.blob_gas_used == Some((chunks * (DATA_GAS_PER_CHUNK as int)) as u64)
    }
}

/// The submission orchestrator: one transaction intent (signer, recipient,
/// attached sidecar) and the stage its submission has reached. Stages move
/// strictly forward along `valid_step`.
#[derive(Debug, PartialEq, Eq)]
pub struct Orchestrator {
    /// The stage the submission has reached.
    pub stage: Stage,
    /// The signer's 20-byte address; the transaction's sender.
    pub signer: Vec<u8>,
    /// The intended 20-byte recipient.
    pub recipient: Vec<u8>,
    /// The sidecar the transaction carries.
    pub sidecar: Sidecar,
    /// How many empty polls remain before confirmation times out.
    pub polls_left: u32,
    /// The receipt, once one with a block number arrived.
    pub receipt: Option<ReceiptData>,
}

impl Orchestrator {
    /// Invariant: a receipt is held from `Confirmed` on, and the attached
    /// sidecar never exceeds the transport's chunk limit.
    pub open spec fn wf(self) -> bool {
        &&& self.sidecar.chunks@.len() <= MAX_CHUNKS
        &&& (rank(self.stage) >= 4 ==> self.receipt is Some)
    }

    /// Constructs the transaction intent: recipient plus sidecar, unsigned,
    /// with a bound on how many empty confirmation polls are tolerated.
    pub fn build(signer: Vec<u8>, recipient: Vec<u8>, sidecar: Sidecar, poll_budget: u32) -> (r:
        Orchestrator)
        requires
            sidecar.chunks@.len() <= MAX_CHUNKS,
        ensures
            r.wf(),
            r.stage == Stage::Built,
            r.signer == signer,
            r.recipient == recipient,
            r.sidecar == sidecar,
            r.polls_left == poll_budget,
    {
        Orchestrator { stage: Stage::Built, signer, recipient, sidecar, polls_left: poll_budget, receipt: None }
    }

    /// Signs the intent. Only an unsigned intent can be signed.
    pub fn sign(&mut self)
        requires
            old(self).wf(),
            old(self).stage == Stage::Built,
        ensures
            final(self).wf(),
            final(self).stage == Stage::Signed,
            valid_step(old(self).stage, final(self).stage),
            unchanged_intent(*old(self), *final(self)),
    {
        self.stage = Stage::Signed;
    }

    /// Hands the signed transaction to the network. Only a signed intent
    /// can be broadcast.
    pub fn submit(&mut self)
        requires
            old(self).wf(),
            old(self).stage == Stage::Signed,
        ensures
            final(self).wf(),
            final(self).stage == Stage::Broadcast,
            valid_step(old(self).stage, final(self).stage),
            unchanged_intent(*old(self), *final(self)),
    {
        self.stage = Stage::Broadcast;
    }

    /// Records the network's answer to the broadcast. Acceptance moves the
    /// submission to `Pending`; outright rejection aborts the run with
    /// `Broadcast`, and the stage does not advance.
    pub fn record_broadcast(&mut self, accepted: bool) -> (r: Result<(), PipelineError>)
        requires
            old(self).wf(),
            old(self).stage == Stage::Broadcast,
        ensures
            final(self).wf(),
            unchanged_intent(*old(self), *final(self)),
            accepted <==> r is Ok,
            r is Ok ==> final(self).stage == Stage::Pending && valid_step(
                old(self).stage,
                final(self).stage,
            ),
            r is Err ==> r->Err_0 == PipelineError::Broadcast && final(self).stage
                == Stage::Broadcast,
    {
        if accepted {
            self.stage = Stage::Pending;
            Ok(())
        } else {
            Err(PipelineError::Broadcast)
        }
    }

    /// Feeds one poll outcome to the orchestrator: the receipt the chain
    /// returned, or `None` when none was available. A receipt with a block
    /// number confirms the submission; anything else consumes one unit of
    /// the poll budget, and an exhausted budget aborts the run with
    /// `ConfirmationTimeout`.
    pub fn poll(&mut self, answer: Option<ReceiptData>) -> (r: Result<bool, PipelineError>)
        requires
            old(self).wf(),
            old(self).stage == Stage::Pending,
        ensures
            final(self).wf(),
            unchanged_intent(*old(self), *final(self)),
            r is Ok ==> valid_step(old(self).stage, final(self).stage),
            r == Ok::<bool, PipelineError>(true) <==> answer is Some && answer->0.block_number
                is Some,
            r == Ok::<bool, PipelineError>(true) ==> final(self).stage == Stage::Confirmed
                && final(self).receipt == answer,
            r == Ok::<bool, PipelineError>(false) ==> final(self).stage == Stage::Pending
                && old(self).polls_left > 0 && final(self).polls_left == old(self).polls_left
                - 1,
            r is Err ==> r->Err_0 == PipelineError::ConfirmationTimeout && old(self).polls_left
                == 0 && final(self).stage == Stage::Pending,
            !(answer is Some && answer->0.block_number is Some) && old(self).polls_left > 0
                ==> r == Ok::<bool, PipelineError>(false),
            !(answer is Some && answer->0.block_number is Some) && old(self).polls_left == 0
                ==> r is Err,
    {
        match answer {
            Some(receipt) => {
                if receipt.block_number.is_some() {
                    self.receipt = Some(receipt);
                    self.stage = Stage::Confirmed;
                    return Ok(true);
                }
                if self.polls_left == 0 {
                    return Err(PipelineError::ConfirmationTimeout);
                }
                self.polls_left = self.polls_left - 1;
                Ok(false)
            },
            None => {
                if self.polls_left == 0 {
                    return Err(PipelineError::ConfirmationTimeout);
                }
                self.polls_left = self.polls_left - 1;
                Ok(false)
            },
        }
    }

    /// Runs the post-confirmation checks on the held receipt: recorded
    /// sender equals the signer, recorded recipient equals the intended
    /// one, and the data-carrying gas equals the per-chunk constant once
    /// per chunk of the attached sidecar. All checks passing moves the
    /// submission to `Verified`; any mismatch moves it to the terminal
    /// `Rejected` with `VerificationMismatch`.
    pub fn verify_receipt(&mut self) -> (r: Result<(), PipelineError>)
        requires
            old(self).wf(),
            old(self).stage == Stage::Confirmed,
        ensures
            final(self).wf(),
            unchanged_intent(*old(self), *final(self)),
            valid_step(old(self).stage, final(self).stage),
            r is Ok <==> old(self).receipt->0.matches_expectation(
                old(self).signer@,
                old(self).recipient@,
                old(self).sidecar.chunks@.len() as int,
            ),
            r is Ok ==> final(self).stage == Stage::Verified,
            r is Err ==> r->Err_0 == PipelineError::VerificationMismatch && final(self).stage
                == Stage::Rejected,
    {
        let ok = match &self.receipt {
            Some(receipt) => {
                let expected_gas = self.sidecar.expected_data_gas();
                let from_ok = bytes_eq(&receipt.from, &self.signer);
                let to_ok = match &receipt.to {
                    Some(to) => bytes_eq(to, &self.recipient),
                    None => false,
                };
                let gas_ok = match receipt.blob_gas_used {
                    Some(gas) => gas == expected_gas,
                    None => false,
                };
                from_ok && to_ok && receipt.block_number.is_some() && gas_ok
            },
            None => false,
        };
        if ok {
            self.stage = Stage::Verified;
            Ok(())
        } else {
            self.stage = Stage::Rejected;
            Err(PipelineError::VerificationMismatch)
        }
    }
}

/// The intent's fields — signer, recipient, sidecar — never change once the
/// orchestrator is built; only the stage, the poll budget and the held
/// receipt move.
pub open spec fn unchanged_intent(a: Orchestrator, b: Orchestrator) -> bool {
    &&& a.signer == b.signer
    &&& a.recipient == b.recipient
    &&& a.sidecar == b.sidecar
}

/// A trace of the orchestrator: a sequence of stages in which each
/// consecutive pair is one step of the transition relation.
pub open spec fn valid_trace(t: Seq<Stage>) -> bool {
    forall|i: int| 0 <= i < t.len() - 1 ==> valid_step(#[trigger] t[i], t[i + 1])
}

/// One step never lowers the rank, raises it by at most one, and any step
/// that changes the stage raises the rank strictly.
pub proof fn lemma_step_monotone(a: Stage, b: Stage)
    requires
        valid_step(a, b),
    ensures
        rank(a) <= rank(b) <= rank(a) + 1,
        a != b ==> rank(b) > rank(a),
{
}

/// Along a valid trace, the rank never falls.
pub proof fn lemma_trace_monotone(t: Seq<Stage>, i: int, j: int)
    requires
        valid_trace(t),
        0 <= i <= j < t.len(),
    ensures
        rank(t[i]) <= rank(t[j]),
    decreases j - i,
{
    if i < j {
        lemma_trace_monotone(t, i, j - 1);
        assert(valid_step(t[j - 1], t[j]));
    }
}

/// The two terminal stages have no outgoing step, so either can stand only
/// at the very end of a valid trace.
pub proof fn lemma_terminal_is_last(t: Seq<Stage>, i: int)
    requires
        valid_trace(t),
        0 <= i < t.len(),
        t[i] == Stage::Verified || t[i] == Stage::Rejected,
    ensures
        i == t.len() - 1,
{
    if i < t.len() - 1 {
        assert(valid_step(t[i], t[i + 1]));
    }
}

/// Monotonicity law, first half: the orchestrator never revisits a stage.
/// Between any two equal entries of a valid trace, every entry is that same
/// stage — a stage once left is never re-entered.
pub proof fn lemma_no_revisit(t: Seq<Stage>, i: int, j: int, k: int)
    requires
        valid_trace(t),
        0 <= i <= j <= k < t.len(),
        t[i] == t[k],
    ensures
        t[j] == t[i],
{
    lemma_trace_monotone(t, i, j);
    lemma_trace_monotone(t, j, k);
    if t[i] == Stage::Verified || t[i] == Stage::Rejected {
        lemma_terminal_is_last(t, i);
    }
}

/// Monotonicity law, second half: a valid trace that starts at `Built` and
/// ends at `Verified` passes through `Built`, `Signed`, `Broadcast`,
/// `Pending`, `Confirmed` and `Verified` — each rank below the top is hit,
/// every entry of lower rank stands before every entry of higher rank, and
/// `Rejected` never occurs. With `lemma_no_revisit`, each stage's indices
/// form one contiguous block: every stage of a successful run occurs
/// exactly once, in order.
pub proof fn lemma_verified_implies_full_history(t: Seq<Stage>)
    requires
        valid_trace(t),
        t.len() > 0,
        t[0] == Stage::Built,
        t[t.len() - 1] == Stage::Verified,
    ensures
        t.contains(Stage::Built),
        t.contains(Stage::Signed),
        t.contains(Stage::Broadcast),
        t.contains(Stage::Pending),
        t.contains(Stage::Confirmed),
        t.contains(Stage::Verified),
        forall|i: int, j: int|
            0 <= i < t.len() && 0 <= j < t.len() && rank(t[i]) < rank(t[j]) ==> i < j,
        forall|i: int| 0 <= i < t.len() ==> t[i] != Stage::Rejected,
{
    assert(t.contains(Stage::Built)) by {
        assert(t[0] == Stage::Built);
    }
    assert(t.contains(Stage::Verified)) by {
        assert(t[t.len() - 1] == Stage::Verified);
    }
    assert forall|i: int| 0 <= i < t.len() implies t[i] != Stage::Rejected by {
        if t[i] == Stage::Rejected {
            lemma_terminal_is_last(t, i);
        }
    }
    lemma_rank_hit(t, 1);
    let i1 = choose|i: int| 0 <= i < t.len() && rank(#[trigger] t[i]) == 1;
    assert(t[i1] == Stage::Signed);
    assert(t.contains(Stage::Signed));
    lemma_rank_hit(t, 2);
    let i2 = choose|i: int| 0 <= i < t.len() && rank(#[trigger] t[i]) == 2;
    assert(t[i2] == Stage::Broadcast);
    assert(t.contains(Stage::Broadcast));
    lemma_rank_hit(t, 3);
    let i3 = choose|i: int| 0 <= i < t.len() && rank(#[trigger] t[i]) == 3;
    assert(t[i3] == Stage::Pending);
    assert(t.contains(Stage::Pending));
    lemma_rank_hit(t, 4);
    let i4 = choose|i: int| 0 <= i < t.len() && rank(#[trigger] t[i]) == 4;
    assert(t[i4] == Stage::Confirmed);
    assert(t.contains(Stage::Confirmed));
    assert forall|i: int, j: int|
        0 <= i < t.len() && 0 <= j < t.len() && rank(t[i]) < rank(t[j]) implies i < j by {
        if i >= j {
            lemma_trace_monotone(t, j, i);
        }
    }
    assert forall|i: int| 0 <= i < t.len() implies t[i] != Stage::Rejected by {
        if t[i] == Stage::Rejected {
            lemma_terminal_is_last(t, i);
        }
    }
}

/// Intermediate-value step for the full-history law: since a step raises
/// the rank by at most one, every rank between the first entry's and the
/// last entry's is hit.
proof fn lemma_rank_hit(t: Seq<Stage>, r: nat)
    requires
        valid_trace(t),
        t.len() > 0,
        rank(t[0]) <= r <= rank(t[t.len() - 1]),
    ensures
        exists|i: int| 0 <= i < t.len() && rank(#[trigger] t[i]) == r,
    decreases t.len(),
{
    if rank(t[t.len() - 1]) == r {
        assert(rank(t[t.len() - 1]) == r);
    } else {
        assert(t.len() >= 2);
        let t2 = t.drop_last();
        assert(valid_trace(t2)) by {
            assert forall|i: int| 0 <= i < t2.len() - 1 implies valid_step(
                #[trigger] t2[i],
                t2[i + 1],
            ) by {
                assert(valid_step(t[i], t[i + 1]));
            }
        }
        assert(valid_step(t[t.len() - 2], t[t.len() - 1]));
        lemma_step_monotone(t[t.len() - 2], t[t.len() - 1]);
        lemma_rank_hit(t2, r);
        let i = choose|i: int| 0 <= i < t2.len() && rank(#[trigger] t2[i]) == r;
        assert(t2[i] == t[i]);
        assert(rank(t[i]) == r);
    }
}

/// Compares two byte strings.
pub fn bytes_eq(a: &Vec<u8>, b: &Vec<u8>) -> (r: bool)
    ensures
        r <==> a@ == b@,
{
    if a.len() != b.len() {
        return false;
    }
    let mut i: usize = 0;
    while i < a.len()
        invariant
            a@.len() == b@.len(),
            i <= a@.len(),
            forall|k: int| 0 <= k < i ==> a@[k] == b@[k],
        decreases a@.len() - i,
    {
        if a[i] != b[i] {
            return false;
        }
        i = i + 1;
    }
    proof {
        assert(a@ =~= b@);
    }
    true
}

} // verus!
