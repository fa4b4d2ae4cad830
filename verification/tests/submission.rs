use podblob::error::PipelineError;
use podblob::orchestrator::{Orchestrator, ReceiptData, Stage};
use podblob::pipeline::prepare_submission;
use podblob::sidecar::{package, CHUNK_CAPACITY, DATA_GAS_PER_CHUNK, MAX_CHUNKS};

fn signer() -> Vec<u8> {
    vec![0xA1; 20]
}

fn recipient() -> Vec<u8> {
    vec![0x42; 20]
}

fn built_orchestrator(payload_len: usize) -> Orchestrator {
    prepare_submission(vec![0x5Au8; payload_len], signer(), recipient(), 3).unwrap()
}

fn good_receipt(chunks: u64) -> ReceiptData {
    ReceiptData {
        from: signer(),
        to: Some(recipient()),
        block_number: Some(1234),
        blob_gas_used: Some(chunks * DATA_GAS_PER_CHUNK),
    }
}

#[test]
fn oversize_input_builds_no_intent() {
    let r = prepare_submission(
        vec![1u8; MAX_CHUNKS * CHUNK_CAPACITY + 1],
        signer(),
        recipient(),
        3,
    );
    assert_eq!(r.unwrap_err(), PipelineError::Oversize);
}

#[test]
fn successful_run_reaches_verified_through_every_stage() {
    let mut orch = built_orchestrator(100);
    assert_eq!(orch.stage, Stage::Built);
    assert_eq!(orch.sidecar.chunks.len(), 1);

    orch.sign();
    assert_eq!(orch.stage, Stage::Signed);

    orch.submit();
    assert_eq!(orch.stage, Stage::Broadcast);

    orch.record_broadcast(true).unwrap();
    assert_eq!(orch.stage, Stage::Pending);

    let confirmed = orch.poll(Some(good_receipt(1))).unwrap();
    assert!(confirmed);
    assert_eq!(orch.stage, Stage::Confirmed);

    orch.verify_receipt().unwrap();
    assert_eq!(orch.stage, Stage::Verified);
}

#[test]
fn rejected_broadcast_halts_with_broadcast_error() {
    let mut orch = built_orchestrator(10);
    orch.sign();
    orch.submit();
    let r = orch.record_broadcast(false);
    assert_eq!(r.unwrap_err(), PipelineError::Broadcast);
    assert_eq!(orch.stage, Stage::Broadcast);
}

#[test]
fn empty_polls_consume_the_budget_then_time_out() {
    let mut orch = prepare_submission(vec![7u8; 10], signer(), recipient(), 2).unwrap();
    orch.sign();
    orch.submit();
    orch.record_broadcast(true).unwrap();

    // No receipt yet, and a receipt without a block number, each consume
    // one unit of the budget and stay pending.
    assert!(!orch.poll(None).unwrap());
    assert_eq!(orch.stage, Stage::Pending);
    let not_included = ReceiptData {
        from: signer(),
        to: Some(recipient()),
        block_number: None,
        blob_gas_used: None,
    };
    assert!(!orch.poll(Some(not_included)).unwrap());
    assert_eq!(orch.stage, Stage::Pending);

    // The budget is exhausted; the next empty poll aborts the run.
    let r = orch.poll(None);
    assert_eq!(r.unwrap_err(), PipelineError::ConfirmationTimeout);
    assert_eq!(orch.stage, Stage::Pending);
}

#[test]
fn late_receipt_still_confirms_within_budget() {
    let mut orch = prepare_submission(vec![7u8; 10], signer(), recipient(), 2).unwrap();
    orch.sign();
    orch.submit();
    orch.record_broadcast(true).unwrap();
    assert!(!orch.poll(None).unwrap());
    assert!(orch.poll(Some(good_receipt(1))).unwrap());
    assert_eq!(orch.stage, Stage::Confirmed);
    orch.verify_receipt().unwrap();
    assert_eq!(orch.stage, Stage::Verified);
}

#[test]
fn sender_mismatch_is_a_verification_mismatch() {
    let mut orch = built_orchestrator(100);
    orch.sign();
    orch.submit();
    orch.record_broadcast(true).unwrap();
    let mut receipt = good_receipt(1);
    receipt.from = vec![0xB2; 20];
    orch.poll(Some(receipt)).unwrap();
    let r = orch.verify_receipt();
    assert_eq!(r.unwrap_err(), PipelineError::VerificationMismatch);
    assert_eq!(orch.stage, Stage::Rejected);
}

#[test]
fn recipient_mismatch_is_a_verification_mismatch() {
    let mut orch = built_orchestrator(100);
    orch.sign();
    orch.submit();
    orch.record_broadcast(true).unwrap();
    let mut receipt = good_receipt(1);
    receipt.to = None;
    orch.poll(Some(receipt)).unwrap();
    assert_eq!(
        orch.verify_receipt().unwrap_err(),
        PipelineError::VerificationMismatch
    );
    assert_eq!(orch.stage, Stage::Rejected);
}

#[test]
fn data_gas_mismatch_is_a_verification_mismatch() {
    // Two chunks are attached, so the receipt must account the per-chunk
    // constant exactly twice.
    let mut orch = built_orchestrator(CHUNK_CAPACITY + 1);
    assert_eq!(orch.sidecar.chunks.len(), 2);
    orch.sign();
    orch.submit();
    orch.record_broadcast(true).unwrap();
    orch.poll(Some(good_receipt(1))).unwrap();
    assert_eq!(
        orch.verify_receipt().unwrap_err(),
        PipelineError::VerificationMismatch
    );
    assert_eq!(orch.stage, Stage::Rejected);
}

#[test]
fn matching_receipt_with_two_chunks_verifies() {
    let mut orch = built_orchestrator(CHUNK_CAPACITY + 1);
    orch.sign();
    orch.submit();
    orch.record_broadcast(true).unwrap();
    orch.poll(Some(good_receipt(2))).unwrap();
    orch.verify_receipt().unwrap();
    assert_eq!(orch.stage, Stage::Verified);
}

#[test]
fn resumed_run_from_wrap_outcome_to_verified() {
    // The stages around the proving backend, chained end to end: the
    // wrapping engine's outcome becomes a bundle, the codec's outcome
    // becomes the compressed buffer, and the buffer is packaged, submitted
    // and verified.
    let outcome = Some((vec![0xEE; 64], vec![0xCC; 128], vec![0xAB; 4096]));
    let bundle = podblob::codec::accept_wrap_outcome(outcome).unwrap();
    assert_eq!(bundle.proof_bytes.len(), 4096);

    let compressed =
        podblob::codec::accept_compression_outcome(Some(vec![0x3C; 2048])).unwrap();
    let mut orch = prepare_submission(compressed, signer(), recipient(), 1).unwrap();
    assert_eq!(orch.sidecar.chunks.len(), 1);

    orch.sign();
    orch.submit();
    orch.record_broadcast(true).unwrap();
    assert!(orch.poll(Some(good_receipt(1))).unwrap());
    orch.verify_receipt().unwrap();
    assert_eq!(orch.stage, Stage::Verified);
}

#[test]
fn intent_carries_the_packaged_payload() {
    let bytes: Vec<u8> = (0..1000u32).map(|n| (n % 256) as u8).collect();
    let orch = prepare_submission(bytes.clone(), signer(), recipient(), 1).unwrap();
    assert_eq!(orch.signer, signer());
    assert_eq!(orch.recipient, recipient());
    let sidecar = package(&bytes).unwrap();
    assert_eq!(orch.sidecar, sidecar);
}
