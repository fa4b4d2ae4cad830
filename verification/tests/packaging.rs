use podblob::codec::{accept_compression_outcome, accept_wrap_outcome, check_artifact_count, Bundle};
use podblob::error::PipelineError;
use podblob::sidecar::{
    encode_blob, package, BLOB_BYTES, CHUNK_CAPACITY, DATA_GAS_PER_CHUNK, MAX_CHUNKS,
};
use podblob::statement::{attach_proof, build_statement};

#[test]
fn member_present_builds_statement() {
    let r = build_statement(vec![1, 2, 3], 1);
    let statement = r.expect("member 1 is in the set");
    assert_eq!(statement.set_elements, vec![1, 2, 3]);
    assert_eq!(statement.member, 1);
}

#[test]
fn member_absent_fails_proof_generation() {
    let r = build_statement(vec![1, 2, 3], 99);
    assert_eq!(r.unwrap_err(), PipelineError::ProofGeneration);
}

#[test]
fn empty_set_rejects_every_member() {
    let r = build_statement(vec![], 1);
    assert_eq!(r.unwrap_err(), PipelineError::ProofGeneration);
}

#[test]
fn proof_object_keeps_statement_and_bytes() {
    let statement = build_statement(vec![5, 7], 7).unwrap();
    let proof = attach_proof(statement, vec![0xaa, 0xbb]);
    assert_eq!(proof.statement.member, 7);
    assert_eq!(proof.proof_bytes, vec![0xaa, 0xbb]);
}

#[test]
fn error_names_are_stable() {
    assert_eq!(PipelineError::ProofGeneration.name(), "ProofGenerationError");
    assert_eq!(PipelineError::Wrapping.name(), "WrappingError");
    assert_eq!(PipelineError::Serialization.name(), "SerializationError");
    assert_eq!(PipelineError::Oversize.name(), "OversizeError");
    assert_eq!(PipelineError::Broadcast.name(), "BroadcastError");
    assert_eq!(PipelineError::ConfirmationTimeout.name(), "ConfirmationTimeout");
    assert_eq!(PipelineError::VerificationMismatch.name(), "VerificationMismatch");
}

#[test]
fn constants_match_the_transport() {
    assert_eq!(DATA_GAS_PER_CHUNK, alloy::eips::eip4844::DATA_GAS_PER_BLOB);
    assert_eq!(BLOB_BYTES, alloy::eips::eip4844::BYTES_PER_BLOB);
    assert_eq!(
        CHUNK_CAPACITY,
        31 * alloy::eips::eip4844::FIELD_ELEMENTS_PER_BLOB as usize
    );
}

#[test]
fn empty_payload_packages_to_zero_chunks() {
    let sidecar = package(&vec![]).unwrap();
    assert_eq!(sidecar.chunks.len(), 0);
    assert_eq!(sidecar.expected_data_gas(), 0);
}

#[test]
fn small_payload_packages_to_one_chunk() {
    let bytes: Vec<u8> = (1..=10).collect();
    let sidecar = package(&bytes).unwrap();
    assert_eq!(sidecar.chunks.len(), 1);
    assert_eq!(sidecar.chunks[0].payload, bytes);
    assert_eq!(sidecar.chunks[0].commitment.len(), 48);
    assert_eq!(sidecar.expected_data_gas(), DATA_GAS_PER_CHUNK);
}

#[test]
fn chunk_count_is_ceiling_of_length_over_capacity() {
    // Exactly one full chunk.
    let sidecar = package(&vec![3u8; CHUNK_CAPACITY]).unwrap();
    assert_eq!(sidecar.chunks.len(), 1);
    assert_eq!(sidecar.chunks[0].payload.len(), CHUNK_CAPACITY);

    // One byte over a full chunk: ceil(L / C) == 2, first chunk full,
    // second chunk holding the single remaining byte, order kept.
    let mut bytes = vec![9u8; CHUNK_CAPACITY];
    bytes.push(0x42);
    let sidecar = package(&bytes).unwrap();
    assert_eq!(sidecar.chunks.len(), 2);
    assert_eq!(sidecar.chunks[0].payload.len(), CHUNK_CAPACITY);
    assert_eq!(sidecar.chunks[1].payload, vec![0x42]);
    let mut joined = sidecar.chunks[0].payload.clone();
    joined.extend_from_slice(&sidecar.chunks[1].payload);
    assert_eq!(joined, bytes);
    assert_eq!(sidecar.expected_data_gas(), 2 * DATA_GAS_PER_CHUNK);
}

#[test]
fn aggregate_capacity_is_enforced() {
    // The largest accepted input fills all chunks the transport allows.
    let full = vec![1u8; MAX_CHUNKS * CHUNK_CAPACITY];
    let sidecar = package(&full).unwrap();
    assert_eq!(sidecar.chunks.len(), MAX_CHUNKS);

    // One more byte is rejected whole, with no partial sidecar.
    let over = vec![1u8; MAX_CHUNKS * CHUNK_CAPACITY + 1];
    assert_eq!(package(&over).unwrap_err(), PipelineError::Oversize);
}

#[test]
fn packaging_is_deterministic_across_runs() {
    // The same compressed bytes — fresh, or read back from the durable
    // artifact — package to an identical sidecar.
    let bytes: Vec<u8> = (0..100000u32).map(|n| (n % 251) as u8).collect();
    let fresh = package(&bytes).unwrap();
    let read_back = bytes.clone();
    let resumed = package(&read_back).unwrap();
    assert_eq!(fresh, resumed);
}

#[test]
fn blob_encoding_interleaves_zero_bytes() {
    let blob = encode_blob(&vec![7, 8, 9]);
    assert_eq!(blob.len(), BLOB_BYTES);
    assert_eq!(blob[0], 0);
    assert_eq!(blob[1], 7);
    assert_eq!(blob[2], 8);
    assert_eq!(blob[3], 9);
    assert_eq!(blob[4], 0);
    assert_eq!(blob[32], 0);
    assert_eq!(blob[33], 0);

    // A payload longer than one word spills into the second word after its
    // leading zero byte.
    let payload: Vec<u8> = (1..=32).collect();
    let blob = encode_blob(&payload);
    assert_eq!(blob[31], 31);
    assert_eq!(blob[32], 0);
    assert_eq!(blob[33], 32);
    assert_eq!(blob[34], 0);
}

#[test]
fn chunk_commitments_are_real_kzg_commitments() {
    let bytes = vec![0x11u8; 40];
    let sidecar = package(&bytes).unwrap();
    assert_eq!(sidecar.chunks.len(), 1);

    // Recompute the commitment for the chunk's blob encoding directly
    // through the KZG library; the packager must agree.
    let blob_bytes = encode_blob(&sidecar.chunks[0].payload);
    let blob = c_kzg::Blob::from_bytes(&blob_bytes).unwrap();
    let settings = alloy::eips::eip4844::env_settings::EnvKzgSettings::Default;
    let commitment = settings.get().blob_to_kzg_commitment(&blob).unwrap();
    assert_eq!(sidecar.chunks[0].commitment, commitment.to_vec());

    // An all-zero payload encodes to the zero blob, whose commitment is the
    // compressed identity point: 0xc0 followed by 47 zero bytes.
    let zero_sidecar = package(&vec![0u8; 5]).unwrap();
    let mut identity = vec![0u8; 48];
    identity[0] = 0xc0;
    assert_eq!(zero_sidecar.chunks[0].commitment, identity);
}

#[test]
fn wrap_outcome_is_accepted_or_halts() {
    let bundle = accept_wrap_outcome(Some((vec![1], vec![2, 2], vec![3, 3, 3]))).unwrap();
    assert_eq!(bundle.verifier_bytes, vec![1]);
    assert_eq!(bundle.common_bytes, vec![2, 2]);
    assert_eq!(bundle.proof_bytes, vec![3, 3, 3]);
    assert_eq!(accept_wrap_outcome(None).unwrap_err(), PipelineError::Wrapping);
}

#[test]
fn compression_outcome_is_accepted_or_halts() {
    assert_eq!(accept_compression_outcome(Some(vec![9, 9])).unwrap(), vec![9, 9]);
    assert_eq!(
        accept_compression_outcome(None).unwrap_err(),
        PipelineError::Serialization
    );
}

#[test]
fn artifact_byte_count_must_match() {
    let bundle = Bundle::assemble(vec![1], vec![2], vec![3, 4]);
    assert_eq!(bundle.proof_bytes.len(), 2);
    let buffer = vec![5u8; 10];
    assert!(check_artifact_count(&buffer, 10).is_ok());
    assert_eq!(
        check_artifact_count(&buffer, 9).unwrap_err(),
        PipelineError::Serialization
    );
}
