use agenc_prover::journal::{
    compute_binding, compute_constraint_hash, compute_nullifier_from_agent_secret,
    compute_output_commitment, serialize_journal, JournalField,
};
use agenc_prover::prover::{
    assemble_proof_response, ensure_trusted_image_id, executor_inputs, generate_proof_with_dev_mode,
    guest_id_to_image_id, image_id, render_image_id, ProveError, ProveRequest,
    DEV_MODE_ENV_VAR, TRUSTED_RISC0_IMAGE_ID,
};
use agenc_prover::seal::{
    encode_seal, subtract_be_bytes, BN254_FIELD_MODULUS_Q, SEAL_BYTES_LEN, SEAL_PROOF_LEN,
    SEAL_SELECTOR_LEN, TRUSTED_SEAL_SELECTOR,
};

fn field_from_u32(value: u32) -> JournalField {
    let mut out = [0_u8; 32];
    out[28..].copy_from_slice(&value.to_be_bytes());
    out
}

fn default_prove_request() -> ProveRequest {
    let mut task_pda = [0_u8; 32];
    task_pda[31] = 0x2a;
    let agent_authority = [
        1, 2, 3, 4, 5, 6, 7, 8, 9, 10, 11, 12, 13, 14, 15, 16, 17, 18, 19, 20, 21, 22, 23, 24, 25,
        26, 27, 28, 29, 30, 31, 32,
    ];
    let output = [
        field_from_u32(1),
        field_from_u32(2),
        field_from_u32(3),
        field_from_u32(4),
    ];
    let salt = field_from_u32(12345);
    let agent_secret = field_from_u32(67890);
    let constraint_hash = compute_constraint_hash(&output);
    let output_commitment = compute_output_commitment(&output, &salt);
    let binding = compute_binding(&task_pda, &agent_authority, &output_commitment);
    let nullifier =
        compute_nullifier_from_agent_secret(&constraint_hash, &output_commitment, &agent_secret);

    ProveRequest {
        task_pda,
        agent_authority,
        constraint_hash,
        output_commitment,
        binding,
        nullifier,
        output,
        salt,
        agent_secret,
    }
}

#[test]
fn dev_mode_guard_is_fail_closed() {
    let request = default_prove_request();
    let err = generate_proof_with_dev_mode(&request, Some("1"))
        .expect_err("dev mode must be rejected");

    assert_eq!(
        err,
        ProveError::DevModeEnabled {
            variable: DEV_MODE_ENV_VAR,
        }
    );
}

#[test]
fn encode_seal_prefixes_trusted_selector() {
    let mut raw = [9u8; SEAL_PROOF_LEN];
    raw[32..64].fill(1);
    let encoded = encode_seal(&raw);
    assert_eq!(encoded.len(), SEAL_BYTES_LEN);
    assert_eq!(&encoded[..SEAL_SELECTOR_LEN], &TRUSTED_SEAL_SELECTOR);
    assert_eq!(&encoded[SEAL_SELECTOR_LEN..32 + SEAL_SELECTOR_LEN], &raw[..32]);

    let mut expected_y = BN254_FIELD_MODULUS_Q;
    let y = [1u8; 32];
    subtract_be_bytes(&mut expected_y, &y);
    assert_eq!(
        &encoded[SEAL_SELECTOR_LEN + 32..SEAL_SELECTOR_LEN + 64],
        &expected_y
    );
    assert_eq!(&encoded[SEAL_SELECTOR_LEN + 64..], &raw[64..]);
}

#[test]
fn encode_seal_preserves_zero_pi_a_y_coordinate() {
    let raw = [0u8; SEAL_PROOF_LEN];
    let encoded = encode_seal(&raw);

    assert_eq!(
        &encoded[SEAL_SELECTOR_LEN + 32..SEAL_SELECTOR_LEN + 64],
        &[0u8; 32]
    );
}

#[test]
fn guest_id_to_image_id_converts_little_endian_words() {
    let guest_id: [u32; 8] = [
        0x04030201, 0x08070605, 0x0c0b0a09, 0x100f0e0d, 0x14131211, 0x18171615, 0x1c1b1a19,
        0x201f1e1d,
    ];
    let image_id = guest_id_to_image_id(&guest_id);
    assert_eq!(image_id[0], 0x01);
    assert_eq!(image_id[1], 0x02);
    assert_eq!(image_id[2], 0x03);
    assert_eq!(image_id[3], 0x04);
    assert_eq!(image_id[31], 0x20);
}

#[test]
fn without_production_feature_returns_guidance_error() {
    let request = default_prove_request();
    let err = generate_proof_with_dev_mode(&request, None).expect_err("must fail without feature");
    match err {
        ProveError::ProverFailed(message) => {
            assert!(message.contains("--features production-prover"));
        }
        other => panic!("unexpected error: {}", other.to_string()),
    }
}

#[test]
fn zero_salt_is_rejected_before_proving() {
    let mut request = default_prove_request();
    request.salt = [0_u8; 32];

    let err = generate_proof_with_dev_mode(&request, None).expect_err("zero salt must be rejected");

    assert_eq!(
        err,
        ProveError::InvalidRequest("salt must be non-zero".into())
    );
}

#[test]
fn invalid_constraint_hash_is_rejected_before_proving() {
    let mut request = default_prove_request();
    request.constraint_hash[0] ^= 0xff;

    let err = generate_proof_with_dev_mode(&request, None)
        .expect_err("invalid constraint hash must be rejected");

    assert_eq!(
        err,
        ProveError::InvalidRequest("constraint_hash does not match derived value".into())
    );
}

#[test]
fn invalid_output_commitment_is_rejected_before_proving() {
    let mut request = default_prove_request();
    request.output_commitment[0] ^= 0xff;

    let err = generate_proof_with_dev_mode(&request, None)
        .expect_err("invalid output commitment must be rejected");

    assert_eq!(
        err,
        ProveError::InvalidRequest("output_commitment does not match derived value".into())
    );
}

#[test]
fn invalid_binding_is_rejected_before_proving() {
    let mut request = default_prove_request();
    request.binding[0] ^= 0xff;

    let err = generate_proof_with_dev_mode(&request, None)
        .expect_err("invalid binding must be rejected");

    assert_eq!(
        err,
        ProveError::InvalidRequest("binding does not match derived value".into())
    );
}

#[test]
fn invalid_nullifier_is_rejected_before_proving() {
    let mut request = default_prove_request();
    request.nullifier[0] ^= 0xff;

    let err = generate_proof_with_dev_mode(&request, None)
        .expect_err("invalid nullifier must be rejected");

    assert_eq!(
        err,
        ProveError::InvalidRequest("nullifier does not match derived value".into())
    );
}

#[test]
fn compiled_guest_image_matches_pinned_image() {
    assert_eq!(image_id(), TRUSTED_RISC0_IMAGE_ID);
}

// ---------------------------------------------------------------------------
// Further cases
// ---------------------------------------------------------------------------

#[test]
fn subtract_be_bytes_borrows_across_bytes_and_wraps() {
    let mut a = [0u8; 32];
    a[30] = 1; // 256
    let mut b = [0u8; 32];
    b[31] = 1; // 1
    subtract_be_bytes(&mut a, &b);
    let mut expected = [0u8; 32];
    expected[31] = 255;
    assert_eq!(a, expected);

    let mut zero = [0u8; 32];
    subtract_be_bytes(&mut zero, &b);
    assert_eq!(zero, [0xffu8; 32]);
}

#[test]
fn negating_pi_a_twice_restores_a_canonical_point() {
    let mut raw = [0u8; SEAL_PROOF_LEN];
    for (i, byte) in raw.iter_mut().enumerate() {
        *byte = (i * 7 % 251) as u8;
    }
    raw[32] = 0x01; // keep y below q
    let once = encode_seal(&raw);
    let mut inner = [0u8; SEAL_PROOF_LEN];
    inner.copy_from_slice(&once[SEAL_SELECTOR_LEN..]);
    let twice = encode_seal(&inner);
    assert_eq!(&twice[SEAL_SELECTOR_LEN..], &raw[..]);
}

#[test]
fn render_image_id_joins_decimal_bytes() {
    let rendered = render_image_id(TRUSTED_RISC0_IMAGE_ID);
    assert!(rendered.starts_with("163, 162, 235, 60, 222, 160, 40,"));
    assert!(rendered.ends_with("94, 34, 68, 20"));
    assert_eq!(render_image_id([0u8; 32]).matches(", ").count(), 31);
}

#[test]
fn prove_error_messages_match_the_service_texts() {
    assert_eq!(
        ProveError::UnexpectedJournalLength { expected: 192, actual: 7 }.to_string(),
        "unexpected journal length: expected 192, got 7"
    );
    assert_eq!(
        ProveError::DevModeEnabled { variable: DEV_MODE_ENV_VAR }.to_string(),
        "RISC0_DEV_MODE is set; refusing to generate proof output"
    );
    assert_eq!(
        ProveError::InvalidRequest("salt must be non-zero".into()).to_string(),
        "invalid prove request: salt must be non-zero"
    );
    let mut other = TRUSTED_RISC0_IMAGE_ID;
    other[0] = 0;
    let message = ProveError::UntrustedImageId { expected: TRUSTED_RISC0_IMAGE_ID, actual: other }.to_string();
    assert_eq!(
        message,
        format!(
            "compiled guest image_id does not match trusted pinned image_id: expected {:?}, got {:?}",
            TRUSTED_RISC0_IMAGE_ID, other
        )
    );
}

#[test]
fn untrusted_image_id_is_rejected() {
    assert_eq!(ensure_trusted_image_id(TRUSTED_RISC0_IMAGE_ID), Ok(()));
    let mut drifted = TRUSTED_RISC0_IMAGE_ID;
    drifted[5] ^= 1;
    assert_eq!(
        ensure_trusted_image_id(drifted),
        Err(ProveError::UntrustedImageId { expected: TRUSTED_RISC0_IMAGE_ID, actual: drifted })
    );
}

#[test]
fn receipt_is_checked_before_it_becomes_a_response() {
    let request = default_prove_request();
    let journal = serialize_journal(&request.journal_fields()).to_vec();
    let seal = [3u8; SEAL_PROOF_LEN];

    let ok = assemble_proof_response(&request, TRUSTED_RISC0_IMAGE_ID, &seal, journal.clone()).unwrap();
    assert_eq!(ok.seal_bytes, encode_seal(&seal));
    assert_eq!(ok.journal, journal);
    assert_eq!(ok.image_id, TRUSTED_RISC0_IMAGE_ID);

    assert_eq!(
        assemble_proof_response(&request, TRUSTED_RISC0_IMAGE_ID, &seal[..255], journal.clone()),
        Err(ProveError::ProverFailed("Groth16 seal is 255 bytes, expected 256".into()))
    );
    assert_eq!(
        assemble_proof_response(&request, TRUSTED_RISC0_IMAGE_ID, &seal, journal[..191].to_vec()),
        Err(ProveError::UnexpectedJournalLength { expected: 192, actual: 191 })
    );
    let mut tampered = journal.clone();
    tampered[0] ^= 1;
    assert_eq!(
        assemble_proof_response(&request, TRUSTED_RISC0_IMAGE_ID, &seal, tampered),
        Err(ProveError::ProverFailed(
            "prover returned journal that does not match expected fields".into()
        ))
    );
}

#[test]
fn executor_inputs_follow_the_guest_read_order() {
    let request = default_prove_request();
    let inputs = executor_inputs(&request);
    assert_eq!(inputs[0], request.task_pda);
    assert_eq!(inputs[5], request.nullifier);
    assert_eq!(&inputs[6..10], &request.output[..]);
    assert_eq!(inputs[10], request.salt);
    assert_eq!(inputs[11], request.agent_secret);
}
