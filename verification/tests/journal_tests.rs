use agenc_prover::journal::{
    compute_binding, compute_constraint_hash, compute_nullifier_from_agent_secret,
    compute_output_commitment, digest_to_field_bytes, guest_journal, normalize_field_bytes,
    serialize_journal, FIELD_MODULUS_BYTES, JournalError, JournalFields,
    JournalValidationError, PrivateWitness, JOURNAL_FIELD_LEN, JOURNAL_TOTAL_LEN,
};

fn witness_bytes() -> PrivateWitness {
    let mut output_0 = [0_u8; JOURNAL_FIELD_LEN];
    output_0[31] = 1;
    let mut output_1 = [0_u8; JOURNAL_FIELD_LEN];
    output_1[31] = 2;
    let mut output_2 = [0_u8; JOURNAL_FIELD_LEN];
    output_2[31] = 3;
    let mut output_3 = [0_u8; JOURNAL_FIELD_LEN];
    output_3[31] = 4;
    let mut salt = [0_u8; JOURNAL_FIELD_LEN];
    salt[30] = 0x30;
    salt[31] = 0x39;
    let mut agent_secret = [0_u8; JOURNAL_FIELD_LEN];
    agent_secret[29] = 0x01;
    agent_secret[30] = 0x09;
    agent_secret[31] = 0x32;

    PrivateWitness {
        output: [output_0, output_1, output_2, output_3],
        salt,
        agent_secret,
    }
}

fn public_fields() -> JournalFields {
    let witness = witness_bytes();
    let mut task_pda = [0_u8; JOURNAL_FIELD_LEN];
    task_pda[31] = 0x2a;
    let agent_authority = [
        1, 2, 3, 4, 5, 6, 7, 8, 9, 10, 11, 12, 13, 14, 15, 16, 17, 18, 19, 20, 21, 22, 23, 24, 25,
        26, 27, 28, 29, 30, 31, 32,
    ];
    let constraint_hash = compute_constraint_hash(&witness.output);
    let output_commitment = compute_output_commitment(&witness.output, &witness.salt);
    let binding = compute_binding(&task_pda, &agent_authority, &output_commitment);
    let nullifier = compute_nullifier_from_agent_secret(
        &constraint_hash,
        &output_commitment,
        &witness.agent_secret,
    );

    JournalFields {
        task_pda,
        agent_authority,
        constraint_hash,
        output_commitment,
        binding,
        nullifier,
    }
}

#[test]
fn compute_constraint_hash_matches_sdk_vector() {
    let actual = compute_constraint_hash(&witness_bytes().output);
    let expected = [
        27, 5, 2, 84, 39, 22, 233, 180, 224, 118, 227, 90, 187, 207, 226, 180, 153, 111, 89, 65,
        177, 42, 115, 94, 20, 181, 98, 20, 142, 87, 84, 23,
    ];

    assert_eq!(actual, expected);
}

#[test]
fn compute_output_commitment_matches_sdk_vector() {
    let witness = witness_bytes();
    let actual = compute_output_commitment(&witness.output, &witness.salt);
    let expected = [
        5, 68, 147, 77, 26, 229, 129, 70, 252, 91, 137, 194, 187, 112, 184, 206, 175, 196, 126,
        146, 18, 138, 165, 201, 188, 180, 31, 10, 74, 50, 36, 30,
    ];

    assert_eq!(actual, expected);
}

#[test]
fn compute_binding_matches_sdk_vector() {
    let fields = public_fields();
    let actual = compute_binding(
        &fields.task_pda,
        &fields.agent_authority,
        &fields.output_commitment,
    );
    let expected = [
        21, 13, 226, 197, 153, 150, 34, 181, 237, 51, 113, 126, 95, 159, 255, 117, 59, 155, 2, 13,
        16, 26, 14, 104, 94, 149, 113, 116, 45, 24, 164, 247,
    ];

    assert_eq!(actual, expected);
}

#[test]
fn compute_nullifier_matches_sdk_vector() {
    let witness = witness_bytes();
    let fields = public_fields();
    let actual = compute_nullifier_from_agent_secret(
        &fields.constraint_hash,
        &fields.output_commitment,
        &witness.agent_secret,
    );
    let expected = [
        244, 234, 41, 112, 18, 33, 223, 173, 165, 57, 218, 176, 51, 26, 185, 6, 68, 155, 203, 55,
        112, 100, 87, 191, 241, 141, 85, 247, 244, 9, 238, 159,
    ];

    assert_eq!(actual, expected);
}

#[test]
fn validate_against_witness_accepts_matching_fields() {
    let witness = witness_bytes();
    assert_eq!(public_fields().validate_against_witness(&witness), Ok(()));
}

#[test]
fn validate_against_witness_rejects_zero_salt() {
    let mut witness = witness_bytes();
    witness.salt = [0_u8; JOURNAL_FIELD_LEN];

    assert_eq!(
        public_fields().validate_against_witness(&witness),
        Err(JournalValidationError::ZeroField { field: "salt" })
    );
}

#[test]
fn validate_against_witness_rejects_constraint_hash_mismatch() {
    let witness = witness_bytes();
    let mut fields = public_fields();
    let expected = fields.constraint_hash;
    fields.constraint_hash[0] ^= 0xff;

    assert_eq!(
        fields.validate_against_witness(&witness),
        Err(JournalValidationError::ConstraintHashMismatch {
            expected,
            actual: fields.constraint_hash,
        })
    );
}

#[test]
fn validate_against_witness_rejects_output_commitment_mismatch() {
    let witness = witness_bytes();
    let mut fields = public_fields();
    let expected = fields.output_commitment;
    fields.output_commitment[0] ^= 0xff;

    assert_eq!(
        fields.validate_against_witness(&witness),
        Err(JournalValidationError::OutputCommitmentMismatch {
            expected,
            actual: fields.output_commitment,
        })
    );
}

#[test]
fn validate_against_witness_rejects_binding_mismatch() {
    let witness = witness_bytes();
    let mut fields = public_fields();
    let expected = fields.binding;
    fields.binding[0] ^= 0xff;

    assert_eq!(
        fields.validate_against_witness(&witness),
        Err(JournalValidationError::BindingMismatch {
            expected,
            actual: fields.binding,
        })
    );
}

#[test]
fn validate_against_witness_rejects_nullifier_mismatch() {
    let witness = witness_bytes();
    let mut fields = public_fields();
    let expected = fields.nullifier;
    fields.nullifier[0] ^= 0xff;

    assert_eq!(
        fields.validate_against_witness(&witness),
        Err(JournalValidationError::NullifierMismatch {
            expected,
            actual: fields.nullifier,
        })
    );
}

// ---------------------------------------------------------------------------
// Further cases
// ---------------------------------------------------------------------------

#[test]
fn journal_round_trips_through_its_byte_layout() {
    let fields = public_fields();
    let bytes = serialize_journal(&fields);
    assert_eq!(bytes.len(), JOURNAL_TOTAL_LEN);
    assert_eq!(bytes, fields.to_bytes());
    let parsed = JournalFields::try_from_slices(
        &bytes[0..32],
        &bytes[32..64],
        &bytes[64..96],
        &bytes[96..128],
        &bytes[128..160],
        &bytes[160..192],
    )
    .unwrap();
    assert_eq!(parsed, fields);
    assert_eq!(&bytes[..32], &fields.task_pda);
    assert_eq!(&bytes[160..], &fields.nullifier);
}

#[test]
fn journal_try_from_slices_reports_first_wrong_length() {
    let ok = [7_u8; 32];
    let short = [7_u8; 31];
    let long = [7_u8; 33];
    assert_eq!(
        JournalFields::try_from_slices(&ok, &short, &ok, &long, &ok, &ok),
        Err(JournalError::InvalidFieldLength {
            field: "agent_authority",
            expected: 32,
            actual: 31,
        })
    );
    assert_eq!(
        JournalFields::try_from_slices(&ok, &ok, &ok, &ok, &ok, &long),
        Err(JournalError::InvalidFieldLength {
            field: "nullifier",
            expected: 32,
            actual: 33,
        })
    );
}

#[test]
fn witness_try_from_slices_reads_fields_in_order() {
    let w = witness_bytes();
    let parsed = PrivateWitness::try_from_slices(
        &w.output[0],
        &w.output[1],
        &w.output[2],
        &w.output[3],
        &w.salt,
        &w.agent_secret,
    )
    .unwrap();
    assert_eq!(parsed, w);
    let empty: [u8; 0] = [];
    assert_eq!(
        PrivateWitness::try_from_slices(&w.output[0], &w.output[1], &w.output[2], &w.output[3], &empty, &w.agent_secret),
        Err(JournalError::InvalidFieldLength {
            field: "salt",
            expected: 32,
            actual: 0,
        })
    );
}

#[test]
fn validation_messages_match_the_service_texts() {
    assert_eq!(
        JournalValidationError::ZeroField { field: "salt" }.to_string(),
        "salt must be non-zero"
    );
    let f = [0_u8; 32];
    assert_eq!(
        JournalValidationError::BindingMismatch { expected: f, actual: f }.to_string(),
        "binding does not match derived value"
    );
    assert_eq!(
        JournalValidationError::NullifierMismatch { expected: f, actual: f }.to_string(),
        "nullifier does not match derived value"
    );
}

#[test]
fn field_reduction_maps_the_modulus_to_zero() {
    // The modulus itself and modulus + k reduce like 0 and k, so their
    // hashes coincide: inputs are read as field elements.
    let modulus = FIELD_MODULUS_BYTES;
    let zero = [0_u8; 32];
    let outputs_a = [modulus, zero, zero, zero];
    let outputs_b = [zero, zero, zero, zero];
    assert_eq!(
        compute_constraint_hash(&outputs_a),
        compute_constraint_hash(&outputs_b)
    );
    let mut one_above = modulus;
    one_above[31] += 1;
    let mut one = zero;
    one[31] = 1;
    assert_eq!(
        compute_constraint_hash(&[one_above, zero, zero, zero]),
        compute_constraint_hash(&[one, zero, zero, zero])
    );
    assert_ne!(
        compute_constraint_hash(&[one, zero, zero, zero]),
        compute_constraint_hash(&outputs_b)
    );
}

#[test]
fn derived_fields_are_reduced_below_the_modulus() {
    let fields = public_fields();
    let modulus = FIELD_MODULUS_BYTES;
    assert!(fields.constraint_hash < modulus);
    assert!(fields.output_commitment < modulus);
    assert!(fields.binding < modulus);
}

#[test]
fn digests_are_reduced_into_the_field() {
    assert_eq!(
        digest_to_field_bytes(&[0xff_u8; 32]),
        [
            14, 10, 119, 193, 154, 7, 223, 47, 102, 110, 163, 111, 120, 121, 70, 46, 54, 252,
            118, 149, 159, 96, 205, 41, 172, 150, 52, 28, 79, 255, 255, 250
        ]
    );
    assert_eq!(normalize_field_bytes(&FIELD_MODULUS_BYTES), [0_u8; 32]);
    let mut small = [0_u8; 32];
    small[31] = 9;
    assert_eq!(normalize_field_bytes(&small), small);
    assert_eq!(digest_to_field_bytes(&[]), [0_u8; 32]);
}

#[test]
fn guest_commits_the_journal_only_for_a_matching_witness() {
    let fields = public_fields();
    let witness = witness_bytes();
    assert_eq!(guest_journal(&fields, &witness), Ok(fields.to_bytes()));
    let mut bad = fields;
    bad.binding[3] ^= 1;
    assert!(matches!(
        guest_journal(&bad, &witness),
        Err(JournalValidationError::BindingMismatch { .. })
    ));
}
