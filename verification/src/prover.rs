//! The proving front end: the request it takes, the checks it makes before
//! proving, the pinned guest image, and the checks on what a Groth16
//! receipt hands back.
use crate::bytes::all_zero;
use crate::journal::{
    derived_binding, derived_constraint_hash, derived_output_commitment, journal_matches_witness,
    serialize_journal, JournalField, JournalFields, OutputFields, PrivateWitness, JOURNAL_TOTAL_LEN,
};
use crate::seal::{encode_seal, spec_encode_seal, SEAL_PROOF_LEN};
use crate::text::{decimal, join_decimal, push_decimal, push_joined_decimal};
use vstd::prelude::*;

verus! {

pub const IMAGE_ID_LEN: usize = 32;

pub const DEV_MODE_ENV_VAR: &'static str = "RISC0_DEV_MODE";

/// The guest image id that proofs must be generated with.
pub const TRUSTED_RISC0_IMAGE_ID: ImageId = [
    163, 162, 235, 60, 222, 160, 40, 184, 182, 95, 135, 53, 39, 239, 42, 88, 52, 171, 21, 130, 15,
    219, 143, 17, 216, 26, 185, 77, 94, 34, 68, 20,
];

pub type ImageId = [u8; IMAGE_ID_LEN];

/// A complete proving request: the public journal fields and the private witness.
#[derive(Debug, Clone, Copy, PartialEq, Eq)]
pub struct ProveRequest {
    pub task_pda: JournalField,
    pub agent_authority: JournalField,
    pub constraint_hash: JournalField,
    pub output_commitment: JournalField,
    pub binding: JournalField,
    pub nullifier: JournalField,
    pub output: OutputFields,
    pub salt: JournalField,
    pub agent_secret: JournalField,
}

/// What a successful proof hands back: the router seal, the journal, and
/// the image id it was proved with.
#[derive(Debug, Clone, PartialEq, Eq)]
pub struct ProveResponse {
    pub seal_bytes: Vec<u8>,
    pub journal: Vec<u8>,
    pub image_id: ImageId,
}

#[derive(Debug, Clone, PartialEq, Eq)]
pub enum ProveError {
    UnexpectedJournalLength { expected: usize, actual: usize },
    UntrustedImageId { expected: ImageId, actual: ImageId },
    DevModeEnabled { variable: &'static str },
    InvalidRequest(String),
    ProverFailed(String),
    ReceiptTypeMismatch(String),
}

impl ProveRequest {
    pub open spec fn spec_journal_fields(self) -> JournalFields {
        JournalFields {
            task_pda: self.task_pda,
            agent_authority: self.agent_authority,
            constraint_hash: self.constraint_hash,
            output_commitment: self.output_commitment,
            binding: self.binding,
            nullifier: self.nullifier,
        }
    }

    pub open spec fn spec_private_witness(self) -> PrivateWitness {
        PrivateWitness { output: self.output, salt: self.salt, agent_secret: self.agent_secret }
    }

    /// The public half of the request.
    pub fn journal_fields(&self) -> (fields: JournalFields)
        ensures
            fields == self.spec_journal_fields(),
    {
        JournalFields {
            task_pda: self.task_pda,
            agent_authority: self.agent_authority,
            constraint_hash: self.constraint_hash,
            output_commitment: self.output_commitment,
            binding: self.binding,
            nullifier: self.nullifier,
        }
    }

    /// The private half of the request.
    pub fn private_witness(&self) -> (witness: PrivateWitness)
        ensures
            witness == self.spec_private_witness(),
    {
        PrivateWitness { output: self.output, salt: self.salt, agent_secret: self.agent_secret }
    }

    /// The request is consistent: its public fields are those its witness determines.
    pub open spec fn is_consistent(self) -> bool {
        journal_matches_witness(self.spec_journal_fields(), self.spec_private_witness())
    }
}

/// The message of the first check that a journal fails against a witness.
pub open spec fn validation_failure_message(f: JournalFields, w: PrivateWitness) -> Seq<char> {
    if all_zero(w.salt@) {
        "salt must be non-zero"@
    } else if f.constraint_hash@ != derived_constraint_hash(w) {
        "constraint_hash does not match derived value"@
    } else if f.output_commitment@ != derived_output_commitment(w) {
        "output_commitment does not match derived value"@
    } else if f.binding@ != derived_binding(f, w) {
        "binding does not match derived value"@
    } else {
        "nullifier does not match derived value"@
    }
}

/// The guidance returned where this build cannot generate proofs.
pub open spec fn prover_unavailable_message() -> Seq<char> {
    "proof generation requires building with --features production-prover"@
}

impl ProveError {
    /// The text of the error as the service reports it.
    pub open spec fn spec_message(self) -> Seq<char> {
        match self {
            ProveError::UnexpectedJournalLength { expected, actual } =>
                "unexpected journal length: expected "@ + decimal(expected as nat) + ", got "@
                    + decimal(actual as nat),
            ProveError::UntrustedImageId { expected, actual } =>
                "compiled guest image_id does not match trusted pinned image_id: expected ["@
                    + join_decimal(expected@) + "], got ["@ + join_decimal(actual@) + "]"@,
            ProveError::DevModeEnabled { variable } => variable@
                + " is set; refusing to generate proof output"@,
            ProveError::InvalidRequest(message) => "invalid prove request: "@ + message@,
            ProveError::ProverFailed(message) => "prover failed: "@ + message@,
            ProveError::ReceiptTypeMismatch(message) => "receipt type mismatch: "@ + message@,
        }
    }

    /// The text of the error.
    pub fn to_string(&self) -> (message: String)
        ensures
            message@ == self.spec_message(),
    {
        match self {
            ProveError::UnexpectedJournalLength { expected, actual } => {
                let mut message = String::from_str("unexpected journal length: expected ");
                push_decimal(&mut message, *expected as u64);
                message.append(", got ");
                push_decimal(&mut message, *actual as u64);
                message
            },
            ProveError::UntrustedImageId { expected, actual } => {
                let mut message = String::from_str(
                    "compiled guest image_id does not match trusted pinned image_id: expected [",
                );
                push_joined_decimal(&mut message, expected);
                message.append("], got [");
                push_joined_decimal(&mut message, actual);
                message.append("]");
                message
            },
            ProveError::DevModeEnabled { variable } => {
                let mut message = String::from_str(variable);
                message.append(" is set; refusing to generate proof output");
                message
            },
            ProveError::InvalidRequest(m) => {
                let mut message = String::from_str("invalid prove request: ");
                message.append(m.as_str());
                message
            },
            ProveError::ProverFailed(m) => {
                let mut message = String::from_str("prover failed: ");
                message.append(m.as_str());
                message
            },
            ProveError::ReceiptTypeMismatch(m) => {
                let mut message = String::from_str("receipt type mismatch: ");
                message.append(m.as_str());
                message
            },
        }
    }
}

/// The image id of the guest this build proves with: the pinned one.
pub fn image_id() -> (id: ImageId)
    ensures
        id == TRUSTED_RISC0_IMAGE_ID,
{
    TRUSTED_RISC0_IMAGE_ID
}

/// The image id as the decimal bytes joined by `", "`.
pub fn render_image_id(image_id: ImageId) -> (rendered: String)
    ensures
        rendered@ == join_decimal(image_id@),
{
    let mut rendered = String::new();
    push_joined_decimal(&mut rendered, &image_id);
    assert(rendered@ =~= join_decimal(image_id@));
    rendered
}

/// The four little-endian bytes of a word.
pub open spec fn le_word_bytes(word: u32) -> Seq<u8> {
    seq![
        (word & 0xff) as u8,
        ((word >> 8u32) & 0xff) as u8,
        ((word >> 16u32) & 0xff) as u8,
        ((word >> 24u32) & 0xff) as u8,
    ]
}

/// The image id of a guest id: its eight words, each as four little-endian bytes.
pub fn guest_id_to_image_id(guest_id: &[u32; 8]) -> (image_id: ImageId)
    ensures
        forall|i: int|
            0 <= i < 8 ==> #[trigger] image_id@.subrange(4 * i, 4 * i + 4) == le_word_bytes(
                guest_id[i],
            ),
{
    let mut out = [0u8; 32];
    let mut i: usize = 0;
    while i < 8
        invariant
            i <= 8,
            forall|k: int|
                0 <= k < i ==> #[trigger] out@.subrange(4 * k, 4 * k + 4) == le_word_bytes(
                    guest_id[k],
                ),
        decreases 8 - i,
    {
        let word = guest_id[i];
        let ghost before = out@;
        out[4 * i] = (word & 0xff) as u8;
        out[4 * i + 1] = ((word >> 8) & 0xff) as u8;
        out[4 * i + 2] = ((word >> 16) & 0xff) as u8;
        out[4 * i + 3] = ((word >> 24) & 0xff) as u8;
        assert forall|k: int| 0 <= k < i + 1 implies #[trigger] out@.subrange(4 * k, 4 * k + 4)
            == le_word_bytes(guest_id[k]) by {
            if k < i {
                assert(out@.subrange(4 * k, 4 * k + 4) =~= before.subrange(4 * k, 4 * k + 4));
            } else {
                assert(out@.subrange(4 * k, 4 * k + 4) =~= le_word_bytes(guest_id[k]));
            }
        }
        i = i + 1;
    }
    out
}

/// The twelve fields written into the zkVM executor, in the order the
/// guest reads them: the six journal fields, the four output elements, the
/// salt and the agent secret.
pub open spec fn spec_executor_inputs(request: ProveRequest) -> Seq<JournalField> {
    seq![
        request.task_pda,
        request.agent_authority,
        request.constraint_hash,
        request.output_commitment,
        request.binding,
        request.nullifier,
        request.output[0],
        request.output[1],
        request.output[2],
        request.output[3],
        request.salt,
        request.agent_secret,
    ]
}

pub fn executor_inputs(request: &ProveRequest) -> (inputs: [JournalField; 12])
    ensures
        inputs@ == spec_executor_inputs(*request),
        inputs[0] == request.task_pda,
        inputs[1] == request.agent_authority,
        inputs[2] == request.constraint_hash,
        inputs[3] == request.output_commitment,
        inputs[4] == request.binding,
        inputs[5] == request.nullifier,
        inputs[6] == request.output[0],
        inputs[7] == request.output[1],
        inputs[8] == request.output[2],
        inputs[9] == request.output[3],
        inputs[10] == request.salt,
        inputs[11] == request.agent_secret,
{
    let inputs = [
        request.task_pda,
        request.agent_authority,
        request.constraint_hash,
        request.output_commitment,
        request.binding,
        request.nullifier,
        request.output[0],
        request.output[1],
        request.output[2],
        request.output[3],
        request.salt,
        request.agent_secret,
    ];
    assert(inputs@ =~= spec_executor_inputs(*request));
    inputs
}

/// Fails with `DevModeEnabled` whenever the dev-mode variable is set at all.
fn ensure_dev_mode_disabled(dev_mode_value: Option<&str>) -> (r: Result<(), ProveError>)
    ensures
        r == (if dev_mode_value is Some {
            Err(ProveError::DevModeEnabled { variable: DEV_MODE_ENV_VAR })
        } else {
            Ok(())
        }),
{
    if dev_mode_value.is_some() {
        return Err(ProveError::DevModeEnabled { variable: DEV_MODE_ENV_VAR });
    }
    Ok(())
}

/// Checks the request's journal against its witness; a mismatch becomes
/// `InvalidRequest` with the validation message.
fn validate_request_semantics(request: &ProveRequest) -> (r: Result<(), ProveError>)
    ensures
        r is Ok <==> request.is_consistent(),
        r matches Err(e) ==> e matches ProveError::InvalidRequest(m) && m@
            == validation_failure_message(
            request.spec_journal_fields(),
            request.spec_private_witness(),
        ),
{
    let fields = request.journal_fields();
    let witness = request.private_witness();
    match fields.validate_against_witness(&witness) {
        Ok(()) => Ok(()),
        Err(err) => {
            proof {
                reveal_strlit("salt");
                reveal_strlit(" must be non-zero");
                reveal_strlit("salt must be non-zero");
                assert("salt"@ + " must be non-zero"@ =~= "salt must be non-zero"@);
            }
            Err(ProveError::InvalidRequest(err.to_string()))
        },
    }
}

/// What generating a proof answers in this build, given whether the
/// dev-mode variable is set: an inconsistent request is invalid (with the
/// validation message), dev mode is refused, and otherwise this build,
/// which has no guest to prove with, answers with guidance.
pub open spec fn generation_outcome(
    request: ProveRequest,
    dev_mode_set: bool,
    r: Result<ProveResponse, ProveError>,
) -> bool {
    if !request.is_consistent() {
        r matches Err(ProveError::InvalidRequest(m)) && m@ == validation_failure_message(
            request.spec_journal_fields(),
            request.spec_private_witness(),
        )
    } else if dev_mode_set {
        r == Err::<ProveResponse, ProveError>(
            ProveError::DevModeEnabled { variable: DEV_MODE_ENV_VAR },
        )
    } else {
        r matches Err(ProveError::ProverFailed(m)) && m@ == prover_unavailable_message()
    }
}

/// Generates a proof for `request`, given the value of the dev-mode
/// variable: the request must be consistent and dev mode must be off.
pub fn generate_proof_with_dev_mode(request: &ProveRequest, dev_mode_value: Option<&str>) -> (r:
    Result<ProveResponse, ProveError>)
    ensures
        generation_outcome(*request, dev_mode_value is Some, r),
{
    match validate_request_semantics(request) {
        Ok(()) => {},
        Err(e) => return Err(e),
    }
    match ensure_dev_mode_disabled(dev_mode_value) {
        Ok(()) => {},
        Err(e) => return Err(e),
    }
    Err(
        ProveError::ProverFailed(
            String::from_str("proof generation requires building with --features production-prover"),
        ),
    )
}

/// Fails with `UntrustedImageId` unless the compiled guest's image id is the pinned one.
pub fn ensure_trusted_image_id(current_image_id: ImageId) -> (r: Result<(), ProveError>)
    ensures
        r == (if current_image_id@ == TRUSTED_RISC0_IMAGE_ID@ {
            Ok::<(), ProveError>(())
        } else {
            Err(
                ProveError::UntrustedImageId {
                    expected: TRUSTED_RISC0_IMAGE_ID,
                    actual: current_image_id,
                },
            )
        }),
{
    let mut i: usize = 0;
    while i < 32
        invariant
            i <= 32,
            forall|j: int| 0 <= j < i ==> current_image_id@[j] == TRUSTED_RISC0_IMAGE_ID@[j],
        decreases 32 - i,
    {
        if current_image_id[i] != TRUSTED_RISC0_IMAGE_ID[i] {
            return Err(
                ProveError::UntrustedImageId {
                    expected: TRUSTED_RISC0_IMAGE_ID,
                    actual: current_image_id,
                },
            );
        }
        i = i + 1;
    }
    assert(current_image_id@ =~= TRUSTED_RISC0_IMAGE_ID@);
    Ok(())
}

/// The message for a seal of the wrong length.
pub open spec fn seal_length_message(len: nat) -> Seq<char> {
    "Groth16 seal is "@ + decimal(len) + " bytes, expected "@ + decimal(SEAL_PROOF_LEN as nat)
}

pub open spec fn journal_mismatch_message() -> Seq<char> {
    "prover returned journal that does not match expected fields"@
}

/// Turns what a Groth16 receipt hands back into the response: the raw seal
/// must be 256 bytes and is encoded for the router, and the journal must be
/// exactly the serialization of the request's public fields.
pub fn assemble_proof_response(
    request: &ProveRequest,
    image_id: ImageId,
    seal: &[u8],
    journal: Vec<u8>,
) -> (r: Result<ProveResponse, ProveError>)
    ensures
        seal@.len() != SEAL_PROOF_LEN ==> (r matches Err(ProveError::ProverFailed(m)) && m@
            == seal_length_message(seal@.len())),
        seal@.len() == SEAL_PROOF_LEN && journal@.len() != JOURNAL_TOTAL_LEN ==> r
            == Err::<ProveResponse, ProveError>(
            ProveError::UnexpectedJournalLength {
                expected: JOURNAL_TOTAL_LEN,
                actual: journal@.len() as usize,
            },
        ),
        seal@.len() == SEAL_PROOF_LEN && journal@.len() == JOURNAL_TOTAL_LEN && journal@
            != request.spec_journal_fields().spec_journal() ==> (r matches Err(
            ProveError::ProverFailed(m),
        ) && m@ == journal_mismatch_message()),
        seal@.len() == SEAL_PROOF_LEN && journal@ == request.spec_journal_fields().spec_journal()
            ==> (r matches Ok(resp) && resp.seal_bytes@ == spec_encode_seal(seal@)
            && resp.journal@ == journal@ && resp.image_id == image_id),
{
    if seal.len() != SEAL_PROOF_LEN {
        let mut message = String::from_str("Groth16 seal is ");
        push_decimal(&mut message, seal.len() as u64);
        message.append(" bytes, expected ");
        push_decimal(&mut message, SEAL_PROOF_LEN as u64);
        return Err(ProveError::ProverFailed(message));
    }
    let mut raw_seal = [0u8; 256];
    let mut i: usize = 0;
    while i < 256
        invariant
            seal@.len() == 256,
            i <= 256,
            forall|j: int| 0 <= j < i ==> raw_seal@[j] == seal@[j],
        decreases 256 - i,
    {
        raw_seal[i] = seal[i];
        i = i + 1;
    }
    assert(raw_seal@ =~= seal@);
    let seal_bytes = encode_seal(&raw_seal);
    if journal.len() != JOURNAL_TOTAL_LEN {
        return Err(
            ProveError::UnexpectedJournalLength {
                expected: JOURNAL_TOTAL_LEN,
                actual: journal.len(),
            },
        );
    }
    let expected_journal = serialize_journal(&request.journal_fields());
    let mut k: usize = 0;
    while k < 192
        invariant
            journal@.len() == 192,
            seal@.len() == SEAL_PROOF_LEN,
            expected_journal@ == request.spec_journal_fields().spec_journal(),
            seal_bytes@ == spec_encode_seal(seal@),
            k <= 192,
            forall|j: int| 0 <= j < k ==> journal@[j] == expected_journal@[j],
        decreases 192 - k,
    {
        if journal[k] != expected_journal[k] {
            return Err(
                ProveError::ProverFailed(
                    String::from_str("prover returned journal that does not match expected fields"),
                ),
            );
        }
        k = k + 1;
    }
    assert(journal@ =~= expected_journal@);
    Ok(ProveResponse { seal_bytes, journal, image_id })
}

/// The guest reads the first six executor inputs as the journal, in
/// journal order, and the last six as the witness: the first six inputs,
/// laid end to end, are exactly the journal the request must produce, and
/// the rest are the output elements, the salt and the agent secret.
pub proof fn lemma_executor_inputs_match_guest(request: ProveRequest)
    ensures
        spec_executor_inputs(request).len() == 12,
        forall|i: int|
            0 <= i < 6 ==> #[trigger] spec_executor_inputs(request)[i]
                == request.spec_journal_fields().field_at(i),
        spec_executor_inputs(request)[0]@ + spec_executor_inputs(request)[1]@
            + spec_executor_inputs(request)[2]@ + spec_executor_inputs(request)[3]@
            + spec_executor_inputs(request)[4]@ + spec_executor_inputs(request)[5]@
            == request.spec_journal_fields().spec_journal(),
        forall|j: int|
            0 <= j < 4 ==> #[trigger] spec_executor_inputs(request)[6 + j]
                == request.spec_private_witness().output[j],
        spec_executor_inputs(request)[10] == request.spec_private_witness().salt,
        spec_executor_inputs(request)[11] == request.spec_private_witness().agent_secret,
        spec_executor_inputs(request)[0] == request.task_pda,
        spec_executor_inputs(request)[1] == request.agent_authority,
        spec_executor_inputs(request)[2] == request.constraint_hash,
        spec_executor_inputs(request)[3] == request.output_commitment,
        spec_executor_inputs(request)[4] == request.binding,
        spec_executor_inputs(request)[5] == request.nullifier,
        spec_executor_inputs(request)[6] == request.output[0],
        spec_executor_inputs(request)[7] == request.output[1],
        spec_executor_inputs(request)[8] == request.output[2],
        spec_executor_inputs(request)[9] == request.output[3],
        spec_executor_inputs(request)[10] == request.salt,
        spec_executor_inputs(request)[11] == request.agent_secret,
{
}

} // verus!
