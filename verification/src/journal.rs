//! The public journal of a private task completion, the private witness
//! behind it, the field-element hashing that ties the two together, and
//! the 192-byte journal layout.
use crate::bytes::{
    all_zero, be_bytes, be_value, lemma_be_bytes_len, lemma_be_bytes_of_value,
    lemma_be_value_bound, lemma_be_value_lower, lemma_be_value_of_bytes,
    lemma_be_value_zero_prefix, lemma_minimal_be_len, lemma_pow256_monotone,
    lemma_pow256_positive, pow256, zeros,
};
use crate::external::{biguint_rem_be, sha256, sha256_digest};
use vstd::prelude::*;

verus! {

pub const JOURNAL_FIELD_LEN: usize = 32;

pub const JOURNAL_FIELD_COUNT: usize = 6;

pub const OUTPUT_FIELD_COUNT: usize = 4;

pub const JOURNAL_TOTAL_LEN: usize = JOURNAL_FIELD_LEN * JOURNAL_FIELD_COUNT;

/// `b"AGENC_V2_CONSTRAINT_HASH"`
pub const CONSTRAINT_HASH_DOMAIN_TAG: [u8; 24] = [
    65, 71, 69, 78, 67, 95, 86, 50, 95, 67, 79, 78, 83, 84, 82, 65, 73, 78, 84, 95, 72, 65, 83, 72,
];

/// `b"AGENC_V2_OUTPUT_COMMITMENT"`
pub const OUTPUT_COMMITMENT_DOMAIN_TAG: [u8; 26] = [
    65, 71, 69, 78, 67, 95, 86, 50, 95, 79, 85, 84, 80, 85, 84, 95, 67, 79, 77, 77, 73, 84, 77,
    69, 78, 84,
];

/// `b"AGENC_V2_BINDING_BASE"`
pub const BINDING_BASE_DOMAIN_TAG: [u8; 21] = [
    65, 71, 69, 78, 67, 95, 86, 50, 95, 66, 73, 78, 68, 73, 78, 71, 95, 66, 65, 83, 69,
];

/// `b"AGENC_V2_BINDING"`
pub const BINDING_DOMAIN_TAG: [u8; 16] = [
    65, 71, 69, 78, 67, 95, 86, 50, 95, 66, 73, 78, 68, 73, 78, 71,
];

/// `b"AGENC_V2_NULLIFIER"`
pub const NULLIFIER_DOMAIN_TAG: [u8; 18] = [
    65, 71, 69, 78, 67, 95, 86, 50, 95, 78, 85, 76, 76, 73, 70, 73, 69, 82,
];

/// The BN254 scalar field modulus, big-endian.
pub const FIELD_MODULUS_BYTES: JournalField = [
    48, 100, 78, 114, 225, 49, 160, 41, 184, 80, 69, 182, 129, 129, 88, 93, 40, 51, 232, 72, 121,
    185, 112, 145, 67, 225, 245, 147, 240, 0, 0, 1,
];

pub type JournalField = [u8; JOURNAL_FIELD_LEN];

pub type JournalBytes = [u8; JOURNAL_TOTAL_LEN];

pub type OutputFields = [JournalField; OUTPUT_FIELD_COUNT];

/// The six public fields of a proof's journal.
#[derive(Debug, Clone, Copy, PartialEq, Eq)]
pub struct JournalFields {
    pub task_pda: JournalField,
    pub agent_authority: JournalField,
    pub constraint_hash: JournalField,
    pub output_commitment: JournalField,
    pub binding: JournalField,
    pub nullifier: JournalField,
}

/// The private inputs from which the journal's derived fields are computed.
#[derive(Debug, Clone, Copy, PartialEq, Eq)]
pub struct PrivateWitness {
    pub output: OutputFields,
    pub salt: JournalField,
    pub agent_secret: JournalField,
}

/// A field given with the wrong number of bytes.
#[derive(Debug, Clone, Copy, PartialEq, Eq)]
pub enum JournalError {
    InvalidFieldLength { field: &'static str, expected: usize, actual: usize },
}

/// Why a journal does not match a witness.
#[derive(Debug, Clone, Copy, PartialEq, Eq)]
pub enum JournalValidationError {
    ZeroField { field: &'static str },
    ConstraintHashMismatch { expected: JournalField, actual: JournalField },
    OutputCommitmentMismatch { expected: JournalField, actual: JournalField },
    BindingMismatch { expected: JournalField, actual: JournalField },
    NullifierMismatch { expected: JournalField, actual: JournalField },
}

// ---------------------------------------------------------------------------
// Field elements and the hashes into them
// ---------------------------------------------------------------------------

/// The modulus of the scalar field, as a number.
pub open spec fn field_modulus() -> nat {
    be_value(FIELD_MODULUS_BYTES@)
}

/// The canonical 32-byte big-endian field element that the bytes `x`
/// denote once reduced modulo the field modulus.
pub open spec fn reduce_to_field(x: Seq<u8>) -> Seq<u8> {
    be_bytes(be_value(x) % field_modulus(), 32)
}

/// The canonical field encodings of `values`, one after the other.
pub open spec fn normalized_concat(values: Seq<Seq<u8>>) -> Seq<u8>
    decreases values.len(),
{
    if values.len() == 0 {
        seq![]
    } else {
        normalized_concat(values.drop_last()) + reduce_to_field(values.last())
    }
}

/// SHA-256 over a domain tag followed by the canonical encodings of `values`.
pub open spec fn tagged_digest(tag: Seq<u8>, values: Seq<Seq<u8>>) -> Seq<u8> {
    sha256(tag + normalized_concat(values))
}

/// `tagged_digest` reduced into the field.
pub open spec fn hash_to_field(tag: Seq<u8>, values: Seq<Seq<u8>>) -> Seq<u8> {
    reduce_to_field(tagged_digest(tag, values))
}

/// The byte views of a sequence of fields.
pub open spec fn field_views(fields: Seq<JournalField>) -> Seq<Seq<u8>> {
    fields.map_values(|f: JournalField| f@)
}

pub open spec fn output_views(output: OutputFields) -> Seq<Seq<u8>> {
    seq![output[0]@, output[1]@, output[2]@, output[3]@]
}

/// The constraint hash of an output: a field hash of its four elements.
pub open spec fn spec_constraint_hash(output: OutputFields) -> Seq<u8> {
    hash_to_field(CONSTRAINT_HASH_DOMAIN_TAG@, output_views(output))
}

/// The output commitment: a field hash of the four output elements and the salt.
pub open spec fn spec_output_commitment(output: OutputFields, salt: Seq<u8>) -> Seq<u8> {
    hash_to_field(OUTPUT_COMMITMENT_DOMAIN_TAG@, output_views(output).push(salt))
}

/// The binding: a field hash of (a field hash of the task and the agent
/// authority) and the output commitment.
pub open spec fn spec_binding(
    task_pda: Seq<u8>,
    agent_authority: Seq<u8>,
    output_commitment: Seq<u8>,
) -> Seq<u8> {
    hash_to_field(
        BINDING_DOMAIN_TAG@,
        seq![
            hash_to_field(BINDING_BASE_DOMAIN_TAG@, seq![task_pda, agent_authority]),
            output_commitment,
        ],
    )
}

/// The nullifier: the raw (unreduced) SHA-256 over its tag and the canonical
/// encodings of the constraint hash, the output commitment and the agent secret.
pub open spec fn spec_nullifier(
    constraint_hash: Seq<u8>,
    output_commitment: Seq<u8>,
    agent_secret: Seq<u8>,
) -> Seq<u8> {
    tagged_digest(NULLIFIER_DOMAIN_TAG@, seq![constraint_hash, output_commitment, agent_secret])
}

pub proof fn lemma_field_modulus_bounds()
    ensures
        0 < field_modulus() < pow256(32),
{
    lemma_be_value_bound(FIELD_MODULUS_BYTES@);
    lemma_be_value_lower(FIELD_MODULUS_BYTES@);
    lemma_pow256_positive(31);
    assert(FIELD_MODULUS_BYTES@[0] == 48);
}

/// Appends `bytes` to `out`.
fn append_bytes(out: &mut Vec<u8>, bytes: &[u8])
    ensures
        final(out)@ == old(out)@ + bytes@,
{
    let n = bytes.len();
    let mut i: usize = 0;
    while i < n
        invariant
            n == bytes@.len(),
            i <= n,
            out@ == old(out)@ + bytes@.take(i as int),
        decreases n - i,
    {
        out.push(bytes[i]);
        i = i + 1;
        assert(bytes@.take(i as int) == bytes@.take(i - 1).push(bytes@[i - 1]));
    }
    assert(bytes@.take(n as int) == bytes@);
}

/// Left-pads a minimal big-endian encoding of at most 32 bytes with zero
/// bytes to exactly 32 bytes.
fn biguint_to_bytes32(bytes: &[u8]) -> (out: JournalField)
    requires
        bytes@.len() <= 32,
    ensures
        out@ == zeros((32 - bytes@.len()) as nat) + bytes@,
{
    let mut out = [0u8; 32];
    let len = bytes.len();
    let start = 32 - len;
    let mut i: usize = 0;
    while i < len
        invariant
            len == bytes@.len(),
            len <= 32,
            start == 32 - len,
            i <= len,
            forall|j: int| 0 <= j < start ==> out@[j] == 0,
            forall|j: int| 0 <= j < i ==> out@[start + j] == bytes@[j],
        decreases len - i,
    {
        out[start + i] = bytes[i];
        i = i + 1;
    }
    assert(out@ =~= zeros((32 - len) as nat) + bytes@);
    out
}

/// Reduces the big-endian number `digest` into the field and returns its
/// canonical 32-byte encoding.
pub fn digest_to_field_bytes(digest: &[u8]) -> (out: JournalField)
    ensures
        out@ == reduce_to_field(digest@),
{
    proof {
        lemma_field_modulus_bounds();
    }
    let reduced = biguint_rem_be(digest, &FIELD_MODULUS_BYTES);
    proof {
        lemma_minimal_be_len(reduced@, 32);
    }
    let out = biguint_to_bytes32(reduced.as_slice());
    proof {
        lemma_be_value_zero_prefix((32 - reduced@.len()) as nat, reduced@);
        lemma_be_bytes_of_value(out@);
    }
    out
}

/// The canonical field encoding of a journal field.
pub fn normalize_field_bytes(value: &JournalField) -> (out: JournalField)
    ensures
        out@ == reduce_to_field(value@),
{
    digest_to_field_bytes(value)
}

/// SHA-256 over `domain_tag` followed by the canonical field encoding of
/// each of `values`.
fn hash_normalized_fields(domain_tag: &[u8], values: &[JournalField]) -> (digest: [u8; 32])
    ensures
        digest@ == tagged_digest(domain_tag@, field_views(values@)),
{
    let mut message: Vec<u8> = Vec::new();
    append_bytes(&mut message, domain_tag);
    let n = values.len();
    let mut i: usize = 0;
    while i < n
        invariant
            n == values@.len(),
            i <= n,
            message@ == domain_tag@ + normalized_concat(field_views(values@.take(i as int))),
        decreases n - i,
    {
        let normalized = normalize_field_bytes(&values[i]);
        append_bytes(&mut message, &normalized);
        proof {
            let prev = field_views(values@.take(i as int));
            let next = field_views(values@.take(i + 1));
            assert(next.drop_last() =~= prev);
            assert(next.last() == values@[i as int]@);
        }
        i = i + 1;
    }
    assert(values@.take(n as int) =~= values@);
    sha256_digest(message.as_slice())
}

/// `hash_normalized_fields` reduced into the field.
fn hash_fields_to_field(domain_tag: &[u8], values: &[JournalField]) -> (out: JournalField)
    ensures
        out@ == hash_to_field(domain_tag@, field_views(values@)),
{
    let digest = hash_normalized_fields(domain_tag, values);
    digest_to_field_bytes(&digest)
}

/// The constraint hash of `output`.
pub fn compute_constraint_hash(output: &OutputFields) -> (hash: JournalField)
    ensures
        hash@ == spec_constraint_hash(*output),
{
    let values: &[JournalField] = output;
    assert(field_views(values@) =~= output_views(*output));
    hash_fields_to_field(&CONSTRAINT_HASH_DOMAIN_TAG, values)
}

/// The commitment to `output` under `salt`.
pub fn compute_output_commitment(output: &OutputFields, salt: &JournalField) -> (commitment:
    JournalField)
    ensures
        commitment@ == spec_output_commitment(*output, salt@),
{
    let values: [JournalField; 5] = [output[0], output[1], output[2], output[3], *salt];
    assert(field_views(values@) =~= output_views(*output).push(salt@));
    hash_fields_to_field(&OUTPUT_COMMITMENT_DOMAIN_TAG, &values)
}

/// The binding of a task and an agent authority to an output commitment.
pub fn compute_binding(
    task_pda: &JournalField,
    agent_authority: &JournalField,
    output_commitment: &JournalField,
) -> (binding: JournalField)
    ensures
        binding@ == spec_binding(task_pda@, agent_authority@, output_commitment@),
        binding@ == spec_binding(
            reduce_to_field(task_pda@),
            reduce_to_field(agent_authority@),
            reduce_to_field(output_commitment@),
        ),
{
    proof {
        lemma_binding_reads_field_elements(task_pda@, agent_authority@, output_commitment@);
    }
    let base_values: [JournalField; 2] = [*task_pda, *agent_authority];
    assert(field_views(base_values@) =~= seq![task_pda@, agent_authority@]);
    let binding_base = hash_fields_to_field(&BINDING_BASE_DOMAIN_TAG, &base_values);
    let values: [JournalField; 2] = [binding_base, *output_commitment];
    assert(field_views(values@) =~= seq![binding_base@, output_commitment@]);
    hash_fields_to_field(&BINDING_DOMAIN_TAG, &values)
}

/// The nullifier derived from a constraint hash, an output commitment and
/// the agent's secret.
pub fn compute_nullifier_from_agent_secret(
    constraint_hash: &JournalField,
    output_commitment: &JournalField,
    agent_secret: &JournalField,
) -> (nullifier: JournalField)
    ensures
        nullifier@ == spec_nullifier(constraint_hash@, output_commitment@, agent_secret@),
{
    let values: [JournalField; 3] = [*constraint_hash, *output_commitment, *agent_secret];
    assert(field_views(values@) =~= seq![constraint_hash@, output_commitment@, agent_secret@]);
    hash_normalized_fields(&NULLIFIER_DOMAIN_TAG, &values)
}

} // verus!

verus! {

// ---------------------------------------------------------------------------
// Reading fields from byte slices
// ---------------------------------------------------------------------------

/// The outcome of checking, in order from position `i` on, that each of
/// `lens` is a field length: the first wrong length, with the name given for it.
pub open spec fn check_field_lengths(names: Seq<&'static str>, lens: Seq<usize>, i: int) -> Result<
    (),
    JournalError,
>
    decreases lens.len() - i,
{
    if i < 0 || i >= lens.len() {
        Ok(())
    } else if lens[i] != 32 {
        Err(JournalError::InvalidFieldLength { field: names[i], expected: 32, actual: lens[i] })
    } else {
        check_field_lengths(names, lens, i + 1)
    }
}

pub open spec fn journal_field_names() -> Seq<&'static str> {
    seq!["task_pda", "agent_authority", "constraint_hash", "output_commitment", "binding", "nullifier"]
}

pub open spec fn witness_field_names() -> Seq<&'static str> {
    seq!["output[0]", "output[1]", "output[2]", "output[3]", "salt", "agent_secret"]
}

/// Copies a slice of exactly one field's length into a field.
fn copy_field(field: &'static str, value: &[u8]) -> (r: Result<JournalField, JournalError>)
    ensures
        value@.len() == 32 ==> (r matches Ok(out) && out@ == value@),
        value@.len() != 32 ==> r == Err::<JournalField, JournalError>(
            JournalError::InvalidFieldLength { field, expected: 32, actual: value.len() },
        ),
{
    if value.len() != JOURNAL_FIELD_LEN {
        return Err(
            JournalError::InvalidFieldLength {
                field,
                expected: JOURNAL_FIELD_LEN,
                actual: value.len(),
            },
        );
    }
    let mut out = [0u8; 32];
    let mut i: usize = 0;
    while i < 32
        invariant
            value@.len() == 32,
            i <= 32,
            forall|j: int| 0 <= j < i ==> out@[j] == value@[j],
        decreases 32 - i,
    {
        out[i] = value[i];
        i = i + 1;
    }
    assert(out@ =~= value@);
    Ok(out)
}

impl JournalFields {
    /// Builds the journal fields from six slices, failing on the first
    /// slice that is not exactly one field long.
    pub fn try_from_slices(
        task_pda: &[u8],
        agent_authority: &[u8],
        constraint_hash: &[u8],
        output_commitment: &[u8],
        binding: &[u8],
        nullifier: &[u8],
    ) -> (r: Result<Self, JournalError>)
        ensures
            ({
                let check = check_field_lengths(
                    journal_field_names(),
                    seq![
                        task_pda.len(),
                        agent_authority.len(),
                        constraint_hash.len(),
                        output_commitment.len(),
                        binding.len(),
                        nullifier.len(),
                    ],
                    0,
                );
                match r {
                    Ok(f) => check is Ok && f.task_pda@ == task_pda@ && f.agent_authority@
                        == agent_authority@ && f.constraint_hash@ == constraint_hash@
                        && f.output_commitment@ == output_commitment@ && f.binding@ == binding@
                        && f.nullifier@ == nullifier@,
                    Err(e) => check == Err::<(), JournalError>(e),
                }
            }),
    {
        proof {
            reveal_with_fuel(check_field_lengths, 7);
        }
        let task_pda = match copy_field("task_pda", task_pda) {
            Ok(f) => f,
            Err(e) => return Err(e),
        };
        let agent_authority = match copy_field("agent_authority", agent_authority) {
            Ok(f) => f,
            Err(e) => return Err(e),
        };
        let constraint_hash = match copy_field("constraint_hash", constraint_hash) {
            Ok(f) => f,
            Err(e) => return Err(e),
        };
        let output_commitment = match copy_field("output_commitment", output_commitment) {
            Ok(f) => f,
            Err(e) => return Err(e),
        };
        let binding = match copy_field("binding", binding) {
            Ok(f) => f,
            Err(e) => return Err(e),
        };
        let nullifier = match copy_field("nullifier", nullifier) {
            Ok(f) => f,
            Err(e) => return Err(e),
        };
        Ok(JournalFields {
            task_pda,
            agent_authority,
            constraint_hash,
            output_commitment,
            binding,
            nullifier,
        })
    }
}

impl PrivateWitness {
    /// Builds the witness from six slices, failing on the first slice that
    /// is not exactly one field long.
    pub fn try_from_slices(
        output_0: &[u8],
        output_1: &[u8],
        output_2: &[u8],
        output_3: &[u8],
        salt: &[u8],
        agent_secret: &[u8],
    ) -> (r: Result<Self, JournalError>)
        ensures
            ({
                let check = check_field_lengths(
                    witness_field_names(),
                    seq![
                        output_0.len(),
                        output_1.len(),
                        output_2.len(),
                        output_3.len(),
                        salt.len(),
                        agent_secret.len(),
                    ],
                    0,
                );
                match r {
                    Ok(w) => check is Ok && w.output[0]@ == output_0@ && w.output[1]@ == output_1@
                        && w.output[2]@ == output_2@ && w.output[3]@ == output_3@ && w.salt@
                        == salt@ && w.agent_secret@ == agent_secret@,
                    Err(e) => check == Err::<(), JournalError>(e),
                }
            }),
    {
        proof {
            reveal_with_fuel(check_field_lengths, 7);
        }
        let output_0 = match copy_field("output[0]", output_0) {
            Ok(f) => f,
            Err(e) => return Err(e),
        };
        let output_1 = match copy_field("output[1]", output_1) {
            Ok(f) => f,
            Err(e) => return Err(e),
        };
        let output_2 = match copy_field("output[2]", output_2) {
            Ok(f) => f,
            Err(e) => return Err(e),
        };
        let output_3 = match copy_field("output[3]", output_3) {
            Ok(f) => f,
            Err(e) => return Err(e),
        };
        let salt = match copy_field("salt", salt) {
            Ok(f) => f,
            Err(e) => return Err(e),
        };
        let agent_secret = match copy_field("agent_secret", agent_secret) {
            Ok(f) => f,
            Err(e) => return Err(e),
        };
        Ok(PrivateWitness { output: [output_0, output_1, output_2, output_3], salt, agent_secret })
    }
}

// ---------------------------------------------------------------------------
// Checking a journal against a witness
// ---------------------------------------------------------------------------

/// The fields that a witness determines, given the journal's task and
/// agent authority.
pub open spec fn derived_constraint_hash(w: PrivateWitness) -> Seq<u8> {
    spec_constraint_hash(w.output)
}

pub open spec fn derived_output_commitment(w: PrivateWitness) -> Seq<u8> {
    spec_output_commitment(w.output, w.salt@)
}

pub open spec fn derived_binding(f: JournalFields, w: PrivateWitness) -> Seq<u8> {
    spec_binding(f.task_pda@, f.agent_authority@, derived_output_commitment(w))
}

pub open spec fn derived_nullifier(w: PrivateWitness) -> Seq<u8> {
    spec_nullifier(derived_constraint_hash(w), derived_output_commitment(w), w.agent_secret@)
}

/// A journal matches a witness: the salt is not zero and each derived
/// field is the one that the witness determines.
pub open spec fn journal_matches_witness(f: JournalFields, w: PrivateWitness) -> bool {
    &&& !all_zero(w.salt@)
    &&& f.constraint_hash@ == derived_constraint_hash(w)
    &&& f.output_commitment@ == derived_output_commitment(w)
    &&& f.binding@ == derived_binding(f, w)
    &&& f.nullifier@ == derived_nullifier(w)
}

/// Whether two fields hold the same bytes.
fn fields_equal(a: &JournalField, b: &JournalField) -> (equal: bool)
    ensures
        equal == (a@ == b@),
{
    let mut i: usize = 0;
    while i < 32
        invariant
            i <= 32,
            forall|j: int| 0 <= j < i ==> a@[j] == b@[j],
        decreases 32 - i,
    {
        if a[i] != b[i] {
            return false;
        }
        i = i + 1;
    }
    assert(a@ =~= b@);
    true
}

/// Fails with `ZeroField` when every byte of `value` is zero.
fn require_non_zero(field: &'static str, value: &JournalField) -> (r: Result<(), JournalValidationError>)
    ensures
        r == (if all_zero(value@) {
            Err(JournalValidationError::ZeroField { field })
        } else {
            Ok(())
        }),
{
    let mut i: usize = 0;
    while i < 32
        invariant
            i <= 32,
            forall|j: int| 0 <= j < i ==> value@[j] == 0,
        decreases 32 - i,
    {
        if value[i] != 0 {
            return Ok(());
        }
        i = i + 1;
    }
    Err(JournalValidationError::ZeroField { field })
}

impl JournalFields {
    /// Checks the journal against the witness: the salt must not be zero,
    /// and the constraint hash, output commitment, binding and nullifier
    /// must each be the value derived from the witness. The first failing
    /// check, in that order, is reported with the derived and the given value.
    pub fn validate_against_witness(&self, witness: &PrivateWitness) -> (r: Result<
        (),
        JournalValidationError,
    >)
        ensures
            r is Ok <==> journal_matches_witness(*self, *witness),
            match r {
                Ok(_) => true,
                Err(JournalValidationError::ZeroField { field }) => all_zero(witness.salt@) && field
                    == "salt",
                Err(JournalValidationError::ConstraintHashMismatch { expected, actual }) => {
                    &&& !all_zero(witness.salt@)
                    &&& expected@ == derived_constraint_hash(*witness)
                    &&& actual == self.constraint_hash
                    &&& actual@ != expected@
                },
                Err(JournalValidationError::OutputCommitmentMismatch { expected, actual }) => {
                    &&& !all_zero(witness.salt@)
                    &&& self.constraint_hash@ == derived_constraint_hash(*witness)
                    &&& expected@ == derived_output_commitment(*witness)
                    &&& actual == self.output_commitment
                    &&& actual@ != expected@
                },
                Err(JournalValidationError::BindingMismatch { expected, actual }) => {
                    &&& !all_zero(witness.salt@)
                    &&& self.constraint_hash@ == derived_constraint_hash(*witness)
                    &&& self.output_commitment@ == derived_output_commitment(*witness)
                    &&& expected@ == derived_binding(*self, *witness)
                    &&& actual == self.binding
                    &&& actual@ != expected@
                },
                Err(JournalValidationError::NullifierMismatch { expected, actual }) => {
                    &&& !all_zero(witness.salt@)
                    &&& self.constraint_hash@ == derived_constraint_hash(*witness)
                    &&& self.output_commitment@ == derived_output_commitment(*witness)
                    &&& self.binding@ == derived_binding(*self, *witness)
                    &&& expected@ == derived_nullifier(*witness)
                    &&& actual == self.nullifier
                    &&& actual@ != expected@
                },
            },
    {
        match require_non_zero("salt", &witness.salt) {
            Ok(()) => {},
            Err(e) => return Err(e),
        }
        let expected_constraint_hash = compute_constraint_hash(&witness.output);
        if !fields_equal(&self.constraint_hash, &expected_constraint_hash) {
            return Err(
                JournalValidationError::ConstraintHashMismatch {
                    expected: expected_constraint_hash,
                    actual: self.constraint_hash,
                },
            );
        }
        let expected_output_commitment = compute_output_commitment(
            &witness.output,
            &witness.salt,
        );
        if !fields_equal(&self.output_commitment, &expected_output_commitment) {
            return Err(
                JournalValidationError::OutputCommitmentMismatch {
                    expected: expected_output_commitment,
                    actual: self.output_commitment,
                },
            );
        }
        let expected_binding = compute_binding(
            &self.task_pda,
            &self.agent_authority,
            &expected_output_commitment,
        );
        if !fields_equal(&self.binding, &expected_binding) {
            return Err(
                JournalValidationError::BindingMismatch {
                    expected: expected_binding,
                    actual: self.binding,
                },
            );
        }
        let expected_nullifier = compute_nullifier_from_agent_secret(
            &expected_constraint_hash,
            &expected_output_commitment,
            &witness.agent_secret,
        );
        if !fields_equal(&self.nullifier, &expected_nullifier) {
            return Err(
                JournalValidationError::NullifierMismatch {
                    expected: expected_nullifier,
                    actual: self.nullifier,
                },
            );
        }
        Ok(())
    }
}

// ---------------------------------------------------------------------------
// Messages
// ---------------------------------------------------------------------------

impl JournalValidationError {
    /// The text of the error as the service reports it.
    pub open spec fn spec_message(self) -> Seq<char> {
        match self {
            JournalValidationError::ZeroField { field } => field@ + " must be non-zero"@,
            JournalValidationError::ConstraintHashMismatch { .. } =>
                "constraint_hash does not match derived value"@,
            JournalValidationError::OutputCommitmentMismatch { .. } =>
                "output_commitment does not match derived value"@,
            JournalValidationError::BindingMismatch { .. } =>
                "binding does not match derived value"@,
            JournalValidationError::NullifierMismatch { .. } =>
                "nullifier does not match derived value"@,
        }
    }

    /// The text of the error.
    pub fn to_string(&self) -> (message: String)
        ensures
            message@ == self.spec_message(),
    {
        match self {
            JournalValidationError::ZeroField { field } => {
                let mut message = String::from_str(field);
                message.append(" must be non-zero");
                message
            },
            JournalValidationError::ConstraintHashMismatch { .. } => String::from_str(
                "constraint_hash does not match derived value",
            ),
            JournalValidationError::OutputCommitmentMismatch { .. } => String::from_str(
                "output_commitment does not match derived value",
            ),
            JournalValidationError::BindingMismatch { .. } => String::from_str(
                "binding does not match derived value",
            ),
            JournalValidationError::NullifierMismatch { .. } => String::from_str(
                "nullifier does not match derived value",
            ),
        }
    }
}

// ---------------------------------------------------------------------------
// The journal layout
// ---------------------------------------------------------------------------

impl JournalFields {
    /// The `i`-th field in journal order.
    pub open spec fn field_at(self, i: int) -> JournalField {
        if i == 0 {
            self.task_pda
        } else if i == 1 {
            self.agent_authority
        } else if i == 2 {
            self.constraint_hash
        } else if i == 3 {
            self.output_commitment
        } else if i == 4 {
            self.binding
        } else {
            self.nullifier
        }
    }

    /// The journal: the six fields, 32 bytes each, in journal order.
    pub open spec fn spec_journal(self) -> Seq<u8> {
        self.task_pda@ + self.agent_authority@ + self.constraint_hash@ + self.output_commitment@
            + self.binding@ + self.nullifier@
    }

    /// Serializes the fields into the 192-byte journal.
    pub fn to_bytes(&self) -> (out: JournalBytes)
        ensures
            out@ == self.spec_journal(),
    {
        let mut out = [0u8; 192];
        write_field(&mut out, 0, &self.task_pda);
        write_field(&mut out, 32, &self.agent_authority);
        write_field(&mut out, 64, &self.constraint_hash);
        write_field(&mut out, 96, &self.output_commitment);
        write_field(&mut out, 128, &self.binding);
        write_field(&mut out, 160, &self.nullifier);
        assert(out@ =~= self.spec_journal());
        out
    }
}

/// Writes `field` into `out` at `offset`.
fn write_field(out: &mut JournalBytes, offset: usize, field: &JournalField)
    requires
        offset + 32 <= 192,
    ensures
        forall|j: int|
            0 <= j < 192 ==> final(out)@[j] == if offset <= j < offset + 32 {
                field@[j - offset]
            } else {
                old(out)@[j]
            },
{
    let mut i: usize = 0;
    while i < 32
        invariant
            offset + 32 <= 192,
            i <= 32,
            forall|j: int|
                0 <= j < 192 ==> out@[j] == if offset <= j < offset + i {
                    field@[j - offset]
                } else {
                    old(out)@[j]
                },
        decreases 32 - i,
    {
        out[offset + i] = field[i];
        i = i + 1;
    }
}

/// Serializes the fields into the 192-byte journal.
pub fn serialize_journal(fields: &JournalFields) -> (out: JournalBytes)
    ensures
        out@ == fields.spec_journal(),
{
    fields.to_bytes()
}

// ---------------------------------------------------------------------------
// The guest program
// ---------------------------------------------------------------------------

/// What the zkVM guest commits for a journal and a witness: the serialized
/// journal when the journal matches the witness, and otherwise the
/// validation error that aborts the guest.
pub fn guest_journal(fields: &JournalFields, witness: &PrivateWitness) -> (r: Result<
    JournalBytes,
    JournalValidationError,
>)
    ensures
        r is Ok <==> journal_matches_witness(*fields, *witness),
        r matches Ok(bytes) ==> bytes@ == fields.spec_journal(),
{
    match fields.validate_against_witness(witness) {
        Ok(()) => Ok(serialize_journal(fields)),
        Err(e) => Err(e),
    }
}

// ---------------------------------------------------------------------------
// Laws
// ---------------------------------------------------------------------------

/// The journal is 192 bytes, and its `i`-th 32-byte chunk is the `i`-th
/// field: cutting a serialized journal into six chunks gives the fields back.
pub proof fn lemma_journal_chunks(fields: JournalFields)
    ensures
        fields.spec_journal().len() == JOURNAL_TOTAL_LEN,
        forall|i: int|
            0 <= i < 6 ==> #[trigger] fields.spec_journal().subrange(32 * i, 32 * i + 32)
                == fields.field_at(i)@,
{
    let s = fields.spec_journal();
    assert forall|i: int| 0 <= i < 6 implies #[trigger] s.subrange(32 * i, 32 * i + 32)
        == fields.field_at(i)@ by {
        assert(s.subrange(32 * i, 32 * i + 32) =~= fields.field_at(i)@);
    }
}

/// Two journals with the same bytes have the same fields.
pub proof fn lemma_journal_injective(a: JournalFields, b: JournalFields)
    requires
        a.spec_journal() == b.spec_journal(),
    ensures
        a == b,
{
    lemma_journal_chunks(a);
    lemma_journal_chunks(b);
    assert forall|i: int| 0 <= i < 6 implies a.field_at(i)@ == b.field_at(i)@ by {
        assert(a.spec_journal().subrange(32 * i, 32 * i + 32) == a.field_at(i)@);
        assert(b.spec_journal().subrange(32 * i, 32 * i + 32) == b.field_at(i)@);
    }
    assert(a.task_pda@ == b.task_pda@ && a.agent_authority@ == b.agent_authority@) by {
        assert(a.field_at(0)@ == b.field_at(0)@);
        assert(a.field_at(1)@ == b.field_at(1)@);
    }
    assert(a.constraint_hash@ == b.constraint_hash@ && a.output_commitment@
        == b.output_commitment@) by {
        assert(a.field_at(2)@ == b.field_at(2)@);
        assert(a.field_at(3)@ == b.field_at(3)@);
    }
    assert(a.binding@ == b.binding@ && a.nullifier@ == b.nullifier@) by {
        assert(a.field_at(4)@ == b.field_at(4)@);
        assert(a.field_at(5)@ == b.field_at(5)@);
    }
    lemma_array_view_injective(a.task_pda, b.task_pda);
    lemma_array_view_injective(a.agent_authority, b.agent_authority);
    lemma_array_view_injective(a.constraint_hash, b.constraint_hash);
    lemma_array_view_injective(a.output_commitment, b.output_commitment);
    lemma_array_view_injective(a.binding, b.binding);
    lemma_array_view_injective(a.nullifier, b.nullifier);
}

proof fn lemma_array_view_injective(a: JournalField, b: JournalField)
    requires
        a@ == b@,
    ensures
        a == b,
{
    assert forall|i: int| 0 <= i < 32 implies a[i] == b[i] by {
        assert(a@[i] == b@[i]);
    }
    assert(a =~= b);
}

/// A journal whose derived fields are computed from a witness with a
/// non-zero salt matches that witness, whatever its task and agent authority.
pub proof fn lemma_derived_journal_matches(fields: JournalFields, witness: PrivateWitness)
    requires
        !all_zero(witness.salt@),
        fields.constraint_hash@ == spec_constraint_hash(witness.output),
        fields.output_commitment@ == spec_output_commitment(witness.output, witness.salt@),
        fields.binding@ == spec_binding(
            fields.task_pda@,
            fields.agent_authority@,
            fields.output_commitment@,
        ),
        fields.nullifier@ == spec_nullifier(
            fields.constraint_hash@,
            fields.output_commitment@,
            witness.agent_secret@,
        ),
    ensures
        journal_matches_witness(fields, witness),
{
}

/// Every derived field is a canonical field element: 32 bytes whose value
/// is below the field modulus. The nullifier, a raw digest, is 32 bytes.
pub proof fn lemma_hash_to_field_canonical(tag: Seq<u8>, values: Seq<Seq<u8>>)
    ensures
        hash_to_field(tag, values).len() == 32,
        be_value(hash_to_field(tag, values)) < field_modulus(),
{
    lemma_field_modulus_bounds();
    let v = be_value(tagged_digest(tag, values)) % field_modulus();
    lemma_be_bytes_len(v, 32);
    lemma_pow256_monotone(0, 32);
    lemma_be_value_of_bytes(v, 32);
}

/// Reducing a field element that is already canonical (32 bytes, below the
/// modulus) gives it back unchanged.
pub proof fn lemma_reduce_canonical(x: Seq<u8>)
    requires
        x.len() == 32,
        be_value(x) < field_modulus(),
    ensures
        reduce_to_field(x) == x,
{
    vstd::arithmetic::div_mod::lemma_small_mod(be_value(x), field_modulus());
    lemma_be_bytes_of_value(x);
}

/// Reducing into the field twice is reducing once.
pub proof fn lemma_reduce_idempotent(x: Seq<u8>)
    ensures
        reduce_to_field(reduce_to_field(x)) == reduce_to_field(x),
{
    lemma_field_modulus_bounds();
    let v = be_value(x) % field_modulus();
    lemma_pow256_monotone(0, 32);
    lemma_be_value_of_bytes(v, 32);
    vstd::arithmetic::div_mod::lemma_small_mod(v, field_modulus());
}

/// The canonical encodings of already reduced inputs are those of the inputs.
proof fn lemma_normalized_concat_of_reduced(values: Seq<Seq<u8>>)
    ensures
        normalized_concat(values.map_values(|v: Seq<u8>| reduce_to_field(v))) == normalized_concat(
            values,
        ),
    decreases values.len(),
{
    if values.len() > 0 {
        let reduced = values.map_values(|v: Seq<u8>| reduce_to_field(v));
        assert(reduced.drop_last() =~= values.drop_last().map_values(
            |v: Seq<u8>| reduce_to_field(v),
        ));
        lemma_normalized_concat_of_reduced(values.drop_last());
        lemma_reduce_idempotent(values.last());
    }
}

/// Field hashes read their inputs as field elements: replacing any input by
/// its reduction modulo the field modulus does not change the hash.
pub proof fn lemma_hash_reads_field_elements(tag: Seq<u8>, values: Seq<Seq<u8>>)
    ensures
        tagged_digest(tag, values.map_values(|v: Seq<u8>| reduce_to_field(v))) == tagged_digest(
            tag,
            values,
        ),
        hash_to_field(tag, values.map_values(|v: Seq<u8>| reduce_to_field(v))) == hash_to_field(
            tag,
            values,
        ),
{
    lemma_normalized_concat_of_reduced(values);
}

/// The binding reads the task, the agent authority and the output
/// commitment as field elements: a task address above the field modulus
/// binds exactly as its reduction does.
pub proof fn lemma_binding_reads_field_elements(
    task_pda: Seq<u8>,
    agent_authority: Seq<u8>,
    output_commitment: Seq<u8>,
)
    ensures
        spec_binding(task_pda, agent_authority, output_commitment) == spec_binding(
            reduce_to_field(task_pda),
            reduce_to_field(agent_authority),
            reduce_to_field(output_commitment),
        ),
{
    let base_in = seq![task_pda, agent_authority];
    assert(base_in.map_values(|v: Seq<u8>| reduce_to_field(v)) =~= seq![
        reduce_to_field(task_pda),
        reduce_to_field(agent_authority),
    ]);
    lemma_hash_reads_field_elements(BINDING_BASE_DOMAIN_TAG@, base_in);
    let base = hash_to_field(BINDING_BASE_DOMAIN_TAG@, base_in);
    let outer = seq![base, output_commitment];
    assert(outer.map_values(|v: Seq<u8>| reduce_to_field(v)) =~= seq![
        reduce_to_field(base),
        reduce_to_field(output_commitment),
    ]);
    lemma_hash_reads_field_elements(BINDING_DOMAIN_TAG@, outer);
    lemma_reduce_idempotent(tagged_digest(BINDING_BASE_DOMAIN_TAG@, base_in));
    let outer2 = seq![base, reduce_to_field(output_commitment)];
    assert(outer2.map_values(|v: Seq<u8>| reduce_to_field(v)) =~= seq![
        reduce_to_field(base),
        reduce_to_field(reduce_to_field(output_commitment)),
    ]);
    lemma_reduce_idempotent(output_commitment);
    lemma_hash_reads_field_elements(BINDING_DOMAIN_TAG@, outer2);
}

/// The constraint hash, the output commitment and the nullifier read their
/// inputs as field elements too.
pub proof fn lemma_commitments_read_field_elements(
    output: OutputFields,
    salt: Seq<u8>,
    constraint_hash: Seq<u8>,
    output_commitment: Seq<u8>,
    agent_secret: Seq<u8>,
)
    ensures
        spec_output_commitment(output, salt) == hash_to_field(
            OUTPUT_COMMITMENT_DOMAIN_TAG@,
            seq![
                reduce_to_field(output[0]@),
                reduce_to_field(output[1]@),
                reduce_to_field(output[2]@),
                reduce_to_field(output[3]@),
                reduce_to_field(salt),
            ],
        ),
        spec_constraint_hash(output) == hash_to_field(
            CONSTRAINT_HASH_DOMAIN_TAG@,
            seq![
                reduce_to_field(output[0]@),
                reduce_to_field(output[1]@),
                reduce_to_field(output[2]@),
                reduce_to_field(output[3]@),
            ],
        ),
        spec_nullifier(constraint_hash, output_commitment, agent_secret) == spec_nullifier(
            reduce_to_field(constraint_hash),
            reduce_to_field(output_commitment),
            reduce_to_field(agent_secret),
        ),
{
    let oc_in = output_views(output).push(salt);
    assert(oc_in.map_values(|v: Seq<u8>| reduce_to_field(v)) =~= seq![
        reduce_to_field(output[0]@),
        reduce_to_field(output[1]@),
        reduce_to_field(output[2]@),
        reduce_to_field(output[3]@),
        reduce_to_field(salt),
    ]);
    lemma_hash_reads_field_elements(OUTPUT_COMMITMENT_DOMAIN_TAG@, oc_in);
    let ch_in = output_views(output);
    assert(ch_in.map_values(|v: Seq<u8>| reduce_to_field(v)) =~= seq![
        reduce_to_field(output[0]@),
        reduce_to_field(output[1]@),
        reduce_to_field(output[2]@),
        reduce_to_field(output[3]@),
    ]);
    lemma_hash_reads_field_elements(CONSTRAINT_HASH_DOMAIN_TAG@, ch_in);
    let n_in = seq![constraint_hash, output_commitment, agent_secret];
    assert(n_in.map_values(|v: Seq<u8>| reduce_to_field(v)) =~= seq![
        reduce_to_field(constraint_hash),
        reduce_to_field(output_commitment),
        reduce_to_field(agent_secret),
    ]);
    lemma_hash_reads_field_elements(NULLIFIER_DOMAIN_TAG@, n_in);
}

/// The derived fields in closed form, over SHA-256 and reduction modulo the
/// field modulus alone: each input is reduced to its 32-byte field element,
/// the elements are hashed after the domain tag in the order given, and the
/// digest is reduced (except for the nullifier, which is the raw digest).
pub proof fn lemma_commitments_closed_form(
    output: OutputFields,
    salt: Seq<u8>,
    task_pda: Seq<u8>,
    agent_authority: Seq<u8>,
    constraint_hash: Seq<u8>,
    output_commitment: Seq<u8>,
    agent_secret: Seq<u8>,
)
    ensures
        spec_constraint_hash(output) == be_bytes(be_value(sha256(CONSTRAINT_HASH_DOMAIN_TAG@ + be_bytes(be_value(output[0]@) % field_modulus(), 32) + be_bytes(be_value(output[1]@) % field_modulus(), 32) + be_bytes(be_value(output[2]@) % field_modulus(), 32) + be_bytes(be_value(output[3]@) % field_modulus(), 32))) % field_modulus(), 32),
        spec_output_commitment(output, salt) == be_bytes(be_value(sha256(OUTPUT_COMMITMENT_DOMAIN_TAG@ + be_bytes(be_value(output[0]@) % field_modulus(), 32) + be_bytes(be_value(output[1]@) % field_modulus(), 32) + be_bytes(be_value(output[2]@) % field_modulus(), 32) + be_bytes(be_value(output[3]@) % field_modulus(), 32) + be_bytes(be_value(salt) % field_modulus(), 32))) % field_modulus(), 32),
        spec_binding(task_pda, agent_authority, output_commitment) == be_bytes(be_value(sha256(BINDING_DOMAIN_TAG@ + be_bytes(be_value(be_bytes(be_value(sha256(BINDING_BASE_DOMAIN_TAG@ + be_bytes(be_value(task_pda) % field_modulus(), 32) + be_bytes(be_value(agent_authority) % field_modulus(), 32))) % field_modulus(), 32)) % field_modulus(), 32) + be_bytes(be_value(output_commitment) % field_modulus(), 32))) % field_modulus(), 32),
        spec_nullifier(constraint_hash, output_commitment, agent_secret) == sha256(NULLIFIER_DOMAIN_TAG@ + be_bytes(be_value(constraint_hash) % field_modulus(), 32) + be_bytes(be_value(output_commitment) % field_modulus(), 32) + be_bytes(be_value(agent_secret) % field_modulus(), 32)),
{
    reveal_with_fuel(normalized_concat, 6);
    let ch_in = output_views(output);
    assert(CONSTRAINT_HASH_DOMAIN_TAG@ + normalized_concat(ch_in) =~= CONSTRAINT_HASH_DOMAIN_TAG@
        + reduce_to_field(output[0]@) + reduce_to_field(output[1]@) + reduce_to_field(output[2]@)
        + reduce_to_field(output[3]@)) by {
        assert(ch_in.drop_last().drop_last().drop_last().drop_last() =~= Seq::<Seq<u8>>::empty());
    }
    let oc_in = output_views(output).push(salt);
    assert(OUTPUT_COMMITMENT_DOMAIN_TAG@ + normalized_concat(oc_in) =~= OUTPUT_COMMITMENT_DOMAIN_TAG@
        + reduce_to_field(output[0]@) + reduce_to_field(output[1]@) + reduce_to_field(output[2]@)
        + reduce_to_field(output[3]@) + reduce_to_field(salt)) by {
        assert(oc_in.drop_last() =~= ch_in);
        assert(ch_in.drop_last().drop_last().drop_last().drop_last() =~= Seq::<Seq<u8>>::empty());
    }
    let base_in = seq![task_pda, agent_authority];
    assert(BINDING_BASE_DOMAIN_TAG@ + normalized_concat(base_in) =~= BINDING_BASE_DOMAIN_TAG@
        + reduce_to_field(task_pda) + reduce_to_field(agent_authority)) by {
        assert(base_in.drop_last().drop_last() =~= Seq::<Seq<u8>>::empty());
    }
    let base = hash_to_field(BINDING_BASE_DOMAIN_TAG@, base_in);
    let outer = seq![base, output_commitment];
    assert(BINDING_DOMAIN_TAG@ + normalized_concat(outer) =~= BINDING_DOMAIN_TAG@ + reduce_to_field(
        base,
    ) + reduce_to_field(output_commitment)) by {
        assert(outer.drop_last().drop_last() =~= Seq::<Seq<u8>>::empty());
    }
    let n_in = seq![constraint_hash, output_commitment, agent_secret];
    assert(NULLIFIER_DOMAIN_TAG@ + normalized_concat(n_in) =~= NULLIFIER_DOMAIN_TAG@ + reduce_to_field(
        constraint_hash,
    ) + reduce_to_field(output_commitment) + reduce_to_field(agent_secret)) by {
        assert(n_in.drop_last().drop_last().drop_last() =~= Seq::<Seq<u8>>::empty());
    }
}

} // verus!
