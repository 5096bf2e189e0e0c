//! The decisions of the proving service: request decoding, the errors it
//! answers with, authorization, configuration parsing, the execution policy
//! and the fixed-window rate limiter. The HTTP plumbing that acts on these
//! decisions lives outside the library.
use crate::journal::JournalField;
use crate::prover;
use crate::prover::ProveError;
use crate::strings::{
    ascii_lowercase, parse_u64, parse_unsigned, str_eq, str_eq_ignore_ascii_case,
    to_ascii_lowercase, trim, trim_str, IntErrorKind,
};
use crate::text::{decimal, join_decimal, push_decimal, push_joined_decimal};
use vstd::prelude::*;

verus! {

pub const FIELD_LEN: usize = 32;

pub const OUTPUT_COUNT: usize = 4;

pub const PROVER_HOST_ENV: &'static str = "PROVER_HOST";

pub const PROVER_PORT_ENV: &'static str = "PROVER_PORT";

pub const PROVER_API_KEY_ENV: &'static str = "PROVER_API_KEY";

pub const PROVER_LOCAL_DEV_MODE_ENV: &'static str = "PROVER_LOCAL_DEV_MODE";

pub const PROVER_MAX_IN_FLIGHT_ENV: &'static str = "PROVER_MAX_IN_FLIGHT";

pub const PROVER_REQUEST_TIMEOUT_SECS_ENV: &'static str = "PROVER_REQUEST_TIMEOUT_SECS";

pub const PROVER_RATE_LIMIT_MAX_REQUESTS_ENV: &'static str = "PROVER_RATE_LIMIT_MAX_REQUESTS";

pub const PROVER_RATE_LIMIT_WINDOW_SECS_ENV: &'static str = "PROVER_RATE_LIMIT_WINDOW_SECS";

pub const DEFAULT_PROVER_MAX_IN_FLIGHT: usize = 1;

pub const DEFAULT_PROVER_REQUEST_TIMEOUT_SECS: u64 = 900;

pub const DEFAULT_PROVER_RATE_LIMIT_MAX_REQUESTS: usize = 10;

pub const DEFAULT_PROVER_RATE_LIMIT_WINDOW_SECS: u64 = 60;

pub const STATUS_BAD_REQUEST: u16 = 400;

pub const STATUS_UNAUTHORIZED: u16 = 401;

pub const STATUS_TOO_MANY_REQUESTS: u16 = 429;

pub const STATUS_INTERNAL_SERVER_ERROR: u16 = 500;

pub const STATUS_SERVICE_UNAVAILABLE: u16 = 503;

pub const STATUS_GATEWAY_TIMEOUT: u16 = 504;

pub const NANOS_PER_SEC: u128 = 1_000_000_000;

// ---------------------------------------------------------------------------
// Errors answered to clients
// ---------------------------------------------------------------------------

/// An error answer: HTTP status, machine code, message, and for the
/// retryable ones the seconds after which to retry.
#[derive(Debug, Clone, PartialEq, Eq)]
pub struct AppError {
    pub status: u16,
    pub code: &'static str,
    pub message: String,
    pub retry_after_seconds: Option<u64>,
}

impl AppError {
    /// The answer has this status, code, message and retry hint.
    pub open spec fn answer_is(
        self,
        status: u16,
        code: &'static str,
        message: Seq<char>,
        retry: Option<u64>,
    ) -> bool {
        &&& self.status == status
        &&& self.code == code
        &&& self.message@ == message
        &&& self.retry_after_seconds == retry
    }

    pub fn bad_request(message: String) -> (e: Self)
        ensures
            e.answer_is(STATUS_BAD_REQUEST, "bad_request", message@, None),
    {
        AppError { status: STATUS_BAD_REQUEST, code: "bad_request", message, retry_after_seconds: None }
    }

    pub fn internal(message: String) -> (e: Self)
        ensures
            e.answer_is(STATUS_INTERNAL_SERVER_ERROR, "internal_error", message@, None),
    {
        AppError {
            status: STATUS_INTERNAL_SERVER_ERROR,
            code: "internal_error",
            message,
            retry_after_seconds: None,
        }
    }

    pub fn unauthorized(message: String) -> (e: Self)
        ensures
            e.answer_is(STATUS_UNAUTHORIZED, "unauthorized", message@, None),
    {
        AppError { status: STATUS_UNAUTHORIZED, code: "unauthorized", message, retry_after_seconds: None }
    }

    pub fn overloaded(message: String, retry_after_seconds: u64) -> (e: Self)
        ensures
            e.answer_is(STATUS_SERVICE_UNAVAILABLE, "prove_overloaded", message@, Some(retry_after_seconds)),
    {
        AppError {
            status: STATUS_SERVICE_UNAVAILABLE,
            code: "prove_overloaded",
            message,
            retry_after_seconds: Some(retry_after_seconds),
        }
    }

    pub fn too_many_requests(message: String, retry_after_seconds: u64) -> (e: Self)
        ensures
            e.answer_is(STATUS_TOO_MANY_REQUESTS, "prove_rate_limited", message@, Some(retry_after_seconds)),
    {
        AppError {
            status: STATUS_TOO_MANY_REQUESTS,
            code: "prove_rate_limited",
            message,
            retry_after_seconds: Some(retry_after_seconds),
        }
    }

    pub fn timeout(message: String, retry_after_seconds: u64) -> (e: Self)
        ensures
            e.answer_is(STATUS_GATEWAY_TIMEOUT, "prove_timeout", message@, Some(retry_after_seconds)),
    {
        AppError {
            status: STATUS_GATEWAY_TIMEOUT,
            code: "prove_timeout",
            message,
            retry_after_seconds: Some(retry_after_seconds),
        }
    }
}

/// The answer to a failed proof: an invalid request is the client's fault
/// (400, with the validation message); anything else is internal (500).
pub open spec fn error_answer(err: ProveError, e: AppError) -> bool {
    match err {
        ProveError::InvalidRequest(m) => e.answer_is(STATUS_BAD_REQUEST, "bad_request", m@, None),
        other => e.answer_is(STATUS_INTERNAL_SERVER_ERROR, "internal_error", other.spec_message(), None),
    }
}

pub fn prove_error_to_app_error(err: ProveError) -> (e: AppError)
    ensures
        error_answer(err, e),
{
    match err {
        ProveError::InvalidRequest(message) => AppError::bad_request(message),
        other => AppError::internal(other.to_string()),
    }
}

/// The answer to a finished proof: a response passes through, an error is
/// mapped by `prove_error_to_app_error`.
pub open spec fn proof_answer(
    result: Result<prover::ProveResponse, ProveError>,
    answer: Result<prover::ProveResponse, AppError>,
) -> bool {
    match result {
        Ok(response) => answer == Ok::<prover::ProveResponse, AppError>(response),
        Err(err) => answer matches Err(e) && error_answer(err, e),
    }
}

pub fn answer_prove_result(result: Result<prover::ProveResponse, ProveError>) -> (answer: Result<
    prover::ProveResponse,
    AppError,
>)
    ensures
        proof_answer(result, answer),
{
    match result {
        Ok(response) => Ok(response),
        Err(err) => Err(prove_error_to_app_error(err)),
    }
}

/// A request whose public fields do not match what its witness determines
/// is answered `400 bad_request` with the validation message, before any
/// proving; a consistent request is never answered 400 by the prover.
pub proof fn lemma_inconsistent_request_is_bad_request(
    request: prover::ProveRequest,
    dev_mode_set: bool,
    result: Result<prover::ProveResponse, ProveError>,
    answer: Result<prover::ProveResponse, AppError>,
)
    requires
        prover::generation_outcome(request, dev_mode_set, result),
        proof_answer(result, answer),
    ensures
        !request.is_consistent() ==> (answer matches Err(e) && e.status == STATUS_BAD_REQUEST
            && e.code == "bad_request" && e.message@ == prover::validation_failure_message(
            request.spec_journal_fields(),
            request.spec_private_witness(),
        )),
        request.is_consistent() ==> (answer matches Err(e) && e.status
            == STATUS_INTERNAL_SERVER_ERROR),
{
}

pub open spec fn overloaded_message(max_in_flight: nat) -> Seq<char> {
    "prover is saturated: max "@ + decimal(max_in_flight)
        + " in-flight proof request(s); queue policy is fail-fast"@
}

/// The answer when every proving slot is taken.
pub fn overloaded_error(max_in_flight: usize, retry_after_seconds: u64) -> (e: AppError)
    ensures
        e.answer_is(
            STATUS_SERVICE_UNAVAILABLE,
            "prove_overloaded",
            overloaded_message(max_in_flight as nat),
            Some(retry_after_seconds),
        ),
{
    let mut message = String::from_str("prover is saturated: max ");
    push_decimal(&mut message, max_in_flight as u64);
    message.append(" in-flight proof request(s); queue policy is fail-fast");
    AppError::overloaded(message, retry_after_seconds)
}

pub open spec fn timeout_message(request_timeout_secs: nat) -> Seq<char> {
    "proof request exceeded "@ + decimal(request_timeout_secs)
        + " seconds; retry after the current in-flight work settles"@
}

/// The answer when a proof outlives the request timeout.
pub fn timeout_error(request_timeout_secs: u64, retry_after_seconds: u64) -> (e: AppError)
    ensures
        e.answer_is(
            STATUS_GATEWAY_TIMEOUT,
            "prove_timeout",
            timeout_message(request_timeout_secs as nat),
            Some(retry_after_seconds),
        ),
{
    let mut message = String::from_str("proof request exceeded ");
    push_decimal(&mut message, request_timeout_secs);
    message.append(" seconds; retry after the current in-flight work settles");
    AppError::timeout(message, retry_after_seconds)
}

// ---------------------------------------------------------------------------
// Decoding a request
// ---------------------------------------------------------------------------

/// A `/prove` request as decoded from JSON: every field a byte list of
/// any length, and the output a list of such lists.
#[derive(Debug, Clone, PartialEq, Eq)]
pub struct ProveRequest {
    pub task_pda: Vec<u8>,
    pub agent_authority: Vec<u8>,
    pub constraint_hash: Vec<u8>,
    pub output_commitment: Vec<u8>,
    pub binding: Vec<u8>,
    pub nullifier: Vec<u8>,
    pub output: Vec<Vec<u8>>,
    pub salt: Vec<u8>,
    pub agent_secret: Vec<u8>,
}

pub open spec fn field_length_message(name: Seq<char>, len: nat) -> Seq<char> {
    name + " must be exactly 32 bytes, got "@ + decimal(len)
}

pub open spec fn output_count_message(count: nat) -> Seq<char> {
    "output must contain exactly 4 field elements, got "@ + decimal(count)
}

/// The index of the first of `lens` that is not a field length, from `i` on.
pub open spec fn first_wrong_length(lens: Seq<nat>, i: int) -> Option<int>
    decreases lens.len() - i,
{
    if i < 0 || i >= lens.len() {
        None
    } else if lens[i] != 32 {
        Some(i)
    } else {
        first_wrong_length(lens, i + 1)
    }
}

/// A byte list of exactly one field's length, as a field.
pub fn vec_to_field(name: &str, bytes: Vec<u8>) -> (r: Result<JournalField, AppError>)
    ensures
        bytes@.len() == 32 ==> (r matches Ok(f) && f@ == bytes@),
        bytes@.len() != 32 ==> (r matches Err(e) && e.answer_is(
            STATUS_BAD_REQUEST,
            "bad_request",
            field_length_message(name@, bytes@.len()),
            None,
        )),
{
    if bytes.len() != FIELD_LEN {
        let mut message = String::from_str(name);
        message.append(" must be exactly 32 bytes, got ");
        push_decimal(&mut message, bytes.len() as u64);
        return Err(AppError::bad_request(message));
    }
    let mut out = [0u8; 32];
    let mut i: usize = 0;
    while i < 32
        invariant
            bytes@.len() == 32,
            i <= 32,
            forall|j: int| 0 <= j < i ==> out@[j] == bytes@[j],
        decreases 32 - i,
    {
        out[i] = bytes[i];
        i = i + 1;
    }
    assert(out@ =~= bytes@);
    Ok(out)
}

/// Exactly four output elements, each exactly one field long.
pub fn try_into_fixed_output(output: Vec<Vec<u8>>) -> (r: Result<[JournalField; 4], AppError>)
    ensures
        output@.len() != 4 ==> (r matches Err(e) && e.answer_is(
            STATUS_BAD_REQUEST,
            "bad_request",
            output_count_message(output@.len()),
            None,
        )),
        output@.len() == 4 ==> match first_wrong_length(
            seq![
                output@[0]@.len(),
                output@[1]@.len(),
                output@[2]@.len(),
                output@[3]@.len(),
            ],
            0,
        ) {
            None => r matches Ok(f) && f[0]@ == output@[0]@ && f[1]@ == output@[1]@ && f[2]@
                == output@[2]@ && f[3]@ == output@[3]@,
            Some(i) => r matches Err(e) && e.answer_is(
                STATUS_BAD_REQUEST,
                "bad_request",
                field_length_message(output_field_names()[i], output@[i]@.len()),
                None,
            ),
        },
{
    if output.len() != OUTPUT_COUNT {
        let mut message = String::from_str("output must contain exactly 4 field elements, got ");
        push_decimal(&mut message, output.len() as u64);
        return Err(AppError::bad_request(message));
    }
    proof {
        reveal_with_fuel(first_wrong_length, 5);
        reveal_strlit("output[0]");
        reveal_strlit("output[1]");
        reveal_strlit("output[2]");
        reveal_strlit("output[3]");
    }
    let o0 = match vec_to_field("output[0]", output[0].clone()) {
        Ok(f) => f,
        Err(e) => return Err(e),
    };
    let o1 = match vec_to_field("output[1]", output[1].clone()) {
        Ok(f) => f,
        Err(e) => return Err(e),
    };
    let o2 = match vec_to_field("output[2]", output[2].clone()) {
        Ok(f) => f,
        Err(e) => return Err(e),
    };
    let o3 = match vec_to_field("output[3]", output[3].clone()) {
        Ok(f) => f,
        Err(e) => return Err(e),
    };
    Ok([o0, o1, o2, o3])
}

pub open spec fn output_field_names() -> Seq<Seq<char>> {
    seq!["output[0]"@, "output[1]"@, "output[2]"@, "output[3]"@]
}

pub open spec fn request_field_names() -> Seq<Seq<char>> {
    seq![
        "task_pda"@,
        "agent_authority"@,
        "constraint_hash"@,
        "output_commitment"@,
        "binding"@,
        "nullifier"@,
        "salt"@,
        "agent_secret"@,
    ]
}

impl ProveRequest {
    /// The lengths of the single fields, in the order they are checked.
    pub open spec fn field_lengths(self) -> Seq<nat> {
        seq![
            self.task_pda@.len(),
            self.agent_authority@.len(),
            self.constraint_hash@.len(),
            self.output_commitment@.len(),
            self.binding@.len(),
            self.nullifier@.len(),
            self.salt@.len(),
            self.agent_secret@.len(),
        ]
    }

    pub open spec fn output_lengths(self) -> Seq<nat> {
        seq![
            self.output@[0]@.len(),
            self.output@[1]@.len(),
            self.output@[2]@.len(),
            self.output@[3]@.len(),
        ]
    }

    /// The message of the first decoding failure, if any: the output count,
    /// then each output element, then each single field in order.
    pub open spec fn decode_failure(self) -> Option<Seq<char>> {
        if self.output@.len() != 4 {
            Some(output_count_message(self.output@.len()))
        } else if first_wrong_length(self.output_lengths(), 0) is Some {
            let i = first_wrong_length(self.output_lengths(), 0)->Some_0;
            Some(field_length_message(output_field_names()[i], self.output_lengths()[i]))
        } else if first_wrong_length(self.field_lengths(), 0) is Some {
            let i = first_wrong_length(self.field_lengths(), 0)->Some_0;
            Some(field_length_message(request_field_names()[i], self.field_lengths()[i]))
        } else {
            None
        }
    }

    /// The six public byte lists of the JSON request, end to end, in journal order.
    pub open spec fn wire_journal(self) -> Seq<u8> {
        self.task_pda@ + self.agent_authority@ + self.constraint_hash@ + self.output_commitment@
            + self.binding@ + self.nullifier@
    }

    /// All twelve byte lists of the JSON request in the order they appear
    /// in it: the public fields, the output elements, the salt, the secret.
    pub open spec fn wire_inputs(self) -> Seq<Seq<u8>> {
        seq![
            self.task_pda@,
            self.agent_authority@,
            self.constraint_hash@,
            self.output_commitment@,
            self.binding@,
            self.nullifier@,
            self.output@[0]@,
            self.output@[1]@,
            self.output@[2]@,
            self.output@[3]@,
            self.salt@,
            self.agent_secret@,
        ]
    }

    /// The outcome of decoding: the fixed request holding the same bytes, or
    /// 400 with the first decoding failure.
    pub open spec fn decode_outcome(self, r: Result<prover::ProveRequest, AppError>) -> bool {
        match self.decode_failure() {
            None => r matches Ok(p) && {
                &&& p.task_pda@ == self.task_pda@
                &&& p.agent_authority@ == self.agent_authority@
                &&& p.constraint_hash@ == self.constraint_hash@
                &&& p.output_commitment@ == self.output_commitment@
                &&& p.binding@ == self.binding@
                &&& p.nullifier@ == self.nullifier@
                &&& forall|i: int| 0 <= i < 4 ==> #[trigger] p.output[i]@ == self.output@[i]@
                &&& p.salt@ == self.salt@
                &&& p.agent_secret@ == self.agent_secret@
            },
            Some(m) => r matches Err(e) && e.answer_is(STATUS_BAD_REQUEST, "bad_request", m, None),
        }
    }

    /// Converts the decoded request into fixed-size fields, or answers 400
    /// with the first decoding failure.
    pub fn try_into_fixed(self) -> (r: Result<prover::ProveRequest, AppError>)
        ensures
            self.decode_outcome(r),
            r matches Ok(p) ==> p.spec_journal_fields().spec_journal() == self.wire_journal(),
            r matches Ok(p) ==> prover::spec_executor_inputs(p).map_values(|f: JournalField| f@)
                == self.wire_inputs(),
    {
        let ghost old_self = self;
        proof {
            reveal_with_fuel(first_wrong_length, 9);
            reveal_strlit("task_pda");
            reveal_strlit("agent_authority");
            reveal_strlit("constraint_hash");
            reveal_strlit("output_commitment");
            reveal_strlit("binding");
            reveal_strlit("nullifier");
            reveal_strlit("salt");
            reveal_strlit("agent_secret");
        }
        let output = match try_into_fixed_output(self.output) {
            Ok(o) => o,
            Err(e) => return Err(e),
        };
        let task_pda = match vec_to_field("task_pda", self.task_pda) {
            Ok(f) => f,
            Err(e) => return Err(e),
        };
        let agent_authority = match vec_to_field("agent_authority", self.agent_authority) {
            Ok(f) => f,
            Err(e) => return Err(e),
        };
        let constraint_hash = match vec_to_field("constraint_hash", self.constraint_hash) {
            Ok(f) => f,
            Err(e) => return Err(e),
        };
        let output_commitment = match vec_to_field("output_commitment", self.output_commitment) {
            Ok(f) => f,
            Err(e) => return Err(e),
        };
        let binding = match vec_to_field("binding", self.binding) {
            Ok(f) => f,
            Err(e) => return Err(e),
        };
        let nullifier = match vec_to_field("nullifier", self.nullifier) {
            Ok(f) => f,
            Err(e) => return Err(e),
        };
        let salt = match vec_to_field("salt", self.salt) {
            Ok(f) => f,
            Err(e) => return Err(e),
        };
        let agent_secret = match vec_to_field("agent_secret", self.agent_secret) {
            Ok(f) => f,
            Err(e) => return Err(e),
        };
        let fixed = prover::ProveRequest {
            task_pda,
            agent_authority,
            constraint_hash,
            output_commitment,
            binding,
            nullifier,
            output,
            salt,
            agent_secret,
        };
        assert forall|i: int| 0 <= i < 4 implies #[trigger] fixed.output[i]@ == old_self.output@[i]@ by {
            if i == 0 {
            } else if i == 1 {
            } else if i == 2 {
            } else {
            }
        }
        proof {
            lemma_decoded_request_keeps_fields(old_self, fixed);
        }
        Ok(fixed)
    }
}

// ---------------------------------------------------------------------------
// Configuration
// ---------------------------------------------------------------------------

/// What reading an environment variable gave.
#[derive(Debug, Clone, PartialEq, Eq)]
pub enum EnvValue {
    NotPresent,
    NotUnicode,
    Present(String),
}

pub open spec fn utf8_message(name: Seq<char>) -> Seq<char> {
    name + " must be valid UTF-8"@
}

/// A boolean switch: `1`/`true`/`yes`/`on` or `0`/`false`/`no`/`off`,
/// ignoring surrounding whitespace and ASCII case; unset means off.
pub open spec fn spec_parse_env_bool(name: Seq<char>, value: EnvValue) -> Result<bool, Seq<char>> {
    match value {
        EnvValue::NotPresent => Ok(false),
        EnvValue::NotUnicode => Err(utf8_message(name)),
        EnvValue::Present(v) => {
            let w = ascii_lowercase(trim(v@));
            if w == "1"@ || w == "true"@ || w == "yes"@ || w == "on"@ {
                Ok(true)
            } else if w == "0"@ || w == "false"@ || w == "no"@ || w == "off"@ {
                Ok(false)
            } else {
                Err("invalid "@ + name + " value "@ + str_debug(w) + "; use true/false"@)
            }
        },
    }
}

/// The `Debug` rendering of a string: quoted, with escapes.
pub uninterp spec fn str_debug(s: Seq<char>) -> Seq<char>;

/// Calls `<str as Debug>::fmt` through `format!`. Claimed: the rendering is
/// a function of the characters alone.
#[verifier::external_body]
fn debug_str(value: &str) -> (rendered: String)
    ensures
        rendered@ == str_debug(value@),
{
    format!("{value:?}")
}

fn str_is_one_of(value: &str, a: &str, b: &str, c: &str, d: &str) -> (r: bool)
    ensures
        r == (value@ == a@ || value@ == b@ || value@ == c@ || value@ == d@),
{
    str_eq(value, a) || str_eq(value, b) || str_eq(value, c) || str_eq(value, d)
}

/// Reads a boolean switch.
pub fn parse_env_bool(name: &str, value: EnvValue) -> (r: Result<bool, String>)
    ensures
        match spec_parse_env_bool(name@, value) {
            Ok(b) => r == Ok::<bool, String>(b),
            Err(m) => r matches Err(e) && e@ == m,
        },
{
    match value {
        EnvValue::NotPresent => Ok(false),
        EnvValue::NotUnicode => {
            let mut message = String::from_str(name);
            message.append(" must be valid UTF-8");
            Err(message)
        },
        EnvValue::Present(v) => {
            let lowered = to_ascii_lowercase(trim_str(v.as_str()));
            let w = lowered.as_str();
            if str_is_one_of(w, "1", "true", "yes", "on") {
                Ok(true)
            } else if str_is_one_of(w, "0", "false", "no", "off") {
                Ok(false)
            } else {
                let mut message = String::from_str("invalid ");
                message.append(name);
                message.append(" value ");
                let rendered = debug_str(w);
                message.append(rendered.as_str());
                message.append("; use true/false");
                Err(message)
            }
        },
    }
}

pub open spec fn not_a_number_message(name: Seq<char>, raw: Seq<char>, kind: IntErrorKind) -> Seq<char> {
    "invalid "@ + name + " value "@ + str_debug(raw) + ": "@ + kind.spec_message()
}

pub open spec fn zero_message(name: Seq<char>) -> Seq<char> {
    name + " must be greater than zero"@
}

/// A positive integer setting up to `max`, with a default when unset.
pub open spec fn spec_parse_nonzero(name: Seq<char>, value: EnvValue, default: nat, max: nat) -> Result<
    nat,
    Seq<char>,
> {
    match value {
        EnvValue::NotPresent => Ok(default),
        EnvValue::NotUnicode => Err(utf8_message(name)),
        EnvValue::Present(v) => match parse_unsigned(trim(v@), max) {
            Err(kind) => Err(not_a_number_message(name, v@, kind)),
            Ok(n) => if n == 0 {
                Err(zero_message(name))
            } else {
                Ok(n)
            },
        },
    }
}

fn parse_nonzero_u64_bounded(name: &str, value: EnvValue, default: u64, max: u64) -> (r: Result<
    u64,
    String,
>)
    ensures
        match spec_parse_nonzero(name@, value, default as nat, max as nat) {
            Ok(n) => r == Ok::<u64, String>(n as u64),
            Err(m) => r matches Err(e) && e@ == m,
        },
        spec_parse_nonzero(name@, value, default as nat, max as nat) matches Ok(n) ==> (n <= max
            || n == default),
{
    match value {
        EnvValue::NotPresent => Ok(default),
        EnvValue::NotUnicode => {
            let mut message = String::from_str(name);
            message.append(" must be valid UTF-8");
            Err(message)
        },
        EnvValue::Present(v) => match parse_u64(trim_str(v.as_str()), max) {
            Err(kind) => {
                let mut message = String::from_str("invalid ");
                message.append(name);
                message.append(" value ");
                let rendered = debug_str(v.as_str());
                message.append(rendered.as_str());
                message.append(": ");
                message.append(kind.message());
                Err(message)
            },
            Ok(n) => {
                if n == 0 {
                    let mut message = String::from_str(name);
                    message.append(" must be greater than zero");
                    Err(message)
                } else {
                    Ok(n)
                }
            },
        },
    }
}

/// A positive `usize` setting, with a default when unset.
pub fn parse_nonzero_usize_env(name: &str, value: EnvValue, default: usize) -> (r: Result<
    usize,
    String,
>)
    ensures
        match spec_parse_nonzero(name@, value, default as nat, usize::MAX as nat) {
            Ok(n) => r == Ok::<usize, String>(n as usize),
            Err(m) => r matches Err(e) && e@ == m,
        },
        spec_parse_nonzero(name@, value, default as nat, usize::MAX as nat) matches Ok(n) ==> n
            <= usize::MAX,
{
    match parse_nonzero_u64_bounded(name, value, default as u64, usize::MAX as u64) {
        Ok(n) => Ok(n as usize),
        Err(e) => Err(e),
    }
}

/// A positive `u64` setting, with a default when unset.
pub fn parse_nonzero_u64_env(name: &str, value: EnvValue, default: u64) -> (r: Result<u64, String>)
    ensures
        match spec_parse_nonzero(name@, value, default as nat, u64::MAX as nat) {
            Ok(n) => r == Ok::<u64, String>(n as u64),
            Err(m) => r matches Err(e) && e@ == m,
        },
        spec_parse_nonzero(name@, value, default as nat, u64::MAX as nat) matches Ok(n) ==> n
            <= u64::MAX,
{
    parse_nonzero_u64_bounded(name, value, default, u64::MAX)
}

/// The fixed-window rate limit: at most `max_requests` per `window_secs`.
#[derive(Debug, Clone, Copy, PartialEq, Eq, Structural)]
pub struct RateLimitPolicy {
    pub max_requests: usize,
    pub window_secs: u64,
}

/// How `/prove` runs: at most `max_in_flight` proofs at once, each request
/// waiting at most `request_timeout_secs`, under a rate limit.
#[derive(Debug, Clone, Copy, PartialEq, Eq, Structural)]
pub struct ExecutionPolicy {
    pub max_in_flight: usize,
    pub request_timeout_secs: u64,
    pub rate_limit: RateLimitPolicy,
}

pub fn resolve_execution_policy(
    max_in_flight: usize,
    request_timeout_secs: u64,
    rate_limit_max_requests: usize,
    rate_limit_window_secs: u64,
) -> (policy: ExecutionPolicy)
    ensures
        policy == (ExecutionPolicy {
            max_in_flight,
            request_timeout_secs,
            rate_limit: RateLimitPolicy {
                max_requests: rate_limit_max_requests,
                window_secs: rate_limit_window_secs,
            },
        }),
{
    ExecutionPolicy {
        max_in_flight,
        request_timeout_secs,
        rate_limit: RateLimitPolicy {
            max_requests: rate_limit_max_requests,
            window_secs: rate_limit_window_secs,
        },
    }
}

/// The execution policy from the four settings, each a positive number
/// with its default; the first bad setting, in this order, is reported.
pub fn execution_policy(
    max_in_flight: EnvValue,
    request_timeout_secs: EnvValue,
    rate_limit_max_requests: EnvValue,
    rate_limit_window_secs: EnvValue,
) -> (r: Result<ExecutionPolicy, String>)
    ensures
        ({
            let a = spec_parse_nonzero(PROVER_MAX_IN_FLIGHT_ENV@, max_in_flight, 1, usize::MAX as nat);
            let b = spec_parse_nonzero(
                PROVER_REQUEST_TIMEOUT_SECS_ENV@,
                request_timeout_secs,
                900,
                u64::MAX as nat,
            );
            let c = spec_parse_nonzero(
                PROVER_RATE_LIMIT_MAX_REQUESTS_ENV@,
                rate_limit_max_requests,
                10,
                usize::MAX as nat,
            );
            let d = spec_parse_nonzero(
                PROVER_RATE_LIMIT_WINDOW_SECS_ENV@,
                rate_limit_window_secs,
                60,
                u64::MAX as nat,
            );
            if a is Err {
                r matches Err(e) && e@ == a->Err_0
            } else if b is Err {
                r matches Err(e) && e@ == b->Err_0
            } else if c is Err {
                r matches Err(e) && e@ == c->Err_0
            } else if d is Err {
                r matches Err(e) && e@ == d->Err_0
            } else {
                r matches Ok(p) && p.max_in_flight == a->Ok_0 && p.request_timeout_secs == b->Ok_0
                    && p.rate_limit.max_requests == c->Ok_0 && p.rate_limit.window_secs == d->Ok_0
            }
        }),
{
    let max_in_flight = match parse_nonzero_usize_env(
        PROVER_MAX_IN_FLIGHT_ENV,
        max_in_flight,
        DEFAULT_PROVER_MAX_IN_FLIGHT,
    ) {
        Ok(n) => n,
        Err(e) => return Err(e),
    };
    let request_timeout_secs = match parse_nonzero_u64_env(
        PROVER_REQUEST_TIMEOUT_SECS_ENV,
        request_timeout_secs,
        DEFAULT_PROVER_REQUEST_TIMEOUT_SECS,
    ) {
        Ok(n) => n,
        Err(e) => return Err(e),
    };
    let rate_limit_max_requests = match parse_nonzero_usize_env(
        PROVER_RATE_LIMIT_MAX_REQUESTS_ENV,
        rate_limit_max_requests,
        DEFAULT_PROVER_RATE_LIMIT_MAX_REQUESTS,
    ) {
        Ok(n) => n,
        Err(e) => return Err(e),
    };
    let rate_limit_window_secs = match parse_nonzero_u64_env(
        PROVER_RATE_LIMIT_WINDOW_SECS_ENV,
        rate_limit_window_secs,
        DEFAULT_PROVER_RATE_LIMIT_WINDOW_SECS,
    ) {
        Ok(n) => n,
        Err(e) => return Err(e),
    };
    Ok(
        resolve_execution_policy(
            max_in_flight,
            request_timeout_secs,
            rate_limit_max_requests,
            rate_limit_window_secs,
        ),
    )
}

impl ExecutionPolicy {
    /// Clients are told to retry after the request timeout, at least one second.
    pub fn retry_after_seconds(&self) -> (secs: u64)
        ensures
            secs == if self.request_timeout_secs >= 1 {
                self.request_timeout_secs
            } else {
                1
            },
    {
        if self.request_timeout_secs >= 1 {
            self.request_timeout_secs
        } else {
            1
        }
    }
}

impl RateLimitPolicy {
    pub open spec fn window_nanos(self) -> nat {
        self.window_secs as nat * NANOS_PER_SEC as nat
    }

    /// Whole seconds left in the window after `elapsed_nanos`, at least one.
    pub open spec fn spec_retry_after(self, elapsed_nanos: nat) -> nat {
        let left = if elapsed_nanos <= self.window_nanos() {
            (self.window_nanos() - elapsed_nanos) as nat
        } else {
            0
        };
        let secs = left / NANOS_PER_SEC as nat;
        if secs >= 1 {
            secs
        } else {
            1
        }
    }

    pub fn retry_after_seconds(&self, elapsed_nanos: u128) -> (secs: u64)
        ensures
            secs == self.spec_retry_after(elapsed_nanos as nat),
    {
        let window = self.window_secs as u128 * NANOS_PER_SEC;
        let left: u128 = if elapsed_nanos <= window {
            window - elapsed_nanos
        } else {
            0
        };
        let secs = left / NANOS_PER_SEC;
        assert(secs <= self.window_secs) by (nonlinear_arith)
            requires
                secs == left / NANOS_PER_SEC,
                left <= window,
                window == self.window_secs as u128 * NANOS_PER_SEC,
                NANOS_PER_SEC == 1_000_000_000,
        ;
        if secs >= 1 {
            secs as u64
        } else {
            1
        }
    }
}

// ---------------------------------------------------------------------------
// Authorization
// ---------------------------------------------------------------------------

/// Whether `/prove` asks for a bearer token, and which.
#[derive(Debug, Clone, PartialEq, Eq)]
pub enum ProveAuth {
    Disabled,
    ApiKey(String),
}

/// The rate-limit bucket an authorized request is counted in.
#[derive(Debug, Clone, Copy, PartialEq, Eq, Structural)]
pub enum RateLimitBucket {
    LocalDev,
    Protected,
}

/// The configured API key: the variable's value trimmed, if anything is left.
pub fn normalize_api_key(value: Option<String>) -> (key: Option<String>)
    ensures
        match value {
            Some(v) => if trim(v@).len() > 0 {
                key matches Some(k) && k@ == trim(v@)
            } else {
                key is None
            },
            None => key is None,
        },
{
    match value {
        Some(v) => {
            let trimmed = String::from_str(trim_str(v.as_str()));
            if trimmed.as_str().unicode_len() == 0 {
                None
            } else {
                Some(trimmed)
            }
        },
        None => None,
    }
}

pub open spec fn public_local_dev_message() -> Seq<char> {
    "PROVER_LOCAL_DEV_MODE=true is only allowed when PROVER_HOST is loopback"@
}

pub open spec fn missing_api_key_message() -> Seq<char> {
    "PROVER_API_KEY is required unless PROVER_LOCAL_DEV_MODE=true on loopback"@
}

/// Local dev mode turns authentication off, but only on a loopback bind;
/// otherwise an API key is required.
pub fn resolve_prove_auth(bind_is_loopback: bool, local_dev_mode: bool, api_key: Option<String>) -> (r:
    Result<ProveAuth, String>)
    ensures
        local_dev_mode && !bind_is_loopback ==> (r matches Err(m) && m@ == public_local_dev_message()),
        local_dev_mode && bind_is_loopback ==> r == Ok::<ProveAuth, String>(ProveAuth::Disabled),
        !local_dev_mode && api_key is None ==> (r matches Err(m) && m@ == missing_api_key_message()),
        !local_dev_mode && api_key is Some ==> (r matches Ok(ProveAuth::ApiKey(k)) && k
            == api_key->Some_0),
{
    if local_dev_mode {
        if !bind_is_loopback {
            return Err(
                String::from_str(
                    "PROVER_LOCAL_DEV_MODE=true is only allowed when PROVER_HOST is loopback",
                ),
            );
        }
        return Ok(ProveAuth::Disabled);
    }
    match api_key {
        Some(key) => Ok(ProveAuth::ApiKey(key)),
        None => Err(
            String::from_str(
                "PROVER_API_KEY is required unless PROVER_LOCAL_DEV_MODE=true on loopback",
            ),
        ),
    }
}

/// The index of the first space in `v`, from `i` on.
pub open spec fn first_space(v: Seq<char>, i: int) -> Option<int>
    decreases v.len() - i,
{
    if i < 0 || i >= v.len() {
        None
    } else if v[i] == ' ' {
        Some(i)
    } else {
        first_space(v, i + 1)
    }
}

/// The bearer token of an `Authorization` value: split at the first space,
/// the scheme must be `bearer` in any ASCII case, and the rest, trimmed,
/// must not be empty.
pub open spec fn spec_bearer_token(v: Seq<char>) -> Option<Seq<char>> {
    match first_space(v, 0) {
        None => None,
        Some(sp) => {
            let token = trim(v.subrange(sp + 1, v.len() as int));
            if ascii_lowercase(v.subrange(0, sp)) != "bearer"@ || token.len() == 0 {
                None
            } else {
                Some(token)
            }
        },
    }
}

proof fn lemma_first_space_none(v: Seq<char>, i: int)
    requires
        0 <= i <= v.len(),
        forall|j: int| i <= j < v.len() ==> v[j] != ' ',
    ensures
        first_space(v, i) is None,
    decreases v.len() - i,
{
    if i < v.len() {
        lemma_first_space_none(v, i + 1);
    }
}

proof fn lemma_first_space_at(v: Seq<char>, i: int, sp: int)
    requires
        0 <= i <= sp < v.len(),
        v[sp] == ' ',
        forall|j: int| i <= j < sp ==> v[j] != ' ',
    ensures
        first_space(v, i) == Some(sp),
    decreases sp - i,
{
    if i < sp {
        lemma_first_space_at(v, i + 1, sp);
    }
}

/// The bearer token of an `Authorization` header value, if it has one.
pub fn extract_bearer_token(value: Option<&str>) -> (token: Option<&str>)
    ensures
        match value {
            None => token is None,
            Some(v) => match spec_bearer_token(v@) {
                None => token is None,
                Some(t) => token matches Some(tok) && tok@ == t,
            },
        },
{
    let value = match value {
        Some(v) => v,
        None => return None,
    };
    let n = value.unicode_len();
    let mut sp: usize = 0;
    while sp < n
        invariant
            n == value@.len(),
            sp <= n,
            forall|j: int| 0 <= j < sp ==> value@[j] != ' ',
        ensures
            sp <= n,
            forall|j: int| 0 <= j < sp ==> value@[j] != ' ',
            sp == n || value@[sp as int] == ' ',
        decreases n - sp,
    {
        if value.get_char(sp) == ' ' {
            break;
        }
        sp = sp + 1;
    }
    if sp == n {
        proof {
            lemma_first_space_none(value@, 0);
        }
        return None;
    }
    proof {
        lemma_first_space_at(value@, 0, sp as int);
        reveal_strlit("bearer");
    }
    let scheme = value.substring_char(0, sp);
    let rest = value.substring_char(sp + 1, n);
    if !str_eq_ignore_ascii_case(scheme, "bearer") {
        assert(ascii_lowercase("bearer"@) =~= "bearer"@);
        return None;
    }
    assert(ascii_lowercase("bearer"@) =~= "bearer"@);
    let token = trim_str(rest);
    if token.unicode_len() == 0 {
        return None;
    }
    Some(token)
}

pub open spec fn invalid_api_key_message() -> Seq<char> {
    "invalid API key"@
}

pub open spec fn missing_bearer_message() -> Seq<char> {
    "missing bearer token for /prove"@
}

impl ProveAuth {
    /// The bearer token carried by an optional `Authorization` value.
    pub open spec fn presented_token(authorization: Option<&str>) -> Option<Seq<char>> {
        match authorization {
            Some(v) => spec_bearer_token(v@),
            None => None,
        }
    }

    /// The bucket a request is admitted to, if it is authorized at all.
    pub open spec fn authorized_bucket(self, authorization: Option<&str>) -> Option<RateLimitBucket> {
        match self {
            ProveAuth::Disabled => Some(RateLimitBucket::LocalDev),
            ProveAuth::ApiKey(expected) => match Self::presented_token(authorization) {
                Some(t) => if t == expected@ {
                    Some(RateLimitBucket::Protected)
                } else {
                    None
                },
                None => None,
            },
        }
    }

    /// The answer to an `Authorization` value: the bucket, or 401 saying
    /// whether the token was wrong or missing.
    pub open spec fn authorization_outcome(
        self,
        authorization: Option<&str>,
        r: Result<RateLimitBucket, AppError>,
    ) -> bool {
        match self {
            ProveAuth::Disabled => r == Ok::<RateLimitBucket, AppError>(RateLimitBucket::LocalDev),
            ProveAuth::ApiKey(expected) => {
                let token = match authorization {
                    Some(v) => spec_bearer_token(v@),
                    None => None,
                };
                match token {
                    Some(t) => if t == expected@ {
                        r == Ok::<RateLimitBucket, AppError>(RateLimitBucket::Protected)
                    } else {
                        r matches Err(e) && e.answer_is(
                            STATUS_UNAUTHORIZED,
                            "unauthorized",
                            invalid_api_key_message(),
                            None,
                        )
                    },
                    None => r matches Err(e) && e.answer_is(
                        STATUS_UNAUTHORIZED,
                        "unauthorized",
                        missing_bearer_message(),
                        None,
                    ),
                }
            },
        }
    }

    /// Decides whether a request with this `Authorization` value may prove,
    /// and in which rate-limit bucket.
    pub fn authorize(&self, authorization: Option<&str>) -> (r: Result<RateLimitBucket, AppError>)
        ensures
            self.authorization_outcome(authorization, r),
            r is Ok <==> self.authorized_bucket(authorization) is Some,
            r matches Ok(b) ==> self.authorized_bucket(authorization) == Some(b),
    {
        match self {
            ProveAuth::Disabled => Ok(RateLimitBucket::LocalDev),
            ProveAuth::ApiKey(expected) => match extract_bearer_token(authorization) {
                Some(candidate) => {
                    if str_eq(candidate, expected.as_str()) {
                        Ok(RateLimitBucket::Protected)
                    } else {
                        Err(AppError::unauthorized(String::from_str("invalid API key")))
                    }
                },
                None => Err(AppError::unauthorized(String::from_str("missing bearer token for /prove"))),
            },
        }
    }
}

// ---------------------------------------------------------------------------
// The fixed-window rate limiter
// ---------------------------------------------------------------------------

/// One bucket's window: when it started (nanoseconds on a monotonic
/// clock) and how many requests it has admitted.
#[derive(Debug, Clone, Copy, PartialEq, Eq, Structural)]
pub struct FixedWindowState {
    pub started_at_nanos: u128,
    pub request_count: usize,
}

impl FixedWindowState {
    pub fn new(now_nanos: u128) -> (state: Self)
        ensures
            state == (FixedWindowState { started_at_nanos: now_nanos, request_count: 0 }),
    {
        FixedWindowState { started_at_nanos: now_nanos, request_count: 0 }
    }

    /// Time since the window started; a clock reading before the start counts as no time.
    pub open spec fn elapsed(self, now: nat) -> nat {
        if now >= self.started_at_nanos {
            (now - self.started_at_nanos) as nat
        } else {
            0
        }
    }
}

/// One admission decision: an expired window restarts at `now` with no
/// requests; the request is admitted, and counted, while the window has
/// admitted fewer than `max_requests`.
pub open spec fn window_step(s: FixedWindowState, policy: RateLimitPolicy, now: nat) -> (
    FixedWindowState,
    bool,
) {
    let fresh = if s.elapsed(now) >= policy.window_nanos() {
        FixedWindowState { started_at_nanos: now as u128, request_count: 0 }
    } else {
        s
    };
    if fresh.request_count >= policy.max_requests {
        (fresh, false)
    } else {
        (FixedWindowState { request_count: (fresh.request_count + 1) as usize, ..fresh }, true)
    }
}

pub open spec fn rate_limit_message(policy: RateLimitPolicy) -> Seq<char> {
    "proof request rate limit exceeded: max "@ + decimal(policy.max_requests as nat)
        + " request(s) per "@ + decimal(policy.window_secs as nat) + " second window"@
}

/// Fixed-window rate limiting, one window per bucket.
#[derive(Debug, Clone, Copy, PartialEq, Eq, Structural)]
pub struct RateLimiter {
    pub policy: RateLimitPolicy,
    pub local_dev: FixedWindowState,
    pub protected: FixedWindowState,
}

impl RateLimiter {
    pub fn new(policy: RateLimitPolicy, now_nanos: u128) -> (limiter: Self)
        ensures
            limiter.policy == policy,
            limiter.local_dev == (FixedWindowState { started_at_nanos: now_nanos, request_count: 0 }),
            limiter.protected == (FixedWindowState { started_at_nanos: now_nanos, request_count: 0 }),
    {
        RateLimiter {
            policy,
            local_dev: FixedWindowState::new(now_nanos),
            protected: FixedWindowState::new(now_nanos),
        }
    }

    pub open spec fn bucket(self, bucket: RateLimitBucket) -> FixedWindowState {
        match bucket {
            RateLimitBucket::LocalDev => self.local_dev,
            RateLimitBucket::Protected => self.protected,
        }
    }

    /// Admits or refuses one request in `bucket` at clock reading `now_nanos`.
    pub fn check(&mut self, bucket: RateLimitBucket, now_nanos: u128) -> (r: Result<(), AppError>)
        ensures
            ({
                let (next, admitted) = window_step(old(self).bucket(bucket), old(self).policy, now_nanos as nat);
                &&& final(self).policy == old(self).policy
                &&& final(self).bucket(bucket) == next
                &&& bucket == RateLimitBucket::LocalDev ==> final(self).protected == old(self).protected
                &&& bucket == RateLimitBucket::Protected ==> final(self).local_dev == old(self).local_dev
                &&& (r is Ok <==> admitted)
                &&& r matches Err(e) ==> e.answer_is(
                    STATUS_TOO_MANY_REQUESTS,
                    "prove_rate_limited",
                    rate_limit_message(old(self).policy),
                    Some(
                        old(self).policy.spec_retry_after(
                            old(self).bucket(bucket).elapsed(now_nanos as nat),
                        ) as u64,
                    ),
                )
            }),
    {
        let policy = self.policy;
        let mut state = match bucket {
            RateLimitBucket::LocalDev => self.local_dev,
            RateLimitBucket::Protected => self.protected,
        };
        let elapsed: u128 = if now_nanos >= state.started_at_nanos {
            now_nanos - state.started_at_nanos
        } else {
            0
        };
        let window = policy.window_secs as u128 * NANOS_PER_SEC;
        if elapsed >= window {
            state.started_at_nanos = now_nanos;
            state.request_count = 0;
        }
        let result = if state.request_count >= policy.max_requests {
            let mut message = String::from_str("proof request rate limit exceeded: max ");
            push_decimal(&mut message, policy.max_requests as u64);
            message.append(" request(s) per ");
            push_decimal(&mut message, policy.window_secs);
            message.append(" second window");
            Err(AppError::too_many_requests(message, policy.retry_after_seconds(elapsed)))
        } else {
            state.request_count = state.request_count + 1;
            Ok(())
        };
        match bucket {
            RateLimitBucket::LocalDev => self.local_dev = state,
            RateLimitBucket::Protected => self.protected = state,
        }
        result
    }
}

// ---------------------------------------------------------------------------
// Admission of a /prove request
// ---------------------------------------------------------------------------

/// Admits a `/prove` request in the order the service checks it:
/// authorization first, then the rate limit of the caller's bucket, then
/// decoding. An unauthorized request is answered 401 and uses no quota; a
/// rate-limited one is answered 429 and is not decoded; an admitted request
/// counts against its bucket whether or not it then decodes, and only a
/// decoded request is handed on toward the prover.
pub fn admit_prove_request(
    auth: &ProveAuth,
    limiter: &mut RateLimiter,
    authorization: Option<&str>,
    now_nanos: u128,
    request: ProveRequest,
) -> (r: Result<prover::ProveRequest, AppError>)
    ensures
        final(limiter).policy == old(limiter).policy,
        match auth.authorized_bucket(authorization) {
            None => {
                &&& *final(limiter) == *old(limiter)
                &&& r matches Err(e) && auth.authorization_outcome(
                    authorization,
                    Err::<RateLimitBucket, AppError>(e),
                )
            },
            Some(bucket) => {
                let (next, admitted) = window_step(
                    old(limiter).bucket(bucket),
                    old(limiter).policy,
                    now_nanos as nat,
                );
                &&& final(limiter).bucket(bucket) == next
                &&& bucket == RateLimitBucket::LocalDev ==> final(limiter).protected == old(
                    limiter,
                ).protected
                &&& bucket == RateLimitBucket::Protected ==> final(limiter).local_dev == old(
                    limiter,
                ).local_dev
                &&& !admitted ==> (r matches Err(e) && e.answer_is(
                    STATUS_TOO_MANY_REQUESTS,
                    "prove_rate_limited",
                    rate_limit_message(old(limiter).policy),
                    Some(
                        old(limiter).policy.spec_retry_after(
                            old(limiter).bucket(bucket).elapsed(now_nanos as nat),
                        ) as u64,
                    ),
                ))
                &&& admitted ==> request.decode_outcome(r)
            },
        },
{
    let bucket = match auth.authorize(authorization) {
        Ok(b) => b,
        Err(e) => return Err(e),
    };
    match limiter.check(bucket, now_nanos) {
        Ok(()) => {},
        Err(e) => return Err(e),
    }
    request.try_into_fixed()
}

// ---------------------------------------------------------------------------
// Readiness
// ---------------------------------------------------------------------------

/// The readiness answer: ready, with 200, while at least one proving slot
/// is free; 503 when every slot is taken.
#[derive(Debug, Clone, Copy, PartialEq, Eq, Structural)]
pub struct Readiness {
    pub status: u16,
    pub ready: bool,
    pub available_slots: usize,
    pub max_in_flight: usize,
}

pub fn readiness(available_slots: usize, max_in_flight: usize) -> (r: Readiness)
    ensures
        r.ready == (available_slots > 0),
        r.status == if available_slots > 0 {
            200u16
        } else {
            STATUS_SERVICE_UNAVAILABLE
        },
        r.available_slots == available_slots,
        r.max_in_flight == max_in_flight,
{
    let ready = available_slots > 0;
    Readiness {
        status: if ready {
            200
        } else {
            STATUS_SERVICE_UNAVAILABLE
        },
        ready,
        available_slots,
        max_in_flight,
    }
}

// ---------------------------------------------------------------------------
// Metrics
// ---------------------------------------------------------------------------

/// Counters of `/prove` answers and of proof runs.
#[derive(Debug, Clone, Copy, PartialEq, Eq, Structural)]
pub struct ProveMetrics {
    pub unauthorized: u64,
    pub bad_requests: u64,
    pub rate_limited: u64,
    pub overloaded: u64,
    pub timeouts: u64,
    pub proofs_started: u64,
    pub proofs_completed: u64,
    pub proofs_succeeded: u64,
    pub proofs_invalid: u64,
    pub proofs_failed: u64,
    pub proof_duration_ms_total: u64,
}

/// A counter one step up, staying at its maximum.
pub open spec fn bumped(x: u64) -> u64 {
    if x < u64::MAX {
        (x + 1) as u64
    } else {
        x
    }
}

fn bump(x: u64) -> (y: u64)
    ensures
        y == bumped(x),
{
    if x < u64::MAX {
        x + 1
    } else {
        x
    }
}

/// `x + d`, staying at the maximum.
pub open spec fn added(x: u64, d: u64) -> u64 {
    if x + d <= u64::MAX {
        (x + d) as u64
    } else {
        u64::MAX
    }
}

impl ProveMetrics {
    pub fn new() -> (m: Self)
        ensures
            m == (ProveMetrics {
                unauthorized: 0,
                bad_requests: 0,
                rate_limited: 0,
                overloaded: 0,
                timeouts: 0,
                proofs_started: 0,
                proofs_completed: 0,
                proofs_succeeded: 0,
                proofs_invalid: 0,
                proofs_failed: 0,
                proof_duration_ms_total: 0,
            }),
    {
        ProveMetrics {
            unauthorized: 0,
            bad_requests: 0,
            rate_limited: 0,
            overloaded: 0,
            timeouts: 0,
            proofs_started: 0,
            proofs_completed: 0,
            proofs_succeeded: 0,
            proofs_invalid: 0,
            proofs_failed: 0,
            proof_duration_ms_total: 0,
        }
    }

    /// Counts an error answer by its status: 401, 400, 429, 503 and 504
    /// each have a counter; other answers are counted by the proof counters.
    pub fn record_answer(&mut self, answer: &AppError)
        ensures
            *final(self) == (if answer.status == STATUS_UNAUTHORIZED {
                ProveMetrics { unauthorized: bumped(old(self).unauthorized), ..*old(self) }
            } else if answer.status == STATUS_BAD_REQUEST {
                ProveMetrics { bad_requests: bumped(old(self).bad_requests), ..*old(self) }
            } else if answer.status == STATUS_TOO_MANY_REQUESTS {
                ProveMetrics { rate_limited: bumped(old(self).rate_limited), ..*old(self) }
            } else if answer.status == STATUS_SERVICE_UNAVAILABLE {
                ProveMetrics { overloaded: bumped(old(self).overloaded), ..*old(self) }
            } else if answer.status == STATUS_GATEWAY_TIMEOUT {
                ProveMetrics { timeouts: bumped(old(self).timeouts), ..*old(self) }
            } else {
                *old(self)
            }),
    {
        if answer.status == STATUS_UNAUTHORIZED {
            self.unauthorized = bump(self.unauthorized);
        } else if answer.status == STATUS_BAD_REQUEST {
            self.bad_requests = bump(self.bad_requests);
        } else if answer.status == STATUS_TOO_MANY_REQUESTS {
            self.rate_limited = bump(self.rate_limited);
        } else if answer.status == STATUS_SERVICE_UNAVAILABLE {
            self.overloaded = bump(self.overloaded);
        } else if answer.status == STATUS_GATEWAY_TIMEOUT {
            self.timeouts = bump(self.timeouts);
        }
    }

    /// Counts a proof run that starts.
    pub fn record_proof_started(&mut self)
        ensures
            *final(self) == (ProveMetrics {
                proofs_started: bumped(old(self).proofs_started),
                ..*old(self)
            }),
    {
        self.proofs_started = bump(self.proofs_started);
    }

    /// Counts a proof run that finished after `duration_ms`: completed, and
    /// one of succeeded, invalid (the request was refused) or failed.
    pub fn record_proof_finished(
        &mut self,
        result: &Result<prover::ProveResponse, ProveError>,
        duration_ms: u64,
    )
        ensures
            final(self).proofs_completed == bumped(old(self).proofs_completed),
            final(self).proof_duration_ms_total == added(
                old(self).proof_duration_ms_total,
                duration_ms,
            ),
            final(self).proofs_succeeded == if result is Ok {
                bumped(old(self).proofs_succeeded)
            } else {
                old(self).proofs_succeeded
            },
            final(self).proofs_invalid == if result matches Err(ProveError::InvalidRequest(_)) {
                bumped(old(self).proofs_invalid)
            } else {
                old(self).proofs_invalid
            },
            final(self).proofs_failed == if result is Err && !(result matches Err(
                ProveError::InvalidRequest(_),
            )) {
                bumped(old(self).proofs_failed)
            } else {
                old(self).proofs_failed
            },
            final(self).unauthorized == old(self).unauthorized,
            final(self).bad_requests == old(self).bad_requests,
            final(self).rate_limited == old(self).rate_limited,
            final(self).overloaded == old(self).overloaded,
            final(self).timeouts == old(self).timeouts,
            final(self).proofs_started == old(self).proofs_started,
    {
        self.proofs_completed = bump(self.proofs_completed);
        self.proof_duration_ms_total = if self.proof_duration_ms_total <= u64::MAX - duration_ms {
            self.proof_duration_ms_total + duration_ms
        } else {
            u64::MAX
        };
        match result {
            Ok(_) => self.proofs_succeeded = bump(self.proofs_succeeded),
            Err(ProveError::InvalidRequest(_)) => self.proofs_invalid = bump(self.proofs_invalid),
            Err(_) => self.proofs_failed = bump(self.proofs_failed),
        }
    }
}

/// One plain-text metric line: name, a space, the decimal value, a newline.
pub open spec fn metric_line(name: Seq<char>, value: nat) -> Seq<char> {
    name + " "@ + decimal(value) + "\n"@
}

fn push_metric_line(out: &mut String, name: &str, value: u64)
    ensures
        final(out)@ == old(out)@ + metric_line(name@, value as nat),
{
    out.append(name);
    out.append(" ");
    push_decimal(out, value);
    out.append("\n");
}

/// The metrics page: build identity with the image id, readiness, the
/// execution policy, the answer counters and the proof counters.
pub open spec fn spec_metrics_text(
    metrics: ProveMetrics,
    image_id: prover::ImageId,
    ready: Readiness,
    policy: ExecutionPolicy,
) -> Seq<char> {
    "agenc_prover_build_info{service=\"agenc-prover-server\",image_id=\""@ + join_decimal(
        image_id@,
    ) + "\"} 1\n"@
        + metric_line("agenc_prover_ready"@, if ready.ready { 1 } else { 0 })
        + metric_line("agenc_prover_available_slots"@, ready.available_slots as nat)
        + metric_line("agenc_prover_max_in_flight"@, ready.max_in_flight as nat)
        + metric_line("agenc_prover_request_timeout_seconds"@, policy.request_timeout_secs as nat)
        + metric_line("agenc_prover_rate_limit_max_requests"@, policy.rate_limit.max_requests as nat)
        + metric_line("agenc_prover_rate_limit_window_seconds"@, policy.rate_limit.window_secs as nat)
        + metric_line("agenc_prover_prove_unauthorized_total"@, metrics.unauthorized as nat)
        + metric_line("agenc_prover_prove_bad_request_total"@, metrics.bad_requests as nat)
        + metric_line("agenc_prover_prove_rate_limited_total"@, metrics.rate_limited as nat)
        + metric_line("agenc_prover_prove_overloaded_total"@, metrics.overloaded as nat)
        + metric_line("agenc_prover_prove_timeout_total"@, metrics.timeouts as nat)
        + metric_line("agenc_prover_proofs_started_total"@, metrics.proofs_started as nat)
        + metric_line("agenc_prover_proofs_completed_total"@, metrics.proofs_completed as nat)
        + metric_line("agenc_prover_proofs_succeeded_total"@, metrics.proofs_succeeded as nat)
        + metric_line("agenc_prover_proofs_invalid_total"@, metrics.proofs_invalid as nat)
        + metric_line("agenc_prover_proofs_failed_total"@, metrics.proofs_failed as nat)
        + metric_line(
        "agenc_prover_proof_duration_milliseconds_total"@,
        metrics.proof_duration_ms_total as nat,
    )
}

pub fn render_metrics(
    metrics: &ProveMetrics,
    image_id: prover::ImageId,
    ready: &Readiness,
    policy: &ExecutionPolicy,
) -> (text: String)
    ensures
        text@ == spec_metrics_text(*metrics, image_id, *ready, *policy),
{
    let mut out = String::from_str(
        "agenc_prover_build_info{service=\"agenc-prover-server\",image_id=\"",
    );
    push_joined_decimal(&mut out, &image_id);
    out.append("\"} 1\n");
    push_metric_line(&mut out, "agenc_prover_ready", if ready.ready { 1 } else { 0 });
    push_metric_line(&mut out, "agenc_prover_available_slots", ready.available_slots as u64);
    push_metric_line(&mut out, "agenc_prover_max_in_flight", ready.max_in_flight as u64);
    push_metric_line(&mut out, "agenc_prover_request_timeout_seconds", policy.request_timeout_secs);
    push_metric_line(
        &mut out,
        "agenc_prover_rate_limit_max_requests",
        policy.rate_limit.max_requests as u64,
    );
    push_metric_line(&mut out, "agenc_prover_rate_limit_window_seconds", policy.rate_limit.window_secs);
    push_metric_line(&mut out, "agenc_prover_prove_unauthorized_total", metrics.unauthorized);
    push_metric_line(&mut out, "agenc_prover_prove_bad_request_total", metrics.bad_requests);
    push_metric_line(&mut out, "agenc_prover_prove_rate_limited_total", metrics.rate_limited);
    push_metric_line(&mut out, "agenc_prover_prove_overloaded_total", metrics.overloaded);
    push_metric_line(&mut out, "agenc_prover_prove_timeout_total", metrics.timeouts);
    push_metric_line(&mut out, "agenc_prover_proofs_started_total", metrics.proofs_started);
    push_metric_line(&mut out, "agenc_prover_proofs_completed_total", metrics.proofs_completed);
    push_metric_line(&mut out, "agenc_prover_proofs_succeeded_total", metrics.proofs_succeeded);
    push_metric_line(&mut out, "agenc_prover_proofs_invalid_total", metrics.proofs_invalid);
    push_metric_line(&mut out, "agenc_prover_proofs_failed_total", metrics.proofs_failed);
    push_metric_line(
        &mut out,
        "agenc_prover_proof_duration_milliseconds_total",
        metrics.proof_duration_ms_total,
    );
    assert(out@ =~= spec_metrics_text(*metrics, image_id, *ready, *policy));
    out
}

// ---------------------------------------------------------------------------
// The bind port
// ---------------------------------------------------------------------------

/// The port to bind: `8787` when the variable is unset or not Unicode,
/// otherwise its value read as a `u16` (untrimmed).
pub open spec fn spec_bind_port(value: EnvValue) -> Result<nat, Seq<char>> {
    match value {
        EnvValue::Present(v) => match parse_unsigned(v@, 65535) {
            Ok(n) => Ok(n),
            Err(kind) => Err("invalid PROVER_PORT "@ + v@ + ": "@ + kind.spec_message()),
        },
        _ => Ok(8787),
    }
}

pub fn bind_port(value: EnvValue) -> (r: Result<u16, String>)
    ensures
        match spec_bind_port(value) {
            Ok(n) => r == Ok::<u16, String>(n as u16),
            Err(m) => r matches Err(e) && e@ == m,
        },
{
    match value {
        EnvValue::Present(v) => match parse_u64(v.as_str(), 65535) {
            Ok(n) => Ok(n as u16),
            Err(kind) => {
                let mut message = String::from_str("invalid PROVER_PORT ");
                message.append(v.as_str());
                message.append(": ");
                message.append(kind.message());
                Err(message)
            },
        },
        _ => Ok(8787),
    }
}

// ---------------------------------------------------------------------------
// Laws of the rate limiter
// ---------------------------------------------------------------------------

/// A window never holds more requests than the policy admits.
pub open spec fn window_wf(s: FixedWindowState, policy: RateLimitPolicy) -> bool {
    s.request_count <= policy.max_requests
}

/// One decision keeps a window within the policy.
pub proof fn lemma_window_step_wf(s: FixedWindowState, policy: RateLimitPolicy, now: nat)
    requires
        window_wf(s, policy),
        now <= u128::MAX,
    ensures
        window_wf(window_step(s, policy, now).0, policy),
{
}

/// A run of decisions at the given clock readings: the final window and
/// how many requests were admitted.
pub open spec fn run_window(s: FixedWindowState, policy: RateLimitPolicy, times: Seq<nat>) -> (
    FixedWindowState,
    nat,
)
    decreases times.len(),
{
    if times.len() == 0 {
        (s, 0)
    } else {
        let (next, admitted) = window_step(s, policy, times[0]);
        let (last, count) = run_window(next, policy, times.drop_first());
        (last, count + if admitted {
            1nat
        } else {
            0nat
        })
    }
}

/// Within one window, the limiter admits at most `max_requests` requests:
/// for requests whose clock readings all fall inside the window that is
/// current when they start, at most `max_requests - request_count` are
/// admitted, every admission is counted, and the window does not restart.
pub proof fn lemma_window_admits_at_most_max(
    s: FixedWindowState,
    policy: RateLimitPolicy,
    times: Seq<nat>,
)
    requires
        window_wf(s, policy),
        forall|i: int|
            0 <= i < times.len() ==> s.started_at_nanos <= #[trigger] times[i]
                < s.started_at_nanos + policy.window_nanos(),
    ensures
        run_window(s, policy, times).1 <= policy.max_requests - s.request_count,
        run_window(s, policy, times).0.request_count == s.request_count + run_window(
            s,
            policy,
            times,
        ).1,
        run_window(s, policy, times).0.started_at_nanos == s.started_at_nanos,
    decreases times.len(),
{
    if times.len() > 0 {
        let (next, admitted) = window_step(s, policy, times[0]);
        assert(next.started_at_nanos == s.started_at_nanos);
        let rest = times.drop_first();
        assert forall|i: int| 0 <= i < rest.len() implies next.started_at_nanos <= #[trigger] rest[i]
            < next.started_at_nanos + policy.window_nanos() by {
            assert(rest[i] == times[i + 1]);
        }
        lemma_window_admits_at_most_max(next, policy, rest);
    }
}

/// The admission decisions of a run of requests, in order.
pub open spec fn window_decisions(s: FixedWindowState, policy: RateLimitPolicy, times: Seq<nat>) -> Seq<
    bool,
>
    decreases times.len(),
{
    if times.len() == 0 {
        seq![]
    } else {
        let (next, admitted) = window_step(s, policy, times[0]);
        seq![admitted] + window_decisions(next, policy, times.drop_first())
    }
}

pub open spec fn min_nat(a: nat, b: nat) -> nat {
    if a <= b {
        a
    } else {
        b
    }
}

/// Within one window the limiter admits exactly the first
/// `max_requests - request_count` requests and refuses every later one.
/// Before the `i`-th request the window has not restarted and holds
/// `min(request_count + i, max_requests)` requests, so a refused request is
/// answered by `check` with 429 and a retry time computed from
/// `times[i] - started_at_nanos`.
pub proof fn lemma_window_admits_first_requests(
    s: FixedWindowState,
    policy: RateLimitPolicy,
    times: Seq<nat>,
)
    requires
        window_wf(s, policy),
        forall|i: int|
            0 <= i < times.len() ==> s.started_at_nanos <= #[trigger] times[i]
                < s.started_at_nanos + policy.window_nanos(),
    ensures
        window_decisions(s, policy, times).len() == times.len(),
        forall|i: int|
            0 <= i < times.len() ==> #[trigger] window_decisions(s, policy, times)[i] == (
            s.request_count + i < policy.max_requests),
        forall|i: int|
            0 <= i <= times.len() ==> #[trigger] run_window(s, policy, times.take(i)).0 == (
            FixedWindowState {
                started_at_nanos: s.started_at_nanos,
                request_count: min_nat((s.request_count + i) as nat, policy.max_requests as nat)
                    as usize,
            }),
    decreases times.len(),
{
    assert(times.take(0) =~= Seq::<nat>::empty());
    if times.len() > 0 {
        let (next, admitted) = window_step(s, policy, times[0]);
        let rest = times.drop_first();
        assert forall|i: int| 0 <= i < rest.len() implies next.started_at_nanos
            <= #[trigger] rest[i] < next.started_at_nanos + policy.window_nanos() by {
            assert(rest[i] == times[i + 1]);
        }
        lemma_window_admits_first_requests(next, policy, rest);
        let d = window_decisions(s, policy, times);
        assert(d == seq![admitted] + window_decisions(next, policy, rest));
        assert forall|i: int| 0 <= i < times.len() implies #[trigger] d[i] == (s.request_count + i
            < policy.max_requests) by {
            if i > 0 {
                assert(d[i] == window_decisions(next, policy, rest)[i - 1]);
            }
        }
        assert forall|i: int| 0 <= i <= times.len() implies #[trigger] run_window(
            s,
            policy,
            times.take(i),
        ).0 == (FixedWindowState {
            started_at_nanos: s.started_at_nanos,
            request_count: min_nat((s.request_count + i) as nat, policy.max_requests as nat)
                as usize,
        }) by {
            if i > 0 {
                let t = times.take(i);
                assert(t[0] == times[0]);
                assert(t.drop_first() =~= rest.take(i - 1));
                assert(run_window(next, policy, rest.take(i - 1)).0 == (FixedWindowState {
                    started_at_nanos: s.started_at_nanos,
                    request_count: min_nat(
                        (next.request_count + i - 1) as nat,
                        policy.max_requests as nat,
                    ) as usize,
                }));
            }
        }
    }
}

/// Once a window has run out, the next request starts a new window and is
/// admitted whenever the policy admits any request at all.
pub proof fn lemma_expired_window_admits(s: FixedWindowState, policy: RateLimitPolicy, now: nat)
    requires
        s.elapsed(now) >= policy.window_nanos(),
        policy.max_requests > 0,
        now <= u128::MAX,
    ensures
        window_step(s, policy, now) == (FixedWindowState { started_at_nanos: now as u128, request_count: 1 }, true),
{
}

// ---------------------------------------------------------------------------
// Laws of decoding and of the boolean switches
// ---------------------------------------------------------------------------

/// Decoding keeps every named field: the journal of the decoded request is
/// the JSON request's public byte lists in journal order, and what the
/// decoded request hands the guest is the JSON request's twelve byte lists
/// in the order they appear in it.
pub proof fn lemma_decoded_request_keeps_fields(request: ProveRequest, p: prover::ProveRequest)
    requires
        request.decode_outcome(Ok(p)),
    ensures
        p.task_pda@ == request.task_pda@,
        p.agent_authority@ == request.agent_authority@,
        p.constraint_hash@ == request.constraint_hash@,
        p.output_commitment@ == request.output_commitment@,
        p.binding@ == request.binding@,
        p.nullifier@ == request.nullifier@,
        forall|i: int| 0 <= i < 4 ==> #[trigger] p.output[i]@ == request.output@[i]@,
        p.salt@ == request.salt@,
        p.agent_secret@ == request.agent_secret@,
        p.spec_journal_fields().spec_journal() == request.task_pda@ + request.agent_authority@
            + request.constraint_hash@ + request.output_commitment@ + request.binding@
            + request.nullifier@,
        p.spec_journal_fields().spec_journal() == request.wire_journal(),
        prover::spec_executor_inputs(p).map_values(|f: JournalField| f@) == request.wire_inputs(),
{
    assert(request.decode_failure() is None);
    assert(p.output[0]@ == request.output@[0]@);
    assert(p.output[1]@ == request.output@[1]@);
    assert(p.output[2]@ == request.output@[2]@);
    assert(p.output[3]@ == request.output@[3]@);
    assert(prover::spec_executor_inputs(p).map_values(|f: JournalField| f@) =~= request.wire_inputs());
}

/// A boolean switch is on exactly for `1`, `true`, `yes`, `on` and off
/// exactly for `0`, `false`, `no`, `off`, ignoring surrounding whitespace
/// and ASCII case; unset it is off; anything else is an error. Two values
/// that agree once trimmed and folded read alike.
pub proof fn lemma_switch_words(name: Seq<char>, value: String, other: String)
    ensures
        spec_parse_env_bool(name, EnvValue::NotPresent) == Ok::<bool, Seq<char>>(false),
        spec_parse_env_bool(name, EnvValue::Present(value)) == Ok::<bool, Seq<char>>(true)
            <==> ({
                let w = ascii_lowercase(trim(value@));
                (w == "1"@ || w == "true"@ || w == "yes"@ || w == "on"@)
            }),
        spec_parse_env_bool(name, EnvValue::Present(value)) == Ok::<bool, Seq<char>>(false)
            <==> ({
                let w = ascii_lowercase(trim(value@));
                (w == "0"@ || w == "false"@ || w == "no"@ || w == "off"@)
            }),
        spec_parse_env_bool(name, EnvValue::Present(value)) is Err <==> ({
            let w = ascii_lowercase(trim(value@));
            !(w == "1"@ || w == "true"@ || w == "yes"@ || w == "on"@) && !(w == "0"@ || w == "false"@ || w == "no"@ || w == "off"@)
        }),
        ascii_lowercase(trim(value@)) == ascii_lowercase(trim(other@)) ==> spec_parse_env_bool(
            name,
            EnvValue::Present(value),
        ) == spec_parse_env_bool(name, EnvValue::Present(other)),
{
    reveal_strlit("1");
    reveal_strlit("true");
    reveal_strlit("yes");
    reveal_strlit("on");
    reveal_strlit("0");
    reveal_strlit("false");
    reveal_strlit("no");
    reveal_strlit("off");
    assert("1"@ != "0"@) by {
        assert("1"@[0] != "0"@[0]);
    }
    assert("1"@ != "false"@) by {
        assert("1"@.len() != "false"@.len());
    }
    assert("1"@ != "no"@) by {
        assert("1"@.len() != "no"@.len());
    }
    assert("1"@ != "off"@) by {
        assert("1"@.len() != "off"@.len());
    }
    assert("true"@ != "0"@) by {
        assert("true"@.len() != "0"@.len());
    }
    assert("true"@ != "false"@) by {
        assert("true"@.len() != "false"@.len());
    }
    assert("true"@ != "no"@) by {
        assert("true"@.len() != "no"@.len());
    }
    assert("true"@ != "off"@) by {
        assert("true"@.len() != "off"@.len());
    }
    assert("yes"@ != "0"@) by {
        assert("yes"@.len() != "0"@.len());
    }
    assert("yes"@ != "false"@) by {
        assert("yes"@.len() != "false"@.len());
    }
    assert("yes"@ != "no"@) by {
        assert("yes"@.len() != "no"@.len());
    }
    assert("yes"@ != "off"@) by {
        assert("yes"@[0] != "off"@[0]);
    }
    assert("on"@ != "0"@) by {
        assert("on"@.len() != "0"@.len());
    }
    assert("on"@ != "false"@) by {
        assert("on"@.len() != "false"@.len());
    }
    assert("on"@ != "no"@) by {
        assert("on"@[0] != "no"@[0]);
    }
    assert("on"@ != "off"@) by {
        assert("on"@.len() != "off"@.len());
    }
}

} // verus!
