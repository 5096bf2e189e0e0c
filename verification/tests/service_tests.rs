use std::time::Duration;

use agenc_prover::prover::ProveError;
use agenc_prover::prover::{ProveResponse, TRUSTED_RISC0_IMAGE_ID};
use agenc_prover::service::{
    admit_prove_request, bind_port, readiness, render_metrics, ProveMetrics, execution_policy, extract_bearer_token, normalize_api_key, overloaded_error,
    parse_env_bool, parse_nonzero_u64_env, parse_nonzero_usize_env, prove_error_to_app_error,
    resolve_execution_policy, resolve_prove_auth, timeout_error, EnvValue, ProveAuth,
    ProveRequest, RateLimitBucket, RateLimitPolicy, RateLimiter, FIELD_LEN, OUTPUT_COUNT,
    PROVER_API_KEY_ENV, PROVER_LOCAL_DEV_MODE_ENV,
};

const SEC: u128 = 1_000_000_000;

fn wire_request(task_pda_len: usize, output_count: usize) -> ProveRequest {
    ProveRequest {
        task_pda: vec![1; task_pda_len],
        agent_authority: vec![2; FIELD_LEN],
        constraint_hash: vec![3; FIELD_LEN],
        output_commitment: vec![4; FIELD_LEN],
        binding: vec![5; FIELD_LEN],
        nullifier: vec![6; FIELD_LEN],
        output: vec![vec![7; FIELD_LEN]; output_count],
        salt: vec![8; FIELD_LEN],
        agent_secret: vec![9; FIELD_LEN],
    }
}

#[test]
fn resolve_execution_policy_uses_expected_values() {
    let policy = resolve_execution_policy(2, 600, 10, 60);

    assert_eq!(policy.max_in_flight, 2);
    assert_eq!(Duration::from_secs(policy.request_timeout_secs), Duration::from_secs(600));
    assert_eq!(policy.retry_after_seconds(), 600);
    assert_eq!(policy.rate_limit.max_requests, 10);
    assert_eq!(Duration::from_secs(policy.rate_limit.window_secs), Duration::from_secs(60));
}

#[test]
fn resolve_prove_auth_allows_explicit_loopback_local_dev_mode() {
    let auth = resolve_prove_auth(true, true, None).unwrap();

    assert!(matches!(auth, ProveAuth::Disabled));
}

#[test]
fn resolve_prove_auth_requires_api_key_outside_local_dev_mode() {
    let error = match resolve_prove_auth(true, false, None) {
        Err(error) => error,
        Ok(_) => panic!("expected missing API key to fail"),
    };

    assert!(error.contains(PROVER_API_KEY_ENV));
}

#[test]
fn resolve_prove_auth_rejects_local_dev_mode_on_public_bind() {
    let error = match resolve_prove_auth(false, true, None) {
        Err(error) => error,
        Ok(_) => panic!("expected non-loopback local dev mode to fail"),
    };

    assert!(error.contains(PROVER_LOCAL_DEV_MODE_ENV));
}

#[test]
fn resolve_prove_auth_keeps_the_configured_key() {
    assert_eq!(
        resolve_prove_auth(false, false, Some("k".to_string())),
        Ok(ProveAuth::ApiKey("k".to_string()))
    );
}

#[test]
fn decoding_rejects_a_short_field_with_its_length() {
    let err = wire_request(31, OUTPUT_COUNT).try_into_fixed().unwrap_err();
    assert_eq!(err.status, 400);
    assert_eq!(err.code, "bad_request");
    assert_eq!(err.message, "task_pda must be exactly 32 bytes, got 31");
    assert_eq!(err.retry_after_seconds, None);
}

#[test]
fn decoding_rejects_a_wrong_output_count_first() {
    let err = wire_request(31, 3).try_into_fixed().unwrap_err();
    assert_eq!(err.status, 400);
    assert_eq!(err.message, "output must contain exactly 4 field elements, got 3");
}

#[test]
fn decoding_checks_output_elements_before_other_fields() {
    let mut request = wire_request(5, OUTPUT_COUNT);
    request.output[2] = vec![0; 33];
    let err = request.try_into_fixed().unwrap_err();
    assert_eq!(err.message, "output[2] must be exactly 32 bytes, got 33");
}

#[test]
fn decoding_accepts_exact_fields() {
    let fixed = wire_request(FIELD_LEN, OUTPUT_COUNT).try_into_fixed().unwrap();
    assert_eq!(fixed.task_pda, [1; 32]);
    assert_eq!(fixed.output, [[7; 32]; 4]);
    assert_eq!(fixed.agent_secret, [9; 32]);
}

#[test]
fn bearer_tokens_are_extracted_as_the_header_gives_them() {
    assert_eq!(extract_bearer_token(Some("Bearer test-token")), Some("test-token"));
    assert_eq!(extract_bearer_token(Some("bEaReR   spaced  ")), Some("spaced"));
    assert_eq!(extract_bearer_token(Some("Basic abc")), None);
    assert_eq!(extract_bearer_token(Some("Bearer    ")), None);
    assert_eq!(extract_bearer_token(Some("Bearer")), None);
    assert_eq!(extract_bearer_token(None), None);
}

#[test]
fn authorization_decides_bucket_or_unauthorized() {
    let protected = ProveAuth::ApiKey("test-token".to_string());
    assert_eq!(protected.authorize(Some("Bearer test-token")), Ok(RateLimitBucket::Protected));
    let wrong = protected.authorize(Some("Bearer wrong-token")).unwrap_err();
    assert_eq!((wrong.status, wrong.code, wrong.message.as_str()), (401, "unauthorized", "invalid API key"));
    let missing = protected.authorize(None).unwrap_err();
    assert_eq!(missing.status, 401);
    assert_eq!(missing.message, "missing bearer token for /prove");
    assert_eq!(ProveAuth::Disabled.authorize(None), Ok(RateLimitBucket::LocalDev));
}

#[test]
fn rate_limiter_admits_max_requests_per_window() {
    let mut limiter = RateLimiter::new(RateLimitPolicy { max_requests: 1, window_secs: 1 }, 0);
    assert_eq!(limiter.check(RateLimitBucket::Protected, 10), Ok(()));
    let refused = limiter.check(RateLimitBucket::Protected, 20).unwrap_err();
    assert_eq!(refused.status, 429);
    assert_eq!(refused.code, "prove_rate_limited");
    assert_eq!(refused.retry_after_seconds, Some(1));
    assert_eq!(
        refused.message,
        "proof request rate limit exceeded: max 1 request(s) per 1 second window"
    );
    // The other bucket has its own window.
    assert_eq!(limiter.check(RateLimitBucket::LocalDev, 20), Ok(()));
    // A new window admits again.
    assert_eq!(limiter.check(RateLimitBucket::Protected, SEC + 5), Ok(()));
}

#[test]
fn rate_limit_retry_after_counts_remaining_whole_seconds() {
    let policy = RateLimitPolicy { max_requests: 10, window_secs: 60 };
    assert_eq!(policy.retry_after_seconds(0), 60);
    assert_eq!(policy.retry_after_seconds(SEC / 2), 59);
    assert_eq!(policy.retry_after_seconds(59 * SEC + 1), 1);
    assert_eq!(policy.retry_after_seconds(120 * SEC), 1);
}

#[test]
fn settings_parse_like_the_environment_reader() {
    assert_eq!(parse_env_bool("FLAG", EnvValue::NotPresent), Ok(false));
    assert_eq!(parse_env_bool("FLAG", EnvValue::Present(" TRUE ".to_string())), Ok(true));
    assert_eq!(parse_env_bool("FLAG", EnvValue::Present("off".to_string())), Ok(false));
    assert_eq!(
        parse_env_bool("FLAG", EnvValue::Present(" Maybe ".to_string())),
        Err("invalid FLAG value \"maybe\"; use true/false".to_string())
    );
    assert_eq!(
        parse_env_bool("FLAG", EnvValue::NotUnicode),
        Err("FLAG must be valid UTF-8".to_string())
    );

    assert_eq!(parse_nonzero_usize_env("N", EnvValue::NotPresent, 7), Ok(7));
    assert_eq!(parse_nonzero_usize_env("N", EnvValue::Present(" 42 ".to_string()), 7), Ok(42));
    assert_eq!(parse_nonzero_usize_env("N", EnvValue::Present("+5".to_string()), 7), Ok(5));
    assert_eq!(
        parse_nonzero_usize_env("N", EnvValue::Present("0".to_string()), 7),
        Err("N must be greater than zero".to_string())
    );
    for raw in ["", "x1", "-1", "+", "18446744073709551616", " 1 2 "] {
        let expected = format!(
            "invalid N value {:?}: {}",
            raw,
            raw.trim().parse::<u64>().unwrap_err()
        );
        assert_eq!(
            parse_nonzero_u64_env("N", EnvValue::Present(raw.to_string()), 7),
            Err(expected)
        );
    }
    assert_eq!(
        parse_nonzero_u64_env("N", EnvValue::Present("18446744073709551615".to_string()), 7),
        Ok(u64::MAX)
    );
}

#[test]
fn execution_policy_reports_the_first_bad_setting() {
    let policy = execution_policy(
        EnvValue::NotPresent,
        EnvValue::NotPresent,
        EnvValue::NotPresent,
        EnvValue::NotPresent,
    )
    .unwrap();
    assert_eq!(policy, resolve_execution_policy(1, 900, 10, 60));
    assert_eq!(policy.retry_after_seconds(), 900);
    assert_eq!(
        execution_policy(
            EnvValue::Present("2".to_string()),
            EnvValue::Present("0".to_string()),
            EnvValue::Present("x".to_string()),
            EnvValue::NotPresent,
        ),
        Err("PROVER_REQUEST_TIMEOUT_SECS must be greater than zero".to_string())
    );
}

#[test]
fn api_keys_are_trimmed_and_empty_ones_dropped() {
    assert_eq!(normalize_api_key(Some("  key ".to_string())), Some("key".to_string()));
    assert_eq!(normalize_api_key(Some("   ".to_string())), None);
    assert_eq!(normalize_api_key(None), None);
}

#[test]
fn prove_errors_map_to_client_and_server_answers() {
    let bad = prove_error_to_app_error(ProveError::InvalidRequest("binding does not match derived value".into()));
    assert_eq!(bad.status, 400);
    assert_eq!(bad.message, "binding does not match derived value");
    let internal = prove_error_to_app_error(ProveError::ProverFailed("boom".into()));
    assert_eq!(internal.status, 500);
    assert_eq!(internal.code, "internal_error");
    assert_eq!(internal.message, "prover failed: boom");

    let overloaded = overloaded_error(1, 5);
    assert_eq!(overloaded.status, 503);
    assert_eq!(overloaded.retry_after_seconds, Some(5));
    assert_eq!(
        overloaded.message,
        "prover is saturated: max 1 in-flight proof request(s); queue policy is fail-fast"
    );
    let timeout = timeout_error(900, 900);
    assert_eq!(timeout.status, 504);
    assert_eq!(
        timeout.message,
        "proof request exceeded 900 seconds; retry after the current in-flight work settles"
    );
}

#[test]
fn admission_checks_auth_then_rate_limit_then_decoding() {
    let auth = ProveAuth::ApiKey("test-token".to_string());
    let mut limiter = RateLimiter::new(RateLimitPolicy { max_requests: 2, window_secs: 60 }, 0);

    // Unauthorized: 401, no quota used.
    let err = admit_prove_request(&auth, &mut limiter, None, 1, wire_request(FIELD_LEN, OUTPUT_COUNT))
        .unwrap_err();
    assert_eq!(err.status, 401);
    assert_eq!(err.code, "unauthorized");
    assert_eq!(err.message, "missing bearer token for /prove");
    assert_eq!(err.retry_after_seconds, None);
    assert_eq!(limiter.protected.request_count, 0);

    // Authorized but undecodable: 400, and the request counts.
    let err = admit_prove_request(
        &auth,
        &mut limiter,
        Some("Bearer test-token"),
        2,
        wire_request(31, OUTPUT_COUNT),
    )
    .unwrap_err();
    assert_eq!(err.status, 400);
    assert_eq!(limiter.protected.request_count, 1);

    // Authorized and decodable.
    let fixed = admit_prove_request(
        &auth,
        &mut limiter,
        Some("Bearer test-token"),
        3,
        wire_request(FIELD_LEN, OUTPUT_COUNT),
    )
    .unwrap();
    assert_eq!(fixed.salt, [8; 32]);

    // Quota spent: 429 before any decoding, even of a broken request.
    let err = admit_prove_request(
        &auth,
        &mut limiter,
        Some("Bearer test-token"),
        4,
        wire_request(0, 0),
    )
    .unwrap_err();
    assert_eq!(err.status, 429);
    assert_eq!(err.retry_after_seconds, Some(59));
}

#[test]
fn a_window_admits_exactly_its_first_requests() {
    let mut limiter = RateLimiter::new(RateLimitPolicy { max_requests: 3, window_secs: 10 }, 100);
    let outcomes: Vec<bool> = (0..6u128)
        .map(|i| limiter.check(RateLimitBucket::LocalDev, 100 + i * SEC).is_ok())
        .collect();
    assert_eq!(outcomes, vec![true, true, true, false, false, false]);
    let refused = limiter.check(RateLimitBucket::LocalDev, 100 + 7 * SEC + 1).unwrap_err();
    assert_eq!(refused.status, 429);
    assert_eq!(refused.retry_after_seconds, Some(2));
}

#[test]
fn readiness_follows_free_slots() {
    let ready = readiness(1, 1);
    assert!(ready.ready);
    assert_eq!(ready.status, 200);
    let busy = readiness(0, 1);
    assert!(!busy.ready);
    assert_eq!(busy.status, 503);
    assert_eq!(busy.max_in_flight, 1);
}

#[test]
fn bind_port_defaults_and_parses() {
    assert_eq!(bind_port(EnvValue::NotPresent), Ok(8787));
    assert_eq!(bind_port(EnvValue::NotUnicode), Ok(8787));
    assert_eq!(bind_port(EnvValue::Present("9000".to_string())), Ok(9000));
    for raw in ["65536", " 80", "", "http"] {
        let expected = format!("invalid PROVER_PORT {raw}: {}", raw.parse::<u16>().unwrap_err());
        assert_eq!(bind_port(EnvValue::Present(raw.to_string())), Err(expected));
    }
}

#[test]
fn metrics_count_answers_and_proofs() {
    let mut m = ProveMetrics::new();
    m.record_answer(&prove_error_to_app_error(ProveError::InvalidRequest("x".into())));
    m.record_answer(&overloaded_error(1, 5));
    m.record_answer(&timeout_error(900, 900));
    m.record_proof_started();
    m.record_proof_finished(&Err(ProveError::ProverFailed("boom".into())), 40);
    m.record_proof_started();
    m.record_proof_finished(
        &Ok(ProveResponse { seal_bytes: vec![], journal: vec![], image_id: TRUSTED_RISC0_IMAGE_ID }),
        2,
    );
    assert_eq!((m.bad_requests, m.overloaded, m.timeouts, m.unauthorized), (1, 1, 1, 0));
    assert_eq!((m.proofs_started, m.proofs_completed, m.proofs_succeeded, m.proofs_failed), (2, 2, 1, 1));
    assert_eq!(m.proof_duration_ms_total, 42);

    let policy = resolve_execution_policy(1, 900, 10, 60);
    let text = render_metrics(&m, TRUSTED_RISC0_IMAGE_ID, &readiness(0, 1), &policy);
    assert!(text.starts_with(
        "agenc_prover_build_info{service=\"agenc-prover-server\",image_id=\"163, 162, 235,"
    ));
    assert!(text.contains("\nagenc_prover_ready 0\n"));
    assert!(text.contains("\nagenc_prover_request_timeout_seconds 900\n"));
    assert!(text.contains("\nagenc_prover_proofs_failed_total 1\n"));
    assert!(text.ends_with("agenc_prover_proof_duration_milliseconds_total 42\n"));
}
