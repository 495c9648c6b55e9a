use firestore_db_and_auth::error::FirebaseError;
use firestore_db_and_auth::json::JsonValue;
use firestore_db_and_auth::retry::{execute_script, AttemptOutcome, RetryDecision, RetryState,
    INITIAL_RETRY_INTERVAL_MS};
use firestore_db_and_auth::session::{assertion_claims, parse_token_response, Credentials,
    Session, Token, TokenAction, ASSERTION_LIFETIME_S, TOKEN_SAFETY_MARGIN_MS};

fn transient(message: &str) -> AttemptOutcome {
    AttemptOutcome::Transient(FirebaseError::Transport(message.to_string()))
}

fn credentials() -> Credentials {
    Credentials {
        project_id: "demo-project".to_string(),
        client_email: "service@demo-project.example".to_string(),
        private_key: "SECRET-REDACTED".to_string(),
        api_key: "SECRET-REDACTED".to_string(),
    }
}

#[test]
fn two_transient_failures_then_success() {
    // The server answers 500 twice, then 200: the operation succeeds
    // on the third attempt, after two retried transient failures,
    // with increasing delay between the attempts.
    let script = vec![
        transient("HTTP 500"),
        transient("HTTP 500"),
        AttemptOutcome::Success(JsonValue::Bool(true)),
    ];
    let report = execute_script(script, 60000);
    assert!(matches!(report.result, Ok(JsonValue::Bool(true))));
    assert_eq!(report.attempts, 3);
    assert_eq!(report.delays, vec![500, 1000]);
    assert!(report.delays[0] < report.delays[1]);
    assert_eq!(report.delays[0], INITIAL_RETRY_INTERVAL_MS);
}

#[test]
fn endless_transient_failures_exhaust_the_budget() {
    // Every attempt fails with 500: the run must end with a
    // budget-exhausted error once the cumulative delay would pass the
    // budget — never retrying indefinitely.
    let script: Vec<AttemptOutcome> = (0..50).map(|_| transient("HTTP 500")).collect();
    let report = execute_script(script, 10000);
    match report.result {
        Err(FirebaseError::BudgetExhausted(inner)) => match *inner {
            FirebaseError::Transport(message) => assert_eq!(message, "HTTP 500"),
            other => panic!("expected the last transient error, got {:?}", other),
        },
        other => panic!("expected budget exhaustion, got {:?}", other),
    }
    // Delays 500 + 1000 + 2000 + 4000 = 7500; the next delay of 8000
    // would pass 10000, so exactly four retries happen.
    assert_eq!(report.delays, vec![500, 1000, 2000, 4000]);
    assert_eq!(report.attempts, 5);
}

#[test]
fn permanent_failures_propagate_at_once() {
    let script = vec![
        AttemptOutcome::Permanent(FirebaseError::Api(404, "missing".to_string(),
            "tests/x".to_string())),
        AttemptOutcome::Success(JsonValue::Null),
    ];
    let report = execute_script(script, 60000);
    match report.result {
        Err(FirebaseError::Api(code, _, _)) => assert_eq!(code, 404),
        other => panic!("expected the Api error, got {:?}", other),
    }
    assert_eq!(report.attempts, 1);
    assert!(report.delays.is_empty());
}

#[test]
fn retry_state_doubles_the_interval() {
    let mut state = RetryState::new(60000);
    match state.on_outcome(transient("HTTP 503")) {
        RetryDecision::RetryAfter(delay) => assert_eq!(delay, 500),
        other => panic!("expected a retry, got {:?}", other),
    }
    match state.on_outcome(transient("HTTP 503")) {
        RetryDecision::RetryAfter(delay) => assert_eq!(delay, 1000),
        other => panic!("expected a retry, got {:?}", other),
    }
}

#[test]
fn expired_cache_is_refreshed_and_readers_see_whole_tokens() {
    // Two callers find the cached token expired; each is told to
    // refresh. Whichever refresh lands last, afterwards every reader
    // is handed that entire bearer string, valid past the margin.
    let now: u64 = 1_000_000;
    let mut session = Session::for_user(
        credentials(),
        "user-1".to_string(),
        Token {
            bearer: "stale".to_string(),
            expires_at_ms: now - 1,
            refresh_token: Some("refresh-1".to_string()),
        },
    );
    assert!(matches!(session.token_decision(now), TokenAction::Refresh));
    assert!(matches!(session.token_decision(now), TokenAction::Refresh));

    let fresh_a = Token {
        bearer: "fresh-a".to_string(),
        expires_at_ms: now + 3_600_000,
        refresh_token: Some("refresh-1".to_string()),
    };
    let fresh_b = Token {
        bearer: "fresh-b".to_string(),
        expires_at_ms: now + 7_200_000,
        refresh_token: Some("refresh-1".to_string()),
    };
    session.install_token(fresh_a);
    session.install_token(fresh_b);

    for _ in 0..2 {
        match session.token_decision(now) {
            TokenAction::UseCached(bearer) => assert_eq!(bearer, "fresh-b"),
            TokenAction::Refresh => panic!("the refreshed token must be used"),
        }
    }
}

#[test]
fn cached_token_is_reused_until_the_safety_margin() {
    let now: u64 = 1_000_000;
    let session = Session::for_access_token(
        credentials(),
        "user-1".to_string(),
        "bearer-1".to_string(),
        now + TOKEN_SAFETY_MARGIN_MS + 1,
    );
    match session.token_decision(now) {
        TokenAction::UseCached(bearer) => assert_eq!(bearer, "bearer-1"),
        TokenAction::Refresh => panic!("a valid token must be served from the cache"),
    }
    // One millisecond before the margin is reached the token is stale.
    match session.token_decision(now + 2) {
        TokenAction::Refresh => {},
        TokenAction::UseCached(_) => panic!("a stale token must not be served"),
    }
}

#[test]
fn token_responses_parse_with_absolute_expiry() {
    let response = JsonValue::Object(vec![
        ("access_token".to_string(), JsonValue::Str("bearer-xyz".to_string())),
        ("expires_in".to_string(), JsonValue::Int(3600)),
        ("refresh_token".to_string(), JsonValue::Str("refresh-xyz".to_string())),
    ]);
    let token = parse_token_response(&response, 5000).expect("a well-formed token response");
    assert_eq!(token.bearer, "bearer-xyz");
    assert_eq!(token.expires_at_ms, 5000 + 3600 * 1000);
    assert_eq!(token.refresh_token.as_deref(), Some("refresh-xyz"));

    let missing = JsonValue::Object(vec![(
        "expires_in".to_string(),
        JsonValue::Int(3600),
    )]);
    assert!(parse_token_response(&missing, 5000).is_none());
}

#[test]
fn credentials_validate_requires_the_key_material() {
    assert!(credentials().validate().is_ok());
    let mut incomplete = credentials();
    incomplete.private_key = String::new();
    assert!(incomplete.validate().is_err());
}

#[test]
fn assertion_claims_carry_issuer_audience_and_expiry() {
    let claims = assertion_claims(&credentials(), 1_700_000_000);
    match claims {
        JsonValue::Object(members) => {
            assert_eq!(members.len(), 5);
            assert_eq!(
                members[0],
                ("iss".to_string(), JsonValue::Str("service@demo-project.example".to_string()))
            );
            assert_eq!(members[3], ("iat".to_string(), JsonValue::Int(1_700_000_000)));
            assert_eq!(
                members[4],
                ("exp".to_string(), JsonValue::Int(1_700_000_000 + ASSERTION_LIFETIME_S as i64))
            );
        },
        other => panic!("expected a claim object, got {:?}", other),
    }
}
