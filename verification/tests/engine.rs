use firestore_db_and_auth::documents::{abs_to_rel, create_request, delete_request,
    document_id_of_name, document_url, escape_field_segment, list_page_documents,
    list_page_token, list_request, parse_document, query_request, query_result_document,
    read_request, write_request, FieldOperator, Method, OperationState};
use firestore_db_and_auth::error::{classify_response, retryable_http_status, FirebaseError};
use firestore_db_and_auth::json::JsonValue;
use firestore_db_and_auth::retry::RetryDecision;
use firestore_db_and_auth::value::FieldValue;

fn obj(members: Vec<(&str, JsonValue)>) -> JsonValue {
    JsonValue::Object(members.into_iter().map(|(k, v)| (k.to_string(), v)).collect())
}

fn api_error_body(message: &str) -> JsonValue {
    obj(vec![(
        "error",
        obj(vec![
            ("code", JsonValue::Int(0)),
            ("message", JsonValue::Str(message.to_string())),
            ("status", JsonValue::Str("ERROR".to_string())),
        ]),
    )])
}

#[test]
fn document_url_exact() {
    assert_eq!(
        document_url("demo-project", "tests/service_test_create").as_str(),
        "https://firestore.googleapis.com/v1/projects/demo-project/databases/(default)/documents/tests/service_test_create"
    );
}

#[test]
fn abs_to_rel_strips_the_project_prefix() {
    let absolute = "projects/demo-project/databases/(default)/documents/tests/test";
    assert_eq!(
        abs_to_rel(absolute, "demo-project").as_deref(),
        Some("tests/test")
    );
    assert_eq!(abs_to_rel(absolute, "other-project"), None);
    assert_eq!(abs_to_rel("tests/test", "demo-project"), None);
}

#[test]
fn delete_request_carries_precondition_exactly_when_asked() {
    let strict = delete_request("demo-project", "tests/service_test_create", true);
    assert_eq!(strict.method, Method::Delete);
    assert_eq!(
        strict.url.as_str(),
        "https://firestore.googleapis.com/v1/projects/demo-project/databases/(default)/documents/tests/service_test_create"
    );
    assert_eq!(
        strict.body,
        Some(obj(vec![(
            "currentDocument",
            obj(vec![("exists", JsonValue::Bool(true))]),
        )]))
    );

    let lenient = delete_request("demo-project", "tests/service_test_create", false);
    assert_eq!(lenient.body, Some(obj(vec![("currentDocument", obj(vec![]))])));
}

#[test]
fn create_request_posts_with_document_id() {
    let fields = vec![("a_string".to_string(), FieldValue::Str("abcd".to_string()))];
    let r = create_request("demo-project", "tests", "service_test_create", &fields);
    assert_eq!(r.method, Method::Post);
    assert_eq!(
        r.url.as_str(),
        "https://firestore.googleapis.com/v1/projects/demo-project/databases/(default)/documents/tests?documentId=service_test_create"
    );
    let body = r.body.expect("create carries a body");
    match body {
        JsonValue::Object(members) => {
            assert_eq!(members.len(), 1);
            assert_eq!(members[0].0, "fields");
        },
        other => panic!("expected an object body, got {:?}", other),
    }
}

#[test]
fn write_request_masks_fields_exactly_when_merging() {
    let fields = vec![
        ("an_int".to_string(), FieldValue::Integer(16)),
        (
            "a_map".to_string(),
            FieldValue::Mapping(vec![("a".to_string(), FieldValue::Integer(12))]),
        ),
    ];
    let merge = write_request("demo-project", "tests", Some("service_test"), &fields, true);
    assert_eq!(merge.method, Method::Patch);
    assert_eq!(
        merge.url.as_str(),
        "https://firestore.googleapis.com/v1/projects/demo-project/databases/(default)/documents/tests/service_test"
    );
    match merge.body.expect("write carries a body") {
        JsonValue::Object(members) => {
            assert_eq!(members.len(), 2);
            assert_eq!(members[0].0, "update");
            assert_eq!(members[1].0, "updateMask");
            assert_eq!(
                members[1].1,
                obj(vec![(
                    "fieldPaths",
                    JsonValue::Array(vec![
                        JsonValue::Str("an_int".to_string()),
                        JsonValue::Str("a_map".to_string()),
                    ]),
                )])
            );
        },
        other => panic!("expected an object body, got {:?}", other),
    }

    let replace = write_request("demo-project", "tests", Some("service_test"), &fields, false);
    match replace.body.expect("write carries a body") {
        JsonValue::Object(members) => {
            assert_eq!(members.len(), 1);
            assert_eq!(members[0].0, "update");
        },
        other => panic!("expected an object body, got {:?}", other),
    }
}

#[test]
fn read_and_list_requests_are_plain_gets() {
    let r = read_request("demo-project", "tests", "test");
    assert_eq!(r.method, Method::Get);
    assert!(r.body.is_none());

    let first = list_request("demo-project", "tests", &None);
    assert_eq!(first.method, Method::Get);
    assert_eq!(
        first.url.as_str(),
        "https://firestore.googleapis.com/v1/projects/demo-project/databases/(default)/documents/tests"
    );
    let next = list_request("demo-project", "tests", &Some("tok123".to_string()));
    assert_eq!(
        next.url.as_str(),
        "https://firestore.googleapis.com/v1/projects/demo-project/databases/(default)/documents/tests?pageToken=tok123"
    );
}

#[test]
fn query_request_encodes_filter_and_orderings() {
    let filter = Some((
        FieldValue::Str("abc".to_string()),
        FieldOperator::Equal,
        "a_string".to_string(),
    ));
    let r = query_request("demo-project", "tests", &filter, &None);
    assert_eq!(r.method, Method::Post);
    assert_eq!(
        r.url.as_str(),
        "https://firestore.googleapis.com/v1/projects/demo-project/databases/(default)/documents:runQuery"
    );
    let expected_query = obj(vec![
        (
            "from",
            JsonValue::Array(vec![obj(vec![(
                "collectionId",
                JsonValue::Str("tests".to_string()),
            )])]),
        ),
        (
            "where",
            obj(vec![(
                "fieldFilter",
                obj(vec![
                    ("field", obj(vec![("fieldPath", JsonValue::Str("a_string".to_string()))])),
                    ("op", JsonValue::Str("EQUAL".to_string())),
                    (
                        "value",
                        obj(vec![("stringValue", JsonValue::Str("abc".to_string()))]),
                    ),
                ]),
            )]),
        ),
    ]);
    assert_eq!(r.body, Some(obj(vec![("structuredQuery", expected_query)])));

    let orderings = Some(vec![("a_map.a".to_string(), true), ("an_int".to_string(), false)]);
    let r = query_request("demo-project", "tests", &None, &orderings);
    let expected_query = obj(vec![
        (
            "from",
            JsonValue::Array(vec![obj(vec![(
                "collectionId",
                JsonValue::Str("tests".to_string()),
            )])]),
        ),
        (
            "orderBy",
            JsonValue::Array(vec![
                obj(vec![
                    ("field", obj(vec![("fieldPath", JsonValue::Str("a_map.a".to_string()))])),
                    ("direction", JsonValue::Str("ASCENDING".to_string())),
                ]),
                obj(vec![
                    ("field", obj(vec![("fieldPath", JsonValue::Str("an_int".to_string()))])),
                    ("direction", JsonValue::Str("DESCENDING".to_string())),
                ]),
            ]),
        ),
    ]);
    assert_eq!(r.body, Some(obj(vec![("structuredQuery", expected_query)])));
}

#[test]
fn classifier_separates_success_permanent_and_transient() {
    assert!(classify_response(200, &JsonValue::Null, "tests/x").is_ok());
    assert!(classify_response(204, &JsonValue::Null, "tests/x").is_ok());

    let body = api_error_body("document already exists");
    match classify_response(409, &body, "tests/service_test_create") {
        Err(FirebaseError::Api(code, message, context)) => {
            assert_eq!(code, 409);
            assert_eq!(message, "document already exists");
            assert_eq!(context, "tests/service_test_create");
        },
        other => panic!("expected an Api error, got {:?}", other),
    }

    assert!(!retryable_http_status(200));
    assert!(!retryable_http_status(400));
    assert!(!retryable_http_status(404));
    assert!(!retryable_http_status(409));
    assert!(retryable_http_status(429));
    assert!(retryable_http_status(500));
    assert!(retryable_http_status(503));
    assert!(retryable_http_status(599));
    assert!(!retryable_http_status(600));
}

#[test]
fn create_conflict_yields_409_permanently() {
    // A create on an existing id: the server answers 409, and the
    // engine propagates the Api error without retrying.
    let mut op = OperationState::new("tests/service_test_create".to_string(), 10000);
    let response = api_error_body("Document already exists");
    match op.on_response(409, response) {
        RetryDecision::Fail(FirebaseError::Api(code, _, context)) => {
            assert_eq!(code, 409);
            assert_eq!(context, "tests/service_test_create");
        },
        other => panic!("expected a permanent failure, got {:?}", other),
    }
}

#[test]
fn deleting_a_missing_document_yields_404_with_the_servers_words() {
    let mut op = OperationState::new("tests/non_existing".to_string(), 10000);
    let response = api_error_body("No document to update: tests/non_existing");
    match op.on_response(404, response) {
        RetryDecision::Fail(FirebaseError::Api(code, message, context)) => {
            assert_eq!(code, 404);
            assert!(message.contains("No document to update"));
            assert_eq!(context, "tests/non_existing");
        },
        other => panic!("expected a permanent failure, got {:?}", other),
    }

    // Without the existence precondition the server answers 200 and
    // the delete finishes silently.
    let mut op = OperationState::new("tests/non_existing".to_string(), 10000);
    match op.on_response(200, JsonValue::Object(vec![])) {
        RetryDecision::Finish(_) => {},
        other => panic!("expected the operation to finish, got {:?}", other),
    }
}

#[test]
fn parse_document_reads_name_fields_and_times() {
    let wire = obj(vec![
        (
            "name",
            JsonValue::Str(
                "projects/demo-project/databases/(default)/documents/tests/test".to_string(),
            ),
        ),
        (
            "fields",
            obj(vec![(
                "a_string",
                obj(vec![("stringValue", JsonValue::Str("abc".to_string()))]),
            )]),
        ),
        ("createTime", JsonValue::Str("2020-05-01T12:00:00Z".to_string())),
        ("updateTime", JsonValue::Str("2020-05-02T12:00:00Z".to_string())),
    ]);
    let d = parse_document(&wire).expect("parsing a well-formed document");
    assert_eq!(
        d.name,
        "projects/demo-project/databases/(default)/documents/tests/test"
    );
    assert_eq!(d.fields, vec![(
        "a_string".to_string(),
        FieldValue::Str("abc".to_string()),
    )]);
    assert_eq!(d.create_time.as_deref(), Some("2020-05-01T12:00:00Z"));
    assert_eq!(d.update_time.as_deref(), Some("2020-05-02T12:00:00Z"));

    assert!(parse_document(&obj(vec![])).is_none());
}

#[test]
fn field_segments_needing_escape_are_backquoted() {
    assert_eq!(escape_field_segment("a_map").as_str(), "a_map");
    assert_eq!(escape_field_segment("an_int2").as_str(), "an_int2");
    assert_eq!(escape_field_segment("_private").as_str(), "_private");
    assert_eq!(escape_field_segment("000").as_str(), "`000`");
    assert_eq!(escape_field_segment("2nd").as_str(), "`2nd`");
    assert_eq!(escape_field_segment("with space").as_str(), "`with space`");
    assert_eq!(escape_field_segment("").as_str(), "``");
}

#[test]
fn a_query_matching_nothing_finishes_with_an_empty_result() {
    // The server answers a structured query that matches no document
    // with an empty result array; the operation finishes with it,
    // a finite, empty sequence.
    let mut op = OperationState::new("tests".to_string(), 10000);
    match op.on_response(200, JsonValue::Array(vec![])) {
        RetryDecision::Finish(JsonValue::Array(items)) => assert!(items.is_empty()),
        other => panic!("expected an empty result array, got {:?}", other),
    }
}

#[test]
fn document_names_resolve_to_their_last_segment() {
    assert_eq!(
        document_id_of_name("projects/demo-project/databases/(default)/documents/tests/test")
            .as_str(),
        "test"
    );
    assert_eq!(document_id_of_name("no_slashes").as_str(), "no_slashes");
    assert_eq!(document_id_of_name("trailing/").as_str(), "");
    assert_eq!(document_id_of_name("").as_str(), "");
}

#[test]
fn transport_failures_are_retried_until_the_budget_runs_out() {
    let mut op = OperationState::new("tests/x".to_string(), 600);
    match op.on_transport_failure(FirebaseError::Transport("connection reset".to_string())) {
        RetryDecision::RetryAfter(delay) => assert_eq!(delay, 500),
        other => panic!("expected a retry, got {:?}", other),
    }
    match op.on_transport_failure(FirebaseError::Transport("connection reset".to_string())) {
        RetryDecision::Fail(FirebaseError::BudgetExhausted(inner)) => {
            assert!(matches!(*inner, FirebaseError::Transport(_)));
        },
        other => panic!("expected budget exhaustion, got {:?}", other),
    }
}

#[test]
fn a_response_without_an_error_envelope_classifies_with_an_empty_message() {
    match classify_response(500, &JsonValue::Null, "tests/x") {
        Err(FirebaseError::Api(code, message, context)) => {
            assert_eq!(code, 500);
            assert_eq!(message, "");
            assert_eq!(context, "tests/x");
        },
        other => panic!("expected an Api error, got {:?}", other),
    }
    // A body with an envelope of the wrong shape reads the same way.
    let body = obj(vec![("error", JsonValue::Str("oops".to_string()))]);
    match classify_response(503, &body, "tests/x") {
        Err(FirebaseError::Api(_, message, _)) => assert_eq!(message, ""),
        other => panic!("expected an Api error, got {:?}", other),
    }
}

#[test]
fn attempt_time_counts_against_the_budget() {
    // An attempt that itself consumed most of the budget leaves no
    // room for the next backoff delay: the following transient
    // failure exhausts the budget at once.
    let mut op = OperationState::new("tests/x".to_string(), 1000);
    op.charge_elapsed(800);
    match op.on_transport_failure(FirebaseError::Transport("timeout".to_string())) {
        RetryDecision::Fail(FirebaseError::BudgetExhausted(_)) => {},
        other => panic!("expected budget exhaustion, got {:?}", other),
    }
    // Charging saturates at the budget instead of overflowing past it.
    let mut op = OperationState::new("tests/x".to_string(), 1000);
    op.charge_elapsed(u64::MAX);
    match op.on_transport_failure(FirebaseError::Transport("timeout".to_string())) {
        RetryDecision::Fail(FirebaseError::BudgetExhausted(_)) => {},
        other => panic!("expected budget exhaustion, got {:?}", other),
    }
}

#[test]
fn list_pages_split_into_documents_and_token() {
    let page = obj(vec![
        (
            "documents",
            JsonValue::Array(vec![obj(vec![(
                "name",
                JsonValue::Str("projects/p/databases/(default)/documents/tests/a".to_string()),
            )])]),
        ),
        ("nextPageToken", JsonValue::Str("tok123".to_string())),
    ]);
    let items = list_page_documents(&page).expect("the page carries documents");
    assert_eq!(items.len(), 1);
    assert_eq!(list_page_token(&page).as_deref(), Some("tok123"));

    let last_page = obj(vec![("documents", JsonValue::Array(vec![]))]);
    assert_eq!(list_page_documents(&last_page).map(|v| v.len()), Some(0));
    assert_eq!(list_page_token(&last_page), None);
}

#[test]
fn query_result_items_yield_their_document() {
    let with_doc = obj(vec![(
        "document",
        obj(vec![("name", JsonValue::Str("tests/a".to_string()))]),
    )]);
    assert!(query_result_document(&with_doc).is_some());
    // The closing item of a query response holds only a read time.
    let read_time_only = obj(vec![(
        "readTime",
        JsonValue::Str("2020-05-01T12:00:00Z".to_string()),
    )]);
    assert!(query_result_document(&read_time_only).is_none());
}
