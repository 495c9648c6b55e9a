//! The document operation engine: building the HTTP requests for
//! create, read, write, delete, list and query, and interpreting the
//! responses. Each operation is one request builder plus the shared
//! response step [`OperationState::on_response`], which classifies the
//! status, consults the retry strategy, and says whether to finish,
//! sleep and retry, or fail. The surrounding application performs the
//! send and the sleep.

use vstd::prelude::*;
use crate::error::{FirebaseError, spec_success_status, spec_retryable_status,
    spec_error_message, classify_response, retryable_http_status};
use crate::json::{JsonModel, JsonValue, json_model_members, lemma_model_members, str_eq,
    spec_lookup};
use crate::retry::{RetryState, RetryDecision, AttemptOutcome, spec_next_interval};
use crate::value::{FieldValue, encode_fields, spec_encode_entries, field_model_entries};

verus! {

broadcast use vstd::std_specs::vec::group_vec_axioms;

/// The HTTP methods the engine uses.
#[derive(Debug, PartialEq, Eq, Structural, Clone, Copy)]
pub enum Method {
    Get,
    Post,
    Patch,
    Delete,
}

/// One HTTP request, ready for a transport to send with a bearer
/// authorization header.
pub struct HttpRequest {
    pub method: Method,
    pub url: String,
    pub body: Option<JsonValue>,
}

/// The absolute URL of a relative `collection/document` path.
pub open spec fn spec_document_url(project: Seq<char>, path: Seq<char>) -> Seq<char> {
    "https://firestore.googleapis.com/v1/projects/"@ + project
        + "/databases/(default)/documents/"@ + path
}

/// Builds the absolute URL of a relative `collection/document` path.
pub fn document_url(project: &str, path: &str) -> (r: String)
    ensures
        r@ == spec_document_url(project@, path@),
{
    let mut url: String = "https://firestore.googleapis.com/v1/projects/".to_owned();
    url.append(project);
    url.append("/databases/(default)/documents/");
    url.append(path);
    url
}

/// The document-name prefix that absolute paths carry.
pub open spec fn spec_name_prefix(project: Seq<char>) -> Seq<char> {
    "projects/"@ + project + "/databases/(default)/documents/"@
}

/// Strips the absolute-name prefix from a document name handed back
/// by list or query results, leaving the relative
/// `collection/document` path that the other operations take. Yields
/// nothing when the name does not carry this project's prefix.
pub fn abs_to_rel(absolute: &str, project: &str) -> (r: Option<String>)
    ensures
        match r {
            Some(rel) => absolute@ == spec_name_prefix(project@) + rel@,
            None => forall|rel: Seq<char>| absolute@ != spec_name_prefix(project@) + rel,
        },
{
    let mut prefix: String = "projects/".to_owned();
    prefix.append(project);
    prefix.append("/databases/(default)/documents/");
    let total = absolute.unicode_len();
    let plen = prefix.as_str().unicode_len();
    if total < plen {
        proof {
            assert forall|rel: Seq<char>|
                absolute@ != spec_name_prefix(project@) + rel by {
                assert((spec_name_prefix(project@) + rel).len() >= plen);
            }
        }
        return None;
    }
    let head = absolute.substring_char(0, plen);
    let tail = absolute.substring_char(plen, total);
    if str_eq(head, prefix.as_str()) {
        proof {
            assert(absolute@ =~= spec_name_prefix(project@) + tail@);
        }
        Some(tail.to_owned())
    } else {
        proof {
            assert forall|rel: Seq<char>|
                absolute@ != spec_name_prefix(project@) + rel by {
                if absolute@ == spec_name_prefix(project@) + rel {
                    assert(head@ =~= spec_name_prefix(project@));
                }
            }
        }
        None
    }
}

/// The body of a delete or unconditional write: a write envelope
/// whose `currentDocument` precondition demands existence exactly
/// when asked to.
pub open spec fn spec_delete_body(fail_if_not_existing: bool) -> JsonModel {
    if fail_if_not_existing {
        JsonModel::Object(
            seq![
                (
                    "currentDocument"@,
                    JsonModel::Object(seq![("exists"@, JsonModel::Bool(true))]),
                ),
            ],
        )
    } else {
        JsonModel::Object(seq![("currentDocument"@, JsonModel::Object(Seq::empty()))])
    }
}

/// Builds the delete request for the document at the given relative
/// path. When `fail_if_not_existing` is set, the body carries the
/// precondition `{"currentDocument": {"exists": true}}`, so that the
/// server rejects the call on an absent document; otherwise the
/// precondition is left empty and deleting an absent document
/// succeeds silently.
pub fn delete_request(project: &str, path: &str, fail_if_not_existing: bool) -> (r: HttpRequest)
    ensures
        r.method is Delete,
        r.url@ == spec_document_url(project@, path@),
        r.body matches Some(b) && b@ == spec_delete_body(fail_if_not_existing),
{
    let mut precondition: Vec<(String, JsonValue)> = Vec::new();
    if fail_if_not_existing {
        precondition.push(("exists".to_owned(), JsonValue::Bool(true)));
    }
    proof {
        lemma_model_members(precondition@);
        if fail_if_not_existing {
            assert(json_model_members(precondition@) =~= seq![
                ("exists"@, JsonModel::Bool(true)),
            ]);
        } else {
            assert(json_model_members(precondition@)
                =~= Seq::<(Seq<char>, JsonModel)>::empty());
        }
    }
    let mut envelope: Vec<(String, JsonValue)> = Vec::new();
    envelope.push(("currentDocument".to_owned(), JsonValue::Object(precondition)));
    proof {
        lemma_model_members(envelope@);
        assert(json_model_members(envelope@) =~= (spec_delete_body(
            fail_if_not_existing,
        )->Object_0));
    }
    HttpRequest {
        method: Method::Delete,
        url: document_url(project, path),
        body: Some(JsonValue::Object(envelope)),
    }
}

/// The body of a create or write: `{"fields": <encoded field set>}`.
pub open spec fn spec_fields_body(fields: Seq<(Seq<char>, crate::value::FieldModel)>) -> JsonModel {
    JsonModel::Object(
        seq![("fields"@, JsonModel::Object(spec_encode_entries(fields)))],
    )
}

/// Builds the create request: a POST to the collection naming the new
/// document id in the query string, with the encoded field set as the
/// body. The server itself enforces that the document must not exist
/// yet, answering 409 when it does.
pub fn create_request(project: &str, collection: &str, document_id: &str, fields: &Vec<
    (String, FieldValue),
>) -> (r: HttpRequest)
    ensures
        r.method is Post,
        r.url@ == spec_document_url(project@, collection@) + "?documentId="@ + document_id@,
        r.body matches Some(b) && b@ == spec_fields_body(field_model_entries(fields@)),
{
    let mut url = document_url(project, collection);
    url.append("?documentId=");
    url.append(document_id);
    let encoded = encode_fields(fields);
    let mut envelope: Vec<(String, JsonValue)> = Vec::new();
    envelope.push(("fields".to_owned(), encoded));
    proof {
        lemma_model_members(envelope@);
        assert(json_model_members(envelope@) =~= (spec_fields_body(
            field_model_entries(fields@),
        )->Object_0));
    }
    HttpRequest { method: Method::Post, url, body: Some(JsonValue::Object(envelope)) }
}

/// The update mask a merge write carries: one field path per field
/// present in the update, in order.
pub open spec fn spec_field_paths(fields: Seq<(Seq<char>, crate::value::FieldModel)>) -> Seq<
    JsonModel,
>
    decreases fields.len(),
{
    if fields.len() == 0 {
        Seq::empty()
    } else {
        seq![JsonModel::Str(fields[0].0)] + spec_field_paths(
            fields.subrange(1, fields.len() as int),
        )
    }
}

/// The field paths, element by element.
pub proof fn lemma_spec_field_paths(fields: Seq<(Seq<char>, crate::value::FieldModel)>)
    ensures
        spec_field_paths(fields).len() == fields.len(),
        forall|i: int|
            0 <= i < fields.len() ==> spec_field_paths(fields)[i] == JsonModel::Str(fields[i].0),
    decreases fields.len(),
{
    if fields.len() > 0 {
        lemma_spec_field_paths(fields.subrange(1, fields.len() as int));
        assert forall|i: int|
            0 <= i < fields.len() implies spec_field_paths(fields)[i] == JsonModel::Str(
            fields[i].0,
        ) by {
            if i > 0 {
                assert(fields.subrange(1, fields.len() as int)[i - 1] == fields[i]);
            }
        }
    }
}

/// The client half of merge semantics: the update mask of a merge
/// write names exactly the update's field paths — a field name is in
/// the mask precisely when the update carries that field. A field
/// absent from the update is therefore absent from the mask, which
/// is what instructs the server to leave its stored value untouched;
/// a write without merge carries no mask at all and replaces the
/// whole field set. What the server then does with the mask is its
/// side of the contract.
pub proof fn lemma_merge_mask_is_exact(
    fields: Seq<(Seq<char>, crate::value::FieldModel)>,
    name: Seq<char>,
)
    ensures
        (exists|i: int|
            #![trigger spec_field_paths(fields)[i]]
            0 <= i < spec_field_paths(fields).len() && spec_field_paths(fields)[i]
                == JsonModel::Str(name)) <==> (exists|i: int|
            #![trigger fields[i]]
            0 <= i < fields.len() && fields[i].0 == name),
{
    lemma_spec_field_paths(fields);
    if exists|i: int| #![trigger fields[i]] 0 <= i < fields.len() && fields[i].0 == name {
        let i = choose|i: int| #![trigger fields[i]] 0 <= i < fields.len() && fields[i].0 == name;
        assert(spec_field_paths(fields)[i] == JsonModel::Str(name));
    }
    if exists|i: int|
        #![trigger spec_field_paths(fields)[i]]
        0 <= i < spec_field_paths(fields).len() && spec_field_paths(fields)[i] == JsonModel::Str(
            name,
        ) {
        let i = choose|i: int|
            #![trigger spec_field_paths(fields)[i]]
            0 <= i < spec_field_paths(fields).len() && spec_field_paths(fields)[i]
                == JsonModel::Str(name);
        assert(fields[i].0 == name);
    }
}

/// The body of a write: the update document, and — exactly when the
/// write is a merge — an update mask listing the field paths present
/// in the update, so the server leaves every other field untouched. A
/// write without a mask replaces the whole field set.
pub open spec fn spec_write_body(
    fields: Seq<(Seq<char>, crate::value::FieldModel)>,
    merge: bool,
) -> JsonModel {
    if merge {
        JsonModel::Object(
            seq![
                ("update"@, spec_fields_body(fields)),
                (
                    "updateMask"@,
                    JsonModel::Object(
                        seq![("fieldPaths"@, JsonModel::Array(spec_field_paths(fields)))],
                    ),
                ),
            ],
        )
    } else {
        JsonModel::Object(seq![("update"@, spec_fields_body(fields))])
    }
}

/// Builds the write request. With a document id it is a PATCH on
/// that document; without one it is a POST on the collection and the
/// server assigns a generated id. Either way the body is the write
/// envelope of [`spec_write_body`]: with `merge` set, only the field
/// paths present in `fields` are touched server-side; without it,
/// fields absent from `fields` are deleted.
pub fn write_request(project: &str, collection: &str, document_id: Option<&str>, fields: &Vec<
    (String, FieldValue),
>, merge: bool) -> (r: HttpRequest)
    ensures
        match document_id {
            Some(id) => r.method is Patch && r.url@ == spec_document_url(project@, collection@)
                + "/"@ + id@,
            None => r.method is Post && r.url@ == spec_document_url(project@, collection@),
        },
        r.body matches Some(b) && b@ == spec_write_body(field_model_entries(fields@), merge),
{
    let mut url = document_url(project, collection);
    let method = match document_id {
        Some(id) => {
            url.append("/");
            url.append(id);
            Method::Patch
        },
        None => Method::Post,
    };
    let encoded = encode_fields(fields);
    let mut update: Vec<(String, JsonValue)> = Vec::new();
    update.push(("fields".to_owned(), encoded));
    proof {
        lemma_model_members(update@);
        assert(json_model_members(update@) =~= (spec_fields_body(
            field_model_entries(fields@),
        )->Object_0));
    }
    let mut envelope: Vec<(String, JsonValue)> = Vec::new();
    envelope.push(("update".to_owned(), JsonValue::Object(update)));
    if merge {
        let mut paths: Vec<JsonValue> = Vec::new();
        let n = fields.len();
        let mut i: usize = 0;
        while i < n
            invariant
                n == fields@.len(),
                0 <= i <= n,
                paths@.len() == i,
                forall|k: int|
                    0 <= k < i ==> (#[trigger] paths@[k] matches JsonValue::Str(s) && s@ == fields@[k].0@),
            decreases n - i,
        {
            paths.push(JsonValue::Str(fields[i].0.clone()));
            i = i + 1;
        }
        let mut mask: Vec<(String, JsonValue)> = Vec::new();
        mask.push(("fieldPaths".to_owned(), JsonValue::Array(paths)));
        envelope.push(("updateMask".to_owned(), JsonValue::Object(mask)));
        proof {
            crate::json::lemma_model_seq(mask@[0].1->Array_0@);
            crate::value::lemma_field_model_entries(fields@);
            lemma_spec_field_paths(field_model_entries(fields@));
            assert(crate::json::json_model_seq(mask@[0].1->Array_0@) =~= spec_field_paths(
                field_model_entries(fields@),
            ));
            lemma_model_members(mask@);
            assert(json_model_members(mask@) =~= seq![
                ("fieldPaths"@, JsonModel::Array(spec_field_paths(field_model_entries(fields@)))),
            ]);
            lemma_model_members(envelope@);
            assert(json_model_members(envelope@) =~= (spec_write_body(
                field_model_entries(fields@),
                true,
            )->Object_0));
        }
        HttpRequest { method, url, body: Some(JsonValue::Object(envelope)) }
    } else {
        proof {
            lemma_model_members(envelope@);
            assert(json_model_members(envelope@) =~= (spec_write_body(
                field_model_entries(fields@),
                false,
            )->Object_0));
        }
        HttpRequest { method, url, body: Some(JsonValue::Object(envelope)) }
    }
}

/// Builds the read request for `collection/id`: a plain GET on the
/// document URL.
pub fn read_request(project: &str, collection: &str, document_id: &str) -> (r: HttpRequest)
    ensures
        r.method is Get,
        r.url@ == spec_document_url(project@, collection@) + "/"@ + document_id@,
        r.body is None,
{
    let mut url = document_url(project, collection);
    url.append("/");
    url.append(document_id);
    HttpRequest { method: Method::Get, url, body: None }
}

/// Builds one page request of a list: a GET on the collection URL,
/// carrying the continuation token of the previous page when there is
/// one.
pub fn list_request(project: &str, collection: &str, page_token: &Option<String>) -> (r:
    HttpRequest)
    ensures
        r.method is Get,
        match page_token {
            Some(t) => r.url@ == spec_document_url(project@, collection@) + "?pageToken="@ + t@,
            None => r.url@ == spec_document_url(project@, collection@),
        },
        r.body is None,
{
    let mut url = document_url(project, collection);
    match page_token {
        Some(t) => {
            url.append("?pageToken=");
            url.append(t.as_str());
        },
        None => {},
    }
    HttpRequest { method: Method::Get, url, body: None }
}

} // verus!

verus! {

/// One in-flight operation: its retry state and the caller-supplied
/// context (the document path) that errors carry verbatim.
pub struct OperationState {
    pub retry: RetryState,
    pub context: String,
}

impl OperationState {
    /// A fresh operation allowed `budget_ms` of cumulative retry delay.
    pub fn new(context: String, budget_ms: u64) -> (r: OperationState)
        ensures
            r.retry.wf(),
            r.retry.elapsed_ms == 0,
            r.retry.interval_ms == crate::retry::INITIAL_RETRY_INTERVAL_MS,
            r.retry.budget_ms == budget_ms,
            r.context == context,
    {
        OperationState { retry: RetryState::new(budget_ms), context }
    }

    /// Interprets one HTTP response. A 2xx status finishes the
    /// operation with the response body. Any other status becomes an
    /// `Api` error carrying the status, the message from the error
    /// body, and the context; when the status is transient (429 or
    /// 5xx) the error is retried after the current backoff delay
    /// until the budget runs out, and when it is permanent the error
    /// propagates at once.
    pub fn on_response(&mut self, status: u16, body: JsonValue) -> (r: RetryDecision)
        requires
            old(self).retry.wf(),
        ensures
            final(self).retry.wf(),
            final(self).context == old(self).context,
            final(self).retry.budget_ms == old(self).retry.budget_ms,
            spec_success_status(status) ==> r == RetryDecision::Finish(body) && *final(self)
                == *old(self),
            !spec_success_status(status) && !spec_retryable_status(status) ==> (r matches
                RetryDecision::Fail(e) && spec_api_error(e, status, body, old(self).context)
                && *final(self) == *old(self)),
            !spec_success_status(status) && spec_retryable_status(status) && old(self).retry.elapsed_ms + old(self).retry.interval_ms > old(self).retry.budget_ms ==> (r
                matches RetryDecision::Fail(FirebaseError::BudgetExhausted(inner))
                && spec_api_error(*inner, status, body, old(self).context) && final(self).retry
                == old(self).retry),
            !spec_success_status(status) && spec_retryable_status(status) && old(self).retry.elapsed_ms + old(self).retry.interval_ms <= old(self).retry.budget_ms ==> (r
                == RetryDecision::RetryAfter(old(self).retry.interval_ms)
                && final(self).retry.elapsed_ms == old(self).retry.elapsed_ms + old(self).retry.interval_ms
                && final(self).retry.interval_ms == spec_next_interval(
                old(self).retry.interval_ms,
            )),
    {
        match classify_response(status, &body, self.context.as_str()) {
            Ok(()) => RetryDecision::Finish(body),
            Err(e) => {
                if retryable_http_status(status) {
                    self.retry.on_outcome(AttemptOutcome::Transient(e))
                } else {
                    self.retry.on_outcome(AttemptOutcome::Permanent(e))
                }
            },
        }
    }
}

impl OperationState {
    /// Charges the measured duration of an attempt against the retry
    /// budget, so the budget bounds wall-clock time and not only the
    /// sleeps; see [`RetryState::charge_elapsed`].
    pub fn charge_elapsed(&mut self, spent_ms: u64)
        requires
            old(self).retry.wf(),
        ensures
            final(self).retry.wf(),
            final(self).context == old(self).context,
            final(self).retry.interval_ms == old(self).retry.interval_ms,
            final(self).retry.budget_ms == old(self).retry.budget_ms,
            final(self).retry.elapsed_ms == (if old(self).retry.elapsed_ms + spent_ms <= old(
                self,
            ).retry.budget_ms {
                (old(self).retry.elapsed_ms + spent_ms) as u64
            } else {
                old(self).retry.budget_ms
            }),
    {
        self.retry.charge_elapsed(spent_ms);
    }

    /// Interprets a failure below the HTTP status level — a connection
    /// loss, a timeout the transport reports. Such failures are
    /// transient: the operation retries them under the same backoff
    /// delays until the budget runs out, whereupon the error surfaces
    /// wrapped as budget exhaustion.
    pub fn on_transport_failure(&mut self, error: FirebaseError) -> (r: RetryDecision)
        requires
            old(self).retry.wf(),
        ensures
            final(self).retry.wf(),
            final(self).context == old(self).context,
            final(self).retry.budget_ms == old(self).retry.budget_ms,
            old(self).retry.elapsed_ms + old(self).retry.interval_ms > old(self).retry.budget_ms
                ==> (r matches RetryDecision::Fail(FirebaseError::BudgetExhausted(inner))
                && *inner == error && final(self).retry == old(self).retry),
            old(self).retry.elapsed_ms + old(self).retry.interval_ms <= old(self).retry.budget_ms
                ==> (r == RetryDecision::RetryAfter(old(self).retry.interval_ms)
                && final(self).retry.elapsed_ms == old(self).retry.elapsed_ms + old(
                self,
            ).retry.interval_ms && final(self).retry.interval_ms == spec_next_interval(
                old(self).retry.interval_ms,
            )),
    {
        self.retry.on_outcome(AttemptOutcome::Transient(error))
    }
}

/// `e` is the `Api` error that classifying this response under this
/// context yields: the status code, the message of the error body (or
/// the empty string), and the context, verbatim.
pub open spec fn spec_api_error(
    e: FirebaseError,
    status: u16,
    body: JsonValue,
    context: String,
) -> bool {
    e matches FirebaseError::Api(c, m, ctx) && c == status && ctx@ == context@ && m@ == (
    match spec_error_message(body@) {
        Some(msg) => msg,
        None => Seq::<char>::empty(),
    })
}

/// The comparison operators a query filter can use.
#[derive(Debug, Clone, Copy)]
pub enum FieldOperator {
    Equal,
    LessThan,
    LessThanOrEqual,
    GreaterThan,
    GreaterThanOrEqual,
    ArrayContains,
}

/// The wire name of a filter operator.
pub open spec fn spec_operator_name(op: FieldOperator) -> Seq<char> {
    match op {
        FieldOperator::Equal => "EQUAL"@,
        FieldOperator::LessThan => "LESS_THAN"@,
        FieldOperator::LessThanOrEqual => "LESS_THAN_OR_EQUAL"@,
        FieldOperator::GreaterThan => "GREATER_THAN"@,
        FieldOperator::GreaterThanOrEqual => "GREATER_THAN_OR_EQUAL"@,
        FieldOperator::ArrayContains => "ARRAY_CONTAINS"@,
    }
}

/// The wire name of a filter operator.
pub fn operator_name(op: &FieldOperator) -> (r: String)
    ensures
        r@ == spec_operator_name(*op),
{
    match op {
        FieldOperator::Equal => "EQUAL".to_owned(),
        FieldOperator::LessThan => "LESS_THAN".to_owned(),
        FieldOperator::LessThanOrEqual => "LESS_THAN_OR_EQUAL".to_owned(),
        FieldOperator::GreaterThan => "GREATER_THAN".to_owned(),
        FieldOperator::GreaterThanOrEqual => "GREATER_THAN_OR_EQUAL".to_owned(),
        FieldOperator::ArrayContains => "ARRAY_CONTAINS".to_owned(),
    }
}

/// The wire shape of a field reference: `{"fieldPath": path}`.
pub open spec fn spec_field_ref(path: Seq<char>) -> JsonModel {
    JsonModel::Object(seq![("fieldPath"@, JsonModel::Str(path))])
}

/// The wire shape of one `where` filter.
pub open spec fn spec_filter_body(
    value: crate::value::FieldModel,
    op: FieldOperator,
    path: Seq<char>,
) -> JsonModel {
    JsonModel::Object(
        seq![
            (
                "fieldFilter"@,
                JsonModel::Object(
                    seq![
                        ("field"@, spec_field_ref(path)),
                        ("op"@, JsonModel::Str(spec_operator_name(op))),
                        ("value"@, crate::value::spec_encode_field(value)),
                    ],
                ),
            ),
        ],
    )
}

/// The wire shape of one ordering: field reference plus direction.
pub open spec fn spec_order_body(path: Seq<char>, ascending: bool) -> JsonModel {
    JsonModel::Object(
        seq![
            ("field"@, spec_field_ref(path)),
            (
                "direction"@,
                JsonModel::Str(
                    if ascending {
                        "ASCENDING"@
                    } else {
                        "DESCENDING"@
                    },
                ),
            ),
        ],
    )
}

/// The orderings of a query, element by element.
pub open spec fn spec_order_list(orderings: Seq<(Seq<char>, bool)>) -> Seq<JsonModel>
    decreases orderings.len(),
{
    if orderings.len() == 0 {
        Seq::empty()
    } else {
        seq![spec_order_body(orderings[0].0, orderings[0].1)] + spec_order_list(
            orderings.subrange(1, orderings.len() as int),
        )
    }
}

/// The order list, element by element.
pub proof fn lemma_spec_order_list(orderings: Seq<(Seq<char>, bool)>)
    ensures
        spec_order_list(orderings).len() == orderings.len(),
        forall|i: int|
            0 <= i < orderings.len() ==> spec_order_list(orderings)[i] == spec_order_body(
                orderings[i].0,
                orderings[i].1,
            ),
    decreases orderings.len(),
{
    if orderings.len() > 0 {
        lemma_spec_order_list(orderings.subrange(1, orderings.len() as int));
        assert forall|i: int|
            0 <= i < orderings.len() implies spec_order_list(orderings)[i] == spec_order_body(
            orderings[i].0,
            orderings[i].1,
        ) by {
            if i > 0 {
                assert(orderings.subrange(1, orderings.len() as int)[i - 1] == orderings[i]);
            }
        }
    }
}

/// The exact member list of the structured-query object: `from`
/// first, then `where` exactly when a filter is given, then `orderBy`
/// exactly when orderings are given.
pub open spec fn spec_query_members(
    collection: Seq<char>,
    filter: Option<(crate::value::FieldModel, FieldOperator, Seq<char>)>,
    orderings: Option<Seq<(Seq<char>, bool)>>,
) -> Seq<(Seq<char>, JsonModel)> {
    let base = seq![
        (
            "from"@,
            JsonModel::Array(
                seq![
                    JsonModel::Object(seq![("collectionId"@, JsonModel::Str(collection))]),
                ],
            ),
        ),
    ];
    let with_filter = match filter {
        Some((value, op, path)) => base + seq![("where"@, spec_filter_body(value, op, path))],
        None => base,
    };
    match orderings {
        Some(ords) => with_filter + seq![
            ("orderBy"@, JsonModel::Array(spec_order_list(ords))),
        ],
        None => with_filter,
    }
}

/// Builds a field reference object.
fn field_ref(path: &str) -> (r: JsonValue)
    ensures
        r@ == spec_field_ref(path@),
{
    let mut members: Vec<(String, JsonValue)> = Vec::new();
    members.push(("fieldPath".to_owned(), JsonValue::Str(path.to_owned())));
    proof {
        lemma_model_members(members@);
        assert(json_model_members(members@) =~= seq![("fieldPath"@, JsonModel::Str(path@))]);
    }
    JsonValue::Object(members)
}

/// Builds the structured-query request for a collection: a POST whose
/// body is `{"structuredQuery": {from: [collection], where?, orderBy?}}`.
/// The filter, when present, compares a field against a value under
/// one operator; the orderings, when present, sort by each named
/// field in sequence, ascending or descending. With neither, the
/// query returns the whole collection.
pub fn query_request(project: &str, collection: &str, filter: &Option<
    (FieldValue, FieldOperator, String),
>, orderings: &Option<Vec<(String, bool)>>) -> (r: HttpRequest)
    ensures
        r.method is Post,
        r.url@ == "https://firestore.googleapis.com/v1/projects/"@ + project@
            + "/databases/(default)/documents:runQuery"@,
        r.body matches Some(b) && b@ == JsonModel::Object(
            seq![
                (
                    "structuredQuery"@,
                    JsonModel::Object(
                        spec_query_members(
                            collection@,
                            match filter {
                                Some((value, op, path)) => Some((value@, *op, path@)),
                                None => None,
                            },
                            match orderings {
                                Some(ords) => Some(ords.deep_view()),
                                None => None,
                            },
                        ),
                    ),
                ),
            ],
        ),
        r.body matches Some(b) && b@ matches JsonModel::Object(top) && top.len() == 1
            && top[0].0 == "structuredQuery"@ && top[0].1 matches JsonModel::Object(q),
        r.body matches Some(b) && b@ matches JsonModel::Object(top) && top[0].1 matches
            JsonModel::Object(q) && spec_lookup(q, "from"@) == Some(
            JsonModel::Array(
                seq![
                    JsonModel::Object(
                        seq![("collectionId"@, JsonModel::Str(collection@))],
                    ),
                ],
            ),
        ),
        r.body matches Some(b) && b@ matches JsonModel::Object(top) && top[0].1 matches
            JsonModel::Object(q) && (match filter {
            Some((value, op, path)) => spec_lookup(q, "where"@) == Some(
                spec_filter_body(value@, *op, path@),
            ),
            None => spec_lookup(q, "where"@) is None,
        }),
        r.body matches Some(b) && b@ matches JsonModel::Object(top) && top[0].1 matches
            JsonModel::Object(q) && (match orderings {
            Some(ords) => spec_lookup(q, "orderBy"@) == Some(
                JsonModel::Array(spec_order_list(ords.deep_view())),
            ),
            None => spec_lookup(q, "orderBy"@) is None,
        }),
{
    let mut url: String = "https://firestore.googleapis.com/v1/projects/".to_owned();
    url.append(project);
    url.append("/databases/(default)/documents:runQuery");

    let mut from_entry: Vec<(String, JsonValue)> = Vec::new();
    from_entry.push(("collectionId".to_owned(), JsonValue::Str(collection.to_owned())));
    proof {
        lemma_model_members(from_entry@);
        assert(json_model_members(from_entry@) =~= seq![
            ("collectionId"@, JsonModel::Str(collection@)),
        ]);
    }
    let mut from_list: Vec<JsonValue> = Vec::new();
    from_list.push(JsonValue::Object(from_entry));
    proof {
        crate::json::lemma_model_seq(from_list@);
        assert(crate::json::json_model_seq(from_list@) =~= seq![
            JsonModel::Object(seq![("collectionId"@, JsonModel::Str(collection@))]),
        ]);
    }

    let mut q: Vec<(String, JsonValue)> = Vec::new();
    q.push(("from".to_owned(), JsonValue::Array(from_list)));

    match filter {
        Some((value, op, path)) => {
            let mut ff: Vec<(String, JsonValue)> = Vec::new();
            ff.push(("field".to_owned(), field_ref(path.as_str())));
            ff.push(("op".to_owned(), JsonValue::Str(operator_name(op))));
            ff.push(("value".to_owned(), crate::value::encode_field(value)));
            proof {
                lemma_model_members(ff@);
                assert(json_model_members(ff@) =~= seq![
                    ("field"@, spec_field_ref(path@)),
                    ("op"@, JsonModel::Str(spec_operator_name(*op))),
                    ("value"@, crate::value::spec_encode_field(value@)),
                ]);
            }
            let mut wrapper: Vec<(String, JsonValue)> = Vec::new();
            wrapper.push(("fieldFilter".to_owned(), JsonValue::Object(ff)));
            proof {
                lemma_model_members(wrapper@);
                assert(json_model_members(wrapper@) =~= (spec_filter_body(
                    value@,
                    *op,
                    path@,
                )->Object_0));
            }
            q.push(("where".to_owned(), JsonValue::Object(wrapper)));
        },
        None => {},
    }

    match orderings {
        Some(ords) => {
            let mut order_list: Vec<JsonValue> = Vec::new();
            let n = ords.len();
            let mut i: usize = 0;
            while i < n
                invariant
                    n == ords@.len(),
                    0 <= i <= n,
                    order_list@.len() == i,
                    forall|k: int|
                        0 <= k < i ==> crate::json::json_model(#[trigger] order_list@[k])
                            == spec_order_body(ords@[k].0@, ords@[k].1),
                decreases n - i,
            {
                let mut ob: Vec<(String, JsonValue)> = Vec::new();
                ob.push(("field".to_owned(), field_ref(ords[i].0.as_str())));
                let direction: &str = if ords[i].1 {
                    "ASCENDING"
                } else {
                    "DESCENDING"
                };
                ob.push(("direction".to_owned(), JsonValue::Str(direction.to_owned())));
                proof {
                    lemma_model_members(ob@);
                    assert(json_model_members(ob@) =~= (spec_order_body(
                        ords@[i as int].0@,
                        ords@[i as int].1,
                    )->Object_0));
                }
                order_list.push(JsonValue::Object(ob));
                i = i + 1;
            }
            proof {
                crate::json::lemma_model_seq(order_list@);
                lemma_spec_order_list(ords.deep_view());
                assert(ords.deep_view().len() == ords@.len());
                assert(forall|k: int|
                    0 <= k < ords@.len() ==> ords.deep_view()[k] == (ords@[k].0@, ords@[k].1));
                assert(crate::json::json_model_seq(order_list@) =~= spec_order_list(
                    ords.deep_view(),
                ));
            }
            q.push(("orderBy".to_owned(), JsonValue::Array(order_list)));
        },
        None => {},
    }

    proof {
        lemma_model_members(q@);
    }
    let mut top: Vec<(String, JsonValue)> = Vec::new();
    top.push(("structuredQuery".to_owned(), JsonValue::Object(q)));
    proof {
        lemma_model_members(top@);
        let qm = json_model_members(q@);
        reveal_strlit("from");
        reveal_strlit("where");
        reveal_strlit("orderBy");
        assert("where"@ != "from"@) by {
            assert("where"@.len() == 5);
            assert("from"@.len() == 4);
        }
        assert("orderBy"@ != "from"@) by {
            assert("orderBy"@.len() == 7);
            assert("from"@.len() == 4);
        }
        assert("orderBy"@ != "where"@) by {
            assert("orderBy"@.len() == 7);
            assert("where"@.len() == 5);
        }
        match filter {
            Some((value, op, path)) => {
                match orderings {
                    Some(ords) => {
                        crate::json::lemma_lookup_hit(qm, "from"@, 0);
                        crate::json::lemma_lookup_hit(qm, "where"@, 1);
                        crate::json::lemma_lookup_hit(qm, "orderBy"@, 2);
                    },
                    None => {
                        crate::json::lemma_lookup_hit(qm, "from"@, 0);
                        crate::json::lemma_lookup_hit(qm, "where"@, 1);
                        crate::json::lemma_lookup_miss(qm, "orderBy"@);
                    },
                }
            },
            None => {
                match orderings {
                    Some(ords) => {
                        crate::json::lemma_lookup_hit(qm, "from"@, 0);
                        crate::json::lemma_lookup_miss(qm, "where"@);
                        crate::json::lemma_lookup_hit(qm, "orderBy"@, 1);
                    },
                    None => {
                        crate::json::lemma_lookup_hit(qm, "from"@, 0);
                        crate::json::lemma_lookup_miss(qm, "where"@);
                        crate::json::lemma_lookup_miss(qm, "orderBy"@);
                    },
                }
            },
        }
    }
    proof {
        let qm = json_model_members(q@);
        let sm = spec_query_members(
            collection@,
            match filter {
                Some((value, op, path)) => Some((value@, *op, path@)),
                None => None,
            },
            match orderings {
                Some(ords) => Some(ords.deep_view()),
                None => None,
            },
        );
        assert(qm =~= sm);
        assert(json_model_members(top@) =~= seq![("structuredQuery"@, JsonModel::Object(qm))]);
    }
    HttpRequest { method: Method::Post, url, body: Some(JsonValue::Object(top)) }
}

} // verus!

verus! {

/// A document as the remote side shows it: its absolute name, its
/// decoded field set, and the server-stamped creation and update
/// times.
pub struct Document {
    pub name: String,
    pub fields: Vec<(String, FieldValue)>,
    pub create_time: Option<String>,
    pub update_time: Option<String>,
}

/// Reads a wire document `{name, fields?, createTime?, updateTime?}`
/// into a [`Document`], decoding every field value. Yields nothing
/// when the tree is not an object, lacks a string `name`, or holds a
/// field that the codec cannot decode; a document without a `fields`
/// member decodes to an empty field set.
pub fn parse_document(j: &JsonValue) -> (r: Option<Document>)
    ensures
        r is Some <==> (j@ matches JsonModel::Object(mm) && (spec_lookup(mm, "name"@) matches
            Some(JsonModel::Str(_))) && (match spec_lookup(mm, "fields"@) {
            None => true,
            Some(JsonModel::Object(fm)) => crate::value::spec_decode_entries(fm) is Some,
            Some(_) => false,
        })),
        r matches Some(d) ==> {
            &&& j@ matches JsonModel::Object(mm)
            &&& spec_lookup(mm, "name"@) == Some(JsonModel::Str(d.name@))
            &&& match spec_lookup(mm, "fields"@) {
                Some(JsonModel::Object(fm)) => crate::value::spec_decode_entries(fm) == Some(
                    field_model_entries(d.fields@),
                ),
                _ => d.fields@.len() == 0,
            }
            &&& match d.create_time {
                Some(t) => spec_lookup(mm, "createTime"@) == Some(JsonModel::Str(t@)),
                None => !(spec_lookup(mm, "createTime"@) matches Some(JsonModel::Str(_))),
            }
            &&& match d.update_time {
                Some(t) => spec_lookup(mm, "updateTime"@) == Some(JsonModel::Str(t@)),
                None => !(spec_lookup(mm, "updateTime"@) matches Some(JsonModel::Str(_))),
            }
        },
{
    let name = match j.lookup("name") {
        Some(JsonValue::Str(s)) => s.clone(),
        _ => {
            return None;
        },
    };
    let fields = match j.lookup("fields") {
        Some(inner) => match crate::value::decode_fields(inner) {
            Some(fs) => fs,
            None => {
                return None;
            },
        },
        None => Vec::new(),
    };
    let create_time = match j.lookup("createTime") {
        Some(JsonValue::Str(s)) => Some(s.clone()),
        _ => None,
    };
    let update_time = match j.lookup("updateTime") {
        Some(JsonValue::Str(s)) => Some(s.clone()),
        _ => None,
    };
    Some(Document { name, fields, create_time, update_time })
}

} // verus!

verus! {

/// A character that may start an unquoted field path segment.
pub open spec fn spec_ident_start(c: char) -> bool {
    ('a' <= c && c <= 'z') || ('A' <= c && c <= 'Z') || c == '_'
}

/// A character that may continue an unquoted field path segment.
pub open spec fn spec_ident_char(c: char) -> bool {
    spec_ident_start(c) || ('0' <= c && c <= '9')
}

/// A segment that needs no quoting: a plain identifier.
pub open spec fn spec_simple_segment(s: Seq<char>) -> bool {
    &&& s.len() > 0
    &&& spec_ident_start(s[0])
    &&& forall|i: int| 0 <= i < s.len() ==> spec_ident_char(s[i])
}

/// Quotes one field path segment for the remote query language:
/// plain identifiers pass through, anything else — a name starting
/// with a digit, an empty name, punctuation — is wrapped in
/// backticks.
pub fn escape_field_segment(segment: &str) -> (r: String)
    ensures
        spec_simple_segment(segment@) ==> r@ == segment@,
        !spec_simple_segment(segment@) ==> r@ == "`"@ + segment@ + "`"@,
{
    let n = segment.unicode_len();
    let mut simple = n > 0;
    let mut i: usize = 0;
    while i < n
        invariant
            n == segment@.len(),
            0 <= i <= n,
            simple == (n > 0 && (i == 0 || spec_ident_start(segment@[0])) && forall|k: int|
                0 <= k < i ==> spec_ident_char(segment@[k])),
        decreases n - i,
    {
        let c = segment.get_char(i);
        let ok = if i == 0 {
            ('a' <= c && c <= 'z') || ('A' <= c && c <= 'Z') || c == '_'
        } else {
            ('a' <= c && c <= 'z') || ('A' <= c && c <= 'Z') || c == '_' || ('0' <= c && c
                <= '9')
        };
        simple = simple && ok;
        i = i + 1;
    }
    if simple {
        segment.to_owned()
    } else {
        let mut quoted: String = "`".to_owned();
        quoted.append(segment);
        quoted.append("`");
        quoted
    }
}

} // verus!

verus! {

/// The suffix of `s` after its last slash; the whole of `s` when it
/// has none. For a document name this is the document id.
pub open spec fn spec_last_segment(s: Seq<char>) -> Seq<char>
    decreases s.len(),
{
    if s.len() == 0 {
        Seq::empty()
    } else if s.last() == '/' {
        Seq::empty()
    } else {
        spec_last_segment(s.drop_last()) + seq![s.last()]
    }
}

/// When everything from `cut` on is slash-free and `cut` sits right
/// after a slash (or at the start), the last segment is the suffix.
proof fn lemma_last_segment(s: Seq<char>, cut: int)
    requires
        0 <= cut <= s.len(),
        forall|i: int| cut <= i < s.len() ==> s[i] != '/',
        cut == 0 || s[cut - 1] == '/',
    ensures
        spec_last_segment(s) == s.subrange(cut, s.len() as int),
    decreases s.len(),
{
    if cut == s.len() {
        assert(s.subrange(cut, s.len() as int) =~= Seq::<char>::empty());
        if s.len() > 0 {
            assert(s.last() == '/');
        }
    } else {
        assert(s.last() != '/');
        lemma_last_segment(s.drop_last(), cut);
        assert(s.drop_last().subrange(cut, s.len() - 1) + seq![s.last()] =~= s.subrange(
            cut,
            s.len() as int,
        ));
    }
}

/// The id a document name resolves to: everything after the last
/// slash. Names handed back by the server end in the id the write
/// resolved to, generated or given.
pub fn document_id_of_name(name: &str) -> (r: String)
    ensures
        r@ == spec_last_segment(name@),
{
    let len = name.unicode_len();
    let mut cut: usize = len;
    while cut > 0 && name.get_char(cut - 1) != '/'
        invariant
            0 <= cut <= len,
            len == name@.len(),
            forall|i: int| cut <= i < len ==> name@[i] != '/',
        decreases cut,
    {
        cut = cut - 1;
    }
    proof {
        lemma_last_segment(name@, cut as int);
    }
    let tail = name.substring_char(cut, len);
    proof {
        assert(tail@ =~= name@.subrange(cut as int, len as int));
    }
    tail.to_owned()
}

} // verus!

verus! {

/// The documents of one list page: the `documents` member of the
/// response, an array of wire documents. Yields nothing when the
/// response has no such member or it is not an array — the page is
/// then empty.
pub fn list_page_documents<'a>(response: &'a JsonValue) -> (r: Option<&'a Vec<JsonValue>>)
    ensures
        match r {
            Some(items) => (response@ matches JsonModel::Object(mm) && spec_lookup(
                mm,
                "documents"@,
            ) == Some(JsonModel::Array(crate::json::json_model_seq(items@)))),
            None => match response@ {
                JsonModel::Object(mm) => !(spec_lookup(mm, "documents"@) matches Some(
                    JsonModel::Array(_),
                )),
                _ => true,
            },
        },
{
    match response.lookup("documents") {
        Some(JsonValue::Array(items)) => Some(items),
        _ => None,
    }
}

/// The continuation token of one list page, when the response carries
/// a string `nextPageToken`; nothing means the listing is complete.
pub fn list_page_token(response: &JsonValue) -> (r: Option<String>)
    ensures
        match r {
            Some(token) => (response@ matches JsonModel::Object(mm) && spec_lookup(
                mm,
                "nextPageToken"@,
            ) == Some(JsonModel::Str(token@))),
            None => match response@ {
                JsonModel::Object(mm) => !(spec_lookup(mm, "nextPageToken"@) matches Some(
                    JsonModel::Str(_),
                )),
                _ => true,
            },
        },
{
    match response.lookup("nextPageToken") {
        Some(JsonValue::Str(token)) => Some(token.clone()),
        _ => None,
    }
}

/// The document inside one structured-query result item: its
/// `document` member. The final item of a query response carries only
/// a read time and no document; it yields nothing here and is
/// skipped.
pub fn query_result_document<'a>(item: &'a JsonValue) -> (r: Option<&'a JsonValue>)
    ensures
        match r {
            Some(doc) => (item@ matches JsonModel::Object(mm) && spec_lookup(mm, "document"@)
                == Some(doc@)),
            None => match item@ {
                JsonModel::Object(mm) => spec_lookup(mm, "document"@) is None,
                _ => true,
            },
        },
{
    item.lookup("document")
}

} // verus!
