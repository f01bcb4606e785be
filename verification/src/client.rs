//! The logic of the Portainer API client: its configuration, the request
//! that each client operation sends, and how a response is judged.
//!
//! Sending requests is left to the caller: every operation here yields an
//! [`ApiRequest`] (method, API path, query and body), the client
//! configuration turns it into the [`HttpRequest`] that goes over the wire
//! (full URL and the API-key header added), and [`check_response`] /
//! [`raw_response`] say what becomes of the reply.

use vstd::prelude::*;

use crate::models::{CreateStackBody, JsonBody, RedeployGitStackBody, UpdateStackBody};
use crate::text::{
    concat, int_decimal, int_to_string, nat_decimal, owned, push_decimal, push_int_decimal,
    push_str, strip_leading, strip_leading_char, strip_trailing, strip_trailing_char,
};
use crate::wire::{
    JsonValue, canonical_reason, check_method, is_json_document, is_method_token, json_value,
    parse_json, status_reason, to_uppercase, unicode_upper,
};

verus! {

// ── Configuration ───────────────────────────────────────────────────────────

/// Where the client sends its requests and how it authenticates.
#[derive(Debug, Clone)]
pub struct ClientConfig {
    /// Portainer URL without trailing slashes.
    pub base_url: String,
    /// API key sent in the `X-API-KEY` header.
    pub api_key: String,
    /// Whether self-signed TLS certificates are accepted.
    pub insecure: bool,
}

/// The URL used when `PORTAINER_URL` is unset.
pub open spec fn default_url() -> Seq<char> {
    "http://localhost:9000"@
}

/// The base URL that a value of `PORTAINER_URL` gives: the default when it
/// is unset, in any case without trailing slashes.
pub open spec fn base_url_of(url: Option<Seq<char>>) -> Seq<char> {
    strip_trailing(
        match url {
            Some(u) => u,
            None => default_url(),
        },
        '/',
    )
}

/// Whether a value of `PORTAINER_INSECURE` turns on acceptance of invalid
/// certificates: only `true` and `1` do.
pub open spec fn insecure_of(value: Option<Seq<char>>) -> bool {
    match value {
        Some(v) => v == "true"@ || v == "1"@,
        None => false,
    }
}

impl ClientConfig {
    /// Configuration from the values of the environment variables:
    /// `PORTAINER_API_KEY` (required, so the caller passes it), and
    /// `PORTAINER_URL` and `PORTAINER_INSECURE` (`None` when unset).
    pub fn from_env(api_key: String, url: Option<&str>, insecure: Option<&str>) -> (r: Self)
        ensures
            r.api_key@ == api_key@,
            r.base_url@ == base_url_of(
                match url {
                    Some(u) => Some(u@),
                    None => None,
                },
            ),
            r.insecure == insecure_of(
                match insecure {
                    Some(v) => Some(v@),
                    None => None,
                },
            ),
    {
        let base_url = match url {
            Some(u) => strip_trailing_char(u, '/'),
            None => strip_trailing_char("http://localhost:9000", '/'),
        };
        let insecure = match insecure {
            Some(v) => {
                let s = owned(v);
                s == owned("true") || s == owned("1")
            },
            None => false,
        };
        ClientConfig { base_url, api_key, insecure }
    }

    /// The full URL of an API path: the base URL, `/api/`, and the path
    /// without its leading slashes.
    pub fn url_for(&self, path: &str) -> (r: String)
        ensures
            r@ == self.base_url@ + "/api/"@ + strip_leading(path@, '/'),
    {
        let mut r = concat(self.base_url.as_str(), "/api/");
        let p = strip_leading_char(path, '/');
        push_str(&mut r, p.as_str());
        r
    }
}

// ── Requests ────────────────────────────────────────────────────────────────

/// What a request sends as its JSON body.
#[derive(Debug)]
pub enum RequestBody {
    CreateStack(CreateStackBody),
    UpdateStack(UpdateStackBody),
    RedeployGitStack(RedeployGitStackBody),
    /// A JSON value given by the caller.
    Json(JsonValue),
    /// A JSON string with this text.
    JsonString(String),
}

/// One request to the Portainer API.
#[derive(Debug)]
pub struct ApiRequest {
    /// HTTP method, in uppercase.
    pub method: String,
    /// Path below `/api/`.
    pub path: String,
    /// Query string parameters, in order.
    pub query: Vec<(String, String)>,
    /// JSON body, if any.
    pub body: Option<RequestBody>,
}

/// The contents of a list of query parameters.
pub open spec fn query_view(q: Seq<(String, String)>) -> Seq<(Seq<char>, Seq<char>)> {
    q.map_values(|p: (String, String)| (p.0@, p.1@))
}

/// A parameter that is present only when it has a value.
pub open spec fn optional_param(name: Seq<char>, value: Option<Seq<char>>) -> Seq<(Seq<char>, Seq<char>)> {
    match value {
        Some(v) => seq![(name, v)],
        None => Seq::empty(),
    }
}

/// The query text of a boolean.
pub open spec fn bool_text(b: bool) -> Seq<char> {
    if b {
        "true"@
    } else {
        "false"@
    }
}

/// The query text of an optional number.
pub open spec fn opt_decimal(v: Option<i64>) -> Option<Seq<char>> {
    match v {
        Some(n) => Some(int_decimal(n as int)),
        None => None,
    }
}

/// The contents of an optional text.
pub open spec fn opt_text(v: Option<&str>) -> Option<Seq<char>> {
    match v {
        Some(s) => Some(s@),
        None => None,
    }
}

/// The path of a stack, followed by `suffix`.
pub open spec fn stack_path(id: i64, suffix: Seq<char>) -> Seq<char> {
    "stacks/"@ + int_decimal(id as int) + suffix
}

impl ApiRequest {
    /// The request has this method, path and query.
    pub open spec fn is(self, method: Seq<char>, path: Seq<char>, query: Seq<(Seq<char>, Seq<char>)>) -> bool {
        &&& self.method@ == method
        &&& self.path@ == path
        &&& query_view(self.query@) == query
    }
}

/// A request as it goes over the wire: method, full URL, headers, query
/// and body.
#[derive(Debug)]
pub struct HttpRequest {
    /// HTTP method, in uppercase.
    pub method: String,
    /// The full URL, base URL and API path.
    pub url: String,
    /// Header names with their values.
    pub headers: Vec<(String, String)>,
    /// Query string parameters, in order.
    pub query: Vec<(String, String)>,
    /// JSON body, if any.
    pub body: Option<RequestBody>,
}

impl ClientConfig {
    /// The headers that every request carries: the API key.
    pub open spec fn auth_headers(self) -> Seq<(Seq<char>, Seq<char>)> {
        seq![("X-API-KEY"@, self.api_key@)]
    }

    /// The headers that every request of this client carries.
    pub fn headers(&self) -> (r: Vec<(String, String)>)
        ensures
            query_view(r@) == self.auth_headers(),
    {
        let mut r: Vec<(String, String)> = Vec::new();
        r.push((owned("X-API-KEY"), self.api_key.clone()));
        assert(query_view(r@) =~= self.auth_headers());
        r
    }

    /// The request `req` as this client sends it: to the URL of its path,
    /// with the API-key header, and with its method, query and body kept.
    pub fn prepare(&self, req: ApiRequest) -> (r: HttpRequest)
        ensures
            r.method == req.method,
            r.url@ == self.base_url@ + "/api/"@ + strip_leading(req.path@, '/'),
            query_view(r.headers@) == self.auth_headers(),
            r.query == req.query,
            r.body == req.body,
    {
        let url = self.url_for(req.path.as_str());
        HttpRequest {
            method: req.method,
            url,
            headers: self.headers(),
            query: req.query,
            body: req.body,
        }
    }
}

/// The path of a stack, followed by `suffix`.
fn stack_path_of(id: i64, suffix: &str) -> (r: String)
    ensures
        r@ == stack_path(id, suffix@),
{
    let mut r = owned("stacks/");
    push_int_decimal(&mut r, id);
    push_str(&mut r, suffix);
    r
}

/// Appends a parameter to a query.
fn push_param(query: &mut Vec<(String, String)>, name: &str, value: String)
    ensures
        query_view(final(query)@) == query_view(old(query)@).push((name@, value@)),
{
    let ghost before = query@;
    query.push((owned(name), value));
    assert(query_view(query@) =~= query_view(before).push((name@, value@)));
}

/// A request without a body.
fn bare_request(method: &str, path: String, query: Vec<(String, String)>) -> (r: ApiRequest)
    ensures
        r.method@ == method@,
        r.path == path,
        r.query == query,
        r.body is None,
{
    ApiRequest { method: owned(method), path, query, body: None }
}

/// The request that lists stacks, optionally filtered.
pub fn list_stacks_request(filters: Option<&str>) -> (r: ApiRequest)
    ensures
        r.is("GET"@, "stacks"@, optional_param("filters"@, opt_text(filters))),
        r.body is None,
{
    let mut query: Vec<(String, String)> = Vec::new();
    if let Some(f) = filters {
        push_param(&mut query, "filters", owned(f));
    }
    assert(query_view(query@) =~= optional_param("filters"@, opt_text(filters)));
    bare_request("GET", owned("stacks"), query)
}

/// The request that gets one stack.
pub fn get_stack_request(id: i64) -> (r: ApiRequest)
    ensures
        r.is("GET"@, stack_path(id, ""@), Seq::empty()),
        r.body is None,
{
    let query: Vec<(String, String)> = Vec::new();
    assert(query_view(query@) =~= Seq::empty());
    bare_request("GET", stack_path_of(id, ""), query)
}

/// The request that gets a stack's compose file, at a version or commit.
pub fn get_stack_file_request(id: i64, version: Option<i64>, commit_hash: Option<&str>) -> (r: ApiRequest)
    ensures
        r.is(
            "GET"@,
            stack_path(id, "/file"@),
            optional_param("version"@, opt_decimal(version)) + optional_param(
                "commitHash"@,
                opt_text(commit_hash),
            ),
        ),
        r.body is None,
{
    let mut query: Vec<(String, String)> = Vec::new();
    if let Some(v) = version {
        push_param(&mut query, "version", int_to_string(v));
    }
    if let Some(h) = commit_hash {
        push_param(&mut query, "commitHash", owned(h));
    }
    assert(query_view(query@) =~= optional_param("version"@, opt_decimal(version)) + optional_param(
        "commitHash"@,
        opt_text(commit_hash),
    ));
    bare_request("GET", stack_path_of(id, "/file"), query)
}

/// The query that names the endpoint of a stack operation.
fn endpoint_query(endpoint_id: i64) -> (r: Vec<(String, String)>)
    ensures
        query_view(r@) == seq![("endpointId"@, int_decimal(endpoint_id as int))],
{
    let mut query: Vec<(String, String)> = Vec::new();
    push_param(&mut query, "endpointId", int_to_string(endpoint_id));
    assert(query_view(query@) =~= seq![("endpointId"@, int_decimal(endpoint_id as int))]);
    query
}

/// The request that creates a standalone compose stack from file content.
pub fn create_stack_request(endpoint_id: i64, body: CreateStackBody) -> (r: ApiRequest)
    ensures
        r.is(
            "POST"@,
            "stacks/create/standalone/string"@,
            seq![("endpointId"@, int_decimal(endpoint_id as int))],
        ),
        r.body == Some(RequestBody::CreateStack(body)),
{
    ApiRequest {
        method: owned("POST"),
        path: owned("stacks/create/standalone/string"),
        query: endpoint_query(endpoint_id),
        body: Some(RequestBody::CreateStack(body)),
    }
}

/// The request that updates a stack.
pub fn update_stack_request(id: i64, endpoint_id: i64, body: UpdateStackBody) -> (r: ApiRequest)
    ensures
        r.is("PUT"@, stack_path(id, ""@), seq![("endpointId"@, int_decimal(endpoint_id as int))]),
        r.body == Some(RequestBody::UpdateStack(body)),
{
    ApiRequest {
        method: owned("PUT"),
        path: stack_path_of(id, ""),
        query: endpoint_query(endpoint_id),
        body: Some(RequestBody::UpdateStack(body)),
    }
}

/// The request that deletes a stack, optionally with its volumes.
pub fn delete_stack_request(id: i64, endpoint_id: i64, remove_volumes: Option<bool>) -> (r: ApiRequest)
    ensures
        r.is(
            "DELETE"@,
            stack_path(id, ""@),
            seq![("endpointId"@, int_decimal(endpoint_id as int))] + optional_param(
                "removeVolumes"@,
                match remove_volumes {
                    Some(b) => Some(bool_text(b)),
                    None => None,
                },
            ),
        ),
        r.body is None,
{
    let mut query = endpoint_query(endpoint_id);
    let ghost first = query_view(query@);
    if let Some(rv) = remove_volumes {
        push_param(&mut query, "removeVolumes", owned(if rv { "true" } else { "false" }));
    }
    assert(query_view(query@) =~= first + optional_param(
        "removeVolumes"@,
        match remove_volumes {
            Some(b) => Some(bool_text(b)),
            None => None,
        },
    ));
    bare_request("DELETE", stack_path_of(id, ""), query)
}

/// The request that starts a stopped stack.
pub fn start_stack_request(id: i64, endpoint_id: i64) -> (r: ApiRequest)
    ensures
        r.is(
            "POST"@,
            stack_path(id, "/start"@),
            seq![("endpointId"@, int_decimal(endpoint_id as int))],
        ),
        r.body is None,
{
    bare_request("POST", stack_path_of(id, "/start"), endpoint_query(endpoint_id))
}

/// The request that stops a running stack.
pub fn stop_stack_request(id: i64, endpoint_id: i64) -> (r: ApiRequest)
    ensures
        r.is(
            "POST"@,
            stack_path(id, "/stop"@),
            seq![("endpointId"@, int_decimal(endpoint_id as int))],
        ),
        r.body is None,
{
    bare_request("POST", stack_path_of(id, "/stop"), endpoint_query(endpoint_id))
}

/// The request that redeploys a git-based stack.
pub fn redeploy_git_stack_request(id: i64, endpoint_id: Option<i64>, body: RedeployGitStackBody) -> (r: ApiRequest)
    ensures
        r.is(
            "PUT"@,
            stack_path(id, "/git/redeploy"@),
            optional_param("endpointId"@, opt_decimal(endpoint_id)),
        ),
        r.body == Some(RequestBody::RedeployGitStack(body)),
{
    let mut query: Vec<(String, String)> = Vec::new();
    if let Some(eid) = endpoint_id {
        push_param(&mut query, "endpointId", int_to_string(eid));
    }
    assert(query_view(query@) =~= optional_param("endpointId"@, opt_decimal(endpoint_id)));
    ApiRequest {
        method: owned("PUT"),
        path: stack_path_of(id, "/git/redeploy"),
        query,
        body: Some(RequestBody::RedeployGitStack(body)),
    }
}

/// The request that lists environments/endpoints, with optional paging and
/// sorting.
pub fn list_endpoints_request(
    start: Option<i64>,
    limit: Option<i64>,
    sort: Option<&str>,
    order: Option<i64>,
) -> (r: ApiRequest)
    ensures
        r.is(
            "GET"@,
            "endpoints"@,
            optional_param("start"@, opt_decimal(start)) + optional_param("limit"@, opt_decimal(limit))
                + optional_param("sort"@, opt_text(sort)) + optional_param("order"@, opt_decimal(order)),
        ),
        r.body is None,
{
    let mut query: Vec<(String, String)> = Vec::new();
    if let Some(s) = start {
        push_param(&mut query, "start", int_to_string(s));
    }
    let ghost q1 = query_view(query@);
    assert(q1 =~= optional_param("start"@, opt_decimal(start)));
    if let Some(l) = limit {
        push_param(&mut query, "limit", int_to_string(l));
    }
    let ghost q2 = query_view(query@);
    assert(q2 =~= q1 + optional_param("limit"@, opt_decimal(limit)));
    if let Some(s) = sort {
        push_param(&mut query, "sort", owned(s));
    }
    let ghost q3 = query_view(query@);
    assert(q3 =~= q2 + optional_param("sort"@, opt_text(sort)));
    if let Some(o) = order {
        push_param(&mut query, "order", int_to_string(o));
    }
    assert(query_view(query@) =~= q3 + optional_param("order"@, opt_decimal(order)));
    bare_request("GET", owned("endpoints"), query)
}


/// The request of the generic request tool, built from the caller's method,
/// path, body and query parameters.
///
/// The method is uppercased and must then be a valid HTTP method. A body
/// that is a JSON string holding a JSON document is sent as the document
/// `serde_json` reads from it; any other body is sent as given.
pub fn raw_request(
    method: &str,
    path: &str,
    body: Option<JsonBody>,
    query_params: Option<Vec<(String, String)>>,
) -> (r: Result<ApiRequest, String>)
    ensures
        r is Ok <==> is_method_token(unicode_upper(method@)),
        r matches Err(e) ==> e@ == "invalid HTTP method: invalid HTTP method"@,
        r matches Ok(req) ==> {
            &&& req.method@ == unicode_upper(method@)
            &&& req.path@ == path@
            &&& query_view(req.query@) == match query_params {
                Some(q) => query_view(q@),
                None => Seq::empty(),
            }
            &&& match body {
                None => req.body is None,
                Some(JsonBody::Other(v)) => req.body == Some(RequestBody::Json(v)),
                Some(JsonBody::Str(t)) => if is_json_document(t@) {
                    req.body == Some(RequestBody::Json(json_value(t@)))
                } else {
                    req.body == Some(RequestBody::JsonString(t))
                },
            }
        },
{
    let upper = to_uppercase(method);
    match check_method(upper.as_str()) {
        Ok(()) => {},
        Err(e) => {
            let mut msg = owned("invalid HTTP method: ");
            push_str(&mut msg, e.as_str());
            proof {
                reveal_strlit("invalid HTTP method: ");
                reveal_strlit("invalid HTTP method");
                reveal_strlit("invalid HTTP method: invalid HTTP method");
                assert(msg@ =~= "invalid HTTP method: invalid HTTP method"@);
            }
            return Err(msg);
        },
    }
    let body = match body {
        None => None,
        Some(JsonBody::Other(v)) => Some(RequestBody::Json(v)),
        Some(JsonBody::Str(t)) => match parse_json(t.as_str()) {
            Some(v) => Some(RequestBody::Json(v)),
            None => Some(RequestBody::JsonString(t)),
        },
    };
    let query = match query_params {
        Some(q) => q,
        None => Vec::new(),
    };
    Ok(ApiRequest { method: upper, path: owned(path), query, body })
}

// ── Responses ───────────────────────────────────────────────────────────────

/// A status code in `200..300` (`StatusCode::is_success`).
pub open spec fn is_success(code: u16) -> bool {
    200 <= code < 300
}

/// How a status shows in text: its number and its reason phrase, or
/// `<unknown status code>` where `http` registers none.
pub open spec fn status_text(code: u16) -> Seq<char> {
    nat_decimal(code as nat) + " "@ + match status_reason(code) {
        Some(reason) => reason,
        None => "<unknown status code>"@,
    }
}

/// The error reported for an API response with a failure status.
pub open spec fn api_error_text(code: u16, body: Seq<char>) -> Seq<char> {
    "Portainer API error (HTTP "@ + status_text(code) + "): "@ + body
}

/// The text form of a status code.
pub fn status_line(code: u16) -> (r: String)
    ensures
        r@ == status_text(code),
{
    let mut r = String::new();
    push_decimal(&mut r, code as u64);
    push_str(&mut r, " ");
    match canonical_reason(code) {
        Some(reason) => push_str(&mut r, reason.as_str()),
        None => push_str(&mut r, "<unknown status code>"),
    }
    assert(Seq::<char>::empty() + nat_decimal(code as nat) == nat_decimal(code as nat));
    r
}

/// Judges an API response by its status: a success gives the body back,
/// any other status an error that shows the status and the body.
pub fn check_response(status: u16, body: String) -> (r: Result<String, String>)
    ensures
        is_success(status) ==> r == Ok::<String, String>(body),
        !is_success(status) ==> (r matches Err(e) && e@ == api_error_text(status, body@)),
{
    if 200 <= status && status < 300 {
        Ok(body)
    } else {
        let mut msg = owned("Portainer API error (HTTP ");
        let line = status_line(status);
        push_str(&mut msg, line.as_str());
        push_str(&mut msg, "): ");
        push_str(&mut msg, body.as_str());
        Err(msg)
    }
}

/// A header value byte that `http` reads as text (`HeaderValue::to_str`):
/// visible ASCII or a tab.
pub open spec fn is_visible_ascii(b: u8) -> bool {
    (32 <= b && b < 127) || b == 9
}

/// How a header value shows in the generic request tool's reply: its text
/// when every byte is visible ASCII, `<binary>` otherwise.
pub open spec fn header_text(bytes: Seq<u8>) -> Seq<char> {
    if forall|i: int| 0 <= i < bytes.len() ==> is_visible_ascii(#[trigger] bytes[i]) {
        bytes.map_values(|b: u8| b as char)
    } else {
        "<binary>"@
    }
}

/// The text form of a header value.
pub fn header_value_text(bytes: &Vec<u8>) -> (r: String)
    ensures
        r@ == header_text(bytes@),
{
    let mut r = String::new();
    let mut i: usize = 0;
    while i < bytes.len()
        invariant
            i <= bytes@.len(),
            forall|k: int| 0 <= k < i ==> is_visible_ascii(#[trigger] bytes@[k]),
            r@ == bytes@.take(i as int).map_values(|b: u8| b as char),
        decreases bytes@.len() - i,
    {
        let b = bytes[i];
        if !((32 <= b && b < 127) || b == 9) {
            return owned("<binary>");
        }
        crate::text::push_char(&mut r, b as char);
        assert(bytes@.take(i + 1) == bytes@.take(i as int).push(b));
        assert(bytes@.take(i + 1).map_values(|b: u8| b as char) =~= bytes@.take(i as int).map_values(
            |b: u8| b as char,
        ).push(b as char));
        i = i + 1;
    }
    assert(bytes@.take(bytes@.len() as int) == bytes@);
    r
}

/// The body of a reply of the generic request tool.
#[derive(Debug)]
pub enum ResponseBody {
    /// The body text read as JSON.
    Json(JsonValue),
    /// A body that is not JSON, as text.
    Text(String),
}

/// The reply of the generic request tool: status, headers and body.
#[derive(Debug)]
pub struct RawResponse {
    pub status_code: u16,
    /// Header names with the text of their values.
    pub headers: Vec<(String, String)>,
    pub body: ResponseBody,
}

/// The reply of the generic request tool for a response with this status,
/// these headers (names with raw values) and this body text.
pub fn raw_response(status_code: u16, headers: Vec<(String, Vec<u8>)>, body_text: String) -> (r: RawResponse)
    ensures
        r.status_code == status_code,
        r.headers@.len() == headers@.len(),
        forall|i: int|
            0 <= i < headers@.len() ==> (#[trigger] r.headers@[i]).0@ == headers@[i].0@
                && r.headers@[i].1@ == header_text(headers@[i].1@),
        is_json_document(body_text@) ==> r.body == ResponseBody::Json(json_value(body_text@)),
        !is_json_document(body_text@) ==> r.body == ResponseBody::Text(body_text),
{
    let mut out: Vec<(String, String)> = Vec::new();
    let mut i: usize = 0;
    while i < headers.len()
        invariant
            i <= headers@.len(),
            out@.len() == i,
            forall|k: int|
                0 <= k < i ==> (#[trigger] out@[k]).0@ == headers@[k].0@ && out@[k].1@ == header_text(
                    headers@[k].1@,
                ),
        decreases headers@.len() - i,
    {
        let name = owned(headers[i].0.as_str());
        let value = header_value_text(&headers[i].1);
        out.push((name, value));
        i = i + 1;
    }
    let body = match parse_json(body_text.as_str()) {
        Some(v) => ResponseBody::Json(v),
        None => ResponseBody::Text(body_text),
    };
    RawResponse { status_code, headers: out, body }
}


// ── Properties ──────────────────────────────────────────────────────────────

/// A base URL never ends with a slash, whatever `PORTAINER_URL` holds.
pub proof fn lemma_base_url_no_trailing_slash(url: Option<Seq<char>>)
    ensures
        base_url_of(url).len() > 0 ==> base_url_of(url).last() != '/',
{
    lemma_strip_trailing_last(
        match url {
            Some(u) => u,
            None => default_url(),
        },
    );
}

proof fn lemma_strip_trailing_last(s: Seq<char>)
    ensures
        strip_trailing(s, '/').len() > 0 ==> strip_trailing(s, '/').last() != '/',
    decreases s.len(),
{
    if s.len() > 0 && s.last() == '/' {
        lemma_strip_trailing_last(s.drop_last());
    }
}

/// Leading slashes of an API path make no difference to its URL.
pub proof fn lemma_url_ignores_leading_slash(base: Seq<char>, path: Seq<char>)
    ensures
        base + "/api/"@ + strip_leading(seq!['/'] + path, '/') == base + "/api/"@ + strip_leading(path, '/'),
{
    assert((seq!['/'] + path).drop_first() =~= path);
}

/// The decimal digits of a number start with a digit, never a sign.
proof fn lemma_decimal_first(n: nat)
    ensures
        nat_decimal(n).len() >= 1,
        '0' <= nat_decimal(n)[0] <= '9',
    decreases n,
{
    if n >= 10 {
        lemma_decimal_first(n / 10);
    }
}

/// Different numbers have different decimal forms.
proof fn lemma_nat_decimal_injective(a: nat, b: nat)
    requires
        nat_decimal(a) == nat_decimal(b),
    ensures
        a == b,
    decreases a,
{
    lemma_decimal_first(a);
    lemma_decimal_first(b);
    if a >= 10 && b >= 10 {
        lemma_decimal_first(a / 10);
        lemma_decimal_first(b / 10);
        assert(nat_decimal(a).drop_last() == nat_decimal(a / 10));
        assert(nat_decimal(b).drop_last() == nat_decimal(b / 10));
        lemma_nat_decimal_injective(a / 10, b / 10);
        assert(nat_decimal(a).last() == crate::text::digit_char(a % 10));
        assert(nat_decimal(b).last() == crate::text::digit_char(b % 10));
    } else if a >= 10 {
        lemma_decimal_first(a / 10);
        assert(nat_decimal(a).len() >= 2);
    } else if b >= 10 {
        lemma_decimal_first(b / 10);
        assert(nat_decimal(b).len() >= 2);
    }
}

/// Different integers have different decimal forms.
pub proof fn lemma_int_decimal_injective(a: int, b: int)
    requires
        int_decimal(a) == int_decimal(b),
    ensures
        a == b,
{
    if a < 0 && b < 0 {
        assert(int_decimal(a).drop_first() =~= nat_decimal((-a) as nat));
        assert(int_decimal(b).drop_first() =~= nat_decimal((-b) as nat));
        lemma_nat_decimal_injective((-a) as nat, (-b) as nat);
    } else if a < 0 {
        lemma_decimal_first(b as nat);
        assert(int_decimal(a)[0] == '-');
    } else if b < 0 {
        lemma_decimal_first(a as nat);
        assert(int_decimal(b)[0] == '-');
    } else {
        lemma_nat_decimal_injective(a as nat, b as nat);
    }
}

/// Operations on different stacks address different paths: a request for
/// one stack never reaches another.
pub proof fn lemma_stack_paths_distinct(a: i64, b: i64, suffix: Seq<char>)
    requires
        a != b,
    ensures
        stack_path(a, suffix) != stack_path(b, suffix),
{
    let pa = "stacks/"@ + int_decimal(a as int);
    let pb = "stacks/"@ + int_decimal(b as int);
    assert(stack_path(a, suffix) == pa + suffix);
    assert(stack_path(b, suffix) == pb + suffix);
    if stack_path(a, suffix) == stack_path(b, suffix) {
        assert((pa + suffix).len() == (pb + suffix).len());
        assert(pa.len() == pb.len());
        assert(pa =~= stack_path(a, suffix).subrange(0, pa.len() as int));
        assert(pb =~= stack_path(b, suffix).subrange(0, pb.len() as int));
        assert(int_decimal(a as int) =~= pa.subrange("stacks/"@.len() as int, pa.len() as int));
        assert(int_decimal(b as int) =~= pb.subrange("stacks/"@.len() as int, pb.len() as int));
        lemma_int_decimal_injective(a as int, b as int);
    }
}


/// A status counts as success exactly when it lies in `200..=299`.
pub proof fn lemma_success_is_2xx(code: u16)
    ensures
        is_success(code) <==> (200 <= code && code <= 299),
{
}

/// A header value whose bytes are all in `0x20..=0x7E` or tabs is shown as
/// exactly those characters; a value with any other byte is shown as
/// `<binary>`.
pub proof fn lemma_header_text_exact(bytes: Seq<u8>)
    ensures
        (forall|i: int| 0 <= i < bytes.len() ==> (0x20 <= #[trigger] bytes[i] <= 0x7e || bytes[i] == 0x09))
            ==> header_text(bytes).len() == bytes.len() && (forall|i: int|
            0 <= i < bytes.len() ==> (#[trigger] header_text(bytes)[i]) as u32 == bytes[i] as u32),
        !(forall|i: int| 0 <= i < bytes.len() ==> (0x20 <= #[trigger] bytes[i] <= 0x7e || bytes[i] == 0x09))
            ==> header_text(bytes) == "<binary>"@,
{
    if forall|i: int| 0 <= i < bytes.len() ==> (0x20 <= #[trigger] bytes[i] <= 0x7e || bytes[i] == 0x09) {
        assert forall|i: int| 0 <= i < bytes.len() implies is_visible_ascii(#[trigger] bytes[i]) by {}
    } else {
        let k = choose|k: int| 0 <= k < bytes.len() && !(0x20 <= #[trigger] bytes[k] <= 0x7e || bytes[k] == 0x09);
        assert(!is_visible_ascii(bytes[k]));
    }
}

} // verus!
