//! The REST (HTTP+JSON) binding: the paths and queries the client requests, the client's
//! requests themselves, and the status a server answers an error with.

use vstd::prelude::*;
use vstd::string::*;
use crate::errors::{A2AError, INTERNAL_ERROR, spec_http_status};
use crate::framing::{ascii_chars, decimal_string};
use crate::requests::{GetTaskRequest, ListTasksRequest};
use crate::task::{spec_state_from_name, spec_state_name, TaskState};
use crate::text::{copy_string, spec_decimal, spec_trim_end_char, trim_end_char, strings_view, opt_view};
use crate::config::headers_view;

verus! {

#[verifier::external_type_specification]
#[verifier::external_body]
pub struct ExClient(reqwest::Client);

#[verifier::external_type_specification]
#[verifier::external_body]
pub struct ExMethod(reqwest::Method);

/// Extra parameters of a call, sent as HTTP headers: each name with its values, in the order
/// the names were first given.
#[derive(Clone)]
pub struct ServiceParams {
    pub entries: Vec<(String, Vec<String>)>,
}

impl ServiceParams {
    /// No parameter.
    pub fn new() -> (res: ServiceParams)
        ensures
            res.entries@.len() == 0,
    {
        ServiceParams { entries: Vec::new() }
    }

    /// Sets the values of a name, replacing those it had.
    pub fn insert(&mut self, name: String, values: Vec<String>)
        ensures
            ({
                let k = find_name(old(self).entries@, name@, 0);
                if k < old(self).entries@.len() {
                    final(self).entries@ == old(self).entries@.update(k, (name, values))
                } else {
                    final(self).entries@ == old(self).entries@.push((name, values))
                }
            }),
    {
        let mut i: usize = 0;
        while i < self.entries.len()
            invariant
                i <= self.entries@.len(),
                self.entries@ == old(self).entries@,
                find_name(old(self).entries@, name@, 0) == find_name(old(self).entries@, name@, i as int),
            decreases self.entries.len() - i,
        {
            if crate::text::str_eq(self.entries[i].0.as_str(), name.as_str()) {
                self.entries.set(i, (name, values));
                return;
            }
            i += 1;
        }
        self.entries.push((name, values));
    }
}

/// The headers that parameters become: each name with each of its values, names in order,
/// values in order.
pub open spec fn spec_param_headers(e: Seq<(String, Vec<String>)>) -> Seq<(Seq<char>, Seq<char>)>
    decreases e.len(),
{
    if e.len() == 0 {
        Seq::empty()
    } else {
        spec_param_headers(e.drop_last()) + e.last().1@.map_values(|v: String| (e.last().0@, v@))
    }
}

pub open spec fn pairs_view(v: Seq<(String, String)>) -> Seq<(Seq<char>, Seq<char>)> {
    v.map_values(|p: (String, String)| (p.0@, p.1@))
}

impl ServiceParams {
    /// The headers the parameters become.
    pub fn headers(&self) -> (res: Vec<(String, String)>)
        ensures
            pairs_view(res@) == spec_param_headers(self.entries@),
    {
        let ghost e = self.entries@;
        let mut out: Vec<(String, String)> = Vec::new();
        let mut i: usize = 0;
        assert(e.subrange(0, 0) =~= Seq::<(String, Vec<String>)>::empty());
        assert(pairs_view(out@) =~= spec_param_headers(e.subrange(0, 0)));
        while i < self.entries.len()
            invariant
                e == self.entries@,
                i <= e.len(),
                pairs_view(out@) == spec_param_headers(e.subrange(0, i as int)),
            decreases e.len() - i,
        {
            let ghost base = pairs_view(out@);
            let ghost vals = e[i as int].1@;
            let ghost name = e[i as int].0@;
            let mut j: usize = 0;
            assert(vals.subrange(0, 0).map_values(|v: String| (name, v@)) =~= Seq::<(Seq<char>, Seq<char>)>::empty());
            assert(pairs_view(out@) =~= base + vals.subrange(0, 0).map_values(|v: String| (name, v@)));
            while j < self.entries[i].1.len()
                invariant
                    e == self.entries@,
                    i < e.len(),
                    vals == e[i as int].1@,
                    name == e[i as int].0@,
                    j <= vals.len(),
                    pairs_view(out@) == base + vals.subrange(0, j as int).map_values(|v: String| (name, v@)),
                decreases vals.len() - j,
            {
                let ghost before = pairs_view(out@);
                out.push((copy_string(self.entries[i].0.as_str()), copy_string(self.entries[i].1[j].as_str())));
                assert(pairs_view(out@) =~= before.push((name, vals[j as int]@)));
                assert(vals.subrange(0, j + 1).map_values(|v: String| (name, v@)) =~= vals.subrange(0, j as int).map_values(|v: String| (name, v@)).push((name, vals[j as int]@)));
                j += 1;
            }
            assert(vals.subrange(0, vals.len() as int) =~= vals);
            assert(e.subrange(0, i + 1).drop_last() =~= e.subrange(0, i as int));
            assert(e.subrange(0, i + 1).last() == e[i as int]);
            i += 1;
        }
        assert(e.subrange(0, e.len() as int) =~= e);
        out
    }
}

/// Index of the first entry at or after `i` with this name, or the count.
pub open spec fn find_name(e: Seq<(String, Vec<String>)>, name: Seq<char>, i: int) -> int
    decreases e.len() - i,
{
    if i >= e.len() {
        e.len() as int
    } else if e[i].0@ == name {
        i
    } else {
        find_name(e, name, i + 1)
    }
}

/// The client side of the REST binding.
pub struct RestTransport {
    pub client: reqwest::Client,
    /// The agent's base URL, without trailing `/`.
    pub base_url: String,
}

impl RestTransport {
    /// A transport for the agent at this base URL; trailing `/` are removed.
    pub fn new(client: reqwest::Client, base_url: String) -> (res: RestTransport)
        ensures
            res.base_url@ == spec_trim_end_char(base_url@, '/'),
    {
        RestTransport { client, base_url: trim_end_char(base_url.as_str(), '/') }
    }

    /// The URL of a path of the agent.
    pub fn url(&self, path: &str) -> (res: String)
        ensures
            res@ == self.base_url@ + path@,
    {
        copy_string(self.base_url.as_str()).concat(path)
    }

    /// The request to a path of the agent: the method, the path's URL, and the parameters'
    /// headers ([`ServiceParams::headers`]) in order, none of them sensitive.
    pub fn build_request(&self, method: reqwest::Method, path: &str, params: &ServiceParams) -> (res: HttpRequest)
        ensures
            res.method == method,
            res.url@ == self.base_url@ + path@,
            http_headers_view(res.headers@) == plain_headers(spec_param_headers(params.entries@)),
    {
        let url = self.url(path);
        let pairs = params.headers();
        let mut headers: Vec<HttpHeader> = Vec::new();
        let mut i: usize = 0;
        while i < pairs.len()
            invariant
                i <= pairs@.len(),
                http_headers_view(headers@) == plain_headers(pairs_view(pairs@).subrange(0, i as int)),
            decreases pairs.len() - i,
        {
            let ghost before = http_headers_view(headers@);
            headers.push(HttpHeader {
                name: copy_string(pairs[i].0.as_str()),
                value: copy_string(pairs[i].1.as_str()),
                sensitive: false,
            });
            assert(http_headers_view(headers@) =~= before.push((pairs@[i as int].0@, pairs@[i as int].1@, false)));
            assert(pairs_view(pairs@).subrange(0, i + 1) =~= pairs_view(pairs@).subrange(0, i as int).push((pairs@[i as int].0@, pairs@[i as int].1@)));
            assert(plain_headers(pairs_view(pairs@).subrange(0, i + 1)) =~= plain_headers(pairs_view(pairs@).subrange(0, i as int)).push((pairs@[i as int].0@, pairs@[i as int].1@, false)));
            i += 1;
        }
        assert(pairs_view(pairs@).subrange(0, i as int) =~= pairs_view(pairs@));
        HttpRequest { method, url, headers }
    }
}

/// One header of a request: its name, its value, and whether the value is sensitive (kept
/// out of debug output and header compression, as `reqwest`'s `bearer_auth` marks it).
pub struct HttpHeader {
    pub name: String,
    pub value: String,
    pub sensitive: bool,
}

/// A request as plain values: its method, its URL, and its headers in the order they are
/// added. The I/O layer turns it into `reqwest`'s request builder.
pub struct HttpRequest {
    pub method: reqwest::Method,
    pub url: String,
    pub headers: Vec<HttpHeader>,
}

/// The headers by their name, value and sensitivity.
pub open spec fn http_headers_view(v: Seq<HttpHeader>) -> Seq<(Seq<char>, Seq<char>, bool)> {
    v.map_values(|h: HttpHeader| (h.name@, h.value@, h.sensitive))
}

/// Name and value pairs as headers that are not sensitive.
pub open spec fn plain_headers(v: Seq<(Seq<char>, Seq<char>)>) -> Seq<(Seq<char>, Seq<char>, bool)> {
    v.map_values(|p: (Seq<char>, Seq<char>)| (p.0, p.1, false))
}

/// The headers the CLI adds to a request: `Authorization: Bearer <token>` (sensitive) when a
/// token is given, as `reqwest`'s `bearer_auth` writes it, then each `--header` in order.
pub open spec fn spec_auth_headers(token: Option<Seq<char>>, headers: Seq<(Seq<char>, Seq<char>)>) -> Seq<(Seq<char>, Seq<char>, bool)> {
    (match token {
        Some(t) => seq![("Authorization"@, "Bearer "@ + t, true)],
        None => Seq::empty(),
    }) + plain_headers(headers)
}

impl HttpRequest {
    /// A request with this method and URL and no header.
    pub fn new(method: reqwest::Method, url: String) -> (res: HttpRequest)
        ensures
            res.method == method,
            res.url == url,
            res.headers@.len() == 0,
    {
        HttpRequest { method, url, headers: Vec::new() }
    }
}

/// `Client::default()` (that is, `Client::new()`): a client with default settings. Nothing is
/// stated of it. With `reqwest`'s default features off, as here, building it has no failing
/// path.
#[verifier::external_body]
fn default_client() -> reqwest::Client {
    reqwest::Client::default()
}

/// Adds the CLI's bearer token and headers to a request, after the headers it has.
pub fn apply_request_auth(request: HttpRequest, bearer_token: &Option<String>, headers: &Vec<crate::cli::HeaderArg>) -> (res: HttpRequest)
    ensures
        res.method == request.method,
        res.url == request.url,
        http_headers_view(res.headers@) == http_headers_view(request.headers@)
            + spec_auth_headers(opt_view(*bearer_token), headers_view(headers@)),
{
    let ghost method0 = request.method;
    let ghost url0 = request.url;
    let mut request = request;
    let ghost start = http_headers_view(request.headers@);
    if let Some(token) = bearer_token {
        request.headers.push(HttpHeader {
            name: String::from_str("Authorization"),
            value: String::from_str("Bearer ").concat(token.as_str()),
            sensitive: true,
        });
    }
    let ghost mid = http_headers_view(request.headers@);
    assert(mid =~= start + (match opt_view(*bearer_token) {
        Some(t) => seq![("Authorization"@, "Bearer "@ + t, true)],
        None => Seq::<(Seq<char>, Seq<char>, bool)>::empty(),
    }));
    let mut i: usize = 0;
    while i < headers.len()
        invariant
            i <= headers@.len(),
            http_headers_view(request.headers@) == mid + plain_headers(headers_view(headers@).subrange(0, i as int)),
            request.method == method0,
            request.url == url0,
        decreases headers.len() - i,
    {
        let ghost before = http_headers_view(request.headers@);
        request.headers.push(HttpHeader {
            name: copy_string(headers[i].name.as_str()),
            value: copy_string(headers[i].value.as_str()),
            sensitive: false,
        });
        assert(http_headers_view(request.headers@) =~= before.push((headers@[i as int].name@, headers@[i as int].value@, false)));
        assert(headers_view(headers@).subrange(0, i + 1) =~= headers_view(headers@).subrange(0, i as int).push((headers@[i as int].name@, headers@[i as int].value@)));
        assert(plain_headers(headers_view(headers@).subrange(0, i + 1)) =~= plain_headers(headers_view(headers@).subrange(0, i as int)).push((headers@[i as int].name@, headers@[i as int].value@, false)));
        i += 1;
    }
    assert(headers_view(headers@).subrange(0, i as int) =~= headers_view(headers@));
    assert(http_headers_view(request.headers@) =~= start + spec_auth_headers(opt_view(*bearer_token), headers_view(headers@)));
    request
}

/// Makes the REST transports of a client.
pub struct RestTransportFactory {
    pub client: reqwest::Client,
}

impl RestTransportFactory {
    /// A factory sharing this client, or a default one.
    pub fn new(client: Option<reqwest::Client>) -> (res: RestTransportFactory)
        ensures
            client matches Some(c) ==> res.client == c,
    {
        match client {
            Some(c) => RestTransportFactory { client: c },
            None => RestTransportFactory { client: default_client() },
        }
    }

    /// The protocol name of the binding.
    pub fn protocol(&self) -> (res: &'static str)
        ensures
            res@ == "HTTP+JSON"@,
    {
        "HTTP+JSON"
    }

    /// A transport for the interface at this URL.
    pub fn create(&self, url: &str) -> (res: RestTransport)
        ensures
            res.base_url@ == spec_trim_end_char(url@, '/'),
    {
        RestTransport::new(clone_client(&self.client), copy_string(url))
    }
}

/// `Client::clone`: a handle to the same client. Nothing is stated of it.
#[verifier::external_body]
fn clone_client(c: &reqwest::Client) -> reqwest::Client {
    c.clone()
}

/// The decimal text of a signed number, as `format!("{}", n)` writes it.
pub open spec fn spec_int_text(n: int) -> Seq<char> {
    if n < 0 {
        "-"@ + ascii_chars(spec_decimal((-n) as nat))
    } else {
        ascii_chars(spec_decimal(n as nat))
    }
}

/// The decimal text of an `i32`.
pub fn int_string(n: i32) -> (res: String)
    ensures
        res@ == spec_int_text(n as int),
{
    if n < 0 {
        let m: i64 = -(n as i64);
        assert(m <= 2147483648);
        String::from_str("-").concat(decimal_string(m as usize).as_str())
    } else {
        decimal_string(n as usize)
    }
}

/// `true` or `false`.
pub open spec fn spec_bool_text(b: bool) -> Seq<char> {
    if b { "true"@ } else { "false"@ }
}

fn bool_string(b: bool) -> (res: String)
    ensures
        res@ == spec_bool_text(b),
{
    if b { String::from_str("true") } else { String::from_str("false") }
}

/// The pieces joined with `sep` between them.
pub open spec fn spec_join(parts: Seq<Seq<char>>, sep: Seq<char>) -> Seq<char>
    decreases parts.len(),
{
    if parts.len() == 0 {
        Seq::empty()
    } else if parts.len() == 1 {
        parts[0]
    } else {
        spec_join(parts.drop_last(), sep) + sep + parts.last()
    }
}

/// A path with its query: `?` and the parts joined by `&`, when there are any.
pub open spec fn spec_with_query(path: Seq<char>, parts: Seq<Seq<char>>) -> Seq<char> {
    if parts.len() == 0 { path } else { path + "?"@ + spec_join(parts, "&"@) }
}

fn with_query(path: String, parts: &Vec<String>) -> (res: String)
    ensures
        res@ == spec_with_query(path@, strings_view(parts@)),
{
    if parts.len() == 0 {
        return path;
    }
    let mut q = copy_string(parts[0].as_str());
    let mut i: usize = 1;
    assert(strings_view(parts@).subrange(0, 1) =~= seq![parts@[0]@]);
    while i < parts.len()
        invariant
            1 <= i <= parts@.len(),
            q@ == spec_join(strings_view(parts@).subrange(0, i as int), "&"@),
        decreases parts.len() - i,
    {
        let ghost pre = strings_view(parts@).subrange(0, i as int);
        q = q.concat("&").concat(parts[i].as_str());
        assert(strings_view(parts@).subrange(0, i + 1).drop_last() =~= pre);
        i += 1;
    }
    assert(strings_view(parts@).subrange(0, i as int) =~= strings_view(parts@));
    path.concat("?").concat(q.as_str())
}

/// The path of `tasks/get`: `/tasks/{id}`, with `historyLength` when given.
pub open spec fn spec_get_task_path(req: GetTaskRequest) -> Seq<char> {
    spec_with_query(
        "/tasks/"@ + req.id@,
        match req.history_length {
            Some(h) => seq!["historyLength="@ + spec_int_text(h as int)],
            None => Seq::empty(),
        },
    )
}

/// The path the REST client requests a task at.
pub fn get_task_path(req: &GetTaskRequest) -> (res: String)
    ensures
        res@ == spec_get_task_path(*req),
{
    let mut parts: Vec<String> = Vec::new();
    if let Some(h) = req.history_length {
        parts.push(String::from_str("historyLength=").concat(int_string(h).as_str()));
    }
    assert(strings_view(parts@) =~= match req.history_length {
        Some(h) => seq!["historyLength="@ + spec_int_text(h as int)],
        None => Seq::<Seq<char>>::empty(),
    });
    with_query(String::from_str("/tasks/").concat(req.id.as_str()), &parts)
}

/// The query parts of `tasks/list`, in order, each present only when its filter is.
pub open spec fn spec_list_tasks_query(req: ListTasksRequest) -> Seq<Seq<char>> {
    (match req.context_id { Some(c) => seq!["contextId="@ + c@], None => Seq::empty() })
    + (match req.status { Some(s) => seq!["status="@ + spec_state_name(s)], None => Seq::empty() })
    + (match req.page_size { Some(n) => seq!["pageSize="@ + spec_int_text(n as int)], None => Seq::empty() })
    + (match req.page_token { Some(t) => seq!["pageToken="@ + t@], None => Seq::empty() })
    + (match req.history_length { Some(h) => seq!["historyLength="@ + spec_int_text(h as int)], None => Seq::empty() })
    + (match req.include_artifacts { Some(b) => seq!["includeArtifacts="@ + spec_bool_text(b)], None => Seq::empty() })
}

fn push_part(parts: &mut Vec<String>, s: String)
    ensures
        strings_view(final(parts)@) == strings_view(old(parts)@).push(s@),
{
    parts.push(s);
    assert(strings_view(parts@) =~= strings_view(old(parts)@).push(s@));
}

/// The path the REST client lists tasks at: `/tasks` with the query of the filters given.
pub fn list_tasks_path(req: &ListTasksRequest) -> (res: String)
    ensures
        res@ == spec_with_query("/tasks"@, spec_list_tasks_query(*req)),
{
    let mut parts: Vec<String> = Vec::new();
    let ghost q0 = strings_view(parts@);
    assert(q0 =~= Seq::<Seq<char>>::empty());
    if let Some(c) = &req.context_id {
        push_part(&mut parts, String::from_str("contextId=").concat(c.as_str()));
    }
    let ghost q1 = strings_view(parts@);
    if let Some(s) = req.status {
        push_part(&mut parts, String::from_str("status=").concat(s.wire_name()));
    }
    let ghost q2 = strings_view(parts@);
    if let Some(n) = req.page_size {
        push_part(&mut parts, String::from_str("pageSize=").concat(int_string(n).as_str()));
    }
    let ghost q3 = strings_view(parts@);
    if let Some(t) = &req.page_token {
        push_part(&mut parts, String::from_str("pageToken=").concat(t.as_str()));
    }
    let ghost q4 = strings_view(parts@);
    if let Some(h) = req.history_length {
        push_part(&mut parts, String::from_str("historyLength=").concat(int_string(h).as_str()));
    }
    let ghost q5 = strings_view(parts@);
    if let Some(b) = req.include_artifacts {
        push_part(&mut parts, String::from_str("includeArtifacts=").concat(bool_string(b).as_str()));
    }
    assert(strings_view(parts@) =~= spec_list_tasks_query(*req));
    with_query(String::from_str("/tasks"), &parts)
}

/// The query of `tasks/list` holds one part for each filter the request gives and no other:
/// `contextId=`, `status=`, `pageSize=`, `pageToken=`, `historyLength=` and
/// `includeArtifacts=`, each followed by the filter's value as the request holds it.
pub proof fn lemma_list_tasks_query_filters(req: ListTasksRequest)
    ensures
        spec_list_tasks_query(req).len() == (if req.context_id is Some { 1int } else { 0 })
            + (if req.status is Some { 1int } else { 0 }) + (if req.page_size is Some { 1int } else { 0 })
            + (if req.page_token is Some { 1int } else { 0 })
            + (if req.history_length is Some { 1int } else { 0 })
            + (if req.include_artifacts is Some { 1int } else { 0 }),
        req.context_id matches Some(c) ==> spec_list_tasks_query(req).contains("contextId="@ + c@),
        req.status matches Some(st) ==> spec_list_tasks_query(req).contains("status="@ + spec_state_name(st)),
        req.page_size matches Some(n) ==> spec_list_tasks_query(req).contains("pageSize="@ + spec_int_text(n as int)),
        req.page_token matches Some(t) ==> spec_list_tasks_query(req).contains("pageToken="@ + t@),
        req.history_length matches Some(h) ==> spec_list_tasks_query(req).contains(
            "historyLength="@ + spec_int_text(h as int),
        ),
        req.include_artifacts matches Some(b) ==> spec_list_tasks_query(req).contains(
            "includeArtifacts="@ + spec_bool_text(b),
        ),
{
    let a = match req.context_id { Some(c) => seq!["contextId="@ + c@], None => Seq::<Seq<char>>::empty() };
    let b = match req.status { Some(st) => seq!["status="@ + spec_state_name(st)], None => Seq::<Seq<char>>::empty() };
    let c = match req.page_size { Some(n) => seq!["pageSize="@ + spec_int_text(n as int)], None => Seq::<Seq<char>>::empty() };
    let d = match req.page_token { Some(t) => seq!["pageToken="@ + t@], None => Seq::<Seq<char>>::empty() };
    let e = match req.history_length { Some(h) => seq!["historyLength="@ + spec_int_text(h as int)], None => Seq::<Seq<char>>::empty() };
    let f = match req.include_artifacts { Some(x) => seq!["includeArtifacts="@ + spec_bool_text(x)], None => Seq::<Seq<char>>::empty() };
    let q = spec_list_tasks_query(req);
    assert(q == a + b + c + d + e + f);
    let la = a.len() as int;
    let lb = la + b.len();
    let lc = lb + c.len();
    let ld = lc + d.len();
    let le = ld + e.len();
    if req.context_id is Some {
        assert(q[0] == a[0]);
    }
    if req.status is Some {
        assert(q[la] == b[0]);
    }
    if req.page_size is Some {
        assert(q[lb] == c[0]);
    }
    if req.page_token is Some {
        assert(q[lc] == d[0]);
    }
    if req.history_length is Some {
        assert(q[ld] == e[0]);
    }
    if req.include_artifacts is Some {
        assert(q[le] == f[0]);
    }
}

/// `/tasks/{id}/cancel`.
pub fn cancel_task_path(id: &str) -> (res: String)
    ensures
        res@ == "/tasks/"@ + id@ + "/cancel"@,
{
    String::from_str("/tasks/").concat(id).concat("/cancel")
}

/// `/tasks/{id}/subscribe`.
pub fn subscribe_path(id: &str) -> (res: String)
    ensures
        res@ == "/tasks/"@ + id@ + "/subscribe"@,
{
    String::from_str("/tasks/").concat(id).concat("/subscribe")
}

/// `/tasks/{task_id}/push-configs`.
pub fn push_configs_path(task_id: &str) -> (res: String)
    ensures
        res@ == "/tasks/"@ + task_id@ + "/push-configs"@,
{
    String::from_str("/tasks/").concat(task_id).concat("/push-configs")
}

/// `/tasks/{task_id}/push-configs/{id}`.
pub fn push_config_path(task_id: &str, id: &str) -> (res: String)
    ensures
        res@ == "/tasks/"@ + task_id@ + "/push-configs/"@ + id@,
{
    String::from_str("/tasks/").concat(task_id).concat("/push-configs/").concat(id)
}

/// How a REST call went, up to the decoded answer.
pub enum RestStep<T> {
    /// The request could not be sent; the HTTP client's message.
    SendFailed(String),
    /// The server answered with a status that is not a success: the status as text
    /// (`404 Not Found`) and the body.
    Refused { status: String, body: String },
    /// The body does not decode as the expected type; the decoder's message.
    Undecodable(String),
    Decoded(T),
}

/// What a REST call returns for each way it can go.
pub open spec fn spec_rest_result<T>(s: RestStep<T>) -> Result<T, (i32, Seq<char>)> {
    match s {
        RestStep::SendFailed(e) => Err((INTERNAL_ERROR, "HTTP request failed: "@ + e@)),
        RestStep::Refused { status, body } => Err((INTERNAL_ERROR, "HTTP "@ + status@ + ": "@ + body@)),
        RestStep::Undecodable(e) => Err((INTERNAL_ERROR, "failed to parse response: "@ + e@)),
        RestStep::Decoded(v) => Ok(v),
    }
}

pub open spec fn rest_result_view<T>(r: Result<T, A2AError>) -> Result<T, (i32, Seq<char>)> {
    match r {
        Ok(v) => Ok(v),
        Err(e) => Err(e@),
    }
}

/// The result of a REST call.
pub fn rest_result<T>(s: RestStep<T>) -> (res: Result<T, A2AError>)
    ensures
        rest_result_view(res) == spec_rest_result(s),
{
    match s {
        RestStep::SendFailed(e) => Err(A2AError::new(
            INTERNAL_ERROR,
            String::from_str("HTTP request failed: ").concat(e.as_str()),
        )),
        RestStep::Refused { status, body } => Err(A2AError::new(
            INTERNAL_ERROR,
            String::from_str("HTTP ").concat(status.as_str()).concat(": ").concat(body.as_str()),
        )),
        RestStep::Undecodable(e) => Err(A2AError::new(
            INTERNAL_ERROR,
            String::from_str("failed to parse response: ").concat(e.as_str()),
        )),
        RestStep::Decoded(v) => Ok(v),
    }
}

/// The query of `GET /tasks/{id}` on a REST server.
pub struct GetTaskQuery {
    pub history_length: Option<i32>,
}

/// The query of `GET /tasks` on a REST server; the status is a state's wire name.
pub struct ListTasksQuery {
    pub context_id: Option<String>,
    pub status: Option<String>,
    pub page_size: Option<i32>,
    pub page_token: Option<String>,
    pub history_length: Option<i32>,
}

/// The `tasks/get` request a REST server makes of the path's id and the query.
pub fn get_task_request_from_query(id: String, query: GetTaskQuery) -> (res: GetTaskRequest)
    ensures
        res.id == id,
        res.history_length == query.history_length,
        res.tenant is None,
{
    GetTaskRequest { id, history_length: query.history_length, tenant: None }
}

/// The `tasks/list` request a REST server makes of the query: the filters as given, the
/// status read from its wire name and dropped when it names no state.
pub fn list_tasks_request_from_query(query: ListTasksQuery) -> (res: ListTasksRequest)
    ensures
        res.context_id == query.context_id,
        res.status == match query.status {
            Some(s) => spec_state_from_name(s@),
            None => None::<TaskState>,
        },
        res.page_size == query.page_size,
        res.page_token == query.page_token,
        res.history_length == query.history_length,
        res.status_timestamp_after is None,
        res.include_artifacts is None,
        res.tenant is None,
{
    let status = match &query.status {
        Some(s) => TaskState::from_wire_name(s.as_str()),
        None => None,
    };
    ListTasksRequest {
        context_id: query.context_id,
        status,
        page_size: query.page_size,
        page_token: query.page_token,
        history_length: query.history_length,
        status_timestamp_after: None,
        include_artifacts: None,
        tenant: None,
    }
}

/// The status a REST server answers an error with.
pub fn rest_error_status(err: &A2AError) -> (res: u16)
    ensures
        res == spec_http_status(err.code),
{
    err.http_status_code()
}

} // verus!
