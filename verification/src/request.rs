//! Building requests.
use vstd::prelude::*;
use vstd::set_lib::lemma_len_subset;
use vstd::utf8::encode_utf8;

use crate::header::{
    all_visible, ascii_text, field_value, fields, first_value, get_field, is_plain_name,
    is_value_char, is_value_text, value_of_text, values_under, Field, FieldValue, MAX_NAMES,
};
use crate::log::method_text;
use crate::names::{header_name, lowered, NameSet};

verus! {

/// `reqwest::Client`.
#[verifier::external_type_specification]
#[verifier::external_body]
pub struct ExClient(reqwest::Client);

/// `reqwest::RequestBuilder`.
#[verifier::external_type_specification]
#[verifier::external_body]
pub struct ExRequestBuilder(reqwest::RequestBuilder);

/// `reqwest::Request`.
#[verifier::external_type_specification]
#[verifier::external_body]
pub struct ExRequest(reqwest::Request);

/// `serde_json::value::RawValue`, a JSON value kept as the text that writes it.
#[verifier::external_type_specification]
#[verifier::external_body]
pub struct ExRawValue(serde_json::value::RawValue);

/// A request as plain data. Every header name has its values in the order in
/// which they were added. The body is there where its octets are at hand, and
/// not where it is a stream.
pub ghost struct RequestContent {
    pub method: Seq<char>,
    pub url: Seq<char>,
    pub headers: Map<Seq<char>, Seq<FieldValue>>,
    pub body: Option<Seq<u8>>,
}

/// The request that a `reqwest::RequestBuilder` would build, and none where it
/// was given something that it refuses.
pub uninterp spec fn pending_request(builder: reqwest::RequestBuilder) -> Option<RequestContent>;

/// The method, URL, header fields and body of a `reqwest::Request`.
pub uninterp spec fn request_content(request: reqwest::Request) -> RequestContent;

/// The header fields of a `reqwest::Request`, as `headers` gives them.
pub uninterp spec fn request_headers(request: reqwest::Request) -> http::HeaderMap<
    http::HeaderValue,
>;

/// The request that `reqwest::Client::request` starts from, and none for a text
/// that is no URL with a host.
pub uninterp spec fn new_request(method: Seq<char>, url: Seq<char>) -> Option<RequestContent>;

/// The text of a `serde_json::value::RawValue`, as `get` gives it.
pub uninterp spec fn json_text(value: &serde_json::value::RawValue) -> Seq<char>;

/// The values that a request has under a header name.
pub open spec fn values_of(request: RequestContent, name: Seq<char>) -> Seq<FieldValue> {
    if request.headers.contains_key(name) {
        request.headers[name]
    } else {
        seq![]
    }
}

/// A request with one more value under a header name.
pub open spec fn with_value(
    request: RequestContent,
    name: Seq<char>,
    value: FieldValue,
) -> RequestContent {
    RequestContent {
        headers: request.headers.insert(name, values_of(request, name).push(value)),
        ..request
    }
}

/// What becomes of a pending request that is given a header: it is refused
/// where the name or the value is not one.
pub open spec fn with_header(
    request: Option<RequestContent>,
    name: Seq<char>,
    value: Seq<char>,
    sensitive: bool,
) -> Option<RequestContent> {
    match (request, header_name(name)) {
        (Some(request), Some(name)) if is_value_text(value) => Some(
            with_value(
                request,
                name,
                FieldValue { octets: encode_utf8(value), sensitive },
            ),
        ),
        _ => None,
    }
}

/// What becomes of a pending request that is given a JSON body: the body is
/// the text, and its type is named unless a type is named already.
pub open spec fn with_json(request: Option<RequestContent>, text: Seq<char>) -> Option<
    RequestContent,
> {
    match request {
        Some(request) => Some(
            RequestContent {
                headers: if request.headers.contains_key("content-type"@) {
                    request.headers
                } else {
                    request.headers.insert(
                        "content-type"@,
                        seq![value_of_text("application/json"@)],
                    )
                },
                body: Some(encode_utf8(text)),
                ..request
            },
        ),
        None => None,
    }
}

/// A pending request has at most `count` header names.
pub open spec fn names_within(request: Option<RequestContent>, count: int) -> bool {
    request matches Some(request) ==> request.headers.dom().finite()
        && request.headers.dom().len() <= count
}

/// The header names of a pending request are among `names`, where those are
/// known.
pub open spec fn names_among(
    request: Option<RequestContent>,
    names: Option<Set<Seq<char>>>,
) -> bool {
    match (request, names) {
        (Some(request), Some(names)) => request.headers.dom().subset_of(names),
        _ => true,
    }
}

/// Names, where they are known, with one more.
pub open spec fn noted(names: Option<Set<Seq<char>>>, name: Seq<char>) -> Option<Set<Seq<char>>> {
    match names {
        Some(names) => Some(names.insert(name)),
        None => None,
    }
}

/// One more header name fits.
pub open spec fn has_room(request: Option<RequestContent>) -> bool {
    names_within(request, MAX_NAMES - 1)
}

/// A request that was just started with a method, unless it was refused: it has
/// no body, and no header but that of a name and password in the URL.
pub open spec fn is_fresh(request: Option<RequestContent>, method: Seq<char>) -> bool {
    request matches Some(request) ==> {
        &&& request.method == method
        &&& request.body is None
        &&& request.headers.dom().subset_of(set!["authorization"@])
        &&& names_within(Some(request), 1)
    }
}

/// `Clone` of `reqwest::Client`: a second handle to the same client.
pub assume_specification[ <reqwest::Client as Clone>::clone ](client: &reqwest::Client) -> (r:
    reqwest::Client)
    ensures
        r == *client,
;

/// `Clone` of `http::Method`.
pub assume_specification[ <http::Method as Clone>::clone ](method: &http::Method) -> (r:
    http::Method)
    ensures
        r == *method,
;

/// `http::Method::GET`.
#[verifier::external_body]
fn method_get() -> (r: http::Method)
    ensures
        method_text(r) == "GET"@,
{
    http::Method::GET
}

/// `http::Method::POST`.
#[verifier::external_body]
fn method_post() -> (r: http::Method)
    ensures
        method_text(r) == "POST"@,
{
    http::Method::POST
}

/// `reqwest::Client::request` on a URL given as text: the request depends on the
/// method and the text alone. Where it is not refused it has the method, no
/// body, and no header but `authorization`, for a name and password in the URL.
#[verifier::external_body]
fn start_request(client: &reqwest::Client, method: http::Method, url: &str) -> (r:
    reqwest::RequestBuilder)
    ensures
        pending_request(r) == new_request(method_text(method), url@),
        pending_request(r) matches Some(request) ==> request.method == method_text(method)
            && request.body is None && request.headers.dom().subset_of(set!["authorization"@]),
{
    client.request(method, url)
}

/// `reqwest::RequestBuilder::header` on a name and a value given as text. A
/// builder that has refused something is handed back as it is. A header map that
/// is full would panic and is not admitted.
#[verifier::external_body]
fn add_header(builder: reqwest::RequestBuilder, name: &str, value: &str) -> (r:
    reqwest::RequestBuilder)
    requires
        has_room(pending_request(builder)),
    ensures
        pending_request(r) == with_header(pending_request(builder), name@, value@, false),
        pending_request(builder) is None ==> r == builder,
{
    builder.header(name, value)
}

/// `reqwest::RequestBuilder::bearer_auth` on a token given as text: the header
/// `authorization`, marked sensitive. A builder that has refused something is
/// handed back as it is. A header map that is full would panic and is not
/// admitted.
#[verifier::external_body]
fn add_bearer(builder: reqwest::RequestBuilder, token: &str) -> (r: reqwest::RequestBuilder)
    requires
        has_room(pending_request(builder)),
    ensures
        pending_request(r) == with_header(
            pending_request(builder),
            "authorization"@,
            "Bearer "@ + token@,
            true,
        ),
        pending_request(builder) is None ==> r == builder,
{
    builder.bearer_auth(token)
}

/// `reqwest::RequestBuilder::json` on a value that is JSON text already: the
/// body is that text. A builder that has refused something is handed back as it
/// is. A header map that is full would panic and is not admitted.
#[verifier::external_body]
fn add_json(builder: reqwest::RequestBuilder, value: &serde_json::value::RawValue) -> (r:
    reqwest::RequestBuilder)
    requires
        has_room(pending_request(builder)),
    ensures
        pending_request(r) == with_json(pending_request(builder), json_text(value)),
        pending_request(builder) is None ==> r == builder,
{
    builder.json(value)
}

/// `reqwest::RequestBuilder::build`: the pending request, or the error of the
/// first thing that was refused.
pub assume_specification[ reqwest::RequestBuilder::build ](builder: reqwest::RequestBuilder) -> (r:
    Result<reqwest::Request, reqwest::Error>)
    ensures
        match r {
            Ok(request) => pending_request(builder) == Some(request_content(request)),
            Err(_) => pending_request(builder) is None,
        },
;

/// `reqwest::Request::method`.
pub assume_specification[ reqwest::Request::method ](request: &reqwest::Request) -> (r:
    &http::Method)
    ensures
        method_text(*r) == request_content(*request).method,
;

/// `reqwest::Request::headers`: the fields of every name, in the order in which
/// they were added. How the names follow each other is not said.
pub assume_specification[ reqwest::Request::headers ](request: &reqwest::Request) -> (r:
    &http::HeaderMap<http::HeaderValue>)
    ensures
        *r == request_headers(*request),
        forall|name: Seq<char>| #[trigger]
            values_under(fields(*r), name) == values_of(request_content(*request), name),
;

/// `reqwest::Request::url`, as text.
#[verifier::external_body]
pub(crate) fn request_url(request: &reqwest::Request) -> (r: &str)
    ensures
        r@ == request_content(*request).url,
{
    request.url().as_str()
}

/// `reqwest::Request::body`, as its octets where they are at hand.
#[verifier::external_body]
pub(crate) fn request_octets(request: &reqwest::Request) -> (r: Option<&[u8]>)
    ensures
        match r {
            Some(octets) => request_content(*request).body == Some(octets@),
            None => request_content(*request).body is None,
        },
{
    request.body().and_then(reqwest::Body::as_bytes)
}

/// `built` is what `reqwest::RequestBuilder::build` answered for a builder.
pub open spec fn is_built(
    builder: reqwest::RequestBuilder,
    built: Result<reqwest::Request, reqwest::Error>,
) -> bool {
    call_ensures(reqwest::RequestBuilder::build, (builder,), built)
}

/// A header that bears an identifier of the exchange.
pub open spec fn is_id_header(name: Seq<char>) -> bool {
    name == "cf-ray"@ || name == "x-request-id"@ || name == "x-oai-request-id"@
}

/// The identifier under a header: the first value, where it is plain text.
pub open spec fn request_id(fields: Seq<Field>, name: Seq<char>) -> Option<Seq<char>> {
    match first_value(fields, name) {
        Some(value) if all_visible(value.octets) => Some(ascii_text(value.octets)),
        _ => None,
    }
}

/// The identifier under a header with the header's name, or nothing.
pub open spec fn id_entry(fields: Seq<Field>, name: Seq<char>) -> Seq<(Seq<char>, Seq<char>)> {
    match request_id(fields, name) {
        Some(id) => seq![(name, id)],
        None => seq![],
    }
}

/// All identifiers of the exchange, each with the name of its header.
pub open spec fn request_ids(fields: Seq<Field>) -> Seq<(Seq<char>, Seq<char>)> {
    id_entry(fields, "cf-ray"@) + id_entry(fields, "x-request-id"@) + id_entry(
        fields,
        "x-oai-request-id"@,
    )
}

/// Pairs of strings as pairs of texts.
pub open spec fn texts(pairs: Seq<(String, String)>) -> Seq<(Seq<char>, Seq<char>)> {
    pairs.map_values(|pair: (String, String)| (pair.0@, pair.1@))
}

fn note_request_id(
    ids: &mut Vec<(String, String)>,
    headers: &http::HeaderMap<http::HeaderValue>,
    name: &'static str,
)
    requires
        is_plain_name(name@),
    ensures
        texts(final(ids)@) == texts(old(ids)@) + id_entry(fields(*headers), name@),
{
    if let Some(value) = get_field(headers, name) {
        if let Ok(text) = value.to_str() {
            ids.push((name.to_owned(), text.to_owned()));
        }
    }
    assert(texts(ids@) =~= texts(old(ids)@) + id_entry(fields(*headers), name@));
}

/// The HTTP client.
#[derive(Clone, Debug)]
pub struct CodexHttpClient {
    pub inner: reqwest::Client,
}

/// A request under construction.
#[must_use]
#[derive(Debug)]
pub struct CodexRequestBuilder {
    client: reqwest::Client,
    builder: reqwest::RequestBuilder,
    method: http::Method,
    url: String,
    names: Option<NameSet>,
}

/// A request under construction: the client that will execute it, the builder
/// that holds it, the method and URL that were asked for, and the header names
/// that it may have by now, where those are known.
pub ghost struct RequestView {
    pub client: reqwest::Client,
    pub inner: reqwest::RequestBuilder,
    pub method: http::Method,
    pub url: Seq<char>,
    pub names: Option<Set<Seq<char>>>,
}

impl RequestView {
    /// The request that would be built, and none where something was refused.
    pub open spec fn pending(self) -> Option<RequestContent> {
        pending_request(self.inner)
    }
}

impl View for CodexRequestBuilder {
    type V = RequestView;

    closed spec fn view(&self) -> RequestView {
        RequestView {
            client: self.client,
            inner: self.builder,
            method: self.method,
            url: self.url@,
            names: match self.names {
                Some(names) => Some(names@),
                None => None,
            },
        }
    }
}

/// A request that is ready, with the client to execute it and with the method
/// and URL that it was asked for under.
#[derive(Debug)]
pub struct PreparedRequest {
    pub client: reqwest::Client,
    pub request: reqwest::Request,
    pub method: http::Method,
    pub url: String,
}

/// A request that could not be built.
#[derive(Debug)]
pub struct RequestRefused {
    pub error: reqwest::Error,
}

impl CodexHttpClient {
    /// The client over a `reqwest` client.
    pub fn new(inner: reqwest::Client) -> (r: Self)
        ensures
            r.inner == inner,
    {
        CodexHttpClient { inner }
    }

    /// Starts a GET request.
    pub fn get(&self, url: &str) -> (r: CodexRequestBuilder)
        ensures
            r@.client == self.inner,
            method_text(r@.method) == "GET"@,
            r@.url == url@,
            r@.pending() == new_request("GET"@, url@),
            is_fresh(r@.pending(), "GET"@),
            r@.names == Some(set!["authorization"@]),
    {
        self.request(method_get(), url)
    }

    /// Starts a POST request.
    pub fn post(&self, url: &str) -> (r: CodexRequestBuilder)
        ensures
            r@.client == self.inner,
            method_text(r@.method) == "POST"@,
            r@.url == url@,
            r@.pending() == new_request("POST"@, url@),
            is_fresh(r@.pending(), "POST"@),
            r@.names == Some(set!["authorization"@]),
    {
        self.request(method_post(), url)
    }

    /// Starts a request.
    pub fn request(&self, method: http::Method, url: &str) -> (r: CodexRequestBuilder)
        ensures
            r@ == (RequestView {
                client: self.inner,
                inner: r@.inner,
                method,
                url: url@,
                names: Some(set!["authorization"@]),
            }),
            r@.pending() == new_request(method_text(method), url@),
            is_fresh(r@.pending(), method_text(method)),
    {
        let url_str: String = url.to_owned();
        let builder: reqwest::RequestBuilder = start_request(&self.inner, method.clone(), url);
        CodexRequestBuilder::new(self.inner.clone(), builder, method, url_str)
    }
}

impl CodexRequestBuilder {
    #[verifier::type_invariant]
    spec fn inv(self) -> bool {
        names_among(self@.pending(), self@.names)
    }

    fn new(
        client: reqwest::Client,
        builder: reqwest::RequestBuilder,
        method: http::Method,
        url: String,
    ) -> (r: Self)
        requires
            names_among(pending_request(builder), Some(set!["authorization"@])),
        ensures
            r@ == (RequestView {
                client,
                inner: builder,
                method,
                url: url@,
                names: Some(set!["authorization"@]),
            }),
            names_within(r@.pending(), 1),
    {
        proof {
            reveal_strlit("authorization");
            assert(lowered("authorization"@) =~= "authorization"@);
            if let Some(request) = pending_request(builder) {
                lemma_len_subset(request.headers.dom(), set!["authorization"@]);
            }
        }
        CodexRequestBuilder {
            client,
            builder,
            method,
            url,
            names: Some(NameSet::of("authorization")),
        }
    }

    /// How many header names the request may have by now, counting one that the
    /// URL may have brought. Not known after [`Self::map`].
    pub fn header_names(&self) -> (r: Option<usize>)
        ensures
            match self@.names {
                Some(names) => names.finite() && names_within(self@.pending(), names.len() as int)
                    && (r matches Some(count) && count == names.len()),
                None => r is None,
            },
    {
        proof {
            use_type_invariant(self);
        }
        match &self.names {
            Some(names) => {
                let count: usize = names.len();
                proof {
                    if let Some(request) = self@.pending() {
                        lemma_len_subset(request.headers.dom(), names@);
                    }
                }
                Some(count)
            },
            None => None,
        }
    }

    /// Replaces the inner builder by what `f` makes of it and keeps the rest.
    /// What headers `f` brought is not known.
    pub fn map<F: FnOnce(reqwest::RequestBuilder) -> reqwest::RequestBuilder>(self, f: F) -> (r:
        Self)
        requires
            f.requires((self@.inner,)),
        ensures
            f.ensures((self@.inner,), r@.inner),
            r@ == (RequestView { inner: r@.inner, names: None, ..self@ }),
    {
        CodexRequestBuilder {
            builder: f(self.builder),
            client: self.client,
            method: self.method,
            url: self.url,
            names: None,
        }
    }

    /// Replaces the inner builder by what `f` makes of it, which brings no header
    /// name but `name`, and keeps the rest.
    fn map_with_name<F: FnOnce(reqwest::RequestBuilder) -> reqwest::RequestBuilder>(
        self,
        f: F,
        name: &str,
    ) -> (r: Self)
        requires
            f.requires((self@.inner,)),
            forall|after: reqwest::RequestBuilder| #[trigger]
                f.ensures((self@.inner,), after) ==> names_among(
                    pending_request(after),
                    noted(self@.names, lowered(name@)),
                ),
        ensures
            f.ensures((self@.inner,), r@.inner),
            r@ == (RequestView {
                inner: r@.inner,
                names: noted(self@.names, lowered(name@)),
                ..self@
            }),
    {
        let names: Option<NameSet> = match self.names {
            Some(names) => Some(names.with(name)),
            None => None,
        };
        CodexRequestBuilder {
            builder: f(self.builder),
            client: self.client,
            method: self.method,
            url: self.url,
            names,
        }
    }

    /// Adds a header.
    pub fn header(self, key: &str, value: &str) -> (r: Self)
        requires
            has_room(self@.pending()),
        ensures
            r@.pending() == with_header(self@.pending(), key@, value@, false),
            r@ == (RequestView {
                inner: r@.inner,
                names: noted(self@.names, lowered(key@)),
                ..self@
            }),
            self@.pending() is None ==> r@.inner == self@.inner,
    {
        proof {
            use_type_invariant(&self);
        }
        let add = |builder: reqwest::RequestBuilder| -> (r: reqwest::RequestBuilder)
            requires
                has_room(pending_request(builder)),
            ensures
                pending_request(r) == with_header(
                    pending_request(builder),
                    key@,
                    value@,
                    false,
                ),
                pending_request(builder) is None ==> r == builder,
            {
                add_header(builder, key, value)
            };
        self.map_with_name(add, key)
    }

    /// Adds the header of a bearer token.
    pub fn bearer_auth(self, token: &str) -> (r: Self)
        requires
            has_room(self@.pending()),
        ensures
            r@.pending() == with_header(
                self@.pending(),
                "authorization"@,
                "Bearer "@ + token@,
                true,
            ),
            r@ == (RequestView {
                inner: r@.inner,
                names: noted(self@.names, "authorization"@),
                ..self@
            }),
            self@.pending() is None ==> r@.inner == self@.inner,
    {
        proof {
            use_type_invariant(&self);
            reveal_strlit("authorization");
            assert(lowered("authorization"@) =~= "authorization"@);
        }
        let add = |builder: reqwest::RequestBuilder| -> (r: reqwest::RequestBuilder)
            requires
                has_room(pending_request(builder)),
            ensures
                pending_request(r) == with_header(
                    pending_request(builder),
                    "authorization"@,
                    "Bearer "@ + token@,
                    true,
                ),
                pending_request(builder) is None ==> r == builder,
            {
                add_bearer(builder, token)
            };
        self.map_with_name(add, "authorization")
    }

    /// Sets the body to a JSON value, given as the text that writes it.
    pub fn json(self, value: &serde_json::value::RawValue) -> (r: Self)
        requires
            has_room(self@.pending()),
        ensures
            r@.pending() == with_json(self@.pending(), json_text(value)),
            r@ == (RequestView {
                inner: r@.inner,
                names: noted(self@.names, "content-type"@),
                ..self@
            }),
            self@.pending() is None ==> r@.inner == self@.inner,
    {
        proof {
            use_type_invariant(&self);
            reveal_strlit("content-type");
            assert(lowered("content-type"@) =~= "content-type"@);
        }
        let add = |builder: reqwest::RequestBuilder| -> (r: reqwest::RequestBuilder)
            requires
                has_room(pending_request(builder)),
            ensures
                pending_request(r) == with_json(pending_request(builder), json_text(value)),
                pending_request(builder) is None ==> r == builder,
            {
                add_json(builder, value)
            };
        self.map_with_name(add, "content-type")
    }

    /// The identifiers that a server gave the exchange, each with the name of
    /// the header that bore it. A value that is not plain text is left out.
    pub fn extract_request_ids(headers: &http::HeaderMap<http::HeaderValue>) -> (r: Vec<
        (String, String),
    >)
        ensures
            texts(r@) == request_ids(fields(*headers)),
    {
        let mut ids: Vec<(String, String)> = Vec::new();
        proof {
            reveal_strlit("cf-ray");
            reveal_strlit("x-request-id");
            reveal_strlit("x-oai-request-id");
            assert(texts(ids@) =~= seq![]);
        }
        note_request_id(&mut ids, headers, "cf-ray");
        note_request_id(&mut ids, headers, "x-request-id");
        note_request_id(&mut ids, headers, "x-oai-request-id");
        assert(texts(ids@) =~= request_ids(fields(*headers)));
        ids
    }

    /// Builds the request for sending; refused exactly where something that it
    /// was given was, with the error that `reqwest` answers.
    pub fn send(self) -> (r: Result<PreparedRequest, RequestRefused>)
        ensures
            match r {
                Ok(prepared) => self@.pending() == Some(request_content(prepared.request))
                    && prepared.client == self@.client && prepared.method == self@.method
                    && prepared.url@ == self@.url && is_built(self@.inner, Ok(prepared.request)),
                Err(refused) => self@.pending() is None && is_built(
                    self@.inner,
                    Err(refused.error),
                ),
            },
    {
        let build = reqwest::RequestBuilder::build;
        match build(self.builder) {
            Ok(request) => Ok(
                PreparedRequest {
                    client: self.client,
                    request,
                    method: self.method,
                    url: self.url,
                },
            ),
            Err(error) => Err(RequestRefused { error }),
        }
    }
}

/// The identifiers are a map: no header occurs twice, every one is among the
/// three that bear identifiers, and one occurs exactly where its first value is
/// plain text, with that value.
pub proof fn request_ids_are_a_map(fields: Seq<Field>)
    ensures
        forall|i: int, j: int|
            0 <= i < j < request_ids(fields).len() ==> (#[trigger] request_ids(fields)[i]).0 != (
            #[trigger] request_ids(fields)[j]).0,
        forall|name: Seq<char>, id: Seq<char>| #[trigger]
            request_ids(fields).contains((name, id)) <==> is_id_header(name) && request_id(
                fields,
                name,
            ) == Some(id),
{
    reveal_strlit("cf-ray");
    reveal_strlit("x-request-id");
    reveal_strlit("x-oai-request-id");
    let a = id_entry(fields, "cf-ray"@);
    let b = id_entry(fields, "x-request-id"@);
    let c = id_entry(fields, "x-oai-request-id"@);
    assert("cf-ray"@.len() == 6 && "x-request-id"@.len() == 12 && "x-oai-request-id"@.len() == 16);
    assert forall|name: Seq<char>, id: Seq<char>| is_id_header(name) && request_id(fields, name)
        == Some(id) implies #[trigger] request_ids(fields).contains((name, id)) by {
        if name == "cf-ray"@ {
            assert(request_ids(fields)[0] == (name, id));
        } else if name == "x-request-id"@ {
            assert(request_ids(fields)[a.len() as int] == (name, id));
        } else {
            assert(request_ids(fields)[(a.len() + b.len()) as int] == (name, id));
        }
    }
}

/// A request that is refused stays refused, whatever it is given.
pub proof fn refused_stays_refused(
    name: Seq<char>,
    value: Seq<char>,
    sensitive: bool,
    text: Seq<char>,
)
    ensures
        with_header(None, name, value, sensitive) is None,
        with_json(None, text) is None,
{
}

/// A header is refused exactly where its name or its value is not one; else the
/// value comes after those that the name had, and the rest stays as it was.
pub proof fn header_joins_the_others(
    request: RequestContent,
    name: Seq<char>,
    value: Seq<char>,
    sensitive: bool,
)
    ensures
        with_header(Some(request), name, value, sensitive) is None <==> (header_name(name) is None
            || !is_value_text(value)),
        with_header(Some(request), name, value, sensitive) matches Some(after) ==> {
            let key = header_name(name).unwrap();
            &&& after.method == request.method
            &&& after.url == request.url
            &&& after.body == request.body
            &&& after.headers.dom() == request.headers.dom().insert(key)
            &&& after.headers[key].last() == (FieldValue { octets: encode_utf8(value), sensitive })
            &&& after.headers[key].drop_last() == values_of(request, key)
            &&& forall|other: Seq<char>|
                other != key && request.headers.contains_key(other)
                    ==> #[trigger] after.headers[other] == request.headers[other]
        },
{
    if with_header(Some(request), name, value, sensitive) is Some {
        let key = header_name(name).unwrap();
        let after = with_header(Some(request), name, value, sensitive).unwrap();
        assert(after.headers.dom() =~= request.headers.dom().insert(key));
        assert(after.headers[key].drop_last() =~= values_of(request, key));
    }
}

/// The last JSON body is the one that is sent, and a content type that was
/// named stays.
pub proof fn last_json_body_stays(request: RequestContent, first: Seq<char>, second: Seq<char>)
    ensures
        with_json(with_json(Some(request), first), second) == with_json(Some(request), second),
        request.headers.contains_key("content-type"@) ==> with_json(
            Some(request),
            first,
        ).unwrap().headers == request.headers,
{
}

/// A request that is started is the one for its method and its URL, on the
/// client that starts it, and the two are kept as they were asked for.
pub proof fn started_request_is_the_one_asked_for(
    client: &CodexHttpClient,
    method: http::Method,
    url: &str,
    got: CodexRequestBuilder,
    posted: CodexRequestBuilder,
    requested: CodexRequestBuilder,
)
    requires
        call_ensures(CodexHttpClient::get, (client, url), got),
        call_ensures(CodexHttpClient::post, (client, url), posted),
        call_ensures(CodexHttpClient::request, (client, method, url), requested),
    ensures
        pending_request(got@.inner) == new_request("GET"@, url@),
        pending_request(posted@.inner) == new_request("POST"@, url@),
        pending_request(requested@.inner) == new_request(method_text(method), url@),
        method_text(got@.method) == "GET"@,
        method_text(posted@.method) == "POST"@,
        requested@.method == method,
        got@.url == url@ && posted@.url == url@ && requested@.url == url@,
        got@.client == client.inner && posted@.client == client.inner && requested@.client
            == client.inner,
{
}

/// What is sent is the request that was built up, by the client that started it,
/// under the method and URL that were asked for; it is refused exactly where
/// something that it was given was.
pub proof fn sent_request_is_the_one_built_up(
    request: CodexRequestBuilder,
    r: Result<PreparedRequest, RequestRefused>,
)
    requires
        call_ensures(CodexRequestBuilder::send, (request,), r),
    ensures
        r is Ok <==> pending_request(request@.inner) is Some,
        r matches Ok(prepared) ==> {
            &&& pending_request(request@.inner) == Some(request_content(prepared.request))
            &&& prepared.client == request@.client
            &&& prepared.method == request@.method
            &&& prepared.url@ == request@.url
        },
        r matches Err(refused) ==> call_ensures(
            reqwest::RequestBuilder::build,
            (request@.inner,),
            Err::<reqwest::Request, reqwest::Error>(refused.error),
        ),
{
}

/// Adding a header adds just that: the name gets one more value, the octets of
/// the text, after those that it had. Other names, the method, the URL, the body
/// and the client stay. It is refused exactly where the name or the value is not
/// one.
pub proof fn added_header_is_the_one_given(
    request: CodexRequestBuilder,
    key: &str,
    value: &str,
    r: CodexRequestBuilder,
)
    requires
        call_ensures(CodexRequestBuilder::header, (request, key, value), r),
    ensures
        r@.client == request@.client && r@.method == request@.method && r@.url == request@.url,
        pending_request(request@.inner) is None ==> pending_request(r@.inner) is None,
        pending_request(request@.inner) matches Some(before) ==> {
            match (header_name(key@), pending_request(r@.inner)) {
                (Some(name), Some(after)) => {
                    &&& is_value_text(value@)
                    &&& after.method == before.method && after.url == before.url && after.body
                        == before.body
                    &&& after.headers.dom() == before.headers.dom().insert(name)
                    &&& after.headers[name].last().octets == encode_utf8(value@)
                    &&& !after.headers[name].last().sensitive
                    &&& after.headers[name].drop_last() == (if before.headers.contains_key(name) {
                        before.headers[name]
                    } else {
                        seq![]
                    })
                    &&& forall|other: Seq<char>|
                        other != name && before.headers.contains_key(other)
                            ==> #[trigger] after.headers[other] == before.headers[other]
                },
                (Some(_), None) => !is_value_text(value@),
                (None, after) => after is None,
            }
        },
{
    if let Some(before) = pending_request(request@.inner) {
        header_joins_the_others(before, key@, value@, false);
    }
}

/// A bearer token is added as one more value of `authorization`: the word
/// `Bearer`, a space and the whole token, marked sensitive. The rest stays. It is
/// refused exactly where the token cannot be sent.
pub proof fn added_token_is_the_one_given(
    request: CodexRequestBuilder,
    token: &str,
    r: CodexRequestBuilder,
)
    requires
        call_ensures(CodexRequestBuilder::bearer_auth, (request, token), r),
    ensures
        r@.client == request@.client && r@.method == request@.method && r@.url == request@.url,
        pending_request(request@.inner) is None ==> pending_request(r@.inner) is None,
        pending_request(request@.inner) matches Some(before) ==> {
            match pending_request(r@.inner) {
                Some(after) => {
                    &&& is_value_text(token@)
                    &&& after.method == before.method && after.url == before.url && after.body
                        == before.body
                    &&& after.headers.dom() == before.headers.dom().insert("authorization"@)
                    &&& after.headers["authorization"@].last().octets == encode_utf8(
                        "Bearer "@ + token@,
                    )
                    &&& after.headers["authorization"@].last().sensitive
                    &&& after.headers["authorization"@].drop_last() == (
                    if before.headers.contains_key("authorization"@) {
                        before.headers["authorization"@]
                    } else {
                        seq![]
                    })
                    &&& forall|other: Seq<char>|
                        other != "authorization"@ && before.headers.contains_key(other)
                            ==> #[trigger] after.headers[other] == before.headers[other]
                },
                None => !is_value_text(token@),
            }
        },
{
    reveal_strlit("authorization");
    reveal_strlit("Bearer ");
    let name = "authorization"@;
    let value = "Bearer "@ + token@;
    assert(lowered(name) =~= name);
    assert(header_name(name) == Some(name));
    if is_value_text(value) {
        assert forall|i: int| 0 <= i < token@.len() implies is_value_char(#[trigger] token@[i]) by {
            assert(value[i + 7] == token@[i]);
        }
    } else {
        let i = choose|i: int| 0 <= i < value.len() && !is_value_char(#[trigger] value[i]);
        assert(i >= 7);
        assert(value[i] == token@[i - 7]);
    }
    if let Some(before) = pending_request(request@.inner) {
        header_joins_the_others(before, name, value, true);
    }
}

/// A JSON body is the whole text, in place of any body before it. The request
/// says that it is JSON unless it names a type already, which stays. Other
/// headers, the method, the URL and the client stay, and nothing is refused.
pub proof fn json_body_is_the_one_given(
    request: CodexRequestBuilder,
    value: &serde_json::value::RawValue,
    r: CodexRequestBuilder,
)
    requires
        call_ensures(CodexRequestBuilder::json, (request, value), r),
    ensures
        r@.client == request@.client && r@.method == request@.method && r@.url == request@.url,
        pending_request(r@.inner) is Some <==> pending_request(request@.inner) is Some,
        pending_request(request@.inner) matches Some(before) ==> (pending_request(
            r@.inner,
        ) matches Some(after) && {
            &&& after.body == Some(encode_utf8(json_text(value)))
            &&& after.method == before.method && after.url == before.url
            &&& after.headers.dom() == before.headers.dom().insert("content-type"@)
            &&& !before.headers.contains_key("content-type"@) ==> {
                &&& after.headers["content-type"@].len() == 1
                &&& after.headers["content-type"@][0].octets == encode_utf8("application/json"@)
            }
            &&& forall|name: Seq<char>|
                before.headers.contains_key(name) ==> #[trigger] after.headers[name]
                    == before.headers[name]
        }),
{
    if let Some(before) = pending_request(request@.inner) {
        let after = with_json(Some(before), json_text(value)).unwrap();
        assert(after.headers.dom() =~= before.headers.dom().insert("content-type"@));
    }
}

/// What a function makes of the inner builder is the new inner builder, and the
/// rest stays.
pub proof fn mapping_changes_the_inner_builder_alone<
    F: FnOnce(reqwest::RequestBuilder) -> reqwest::RequestBuilder,
>(request: CodexRequestBuilder, f: F, r: CodexRequestBuilder)
    requires
        call_ensures(CodexRequestBuilder::map::<F>, (request, f), r),
    ensures
        call_ensures(f, (request@.inner,), r@.inner),
        r@.client == request@.client && r@.method == request@.method && r@.url == request@.url,
{
}

proof fn lemma_first_value(fields: Seq<Field>, k: int)
    requires
        0 <= k < fields.len(),
        forall|j: int| 0 <= j < k ==> (#[trigger] fields[j]).name != fields[k].name,
    ensures
        first_value(fields, fields[k].name) == Some(fields[k].value),
    decreases k,
{
    if k > 0 {
        assert(fields[0].name != fields[k].name);
        assert(fields.drop_first()[k - 1] == fields[k]);
        lemma_first_value(fields.drop_first(), k - 1);
    }
}

proof fn lemma_place_of_first_value(fields: Seq<Field>, name: Seq<char>) -> (k: int)
    requires
        first_value(fields, name) is Some,
    ensures
        0 <= k < fields.len(),
        fields[k].name == name,
        forall|j: int| 0 <= j < k ==> (#[trigger] fields[j]).name != name,
        first_value(fields, name) == Some(fields[k].value),
    decreases fields.len(),
{
    if fields[0].name == name {
        0
    } else {
        let k = lemma_place_of_first_value(fields.drop_first(), name);
        assert forall|j: int| 0 <= j < k + 1 implies (#[trigger] fields[j]).name != name by {
            if j > 0 {
                assert(fields.drop_first()[j - 1] == fields[j]);
            }
        }
        k + 1
    }
}

/// The field at `k` is the first of its name, bears an identifier of the
/// exchange, and is plain text.
pub open spec fn bears_id(fields: Seq<Field>, k: int) -> bool {
    &&& 0 <= k < fields.len()
    &&& forall|j: int| 0 <= j < k ==> (#[trigger] fields[j]).name != fields[k].name
    &&& fields[k].name == "cf-ray"@ || fields[k].name == "x-request-id"@ || fields[k].name
        == "x-oai-request-id"@
    &&& all_visible(fields[k].value.octets)
}

/// A pair is the name and the text of a field that bears an identifier.
pub open spec fn is_taken_from(fields: Seq<Field>, pair: (String, String)) -> bool {
    exists|k: int| #[trigger]
        bears_id(fields, k) && pair.0@ == fields[k].name && pair.1@ == ascii_text(
            fields[k].value.octets,
        )
}

/// The identifiers that are extracted are those of the first fields of the three
/// names whose values are plain text: each such field gives one pair, its name
/// and its text character by character, every pair comes from such a field, and
/// no name comes twice.
pub proof fn extracted_ids_are_those_of_the_headers(
    headers: &http::HeaderMap<http::HeaderValue>,
    ids: Vec<(String, String)>,
)
    requires
        call_ensures(CodexRequestBuilder::extract_request_ids, (headers,), ids),
    ensures
        forall|i: int, j: int|
            0 <= i < j < ids@.len() ==> (#[trigger] ids@[i]).0@ != (#[trigger] ids@[j]).0@,
        forall|k: int| #[trigger]
            bears_id(fields(*headers), k) ==> exists|i: int|
                {
                    &&& 0 <= i < ids@.len()
                    &&& (#[trigger] ids@[i]).0@ == fields(*headers)[k].name
                    &&& ids@[i].1@ == ascii_text(fields(*headers)[k].value.octets)
                },
        forall|i: int|
            0 <= i < ids@.len() ==> is_taken_from(fields(*headers), #[trigger] ids@[i]),
{
    let fields = fields(*headers);
    let found = request_ids(fields);
    request_ids_are_a_map(fields);
    assert(texts(ids@) == found);
    assert forall|i: int| 0 <= i < ids@.len() implies (#[trigger] ids@[i]).0@ == found[i].0
        && ids@[i].1@ == found[i].1 by {
        assert(texts(ids@)[i] == found[i]);
    }
    assert forall|i: int, j: int| 0 <= i < j < ids@.len() implies (#[trigger] ids@[i]).0@ != (
    #[trigger] ids@[j]).0@ by {
        assert(found[i].0 != found[j].0);
    }
    assert forall|k: int| #[trigger] bears_id(fields, k) implies exists|i: int|
        {
            &&& 0 <= i < ids@.len()
            &&& (#[trigger] ids@[i]).0@ == fields[k].name
            &&& ids@[i].1@ == ascii_text(fields[k].value.octets)
        } by {
        lemma_first_value(fields, k);
        let pair = (fields[k].name, ascii_text(fields[k].value.octets));
        assert(found.contains(pair));
        let i = choose|i: int| 0 <= i < found.len() && found[i] == pair;
        assert(ids@[i].0@ == pair.0);
    }
    assert forall|i: int| 0 <= i < ids@.len() implies is_taken_from(fields, #[trigger] ids@[i]) by {
        assert(found.contains((found[i].0, found[i].1)));
        let k = lemma_place_of_first_value(fields, found[i].0);
        assert(bears_id(fields, k));
    }
}

/// A fresh request may have one header name; each header that is added may bring
/// one more, a name that is there brings none, and the request never has more
/// names than are told.
pub proof fn told_names_cover_the_request(
    client: &CodexHttpClient,
    url: &str,
    fresh: CodexRequestBuilder,
    at_first: Option<usize>,
    request: CodexRequestBuilder,
    before: Option<usize>,
    key: &str,
    value: &str,
    more: CodexRequestBuilder,
    after: Option<usize>,
)
    requires
        call_ensures(CodexHttpClient::get, (client, url), fresh),
        call_ensures(CodexRequestBuilder::header_names, (&fresh,), at_first),
        call_ensures(CodexRequestBuilder::header_names, (&request,), before),
        call_ensures(CodexRequestBuilder::header, (request, key, value), more),
        call_ensures(CodexRequestBuilder::header_names, (&more,), after),
    ensures
        at_first == Some(1usize),
        before is Some <==> after is Some,
        before matches Some(count) ==> (after matches Some(new_count) && count <= new_count <= count
            + 1),
        after matches Some(count) ==> (pending_request(more@.inner) matches Some(content) ==> {
            &&& content.headers.dom().finite()
            &&& content.headers.dom().len() <= count
        }),
{
}

} // verus!
