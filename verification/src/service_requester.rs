use crate::business_result::BusinessResult;
use crate::decimal::digit_char;
use crate::gatekeeper::{Token, TokenView};
use crate::json::{json_text, Json, JsonView};
use crate::ws_try::{ClientErrorHandler, DefaultClientErrorHandler};
use vstd::prelude::*;
use vstd::utf8::encode_utf8;

verus! {

/// The upper-case hexadecimal digit of a value below sixteen.
pub open spec fn hex_upper(d: nat) -> char
    recommends
        d < 16,
{
    if d < 10 {
        digit_char(d)
    } else if d == 10 {
        'A'
    } else if d == 11 {
        'B'
    } else if d == 12 {
        'C'
    } else if d == 13 {
        'D'
    } else if d == 14 {
        'E'
    } else {
        'F'
    }
}

/// Whether a byte stands for itself in a form-encoded component: the ASCII
/// letters and digits, and `*`, `-`, `.` and `_`.
pub open spec fn stays_unchanged(byte: u8) -> bool {
    ||| byte == 0x2a
    ||| byte == 0x2d
    ||| byte == 0x2e
    ||| 0x30 <= byte <= 0x39
    ||| 0x41 <= byte <= 0x5a
    ||| byte == 0x5f
    ||| 0x61 <= byte <= 0x7a
}

/// How one byte is written in a form-encoded component: itself where it stays
/// unchanged, `+` for a space, and `%` with two upper-case hexadecimal digits otherwise.
pub open spec fn encoded_byte(byte: u8) -> Seq<char> {
    if stays_unchanged(byte) {
        seq![byte as char]
    } else if byte == 0x20 {
        seq!['+']
    } else {
        seq!['%', hex_upper((byte / 16) as nat), hex_upper((byte % 16) as nat)]
    }
}

/// The form encoding of a sequence of bytes: each byte as `encoded_byte` writes it.
pub open spec fn url_encoded(bytes: Seq<u8>) -> Seq<char>
    decreases bytes.len(),
{
    if bytes.len() == 0 {
        Seq::empty()
    } else {
        url_encoded(bytes.drop_last()) + encoded_byte(bytes.last())
    }
}

/// `url::form_urlencoded::byte_serialize`, with the pieces it yields put
/// together. It is the `application/x-www-form-urlencoded` byte serializer: the
/// text is `url_encoded` of the bytes.
#[verifier::external_body]
fn byte_serialize(input: &[u8]) -> (text: String)
    ensures
        text@ == url_encoded(input@),
{
    url::form_urlencoded::byte_serialize(input).collect()
}

/// Encodes a value so that it can stand as one component of a URL.
pub fn encode_url_component(value: &str) -> (text: String)
    ensures
        text@ == url_encoded(encode_utf8(value@)),
{
    byte_serialize(value.as_bytes())
}

/// The method of a request.
#[derive(Clone, Copy, Debug, PartialEq, Eq, Structural)]
pub enum Method {
    Get,
    Post,
    Put,
    Patch,
    Delete,
}

/// A request as the transport is to send it.
#[derive(Debug, PartialEq, Eq)]
pub struct ClientRequest {
    pub method: Method,
    pub url: String,
    /// The header fields, name and value, in the order in which they were set.
    pub headers: Vec<(String, String)>,
    pub body: Option<Vec<u8>>,
    /// The seconds the whole exchange may take.
    pub timeout_seconds: u64,
    /// The seconds that connecting may take.
    pub connect_timeout_seconds: u64,
    /// Whether the transport may follow a redirect by itself. It never may.
    pub follow_redirects: bool,
}

/// What a `ClientRequest` holds, as mathematical values.
pub struct ClientRequestView {
    pub method: Method,
    pub url: Seq<char>,
    pub headers: Seq<(Seq<char>, Seq<char>)>,
    pub body: Option<Seq<u8>>,
    pub timeout_seconds: u64,
    pub connect_timeout_seconds: u64,
    pub follow_redirects: bool,
}

/// The header fields a vector holds.
pub open spec fn headers_view(headers: &Vec<(String, String)>) -> Seq<(Seq<char>, Seq<char>)> {
    Seq::new(headers@.len(), |i: int| (headers@[i].0@, headers@[i].1@))
}

impl View for ClientRequest {
    type V = ClientRequestView;

    open spec fn view(&self) -> ClientRequestView {
        ClientRequestView {
            method: self.method,
            url: self.url@,
            headers: headers_view(&self.headers),
            body: match self.body {
                Some(bytes) => Some(bytes@),
                None => None,
            },
            timeout_seconds: self.timeout_seconds,
            connect_timeout_seconds: self.connect_timeout_seconds,
            follow_redirects: self.follow_redirects,
        }
    }
}

impl ClientRequestView {
    /// The request with one more header field at the end.
    pub open spec fn with_header(self, name: Seq<char>, value: Seq<char>) -> ClientRequestView {
        ClientRequestView {
            method: self.method,
            url: self.url,
            headers: self.headers.push((name, value)),
            body: self.body,
            timeout_seconds: self.timeout_seconds,
            connect_timeout_seconds: self.connect_timeout_seconds,
            follow_redirects: self.follow_redirects,
        }
    }

    /// The request with `bytes` as its body.
    pub open spec fn with_body(self, bytes: Seq<u8>) -> ClientRequestView {
        ClientRequestView {
            method: self.method,
            url: self.url,
            headers: self.headers,
            body: Some(bytes),
            timeout_seconds: self.timeout_seconds,
            connect_timeout_seconds: self.connect_timeout_seconds,
            follow_redirects: self.follow_redirects,
        }
    }
}

impl ClientRequest {
    /// Adds a header field at the end.
    pub fn header(self, name: &str, value: &str) -> (request: ClientRequest)
        ensures
            request@ == self@.with_header(name@, value@),
    {
        let mut request = self;
        let ghost before = headers_view(&request.headers);
        request.headers.push((String::from_str(name), String::from_str(value)));
        assert(headers_view(&request.headers) =~= before.push((name@, value@)));
        request
    }

    /// Sets the body.
    pub fn body(self, bytes: Vec<u8>) -> (request: ClientRequest)
        ensures
            request@ == self@.with_body(bytes@),
    {
        let mut request = self;
        request.body = Some(bytes);
        request
    }
}

/// The strategy that puts a payload into a request.
pub trait IntoClientRequest {
    fn apply_body(self, request: ClientRequest) -> ClientRequest;
}

/// The request with a JSON document as its payload: its compact text as the
/// body, and a `Content-Type` that says so.
pub open spec fn with_json(request: ClientRequestView, payload: JsonView) -> ClientRequestView {
    request.with_header("Content-Type"@, "application/json"@).with_body(
        encode_utf8(json_text(payload)),
    )
}

impl IntoClientRequest for Json {
    fn apply_body(self, request: ClientRequest) -> (with_body: ClientRequest)
        ensures
            with_body@ == with_json(request@, self@),
    {
        let text = self.to_text();
        request.header("Content-Type", "application/json").body(text.as_str().as_bytes_vec())
    }
}

/// The client for the calls of one service to the others.
pub struct ServiceRequester<H: ClientErrorHandler> {
    service_name: String,
    timeout_seconds: u16,
    error_handler: H,
}

/// The value of the `Authorization` header that presents a token.
pub open spec fn bearer(token: TokenView) -> Seq<char> {
    "Bearer "@ + token.raw
}

/// The request for `method` and `url` that presents `token`, before any body:
/// one header, `Authorization`, both timeouts as configured, and redirects not followed.
pub open spec fn authorized_request(
    method: Method,
    url: Seq<char>,
    token: TokenView,
    timeout_seconds: u16,
) -> ClientRequestView {
    ClientRequestView {
        method,
        url,
        headers: seq![("Authorization"@, bearer(token))],
        body: None,
        timeout_seconds: timeout_seconds as u64,
        connect_timeout_seconds: timeout_seconds as u64,
        follow_redirects: false,
    }
}

impl ServiceRequester<DefaultClientErrorHandler> {
    /// The client of the service `service_name`, with two minutes for an
    /// exchange and the handler that reports the status alone.
    pub fn with_service_auth(service_name: &str) -> (r: BusinessResult<Self>)
        ensures
            r is Ok,
            r.unwrap().service_name() == service_name@,
            r.unwrap().timeout_seconds() == 120,
    {
        ServiceRequester::with_service_auth_with_timeout(service_name, 120)
    }

    /// The client of the service `service_name` with `timeout_seconds` for an
    /// exchange, and as many for connecting.
    pub fn with_service_auth_with_timeout(service_name: &str, timeout_seconds: u16) -> (r:
        BusinessResult<Self>)
        ensures
            r is Ok,
            r.unwrap().service_name() == service_name@,
            r.unwrap().timeout_seconds() == timeout_seconds,
    {
        Ok(
            ServiceRequester {
                service_name: String::from_str(service_name),
                timeout_seconds,
                error_handler: DefaultClientErrorHandler(),
            },
        )
    }
}

impl<H: ClientErrorHandler> ServiceRequester<H> {
    pub closed spec fn service_name(&self) -> Seq<char> {
        self.service_name@
    }

    pub closed spec fn timeout_seconds(&self) -> u16 {
        self.timeout_seconds
    }

    pub closed spec fn handler(&self) -> &H {
        &self.error_handler
    }

    /// The same client with another handler for the responses without success.
    pub fn with_error_handler<G: ClientErrorHandler>(self, error_handler: G) -> (r:
        ServiceRequester<G>)
        ensures
            r.service_name() == self.service_name(),
            r.timeout_seconds() == self.timeout_seconds(),
            *r.handler() == error_handler,
    {
        ServiceRequester {
            service_name: self.service_name,
            timeout_seconds: self.timeout_seconds,
            error_handler,
        }
    }

    /// The handler for the responses without success.
    pub fn error_handler(&self) -> (handler: &H)
        ensures
            handler == self.handler(),
    {
        &self.error_handler
    }

    /// The seconds an exchange may take, and connecting too.
    pub fn timeout(&self) -> (seconds: u16)
        ensures
            seconds == self.timeout_seconds(),
    {
        self.timeout_seconds
    }

    /// The name of the service that calls.
    pub fn name(&self) -> (name: &str)
        ensures
            name@ == self.service_name(),
    {
        self.service_name.as_str()
    }

    /// The request for `method` and `url` without a body.
    pub fn without_body(&self, method: Method, url: &str, token: &Token) -> (request:
        ClientRequest)
        ensures
            request@ == authorized_request(method, url@, token@, self.timeout_seconds()),
    {
        let authorization = String::from_str("Bearer ").concat(token.raw.as_str());
        let request = ClientRequest {
            method,
            url: String::from_str(url),
            headers: Vec::new(),
            body: None,
            timeout_seconds: self.timeout_seconds as u64,
            connect_timeout_seconds: self.timeout_seconds as u64,
            follow_redirects: false,
        };
        assert(headers_view(&request.headers) =~= Seq::empty());
        let request = request.header("Authorization", authorization.as_str());
        assert(request@.headers =~= seq![("Authorization"@, bearer(token@))]);
        request
    }

    /// The request for `method` and `url` with `body` put into it: what `body`
    /// makes of the request that presents the token.
    pub fn with_body<B: IntoClientRequest>(
        &self,
        method: Method,
        url: &str,
        body: B,
        token: &Token,
    ) -> (request: ClientRequest)
        ensures
            exists|bare: ClientRequest|
                bare@ == authorized_request(method, url@, token@, self.timeout_seconds())
                    && #[trigger] call_ensures(B::apply_body, (body, bare), request),
    {
        let bare = self.without_body(method, url, token);
        let request = body.apply_body(bare);
        assert(bare@ == authorized_request(method, url@, token@, self.timeout_seconds())
            && call_ensures(B::apply_body, (body, bare), request));
        request
    }

    pub fn get(&self, url: &str, token: &Token) -> (request: ClientRequest)
        ensures
            request@ == authorized_request(Method::Get, url@, token@, self.timeout_seconds()),
    {
        self.without_body(Method::Get, url, token)
    }

    pub fn post<B: IntoClientRequest>(&self, url: &str, body: B, token: &Token) -> (request:
        ClientRequest)
        ensures
            exists|bare: ClientRequest|
                bare@ == authorized_request(Method::Post, url@, token@, self.timeout_seconds())
                    && #[trigger] call_ensures(B::apply_body, (body, bare), request),
    {
        self.with_body(Method::Post, url, body, token)
    }

    pub fn patch<B: IntoClientRequest>(&self, url: &str, body: B, token: &Token) -> (request:
        ClientRequest)
        ensures
            exists|bare: ClientRequest|
                bare@ == authorized_request(Method::Patch, url@, token@, self.timeout_seconds())
                    && #[trigger] call_ensures(B::apply_body, (body, bare), request),
    {
        self.with_body(Method::Patch, url, body, token)
    }

    pub fn put<B: IntoClientRequest>(&self, url: &str, body: B, token: &Token) -> (request:
        ClientRequest)
        ensures
            exists|bare: ClientRequest|
                bare@ == authorized_request(Method::Put, url@, token@, self.timeout_seconds())
                    && #[trigger] call_ensures(B::apply_body, (body, bare), request),
    {
        self.with_body(Method::Put, url, body, token)
    }

    pub fn delete(&self, url: &str, token: &Token) -> (request: ClientRequest)
        ensures
            request@ == authorized_request(Method::Delete, url@, token@, self.timeout_seconds()),
    {
        self.without_body(Method::Delete, url, token)
    }

    /// The request for `method` and `url` with a JSON document as its payload.
    pub fn with_json_body(&self, method: Method, url: &str, body: Json, token: &Token) -> (request:
        ClientRequest)
        ensures
            request@ == with_json(
                authorized_request(method, url@, token@, self.timeout_seconds()),
                body@,
            ),
    {
        body.apply_body(self.without_body(method, url, token))
    }
}

} // verus!
