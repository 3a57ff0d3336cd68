//! The HTTP upgrade handshake: validating the client's request and building
//! the response, with the accept value derived from the client's key.

use vstd::prelude::*;
use vstd::string::StringSliceAdditionalSpecFns;
use base64::Engine;
use sha1::Digest;

verus! {

/// Name of the header that carries the client's nonce (matched exactly).
pub const WEBSOCKET_KEY_HEADER: &'static str = "Sec-WebSocket-Key";

/// Constant that the protocol appends to the client's key before hashing.
pub const ACCEPT_MAGIC: &'static str = "258EAFA5-E914-47DA-95CA-C5AB0DC85B11";

/// The only method that may open a WebSocket connection.
pub const UPGRADE_METHOD: &'static str = "GET";

/// Response to a request that cannot be upgraded.
pub const BAD_REQUEST: &'static str = "HTTP/1.1 400 Bad Request\r\n\r\n";

/// Response head up to the accept value.
pub const SWITCHING_PROTOCOLS: &'static str =
    "HTTP/1.1 101 Switching Protocols\r\nUpgrade: websocket\r\nConnection: Upgrade\r\nSec-WebSocket-Accept: ";

/// End of the accept header and of the response head.
pub const RESPONSE_END: &'static str = "\r\n\r\n";

/// SHA-1 digest of a byte sequence.
pub uninterp spec fn sha1_digest(data: Seq<u8>) -> Seq<u8>;

/// Standard Base64 text (with padding) of a byte sequence.
pub uninterp spec fn base64_standard(data: Seq<u8>) -> Seq<char>;

/// Relies on sha1's `Sha1::digest`: the 20-byte SHA-1 digest of `data`.
#[verifier::external_body]
fn sha1_of(data: &[u8]) -> (r: Vec<u8>)
    ensures
        r@ == sha1_digest(data@),
        r@.len() == 20,
{
    sha1::Sha1::digest(data).to_vec()
}

/// Relies on base64's `BASE64_STANDARD.encode`: padded standard Base64, four
/// characters for every started group of three bytes (its `encoded_len`).
#[verifier::external_body]
fn base64_of(data: &[u8]) -> (r: String)
    requires
        data@.len() <= usize::MAX / 2,
    ensures
        r@ == base64_standard(data@),
        r@.len() == 4 * ((data@.len() + 2) / 3),
{
    base64::prelude::BASE64_STANDARD.encode(data)
}

/// The accept value for a client key: Base64 of the SHA-1 digest of the key
/// followed by the protocol constant.
pub open spec fn accept_text(key: Seq<u8>) -> Seq<char> {
    base64_standard(sha1_digest(key + ACCEPT_MAGIC.spec_bytes()))
}

/// Derives the `Sec-WebSocket-Accept` value for the raw key `key_value`.
pub fn accept_value(key_value: &[u8]) -> (r: String)
    ensures
        r@ == accept_text(key_value@),
        r@.len() == 28,
{
    let mut data: Vec<u8> = vstd::slice::slice_to_vec(key_value);
    data.extend_from_slice(ACCEPT_MAGIC.as_bytes());
    assert(data@ =~= key_value@ + ACCEPT_MAGIC.spec_bytes());
    let digest = sha1_of(data.as_slice());
    base64_of(digest.as_slice())
}

/// One header of a request: its name and raw value bytes.
pub struct HttpHeader {
    pub name: String,
    pub value: Vec<u8>,
}

impl View for HttpHeader {
    type V = (Seq<char>, Seq<u8>);

    open spec fn view(&self) -> (Seq<char>, Seq<u8>) {
        (self.name@, self.value@)
    }
}

/// What the handshake reads of an HTTP request: its method, if the parser
/// got that far, and its headers in order.
pub struct HttpRequest {
    pub method: Option<String>,
    pub headers: Vec<HttpHeader>,
}

impl View for HttpRequest {
    type V = (Option<Seq<char>>, Seq<(Seq<char>, Seq<u8>)>);

    open spec fn view(&self) -> (Option<Seq<char>>, Seq<(Seq<char>, Seq<u8>)>) {
        (
            match self.method {
                Some(m) => Some(m@),
                None => None,
            },
            self.headers@.map_values(|h: HttpHeader| h@),
        )
    }
}

/// The request that the HTTP parser reads from a buffer, or `None` where it
/// reports an error.
pub uninterp spec fn parsed_http_request(buf: Seq<u8>) -> Option<
    (Option<Seq<char>>, Seq<(Seq<char>, Seq<u8>)>),
>;

/// Relies on httparse's `Request::parse`, given room for 64 headers: `None`
/// where it returns an error, else the request's `method` and `headers`
/// fields after the call (the parsed headers for a complete request; the
/// whole header array, unused slots with empty names, for a partial one).
#[verifier::external_body]
fn parse_http_request(buf: &[u8]) -> (r: Option<HttpRequest>)
    ensures
        match r {
            Some(req) => parsed_http_request(buf@) == Some(req@),
            None => parsed_http_request(buf@) is None,
        },
{
    let mut headers = [httparse::EMPTY_HEADER; 64];
    let mut req = httparse::Request::new(&mut headers);
    match req.parse(buf) {
        Err(_) => None,
        Ok(_) => Some(HttpRequest {
            method: req.method.map(|m| m.to_string()),
            headers: req.headers.iter().map(|h| HttpHeader { name: h.name.to_string(), value: h.value.to_vec() }).collect(),
        }),
    }
}

/// Value of the first header in `headers` named exactly `name`.
pub open spec fn header_value(headers: Seq<(Seq<char>, Seq<u8>)>, name: Seq<char>) -> Option<
    Seq<u8>,
>
    decreases headers.len(),
{
    if headers.len() == 0 {
        None
    } else if headers[0].0 == name {
        Some(headers[0].1)
    } else {
        header_value(headers.drop_first(), name)
    }
}

/// The client key of a request that may be upgraded: the method is `GET` and
/// a `Sec-WebSocket-Key` header is present.
pub open spec fn upgrade_key(req: (Option<Seq<char>>, Seq<(Seq<char>, Seq<u8>)>)) -> Option<
    Seq<u8>,
> {
    if req.0 == Some(UPGRADE_METHOD@) {
        header_value(req.1, WEBSOCKET_KEY_HEADER@)
    } else {
        None
    }
}

/// The 101 response text carrying `accept`.
pub open spec fn upgrade_text(accept: Seq<char>) -> Seq<char> {
    SWITCHING_PROTOCOLS@ + accept + RESPONSE_END@
}

/// Outcome of a handshake, with the response to send in either case.
pub enum HandshakeResult {
    /// The upgrade is accepted: a 101 response.
    Accepted(String),
    /// The request is refused: a 400 response, after which the connection
    /// closes.
    Rejected(String),
}

impl HandshakeResult {
    /// The response text to send.
    pub fn response(&self) -> (r: &String)
        ensures
            r == match self {
                HandshakeResult::Accepted(s) => s,
                HandshakeResult::Rejected(s) => s,
            },
    {
        match self {
            HandshakeResult::Accepted(s) => s,
            HandshakeResult::Rejected(s) => s,
        }
    }

    /// Whether the request was refused.
    pub fn is_rejected(&self) -> (r: bool)
        ensures
            r == self is Rejected,
    {
        match self {
            HandshakeResult::Accepted(_) => false,
            HandshakeResult::Rejected(_) => true,
        }
    }
}

/// Why no response could be built at all.
#[derive(Debug, Clone, Copy, PartialEq, Eq, Structural)]
pub enum HandshakeError {
    /// The HTTP parser refused the request.
    MalformedHttpRequest,
}

/// Builds the 101 response that carries the accept value `accept`.
pub fn switching_protocols_response(accept: &str) -> (r: String)
    ensures
        r@ == upgrade_text(accept@),
{
    let mut response = SWITCHING_PROTOCOLS.to_owned();
    response.append(accept);
    response.append(RESPONSE_END);
    response
}

/// Value of the first header of `headers` named exactly `name`.
pub fn find_header<'a>(headers: &'a Vec<HttpHeader>, name: &String) -> (r: Option<&'a Vec<u8>>)
    ensures
        match r {
            Some(v) => header_value(headers@.map_values(|h: HttpHeader| h@), name@) == Some(v@),
            None => header_value(headers@.map_values(|h: HttpHeader| h@), name@) is None,
        },
{
    let ghost all = headers@.map_values(|h: HttpHeader| h@);
    let mut i: usize = 0;
    assert(all.subrange(0, all.len() as int) =~= all);
    while i < headers.len()
        invariant
            i <= headers@.len(),
            all == headers@.map_values(|h: HttpHeader| h@),
            header_value(all, name@) == header_value(all.subrange(i as int, all.len() as int), name@),
        decreases headers.len() - i,
    {
        let h = &headers[i];
        proof {
            let rest = all.subrange(i as int, all.len() as int);
            assert(rest[0] == h@);
            assert(rest.drop_first() =~= all.subrange(i + 1, all.len() as int));
        }
        if h.name == *name {
            return Some(&h.value);
        }
        i = i + 1;
    }
    None
}

/// Answers a parsed request: a 101 response with the accept value of its key
/// where the method is `GET` and a `Sec-WebSocket-Key` header is present,
/// else the 400 response.
pub fn respond_to(req: &HttpRequest) -> (r: HandshakeResult)
    ensures
        match upgrade_key(req@) {
            Some(key) => r is Accepted && r->Accepted_0@ == upgrade_text(accept_text(key)),
            None => r is Rejected && r->Rejected_0@ == BAD_REQUEST@,
        },
{
    let is_get = match &req.method {
        Some(m) => *m == UPGRADE_METHOD.to_owned(),
        None => false,
    };
    if !is_get {
        return HandshakeResult::Rejected(BAD_REQUEST.to_owned());
    }
    match find_header(&req.headers, &WEBSOCKET_KEY_HEADER.to_owned()) {
        None => HandshakeResult::Rejected(BAD_REQUEST.to_owned()),
        Some(key) => {
            let accept = accept_value(key.as_slice());
            HandshakeResult::Accepted(switching_protocols_response(accept.as_str()))
        },
    }
}

/// Validates the HTTP request in `request_buf` and builds the response;
/// fails only where the HTTP parser refuses the request.
pub fn handshake_response(request_buf: &[u8]) -> (r: Result<HandshakeResult, HandshakeError>)
    ensures
        match parsed_http_request(request_buf@) {
            None => r == Err::<HandshakeResult, HandshakeError>(
                HandshakeError::MalformedHttpRequest,
            ),
            Some(req) => r is Ok && match upgrade_key(req) {
                Some(key) => r->Ok_0 is Accepted && r->Ok_0->Accepted_0@ == upgrade_text(
                    accept_text(key),
                ),
                None => r->Ok_0 is Rejected && r->Ok_0->Rejected_0@ == BAD_REQUEST@,
            },
        },
{
    match parse_http_request(request_buf) {
        None => Err(HandshakeError::MalformedHttpRequest),
        Some(req) => Ok(respond_to(&req)),
    }
}

} // verus!
