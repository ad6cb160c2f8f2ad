//! Request and response descriptors, and the identity under which a
//! request is cached.

use vstd::prelude::*;

verus! {

/// HTTP request method.
#[derive(Clone, Copy, Debug, PartialEq, Eq, Structural)]
pub enum Method {
    Get,
    Head,
    Post,
    Put,
    Delete,
    Patch,
    Options,
    Connect,
    Trace,
}

/// One header line.
#[derive(Debug, PartialEq, Eq)]
pub struct Header {
    pub name: String,
    pub value: String,
}

/// Abstract value of a header: its name and value as character sequences.
pub struct HeaderView {
    pub name: Seq<char>,
    pub value: Seq<char>,
}

impl View for Header {
    type V = HeaderView;

    open spec fn view(&self) -> HeaderView {
        HeaderView { name: self.name@, value: self.value@ }
    }
}

impl Header {
    pub fn new(name: String, value: String) -> (r: Header)
        ensures
            r.name == name,
            r.value == value,
    {
        Header { name, value }
    }

    /// An independent copy of this header.
    pub fn duplicate(&self) -> (r: Header)
        ensures
            r@ == self@,
    {
        Header { name: self.name.clone(), value: self.value.clone() }
    }
}

/// Copies a header list, element by element.
pub fn duplicate_headers(hs: &Vec<Header>) -> (r: Vec<Header>)
    ensures
        r@.map_values(|h: Header| h@) == hs@.map_values(|h: Header| h@),
{
    let mut out: Vec<Header> = Vec::new();
    let mut i: usize = 0;
    while i < hs.len()
        invariant
            i <= hs.len(),
            out.len() == i,
            forall|j: int| 0 <= j < i ==> (#[trigger] out@[j])@ == hs@[j]@,
        decreases hs.len() - i,
    {
        out.push(hs[i].duplicate());
        i = i + 1;
    }
    assert(out@.map_values(|h: Header| h@) =~= hs@.map_values(|h: Header| h@));
    out
}

/// Copies a byte buffer.
pub fn duplicate_bytes(b: &Vec<u8>) -> (r: Vec<u8>)
    ensures
        r@ == b@,
{
    let mut out: Vec<u8> = Vec::new();
    let mut i: usize = 0;
    while i < b.len()
        invariant
            i <= b.len(),
            out@ == b@.subrange(0, i as int),
        decreases b.len() - i,
    {
        out.push(b[i]);
        i = i + 1;
        assert(out@ =~= b@.subrange(0, i as int));
    }
    assert(b@.subrange(0, b.len() as int) =~= b@);
    out
}

/// The identity of a request for caching purposes: method and full URL,
/// query string included.
#[derive(Debug, PartialEq, Eq)]
pub struct RequestKey {
    pub method: Method,
    pub url: String,
}

/// Abstract identity: the method and the URL's characters.
pub type KeyView = (Method, Seq<char>);

impl View for RequestKey {
    type V = KeyView;

    open spec fn view(&self) -> KeyView {
        (self.method, self.url@)
    }
}

impl RequestKey {
    pub fn new(method: Method, url: String) -> (r: RequestKey)
        ensures
            r.method == method,
            r.url == url,
    {
        RequestKey { method, url }
    }

    /// The identity of a plain GET of `url`, as used for seeded assets and
    /// the offline page.
    pub fn get(url: &str) -> (r: RequestKey)
        ensures
            r@ == (Method::Get, url@),
    {
        RequestKey { method: Method::Get, url: String::from_str(url) }
    }

    pub fn duplicate(&self) -> (r: RequestKey)
        ensures
            r@ == self@,
    {
        RequestKey { method: self.method, url: self.url.clone() }
    }

    /// Identity comparison: same method and same URL.
    pub fn same_as(&self, other: &RequestKey) -> (r: bool)
        ensures
            r == (self@ == other@),
    {
        self.method == other.method && self.url == other.url
    }
}

/// An intercepted request.
#[derive(Debug, PartialEq, Eq)]
pub struct Request {
    pub method: Method,
    pub url: String,
    pub headers: Vec<Header>,
    pub body: Option<Vec<u8>>,
}

impl Request {
    pub fn new(method: Method, url: String, headers: Vec<Header>, body: Option<Vec<u8>>) -> (r: Request)
        ensures
            r.method == method,
            r.url == url,
            r.headers == headers,
            r.body == body,
    {
        Request { method, url, headers, body }
    }

    /// The identity under which this request is cached.
    pub fn identity(&self) -> (r: RequestKey)
        ensures
            r@ == (self.method, self.url@),
    {
        RequestKey { method: self.method, url: self.url.clone() }
    }
}

/// A complete response.
#[derive(Debug, PartialEq, Eq)]
pub struct Response {
    pub status: u16,
    pub headers: Vec<Header>,
    pub body: Vec<u8>,
}

/// Abstract value of a response.
pub struct ResponseView {
    pub status: u16,
    pub headers: Seq<HeaderView>,
    pub body: Seq<u8>,
}

impl View for Response {
    type V = ResponseView;

    open spec fn view(&self) -> ResponseView {
        ResponseView {
            status: self.status,
            headers: self.headers@.map_values(|h: Header| h@),
            body: self.body@,
        }
    }
}

/// A status in the 200..=299 range.
pub open spec fn is_success_status(status: u16) -> bool {
    200 <= status <= 299
}

impl Response {
    pub fn new(status: u16, headers: Vec<Header>, body: Vec<u8>) -> (r: Response)
        ensures
            r.status == status,
            r.headers == headers,
            r.body == body,
    {
        Response { status, headers, body }
    }

    /// An independent copy of this response: status, headers and body.
    pub fn duplicate(&self) -> (r: Response)
        ensures
            r@ == self@,
    {
        Response {
            status: self.status,
            headers: duplicate_headers(&self.headers),
            body: duplicate_bytes(&self.body),
        }
    }

    /// Whether the status is a success status (200 to 299).
    pub fn is_success(&self) -> (r: bool)
        ensures
            r == is_success_status(self.status),
    {
        200 <= self.status && self.status <= 299
    }
}

/// Why a network fetch failed.
#[derive(Debug, PartialEq, Eq)]
pub struct NetworkError {
    pub reason: String,
}

/// Why a cache operation failed.
#[derive(Debug, PartialEq, Eq)]
pub struct CacheError {
    pub reason: String,
}

} // verus!
