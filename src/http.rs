//! The response model shared by the handler, the router and the middleware.

use vstd::prelude::*;

verus! {

pub const STATUS_OK: u16 = 200;

pub const STATUS_NOT_MODIFIED: u16 = 304;

pub const STATUS_NOT_FOUND: u16 = 404;

pub const STATUS_REQUEST_TIMEOUT: u16 = 408;

/// The response headers this server ever writes.
#[derive(Clone, Copy, Debug, PartialEq, Eq, Structural)]
pub enum HeaderName {
    ContentType,
    ETag,
    StrictTransportSecurity,
    ReferrerPolicy,
    ContentSecurityPolicy,
    XFrameOptions,
    XXssProtection,
    XContentTypeOptions,
}

/// One response header: a name and its value as bytes.
#[derive(Clone, Debug)]
pub struct Header {
    pub name: HeaderName,
    pub value: Vec<u8>,
}

/// A complete response: status code, headers in order, body.
#[derive(Clone, Debug)]
pub struct Response {
    pub status: u16,
    pub headers: Vec<Header>,
    pub body: Vec<u8>,
}

/// A header as a mathematical value.
pub type HeaderView = (HeaderName, Seq<u8>);

/// A response as a mathematical value.
pub struct ResponseView {
    pub status: u16,
    pub headers: Seq<HeaderView>,
    pub body: Seq<u8>,
}

impl View for Header {
    type V = HeaderView;

    open spec fn view(&self) -> HeaderView {
        (self.name, self.value@)
    }
}

pub open spec fn headers_view(hs: Seq<Header>) -> Seq<HeaderView> {
    hs.map_values(|h: Header| h@)
}

impl View for Response {
    type V = ResponseView;

    open spec fn view(&self) -> ResponseView {
        ResponseView { status: self.status, headers: headers_view(self.headers@), body: self.body@ }
    }
}

/// Compares two byte strings.
pub fn bytes_eq(a: &[u8], b: &[u8]) -> (r: bool)
    ensures
        r == (a@ == b@),
{
    if a.len() != b.len() {
        return false;
    }
    let mut i: usize = 0;
    while i < a.len()
        invariant
            a@.len() == b@.len(),
            i <= a@.len(),
            forall|j: int| 0 <= j < i ==> a@[j] == b@[j],
        decreases a@.len() - i,
    {
        if a[i] != b[i] {
            return false;
        }
        i = i + 1;
    }
    assert(a@ =~= b@);
    true
}

} // verus!
