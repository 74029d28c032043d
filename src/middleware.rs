//! What every response passes through: the timeout outcome and the fixed
//! security headers, each overriding any header of the same name.

use vstd::prelude::*;
use vstd::string::{StrSliceExecFns, StringSliceAdditionalSpecFns};
use crate::http::{
    headers_view, Header, HeaderName, HeaderView, Response, ResponseView, STATUS_REQUEST_TIMEOUT,
};

verus! {

/// Seconds a request may take before it is answered with a timeout.
pub const REQUEST_TIMEOUT_SECS: u64 = 10;

pub open spec fn is_security_header(n: HeaderName) -> bool {
    match n {
        HeaderName::StrictTransportSecurity => true,
        HeaderName::ReferrerPolicy => true,
        HeaderName::ContentSecurityPolicy => true,
        HeaderName::XFrameOptions => true,
        HeaderName::XXssProtection => true,
        HeaderName::XContentTypeOptions => true,
        _ => false,
    }
}

/// The fixed value of each security header.
pub open spec fn security_value(n: HeaderName) -> Seq<u8> {
    match n {
        HeaderName::StrictTransportSecurity => "max-age=31536000; includeSubDomains; preload".spec_bytes(),
        HeaderName::ReferrerPolicy => "no-referrer".spec_bytes(),
        HeaderName::ContentSecurityPolicy => "default-src 'self'; style-src 'self' https://fonts.googleapis.com; font-src https://fonts.gstatic.com".spec_bytes(),
        HeaderName::XFrameOptions => "DENY".spec_bytes(),
        HeaderName::XXssProtection => "1; mode=block".spec_bytes(),
        HeaderName::XContentTypeOptions => "nosniff".spec_bytes(),
        _ => Seq::empty(),
    }
}

/// The six security headers, in the order they are written.
pub open spec fn security_headers() -> Seq<HeaderView> {
    seq![
        (HeaderName::StrictTransportSecurity, security_value(HeaderName::StrictTransportSecurity)),
        (HeaderName::ReferrerPolicy, security_value(HeaderName::ReferrerPolicy)),
        (HeaderName::ContentSecurityPolicy, security_value(HeaderName::ContentSecurityPolicy)),
        (HeaderName::XFrameOptions, security_value(HeaderName::XFrameOptions)),
        (HeaderName::XXssProtection, security_value(HeaderName::XXssProtection)),
        (HeaderName::XContentTypeOptions, security_value(HeaderName::XContentTypeOptions)),
    ]
}

/// The headers without those that the security headers override.
pub open spec fn strip_security(hs: Seq<HeaderView>) -> Seq<HeaderView>
    decreases hs.len(),
{
    if hs.len() == 0 {
        hs
    } else if is_security_header(hs.last().0) {
        strip_security(hs.drop_last())
    } else {
        strip_security(hs.drop_last()).push(hs.last())
    }
}

/// A response with the security headers set, each overriding any earlier one.
pub open spec fn secured(r: ResponseView) -> ResponseView {
    ResponseView {
        status: r.status,
        headers: strip_security(r.headers) + security_headers(),
        body: r.body,
    }
}

/// The response to a request that did not complete in time: no headers of
/// its own, no body.
pub open spec fn timeout_view() -> ResponseView {
    ResponseView { status: STATUS_REQUEST_TIMEOUT, headers: Seq::empty(), body: Seq::empty() }
}

/// What is sent for a request whose handling produced `outcome` in time, or
/// nothing before the deadline.
pub open spec fn finished(outcome: Option<ResponseView>) -> ResponseView {
    match outcome {
        Some(r) => secured(r),
        None => secured(timeout_view()),
    }
}

/// Headers none of which is a security header are kept as they are.
pub proof fn lemma_strip_keeps_plain(hs: Seq<HeaderView>)
    requires
        forall|i: int| 0 <= i < hs.len() ==> !is_security_header(#[trigger] hs[i].0),
    ensures
        strip_security(hs) == hs,
    decreases hs.len(),
{
    if hs.len() > 0 {
        lemma_strip_keeps_plain(hs.drop_last());
        assert(hs.drop_last().push(hs.last()) =~= hs);
    }
}

/// Each of the six security headers appears exactly once, with its fixed
/// value.
pub open spec fn carries_security_headers(hs: Seq<HeaderView>) -> bool {
    &&& forall|n: HeaderName| #[trigger] is_security_header(n) ==> exists|i: int|
        0 <= i < hs.len() && #[trigger] hs[i] == (n, security_value(n))
    &&& forall|i: int| 0 <= i < hs.len() && is_security_header(#[trigger] hs[i].0) ==> hs[i].1
        == security_value(hs[i].0)
    &&& forall|i: int, j: int|
        0 <= i < j < hs.len() && is_security_header(#[trigger] hs[i].0) ==> hs[i].0
            != #[trigger] hs[j].0
}

/// What is left after stripping holds no security header.
pub proof fn lemma_strip_removes(hs: Seq<HeaderView>)
    ensures
        forall|i: int| 0 <= i < strip_security(hs).len() ==> !is_security_header(
            #[trigger] strip_security(hs)[i].0,
        ),
    decreases hs.len(),
{
    if hs.len() > 0 {
        let init = strip_security(hs.drop_last());
        lemma_strip_removes(hs.drop_last());
        if !is_security_header(hs.last().0) {
            assert forall|i: int| 0 <= i < strip_security(hs).len() implies !is_security_header(
                #[trigger] strip_security(hs)[i].0,
            ) by {
                if i < init.len() {
                    assert(strip_security(hs)[i] == init[i]);
                }
            }
        }
    }
}

/// Every response, whatever its route and status, leaves with each of the six
/// security headers exactly once and with its fixed value; status and body
/// are those of the response it was given.
pub proof fn lemma_every_response_secured(r: ResponseView)
    ensures
        carries_security_headers(secured(r).headers),
        secured(r).status == r.status,
        secured(r).body == r.body,
{
    let a = strip_security(r.headers);
    let b = security_headers();
    let hs = a + b;
    lemma_strip_removes(r.headers);
    assert forall|n: HeaderName| #[trigger] is_security_header(n) implies exists|i: int|
        0 <= i < hs.len() && #[trigger] hs[i] == (n, security_value(n)) by {
        let k: int = match n {
            HeaderName::StrictTransportSecurity => 0,
            HeaderName::ReferrerPolicy => 1,
            HeaderName::ContentSecurityPolicy => 2,
            HeaderName::XFrameOptions => 3,
            HeaderName::XXssProtection => 4,
            _ => 5,
        };
        assert(hs[a.len() + k] == b[k]);
    }
    assert forall|i: int| 0 <= i < hs.len() && is_security_header(#[trigger] hs[i].0) implies hs[i].1
        == security_value(hs[i].0) by {
        if i < a.len() {
            assert(hs[i] == a[i]);
        } else {
            assert(hs[i] == b[i - a.len()]);
        }
    }
    assert forall|i: int, j: int|
        0 <= i < j < hs.len() && is_security_header(#[trigger] hs[i].0) implies hs[i].0
            != #[trigger] hs[j].0 by {
        if i < a.len() {
            assert(hs[i] == a[i]);
        } else {
            assert(hs[i] == b[i - a.len()]);
            assert(hs[j] == b[j - a.len()]);
        }
    }
}

/// A request that produced nothing in time is answered 408 with the security
/// headers and no body; one that produced a response in time gets that
/// response, secured.
pub proof fn lemma_timeout_answer(outcome: Option<ResponseView>)
    ensures
        outcome is None ==> finished(outcome).status == STATUS_REQUEST_TIMEOUT
            && finished(outcome).headers == security_headers()
            && finished(outcome).body.len() == 0,
        outcome matches Some(r) ==> finished(outcome) == secured(r),
        carries_security_headers(finished(outcome).headers),
{
    assert(strip_security(Seq::<HeaderView>::empty()) == Seq::<HeaderView>::empty());
    assert(Seq::<HeaderView>::empty() + security_headers() =~= security_headers());
    match outcome {
        Some(r) => lemma_every_response_secured(r),
        None => lemma_every_response_secured(timeout_view()),
    }
}

fn is_security_name(n: HeaderName) -> (r: bool)
    ensures
        r == is_security_header(n),
{
    match n {
        HeaderName::ContentType => false,
        HeaderName::ETag => false,
        _ => true,
    }
}

fn push_header(hs: &mut Vec<Header>, name: HeaderName, value: &str)
    ensures
        headers_view(final(hs)@) == headers_view(old(hs)@).push((name, value.spec_bytes())),
{
    hs.push(Header { name, value: value.as_bytes_vec() });
    assert(headers_view(hs@) =~= headers_view(old(hs)@).push((name, value.spec_bytes())));
}

/// Sets the six security headers on `r`, replacing any header of the same
/// names; status, body and the other headers stay as they were.
pub fn secure(r: Response) -> (out: Response)
    ensures
        out@ == secured(r@),
{
    let ghost hs = headers_view(r.headers@);
    let mut headers: Vec<Header> = Vec::new();
    let mut i: usize = 0;
    while i < r.headers.len()
        invariant
            i <= r.headers@.len(),
            hs == headers_view(r.headers@),
            headers_view(headers@) == strip_security(hs.subrange(0, i as int)),
        decreases r.headers@.len() - i,
    {
        let h = &r.headers[i];
        assert(hs.subrange(0, i + 1).drop_last() =~= hs.subrange(0, i as int));
        if !is_security_name(h.name) {
            let value = h.value.clone();
            headers.push(Header { name: h.name, value });
            assert(headers_view(headers@) =~= strip_security(hs.subrange(0, i + 1)));
        }
        i = i + 1;
    }
    assert(hs.subrange(0, i as int) =~= hs);
    push_header(&mut headers, HeaderName::StrictTransportSecurity, "max-age=31536000; includeSubDomains; preload");
    push_header(&mut headers, HeaderName::ReferrerPolicy, "no-referrer");
    push_header(&mut headers, HeaderName::ContentSecurityPolicy, "default-src 'self'; style-src 'self' https://fonts.googleapis.com; font-src https://fonts.gstatic.com");
    push_header(&mut headers, HeaderName::XFrameOptions, "DENY");
    push_header(&mut headers, HeaderName::XXssProtection, "1; mode=block");
    push_header(&mut headers, HeaderName::XContentTypeOptions, "nosniff");
    assert(headers_view(headers@) =~= strip_security(hs) + security_headers());
    Response { status: r.status, headers, body: r.body }
}

/// The bare response to a request that ran out of time.
pub fn timeout_response() -> (r: Response)
    ensures
        r@ == timeout_view(),
{
    let r = Response { status: STATUS_REQUEST_TIMEOUT, headers: Vec::new(), body: Vec::new() };
    assert(r@.headers =~= Seq::<HeaderView>::empty());
    r
}

/// Completes a request: the response it produced in time, or the timeout
/// response where it produced none; either way with the security headers.
pub fn finish(outcome: Option<Response>) -> (r: Response)
    ensures
        r@ == finished(
            match outcome {
                Some(x) => Some(x@),
                None => None,
            },
        ),
{
    match outcome {
        Some(x) => secure(x),
        None => secure(timeout_response()),
    }
}

} // verus!
