//! The static response engine: one fixed asset, answered in full or as
//! "not modified" against its fingerprint.

use vstd::prelude::*;
use vstd::string::{StrSliceExecFns, StringSliceAdditionalSpecFns};
use crate::assets::AssetTable;
use crate::fingerprint::{fingerprint, fingerprint_of, MAX_DIGEST_INPUT};
use crate::http::{
    bytes_eq, Header, HeaderName, Response, ResponseView, STATUS_NOT_MODIFIED, STATUS_OK,
};

verus! {

/// A handler's data: content type, fingerprint, bytes.
pub struct HandlerView {
    pub content_type: Seq<u8>,
    pub etag: Seq<u8>,
    pub content: Seq<u8>,
}

/// Serves one asset with its content type; the fingerprint is computed once,
/// when the handler is made.
#[derive(Clone, Debug)]
pub struct StaticHandler {
    content_type: Vec<u8>,
    etag: Vec<u8>,
    content: Vec<u8>,
}

/// Whether a request's `If-None-Match` value names the current fingerprint.
pub open spec fn is_fresh(if_none_match: Option<Seq<u8>>, etag: Seq<u8>) -> bool {
    match if_none_match {
        Some(v) => v == etag,
        None => false,
    }
}

/// "Not modified": only the `ETag` header, no body.
pub open spec fn not_modified_view(etag: Seq<u8>) -> ResponseView {
    ResponseView {
        status: STATUS_NOT_MODIFIED,
        headers: seq![(HeaderName::ETag, etag)],
        body: Seq::empty(),
    }
}

/// The full response: content type, `ETag` and the bytes.
pub open spec fn full_view(h: HandlerView) -> ResponseView {
    ResponseView {
        status: STATUS_OK,
        headers: seq![(HeaderName::ContentType, h.content_type), (HeaderName::ETag, h.etag)],
        body: h.content,
    }
}

/// What a handler answers to a request with the given `If-None-Match` value.
pub open spec fn handler_response(h: HandlerView, if_none_match: Option<Seq<u8>>) -> ResponseView {
    if is_fresh(if_none_match, h.etag) {
        not_modified_view(h.etag)
    } else {
        full_view(h)
    }
}

/// The optional header value as a mathematical value.
pub open spec fn opt_view(v: Option<&[u8]>) -> Option<Seq<u8>> {
    match v {
        Some(b) => Some(b@),
        None => None,
    }
}

impl View for StaticHandler {
    type V = HandlerView;

    closed spec fn view(&self) -> HandlerView {
        HandlerView { content_type: self.content_type@, etag: self.etag@, content: self.content@ }
    }
}

impl StaticHandler {
    /// The fingerprint is that of the content.
    pub closed spec fn wf(&self) -> bool {
        self.etag@ == fingerprint_of(self.content@)
    }

    /// Creates a handler for `content` served as `content_type`.
    pub fn new(content_type: &str, content: Vec<u8>) -> (r: Self)
        requires
            content@.len() < MAX_DIGEST_INPUT,
        ensures
            r.wf(),
            r@.content_type == content_type.spec_bytes(),
            r@.content == content@,
            r@.etag == fingerprint_of(content@),
            r@.etag.len() == 43,
    {
        let etag = fingerprint(content.as_slice());
        StaticHandler { content_type: content_type.as_bytes_vec(), etag, content }
    }

    /// Creates a handler for the asset named `asset` in `table`, or `None`
    /// where the table has no such asset.
    pub fn from_asset(table: &AssetTable, content_type: &str, asset: &str) -> (r: Option<Self>)
        requires
            table.wf(),
        ensures
            r is None <==> !table.view().contains_key(asset.spec_bytes()),
            r matches Some(h) ==> h.wf() && h@.content_type == content_type.spec_bytes()
                && h@.content == table.view()[asset.spec_bytes()]
                && h@.etag == fingerprint_of(h@.content) && h@.etag.len() == 43,
    {
        let name = asset.as_bytes_vec();
        match table.get(name.as_slice()) {
            Some(content) => {
                proof {
                    table.lemma_contents_fit(name@);
                }
                Some(Self::new(content_type, content.clone()))
            },
            None => None,
        }
    }

    /// Answers a request whose `If-None-Match` value is `if_none_match`.
    pub fn call(&self, if_none_match: Option<&[u8]>) -> (r: Response)
        ensures
            r@ == handler_response(self@, opt_view(if_none_match)),
    {
        let fresh = match if_none_match {
            Some(v) => bytes_eq(v, self.etag.as_slice()),
            None => false,
        };
        if fresh {
            let headers = vec![Header { name: HeaderName::ETag, value: self.etag.clone() }];
            let r = Response { status: STATUS_NOT_MODIFIED, headers, body: Vec::new() };
            assert(r@.headers =~= seq![(HeaderName::ETag, self.etag@)]);
            r
        } else {
            let headers = vec![
                Header { name: HeaderName::ContentType, value: self.content_type.clone() },
                Header { name: HeaderName::ETag, value: self.etag.clone() },
            ];
            let r = Response { status: STATUS_OK, headers, body: self.content.clone() };
            assert(r@.headers =~= seq![
                (HeaderName::ContentType, self.content_type@),
                (HeaderName::ETag, self.etag@),
            ]);
            r
        }
    }

    /// The content type as bytes.
    pub fn content_type(&self) -> (r: &[u8])
        ensures
            r@ == self@.content_type,
    {
        self.content_type.as_slice()
    }

    /// The fingerprint, sent as the `ETag` value.
    pub fn etag(&self) -> (r: &[u8])
        ensures
            r@ == self@.etag,
    {
        self.etag.as_slice()
    }

    /// The asset's bytes.
    pub fn content(&self) -> (r: &[u8])
        ensures
            r@ == self@.content,
    {
        self.content.as_slice()
    }
}

} // verus!
