use asset_server::assets::{AssetEntry, AssetTable};
use asset_server::fingerprint::fingerprint;
use asset_server::handler::StaticHandler;
use asset_server::http::{HeaderName, Response};

fn header(r: &Response, name: HeaderName) -> Option<Vec<u8>> {
    r.headers.iter().find(|h| h.name == name).map(|h| h.value.clone())
}

fn stylesheet() -> StaticHandler {
    StaticHandler::new("text/css; charset=utf-8", b"body { color: red; }".to_vec())
}

#[test]
fn new_computes_fingerprint() {
    let h = stylesheet();
    assert_eq!(h.content_type(), b"text/css; charset=utf-8");
    assert_eq!(h.content(), b"body { color: red; }");
    assert_eq!(h.etag(), b"l-uzDnHugp2SUaml6WW02-hIW7aYovxnJWmjUVjrVj4");
}

#[test]
fn no_if_none_match_gives_full_response() {
    let h = stylesheet();
    let r = h.call(None);
    assert_eq!(r.status, 200);
    assert_eq!(r.body, b"body { color: red; }".to_vec());
    assert_eq!(r.headers.len(), 2);
    assert_eq!(header(&r, HeaderName::ContentType), Some(b"text/css; charset=utf-8".to_vec()));
    assert_eq!(header(&r, HeaderName::ETag), Some(h.etag().to_vec()));
}

#[test]
fn matching_if_none_match_gives_not_modified() {
    let h = stylesheet();
    let tag = h.etag().to_vec();
    let r = h.call(Some(&tag));
    assert_eq!(r.status, 304);
    assert!(r.body.is_empty());
    assert_eq!(r.headers.len(), 1);
    assert_eq!(header(&r, HeaderName::ETag), Some(tag));
}

#[test]
fn stale_if_none_match_gives_full_response() {
    let h = stylesheet();
    let r = h.call(Some(b"\"stale\""));
    assert_eq!(r.status, 200);
    assert_eq!(r.body, b"body { color: red; }".to_vec());
    assert_eq!(header(&r, HeaderName::ETag), Some(h.etag().to_vec()));
}

#[test]
fn empty_if_none_match_gives_full_response() {
    let h = stylesheet();
    let r = h.call(Some(b""));
    assert_eq!(r.status, 200);
    assert_eq!(r.body, b"body { color: red; }".to_vec());
}

#[test]
fn quoted_fingerprint_does_not_match() {
    let h = stylesheet();
    let mut quoted = b"\"".to_vec();
    quoted.extend_from_slice(h.etag());
    quoted.push(b'"');
    assert_eq!(h.call(Some(&quoted)).status, 200);
}

#[test]
fn from_asset_finds_asset() {
    let table = AssetTable::from_entries(&vec![AssetEntry {
        name: b"static/favicon.ico".to_vec(),
        content: vec![0, 0, 1, 0],
    }])
    .unwrap();
    let h = StaticHandler::from_asset(&table, "image/x-icon", "static/favicon.ico").unwrap();
    assert_eq!(h.content(), &[0, 0, 1, 0]);
    assert_eq!(h.etag(), fingerprint(&[0, 0, 1, 0]).as_slice());
    assert_eq!(h.content_type(), b"image/x-icon");
}

#[test]
fn from_asset_missing_asset() {
    let table = AssetTable::new();
    assert!(StaticHandler::from_asset(&table, "image/x-icon", "static/favicon.ico").is_none());
}
