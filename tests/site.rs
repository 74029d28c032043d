use asset_server::assets::{AssetEntry, AssetTable};
use asset_server::fingerprint::fingerprint;
use asset_server::http::{HeaderName, Response};
use asset_server::middleware::{finish, secure, timeout_response, REQUEST_TIMEOUT_SECS};
use asset_server::router::Site;

const SECURITY: [(HeaderName, &[u8]); 6] = [
    (HeaderName::StrictTransportSecurity, b"max-age=31536000; includeSubDomains; preload"),
    (HeaderName::ReferrerPolicy, b"no-referrer"),
    (
        HeaderName::ContentSecurityPolicy,
        b"default-src 'self'; style-src 'self' https://fonts.googleapis.com; font-src https://fonts.gstatic.com",
    ),
    (HeaderName::XFrameOptions, b"DENY"),
    (HeaderName::XXssProtection, b"1; mode=block"),
    (HeaderName::XContentTypeOptions, b"nosniff"),
];

fn values(r: &Response, name: HeaderName) -> Vec<Vec<u8>> {
    r.headers.iter().filter(|h| h.name == name).map(|h| h.value.clone()).collect()
}

fn assert_secured(r: &Response) {
    for (name, value) in SECURITY {
        assert_eq!(values(r, name), vec![value.to_vec()], "header {:?}", name);
    }
}

fn entries() -> Vec<AssetEntry> {
    vec![
        AssetEntry { name: b"pages/index.html".to_vec(), content: b"<h1>hi</h1>".to_vec() },
        AssetEntry { name: b"static/style.css".to_vec(), content: b"body { color: red; }".to_vec() },
        AssetEntry { name: b"static/favicon.ico".to_vec(), content: vec![0, 0, 1, 0, 1, 0] },
        AssetEntry { name: b"static/resume.pdf".to_vec(), content: b"%PDF-1.4".to_vec() },
    ]
}

fn site() -> Site {
    let table = AssetTable::from_entries(&entries()).unwrap();
    Site::new(&table).ok().unwrap()
}

#[test]
fn each_route_serves_its_asset() {
    let site = site();
    let cases: [(&[u8], &[u8], &[u8]); 4] = [
        (b"/", b"text/html; charset=utf-8", b"<h1>hi</h1>"),
        (b"/style.css", b"text/css; charset=utf-8", b"body { color: red; }"),
        (b"/favicon.ico", b"image/x-icon", &[0, 0, 1, 0, 1, 0]),
        (b"/resume.pdf", b"application/pdf", b"%PDF-1.4"),
    ];
    for (path, content_type, body) in cases {
        let r = site.respond(b"GET", path, None);
        assert_eq!(r.status, 200);
        assert_eq!(r.body, body.to_vec());
        assert_eq!(values(&r, HeaderName::ContentType), vec![content_type.to_vec()]);
        assert_eq!(values(&r, HeaderName::ETag), vec![fingerprint(body)]);
        assert_eq!(r.headers.len(), 8);
        assert_secured(&r);
    }
}

#[test]
fn stylesheet_scenario() {
    let site = site();
    let tag = fingerprint(b"body { color: red; }");

    let first = site.respond(b"GET", b"/style.css", None);
    assert_eq!(first.status, 200);
    assert_eq!(first.body, b"body { color: red; }".to_vec());
    assert_eq!(values(&first, HeaderName::ETag), vec![tag.clone()]);

    let second = site.respond(b"GET", b"/style.css", Some(&tag));
    assert_eq!(second.status, 304);
    assert!(second.body.is_empty());
    assert_eq!(values(&second, HeaderName::ETag), vec![tag.clone()]);
    assert!(values(&second, HeaderName::ContentType).is_empty());
    assert_eq!(second.headers.len(), 7);
    assert_secured(&second);

    let third = site.respond(b"GET", b"/style.css", Some(b"\"stale\""));
    assert_eq!(third.status, 200);
    assert_eq!(third.body, b"body { color: red; }".to_vec());
    assert_eq!(values(&third, HeaderName::ETag), vec![tag]);
}

#[test]
fn matching_tag_on_every_route_is_not_modified() {
    let site = site();
    for e in entries() {
        let path: &[u8] = match e.name.as_slice() {
            b"pages/index.html" => b"/",
            b"static/style.css" => b"/style.css",
            b"static/favicon.ico" => b"/favicon.ico",
            _ => b"/resume.pdf",
        };
        let tag = fingerprint(&e.content);
        let r = site.respond(b"GET", path, Some(&tag));
        assert_eq!(r.status, 304);
        assert!(r.body.is_empty());
        assert_eq!(values(&r, HeaderName::ETag), vec![tag]);
    }
}

#[test]
fn tag_of_another_asset_is_not_a_match() {
    let site = site();
    let other = fingerprint(b"<h1>hi</h1>");
    let r = site.respond(b"GET", b"/style.css", Some(&other));
    assert_eq!(r.status, 200);
    assert_eq!(r.body, b"body { color: red; }".to_vec());
}

#[test]
fn empty_tag_gives_full_response() {
    let site = site();
    let r = site.respond(b"GET", b"/resume.pdf", Some(b""));
    assert_eq!(r.status, 200);
    assert_eq!(r.body, b"%PDF-1.4".to_vec());
}

#[test]
fn unknown_path_is_not_found() {
    let site = site();
    let tag = fingerprint(b"body { color: red; }");
    for path in [&b"/index.html"[..], b"/style.css/", b"/STYLE.CSS", b"", b"/static/style.css"] {
        for inm in [None, Some(&tag[..]), Some(&b"x"[..])] {
            let r = site.respond(b"GET", path, inm);
            assert_eq!(r.status, 404);
            assert!(r.body.is_empty());
            assert!(values(&r, HeaderName::ETag).is_empty());
            assert!(values(&r, HeaderName::ContentType).is_empty());
            assert_eq!(r.headers.len(), 6);
            assert_secured(&r);
        }
    }
}

#[test]
fn other_methods_are_not_found() {
    let site = site();
    for method in [&b"POST"[..], b"HEAD", b"get", b"DELETE"] {
        let r = site.respond(method, b"/", None);
        assert_eq!(r.status, 404);
        assert!(r.body.is_empty());
        assert_secured(&r);
    }
}

#[test]
fn dispatch_has_no_security_headers() {
    let site = site();
    let r = site.dispatch(b"GET", b"/favicon.ico", None);
    assert_eq!(r.status, 200);
    assert_eq!(r.headers.len(), 2);
}

#[test]
fn missing_asset_fails_startup() {
    let mut es = entries();
    es.remove(2);
    let table = AssetTable::from_entries(&es).unwrap();
    let err = Site::new(&table).err().unwrap();
    assert_eq!(err.asset, b"static/favicon.ico".to_vec());
}

#[test]
fn empty_table_names_first_asset() {
    let table = AssetTable::new();
    let err = Site::new(&table).err().unwrap();
    assert_eq!(err.asset, b"pages/index.html".to_vec());
}

#[test]
fn secure_overrides_existing_headers() {
    let site = site();
    let mut r = site.dispatch(b"GET", b"/", None);
    r.headers.push(asset_server::http::Header {
        name: HeaderName::XFrameOptions,
        value: b"SAMEORIGIN".to_vec(),
    });
    r.headers.push(asset_server::http::Header {
        name: HeaderName::ReferrerPolicy,
        value: b"origin".to_vec(),
    });
    let s = secure(r);
    assert_secured(&s);
    assert_eq!(s.headers.len(), 8);
    assert_eq!(s.headers[0].name, HeaderName::ContentType);
    assert_eq!(s.headers[1].name, HeaderName::ETag);
    assert_eq!(s.body, b"<h1>hi</h1>".to_vec());
}

#[test]
fn timeout_gives_request_timeout() {
    assert_eq!(REQUEST_TIMEOUT_SECS, 10);
    let bare = timeout_response();
    assert_eq!(bare.status, 408);
    assert!(bare.headers.is_empty());
    let r = finish(None);
    assert_eq!(r.status, 408);
    assert!(r.body.is_empty());
    assert_eq!(r.headers.len(), 6);
    assert_secured(&r);
}

#[test]
fn timeout_does_not_affect_later_requests() {
    let site = site();
    let timed_out = finish(None);
    assert_eq!(timed_out.status, 408);
    let r = finish(Some(site.dispatch(b"GET", b"/style.css", None)));
    assert_eq!(r.status, 200);
    assert_eq!(r.body, b"body { color: red; }".to_vec());
    assert_secured(&r);
}
