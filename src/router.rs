//! The router: four fixed paths bound to four assets, and "not found" for
//! anything else.

use vstd::prelude::*;
use vstd::string::{StrSliceExecFns, StringSliceAdditionalSpecFns};
use crate::assets::AssetTable;
use crate::fingerprint::fingerprint_of;
use crate::handler::{full_view, handler_response, not_modified_view, opt_view, HandlerView, StaticHandler};
use crate::http::{
    bytes_eq, HeaderName, HeaderView, Response, ResponseView, STATUS_NOT_FOUND, STATUS_NOT_MODIFIED,
    STATUS_OK,
};
use crate::middleware::{lemma_strip_keeps_plain, secure, secured, security_headers, strip_security};

verus! {

/// A path bound to the handler of one asset.
pub struct Route {
    path: Vec<u8>,
    handler: StaticHandler,
}

/// An asset that the table lacks.
#[derive(Clone, Debug)]
pub struct MissingAsset {
    pub asset: Vec<u8>,
}

/// The server's routes, in order; no two share a path.
pub struct Site {
    routes: Vec<Route>,
}

pub type RouteView = (Seq<u8>, HandlerView);

impl View for Route {
    type V = RouteView;

    closed spec fn view(&self) -> RouteView {
        (self.path@, self.handler@)
    }
}

/// The binding that the router makes of `path` to the asset with these bytes.
pub open spec fn binding(path: &str, content_type: &str, content: Seq<u8>) -> RouteView {
    (
        path.spec_bytes(),
        HandlerView {
            content_type: content_type.spec_bytes(),
            etag: fingerprint_of(content),
            content,
        },
    )
}

/// The four asset names the site serves.
pub open spec fn served_assets() -> Seq<Seq<u8>> {
    seq![
        "pages/index.html".spec_bytes(),
        "static/style.css".spec_bytes(),
        "static/favicon.ico".spec_bytes(),
        "static/resume.pdf".spec_bytes(),
    ]
}

/// The routes made from a table that holds the four assets.
pub open spec fn site_routes(m: Map<Seq<u8>, Seq<u8>>) -> Seq<RouteView> {
    seq![
        binding("/", "text/html; charset=utf-8", m["pages/index.html".spec_bytes()]),
        binding("/style.css", "text/css; charset=utf-8", m["static/style.css".spec_bytes()]),
        binding("/favicon.ico", "image/x-icon", m["static/favicon.ico".spec_bytes()]),
        binding("/resume.pdf", "application/pdf", m["static/resume.pdf".spec_bytes()]),
    ]
}

/// Each handler's fingerprint is that of its content, and no two routes share
/// a path.
pub open spec fn routes_wf(rs: Seq<RouteView>) -> bool {
    &&& forall|i: int| 0 <= i < rs.len() ==> #[trigger] rs[i].1.etag == fingerprint_of(rs[i].1.content)
        && rs[i].1.etag.len() == 43
    &&& forall|i: int, j: int| 0 <= i < j < rs.len() ==> rs[i].0 != rs[j].0
}

/// The handler bound to `path`, if any.
pub open spec fn route_for(rs: Seq<RouteView>, path: Seq<u8>) -> Option<HandlerView>
    decreases rs.len(),
{
    if rs.len() == 0 {
        None
    } else if rs[0].0 == path {
        Some(rs[0].1)
    } else {
        route_for(rs.subrange(1, rs.len() as int), path)
    }
}

/// "Not found": no headers, no body.
pub open spec fn not_found_view() -> ResponseView {
    ResponseView { status: STATUS_NOT_FOUND, headers: Seq::empty(), body: Seq::empty() }
}

/// What the router answers, before the middleware: a GET on a bound path goes
/// to its handler; anything else is not found.
pub open spec fn dispatched(
    rs: Seq<RouteView>,
    method: Seq<u8>,
    path: Seq<u8>,
    if_none_match: Option<Seq<u8>>,
) -> ResponseView {
    if method == "GET".spec_bytes() {
        match route_for(rs, path) {
            Some(h) => handler_response(h, if_none_match),
            None => not_found_view(),
        }
    } else {
        not_found_view()
    }
}

/// The handler for `path` is the one of the route with that path.
pub proof fn lemma_route_for_index(rs: Seq<RouteView>, path: Seq<u8>, i: int)
    requires
        routes_wf(rs),
        0 <= i < rs.len(),
        rs[i].0 == path,
    ensures
        route_for(rs, path) == Some(rs[i].1),
    decreases rs.len(),
{
    if i > 0 {
        let rest = rs.subrange(1, rs.len() as int);
        assert(rest[i - 1] == rs[i]);
        assert(rs[0].0 != rs[i].0);
        assert forall|a: int| 0 <= a < rest.len() implies #[trigger] rest[a].1.etag
            == fingerprint_of(rest[a].1.content) && rest[a].1.etag.len() == 43 by {
            assert(rest[a] == rs[a + 1]);
        }
        assert forall|a: int, b: int| 0 <= a < b < rest.len() implies rest[a].0 != rest[b].0 by {
            assert(rest[a] == rs[a + 1] && rest[b] == rs[b + 1]);
        }
        lemma_route_for_index(rest, path, i - 1);
    }
}

/// A path that no route has is bound to nothing.
pub proof fn lemma_route_for_none(rs: Seq<RouteView>, path: Seq<u8>)
    requires
        forall|i: int| 0 <= i < rs.len() ==> #[trigger] rs[i].0 != path,
    ensures
        route_for(rs, path) is None,
    decreases rs.len(),
{
    if rs.len() > 0 {
        let rest = rs.subrange(1, rs.len() as int);
        assert forall|i: int| 0 <= i < rest.len() implies #[trigger] rest[i].0 != path by {
            assert(rest[i] == rs[i + 1]);
        }
        lemma_route_for_none(rest, path);
    }
}

/// A GET of a bound path whose `If-None-Match` is the current fingerprint is
/// answered "not modified", with the `ETag` as its only header besides the
/// security headers, and no body.
pub proof fn lemma_matching_tag_not_modified(rs: Seq<RouteView>, i: int, tag: Seq<u8>)
    requires
        routes_wf(rs),
        0 <= i < rs.len(),
        tag == rs[i].1.etag,
    ensures
        dispatched(rs, "GET".spec_bytes(), rs[i].0, Some(tag)) == not_modified_view(tag),
        secured(dispatched(rs, "GET".spec_bytes(), rs[i].0, Some(tag))).status
            == STATUS_NOT_MODIFIED,
        secured(dispatched(rs, "GET".spec_bytes(), rs[i].0, Some(tag))).headers == seq![
            (HeaderName::ETag, tag),
        ] + security_headers(),
        secured(dispatched(rs, "GET".spec_bytes(), rs[i].0, Some(tag))).body.len() == 0,
{
    lemma_route_for_index(rs, rs[i].0, i);
    lemma_strip_keeps_plain(seq![(HeaderName::ETag, tag)]);
}

/// A GET of a bound path without `If-None-Match`, or with any value other
/// than the current fingerprint (never empty, so an empty value is one), is answered in full:
/// status 200, the stored content type, the fingerprint as `ETag`, and the
/// stored bytes.
pub proof fn lemma_other_tag_full(rs: Seq<RouteView>, i: int, if_none_match: Option<Seq<u8>>)
    requires
        routes_wf(rs),
        0 <= i < rs.len(),
        if_none_match != Some(rs[i].1.etag),
    ensures
        dispatched(rs, "GET".spec_bytes(), rs[i].0, if_none_match) == full_view(rs[i].1),
        secured(dispatched(rs, "GET".spec_bytes(), rs[i].0, if_none_match)).status == STATUS_OK,
        secured(dispatched(rs, "GET".spec_bytes(), rs[i].0, if_none_match)).headers == seq![
            (HeaderName::ContentType, rs[i].1.content_type),
            (HeaderName::ETag, rs[i].1.etag),
        ] + security_headers(),
        secured(dispatched(rs, "GET".spec_bytes(), rs[i].0, if_none_match)).body
            == rs[i].1.content,
        rs[i].1.etag == fingerprint_of(rs[i].1.content),
        Some(Seq::<u8>::empty()) != Some(rs[i].1.etag),
{
    lemma_route_for_index(rs, rs[i].0, i);
    let hs = seq![(HeaderName::ContentType, rs[i].1.content_type), (HeaderName::ETag, rs[i].1.etag)];
    lemma_strip_keeps_plain(hs);
}

/// A path that no route has is answered "not found", whatever the method and
/// the headers.
pub proof fn lemma_unknown_path_not_found(
    rs: Seq<RouteView>,
    method: Seq<u8>,
    path: Seq<u8>,
    if_none_match: Option<Seq<u8>>,
)
    requires
        forall|i: int| 0 <= i < rs.len() ==> #[trigger] rs[i].0 != path,
    ensures
        dispatched(rs, method, path, if_none_match) == not_found_view(),
        secured(dispatched(rs, method, path, if_none_match)).status == STATUS_NOT_FOUND,
        secured(dispatched(rs, method, path, if_none_match)).headers == security_headers(),
        secured(dispatched(rs, method, path, if_none_match)).body.len() == 0,
{
    lemma_route_for_none(rs, path);
    assert(strip_security(Seq::<HeaderView>::empty()) =~= Seq::<HeaderView>::empty());
    assert(Seq::<HeaderView>::empty() + security_headers() =~= security_headers());
}

fn bind(table: &AssetTable, path: &str, content_type: &str, asset: &str) -> (r: Result<
    Route,
    MissingAsset,
>)
    requires
        table.wf(),
    ensures
        r is Ok <==> table.view().contains_key(asset.spec_bytes()),
        r matches Ok(route) ==> route@ == binding(path, content_type, table.view()[asset.spec_bytes()])
            && route@.1.etag.len() == 43,
        r matches Err(e) ==> e.asset@ == asset.spec_bytes(),
{
    match StaticHandler::from_asset(table, content_type, asset) {
        Some(handler) => Ok(Route { path: path.as_bytes_vec(), handler }),
        None => Err(MissingAsset { asset: asset.as_bytes_vec() }),
    }
}

proof fn lemma_paths_distinct()
    ensures
        "/".spec_bytes() != "/style.css".spec_bytes(),
        "/".spec_bytes() != "/favicon.ico".spec_bytes(),
        "/".spec_bytes() != "/resume.pdf".spec_bytes(),
        "/style.css".spec_bytes() != "/favicon.ico".spec_bytes(),
        "/style.css".spec_bytes() != "/resume.pdf".spec_bytes(),
        "/favicon.ico".spec_bytes() != "/resume.pdf".spec_bytes(),
{
    broadcast use vstd::string::is_ascii_spec_bytes;
    reveal_strlit("/");
    reveal_strlit("/style.css");
    reveal_strlit("/favicon.ico");
    reveal_strlit("/resume.pdf");
    assert(vstd::string::is_ascii("/"));
    assert(vstd::string::is_ascii("/style.css"));
    assert(vstd::string::is_ascii("/favicon.ico"));
    assert(vstd::string::is_ascii("/resume.pdf"));
    assert("/".spec_bytes().len() == 1);
    assert("/style.css".spec_bytes().len() == 10);
    assert("/favicon.ico".spec_bytes().len() == 12);
    assert("/resume.pdf".spec_bytes().len() == 11);
}

impl Site {
    /// The routes in order.
    pub closed spec fn view(&self) -> Seq<RouteView> {
        self.routes@.map_values(|r: Route| r@)
    }

    pub open spec fn wf(&self) -> bool {
        routes_wf(self.view())
    }

    /// Binds `/`, `/style.css`, `/favicon.ico` and `/resume.pdf` to their
    /// assets in `table`; fails, naming an asset, where the table lacks one.
    pub fn new(table: &AssetTable) -> (r: Result<Site, MissingAsset>)
        requires
            table.wf(),
        ensures
            r is Ok <==> forall|i: int| 0 <= i < 4 ==> table.view().contains_key(
                #[trigger] served_assets()[i],
            ),
            r matches Ok(site) ==> site.wf() && site.view() == site_routes(table.view()),
            r matches Err(e) ==> !table.view().contains_key(e.asset@) && served_assets().contains(
                e.asset@,
            ),
    {
        let ghost m = table.view();
        proof {
            assert(served_assets()[0] == "pages/index.html".spec_bytes());
            assert(served_assets()[1] == "static/style.css".spec_bytes());
            assert(served_assets()[2] == "static/favicon.ico".spec_bytes());
            assert(served_assets()[3] == "static/resume.pdf".spec_bytes());
        }
        let index = match bind(table, "/", "text/html; charset=utf-8", "pages/index.html") {
            Ok(route) => route,
            Err(e) => {
                assert(served_assets()[0] == e.asset@);
                return Err(e);
            },
        };
        let style = match bind(table, "/style.css", "text/css; charset=utf-8", "static/style.css") {
            Ok(route) => route,
            Err(e) => {
                assert(served_assets()[1] == e.asset@);
                return Err(e);
            },
        };
        let icon = match bind(table, "/favicon.ico", "image/x-icon", "static/favicon.ico") {
            Ok(route) => route,
            Err(e) => {
                assert(served_assets()[2] == e.asset@);
                return Err(e);
            },
        };
        let resume = match bind(table, "/resume.pdf", "application/pdf", "static/resume.pdf") {
            Ok(route) => route,
            Err(e) => {
                assert(served_assets()[3] == e.asset@);
                return Err(e);
            },
        };
        let site = Site { routes: vec![index, style, icon, resume] };
        proof {
            assert(site.view() =~= site_routes(m));
            lemma_paths_distinct();
            assert forall|i: int| 0 <= i < 4 implies m.contains_key(#[trigger] served_assets()[i]) by {
            }
        }
        Ok(site)
    }

    /// Answers a request before the middleware: the handler of a GET on a
    /// bound path, else "not found".
    pub fn dispatch(&self, method: &[u8], path: &[u8], if_none_match: Option<&[u8]>) -> (r: Response)
        ensures
            r@ == dispatched(self.view(), method@, path@, opt_view(if_none_match)),
    {
        let get = "GET".as_bytes_vec();
        if bytes_eq(method, get.as_slice()) {
            let ghost rs = self.view();
            let mut i: usize = 0;
            assert(rs.subrange(0, rs.len() as int) =~= rs);
            while i < self.routes.len()
                invariant
                    i <= self.routes@.len(),
                    rs == self.view(),
                    method@ == "GET".spec_bytes(),
                    rs.len() == self.routes@.len(),
                    route_for(rs, path@) == route_for(rs.subrange(i as int, rs.len() as int), path@),
                decreases self.routes@.len() - i,
            {
                let route = &self.routes[i];
                let ghost tail = rs.subrange(i as int, rs.len() as int);
                assert(tail[0] == route@);
                if bytes_eq(route.path.as_slice(), path) {
                    assert(route_for(tail, path@) == Some(route.handler@));
                    return route.handler.call(if_none_match);
                }
                assert(tail.subrange(1, tail.len() as int) =~= rs.subrange(i + 1, rs.len() as int));
                i = i + 1;
            }
        }
        let r = Response { status: STATUS_NOT_FOUND, headers: Vec::new(), body: Vec::new() };
        assert(r@.headers =~= Seq::<HeaderView>::empty());
        r
    }

    /// Answers a request as it is sent: the dispatched response with the
    /// security headers.
    pub fn respond(&self, method: &[u8], path: &[u8], if_none_match: Option<&[u8]>) -> (r: Response)
        ensures
            r@ == secured(dispatched(self.view(), method@, path@, opt_view(if_none_match))),
    {
        secure(self.dispatch(method, path, if_none_match))
    }
}

} // verus!
