//! The rules of the local preview server: which file answers a request and
//! with what content type, and which requests are refused.

use vstd::prelude::*;
use vstd::string::*;
use crate::text::{
    chars_of, contains, ends_with, find_from, lemma_find_from, occurs_at, spec_contains,
    spec_ends_with, spec_find_from, str_eq, string_from_range, decimal, spec_decimal,
};

verus! {

/// The port the preview server listens on.
pub const SERVER_PORT: u16 = 8080;

/// The directory the preview server serves.
pub const SERVE_ROOT: &'static str = "dist";

/// The page served for the address `/`.
pub const INDEX_PATH: &'static str = "/b50_slides.html";

/// The status and text of the answer to a refused request.
pub const FORBIDDEN_STATUS: u16 = 403;

/// The text of the answer to a refused request.
pub const FORBIDDEN_BODY: &'static str = "Invalid path";

/// The status of the answer where no file answers the request.
pub const NOT_FOUND_STATUS: u16 = 404;

/// The text of the answer where no file answers the request.
pub const NOT_FOUND_BODY: &'static str = "Not Found";

/// How a request is answered.
#[derive(Debug)]
pub enum Route {
    /// The address climbs out of the served directory: refused.
    Forbidden,
    /// The file at `path` answers, of type `content_type` (where it cannot
    /// be opened, the answer is "not found").
    File { path: String, content_type: &'static str },
}

/// The mathematical value of a [`Route`].
pub enum RouteView {
    Forbidden,
    File { path: Seq<char>, content_type: Seq<char> },
}

impl View for Route {
    type V = RouteView;

    open spec fn view(&self) -> RouteView {
        match self {
            Route::Forbidden => RouteView::Forbidden,
            Route::File { path, content_type } => RouteView::File {
                path: path@,
                content_type: content_type@,
            },
        }
    }
}

/// The content type of a file, by the end of its path.
pub open spec fn spec_content_type(path: Seq<char>) -> Seq<char> {
    if spec_ends_with(path, ".html"@) {
        "text/html; charset=UTF-8"@
    } else if spec_ends_with(path, ".jpg"@) || spec_ends_with(path, ".jpeg"@) {
        "image/jpeg"@
    } else if spec_ends_with(path, ".png"@) {
        "image/png"@
    } else if spec_ends_with(path, ".json"@) {
        "application/json"@
    } else if spec_ends_with(path, ".css"@) {
        "text/css"@
    } else if spec_ends_with(path, ".js"@) {
        "application/javascript"@
    } else {
        "application/octet-stream"@
    }
}

/// The part of an address before its query: the text up to the first `?`.
pub open spec fn spec_without_query(p: Seq<char>) -> Seq<char> {
    match spec_find_from(p, "?"@, 0) {
        Some(i) => p.subrange(0, i),
        None => p,
    }
}

/// How the request for address `url` is answered from directory `root`:
/// `/` stands for the page; an address holding `..` is refused; otherwise
/// the file at `root` followed by the address without its query answers.
pub open spec fn spec_route(url: Seq<char>, root: Seq<char>) -> RouteView {
    let p = if url == "/"@ {
        INDEX_PATH@
    } else {
        url
    };
    if spec_contains(p, ".."@) {
        RouteView::Forbidden
    } else {
        let path = root + spec_without_query(p);
        RouteView::File { path, content_type: spec_content_type(path) }
    }
}

/// The content type of a file, by the end of its path.
pub fn content_type(path: &str) -> (res: &'static str)
    ensures
        res@ == spec_content_type(path@),
{
    let p = chars_of(path);
    if ends_with(&p, &chars_of(".html")) {
        "text/html; charset=UTF-8"
    } else if ends_with(&p, &chars_of(".jpg")) || ends_with(&p, &chars_of(".jpeg")) {
        "image/jpeg"
    } else if ends_with(&p, &chars_of(".png")) {
        "image/png"
    } else if ends_with(&p, &chars_of(".json")) {
        "application/json"
    } else if ends_with(&p, &chars_of(".css")) {
        "text/css"
    } else if ends_with(&p, &chars_of(".js")) {
        "application/javascript"
    } else {
        "application/octet-stream"
    }
}

/// How the request for address `url` is answered from directory `root_dir`
/// (see [`spec_route`]).
pub fn route_request(url: &str, root_dir: &str) -> (res: Route)
    ensures
        res@ == spec_route(url@, root_dir@),
{
    let p: &str = if str_eq(url, "/") {
        INDEX_PATH
    } else {
        url
    };
    let pv = chars_of(p);
    if contains(&pv, &chars_of("..")) {
        return Route::Forbidden;
    }
    let q = chars_of("?");
    let end = match find_from(&pv, &q, 0) {
        Some(i) => {
            proof {
                lemma_find_from(pv@, q@, 0);
            }
            i
        },
        None => pv.len(),
    };
    assert(pv@.subrange(0, pv@.len() as int) =~= pv@);
    let clean = string_from_range(&pv, 0, end);
    let mut path = root_dir.to_owned();
    path.append(clean.as_str());
    let content_type = content_type(path.as_str());
    Route::File { path, content_type }
}

/// The address the server binds to for a port: all interfaces.
pub open spec fn spec_bind_address(port: u16) -> Seq<char> {
    "0.0.0.0:"@ + spec_decimal(port as nat)
}

/// The address of the page in a browser for a port.
pub open spec fn spec_local_url(port: u16) -> Seq<char> {
    "http://localhost:"@ + spec_decimal(port as nat)
}

/// The address the server binds to (see [`spec_bind_address`]).
pub fn bind_address(port: u16) -> (res: String)
    ensures
        res@ == spec_bind_address(port),
{
    let mut s = "0.0.0.0:".to_owned();
    let d = decimal(port as u64);
    s.append(d.as_str());
    s
}

/// The address of the page in a browser (see [`spec_local_url`]).
pub fn local_url(port: u16) -> (res: String)
    ensures
        res@ == spec_local_url(port),
{
    let mut s = "http://localhost:".to_owned();
    let d = decimal(port as u64);
    s.append(d.as_str());
    s
}

/// `?` occurs at `j` exactly where the character at `j` is `?`.
proof fn lemma_question_mark_at(p: Seq<char>, j: int)
    ensures
        occurs_at(p, "?"@, j) == (0 <= j < p.len() && p[j] == '?'),
{
    reveal_strlit("?");
    if 0 <= j < p.len() {
        if p[j] == '?' {
            assert(p.subrange(j, j + 1) =~= "?"@);
        } else if occurs_at(p, "?"@, j) {
            assert(p.subrange(j, j + 1)[0] == p[j]);
        }
    }
}

/// How requests are answered: `/` gets the page, an address holding `..`
/// is refused, and any other address gets the file at the directory
/// followed by the address up to its first `?` (all of it where it has
/// none), typed by the end of that path.
pub proof fn lemma_route_answers(url: Seq<char>, root: Seq<char>, q: int)
    requires
        0 <= q <= url.len(),
        q == url.len() || url[q] == '?',
        forall|j: int| 0 <= j < q ==> url[j] != '?',
    ensures
        spec_route("/"@, root) == (RouteView::File {
            path: root + "/b50_slides.html"@,
            content_type: spec_content_type(root + "/b50_slides.html"@),
        }),
        url != "/"@ && spec_contains(url, ".."@) ==> spec_route(url, root) == RouteView::Forbidden,
        url != "/"@ && !spec_contains(url, ".."@) ==> spec_route(url, root) == (RouteView::File {
            path: root + url.subrange(0, q),
            content_type: spec_content_type(root + url.subrange(0, q)),
        }),
{
    reveal_strlit("/b50_slides.html");
    reveal_strlit("..");
    reveal_strlit(".");
    assert(INDEX_PATH@ == "/b50_slides.html"@);
    assert(!spec_contains(INDEX_PATH@, ".."@)) by {
        assert forall|i: int| !occurs_at(INDEX_PATH@, ".."@, i) by {
            if occurs_at(INDEX_PATH@, ".."@, i) {
                assert(INDEX_PATH@.subrange(i, i + 2)[0] == INDEX_PATH@[i]);
                assert(INDEX_PATH@.subrange(i, i + 2)[1] == INDEX_PATH@[i + 1]);
            }
        }
    }
    lemma_find_from(INDEX_PATH@, "?"@, 0);
    if spec_find_from(INDEX_PATH@, "?"@, 0) is Some {
        let j = spec_find_from(INDEX_PATH@, "?"@, 0)->0;
        lemma_question_mark_at(INDEX_PATH@, j);
    }
    lemma_find_from(url, "?"@, 0);
    assert forall|j: int| 0 <= j < q implies !occurs_at(url, "?"@, j) by {
        lemma_question_mark_at(url, j);
    }
    lemma_question_mark_at(url, q);
    if q < url.len() {
        assert(spec_find_from(url, "?"@, 0) == Some(q));
    } else {
        if spec_find_from(url, "?"@, 0) is Some {
            let j = spec_find_from(url, "?"@, 0)->0;
            lemma_question_mark_at(url, j);
        }
        assert(url.subrange(0, q) =~= url);
    }
}

/// A request that is answered with a file never climbs out of the served
/// directory: what follows the directory in the path holds no `..`.
pub proof fn lemma_route_stays_inside(url: Seq<char>, root: Seq<char>)
    ensures
        spec_route(url, root) matches RouteView::File { path, .. } ==> {
            &&& path.subrange(0, root.len() as int) == root
            &&& !spec_contains(path.subrange(root.len() as int, path.len() as int), ".."@)
        },
{
    let p = if url == "/"@ {
        INDEX_PATH@
    } else {
        url
    };
    if !spec_contains(p, ".."@) {
        let clean = spec_without_query(p);
        let path = root + clean;
        lemma_find_from(p, "?"@, 0);
        assert(path.subrange(0, root.len() as int) =~= root);
        assert(path.subrange(root.len() as int, path.len() as int) =~= clean);
        let dd = ".."@;
        assert(clean.len() <= p.len());
        assert forall|i: int| !occurs_at(clean, dd, i) by {
            if occurs_at(clean, dd, i) {
                assert(clean.subrange(i, i + dd.len()) =~= p.subrange(i, i + dd.len()));
                assert(occurs_at(p, dd, i));
            }
        }
    }
}

} // verus!
