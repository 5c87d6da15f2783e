use vstd::prelude::*;
use crate::store::opt_text;

verus! {

/// The request methods the service tells apart.
#[derive(Clone, Copy, Debug, PartialEq, Eq, Structural)]
pub enum Method {
    Get,
    Post,
    Other,
}

/// What an inbound request asks for, decided from its method, path and
/// content type alone.
#[derive(Debug)]
pub enum Route {
    /// `GET /`: the help page.
    Welcome,
    /// `GET /<code>`: resolve a short code.
    Resolve(String),
    /// `POST /` with a url-encoded form body.
    ShortenForm,
    /// `POST /` with a multipart body; holds the boundary.
    ShortenMultipart(String),
    /// Anything else.
    NoRoute,
}

/// The boundary that a `multipart/form-data` content type declares; `None`
/// for any other content type, or one that does not parse.
pub uninterp spec fn multipart_boundary_of(content_type: Seq<char>) -> Option<Seq<char>>;

/// Relies on `multer::parse_boundary`: it yields the `boundary` parameter
/// of a `multipart/form-data` content type and fails on anything else.
#[verifier::external_body]
fn multipart_boundary(content_type: &str) -> (r: Option<String>)
    ensures
        opt_text(r) == multipart_boundary_of(content_type@),
{
    multer::parse_boundary(content_type).ok()
}

/// The path of the service's root.
pub open spec fn is_root(path: Seq<char>) -> bool {
    path == seq!['/']
}

/// The candidate short code in a path: the path without its leading `/`.
pub open spec fn code_in_path(path: Seq<char>) -> Seq<char> {
    if path.len() > 0 && path[0] == '/' {
        path.drop_first()
    } else {
        path
    }
}

/// `r` is the route for a request with this method and path, whose content
/// type declares `boundary` as its multipart boundary (if any).
pub open spec fn routes_to(
    method: Method,
    path: Seq<char>,
    boundary: Option<Seq<char>>,
    r: Route,
) -> bool {
    match method {
        Method::Get => if is_root(path) {
            r is Welcome
        } else {
            r matches Route::Resolve(c) && c@ == code_in_path(path)
        },
        Method::Post => if is_root(path) {
            match boundary {
                Some(b) => r matches Route::ShortenMultipart(x) && x@ == b,
                None => r is ShortenForm,
            }
        } else {
            r is NoRoute
        },
        Method::Other => r is NoRoute,
    }
}

/// The multipart boundary declared by an optional content type.
pub open spec fn boundary_for(content_type: Option<Seq<char>>) -> Option<Seq<char>> {
    match content_type {
        Some(ct) => multipart_boundary_of(ct),
        None => None,
    }
}

/// Whether `path` is exactly `/`.
fn path_is_root(path: &str) -> (r: bool)
    ensures
        r == is_root(path@),
{
    if path.unicode_len() != 1 {
        return false;
    }
    let c = path.get_char(0);
    if c == '/' {
        assert(path@ =~= seq!['/']);
        true
    } else {
        false
    }
}

/// Classifies a request given the multipart boundary found in its content
/// type, if any.
pub fn route_with_boundary(method: Method, path: &str, boundary: Option<String>) -> (r: Route)
    ensures
        routes_to(method, path@, opt_text(boundary), r),
{
    let root = path_is_root(path);
    match method {
        Method::Get => {
            if root {
                Route::Welcome
            } else {
                let n = path.unicode_len();
                if n > 0 && path.get_char(0) == '/' {
                    let code = path.substring_char(1, n);
                    assert(code@ =~= path@.drop_first());
                    Route::Resolve(code.to_owned())
                } else {
                    Route::Resolve(path.to_owned())
                }
            }
        },
        Method::Post => {
            if root {
                match boundary {
                    Some(b) => Route::ShortenMultipart(b),
                    None => Route::ShortenForm,
                }
            } else {
                Route::NoRoute
            }
        },
        Method::Other => Route::NoRoute,
    }
}

/// Classifies a request by method, path and content type. Only `POST /`
/// reads the content type: a multipart boundary selects the multipart
/// handler, anything else the form handler.
pub fn route(method: Method, path: &str, content_type: Option<&str>) -> (r: Route)
    ensures
        routes_to(
            method,
            path@,
            boundary_for(
                match content_type {
                    Some(ct) => Some(ct@),
                    None => None,
                },
            ),
            r,
        ),
{
    let boundary = if method == Method::Post && path_is_root(path) {
        match content_type {
            Some(ct) => multipart_boundary(ct),
            None => None,
        }
    } else {
        None
    };
    route_with_boundary(method, path, boundary)
}

} // verus!
