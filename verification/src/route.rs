//! The routing decision: one recognised route, everything else refused.

use vstd::prelude::*;
use vstd::utf8::{encode_utf8, encode_utf8_decode_utf8};
use vstd::string::StringSliceAdditionalSpecFns;
use crate::request::Method;

verus! {

/// Outcome of inspecting method and path.
#[derive(Debug, Clone, Copy, PartialEq, Eq, Structural)]
pub enum Route {
    /// `POST` to the one recognised path.
    Matched,
    /// Any other combination of method and path.
    Unmatched,
    /// The request carries no path.
    Malformed,
}

/// The one recognised path, as text.
pub open spec fn route_path() -> Seq<char> {
    "/openai-proxy"@
}

/// The one recognised path.
pub fn route_path_text() -> (path: &'static str)
    ensures
        path@ == route_path(),
{
    "/openai-proxy"
}

/// The route of a method and a path: matched exactly when the method is
/// `POST` and the path, query string included, is the recognised one letter
/// for letter.
pub open spec fn route_of(method: Method, path: Option<Seq<char>>) -> Route {
    match path {
        None => Route::Malformed,
        Some(text) => if method is Post && text == route_path() {
            Route::Matched
        } else {
            Route::Unmatched
        },
    }
}

/// The text of an optional path.
pub open spec fn path_text(path: Option<&str>) -> Option<Seq<char>> {
    match path {
        None => None,
        Some(text) => Some(text@),
    }
}

/// Whether two strings hold the same text, compared byte by byte.
fn same_text(a: &str, b: &str) -> (same: bool)
    ensures
        same == (a@ == b@),
{
    let x = a.as_bytes();
    let y = b.as_bytes();
    proof {
        encode_utf8_decode_utf8(a@);
        encode_utf8_decode_utf8(b@);
    }
    if x.len() != y.len() {
        return false;
    }
    let mut i: usize = 0;
    while i < x.len()
        invariant
            i <= x@.len(),
            x@.len() == y@.len(),
            x@ == encode_utf8(a@),
            y@ == encode_utf8(b@),
            forall|j: int| 0 <= j < i ==> x@[j] == y@[j],
        decreases x@.len() - i,
    {
        if x[i] != y[i] {
            return false;
        }
        i += 1;
    }
    assert(x@ =~= y@);
    true
}

/// Decides the route of a request from its method and path.
pub fn route(method: &Method, path: Option<&str>) -> (decision: Route)
    ensures
        decision == route_of(*method, path_text(path)),
{
    match path {
        None => Route::Malformed,
        Some(text) => {
            let on_path = same_text(text, route_path_text());
            match method {
                Method::Post => if on_path {
                    Route::Matched
                } else {
                    Route::Unmatched
                },
                _ => Route::Unmatched,
            }
        },
    }
}

} // verus!
