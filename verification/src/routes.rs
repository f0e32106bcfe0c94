//! The API's route table, as reported by the route-listing endpoint.

use vstd::prelude::*;
use vstd::string::StringExecFns;

verus! {

/// One route of the HTTP API.
pub struct ApiRoute {
    /// The route's method.
    pub method: &'static str,
    /// The route's full URL.
    pub url: String,
    /// What the route serves.
    pub description: Option<&'static str>,
}

/// A full URL under the given scheme and host.
pub open spec fn spec_route_url(scheme: Seq<char>, host: Seq<char>, path: Seq<char>) -> Seq<char> {
    scheme + "://"@ + host + path
}

/// Builds a full URL under the given scheme and host.
fn route_url(scheme: &str, host: &str, path: &str) -> (r: String)
    ensures
        r@ == spec_route_url(scheme@, host@, path@),
{
    let mut s = String::from_str(scheme);
    s.append("://");
    s.append(host);
    s.append(path);
    s
}

/// The routes the API serves, addressed under the caller's scheme and
/// host: the health check and the root route listing.
pub fn api_route_list(scheme: &str, host: &str) -> (r: Vec<ApiRoute>)
    ensures
        r@.len() == 2,
        r@[0].method@ == "GET"@,
        r@[0].url@ == spec_route_url(scheme@, host@, "/health_check"@),
        r@[0].description == Some("Health check endpoint"),
        r@[1].method@ == "GET"@,
        r@[1].url@ == spec_route_url(scheme@, host@, "/"@),
        r@[1].description == Some("API root"),
{
    let mut routes: Vec<ApiRoute> = Vec::new();
    routes.push(
        ApiRoute {
            method: "GET",
            url: route_url(scheme, host, "/health_check"),
            description: Some("Health check endpoint"),
        },
    );
    routes.push(
        ApiRoute {
            method: "GET",
            url: route_url(scheme, host, "/"),
            description: Some("API root"),
        },
    );
    routes
}

} // verus!
