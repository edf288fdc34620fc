//! A stand-in router that answers every request with a greeting.

use vstd::prelude::*;
use vstd::string::*;
use crate::util::QResult;
use crate::{pairs_view, HttpRequest, HttpResponse, HttpResponseView};

verus! {

/// The greeting, and the header that asks the gateway for a client
/// certificate.
pub open spec fn greeting() -> HttpResponseView {
    HttpResponseView {
        code: 200,
        headers: seq![("X-Require-Certificate"@, "1"@)],
        body: "Hello from Rust, via DCGI!"@,
    }
}

/// Answers any request with the greeting.
pub fn route_and_handle(_request: HttpRequest) -> (r: QResult<HttpResponse>)
    ensures
        r is Ok,
        r.unwrap()@ == greeting(),
{
    let headers = vec![(String::from_str("X-Require-Certificate"), String::from_str("1"))];
    assert(pairs_view(headers@) =~= greeting().headers);
    Ok(HttpResponse::new(headers, String::from_str("Hello from Rust, via DCGI!")))
}

} // verus!
