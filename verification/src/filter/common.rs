//! Filters on the request method.

use vstd::prelude::*;
use vstd::string::*;
use crate::util::{content_type_text, QResult};
use crate::{pair_view, response_view, HttpMethod, HttpRequest, HttpResponse, HttpResponseView};

verus! {

/// The refusal of a request made with the wrong method: status 403, plain
/// text, and `message` as the body.
pub open spec fn refusal(message: Seq<char>) -> HttpResponseView {
    HttpResponseView {
        code: 403,
        headers: seq![("Content-Type"@, "text/plain; charset=utf-8"@)],
        body: message,
    }
}

/// Lets everything but a POST pass.
pub fn get_intercept(http_request: &HttpRequest) -> (r: QResult<Option<HttpResponse>>)
    ensures
        r is Ok,
        response_view(r.unwrap()) == if http_request.method == HttpMethod::Post {
            Some(refusal("cannot POST "@ + http_request.query_path@))
        } else {
            None
        },
{
    if http_request.method == HttpMethod::Post {
        let body = String::from_str("cannot POST ").concat(http_request.query_path.as_str());
        let headers = vec![content_type_text()];
        assert(headers@.map_values(|pair: (String, String)| pair_view(pair)) =~= refusal(
            body@,
        ).headers);
        Ok(Some(HttpResponse::with_code(403, headers, body)))
    } else {
        Ok(None)
    }
}

/// Lets everything but a GET pass.
pub fn post_intercept(http_request: &HttpRequest) -> (r: QResult<Option<HttpResponse>>)
    ensures
        r is Ok,
        response_view(r.unwrap()) == if http_request.method == HttpMethod::Get {
            Some(refusal("cannot GET "@ + http_request.query_path@))
        } else {
            None
        },
{
    if http_request.method == HttpMethod::Get {
        let body = String::from_str("cannot GET ").concat(http_request.query_path.as_str());
        let headers = vec![content_type_text()];
        assert(headers@.map_values(|pair: (String, String)| pair_view(pair)) =~= refusal(
            body@,
        ).headers);
        Ok(Some(HttpResponse::with_code(403, headers, body)))
    } else {
        Ok(None)
    }
}

} // verus!
