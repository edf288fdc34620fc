//! The filter that lets only logged-in users pass.

use vstd::prelude::*;
use vstd::string::*;
use crate::service::user::UserService;
use crate::util::{content_type_text, headers_map, to_headers_map, QResult};
use crate::{pair_view, response_view, HttpRequest, HttpResponse, HttpResponseView};

verus! {

/// The refusal of a request that does not come from a logged-in user:
/// status 401, plain text, and `message` as the body.
pub open spec fn unauthorized(message: Seq<char>) -> HttpResponseView {
    HttpResponseView {
        code: 401,
        headers: seq![("Content-Type"@, "text/plain; charset=utf-8"@)],
        body: message,
    }
}

/// What the login filter answers to a request with the given header table:
/// nothing where the headers name a user and the token that this user is
/// logged in with.
pub open spec fn login_verdict(headers: Map<Seq<char>, String>, service: UserService) -> Option<
    HttpResponseView,
> {
    if !headers.contains_key("x-fe-user-id"@) || !headers.contains_key("x-fe-access-token"@) {
        Some(unauthorized("请先登录"@))
    } else if service.logged_in_with(headers["x-fe-user-id"@]@, headers["x-fe-access-token"@]@) {
        None
    } else {
        Some(unauthorized("登录信息已过期"@))
    }
}

fn refuse(message: &str) -> (response: HttpResponse)
    ensures
        response@ == unauthorized(message@),
{
    let headers = vec![content_type_text()];
    assert(headers@.map_values(|pair: (String, String)| pair_view(pair)) =~= unauthorized(
        message@,
    ).headers);
    HttpResponse::with_code(401, headers, message.to_owned())
}

/// Lets a request pass if its headers carry the name of a user and the
/// access token that this user is logged in with.
pub fn login_intercept(http_request: &HttpRequest, user_service: &UserService) -> (r: QResult<
    Option<HttpResponse>,
>)
    ensures
        r is Ok,
        response_view(r.unwrap()) == login_verdict(
            headers_map(http_request.headers@),
            *user_service,
        ),
{
    let headers_map = to_headers_map(&http_request.headers);
    let user_id = headers_map.get("x-fe-user-id");
    let access_token = headers_map.get("x-fe-access-token");
    match (user_id, access_token) {
        (Some(user_id), Some(access_token)) => {
            if user_service.check_user_login(user_id.clone(), access_token.clone()) {
                Ok(None)
            } else {
                Ok(Some(refuse("登录信息已过期")))
            }
        },
        _ => Ok(Some(refuse("请先登录"))),
    }
}

} // verus!
