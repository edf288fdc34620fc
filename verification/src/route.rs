//! Which handler a request goes to, once the filters of its path have let
//! it pass.

use vstd::prelude::*;
use vstd::string::*;
use crate::filter::common::{get_intercept, post_intercept, refusal};
use crate::filter::user::{login_intercept, login_verdict};
use crate::service::user::UserService;
use crate::util::{headers_map, QResult};
use crate::{pairs_view, HttpMethod, HttpRequest, HttpResponse, HttpResponseView};

verus! {

/// A handler that has work to do outside this library.
#[derive(Debug, Clone, Copy, PartialEq, Eq, Structural)]
pub enum Handler {
    /// Log a user in.
    Login,
    /// Hand out the public SSH key of the server.
    SshPublicKey,
}

/// Where a request ends: with a response, or at a handler.
#[derive(Debug)]
pub enum Routed {
    Response(HttpResponse),
    Handler(Handler),
}

/// Where a request ends, with its strings as character sequences.
pub enum RoutedView {
    Response(HttpResponseView),
    Handler(Handler),
}

impl View for Routed {
    type V = RoutedView;

    open spec fn view(&self) -> RoutedView {
        match *self {
            Routed::Response(response) => RoutedView::Response(response@),
            Routed::Handler(handler) => RoutedView::Handler(handler),
        }
    }
}

/// The answer to a request for a path that no handler serves.
pub open spec fn not_found() -> HttpResponseView {
    HttpResponseView { code: 404, headers: Seq::empty(), body: "Not found"@ }
}

/// The handler if no filter objects, else the objection.
pub open spec fn unless(objection: Option<HttpResponseView>, handler: Handler) -> RoutedView {
    match objection {
        Some(response) => RoutedView::Response(response),
        None => RoutedView::Handler(handler),
    }
}

/// Where `request` ends.
///
/// `/api/login` is open to POST requests; `/api/ssh` is open to GET requests
/// from logged-in users, and the method is looked at first; any other path
/// is answered with status 404.
pub open spec fn route(request: HttpRequest, service: UserService) -> RoutedView {
    if request.query_path@ == "/api/login"@ {
        if request.method == HttpMethod::Get {
            RoutedView::Response(refusal("cannot GET "@ + request.query_path@))
        } else {
            RoutedView::Handler(Handler::Login)
        }
    } else if request.query_path@ == "/api/ssh"@ {
        if request.method == HttpMethod::Post {
            RoutedView::Response(refusal("cannot POST "@ + request.query_path@))
        } else {
            unless(login_verdict(headers_map(request.headers@), service), Handler::SshPublicKey)
        }
    } else {
        RoutedView::Response(not_found())
    }
}

/// Runs the filters of the request's path and says where the request ends.
pub fn route_and_handle(request: &HttpRequest, user_service: &UserService) -> (r: QResult<Routed>)
    ensures
        r is Ok,
        r.unwrap()@ == route(*request, *user_service),
{
    if request.query_path == String::from_str("/api/login") {
        if let Some(response) = post_intercept(request)? {
            return Ok(Routed::Response(response));
        }
        Ok(Routed::Handler(Handler::Login))
    } else if request.query_path == String::from_str("/api/ssh") {
        if let Some(response) = get_intercept(request)? {
            return Ok(Routed::Response(response));
        }
        if let Some(response) = login_intercept(request, user_service)? {
            return Ok(Routed::Response(response));
        }
        Ok(Routed::Handler(Handler::SshPublicKey))
    } else {
        let headers: Vec<(String, String)> = Vec::new();
        assert(pairs_view(headers@) =~= not_found().headers);
        Ok(Routed::Response(HttpResponse::with_code(404, headers, String::from_str("Not found"))))
    }
}

} // verus!
