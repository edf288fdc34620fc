//! The login handler.

use vstd::prelude::*;
use vstd::string::*;
use crate::service::user::UserService;
use crate::util::{is_uuid_text, uuid, ResponseData, ResponseNoData, ResponseUtil};
use crate::{HttpMethod, HttpRequest, HttpResponse, HttpResponseView, response_view};

verus! {

/// The body of a login request.
#[derive(Debug, Clone, PartialEq, Eq)]
pub struct LoginRequest {
    pub user_name: String,
    pub password: String,
}

/// The data of a successful login.
#[derive(Debug, Clone, PartialEq, Eq)]
pub struct LoginResponse {
    pub user_id: String,
    pub access_token: String,
}

/// The reply to a login request.
#[derive(Debug, Clone, PartialEq, Eq)]
pub enum LoginReply {
    Granted(ResponseData<LoginResponse>),
    Denied(ResponseNoData),
}

/// The login names a registered user and gives that user's password.
pub open spec fn credentials_match(service: UserService, login: LoginRequest) -> bool {
    &&& service.registered().contains_key(login.user_name@)
    &&& service.registered()[login.user_name@].password@ == login.password@
}

/// The refusal of a login attempt made with GET.
pub open spec fn login_refusal() -> HttpResponseView {
    HttpResponseView { code: 403, headers: Seq::empty(), body: "cannot GET /api/login"@ }
}

/// What the login handler answers before it looks at the body: a refusal
/// where the request was made with GET.
pub fn login_method_check(http_request: &HttpRequest) -> (r: Option<HttpResponse>)
    ensures
        response_view(r) == if http_request.method == HttpMethod::Get {
            Some(login_refusal())
        } else {
            None
        },
{
    if http_request.method == HttpMethod::Get {
        let headers: Vec<(String, String)> = Vec::new();
        assert(crate::pairs_view(headers@) =~= login_refusal().headers);
        Some(HttpResponse::with_code(403, headers, String::from_str("cannot GET /api/login")))
    } else {
        None
    }
}

/// Logs a user in.
///
/// Where the login names a registered user and gives that user's password,
/// the user is logged in with a fresh access token, and the reply carries
/// the user's name and the token. Otherwise nothing changes and the reply
/// says that name or password is wrong, without saying which.
pub fn user_login(login_request: LoginRequest, user_service: &mut UserService) -> (reply:
    LoginReply)
    ensures
        final(user_service).registered() == old(user_service).registered(),
        match reply {
            LoginReply::Granted(data) => {
                &&& credentials_match(*old(user_service), login_request)
                &&& data.success
                &&& data.result.user_id@ == old(user_service).registered()[login_request
                    .user_name@].name@
                &&& is_uuid_text(data.result.access_token@)
                &&& final(user_service).logins() == old(user_service).logins().insert(
                    login_request.user_name@,
                    data.result.access_token,
                )
            },
            LoginReply::Denied(refusal) => {
                &&& !credentials_match(*old(user_service), login_request)
                &&& !refusal.success
                &&& refusal.message is Some
                &&& refusal.message.unwrap()@ == "用户名或密码错误"@
                &&& final(user_service).logins() == old(user_service).logins()
            },
        },
{
    let LoginRequest { user_name, password } = login_request;
    let user_id = match user_service.get_user(&user_name) {
        Some(user) => {
            if user.password == password {
                Some(user.name.clone())
            } else {
                None
            }
        },
        None => None,
    };
    match user_id {
        Some(user_id) => {
            let access_token = uuid();
            user_service.user_login(user_name, access_token.clone());
            LoginReply::Granted(ResponseUtil::data(LoginResponse { user_id, access_token }))
        },
        None => LoginReply::Denied(ResponseUtil::error("用户名或密码错误")),
    }
}

} // verus!
