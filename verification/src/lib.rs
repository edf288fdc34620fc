//! A small service library: the binary request/response protocol of a
//! namespaced key-value store, and the request handling of the HTTP front
//! end that sits beside it.

use vstd::prelude::*;

pub mod controller;
pub mod filter;
pub mod marionette;
pub mod qdb;
pub mod route;
pub mod service;
pub mod util;

verus! {

#[derive(Debug, Clone, Copy, PartialEq, Eq, Structural)]
pub enum HttpMethod {
    Get,
    Post,
}

impl HttpMethod {
    /// The method that the gateway's code stands for: 0 is GET, 1 is POST,
    /// and no other code is in use.
    pub fn from_code(code: i32) -> (method: Option<Self>)
        ensures
            code == 0 ==> method == Some(HttpMethod::Get),
            code == 1 ==> method == Some(HttpMethod::Post),
            code != 0 && code != 1 ==> method is None,
    {
        if code == 0 {
            Some(HttpMethod::Get)
        } else if code == 1 {
            Some(HttpMethod::Post)
        } else {
            None
        }
    }
}

/// One header or parameter: a name and a value.
pub type Pair = (String, String);

/// A request as the gateway hands it over.
#[derive(Debug)]
pub struct HttpRequest {
    pub method: HttpMethod,
    pub query_path: String,
    pub headers: Vec<Pair>,
    pub params: Vec<Pair>,
    pub body: String,
}

/// A response for the gateway: status code, headers and body.
#[derive(Debug)]
pub struct HttpResponse {
    code: u32,
    headers: Vec<Pair>,
    body: String,
}

/// A name and a value as character sequences.
pub open spec fn pair_view(pair: Pair) -> (Seq<char>, Seq<char>) {
    (pair.0@, pair.1@)
}

/// A list of headers as character sequences.
pub open spec fn pairs_view(pairs: Seq<Pair>) -> Seq<(Seq<char>, Seq<char>)> {
    pairs.map_values(|pair: Pair| pair_view(pair))
}

/// A response with its strings as character sequences.
pub struct HttpResponseView {
    pub code: u32,
    pub headers: Seq<(Seq<char>, Seq<char>)>,
    pub body: Seq<char>,
}

impl View for HttpResponse {
    type V = HttpResponseView;

    closed spec fn view(&self) -> HttpResponseView {
        HttpResponseView {
            code: self.code,
            headers: pairs_view(self.headers@),
            body: self.body@,
        }
    }
}

/// A response, if there is one, with its strings as character sequences.
pub open spec fn response_view(response: Option<HttpResponse>) -> Option<HttpResponseView> {
    match response {
        Some(r) => Some(r@),
        None => None,
    }
}

impl HttpResponse {
    /// A response with status 200.
    pub fn new(headers: Vec<Pair>, body: String) -> (response: Self)
        ensures
            response@ == (HttpResponseView {
                code: 200,
                headers: pairs_view(headers@),
                body: body@,
            }),
    {
        Self::with_code(200, headers, body)
    }

    pub fn with_code(code: u32, headers: Vec<Pair>, body: String) -> (response: Self)
        ensures
            response@ == (HttpResponseView { code, headers: pairs_view(headers@), body: body@ }),
    {
        Self { code, headers, body }
    }

    pub fn code(&self) -> (code: u32)
        ensures
            code == self@.code,
    {
        self.code
    }

    pub fn headers(&self) -> (headers: &Vec<Pair>)
        ensures
            pairs_view(headers@) == self@.headers,
    {
        &self.headers
    }

    pub fn body(&self) -> (body: &String)
        ensures
            body@ == self@.body,
    {
        &self.body
    }
}

} // verus!
