//! The description of one API call, before anything is sent.

use vstd::prelude::*;
use vstd::std_specs::convert::FromSpecImpl;
use crate::json::{Json, JsonValue};

verus! {

/// A bearer credential, obtained elsewhere and handed to each call that
/// needs it.
#[derive(Debug, PartialEq, Eq)]
pub struct Token {
    pub access_token: String,
}

impl View for Token {
    type V = Seq<char>;

    open spec fn view(&self) -> Seq<char> {
        self.access_token@
    }
}

impl Clone for Token {
    fn clone(&self) -> (r: Self)
        ensures
            r@ == self@,
    {
        Token { access_token: self.access_token.clone() }
    }
}

/// What a call carries besides its path.
#[derive(Debug, PartialEq, Eq)]
pub enum Params {
    /// Key/value pairs for the query string; a key may occur more than once.
    Query(Vec<(String, String)>),
    /// A JSON value for the request body.
    Json(Json),
    /// Nothing at all, which is not the same as an empty set of pairs.
    Nothing,
}

/// The mathematical value of a [`Params`].
pub enum ParamsView {
    Query(Seq<(Seq<char>, Seq<char>)>),
    Json(JsonValue),
    Nothing,
}

impl View for Params {
    type V = ParamsView;

    open spec fn view(&self) -> ParamsView {
        match self {
            Params::Query(pairs) => ParamsView::Query(pairs.deep_view()),
            Params::Json(body) => ParamsView::Json(body@),
            Params::Nothing => ParamsView::Nothing,
        }
    }
}

impl Params {
    /// The payload of a call without parameters.
    pub fn none() -> (r: Params)
        ensures
            r@ == ParamsView::Nothing,
    {
        Params::Nothing
    }
}

/// One API call: a route relative to the server's base URL, its payload, and
/// the credential to present, if any.
#[derive(Debug)]
pub struct Request {
    pub path: String,
    pub params: Params,
    pub auth: Option<Token>,
}

/// The mathematical value of a [`Request`]: texts by their characters.
pub struct RequestView {
    pub path: Seq<char>,
    pub params: ParamsView,
    pub auth: Option<Seq<char>>,
}

impl View for Request {
    type V = RequestView;

    open spec fn view(&self) -> RequestView {
        RequestView {
            path: self.path@,
            params: self.params@,
            auth: match self.auth {
                Some(token) => Some(token@),
                None => None,
            },
        }
    }
}

impl RequestView {
    /// Whether the path is a route on the server: it begins with `/`.
    pub open spec fn is_route(self) -> bool {
        self.path.len() > 0 && self.path[0] == '/'
    }
}

impl From<String> for Request {
    /// A path alone is an anonymous call without parameters.
    fn from(path: String) -> (r: Request) {
        Request { path, params: Params::Nothing, auth: None }
    }
}

impl FromSpecImpl<String> for Request {
    open spec fn obeys_from_spec() -> bool {
        true
    }

    open spec fn from_spec(path: String) -> Request {
        Request { path, params: Params::Nothing, auth: None }
    }
}

/// The HTTP verb of a call.
#[derive(Clone, Copy, Debug, PartialEq, Eq, Structural)]
pub enum Method {
    Get,
    Post,
    Put,
    Patch,
    Delete,
}

impl Method {
    /// The verb as it stands on the request line.
    pub fn name(&self) -> (r: &'static str)
        ensures
            r@ == self.spec_name(),
    {
        match self {
            Method::Get => "GET",
            Method::Post => "POST",
            Method::Put => "PUT",
            Method::Patch => "PATCH",
            Method::Delete => "DELETE",
        }
    }

    /// The verb as it stands on the request line.
    pub open spec fn spec_name(&self) -> Seq<char> {
        match self {
            Method::Get => "GET"@,
            Method::Post => "POST"@,
            Method::Put => "PUT"@,
            Method::Patch => "PATCH"@,
            Method::Delete => "DELETE"@,
        }
    }
}

} // verus!
