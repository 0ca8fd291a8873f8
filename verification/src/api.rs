//! From a described call to the HTTP request that carries it.

use core::marker::PhantomData;
use vstd::prelude::*;
use vstd::string::StringExecFns;
use crate::query::{push_query, query_string};
use crate::render::render;
use crate::request::{Method, Params, ParamsView, Request, RequestView};
use crate::services::accounts::Accounts;
use crate::services::me::Me;

verus! {

/// What every call of one client shares: where the server's API starts.
#[derive(Debug, PartialEq, Eq)]
pub struct Config {
    pub base_url: String,
}

impl View for Config {
    type V = Seq<char>;

    open spec fn view(&self) -> Seq<char> {
        self.base_url@
    }
}

impl Clone for Config {
    fn clone(&self) -> (r: Self)
        ensures
            r@ == self@,
    {
        Config { base_url: self.base_url.clone() }
    }
}

/// An HTTP request ready to be sent, together with the type that its answer
/// is expected to decode to.
#[derive(Debug)]
pub struct Call<T> {
    pub method: Method,
    pub url: String,
    pub headers: Vec<(String, String)>,
    pub body: Option<String>,
    pub expected: PhantomData<T>,
}

/// The mathematical value of a [`Call`], whatever it expects.
pub struct CallView {
    pub method: Method,
    pub url: Seq<char>,
    pub headers: Seq<(Seq<char>, Seq<char>)>,
    pub body: Option<Seq<char>>,
}

impl<T> View for Call<T> {
    type V = CallView;

    open spec fn view(&self) -> CallView {
        CallView {
            method: self.method,
            url: self.url@,
            headers: self.headers.deep_view(),
            body: match self.body {
                Some(text) => Some(text@),
                None => None,
            },
        }
    }
}

/// The absolute URL of a call: the base URL, the path, and the query string
/// behind a `?` where there is at least one pair.
pub open spec fn url_of(base: Seq<char>, request: RequestView) -> Seq<char> {
    match request.params {
        ParamsView::Query(pairs) => if pairs.len() > 0 {
            base + request.path + seq!['?'] + query_string(pairs)
        } else {
            base + request.path
        },
        _ => base + request.path,
    }
}

/// The body of a call: the text of its JSON payload, on every verb but GET.
pub open spec fn body_of(method: Method, request: RequestView) -> Option<Seq<char>> {
    match request.params {
        ParamsView::Json(value) => if method == Method::Get {
            None
        } else {
            Some(render(value))
        },
        _ => None,
    }
}

/// The header that presents a credential.
pub open spec fn authorization(token: Seq<char>) -> (Seq<char>, Seq<char>) {
    ("Authorization"@, "Bearer "@ + token)
}

/// The header that announces a JSON body.
pub open spec fn content_type() -> (Seq<char>, Seq<char>) {
    ("Content-Type"@, "application/json"@)
}

/// The headers of a call: the credential where the call has one, then the
/// content type where it has a body. An anonymous call has no
/// `Authorization` header at all.
pub open spec fn headers_of(method: Method, request: RequestView) -> Seq<(Seq<char>, Seq<char>)> {
    let auth = match request.auth {
        Some(token) => seq![authorization(token)],
        None => Seq::empty(),
    };
    if body_of(method, request) is Some {
        auth.push(content_type())
    } else {
        auth
    }
}

/// The HTTP request that carries `request` to the server at `base`.
pub open spec fn call_of(method: Method, base: Seq<char>, request: RequestView) -> CallView {
    CallView {
        method,
        url: url_of(base, request),
        headers: headers_of(method, request),
        body: body_of(method, request),
    }
}

/// A client of one server: its services, and the executor that they all
/// go through, which builds the request in one way for every verb.
pub struct Api {
    pub accounts: Accounts,
    pub me: Me,
}

impl Api {
    /// A client of the server whose API starts at `base_url`.
    pub fn new(base_url: &str) -> (api: Api)
        ensures
            api.accounts.base() == base_url@,
            api.me.subscriptions.base() == base_url@,
    {
        let config = Config { base_url: String::from_str(base_url) };
        Api { accounts: Accounts::new(&config), me: Me::new(&config) }
    }

    /// Builds the HTTP request for `request` with the verb `method`.
    pub fn call<T>(method: Method, config: &Config, request: Request) -> (call: Call<T>)
        ensures
            call@ == call_of(method, config@, request@),
    {
        let mut url = config.base_url.clone();
        url.append(request.path.as_str());
        let mut headers: Vec<(String, String)> = Vec::new();
        match &request.auth {
            Some(token) => {
                let mut value = String::from_str("Bearer ");
                value.append(token.access_token.as_str());
                headers.push((String::from_str("Authorization"), value));
            },
            None => {},
        }
        let mut body: Option<String> = None;
        match &request.params {
            Params::Query(pairs) => {
                if pairs.len() > 0 {
                    url.push('?');
                    push_query(&mut url, pairs);
                }
            },
            Params::Json(value) => {
                match method {
                    Method::Get => {},
                    _ => {
                        body = Some(value.render());
                        headers.push(
                            (String::from_str("Content-Type"), String::from_str("application/json")),
                        );
                    },
                }
            },
            Params::Nothing => {},
        }
        let call = Call { method, url, headers, body, expected: PhantomData };
        proof {
            assert(call@.headers =~= headers_of(method, request@));
            assert(call@.url =~= url_of(config@, request@));
        }
        call
    }

    /// Builds a GET request. A JSON payload is not sent with it.
    pub fn get<T>(config: &Config, request: Request) -> (call: Call<T>)
        ensures
            call@ == call_of(Method::Get, config@, request@),
    {
        Api::call(Method::Get, config, request)
    }

    /// Builds a POST request.
    pub fn post<T>(config: &Config, request: Request) -> (call: Call<T>)
        ensures
            call@ == call_of(Method::Post, config@, request@),
    {
        Api::call(Method::Post, config, request)
    }

    /// Builds a PUT request.
    pub fn put<T>(config: &Config, request: Request) -> (call: Call<T>)
        ensures
            call@ == call_of(Method::Put, config@, request@),
    {
        Api::call(Method::Put, config, request)
    }

    /// Builds a PATCH request.
    pub fn patch<T>(config: &Config, request: Request) -> (call: Call<T>)
        ensures
            call@ == call_of(Method::Patch, config@, request@),
    {
        Api::call(Method::Patch, config, request)
    }

    /// Builds a DELETE request.
    pub fn delete<T>(config: &Config, request: Request) -> (call: Call<T>)
        ensures
            call@ == call_of(Method::Delete, config@, request@),
    {
        Api::call(Method::Delete, config, request)
    }
}

/// A call without a credential carries no `Authorization` header, whatever
/// its verb and payload; a call with a credential carries it first, as a
/// bearer token.
pub proof fn lemma_credential_is_presented_iff_given(
    method: Method,
    base: Seq<char>,
    request: RequestView,
)
    ensures
        request.auth is None ==> forall|i: int|
            0 <= i < call_of(method, base, request).headers.len() ==> (#[trigger] call_of(
                method,
                base,
                request,
            ).headers[i]).0 != "Authorization"@,
        request.auth matches Some(token) ==> call_of(method, base, request).headers.len() > 0
            && call_of(method, base, request).headers[0] == authorization(token),
{
    reveal_strlit("Authorization");
    reveal_strlit("Content-Type");
    assert("Authorization"@.len() != "Content-Type"@.len());
}

/// The URL of a call starts with the base URL and the path, in this order,
/// and a call without pairs for the query string ends there: no `?` is
/// added.
pub proof fn lemma_url_starts_with_base_and_path(base: Seq<char>, request: RequestView)
    ensures
        (base + request.path).is_prefix_of(url_of(base, request)),
        !(request.params matches ParamsView::Query(pairs) && pairs.len() > 0) ==> url_of(
            base,
            request,
        ) == base + request.path,
{
}

} // verus!
