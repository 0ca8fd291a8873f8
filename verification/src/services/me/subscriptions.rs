//! The endpoints about the user's subscriptions. Each presents the
//! credential.

use vstd::prelude::*;
use vstd::string::StringExecFns;
use crate::api::{body_of, call_of, Api, Call, Config};
use crate::data::{Existence, Subscription, Video};
use crate::json::JsonValue;
use crate::pager::{Empty, Pager};
use crate::param::{Pagination, Videos};
use crate::parse::{depth_limit, parsed};
use crate::percent::{escape, Place};
use crate::query::{push_pair, repeated_pairs};
use crate::readback::{lemma_written_text_reads_back, writable};
use crate::request::{Method, Params, ParamsView, Request, RequestView, Token};
use crate::services::route::{lemma_route_tells_names_apart, route};

verus! {

/// The calls about the user's subscriptions, for one server.
pub struct Subscriptions {
    config: Config,
}

/// The texts of `uris`, in their order.
pub open spec fn texts(uris: Seq<&str>) -> Seq<Seq<char>> {
    Seq::new(uris.len(), |i: int| uris[i]@)
}

impl Subscriptions {
    /// The base URL that every call of this service starts with.
    pub closed spec fn base(&self) -> Seq<char> {
        self.config@
    }

    /// What `all` asks for: `/users/me/subscriptions`.
    pub open spec fn all_request(auth: Seq<char>, pagination: Pagination) -> RequestView {
        RequestView {
            path: "/users/me/subscriptions"@,
            params: ParamsView::Query(pagination.spec_query()),
            auth: Some(auth),
        }
    }

    /// What `add` sends to `/users/me/subscriptions`: an object with the one
    /// member `uri`.
    pub open spec fn add_request(auth: Seq<char>, uri: Seq<char>) -> RequestView {
        RequestView {
            path: "/users/me/subscriptions"@,
            params: ParamsView::Json(JsonValue::Object(seq![("uri"@, JsonValue::Text(uri))])),
            auth: Some(auth),
        }
    }

    /// What `exist` asks for: `/users/me/subscriptions/exist` with one pair
    /// `uris` per URI, in the order given.
    pub open spec fn exist_request(auth: Seq<char>, uris: Seq<Seq<char>>) -> RequestView {
        RequestView {
            path: "/users/me/subscriptions/exist"@,
            params: ParamsView::Query(repeated_pairs("uris"@, uris)),
            auth: Some(auth),
        }
    }

    /// What `videos` asks for: `/users/me/subscriptions/videos`.
    pub open spec fn videos_request(auth: Seq<char>, params: Videos) -> RequestView {
        RequestView {
            path: "/users/me/subscriptions/videos"@,
            params: ParamsView::Query(params.spec_query()),
            auth: Some(auth),
        }
    }

    /// What `get` and `delete` name: `/users/me/subscriptions/{handle}`,
    /// without parameters.
    pub open spec fn one_request(auth: Seq<char>, handle: Seq<char>) -> RequestView {
        RequestView {
            path: "/users/me/subscriptions/"@ + escape(Place::Segment, handle),
            params: ParamsView::Nothing,
            auth: Some(auth),
        }
    }

    /// The service for the server that `config` names.
    pub fn new(config: &Config) -> (r: Self)
        ensures
            r.base() == config@,
    {
        Subscriptions { config: config.clone() }
    }

    /// Get my user subscriptions.
    pub fn all(&self, auth: &Token, pagination: &Pagination) -> (call: Call<Pager<Subscription>>)
        ensures
            call@ == call_of(Method::Get, self.base(), Self::all_request(auth@, *pagination)),
    {
        let request = Request {
            path: String::from_str("/users/me/subscriptions"),
            params: Params::Query(pagination.to_query()),
            auth: Some(auth.clone()),
        };
        Api::get(&self.config, request)
    }

    /// Add subscription to my user.
    pub fn add(&self, auth: &Token, uri: &str) -> (call: Call<Empty>)
        ensures
            call@ == call_of(Method::Post, self.base(), Self::add_request(auth@, uri@)),
    {
        let params = crate::param::Subscription { uri: String::from_str(uri) };
        let request = Request {
            path: String::from_str("/users/me/subscriptions"),
            params: Params::Json(params.to_json()),
            auth: Some(auth.clone()),
        };
        Api::post(&self.config, request)
    }

    /// Get if subscriptions exist for my user.
    pub fn exist(&self, auth: &Token, uris: &[&str]) -> (call: Call<Existence>)
        ensures
            call@ == call_of(Method::Get, self.base(), Self::exist_request(auth@, texts(uris@))),
    {
        let mut params: Vec<(String, String)> = Vec::new();
        let mut i: usize = 0;
        assert(params.deep_view() =~= repeated_pairs("uris"@, texts(uris@).take(0)));
        while i < uris.len()
            invariant
                i <= uris@.len(),
                params.deep_view() == repeated_pairs("uris"@, texts(uris@).take(i as int)),
            decreases uris@.len() - i,
        {
            push_pair(&mut params, "uris", uris[i]);
            i += 1;
            assert(params.deep_view() =~= repeated_pairs("uris"@, texts(uris@).take(i as int)));
        }
        assert(texts(uris@).take(i as int) =~= texts(uris@));
        let request = Request {
            path: String::from_str("/users/me/subscriptions/exist"),
            params: Params::Query(params),
            auth: Some(auth.clone()),
        };
        Api::get(&self.config, request)
    }

    /// List videos of subscriptions of my user.
    pub fn videos(&self, auth: &Token, params: &Videos) -> (call: Call<Pager<Video>>)
        ensures
            call@ == call_of(Method::Get, self.base(), Self::videos_request(auth@, *params)),
    {
        let request = Request {
            path: String::from_str("/users/me/subscriptions/videos"),
            params: Params::Query(params.to_query()),
            auth: Some(auth.clone()),
        };
        Api::get(&self.config, request)
    }

    /// Get subscription of my user.
    pub fn get(&self, auth: &Token, handle: &str) -> (call: Call<Subscription>)
        ensures
            call@ == call_of(Method::Get, self.base(), Self::one_request(auth@, handle@)),
    {
        let path = route("/users/me/subscriptions/", handle, "");
        proof {
            reveal_strlit("");
            assert(path@ =~= "/users/me/subscriptions/"@ + escape(Place::Segment, handle@));
        }
        let request = Request { path, params: Params::none(), auth: Some(auth.clone()) };
        Api::get(&self.config, request)
    }

    /// Delete subscription of my user.
    pub fn delete(&self, auth: &Token, handle: &str) -> (call: Call<Empty>)
        ensures
            call@ == call_of(Method::Delete, self.base(), Self::one_request(auth@, handle@)),
    {
        let path = route("/users/me/subscriptions/", handle, "");
        proof {
            reveal_strlit("");
            assert(path@ =~= "/users/me/subscriptions/"@ + escape(Place::Segment, handle@));
        }
        let request = Request { path, params: Params::none(), auth: Some(auth.clone()) };
        Api::delete(&self.config, request)
    }
}

/// Whatever the handle and the URIs, every request of this service is a
/// route on the server and presents the credential.
pub proof fn lemma_subscription_requests_are_routes(
    auth: Seq<char>,
    handle: Seq<char>,
    uris: Seq<Seq<char>>,
    pagination: Pagination,
    videos: Videos,
)
    ensures
        Subscriptions::all_request(auth, pagination).is_route(),
        Subscriptions::add_request(auth, handle).is_route(),
        Subscriptions::exist_request(auth, uris).is_route(),
        Subscriptions::videos_request(auth, videos).is_route(),
        Subscriptions::one_request(auth, handle).is_route(),
        Subscriptions::all_request(auth, pagination).auth == Some(auth),
        Subscriptions::add_request(auth, handle).auth == Some(auth),
        Subscriptions::exist_request(auth, uris).auth == Some(auth),
        Subscriptions::videos_request(auth, videos).auth == Some(auth),
        Subscriptions::one_request(auth, handle).auth == Some(auth),
{
    reveal_strlit("/users/me/subscriptions");
    reveal_strlit("/users/me/subscriptions/");
    reveal_strlit("/users/me/subscriptions/exist");
    reveal_strlit("/users/me/subscriptions/videos");
}

/// `get` and `delete` name the subscription by its handle alone: for one
/// handle they address the same path, and two handles give the same path only
/// where they are the same handle.
pub proof fn lemma_handle_names_one_subscription(
    base: Seq<char>,
    auth: Seq<char>,
    a: Seq<char>,
    b: Seq<char>,
)
    ensures
        call_of(Method::Get, base, Subscriptions::one_request(auth, a)).url == call_of(
            Method::Delete,
            base,
            Subscriptions::one_request(auth, a),
        ).url,
        Subscriptions::one_request(auth, a).path == Subscriptions::one_request(auth, b).path ==> a
            == b,
{
    if Subscriptions::one_request(auth, a).path == Subscriptions::one_request(auth, b).path {
        let empty = Seq::<char>::empty();
        let prefix = "/users/me/subscriptions/"@;
        assert(prefix + escape(Place::Segment, a) + empty =~= Subscriptions::one_request(
            auth,
            a,
        ).path);
        assert(prefix + escape(Place::Segment, b) + empty =~= Subscriptions::one_request(
            auth,
            b,
        ).path);
        lemma_route_tells_names_apart(prefix, a, b, empty);
    }
}

/// The body that `add` sends is JSON, and it reads as an object with the one
/// member `uri` that holds the URI as it was given, whatever characters the
/// URI is made of.
pub proof fn lemma_add_sends_the_uri(auth: Seq<char>, uri: Seq<char>)
    ensures
        body_of(Method::Post, Subscriptions::add_request(auth, uri)) matches Some(text) && parsed(
            text,
        ) == Some(JsonValue::Object(seq![("uri"@, JsonValue::Text(uri))])),
{
    let body = JsonValue::Object(seq![("uri"@, JsonValue::Text(uri))]);
    assert(writable(body, depth_limit())) by {
        assert(writable(JsonValue::Text(uri), (depth_limit() - 1) as nat));
    }
    lemma_written_text_reads_back(body);
}

} // verus!
