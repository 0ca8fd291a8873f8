//! The endpoints about accounts.

use vstd::prelude::*;
use vstd::string::StringExecFns;
use crate::api::{call_of, Api, Call, Config};
use crate::data::{Account, Channel, Video};
use crate::pager::Pager;
use crate::param::{Channels, Pagination, Ratings, Videos};
use crate::percent::{escape, Place};
use crate::request::{Method, Params, ParamsView, Request, RequestView, Token};
use crate::services::route::{lemma_route_tells_names_apart, route};

verus! {

/// The calls about accounts, for one server.
pub struct Accounts {
    config: Config,
}

impl Accounts {
    /// The base URL that every call of this service starts with.
    pub closed spec fn base(&self) -> Seq<char> {
        self.config@
    }

    /// What `get` asks for: `/accounts/{name}`, without parameters and
    /// without credential.
    pub open spec fn get_request(name: Seq<char>) -> RequestView {
        RequestView {
            path: "/accounts/"@ + escape(Place::Segment, name),
            params: ParamsView::Nothing,
            auth: None,
        }
    }

    /// What `videos` asks for: `/accounts/{name}/videos`, without
    /// credential.
    pub open spec fn videos_request(name: Seq<char>, params: Videos) -> RequestView {
        RequestView {
            path: "/accounts/"@ + escape(Place::Segment, name) + "/videos"@,
            params: ParamsView::Query(params.spec_query()),
            auth: None,
        }
    }

    /// What `all` asks for: `/accounts`, without credential.
    pub open spec fn all_request(pagination: Pagination) -> RequestView {
        RequestView {
            path: "/accounts"@,
            params: ParamsView::Query(pagination.spec_query()),
            auth: None,
        }
    }

    /// What `video_channels` asks for: `/accounts/{name}/video-channels`,
    /// without credential.
    pub open spec fn video_channels_request(name: Seq<char>, params: Channels) -> RequestView {
        RequestView {
            path: "/accounts/"@ + escape(Place::Segment, name) + "/video-channels"@,
            params: ParamsView::Query(params.spec_query()),
            auth: None,
        }
    }

    /// What `ratings` asks for: `/accounts/{name}/ratings`, with the
    /// credential.
    pub open spec fn ratings_request(auth: Seq<char>, name: Seq<char>, params: Ratings) -> RequestView {
        RequestView {
            path: "/accounts/"@ + escape(Place::Segment, name) + "/ratings"@,
            params: ParamsView::Query(params.spec_query()),
            auth: Some(auth),
        }
    }

    /// The service for the server that `config` names.
    pub fn new(config: &Config) -> (r: Self)
        ensures
            r.base() == config@,
    {
        Accounts { config: config.clone() }
    }

    /// Get an account.
    pub fn get(&self, name: &str) -> (call: Call<Account>)
        ensures
            call@ == call_of(Method::Get, self.base(), Self::get_request(name@)),
    {
        let path = route("/accounts/", name, "");
        proof {
            reveal_strlit("");
            assert(path@ =~= "/accounts/"@ + escape(Place::Segment, name@));
        }
        Api::get(&self.config, Request::from(path))
    }

    /// List videos of an account.
    pub fn videos(&self, name: &str, params: &Videos) -> (call: Call<Pager<Video>>)
        ensures
            call@ == call_of(Method::Get, self.base(), Self::videos_request(name@, *params)),
    {
        let request = Request {
            path: route("/accounts/", name, "/videos"),
            params: Params::Query(params.to_query()),
            auth: None,
        };
        Api::get(&self.config, request)
    }

    /// List accounts.
    pub fn all(&self, pagination: &Pagination) -> (call: Call<Pager<Account>>)
        ensures
            call@ == call_of(Method::Get, self.base(), Self::all_request(*pagination)),
    {
        let request = Request {
            path: String::from_str("/accounts"),
            params: Params::Query(pagination.to_query()),
            auth: None,
        };
        Api::get(&self.config, request)
    }

    /// List video channels of an account.
    pub fn video_channels(&self, name: &str, params: &Channels) -> (call: Call<Pager<Channel>>)
        ensures
            call@ == call_of(
                Method::Get,
                self.base(),
                Self::video_channels_request(name@, *params),
            ),
    {
        let request = Request {
            path: route("/accounts/", name, "/video-channels"),
            params: Params::Query(params.to_query()),
            auth: None,
        };
        Api::get(&self.config, request)
    }

    /// List ratings of an account.
    pub fn ratings(&self, auth: &Token, name: &str, params: &Ratings) -> (call: Call<Pager<Channel>>)
        ensures
            call@ == call_of(
                Method::Get,
                self.base(),
                Self::ratings_request(auth@, name@, *params),
            ),
    {
        let request = Request {
            path: route("/accounts/", name, "/ratings"),
            params: Params::Query(params.to_query()),
            auth: Some(auth.clone()),
        };
        Api::get(&self.config, request)
    }
}

/// Whatever the name, every request of this service is a route on the
/// server, and the name is one segment of it. Only `ratings` presents a
/// credential.
pub proof fn lemma_account_requests_are_routes(
    auth: Seq<char>,
    name: Seq<char>,
    pagination: Pagination,
    videos: Videos,
    channels: Channels,
    ratings: Ratings,
)
    ensures
        Accounts::get_request(name).is_route(),
        Accounts::videos_request(name, videos).is_route(),
        Accounts::all_request(pagination).is_route(),
        Accounts::video_channels_request(name, channels).is_route(),
        Accounts::ratings_request(auth, name, ratings).is_route(),
        Accounts::get_request(name).auth is None,
        Accounts::videos_request(name, videos).auth is None,
        Accounts::all_request(pagination).auth is None,
        Accounts::video_channels_request(name, channels).auth is None,
        Accounts::ratings_request(auth, name, ratings).auth == Some(auth),
{
    reveal_strlit("/accounts/");
    reveal_strlit("/accounts");
}

/// The request of `get` names the account asked for and no other: two names
/// give the same request only where they are the same name.
pub proof fn lemma_get_names_one_account(a: Seq<char>, b: Seq<char>)
    requires
        Accounts::get_request(a) == Accounts::get_request(b),
    ensures
        a == b,
{
    let empty = Seq::<char>::empty();
    assert("/accounts/"@ + escape(Place::Segment, a) + empty =~= Accounts::get_request(a).path);
    assert("/accounts/"@ + escape(Place::Segment, b) + empty =~= Accounts::get_request(b).path);
    lemma_route_tells_names_apart("/accounts/"@, a, b, empty);
}

} // verus!
