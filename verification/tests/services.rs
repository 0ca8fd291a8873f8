//! The service methods against a small stand-in for a PeerTube server: it
//! reads the request that a call describes and answers as the real one does.

use peertube::data::Token;
use peertube::param::{Channels, Pagination, Ratings, Videos};
use peertube::data::{Channel, Empty};
use peertube::{Answer, Api, Call, Config, Error, Method, Outcome, Pager, Params, Request};

const BASE: &str = "https://peertube.example/api/v1";
const SECRET: &str = "s3cr3t";

fn username() -> String {
    "alice".to_string()
}

fn api() -> (Api, Token) {
    (Api::new(BASE), Token { access_token: SECRET.to_string() })
}

/// The server: the accounts it knows and the handles that the user has
/// subscribed to.
struct Server {
    accounts: Vec<String>,
    subscriptions: Vec<String>,
}

fn server() -> Server {
    Server {
        accounts: vec!["alice".to_string(), "bob".to_string(), "carol".to_string()],
        subscriptions: Vec::new(),
    }
}

fn answer(status: u16, text: String) -> Outcome {
    Outcome::Answered(Answer { status, text })
}

fn failure(status: u16, message: &str) -> Outcome {
    answer(status, format!("{{\"error\":\"{}\"}}", message))
}

fn account_json(id: usize, name: &str) -> String {
    format!(
        "{{\"id\":{},\"name\":\"{}\",\"host\":\"peertube.example\",\"displayName\":\"{}\",\"description\":null,\"followersCount\":0}}",
        id, name, name
    )
}

fn channel_json(id: usize, handle: &str) -> String {
    format!(
        "{{\"id\":{},\"name\":\"{}\",\"host\":\"video.lqdn.fr\",\"displayName\":\"{}\"}}",
        id, handle, handle
    )
}

fn page(items: Vec<String>, total: usize) -> String {
    format!("{{\"total\":{},\"data\":[{}]}}", total, items.join(","))
}

fn unescape(text: &str) -> String {
    text.replace("%40", "@").replace("%2F", "/")
}

fn pair(query: &str, key: &str) -> Option<String> {
    query
        .split('&')
        .filter_map(|p| p.split_once('='))
        .find(|(k, _)| *k == key)
        .map(|(_, v)| unescape(v))
}

impl Server {
    fn handle<T>(&mut self, call: &Call<T>) -> Outcome {
        let rest = match call.url.strip_prefix(BASE) {
            Some(rest) => rest,
            None => return Outcome::Failed("no route to host".to_string()),
        };
        let (path, query) = match rest.split_once('?') {
            Some((path, query)) => (path, query),
            None => (rest, ""),
        };
        let authorized = call
            .headers
            .iter()
            .any(|(name, value)| name == "Authorization" && *value == format!("Bearer {}", SECRET));
        let count = pair(query, "count").and_then(|c| c.parse::<usize>().ok()).unwrap_or(15);
        let segments: Vec<&str> = path.split('/').skip(1).collect();
        match (call.method, segments.as_slice()) {
            (Method::Get, ["accounts"]) => {
                let items: Vec<String> = self
                    .accounts
                    .iter()
                    .enumerate()
                    .take(count)
                    .map(|(i, name)| account_json(i + 1, name))
                    .collect();
                answer(200, page(items, self.accounts.len()))
            }
            (Method::Get, ["accounts", name]) => {
                match self.accounts.iter().position(|a| *a == unescape(name)) {
                    Some(i) => answer(200, account_json(i + 1, &self.accounts[i])),
                    None => failure(404, "Account not found"),
                }
            }
            (Method::Get, ["accounts", _, "videos"]) => answer(200, page(Vec::new(), 0)),
            (Method::Get, ["accounts", _, "video-channels"]) => answer(200, page(Vec::new(), 0)),
            (Method::Get, ["accounts", _, "ratings"]) => {
                if authorized {
                    answer(200, page(Vec::new(), 0))
                } else {
                    failure(401, "Not authenticated")
                }
            }
            (_, ["users", "me", "subscriptions", ..]) if !authorized => {
                failure(401, "Not authenticated")
            }
            (Method::Get, ["users", "me", "subscriptions"]) => {
                let items: Vec<String> = self
                    .subscriptions
                    .iter()
                    .enumerate()
                    .take(count)
                    .map(|(i, handle)| channel_json(i + 1, handle))
                    .collect();
                answer(200, page(items, self.subscriptions.len()))
            }
            (Method::Post, ["users", "me", "subscriptions"]) => {
                let body = call.body.clone().unwrap_or_default();
                match peertube::Json::parse(&body).and_then(|json| json.text("uri")) {
                    Some(uri) => {
                        if !self.subscriptions.contains(&uri) {
                            self.subscriptions.push(uri);
                        }
                        answer(204, String::new())
                    }
                    None => failure(400, "Incorrect request parameters"),
                }
            }
            (Method::Get, ["users", "me", "subscriptions", "exist"]) => {
                let members: Vec<String> = query
                    .split('&')
                    .filter_map(|p| p.split_once('='))
                    .filter(|(k, _)| *k == "uris")
                    .map(|(_, v)| {
                        let uri = unescape(v);
                        format!("\"{}\":{}", uri, self.subscriptions.contains(&uri))
                    })
                    .collect();
                answer(200, format!("{{{}}}", members.join(",")))
            }
            (Method::Get, ["users", "me", "subscriptions", "videos"]) => {
                answer(200, page(Vec::new(), 0))
            }
            (Method::Get, ["users", "me", "subscriptions", handle]) => {
                match self.subscriptions.iter().position(|s| *s == unescape(handle)) {
                    Some(i) => answer(200, channel_json(i + 1, &self.subscriptions[i])),
                    None => failure(404, "Video channel not found"),
                }
            }
            (Method::Delete, ["users", "me", "subscriptions", handle]) => {
                match self.subscriptions.iter().position(|s| *s == unescape(handle)) {
                    Some(i) => {
                        self.subscriptions.remove(i);
                        answer(204, String::new())
                    }
                    None => failure(404, "Video channel not found"),
                }
            }
            _ => failure(404, "Not found"),
        }
    }
}

#[test]
fn account() {
    let (api, _) = api();
    let call = api.accounts.get(&username());
    let account = call.conclude(&server().handle(&call)).unwrap();
    assert_eq!(account.display_name, username());
}

#[test]
fn account_videos() {
    let (api, _) = api();
    let call = api.accounts.videos(&username(), &Videos::default());
    let videos = call.conclude(&server().handle(&call));
    assert!(videos.is_ok());
}

#[test]
fn accounts() {
    let (api, _) = api();
    let call = api.accounts.all(&Pagination { count: Some(2), ..Default::default() });
    let accounts = call.conclude(&server().handle(&call)).unwrap();
    assert_eq!(accounts.data.len(), 2);
}

#[test]
fn account_video_channels() {
    let (api, _) = api();
    let call = api.accounts.video_channels(&username(), &Channels::default());
    let channels = call.conclude(&server().handle(&call));
    assert!(channels.is_ok());
}

#[test]
fn accountratings() {
    let (api, token) = api();
    let call = api.accounts.ratings(&token, &username(), &Ratings::default());
    let ratings = call.conclude(&server().handle(&call));
    assert!(ratings.is_ok());
}

#[test]
fn all() {
    let (api, token) = api();
    let call = api.me.subscriptions.all(&token, &Pagination::default());
    let subscriptions = call.conclude(&server().handle(&call));
    assert!(subscriptions.is_ok());
}

#[test]
fn add() {
    let (api, token) = api();
    let call = api.me.subscriptions.add(&token, "lqdn@video.lqdn.fr");
    let status: Result<(), Error> = match call.conclude(&server().handle(&call)) {
        Ok(empty) => empty.into(),
        Err(e) => Err(e),
    };
    assert!(status.is_ok());
}

#[test]
fn exist() {
    let (api, token) = api();
    let call = api.me.subscriptions.exist(&token, &["lqdn@video.lqdn.fr"]);
    let results = call.conclude(&server().handle(&call));
    assert_eq!(results.unwrap().get("lqdn@video.lqdn.fr"), Some(false));
}

#[test]
fn videos() {
    let (api, token) = api();
    let call = api.me.subscriptions.videos(&token, &Videos::default());
    let videos = call.conclude(&server().handle(&call));
    assert!(videos.is_ok());
}

#[test]
fn get() {
    let (api, token) = api();
    let mut server = server();
    server.subscriptions.push("lqdn@video.lqdn.fr".to_string());
    let call = api.me.subscriptions.get(&token, "lqdn@video.lqdn.fr");
    let subscription = call.conclude(&server.handle(&call));
    assert!(subscription.is_ok());
}

#[test]
fn delete() {
    let (api, token) = api();
    let mut server = server();
    server.subscriptions.push("lqdn@video.lqdn.fr".to_string());
    let call = api.me.subscriptions.delete(&token, "lqdn@video.lqdn.fr");
    let status: Result<(), Error> = match call.conclude(&server.handle(&call)) {
        Ok(empty) => empty.into(),
        Err(e) => Err(e),
    };
    assert!(status.is_ok());
}

#[test]
fn every_known_account_is_returned_under_its_name() {
    let (api, _) = api();
    for name in ["alice", "bob", "carol"] {
        let call = api.accounts.get(name);
        let account = call.conclude(&server().handle(&call)).unwrap();
        assert_eq!(account.name, name);
        assert_eq!(account.display_name, name);
    }
}

#[test]
fn unknown_account_is_not_found() {
    let (api, _) = api();
    let call = api.accounts.get("nobody");
    let e = call.conclude(&server().handle(&call)).unwrap_err();
    assert!(e.is_not_found());
    assert_eq!(
        e,
        Error::Http { status: 404, code: None, message: "Account not found".to_string() }
    );
}

#[test]
fn page_never_exceeds_requested_count() {
    let (api, _) = api();
    for n in 0..6u64 {
        let call = api.accounts.all(&Pagination { count: Some(n), ..Default::default() });
        let accounts = call.conclude(&server().handle(&call)).unwrap();
        assert!(accounts.data.len() as u64 <= n);
        assert_eq!(accounts.data.len() as u64, n.min(3));
        assert_eq!(accounts.total, 3);
    }
}

#[test]
fn listing_endpoints_succeed_without_credential() {
    let (api, _) = api();
    let mut server = server();
    let call = api.accounts.all(&Pagination::default());
    assert!(call.headers.is_empty());
    assert!(call.conclude(&server.handle(&call)).is_ok());
    let call = api.accounts.videos("alice", &Videos::default());
    assert!(call.headers.is_empty());
    assert!(call.conclude(&server.handle(&call)).is_ok());
    let call = api.accounts.video_channels("alice", &Channels::default());
    assert!(call.headers.is_empty());
    assert!(call.conclude(&server.handle(&call)).is_ok());
    let call = api.accounts.get("alice");
    assert!(call.headers.is_empty());
    assert!(call.conclude(&server.handle(&call)).is_ok());
}

#[test]
fn wrong_credential_is_an_authentication_failure() {
    let (api, _) = api();
    let stranger = Token { access_token: "guess".to_string() };
    let mut server = server();

    let call = api.accounts.ratings(&stranger, "alice", &Ratings::default());
    let e = call.conclude(&server.handle(&call)).unwrap_err();
    assert!(e.is_authentication());
    assert!(e.is_http() && !e.is_transport() && !e.is_decode() && !e.is_not_found());
    assert_eq!(e.status(), Some(401));

    let call = api.me.subscriptions.all(&stranger, &Pagination::default());
    assert!(call.conclude(&server.handle(&call)).unwrap_err().is_authentication());
    let call = api.me.subscriptions.add(&stranger, "lqdn@video.lqdn.fr");
    assert!(call.conclude(&server.handle(&call)).unwrap_err().is_authentication());
    let call = api.me.subscriptions.exist(&stranger, &["lqdn@video.lqdn.fr"]);
    assert!(call.conclude(&server.handle(&call)).unwrap_err().is_authentication());
    let call = api.me.subscriptions.videos(&stranger, &Videos::default());
    assert!(call.conclude(&server.handle(&call)).unwrap_err().is_authentication());
    let call = api.me.subscriptions.get(&stranger, "lqdn@video.lqdn.fr");
    assert!(call.conclude(&server.handle(&call)).unwrap_err().is_authentication());
    let call = api.me.subscriptions.delete(&stranger, "lqdn@video.lqdn.fr");
    assert!(call.conclude(&server.handle(&call)).unwrap_err().is_authentication());
    assert!(server.subscriptions.is_empty());
}

#[test]
fn existence_answers_for_every_uri_asked() {
    let (api, token) = api();
    let mut server = server();
    server.subscriptions.push("framasoft@framatube.org".to_string());
    let call = api
        .me
        .subscriptions
        .exist(&token, &["lqdn@video.lqdn.fr", "framasoft@framatube.org"]);
    assert_eq!(
        call.url,
        "https://peertube.example/api/v1/users/me/subscriptions/exist?uris=lqdn%40video.lqdn.fr&uris=framasoft%40framatube.org"
    );
    let results = call.conclude(&server.handle(&call)).unwrap();
    assert_eq!(results.get("lqdn@video.lqdn.fr"), Some(false));
    assert_eq!(results.get("framasoft@framatube.org"), Some(true));
    assert_eq!(results.get("never@asked.example"), None);
}

#[test]
fn subscription_round_trip() {
    let (api, token) = api();
    let mut server = server();
    let handle = "lqdn@video.lqdn.fr";

    let call = api.me.subscriptions.get(&token, handle);
    assert!(call.conclude(&server.handle(&call)).unwrap_err().is_not_found());

    let call = api.me.subscriptions.add(&token, handle);
    assert!(call.conclude(&server.handle(&call)).is_ok());

    let call = api.me.subscriptions.get(&token, handle);
    let subscription = call.conclude(&server.handle(&call)).unwrap();
    assert_eq!(subscription.name, handle);

    let call = api.me.subscriptions.all(&token, &Pagination::default());
    assert_eq!(call.conclude(&server.handle(&call)).unwrap().total, 1);

    let call = api.me.subscriptions.delete(&token, handle);
    assert!(call.conclude(&server.handle(&call)).is_ok());

    let call = api.me.subscriptions.get(&token, handle);
    let e = call.conclude(&server.handle(&call)).unwrap_err();
    assert!(e.is_not_found());
    assert!(!e.is_authentication());
}

#[test]
fn unreachable_server_is_a_transport_failure() {
    let api = Api::new("https://elsewhere.example");
    let call = api.accounts.get("alice");
    let e = call.conclude(&server().handle(&call)).unwrap_err();
    assert_eq!(e, Error::Transport("no route to host".to_string()));
    assert!(e.is_transport() && !e.is_http() && !e.is_decode());
    assert_eq!(e.status(), None);
}

#[test]
fn missing_credential_is_an_authentication_failure() {
    let config = Config { base_url: BASE.to_string() };
    let mut server = server();
    let anonymous = |path: &str| Request { path: path.to_string(), params: Params::none(), auth: None };

    let call: Call<Pager<Channel>> = Api::get(&config, anonymous("/users/me/subscriptions"));
    assert!(call.headers.is_empty());
    let e = call.conclude(&server.handle(&call)).unwrap_err();
    assert!(e.is_authentication());
    assert_eq!(e, Error::Http { status: 401, code: None, message: "Not authenticated".to_string() });

    let call: Call<Pager<Channel>> = Api::get(&config, anonymous("/accounts/alice/ratings"));
    assert!(call.conclude(&server.handle(&call)).unwrap_err().is_authentication());

    let call: Call<Empty> = Api::delete(&config, anonymous("/users/me/subscriptions/x"));
    assert!(call.conclude(&server.handle(&call)).unwrap_err().is_authentication());
}
