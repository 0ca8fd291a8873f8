//! The records that the server answers with.

use vstd::prelude::*;
pub use crate::pager::Empty;
pub use crate::request::Token;
use crate::json::{member, Json, JsonValue};
use crate::response::Decode;
use crate::text::same_text;

verus! {

/// An account on a server.
#[derive(Debug, PartialEq, Eq)]
pub struct Account {
    pub id: u64,
    pub name: String,
    pub host: String,
    pub display_name: String,
    pub description: Option<String>,
    pub followers_count: u64,
}

/// The mathematical value of an [`Account`].
pub struct AccountView {
    pub id: u64,
    pub name: Seq<char>,
    pub host: Seq<char>,
    pub display_name: Seq<char>,
    pub description: Option<Seq<char>>,
    pub followers_count: u64,
}

impl View for Account {
    type V = AccountView;

    open spec fn view(&self) -> AccountView {
        AccountView {
            id: self.id,
            name: self.name@,
            host: self.host@,
            display_name: self.display_name@,
            description: match self.description {
                Some(text) => Some(text@),
                None => None,
            },
            followers_count: self.followers_count,
        }
    }
}

impl Decode for Account {
    /// An object with the members `id`, `name`, `host`, `displayName` and
    /// `followersCount`, and with or without a `description`.
    open spec fn spec_from_json(json: JsonValue) -> Option<AccountView> {
        match (
            json.natural("id"@),
            json.text("name"@),
            json.text("host"@),
            json.text("displayName"@),
            json.optional_text("description"@),
            json.natural("followersCount"@),
        ) {
            (
                Some(id),
                Some(name),
                Some(host),
                Some(display_name),
                Some(description),
                Some(followers_count),
            ) => Some(AccountView { id, name, host, display_name, description, followers_count }),
            _ => None,
        }
    }

    open spec fn spec_from_nothing() -> Option<AccountView> {
        None
    }

    fn from_json(json: &Json) -> (r: Option<Account>) {
        let id = json.natural("id")?;
        let name = json.text("name")?;
        let host = json.text("host")?;
        let display_name = json.text("displayName")?;
        let description = json.optional_text("description")?;
        let followers_count = json.natural("followersCount")?;
        Some(Account { id, name, host, display_name, description, followers_count })
    }

    fn from_nothing() -> (r: Option<Account>) {
        None
    }
}

/// An account that was read from a body has the names that the body gives:
/// the member `name` as its name, the member `displayName` as its display
/// name.
pub proof fn lemma_account_keeps_its_names(json: JsonValue)
    requires
        Account::spec_from_json(json) is Some,
    ensures
        json.text("name"@) == Some(Account::spec_from_json(json).unwrap().name),
        json.text("displayName"@) == Some(Account::spec_from_json(json).unwrap().display_name),
        json.natural("id"@) == Some(Account::spec_from_json(json).unwrap().id),
{
}

/// A video channel.
#[derive(Debug, PartialEq, Eq)]
pub struct Channel {
    pub id: u64,
    pub name: String,
    pub host: String,
    pub display_name: String,
    pub description: Option<String>,
}

/// The mathematical value of a [`Channel`].
pub struct ChannelView {
    pub id: u64,
    pub name: Seq<char>,
    pub host: Seq<char>,
    pub display_name: Seq<char>,
    pub description: Option<Seq<char>>,
}

impl View for Channel {
    type V = ChannelView;

    open spec fn view(&self) -> ChannelView {
        ChannelView {
            id: self.id,
            name: self.name@,
            host: self.host@,
            display_name: self.display_name@,
            description: match self.description {
                Some(text) => Some(text@),
                None => None,
            },
        }
    }
}

impl Decode for Channel {
    /// An object with the members `id`, `name`, `host` and `displayName`, and
    /// with or without a `description`.
    open spec fn spec_from_json(json: JsonValue) -> Option<ChannelView> {
        match (
            json.natural("id"@),
            json.text("name"@),
            json.text("host"@),
            json.text("displayName"@),
            json.optional_text("description"@),
        ) {
            (Some(id), Some(name), Some(host), Some(display_name), Some(description)) => Some(
                ChannelView { id, name, host, display_name, description },
            ),
            _ => None,
        }
    }

    open spec fn spec_from_nothing() -> Option<ChannelView> {
        None
    }

    fn from_json(json: &Json) -> (r: Option<Channel>) {
        let id = json.natural("id")?;
        let name = json.text("name")?;
        let host = json.text("host")?;
        let display_name = json.text("displayName")?;
        let description = json.optional_text("description")?;
        Some(Channel { id, name, host, display_name, description })
    }

    fn from_nothing() -> (r: Option<Channel>) {
        None
    }
}

/// A subscription of the user: the channel subscribed to.
pub type Subscription = Channel;

/// A video.
#[derive(Debug, PartialEq, Eq)]
pub struct Video {
    pub id: u64,
    pub uuid: String,
    pub name: String,
    pub duration: u64,
    pub views: u64,
    pub nsfw: bool,
    pub is_live: bool,
}

/// The mathematical value of a [`Video`].
pub struct VideoView {
    pub id: u64,
    pub uuid: Seq<char>,
    pub name: Seq<char>,
    pub duration: u64,
    pub views: u64,
    pub nsfw: bool,
    pub is_live: bool,
}

impl View for Video {
    type V = VideoView;

    open spec fn view(&self) -> VideoView {
        VideoView {
            id: self.id,
            uuid: self.uuid@,
            name: self.name@,
            duration: self.duration,
            views: self.views,
            nsfw: self.nsfw,
            is_live: self.is_live,
        }
    }
}

impl Decode for Video {
    /// An object with the members `id`, `uuid`, `name`, `duration`, `views`,
    /// `nsfw` and `isLive`.
    open spec fn spec_from_json(json: JsonValue) -> Option<VideoView> {
        match (
            json.natural("id"@),
            json.text("uuid"@),
            json.text("name"@),
            json.natural("duration"@),
            json.natural("views"@),
            json.flag("nsfw"@),
            json.flag("isLive"@),
        ) {
            (
                Some(id),
                Some(uuid),
                Some(name),
                Some(duration),
                Some(views),
                Some(nsfw),
                Some(is_live),
            ) => Some(VideoView { id, uuid, name, duration, views, nsfw, is_live }),
            _ => None,
        }
    }

    open spec fn spec_from_nothing() -> Option<VideoView> {
        None
    }

    fn from_json(json: &Json) -> (r: Option<Video>) {
        let id = json.natural("id")?;
        let uuid = json.text("uuid")?;
        let name = json.text("name")?;
        let duration = json.natural("duration")?;
        let views = json.natural("views")?;
        let nsfw = json.flag("nsfw")?;
        let is_live = json.flag("isLive")?;
        Some(Video { id, uuid, name, duration, views, nsfw, is_live })
    }

    fn from_nothing() -> (r: Option<Video>) {
        None
    }
}

/// For each URI that was asked about, whether the user is subscribed to it.
#[derive(Debug, PartialEq, Eq)]
pub struct Existence {
    pub entries: Vec<(String, bool)>,
}

/// What `entries` says of `uri`: the last entry for it, if there is one.
pub open spec fn answer_for(entries: Seq<(Seq<char>, bool)>, uri: Seq<char>) -> Option<bool>
    decreases entries.len(),
{
    if entries.len() == 0 {
        None
    } else if entries.last().0 == uri {
        Some(entries.last().1)
    } else {
        answer_for(entries.drop_last(), uri)
    }
}

/// The map that `entries` stands for.
pub open spec fn answers(entries: Seq<(Seq<char>, bool)>) -> Map<Seq<char>, bool> {
    Map::new(
        |uri: Seq<char>| answer_for(entries, uri) is Some,
        |uri: Seq<char>| answer_for(entries, uri).unwrap(),
    )
}

/// Whether every member of an object is `true` or `false`.
pub open spec fn all_flags(members: Seq<(Seq<char>, JsonValue)>) -> bool {
    forall|i: int| 0 <= i < members.len() ==> (#[trigger] members[i]).1 is Bool
}

/// The members of such an object as entries.
pub open spec fn flags_of(members: Seq<(Seq<char>, JsonValue)>) -> Seq<(Seq<char>, bool)> {
    Seq::new(members.len(), |i: int| (members[i].0, members[i].1->Bool_0))
}

impl View for Existence {
    type V = Map<Seq<char>, bool>;

    open spec fn view(&self) -> Map<Seq<char>, bool> {
        answers(self.entries.deep_view())
    }
}

impl Decode for Existence {
    /// An object of which every member is `true` or `false`: each key is a
    /// URI, each value the answer for it.
    open spec fn spec_from_json(json: JsonValue) -> Option<Map<Seq<char>, bool>> {
        match json {
            JsonValue::Object(members) => if all_flags(members) {
                Some(answers(flags_of(members)))
            } else {
                None
            },
            _ => None,
        }
    }

    open spec fn spec_from_nothing() -> Option<Map<Seq<char>, bool>> {
        None
    }

    fn from_json(json: &Json) -> (r: Option<Existence>) {
        match json {
            Json::Object(members) => {
                let ghost all = json@->Object_0;
                let mut entries: Vec<(String, bool)> = Vec::new();
                let mut i: usize = 0;
                while i < members.len()
                    invariant
                        i <= members@.len(),
                        json@ == JsonValue::Object(all),
                        all.len() == members@.len(),
                        forall|j: int|
                            0 <= j < members@.len() ==> all[j] == (
                                members@[j].0@,
                                members@[j].1@,
                            ),
                        entries@.len() == i,
                        forall|j: int|
                            0 <= j < i ==> all[j].1 == JsonValue::Bool((#[trigger] entries@[j]).1)
                                && all[j].0 == entries@[j].0@,
                    decreases members@.len() - i,
                {
                    match &members[i].1 {
                        Json::Bool(b) => {
                            entries.push((members[i].0.clone(), *b));
                        },
                        _ => {
                            assert(!(all[i as int].1 is Bool));
                            return None;
                        },
                    }
                    i += 1;
                }
                let found = Existence { entries };
                proof {
                    assert(all_flags(all)) by {
                        assert forall|j: int| 0 <= j < all.len() implies (#[trigger] all[j]).1 is Bool by {
                            assert(all[j].1 == JsonValue::Bool(entries@[j].1));
                        }
                    }
                    assert(found.entries.deep_view() =~= flags_of(all)) by {
                        assert forall|j: int| 0 <= j < all.len() implies found.entries.deep_view()[j]
                            == flags_of(all)[j] by {
                            assert(all[j].1 == JsonValue::Bool(entries@[j].1));
                        }
                    }
                }
                Some(found)
            },
            _ => None,
        }
    }

    fn from_nothing() -> (r: Option<Existence>) {
        None
    }
}

impl Existence {
    /// The answer for `uri`, if the server gave one.
    pub fn get(&self, uri: &str) -> (r: Option<bool>)
        ensures
            r == if self@.contains_key(uri@) {
                Some(self@[uri@])
            } else {
                None
            },
    {
        let ghost all = self.entries.deep_view();
        let mut i: usize = self.entries.len();
        assert(all.take(i as int) =~= all);
        while i > 0
            invariant
                i <= self.entries@.len(),
                all == self.entries.deep_view(),
                answer_for(all, uri@) == answer_for(all.take(i as int), uri@),
            decreases i,
        {
            i -= 1;
            proof {
                assert(all.take(i + 1).drop_last() =~= all.take(i as int));
                assert(all.take(i + 1).last() == all[i as int]);
            }
            if same_text(self.entries[i].0.as_str(), uri) {
                return Some(self.entries[i].1);
            }
        }
        None
    }
}

/// Every key of the body is a key of what was read from it, with the value
/// that the body gives it last: an URI without a subscription is present with
/// `false`, not left out.
pub proof fn lemma_existence_keeps_every_key(members: Seq<(Seq<char>, JsonValue)>, uri: Seq<char>)
    requires
        all_flags(members),
    ensures
        Existence::spec_from_json(JsonValue::Object(members)) matches Some(found) && (member(
            members,
            uri,
        ) matches Some(value) ==> found.contains_key(uri) && value == JsonValue::Bool(found[uri]))
            && (member(members, uri) is None ==> !found.contains_key(uri)),
{
    lemma_answer_for_follows_member(members, uri);
}

proof fn lemma_answer_for_follows_member(members: Seq<(Seq<char>, JsonValue)>, uri: Seq<char>)
    requires
        all_flags(members),
    ensures
        member(members, uri) is Some == answer_for(flags_of(members), uri) is Some,
        member(members, uri) matches Some(value) ==> value == JsonValue::Bool(
            answer_for(flags_of(members), uri).unwrap(),
        ),
    decreases members.len(),
{
    if members.len() > 0 {
        let rest = members.drop_last();
        assert(all_flags(rest)) by {
            assert forall|i: int| 0 <= i < rest.len() implies (#[trigger] rest[i]).1 is Bool by {
                assert(rest[i] == members[i]);
            }
        }
        lemma_answer_for_follows_member(rest, uri);
        assert(flags_of(members).drop_last() =~= flags_of(rest));
        assert(members.last() == members[members.len() - 1]);
    }
}

} // verus!
