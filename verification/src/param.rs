//! The parameters that the endpoints take, and how each is written into a
//! query string or a body.

use vstd::prelude::*;
use crate::json::{Json, JsonValue};
use crate::query::{
    flag_pair, number_pair, push_flag, push_number, push_pair, push_text, repeated_pairs, text_pair,
    Pairs,
};

verus! {

/// Which page of a list to fetch: how many items, from which offset, in
/// which order. What is left unset is left to the server.
#[derive(Debug)]
pub struct Pagination {
    pub count: Option<u64>,
    pub start: Option<u64>,
    pub sort: Option<String>,
}

impl Default for Pagination {
    fn default() -> (r: Self)
        ensures
            r.count is None,
            r.start is None,
            r.sort is None,
    {
        Pagination { count: None, start: None, sort: None }
    }
}

impl Pagination {
    /// The pairs `count`, `start` and `sort`, each where it is set.
    pub open spec fn spec_query(&self) -> Pairs {
        number_pair("count"@, self.count) + number_pair("start"@, self.start) + text_pair(
            "sort"@,
            match self.sort {
                Some(order) => Some(order@),
                None => None,
            },
        )
    }

    /// Appends the pairs of this pagination.
    pub fn push_onto(&self, pairs: &mut Vec<(String, String)>)
        ensures
            final(pairs).deep_view() == old(pairs).deep_view() + self.spec_query(),
    {
        push_number(pairs, "count", self.count);
        push_number(pairs, "start", self.start);
        push_text(pairs, "sort", &self.sort);
        assert(pairs.deep_view() =~= old(pairs).deep_view() + self.spec_query());
    }

    /// The pairs of these parameters, ready for the query string.
    pub fn to_query(&self) -> (pairs: Vec<(String, String)>)
        ensures
            pairs.deep_view() == self.spec_query(),
    {
        let mut pairs: Vec<(String, String)> = Vec::new();
        self.push_onto(&mut pairs);
        assert(pairs.deep_view() =~= self.spec_query());
        pairs
    }
}

/// A pagination that asks for `n` items says so first: its first pair is
/// `count` with the decimal numeral of `n`.
pub proof fn lemma_count_is_asked_for(pagination: Pagination, n: u64)
    requires
        pagination.count == Some(n),
    ensures
        pagination.spec_query().len() > 0,
        pagination.spec_query()[0] == ("count"@, crate::text::decimal(n as nat)),
{
}

/// Appends one pair per value, all under `key`.
pub fn push_repeated(pairs: &mut Vec<(String, String)>, key: &str, values: &Vec<String>)
    ensures
        final(pairs).deep_view() == old(pairs).deep_view() + repeated_pairs(key@, values.deep_view()),
{
    let mut i: usize = 0;
    assert(old(pairs).deep_view() + repeated_pairs(key@, values.deep_view().take(0))
        =~= old(pairs).deep_view());
    while i < values.len()
        invariant
            i <= values@.len(),
            pairs.deep_view() == old(pairs).deep_view() + repeated_pairs(
                key@,
                values.deep_view().take(i as int),
            ),
        decreases values@.len() - i,
    {
        push_pair(pairs, key, values[i].as_str());
        i += 1;
        assert(pairs.deep_view() =~= old(pairs).deep_view() + repeated_pairs(
            key@,
            values.deep_view().take(i as int),
        ));
    }
    assert(values.deep_view().take(i as int) =~= values.deep_view());
}

/// Which videos of a list to fetch.
#[derive(Debug)]
pub struct Videos {
    pub pagination: Pagination,
    pub nsfw: Option<bool>,
    pub is_live: Option<bool>,
    pub tags_one_of: Vec<String>,
}

impl Default for Videos {
    fn default() -> (r: Self)
        ensures
            r.pagination.count is None,
            r.pagination.start is None,
            r.pagination.sort is None,
            r.nsfw is None,
            r.is_live is None,
            r.tags_one_of@.len() == 0,
    {
        Videos { pagination: Pagination::default(), nsfw: None, is_live: None, tags_one_of: Vec::new() }
    }
}

impl Videos {
    /// The pairs of the pagination, then `nsfw` and `isLive` where they are
    /// set, then one `tagsOneOf` per tag.
    pub open spec fn spec_query(&self) -> Pairs {
        self.pagination.spec_query() + flag_pair("nsfw"@, self.nsfw) + flag_pair(
            "isLive"@,
            self.is_live,
        ) + repeated_pairs("tagsOneOf"@, self.tags_one_of.deep_view())
    }

    /// The pairs of these parameters, ready for the query string.
    pub fn to_query(&self) -> (pairs: Vec<(String, String)>)
        ensures
            pairs.deep_view() == self.spec_query(),
    {
        let mut pairs: Vec<(String, String)> = Vec::new();
        self.pagination.push_onto(&mut pairs);
        push_flag(&mut pairs, "nsfw", self.nsfw);
        push_flag(&mut pairs, "isLive", self.is_live);
        push_repeated(&mut pairs, "tagsOneOf", &self.tags_one_of);
        assert(pairs.deep_view() =~= self.spec_query());
        pairs
    }
}

/// Which channels of a list to fetch.
#[derive(Debug)]
pub struct Channels {
    pub pagination: Pagination,
    pub with_stats: Option<bool>,
}

impl Default for Channels {
    fn default() -> (r: Self)
        ensures
            r.pagination.count is None,
            r.pagination.start is None,
            r.pagination.sort is None,
            r.with_stats is None,
    {
        Channels { pagination: Pagination::default(), with_stats: None }
    }
}

impl Channels {
    /// The pairs of the pagination, then `withStats` where it is set.
    pub open spec fn spec_query(&self) -> Pairs {
        self.pagination.spec_query() + flag_pair("withStats"@, self.with_stats)
    }

    /// The pairs of these parameters, ready for the query string.
    pub fn to_query(&self) -> (pairs: Vec<(String, String)>)
        ensures
            pairs.deep_view() == self.spec_query(),
    {
        let mut pairs: Vec<(String, String)> = Vec::new();
        self.pagination.push_onto(&mut pairs);
        push_flag(&mut pairs, "withStats", self.with_stats);
        assert(pairs.deep_view() =~= self.spec_query());
        pairs
    }
}

/// A rating that a user gave to a video.
#[derive(Clone, Copy, Debug, PartialEq, Eq, Structural)]
pub enum Rating {
    Like,
    Dislike,
}

impl Rating {
    /// The rating as the server writes it.
    pub open spec fn spec_name(&self) -> Seq<char> {
        match self {
            Rating::Like => "like"@,
            Rating::Dislike => "dislike"@,
        }
    }

    /// The rating as the server writes it.
    pub fn name(&self) -> (r: &'static str)
        ensures
            r@ == self.spec_name(),
    {
        match self {
            Rating::Like => "like",
            Rating::Dislike => "dislike",
        }
    }
}

/// Which ratings of a list to fetch.
#[derive(Debug)]
pub struct Ratings {
    pub pagination: Pagination,
    pub rating: Option<Rating>,
}

impl Default for Ratings {
    fn default() -> (r: Self)
        ensures
            r.pagination.count is None,
            r.pagination.start is None,
            r.pagination.sort is None,
            r.rating is None,
    {
        Ratings { pagination: Pagination::default(), rating: None }
    }
}

impl Ratings {
    /// The pairs of the pagination, then `rating` where it is set.
    pub open spec fn spec_query(&self) -> Pairs {
        self.pagination.spec_query() + text_pair(
            "rating"@,
            match self.rating {
                Some(rating) => Some(rating.spec_name()),
                None => None,
            },
        )
    }

    /// The pairs of these parameters, ready for the query string.
    pub fn to_query(&self) -> (pairs: Vec<(String, String)>)
        ensures
            pairs.deep_view() == self.spec_query(),
    {
        let mut pairs: Vec<(String, String)> = Vec::new();
        self.pagination.push_onto(&mut pairs);
        match self.rating {
            Some(rating) => {
                push_pair(&mut pairs, "rating", rating.name());
            },
            None => {},
        }
        assert(pairs.deep_view() =~= self.spec_query());
        pairs
    }
}

/// The body that asks for a subscription.
#[derive(Debug)]
pub struct Subscription {
    pub uri: String,
}

impl Subscription {
    /// An object with the one member `uri`.
    pub open spec fn spec_json(&self) -> JsonValue {
        JsonValue::Object(seq![("uri"@, JsonValue::Text(self.uri@))])
    }

    /// The body as a JSON value.
    pub fn to_json(&self) -> (body: Json)
        ensures
            body@ == self.spec_json(),
    {
        let mut members: Vec<(String, Json)> = Vec::new();
        members.push(("uri".to_owned(), Json::Text(self.uri.clone())));
        assert(members@[0].1@ == JsonValue::Text(self.uri@));
        let body = Json::Object(members);
        assert(body@->Object_0 =~= seq![("uri"@, JsonValue::Text(self.uri@))]);
        body
    }
}

} // verus!
