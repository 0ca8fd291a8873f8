//! The query string of a URL: key/value pairs in the
//! `application/x-www-form-urlencoded` form.

use vstd::prelude::*;
use crate::percent::{
    escape, is_safe, lemma_escape_is_injective, lemma_escape_is_safe, push_escaped, Place,
};
use crate::text::{decimal, decimal_string};

verus! {

/// A list of key/value pairs, by their contents.
pub type Pairs = Seq<(Seq<char>, Seq<char>)>;

/// One `key=value` pair.
pub open spec fn pair_string(pair: (Seq<char>, Seq<char>)) -> Seq<char> {
    escape(Place::Query, pair.0) + seq!['='] + escape(Place::Query, pair.1)
}

/// The pairs in their order, joined by `&`. A key may occur more than once.
pub open spec fn query_string(pairs: Pairs) -> Seq<char>
    decreases pairs.len(),
{
    if pairs.len() == 0 {
        Seq::empty()
    } else if pairs.len() == 1 {
        pair_string(pairs[0])
    } else {
        query_string(pairs.drop_last()) + seq!['&'] + pair_string(pairs.last())
    }
}

/// Appends the query string of `pairs` to `out`.
pub fn push_query(out: &mut String, pairs: &Vec<(String, String)>)
    ensures
        final(out)@ == old(out)@ + query_string(pairs.deep_view()),
{
    let mut i: usize = 0;
    while i < pairs.len()
        invariant
            i <= pairs@.len(),
            out@ == old(out)@ + query_string(pairs.deep_view().take(i as int)),
        decreases pairs@.len() - i,
    {
        proof {
            let all = pairs.deep_view();
            assert(all.take(i + 1).drop_last() =~= all.take(i as int));
            assert(all.take(i + 1).last() == (pairs@[i as int].0@, pairs@[i as int].1@));
        }
        if i > 0 {
            out.push('&');
        }
        push_escaped(out, Place::Query, pairs[i].0.as_str());
        out.push('=');
        push_escaped(out, Place::Query, pairs[i].1.as_str());
        i += 1;
    }
    proof {
        assert(pairs.deep_view().take(i as int) =~= pairs.deep_view());
    }
}

/// The pair for a text parameter, where it is set.
pub open spec fn text_pair(key: Seq<char>, value: Option<Seq<char>>) -> Pairs {
    match value {
        Some(text) => seq![(key, text)],
        None => Seq::empty(),
    }
}

/// The pair for a number parameter, where it is set: its decimal numeral.
pub open spec fn number_pair(key: Seq<char>, value: Option<u64>) -> Pairs {
    match value {
        Some(n) => seq![(key, decimal(n as nat))],
        None => Seq::empty(),
    }
}

/// The pair for a yes/no parameter, where it is set: `true` or `false`.
pub open spec fn flag_pair(key: Seq<char>, value: Option<bool>) -> Pairs {
    match value {
        Some(b) => seq![(key, if b { "true"@ } else { "false"@ })],
        None => Seq::empty(),
    }
}

/// One pair per value, all under the same key, in the order of the values.
pub open spec fn repeated_pairs(key: Seq<char>, values: Seq<Seq<char>>) -> Pairs {
    Seq::new(values.len(), |i: int| (key, values[i]))
}

/// Appends one pair.
pub fn push_pair(pairs: &mut Vec<(String, String)>, key: &str, value: &str)
    ensures
        final(pairs).deep_view() == old(pairs).deep_view().push((key@, value@)),
{
    pairs.push((key.to_owned(), value.to_owned()));
    assert(pairs.deep_view() =~= old(pairs).deep_view().push((key@, value@)));
}

/// Appends the pair for a text parameter.
pub fn push_text(pairs: &mut Vec<(String, String)>, key: &str, value: &Option<String>)
    ensures
        final(pairs).deep_view() == old(pairs).deep_view() + text_pair(
            key@,
            match value {
                Some(text) => Some(text@),
                None => None,
            },
        ),
{
    match value {
        Some(text) => {
            push_pair(pairs, key, text.as_str());
            assert(old(pairs).deep_view().push((key@, text@)) =~= old(pairs).deep_view() + seq![
                (key@, text@),
            ]);
        },
        None => {
            assert(old(pairs).deep_view() + Seq::empty() =~= old(pairs).deep_view());
        },
    }
}

/// Appends the pair for a number parameter.
pub fn push_number(pairs: &mut Vec<(String, String)>, key: &str, value: Option<u64>)
    ensures
        final(pairs).deep_view() == old(pairs).deep_view() + number_pair(key@, value),
{
    match value {
        Some(n) => {
            let numeral = decimal_string(n);
            push_pair(pairs, key, numeral.as_str());
            assert(old(pairs).deep_view().push((key@, numeral@)) =~= old(pairs).deep_view() + seq![
                (key@, numeral@),
            ]);
        },
        None => {
            assert(old(pairs).deep_view() + Seq::empty() =~= old(pairs).deep_view());
        },
    }
}

/// Appends the pair for a yes/no parameter.
pub fn push_flag(pairs: &mut Vec<(String, String)>, key: &str, value: Option<bool>)
    ensures
        final(pairs).deep_view() == old(pairs).deep_view() + flag_pair(key@, value),
{
    match value {
        Some(b) => {
            let word = if b {
                "true"
            } else {
                "false"
            };
            push_pair(pairs, key, word);
            assert(old(pairs).deep_view().push((key@, word@)) =~= old(pairs).deep_view() + seq![
                (key@, word@),
            ]);
        },
        None => {
            assert(old(pairs).deep_view() + Seq::empty() =~= old(pairs).deep_view());
        },
    }
}

proof fn lemma_pair_string_shape(pair: (Seq<char>, Seq<char>))
    ensures
        pair_string(pair).contains('='),
        !pair_string(pair).contains('&'),
        !escape(Place::Query, pair.0).contains('='),
        !escape(Place::Query, pair.1).contains('='),
{
    let k = escape(Place::Query, pair.0);
    let v = escape(Place::Query, pair.1);
    let s = pair_string(pair);
    lemma_escape_is_safe(Place::Query, pair.0);
    lemma_escape_is_safe(Place::Query, pair.1);
    assert(s[k.len() as int] == '=');
    assert forall|i: int| 0 <= i < s.len() implies s[i] != '&' by {
        if i < k.len() {
            assert(is_safe(k[i]));
        } else if i > k.len() {
            assert(s[i] == v[i - k.len() - 1]);
            assert(is_safe(v[i - k.len() - 1]));
        }
    }
    assert forall|i: int| 0 <= i < k.len() implies k[i] != '=' by {
        assert(is_safe(k[i]));
    }
    assert forall|i: int| 0 <= i < v.len() implies v[i] != '=' by {
        assert(is_safe(v[i]));
    }
}

proof fn lemma_query_string_shape(pairs: Pairs)
    ensures
        pairs.len() == 0 ==> query_string(pairs).len() == 0,
        pairs.len() >= 1 ==> query_string(pairs).contains('='),
        pairs.len() == 1 ==> !query_string(pairs).contains('&'),
        pairs.len() >= 2 ==> query_string(pairs).contains('&'),
{
    if pairs.len() == 1 {
        lemma_pair_string_shape(pairs[0]);
    } else if pairs.len() >= 2 {
        let head = query_string(pairs.drop_last());
        let tail = pair_string(pairs.last());
        let s = query_string(pairs);
        lemma_pair_string_shape(pairs.last());
        assert(s[head.len() as int] == '&');
        let i = choose|i: int| 0 <= i < tail.len() && tail[i] == '=';
        assert(s[head.len() + 1 + i] == '=');
    }
}

/// Two texts that were cut in the same way at their first `c` agree on both
/// sides of it.
proof fn lemma_cut_at_first(x1: Seq<char>, y1: Seq<char>, x2: Seq<char>, y2: Seq<char>, c: char)
    requires
        x1 + seq![c] + y1 == x2 + seq![c] + y2,
        !x1.contains(c),
        !x2.contains(c),
    ensures
        x1 == x2,
        y1 == y2,
{
    let s1 = x1 + seq![c] + y1;
    let s2 = x2 + seq![c] + y2;
    assert(s1.len() == s2.len());
    if x1.len() < x2.len() {
        assert(s1[x1.len() as int] == c);
        assert(s2[x1.len() as int] == x2[x1.len() as int]);
        assert(x2.contains(c));
    }
    if x2.len() < x1.len() {
        assert(s2[x2.len() as int] == c);
        assert(s1[x2.len() as int] == x1[x2.len() as int]);
        assert(x1.contains(c));
    }
    assert(x1 =~= s1.subrange(0, x1.len() as int));
    assert(x2 =~= s2.subrange(0, x2.len() as int));
    assert(y1 =~= s1.subrange(x1.len() as int + 1, s1.len() as int));
    assert(y2 =~= s2.subrange(x2.len() as int + 1, s2.len() as int));
}

/// Two texts that were cut in the same way at their last `c` agree on both
/// sides of it.
proof fn lemma_cut_at_last(x1: Seq<char>, y1: Seq<char>, x2: Seq<char>, y2: Seq<char>, c: char)
    requires
        x1 + seq![c] + y1 == x2 + seq![c] + y2,
        !y1.contains(c),
        !y2.contains(c),
    ensures
        x1 == x2,
        y1 == y2,
{
    let s1 = x1 + seq![c] + y1;
    let s2 = x2 + seq![c] + y2;
    assert(s1.len() == s2.len());
    if x1.len() < x2.len() {
        assert(s2[x2.len() as int] == c);
        assert(s1[x2.len() as int] == y1[x2.len() - x1.len() - 1]);
        assert(y1.contains(c));
    }
    if x2.len() < x1.len() {
        assert(s1[x1.len() as int] == c);
        assert(s2[x1.len() as int] == y2[x1.len() - x2.len() - 1]);
        assert(y2.contains(c));
    }
    assert(x1 =~= s1.subrange(0, x1.len() as int));
    assert(x2 =~= s2.subrange(0, x2.len() as int));
    assert(y1 =~= s1.subrange(x1.len() as int + 1, s1.len() as int));
    assert(y2 =~= s2.subrange(x2.len() as int + 1, s2.len() as int));
}

proof fn lemma_pair_string_is_injective(a: (Seq<char>, Seq<char>), b: (Seq<char>, Seq<char>))
    requires
        pair_string(a) == pair_string(b),
    ensures
        a == b,
{
    lemma_pair_string_shape(a);
    lemma_pair_string_shape(b);
    lemma_cut_at_first(
        escape(Place::Query, a.0),
        escape(Place::Query, a.1),
        escape(Place::Query, b.0),
        escape(Place::Query, b.1),
        '=',
    );
    lemma_escape_is_injective(Place::Query, a.0, b.0);
    lemma_escape_is_injective(Place::Query, a.1, b.1);
}

/// A query string stands for one list of pairs only: their number, their
/// order, their keys and their values, repeated keys included, can be told
/// from it, whatever characters the keys and values hold.
pub proof fn lemma_query_string_is_injective(a: Pairs, b: Pairs)
    requires
        query_string(a) == query_string(b),
    ensures
        a == b,
    decreases a.len(),
{
    lemma_query_string_shape(a);
    lemma_query_string_shape(b);
    if a.len() == 0 {
        assert(b.len() == 0);
        assert(a =~= b);
    } else if a.len() == 1 {
        assert(b.len() == 1);
        lemma_pair_string_is_injective(a[0], b[0]);
        assert(a =~= b);
    } else {
        assert(b.len() >= 2);
        lemma_pair_string_shape(a.last());
        lemma_pair_string_shape(b.last());
        lemma_cut_at_last(
            query_string(a.drop_last()),
            pair_string(a.last()),
            query_string(b.drop_last()),
            pair_string(b.last()),
            '&',
        );
        lemma_pair_string_is_injective(a.last(), b.last());
        lemma_query_string_is_injective(a.drop_last(), b.drop_last());
        assert(a =~= a.drop_last().push(a.last()));
        assert(b =~= b.drop_last().push(b.last()));
    }
}

} // verus!
