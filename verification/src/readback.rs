//! What the library writes as JSON, it reads back as the same value.

use vstd::prelude::*;
use crate::json::JsonValue;
use crate::parse::{
    depth_limit, digits_end, digits_value, hex4, hex_value, is_digit, items_from, literal_at,
    members_from, number_at, parsed, skip_space, string_from, unicode_at, value_at,
};
use crate::render::{
    escape_char, escape_chars, lower_hex, quoted, render, render_items, render_member,
    render_members,
};
use crate::text::{decimal, digit, signed_decimal};

verus! {

/// Whether `text` stands in `s` from position `i` on.
pub open spec fn stands_at(s: Seq<char>, i: int, text: Seq<char>) -> bool {
    0 <= i && i + text.len() <= s.len() && s.subrange(i, i + text.len()) == text
}

proof fn lemma_stands_at_index(s: Seq<char>, i: int, text: Seq<char>, k: int)
    requires
        stands_at(s, i, text),
        0 <= k < text.len(),
    ensures
        s[i + k] == text[k],
{
    assert(s.subrange(i, i + text.len())[k] == s[i + k]);
}

proof fn lemma_stands_at_split(s: Seq<char>, i: int, a: Seq<char>, b: Seq<char>)
    requires
        stands_at(s, i, a + b),
    ensures
        stands_at(s, i, a),
        stands_at(s, i + a.len(), b),
{
    let whole = s.subrange(i, i + (a + b).len());
    assert(s.subrange(i, i + a.len()) =~= whole.subrange(0, a.len() as int));
    assert((a + b).subrange(0, a.len() as int) =~= a);
    assert(s.subrange(i + a.len(), i + a.len() + b.len()) =~= whole.subrange(
        a.len() as int,
        (a + b).len() as int,
    ));
    assert((a + b).subrange(a.len() as int, (a + b).len() as int) =~= b);
}

proof fn lemma_escape_chars_front(c: char, rest: Seq<char>)
    ensures
        escape_chars(seq![c] + rest) == escape_char(c) + escape_chars(rest),
    decreases rest.len(),
{
    let whole = seq![c] + rest;
    if rest.len() == 0 {
        assert(whole.drop_last() =~= Seq::<char>::empty());
        assert(escape_chars(whole.drop_last()) =~= Seq::<char>::empty());
        assert(escape_chars(whole) =~= escape_char(c) + escape_chars(rest));
    } else {
        assert(whole.drop_last() =~= seq![c] + rest.drop_last());
        assert(whole.last() == rest.last());
        lemma_escape_chars_front(c, rest.drop_last());
        assert(escape_chars(whole) =~= escape_char(c) + escape_chars(rest));
    }
}

proof fn lemma_lower_hex_reads_back(d: int)
    requires
        0 <= d < 16,
    ensures
        hex_value(lower_hex(d)) == Some(d),
{
}

/// Reading goes over the escaped form of one character as over the character
/// itself.
proof fn lemma_escaped_char_reads_back(s: Seq<char>, i: int, c: char, done: Seq<char>)
    requires
        stands_at(s, i, escape_char(c)),
    ensures
        string_from(s, i, done) == string_from(s, i + escape_char(c).len(), done.push(c)),
{
    let e = escape_char(c);
    lemma_stands_at_index(s, i, e, 0);
    if e.len() >= 2 {
        lemma_stands_at_index(s, i, e, 1);
    }
    if e.len() == 6 {
        lemma_stands_at_index(s, i, e, 2);
        lemma_stands_at_index(s, i, e, 3);
        lemma_stands_at_index(s, i, e, 4);
        lemma_stands_at_index(s, i, e, 5);
        let n = c as u32 as int;
        lemma_lower_hex_reads_back(n / 16);
        lemma_lower_hex_reads_back(n % 16);
        assert(hex4(s, i + 2) == Some(n));
        assert(unicode_at(s, i + 2) == Some((c, i + 6)));
    }
}

/// Reading a string goes over the escaped form of `text` and ends behind the
/// quotation mark with `text` added to what was read before.
proof fn lemma_string_reads_back(s: Seq<char>, i: int, text: Seq<char>, done: Seq<char>)
    requires
        stands_at(s, i, escape_chars(text) + seq!['"']),
    ensures
        string_from(s, i, done) == Some((done + text, i + escape_chars(text).len() + 1)),
    decreases text.len(),
{
    if text.len() == 0 {
        lemma_stands_at_index(s, i, escape_chars(text) + seq!['"'], 0);
        assert(done + text =~= done);
    } else {
        let c = text[0];
        let rest = text.drop_first();
        assert(text =~= seq![c] + rest);
        lemma_escape_chars_front(c, rest);
        assert(escape_chars(text) + seq!['"'] =~= escape_char(c) + (escape_chars(rest) + seq!['"']));
        lemma_stands_at_split(s, i, escape_char(c), escape_chars(rest) + seq!['"']);
        lemma_escaped_char_reads_back(s, i, c, done);
        lemma_string_reads_back(s, i + escape_char(c).len(), rest, done.push(c));
        assert(done.push(c) + rest =~= done + text);
    }
}

/// Whether a number that ends before position `j` can end there: nothing
/// follows that would belong to it.
pub open spec fn ends_number(s: Seq<char>, j: int) -> bool {
    j == s.len() || (0 <= j < s.len() && !is_digit(s[j]) && s[j] != '.' && s[j] != 'e' && s[j]
        != 'E')
}

proof fn lemma_decimal_is_digits(n: nat)
    ensures
        decimal(n).len() > 0,
        forall|k: int| 0 <= k < decimal(n).len() ==> is_digit(#[trigger] decimal(n)[k]),
        n < 10 ==> decimal(n).len() == 1,
        n >= 10 ==> decimal(n).len() >= 2 && decimal(n)[0] != '0',
        n > 0 ==> decimal(n)[0] != '0',
    decreases n,
{
    if n >= 10 {
        lemma_decimal_is_digits(n / 10);
        let head = decimal(n / 10);
        assert forall|k: int| 0 <= k < decimal(n).len() implies is_digit(
            #[trigger] decimal(n)[k],
        ) by {
            if k < head.len() {
                assert(decimal(n)[k] == head[k]);
            }
        }
        assert(decimal(n)[0] == head[0]);
    }
}

proof fn lemma_digits_end_of_run(s: Seq<char>, i: int, j: int)
    requires
        0 <= i <= j <= s.len(),
        forall|k: int| i <= k < j ==> is_digit(#[trigger] s[k]),
        j == s.len() || !is_digit(s[j]),
    ensures
        digits_end(s, i) == j,
    decreases j - i,
{
    if i < j {
        assert(is_digit(s[i]));
        lemma_digits_end_of_run(s, i + 1, j);
    }
}

proof fn lemma_digits_value_of_decimal(s: Seq<char>, i: int, n: nat)
    requires
        stands_at(s, i, decimal(n)),
    ensures
        digits_value(s, i, i + decimal(n).len()) == n,
    decreases n,
{
    let text = decimal(n);
    let j = i + text.len();
    lemma_stands_at_index(s, i, text, text.len() - 1);
    if n < 10 {
        assert(digits_value(s, i, j - 1) == 0);
    } else {
        let head = decimal(n / 10);
        assert(text =~= head + seq![digit((n % 10) as int)]);
        lemma_stands_at_split(s, i, head, seq![digit((n % 10) as int)]);
        lemma_digits_value_of_decimal(s, i, n / 10);
    }
}

/// The numeral of an integer that a 64-bit signed integer can hold reads
/// back as that integer.
proof fn lemma_integer_reads_back(s: Seq<char>, i: int, n: int)
    requires
        i64::MIN <= n <= i64::MAX,
        stands_at(s, i, signed_decimal(n)),
        ends_number(s, i + signed_decimal(n).len()),
    ensures
        number_at(s, i) == Some((JsonValue::Integer(n), i + signed_decimal(n).len())),
{
    let magnitude: nat = if n < 0 {
        (-n) as nat
    } else {
        n as nat
    };
    let text = decimal(magnitude);
    lemma_decimal_is_digits(magnitude);
    let a = if n < 0 {
        i + 1
    } else {
        i
    };
    let b = a + text.len();
    if n < 0 {
        lemma_stands_at_split(s, i, seq!['-'], text);
        lemma_stands_at_index(s, i, seq!['-'], 0);
    } else {
        lemma_stands_at_index(s, i, text, 0);
    }
    assert(stands_at(s, a, text));
    assert forall|k: int| a <= k < b implies is_digit(#[trigger] s[k]) by {
        lemma_stands_at_index(s, a, text, k - a);
    }
    lemma_digits_end_of_run(s, a, b);
    lemma_digits_value_of_decimal(s, a, magnitude);
    lemma_stands_at_index(s, a, text, 0);
}

/// The values that the library writes and reads back unchanged: no number
/// kept as text, every integer within 64 bits, and arrays and objects at most
/// `depth` deep inside each other.
pub open spec fn writable(value: JsonValue, depth: nat) -> bool
    decreases value,
{
    match value {
        JsonValue::Null => true,
        JsonValue::Bool(_) => true,
        JsonValue::Integer(n) => i64::MIN <= n <= i64::MAX,
        JsonValue::Real(_) => false,
        JsonValue::Text(_) => true,
        JsonValue::Array(items) => depth > 0 && forall|k: int|
            0 <= k < items.len() ==> writable(#[trigger] items[k], (depth - 1) as nat),
        JsonValue::Object(members) => depth > 0 && forall|k: int|
            0 <= k < members.len() ==> writable((#[trigger] members[k]).1, (depth - 1) as nat),
    }
}

/// Whether a value that ends before position `j` can end there: the text
/// ends, or a comma or a closing bracket or brace follows.
pub open spec fn ends_value(s: Seq<char>, j: int) -> bool {
    j == s.len() || (0 <= j < s.len() && (s[j] == ',' || s[j] == ']' || s[j] == '}'))
}

/// The characters that the text of a value can begin with.
pub open spec fn starts_value(c: char) -> bool {
    c == 'n' || c == 't' || c == 'f' || c == '"' || c == '[' || c == '{' || c == '-' || is_digit(c)
}

proof fn lemma_first_char(value: JsonValue)
    requires
        !(value is Real),
    ensures
        render(value).len() > 0,
        starts_value(render(value)[0]),
{
    reveal_strlit("null");
    reveal_strlit("true");
    reveal_strlit("false");
    match value {
        JsonValue::Integer(n) => {
            if n < 0 {
                lemma_decimal_is_digits((-n) as nat);
            } else {
                lemma_decimal_is_digits(n as nat);
            }
        },
        _ => {},
    }
}

proof fn lemma_render_items_first(items: Seq<JsonValue>, n: nat)
    requires
        1 <= n <= items.len(),
        !(items[0] is Real),
    ensures
        render_items(items, n).len() > 0,
        render_items(items, n)[0] == render(items[0])[0],
    decreases n,
{
    lemma_first_char(items[0]);
    if n > 1 {
        lemma_render_items_first(items, (n - 1) as nat);
    }
}

proof fn lemma_render_members_first(members: Seq<(Seq<char>, JsonValue)>, n: nat)
    requires
        1 <= n <= members.len(),
    ensures
        render_members(members, n).len() > 0,
        render_members(members, n)[0] == '"',
    decreases n,
{
    assert(render_member(members, 0) =~= seq!['"'] + (escape_chars(members[0].0) + seq!['"'] + seq![
        ':',
    ] + render(members[0].1)));
    if n > 1 {
        lemma_render_members_first(members, (n - 1) as nat);
    }
}

proof fn lemma_literal_reads_back(s: Seq<char>, i: int, value: JsonValue, depth: nat)
    requires
        value is Null || value is Bool,
        stands_at(s, i, render(value)),
    ensures
        value_at(s, i, depth) == Some((value, i + render(value).len())),
{
    let text = render(value);
    reveal_strlit("null");
    reveal_strlit("true");
    reveal_strlit("false");
    lemma_stands_at_index(s, i, text, 0);
    lemma_stands_at_index(s, i, text, 1);
    lemma_stands_at_index(s, i, text, 2);
    lemma_stands_at_index(s, i, text, 3);
    if text.len() == 5 {
        lemma_stands_at_index(s, i, text, 4);
    }
    assert(literal_at(s, i) == Some((value, i + text.len())));
}

/// Reading goes over the text of one member and has then read it; what
/// follows decides whether the object goes on or ends.
proof fn lemma_member_reads_back(
    s: Seq<char>,
    at: int,
    key: Seq<char>,
    value: JsonValue,
    depth: nat,
    done: Seq<(Seq<char>, JsonValue)>,
)
    requires
        writable(value, depth),
        stands_at(s, at, quoted(key) + seq![':'] + render(value)),
        at + (quoted(key) + seq![':'] + render(value)).len() < s.len(),
        s[at + (quoted(key) + seq![':'] + render(value)).len()] == ',' || s[at + (quoted(key)
            + seq![':'] + render(value)).len()] == '}',
    ensures
        members_from(s, at, depth, done) == (if s[at + (quoted(key) + seq![':'] + render(
            value,
        )).len()] == ',' {
            members_from(
                s,
                at + (quoted(key) + seq![':'] + render(value)).len() + 1,
                depth,
                done.push((key, value)),
            )
        } else {
            Some(
                (
                    done.push((key, value)),
                    at + (quoted(key) + seq![':'] + render(value)).len() + 1,
                ),
            )
        }),
    decreases value, 1nat,
{
    let text = render(value);
    let name = escape_chars(key) + seq!['"'];
    let colon = at + 1 + name.len();
    lemma_first_char(value);
    assert(quoted(key) + seq![':'] + text =~= seq!['"'] + (name + (seq![':'] + text)));
    lemma_stands_at_split(s, at, seq!['"'], name + (seq![':'] + text));
    lemma_stands_at_split(s, at + 1, name, seq![':'] + text);
    lemma_stands_at_split(s, colon, seq![':'], text);
    lemma_stands_at_index(s, at, seq!['"'], 0);
    lemma_stands_at_index(s, colon, seq![':'], 0);
    lemma_stands_at_index(s, colon + 1, text, 0);
    assert(skip_space(s, at) == at);
    lemma_string_reads_back(s, at + 1, key, Seq::empty());
    assert(Seq::<char>::empty() + key =~= key);
    assert(skip_space(s, colon) == colon);
    assert(skip_space(s, colon + 1) == colon + 1);
    lemma_value_reads_back(s, colon + 1, value, depth);
    assert(skip_space(s, colon + 1 + text.len()) == colon + 1 + text.len());
}

/// The text of a writable value reads back as that value, wherever it stands
/// and whatever is read around it.
proof fn lemma_value_reads_back(s: Seq<char>, i: int, value: JsonValue, depth: nat)
    requires
        writable(value, depth),
        stands_at(s, i, render(value)),
        ends_value(s, i + render(value).len()),
    ensures
        value_at(s, i, depth) == Some((value, i + render(value).len())),
    decreases value, 0nat,
{
    let text = render(value);
    lemma_first_char(value);
    lemma_stands_at_index(s, i, text, 0);
    match value {
        JsonValue::Null => {
            lemma_literal_reads_back(s, i, value, depth);
        },
        JsonValue::Bool(b) => {
            lemma_literal_reads_back(s, i, value, depth);
        },
        JsonValue::Integer(n) => {
            lemma_integer_reads_back(s, i, n);
        },
        JsonValue::Real(_) => {},
        JsonValue::Text(t) => {
            assert(text =~= seq!['"'] + (escape_chars(t) + seq!['"']));
            lemma_stands_at_split(s, i, seq!['"'], escape_chars(t) + seq!['"']);
            lemma_string_reads_back(s, i + 1, t, Seq::empty());
            assert(Seq::<char>::empty() + t =~= t);
        },
        JsonValue::Array(items) => {
            let inner = render_items(items, items.len());
            assert(text =~= seq!['['] + (inner + seq![']']));
            lemma_stands_at_split(s, i, seq!['['], inner + seq![']']);
            lemma_stands_at_split(s, i + 1, inner, seq![']']);
            lemma_stands_at_index(s, i + 1 + inner.len(), seq![']'], 0);
            if items.len() == 0 {
                assert(items =~= Seq::<JsonValue>::empty());
                assert(skip_space(s, i + 1) == i + 1);
                } else {
                assert(writable(items[0], (depth - 1) as nat));
                lemma_first_char(items[0]);
                lemma_render_items_first(items, items.len());
                lemma_stands_at_index(s, i + 1, inner, 0);
                lemma_items_read_back(
                    s,
                    i + 1,
                    items,
                    items.len(),
                    (depth - 1) as nat,
                    Seq::empty(),
                );
                assert(Seq::<JsonValue>::empty() + items =~= items);
                assert(skip_space(s, i + 1) == i + 1);
                }
        },
        JsonValue::Object(members) => {
            let inner = render_members(members, members.len());
            assert(text =~= seq!['{'] + (inner + seq!['}']));
            lemma_stands_at_split(s, i, seq!['{'], inner + seq!['}']);
            lemma_stands_at_split(s, i + 1, inner, seq!['}']);
            lemma_stands_at_index(s, i + 1 + inner.len(), seq!['}'], 0);
            if members.len() == 0 {
                assert(members =~= Seq::<(Seq<char>, JsonValue)>::empty());
                assert(skip_space(s, i + 1) == i + 1);
                } else {
                lemma_render_members_first(members, members.len());
                lemma_stands_at_index(s, i + 1, inner, 0);
                lemma_members_read_back(
                    s,
                    i + 1,
                    members,
                    members.len(),
                    (depth - 1) as nat,
                    Seq::empty(),
                );
                assert(Seq::<(Seq<char>, JsonValue)>::empty() + members =~= members);
                assert(skip_space(s, i + 1) == i + 1);
                }
        },
    }
}

/// Reading an array goes over the text of its first `n` items and has then
/// read these items, in their order.
proof fn lemma_items_read_back(
    s: Seq<char>,
    start: int,
    items: Seq<JsonValue>,
    n: nat,
    depth: nat,
    done: Seq<JsonValue>,
)
    requires
        1 <= n <= items.len(),
        forall|k: int| 0 <= k < items.len() ==> writable(#[trigger] items[k], depth),
        stands_at(s, start, render_items(items, n)),
        start + render_items(items, n).len() < s.len(),
        s[start + render_items(items, n).len()] == (if n == items.len() {
            ']'
        } else {
            ','
        }),
    ensures
        items_from(s, start, depth, done) == (if n == items.len() {
            Some((done + items, start + render_items(items, n).len() + 1))
        } else {
            items_from(
                s,
                start + render_items(items, n).len() + 1,
                depth,
                done + items.take(n as int),
            )
        }),
    decreases items, n,
{
    let item = items[n - 1];
    let text = render(item);
    assert(writable(item, depth));
    lemma_first_char(item);
    let head = if n == 1 {
        Seq::<char>::empty()
    } else {
        render_items(items, (n - 1) as nat) + seq![',']
    };
    let at = start + head.len();
    assert(render_items(items, n) =~= head + text);
    lemma_stands_at_split(s, start, head, text);
    lemma_stands_at_index(s, at, text, 0);
    lemma_value_reads_back(s, at, item, depth);
    assert((done + items.take(n - 1)).push(item) =~= done + items.take(n as int));
    assert(items.take(items.len() as int) =~= items);
    if n == 1 {
        assert(done + items.take(0) =~= done);
    } else {
        let before = render_items(items, (n - 1) as nat);
        lemma_stands_at_split(s, start, before, seq![',']);
        lemma_stands_at_index(s, start + before.len(), seq![','], 0);
        lemma_items_read_back(s, start, items, (n - 1) as nat, depth, done);
    }
}

/// Reading an object goes over the text of its first `n` members and has
/// then read these members, in their order.
proof fn lemma_members_read_back(
    s: Seq<char>,
    start: int,
    members: Seq<(Seq<char>, JsonValue)>,
    n: nat,
    depth: nat,
    done: Seq<(Seq<char>, JsonValue)>,
)
    requires
        1 <= n <= members.len(),
        forall|k: int| 0 <= k < members.len() ==> writable((#[trigger] members[k]).1, depth),
        stands_at(s, start, render_members(members, n)),
        start + render_members(members, n).len() < s.len(),
        s[start + render_members(members, n).len()] == (if n == members.len() {
            '}'
        } else {
            ','
        }),
    ensures
        members_from(s, start, depth, done) == (if n == members.len() {
            Some((done + members, start + render_members(members, n).len() + 1))
        } else {
            members_from(
                s,
                start + render_members(members, n).len() + 1,
                depth,
                done + members.take(n as int),
            )
        }),
    decreases members, n,
{
    let key = members[n - 1].0;
    let value = members[n - 1].1;
    let text = quoted(key) + seq![':'] + render(value);
    assert(writable(members[n - 1].1, depth));
    let head = if n == 1 {
        Seq::<char>::empty()
    } else {
        render_members(members, (n - 1) as nat) + seq![',']
    };
    let at = start + head.len();
    assert(render_member(members, n - 1) == text);
    assert(render_members(members, n) =~= head + text);
    lemma_stands_at_split(s, start, head, text);
    lemma_member_reads_back(s, at, key, value, depth, done + members.take(n - 1));
    assert((done + members.take(n - 1)).push((key, value)) =~= done + members.take(n as int));
    assert(members.take(members.len() as int) =~= members);
    if n == 1 {
        assert(done + members.take(0) =~= done);
    } else {
        let before = render_members(members, (n - 1) as nat);
        lemma_stands_at_split(s, start, before, seq![',']);
        lemma_stands_at_index(s, start + before.len(), seq![','], 0);
        lemma_members_read_back(s, start, members, (n - 1) as nat, depth, done);
    }
}

/// What the library writes, it reads back: the text of a writable value
/// stands for that value.
pub proof fn lemma_written_text_reads_back(value: JsonValue)
    requires
        writable(value, depth_limit()),
    ensures
        parsed(render(value)) == Some(value),
{
    let text = render(value);
    lemma_first_char(value);
    assert(text.subrange(0, text.len() as int) =~= text);
    lemma_value_reads_back(text, 0, value, depth_limit());
}

} // verus!
