//! Reading a JSON value from text.

use vstd::prelude::*;
use vstd::utf8::is_scalar;
use crate::json::{Json, JsonValue};

verus! {

/// `char::from_u32` gives the character with the scalar value `i`, and
/// nothing where `i` is no scalar value: a surrogate, or above U+10FFFF.
pub assume_specification[ char::from_u32 ](i: u32) -> (r: Option<char>)
    ensures
        r == if is_scalar(i) {
            Some(i as char)
        } else {
            None::<char>
        },
;

/// The white space that may stand between the tokens.
pub open spec fn is_space(c: char) -> bool {
    c == ' ' || c == '\t' || c == '\n' || c == '\r'
}

/// The first position from `i` on that holds no white space.
pub open spec fn skip_space(s: Seq<char>, i: int) -> int
    decreases s.len() - i,
{
    if 0 <= i < s.len() && is_space(s[i]) {
        skip_space(s, i + 1)
    } else {
        i
    }
}

/// The value of a hexadecimal digit, in either case.
pub open spec fn hex_value(c: char) -> Option<int> {
    if '0' <= c <= '9' {
        Some(c as u32 - '0' as u32)
    } else if 'a' <= c <= 'f' {
        Some(c as u32 - 'a' as u32 + 10)
    } else if 'A' <= c <= 'F' {
        Some(c as u32 - 'A' as u32 + 10)
    } else {
        None
    }
}

/// The number that the four hexadecimal digits from `i` on write.
pub open spec fn hex4(s: Seq<char>, i: int) -> Option<int> {
    if 0 <= i && i + 4 <= s.len() {
        match (hex_value(s[i]), hex_value(s[i + 1]), hex_value(s[i + 2]), hex_value(s[i + 3])) {
            (Some(a), Some(b), Some(c), Some(d)) => Some(((a * 16 + b) * 16 + c) * 16 + d),
            _ => None,
        }
    } else {
        None
    }
}

/// The character that a `\u` escape writes, and the position behind it; `i`
/// is the position behind the `u`. A unit of the basic plane stands for
/// itself. A high surrogate must be followed by a second `\u` escape with a
/// low surrogate, and the two stand for one character of a higher plane. A
/// surrogate alone writes nothing.
pub open spec fn unicode_at(s: Seq<char>, i: int) -> Option<(char, int)> {
    match hex4(s, i) {
        Some(high) => if 0xd800 <= high <= 0xdbff {
            if i + 6 <= s.len() && s[i + 4] == '\\' && s[i + 5] == 'u' {
                match hex4(s, i + 6) {
                    Some(low) => if 0xdc00 <= low <= 0xdfff {
                        Some(
                            (
                                ((0x10000 + (high - 0xd800) * 0x400 + (low - 0xdc00)) as u32) as char,
                                i + 10,
                            ),
                        )
                    } else {
                        None
                    },
                    None => None,
                }
            } else {
                None
            }
        } else if 0xdc00 <= high <= 0xdfff {
            None
        } else {
            Some(((high as u32) as char, i + 4))
        },
        None => None,
    }
}

/// The character that an escape writes, and the position behind it; `i` is
/// the position behind the backslash.
pub open spec fn escape_at(s: Seq<char>, i: int) -> Option<(char, int)> {
    if 0 <= i < s.len() {
        let c = s[i];
        if c == '"' || c == '\\' || c == '/' {
            Some((c, i + 1))
        } else if c == 'b' {
            Some(('\u{08}', i + 1))
        } else if c == 'f' {
            Some(('\u{0c}', i + 1))
        } else if c == 'n' {
            Some(('\n', i + 1))
        } else if c == 'r' {
            Some(('\r', i + 1))
        } else if c == 't' {
            Some(('\t', i + 1))
        } else if c == 'u' {
            unicode_at(s, i + 1)
        } else {
            None
        }
    } else {
        None
    }
}

/// The rest of a string from `i` on, behind the characters `done` that were
/// read already: the text up to the closing quotation mark, and the position
/// behind that mark. A control character below U+0020 may not stand in a
/// string as itself.
pub open spec fn string_from(s: Seq<char>, i: int, done: Seq<char>) -> Option<(Seq<char>, int)>
    decreases s.len() - i,
{
    if 0 <= i < s.len() {
        let c = s[i];
        if c == '"' {
            Some((done, i + 1))
        } else if c == '\\' {
            match escape_at(s, i + 1) {
                Some((written, next)) => if i < next <= s.len() {
                    string_from(s, next, done.push(written))
                } else {
                    None
                },
                None => None,
            }
        } else if (c as u32) < 0x20 {
            None
        } else {
            string_from(s, i + 1, done.push(c))
        }
    } else {
        None
    }
}

fn is_space_char(c: char) -> (r: bool)
    ensures
        r == is_space(c),
{
    c == ' ' || c == '\t' || c == '\n' || c == '\r'
}

fn skip(chars: &Vec<char>, start: usize) -> (r: usize)
    requires
        start <= chars@.len(),
    ensures
        r == skip_space(chars@, start as int),
        start <= r <= chars@.len(),
{
    let mut i: usize = start;
    while i < chars.len() && is_space_char(chars[i])
        invariant
            start <= i <= chars@.len(),
            skip_space(chars@, start as int) == skip_space(chars@, i as int),
        decreases chars@.len() - i,
    {
        i += 1;
    }
    i
}

fn hex_digit(c: char) -> (r: Option<u32>)
    ensures
        match r {
            Some(v) => hex_value(c) == Some(v as int) && v < 16,
            None => hex_value(c) is None,
        },
{
    let n: u32 = c as u32;
    if 0x30 <= n && n <= 0x39 {
        Some(n - 0x30)
    } else if 0x61 <= n && n <= 0x66 {
        Some(n - 0x61 + 10)
    } else if 0x41 <= n && n <= 0x46 {
        Some(n - 0x41 + 10)
    } else {
        None
    }
}

fn read_hex4(chars: &Vec<char>, i: usize) -> (r: Option<u32>)
    requires
        i <= chars@.len(),
    ensures
        match r {
            Some(v) => hex4(chars@, i as int) == Some(v as int) && v <= 0xffff && i + 4
                <= chars@.len(),
            None => hex4(chars@, i as int) is None,
        },
{
    if chars.len() - i < 4 {
        return None;
    }
    let a = hex_digit(chars[i])?;
    let b = hex_digit(chars[i + 1])?;
    let c = hex_digit(chars[i + 2])?;
    let d = hex_digit(chars[i + 3])?;
    Some(((a * 16 + b) * 16 + c) * 16 + d)
}

fn read_unicode(chars: &Vec<char>, i: usize) -> (r: Option<(char, usize)>)
    requires
        i <= chars@.len(),
    ensures
        match r {
            Some((c, next)) => unicode_at(chars@, i as int) == Some((c, next as int)) && i < next
                <= chars@.len(),
            None => unicode_at(chars@, i as int) is None,
        },
{
    let len = chars.len();
    let high = read_hex4(chars, i)?;
    if 0xd800 <= high && high <= 0xdbff {
        if len - i < 6 || chars[i + 4] != '\\' || chars[i + 5] != 'u' {
            return None;
        }
        let low = read_hex4(chars, i + 6)?;
        if 0xdc00 <= low && low <= 0xdfff {
            let scalar: u32 = 0x10000 + (high - 0xd800) * 0x400 + (low - 0xdc00);
            let c = char::from_u32(scalar)?;
            Some((c, i + 10))
        } else {
            None
        }
    } else if 0xdc00 <= high && high <= 0xdfff {
        None
    } else {
        let c = char::from_u32(high)?;
        Some((c, i + 4))
    }
}

fn read_escape(chars: &Vec<char>, i: usize) -> (r: Option<(char, usize)>)
    requires
        i <= chars@.len(),
    ensures
        match r {
            Some((c, next)) => escape_at(chars@, i as int) == Some((c, next as int)) && i < next
                <= chars@.len(),
            None => escape_at(chars@, i as int) is None,
        },
{
    if i >= chars.len() {
        return None;
    }
    let c = chars[i];
    if c == '"' || c == '\\' || c == '/' {
        Some((c, i + 1))
    } else if c == 'b' {
        Some(('\u{08}', i + 1))
    } else if c == 'f' {
        Some(('\u{0c}', i + 1))
    } else if c == 'n' {
        Some(('\n', i + 1))
    } else if c == 'r' {
        Some(('\r', i + 1))
    } else if c == 't' {
        Some(('\t', i + 1))
    } else if c == 'u' {
        read_unicode(chars, i + 1)
    } else {
        None
    }
}

/// Reads the rest of a string; `start` is the position behind the opening
/// quotation mark.
fn read_string(chars: &Vec<char>, start: usize) -> (r: Option<(String, usize)>)
    requires
        start <= chars@.len(),
    ensures
        match r {
            Some((text, next)) => string_from(chars@, start as int, Seq::empty()) == Some(
                (text@, next as int),
            ) && start < next <= chars@.len(),
            None => string_from(chars@, start as int, Seq::empty()) is None,
        },
{
    let mut text = String::new();
    let mut i: usize = start;
    while i < chars.len()
        invariant
            start <= i <= chars@.len(),
            string_from(chars@, start as int, Seq::empty()) == string_from(
                chars@,
                i as int,
                text@,
            ),
        decreases chars@.len() - i,
    {
        let c = chars[i];
        if c == '"' {
            return Some((text, i + 1));
        } else if c == '\\' {
            match read_escape(chars, i + 1) {
                Some((written, next)) => {
                    text.push(written);
                    i = next;
                },
                None => {
                    return None;
                },
            }
        } else if (c as u32) < 0x20 {
            return None;
        } else {
            text.push(c);
            i += 1;
        }
    }
    None
}

/// The decimal digits.
pub open spec fn is_digit(c: char) -> bool {
    '0' <= c <= '9'
}

/// The first position from `i` on that holds no digit.
pub open spec fn digits_end(s: Seq<char>, i: int) -> int
    decreases s.len() - i,
{
    if 0 <= i < s.len() && is_digit(s[i]) {
        digits_end(s, i + 1)
    } else {
        i
    }
}

/// The number that the digits from `from` up to `to` write.
pub open spec fn digits_value(s: Seq<char>, from: int, to: int) -> int
    decreases to - from,
{
    if to <= from {
        0
    } else {
        digits_value(s, from, to - 1) * 10 + (s[to - 1] as u32 - '0' as u32)
    }
}

/// Where the fraction of a number ends whose whole part ends at `b`: at `b`
/// where no point follows, behind the digits after the point otherwise.
/// A point without a digit behind it is no fraction.
pub open spec fn fraction_end(s: Seq<char>, b: int) -> Option<int> {
    if 0 <= b < s.len() && s[b] == '.' {
        if digits_end(s, b + 1) > b + 1 {
            Some(digits_end(s, b + 1))
        } else {
            None
        }
    } else {
        Some(b)
    }
}

/// Where the digits of an exponent start whose letter stands at `c`: behind
/// the letter and its sign, if it has one.
pub open spec fn exponent_digits(s: Seq<char>, c: int) -> int {
    if 0 <= c + 1 < s.len() && (s[c + 1] == '+' || s[c + 1] == '-') {
        c + 2
    } else {
        c + 1
    }
}

/// Where the exponent of a number ends whose fraction ends at `c`: at `c`
/// where no `e` or `E` follows, behind the digits of the exponent otherwise.
/// An exponent without a digit is none.
pub open spec fn exponent_end(s: Seq<char>, c: int) -> Option<int> {
    if 0 <= c < s.len() && (s[c] == 'e' || s[c] == 'E') {
        if digits_end(s, exponent_digits(s, c)) > exponent_digits(s, c) {
            Some(digits_end(s, exponent_digits(s, c)))
        } else {
            None
        }
    } else {
        Some(c)
    }
}

/// Where the digits of a number start that starts at `i`: behind the minus
/// sign, if it has one.
pub open spec fn whole_start(s: Seq<char>, i: int) -> int {
    if 0 <= i < s.len() && s[i] == '-' {
        i + 1
    } else {
        i
    }
}

/// The value of the number literal from `i` up to `e`, whose whole part
/// stands from `a` up to `b`: the integer that it writes where it has neither
/// fraction nor exponent and a 64-bit signed integer can hold it, and the
/// text of the literal otherwise. A zero behind a minus sign keeps its text.
pub open spec fn number_value(s: Seq<char>, i: int, a: int, b: int, e: int) -> JsonValue {
    let magnitude = digits_value(s, a, b);
    if e == b && a == i && magnitude <= i64::MAX {
        JsonValue::Integer(magnitude)
    } else if e == b && a > i && 0 < magnitude <= i64::MAX + 1 {
        JsonValue::Integer(-magnitude)
    } else {
        JsonValue::Real(s.subrange(i, e))
    }
}

/// The number that starts at `i`, and the position behind it: an optional
/// minus sign; a whole part of one or more digits, without a leading zero
/// before another digit; an optional fraction; an optional exponent.
pub open spec fn number_at(s: Seq<char>, i: int) -> Option<(JsonValue, int)> {
    let a = whole_start(s, i);
    let b = digits_end(s, a);
    if b <= a || (b > a + 1 && s[a] == '0') {
        None
    } else {
        match fraction_end(s, b) {
            Some(c) => match exponent_end(s, c) {
                Some(e) => Some((number_value(s, i, a, b, e), e)),
                None => None,
            },
            None => None,
        }
    }
}

fn is_digit_char(c: char) -> (r: bool)
    ensures
        r == is_digit(c),
{
    let n: u32 = c as u32;
    0x30 <= n && n <= 0x39
}

fn skip_digits(chars: &Vec<char>, start: usize) -> (r: usize)
    requires
        start <= chars@.len(),
    ensures
        r == digits_end(chars@, start as int),
        start <= r <= chars@.len(),
        forall|k: int| start <= k < r ==> is_digit(#[trigger] chars@[k]),
{
    let mut i: usize = start;
    while i < chars.len() && is_digit_char(chars[i])
        invariant
            start <= i <= chars@.len(),
            digits_end(chars@, start as int) == digits_end(chars@, i as int),
            forall|k: int| start <= k < i ==> is_digit(#[trigger] chars@[k]),
        decreases chars@.len() - i,
    {
        i += 1;
    }
    i
}

proof fn lemma_digits_value_grows(s: Seq<char>, from: int, mid: int, to: int)
    requires
        0 <= from <= mid <= to <= s.len(),
        forall|k: int| from <= k < to ==> is_digit(#[trigger] s[k]),
    ensures
        0 <= digits_value(s, from, mid) <= digits_value(s, from, to),
    decreases to - mid,
{
    if mid < to {
        lemma_digits_value_grows(s, from, mid, to - 1);
        assert(is_digit(s[to - 1]));
    } else {
        lemma_digits_value_is_natural(s, from, to);
    }
}

proof fn lemma_digits_value_is_natural(s: Seq<char>, from: int, to: int)
    requires
        0 <= from <= to <= s.len(),
        forall|k: int| from <= k < to ==> is_digit(#[trigger] s[k]),
    ensures
        0 <= digits_value(s, from, to),
    decreases to - from,
{
    if from < to {
        lemma_digits_value_is_natural(s, from, to - 1);
        assert(is_digit(s[to - 1]));
    }
}

/// The number that the digits from `from` up to `to` write, where a `u64`
/// can hold it.
fn read_magnitude(chars: &Vec<char>, from: usize, to: usize) -> (r: Option<u64>)
    requires
        from <= to <= chars@.len(),
        forall|k: int| from <= k < to ==> is_digit(#[trigger] chars@[k]),
    ensures
        match r {
            Some(v) => digits_value(chars@, from as int, to as int) == v,
            None => digits_value(chars@, from as int, to as int) > u64::MAX,
        },
{
    let mut value: u64 = 0;
    let mut i: usize = from;
    while i < to
        invariant
            from <= i <= to <= chars@.len(),
            forall|k: int| from <= k < to ==> is_digit(#[trigger] chars@[k]),
            value == digits_value(chars@, from as int, i as int),
        decreases to - i,
    {
        assert(is_digit(chars@[i as int]));
        let d: u64 = (chars[i] as u32 - 0x30) as u64;
        if value > (u64::MAX - d) / 10 {
            proof {
                lemma_digits_value_grows(chars@, from as int, i + 1, to as int);
            }
            return None;
        }
        value = value * 10 + d;
        i += 1;
    }
    Some(value)
}

/// Copies the characters from `from` up to `to`.
fn copy_text(chars: &Vec<char>, from: usize, to: usize) -> (text: String)
    requires
        from <= to <= chars@.len(),
    ensures
        text@ == chars@.subrange(from as int, to as int),
{
    let mut text = String::new();
    let mut i: usize = from;
    while i < to
        invariant
            from <= i <= to <= chars@.len(),
            text@ == chars@.subrange(from as int, i as int),
        decreases to - i,
    {
        text.push(chars[i]);
        i += 1;
        assert(text@ =~= chars@.subrange(from as int, i as int));
    }
    text
}

/// Reads the number that starts at `i`.
fn read_number(chars: &Vec<char>, i: usize) -> (r: Option<(Json, usize)>)
    requires
        i <= chars@.len(),
    ensures
        match r {
            Some((value, next)) => number_at(chars@, i as int) == Some((value@, next as int)) && i
                < next <= chars@.len(),
            None => number_at(chars@, i as int) is None,
        },
{
    let len = chars.len();
    let negative = i < len && chars[i] == '-';
    let a: usize = if negative {
        i + 1
    } else {
        i
    };
    let b = skip_digits(chars, a);
    if b <= a || (b > a + 1 && chars[a] == '0') {
        return None;
    }
    let c: usize = if b < len && chars[b] == '.' {
        let end = skip_digits(chars, b + 1);
        if end <= b + 1 {
            return None;
        }
        end
    } else {
        b
    };
    let e: usize = if c < len && (chars[c] == 'e' || chars[c] == 'E') {
        let digits: usize = if c + 1 < len && (chars[c + 1] == '+' || chars[c + 1] == '-') {
            c + 2
        } else {
            c + 1
        };
        let end = skip_digits(chars, digits);
        if end <= digits {
            return None;
        }
        end
    } else {
        c
    };
    if e == b {
        match read_magnitude(chars, a, b) {
            Some(magnitude) => {
                if !negative && magnitude <= 0x7fff_ffff_ffff_ffff {
                    return Some((Json::Integer(magnitude as i64), e));
                }
                if negative && 0 < magnitude && magnitude < 0x8000_0000_0000_0000 {
                    return Some((Json::Integer(-(magnitude as i64)), e));
                }
                if negative && magnitude == 0x8000_0000_0000_0000 {
                    return Some((Json::Integer(i64::MIN), e));
                }
            },
            None => {},
        }
    }
    Some((Json::Real(copy_text(chars, i, e)), e))
}

/// Whether the four characters from `i` on are `a`, `b`, `c`, `d`.
pub open spec fn word_at(s: Seq<char>, i: int, a: char, b: char, c: char, d: char) -> bool {
    0 <= i && i + 4 <= s.len() && s[i] == a && s[i + 1] == b && s[i + 2] == c && s[i + 3] == d
}

/// The literal `null`, `true` or `false` that starts at `i`, and the
/// position behind it.
pub open spec fn literal_at(s: Seq<char>, i: int) -> Option<(JsonValue, int)> {
    if word_at(s, i, 'n', 'u', 'l', 'l') {
        Some((JsonValue::Null, i + 4))
    } else if word_at(s, i, 't', 'r', 'u', 'e') {
        Some((JsonValue::Bool(true), i + 4))
    } else if word_at(s, i, 'f', 'a', 'l', 's') && i + 5 <= s.len() && s[i + 4] == 'e' {
        Some((JsonValue::Bool(false), i + 5))
    } else {
        None
    }
}

/// How deep arrays and objects may stand inside each other.
pub open spec fn depth_limit() -> nat {
    127
}

/// The value that starts at `i`, and the position behind it, where arrays and
/// objects stand at most `depth` deep inside each other.
pub open spec fn value_at(s: Seq<char>, i: int, depth: nat) -> Option<(JsonValue, int)>
    decreases s.len() - i, 0nat,
{
    if 0 <= i < s.len() {
        let c = s[i];
        if c == '"' {
            match string_from(s, i + 1, Seq::empty()) {
                Some((text, next)) => Some((JsonValue::Text(text), next)),
                None => None,
            }
        } else if c == '[' {
            if depth == 0 {
                None
            } else if i < skip_space(s, i + 1) < s.len() && s[skip_space(s, i + 1)] == ']' {
                Some((JsonValue::Array(Seq::empty()), skip_space(s, i + 1) + 1))
            } else {
                match items_from(s, i + 1, (depth - 1) as nat, Seq::empty()) {
                    Some((items, next)) => Some((JsonValue::Array(items), next)),
                    None => None,
                }
            }
        } else if c == '{' {
            if depth == 0 {
                None
            } else if i < skip_space(s, i + 1) < s.len() && s[skip_space(s, i + 1)] == '}' {
                Some((JsonValue::Object(Seq::empty()), skip_space(s, i + 1) + 1))
            } else {
                match members_from(s, i + 1, (depth - 1) as nat, Seq::empty()) {
                    Some((members, next)) => Some((JsonValue::Object(members), next)),
                    None => None,
                }
            }
        } else if c == '-' || is_digit(c) {
            number_at(s, i)
        } else {
            literal_at(s, i)
        }
    } else {
        None
    }
}

/// The rest of an array from `i` on, behind the items `done` that were read
/// already: an item, then either a comma and the rest, or the closing
/// bracket. White space may stand before and behind each item.
pub open spec fn items_from(s: Seq<char>, i: int, depth: nat, done: Seq<JsonValue>) -> Option<
    (Seq<JsonValue>, int),
>
    decreases s.len() - i, 1nat,
{
    let at = skip_space(s, i);
    if 0 <= i <= at <= s.len() {
        match value_at(s, at, depth) {
            Some((item, after)) => {
                let stop = skip_space(s, after);
                if at < after <= stop < s.len() {
                    if s[stop] == ',' {
                        items_from(s, stop + 1, depth, done.push(item))
                    } else if s[stop] == ']' {
                        Some((done.push(item), stop + 1))
                    } else {
                        None
                    }
                } else {
                    None
                }
            },
            None => None,
        }
    } else {
        None
    }
}

/// The rest of an object from `i` on, behind the members `done` that were
/// read already: a string as the key, a colon, a value, then either a comma
/// and the rest, or the closing brace. White space may stand around each of
/// them.
pub open spec fn members_from(
    s: Seq<char>,
    i: int,
    depth: nat,
    done: Seq<(Seq<char>, JsonValue)>,
) -> Option<(Seq<(Seq<char>, JsonValue)>, int)>
    decreases s.len() - i, 1nat,
{
    let at = skip_space(s, i);
    if 0 <= i <= at < s.len() && s[at] == '"' {
        match string_from(s, at + 1, Seq::empty()) {
            Some((key, after_key)) => {
                let colon = skip_space(s, after_key);
                if at < after_key <= colon < s.len() && s[colon] == ':' {
                    let start = skip_space(s, colon + 1);
                    if colon < start <= s.len() {
                        match value_at(s, start, depth) {
                            Some((value, after)) => {
                                let stop = skip_space(s, after);
                                if start < after <= stop < s.len() {
                                    if s[stop] == ',' {
                                        members_from(s, stop + 1, depth, done.push((key, value)))
                                    } else if s[stop] == '}' {
                                        Some((done.push((key, value)), stop + 1))
                                    } else {
                                        None
                                    }
                                } else {
                                    None
                                }
                            },
                            None => None,
                        }
                    } else {
                        None
                    }
                } else {
                    None
                }
            },
            None => None,
        }
    } else {
        None
    }
}

/// The value that a text stands for: one value, with nothing but white space
/// before and behind it.
pub open spec fn parsed(text: Seq<char>) -> Option<JsonValue> {
    match value_at(text, skip_space(text, 0), depth_limit()) {
        Some((value, next)) => if skip_space(text, next) == text.len() {
            Some(value)
        } else {
            None
        },
        None => None,
    }
}

/// The values of `items`, in their order.
pub open spec fn values_of(items: Seq<Json>) -> Seq<JsonValue> {
    Seq::new(items.len(), |k: int| items[k]@)
}

/// The keys and values of `members`, in their order.
pub open spec fn members_of(members: Seq<(String, Json)>) -> Seq<(Seq<char>, JsonValue)> {
    Seq::new(members.len(), |k: int| (members[k].0@, members[k].1@))
}

fn is_word(chars: &Vec<char>, i: usize, a: char, b: char, c: char, d: char) -> (r: bool)
    requires
        i <= chars@.len(),
    ensures
        r == word_at(chars@, i as int, a, b, c, d),
{
    chars.len() - i >= 4 && chars[i] == a && chars[i + 1] == b && chars[i + 2] == c && chars[i + 3]
        == d
}

fn read_literal(chars: &Vec<char>, i: usize) -> (r: Option<(Json, usize)>)
    requires
        i <= chars@.len(),
    ensures
        match r {
            Some((value, next)) => literal_at(chars@, i as int) == Some((value@, next as int)) && i
                < next <= chars@.len(),
            None => literal_at(chars@, i as int) is None,
        },
{
    let len = chars.len();
    if is_word(chars, i, 'n', 'u', 'l', 'l') {
        Some((Json::Null, i + 4))
    } else if is_word(chars, i, 't', 'r', 'u', 'e') {
        Some((Json::Bool(true), i + 4))
    } else if is_word(chars, i, 'f', 'a', 'l', 's') && len - i >= 5 && chars[i + 4] == 'e' {
        Some((Json::Bool(false), i + 5))
    } else {
        None
    }
}

/// Reads the value that starts at `i`.
fn read_value(chars: &Vec<char>, i: usize, depth: usize) -> (r: Option<(Json, usize)>)
    requires
        i <= chars@.len(),
    ensures
        match r {
            Some((value, next)) => value_at(chars@, i as int, depth as nat) == Some(
                (value@, next as int),
            ) && i < next <= chars@.len(),
            None => value_at(chars@, i as int, depth as nat) is None,
        },
    decreases chars@.len() - i, 0nat,
{
    if i >= chars.len() {
        return None;
    }
    let c = chars[i];
    if c == '"' {
        match read_string(chars, i + 1) {
            Some((text, next)) => Some((Json::Text(text), next)),
            None => None,
        }
    } else if c == '[' {
        if depth == 0 {
            return None;
        }
        let first = skip(chars, i + 1);
        if first < chars.len() && chars[first] == ']' {
            let value = Json::Array(Vec::new());
            assert(value@->Array_0 =~= Seq::<JsonValue>::empty());
            return Some((value, first + 1));
        }
        match read_items(chars, i + 1, depth - 1) {
            Some((items, next)) => {
                let value = Json::Array(items);
                assert(value@->Array_0 =~= values_of(items@));
                Some((value, next))
            },
            None => None,
        }
    } else if c == '{' {
        if depth == 0 {
            return None;
        }
        let first = skip(chars, i + 1);
        if first < chars.len() && chars[first] == '}' {
            let value = Json::Object(Vec::new());
            assert(value@->Object_0 =~= Seq::<(Seq<char>, JsonValue)>::empty());
            return Some((value, first + 1));
        }
        match read_members(chars, i + 1, depth - 1) {
            Some((members, next)) => {
                let value = Json::Object(members);
                assert(value@->Object_0 =~= members_of(members@));
                Some((value, next))
            },
            None => None,
        }
    } else if c == '-' || is_digit_char(c) {
        read_number(chars, i)
    } else {
        read_literal(chars, i)
    }
}

/// Reads the items of an array up to its closing bracket; `start` is the
/// position behind the opening bracket.
fn read_items(chars: &Vec<char>, start: usize, depth: usize) -> (r: Option<(Vec<Json>, usize)>)
    requires
        start <= chars@.len(),
    ensures
        match r {
            Some((items, next)) => items_from(
                chars@,
                start as int,
                depth as nat,
                Seq::empty(),
            ) == Some((values_of(items@), next as int)) && start < next <= chars@.len(),
            None => items_from(chars@, start as int, depth as nat, Seq::empty()) is None,
        },
    decreases chars@.len() - start, 1nat,
{
    let mut items: Vec<Json> = Vec::new();
    let mut i: usize = start;
    assert(values_of(items@) =~= Seq::<JsonValue>::empty());
    loop
        invariant
            start <= i <= chars@.len(),
            items_from(chars@, start as int, depth as nat, Seq::empty()) == items_from(
                chars@,
                i as int,
                depth as nat,
                values_of(items@),
            ),
        decreases chars@.len() - i,
    {
        let at = skip(chars, i);
        let (item, after) = match read_value(chars, at, depth) {
            Some(found) => found,
            None => {
                return None;
            },
        };
        let stop = skip(chars, after);
        if stop >= chars.len() {
            return None;
        }
        let ghost before = values_of(items@);
        items.push(item);
        assert(values_of(items@) =~= before.push(item@));
        if chars[stop] == ',' {
            i = stop + 1;
        } else if chars[stop] == ']' {
            return Some((items, stop + 1));
        } else {
            return None;
        }
    }
}

/// Reads the members of an object up to its closing brace; `start` is the
/// position behind the opening brace.
fn read_members(chars: &Vec<char>, start: usize, depth: usize) -> (r: Option<
    (Vec<(String, Json)>, usize),
>)
    requires
        start <= chars@.len(),
    ensures
        match r {
            Some((members, next)) => members_from(
                chars@,
                start as int,
                depth as nat,
                Seq::empty(),
            ) == Some((members_of(members@), next as int)) && start < next <= chars@.len(),
            None => members_from(chars@, start as int, depth as nat, Seq::empty()) is None,
        },
    decreases chars@.len() - start, 1nat,
{
    let mut members: Vec<(String, Json)> = Vec::new();
    let mut i: usize = start;
    assert(members_of(members@) =~= Seq::<(Seq<char>, JsonValue)>::empty());
    loop
        invariant
            start <= i <= chars@.len(),
            members_from(chars@, start as int, depth as nat, Seq::empty()) == members_from(
                chars@,
                i as int,
                depth as nat,
                members_of(members@),
            ),
        decreases chars@.len() - i,
    {
        let at = skip(chars, i);
        if at >= chars.len() || chars[at] != '"' {
            return None;
        }
        let (key, after_key) = match read_string(chars, at + 1) {
            Some(found) => found,
            None => {
                return None;
            },
        };
        let colon = skip(chars, after_key);
        if colon >= chars.len() || chars[colon] != ':' {
            return None;
        }
        let value_start = skip(chars, colon + 1);
        let (value, after) = match read_value(chars, value_start, depth) {
            Some(found) => found,
            None => {
                return None;
            },
        };
        let stop = skip(chars, after);
        if stop >= chars.len() {
            return None;
        }
        let ghost before = members_of(members@);
        let ghost written = (key@, value@);
        members.push((key, value));
        assert(members_of(members@) =~= before.push(written));
        if chars[stop] == ',' {
            i = stop + 1;
        } else if chars[stop] == '}' {
            return Some((members, stop + 1));
        } else {
            return None;
        }
    }
}

/// The characters of `text`, in their order.
fn characters(text: &str) -> (chars: Vec<char>)
    ensures
        chars@ == text@,
{
    let mut chars: Vec<char> = Vec::new();
    let iter = text.chars();
    proof {
        vstd::string::axiom_spec_iter(text);
    }
    for c in it: iter
        invariant
            it.seq() == text@,
            chars@ == text@.take(it.index()),
    {
        chars.push(c);
        assert(chars@ =~= text@.take(it.index() + 1));
    }
    assert(text@.take(text@.len() as int) =~= text@);
    chars
}

impl Json {
    /// Reads the JSON value that `text` stands for. There is none where the
    /// text is no JSON, where anything but white space stands before or
    /// behind the value, and where arrays and objects stand more than 127
    /// deep inside each other.
    pub fn parse(text: &str) -> (r: Option<Json>)
        ensures
            r is Some == parsed(text@) is Some,
            r is Some ==> r.unwrap()@ == parsed(text@).unwrap(),
    {
        let chars = characters(text);
        let start = skip(&chars, 0);
        match read_value(&chars, start, 127) {
            Some((value, next)) => {
                if skip(&chars, next) == chars.len() {
                    Some(value)
                } else {
                    None
                }
            },
            None => None,
        }
    }
}

} // verus!
