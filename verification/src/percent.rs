//! Percent-encoding of text for the two places of a URL where text from
//! outside ends up: a segment of the path and the query string.

use vstd::prelude::*;
use vstd::utf8::*;
use crate::text::{digit, digit_char};

verus! {

/// Where in a URL a text is to stand.
#[derive(Clone, Copy, Debug, PartialEq, Eq, Structural)]
pub enum Place {
    /// One segment of the path, between two `/`.
    Segment,
    /// A key or a value of the query string.
    Query,
}

/// ASCII letters and digits.
pub open spec fn is_alphanumeric(b: u8) -> bool {
    ||| 0x30 <= b <= 0x39
    ||| 0x41 <= b <= 0x5a
    ||| 0x61 <= b <= 0x7a
}

/// Bytes that stand for themselves: letters and digits everywhere; besides
/// them `-`, `.`, `_`, `~` in a segment and `*`, `-`, `.`, `_` in the query
/// string.
pub open spec fn is_kept(place: Place, b: u8) -> bool {
    ||| is_alphanumeric(b)
    ||| b == 0x2d
    ||| b == 0x2e
    ||| b == 0x5f
    ||| (place == Place::Segment && b == 0x7e)
    ||| (place == Place::Query && b == 0x2a)
}

/// The upper-case hexadecimal digit of `d`.
pub open spec fn upper_hex(d: int) -> char {
    if d < 10 {
        digit(d)
    } else if d == 10 {
        'A'
    } else if d == 11 {
        'B'
    } else if d == 12 {
        'C'
    } else if d == 13 {
        'D'
    } else if d == 14 {
        'E'
    } else {
        'F'
    }
}

/// How one byte is written: a kept byte as itself, a space in the query
/// string as `+`, and any other byte as `%` followed by its two upper-case
/// hexadecimal digits.
pub open spec fn escape_byte(place: Place, b: u8) -> Seq<char> {
    if is_kept(place, b) {
        seq![b as char]
    } else if place == Place::Query && b == 0x20 {
        seq!['+']
    } else {
        seq!['%', upper_hex(b as int / 16), upper_hex(b as int % 16)]
    }
}

/// The bytes written one after the other.
pub open spec fn escape_bytes(place: Place, bytes: Seq<u8>) -> Seq<char>
    decreases bytes.len(),
{
    if bytes.len() == 0 {
        Seq::empty()
    } else {
        escape_bytes(place, bytes.drop_last()) + escape_byte(place, bytes.last())
    }
}

/// A text as it stands in a URL: the escaped bytes of its UTF-8 encoding.
pub open spec fn escape(place: Place, text: Seq<char>) -> Seq<char> {
    escape_bytes(place, encode_utf8(text))
}

/// Characters that an escaped text can hold.
pub open spec fn is_safe(c: char) -> bool {
    ||| '0' <= c <= '9'
    ||| 'A' <= c <= 'Z'
    ||| 'a' <= c <= 'z'
    ||| c == '-'
    ||| c == '.'
    ||| c == '_'
    ||| c == '~'
    ||| c == '*'
    ||| c == '+'
    ||| c == '%'
}

/// The upper-case hexadecimal digit of `d`.
pub fn upper_hex_char(d: u8) -> (c: char)
    requires
        d < 16,
    ensures
        c == upper_hex(d as int),
{
    if d < 10 {
        digit_char(d)
    } else {
        match d {
            10 => 'A',
            11 => 'B',
            12 => 'C',
            13 => 'D',
            14 => 'E',
            _ => 'F',
        }
    }
}

fn is_kept_byte(place: Place, b: u8) -> (r: bool)
    ensures
        r == is_kept(place, b),
{
    let alphanumeric = (0x30 <= b && b <= 0x39) || (0x41 <= b && b <= 0x5a) || (0x61 <= b && b
        <= 0x7a);
    let mark = match place {
        Place::Segment => b == 0x7e,
        Place::Query => b == 0x2a,
    };
    alphanumeric || b == 0x2d || b == 0x2e || b == 0x5f || mark
}

/// Appends the escaped form of `text` to `out`.
pub fn push_escaped(out: &mut String, place: Place, text: &str)
    ensures
        final(out)@ == old(out)@ + escape(place, text@),
{
    let bytes = text.as_bytes();
    let mut i: usize = 0;
    while i < bytes.len()
        invariant
            i <= bytes@.len(),
            out@ == old(out)@ + escape_bytes(place, bytes@.take(i as int)),
        decreases bytes@.len() - i,
    {
        let b: u8 = bytes[i];
        proof {
            assert(bytes@.take(i + 1).drop_last() =~= bytes@.take(i as int));
            assert(bytes@.take(i + 1).last() == b);
        }
        let in_query = match place {
            Place::Segment => false,
            Place::Query => true,
        };
        if is_kept_byte(place, b) {
            out.push(b as char);
        } else if in_query && b == 0x20 {
            out.push('+');
        } else {
            out.push('%');
            out.push(upper_hex_char(b / 16));
            out.push(upper_hex_char(b % 16));
        }
        i += 1;
    }
    proof {
        assert(bytes@.take(i as int) =~= bytes@);
    }
}

/// An escaped text holds safe characters only: none of `/`, `?`, `#`, `&`,
/// `=` or a space, whatever the text was. So a name from outside cannot add a
/// segment to a path, nor a pair to a query string.
pub proof fn lemma_escape_is_safe(place: Place, text: Seq<char>)
    ensures
        forall|i: int| 0 <= i < escape(place, text).len() ==> is_safe(#[trigger] escape(place, text)[i]),
{
    lemma_escape_bytes_is_safe(place, encode_utf8(text));
}

proof fn lemma_escape_bytes_is_safe(place: Place, bytes: Seq<u8>)
    ensures
        forall|i: int|
            0 <= i < escape_bytes(place, bytes).len() ==> is_safe(
                #[trigger] escape_bytes(place, bytes)[i],
            ),
    decreases bytes.len(),
{
    if bytes.len() > 0 {
        lemma_escape_bytes_is_safe(place, bytes.drop_last());
        let head = escape_bytes(place, bytes.drop_last());
        let tail = escape_byte(place, bytes.last());
        assert(forall|i: int| 0 <= i < tail.len() ==> is_safe(#[trigger] tail[i]));
        assert forall|i: int| 0 <= i < escape_bytes(place, bytes).len() implies is_safe(
            #[trigger] escape_bytes(place, bytes)[i],
        ) by {
            if i < head.len() {
                assert(escape_bytes(place, bytes)[i] == head[i]);
            } else {
                assert(escape_bytes(place, bytes)[i] == tail[i - head.len()]);
            }
        }
    }
}

/// What an escaped text was made from: each `%` with its two digits is the
/// byte that they write, each `+` of a query string a space, every other
/// character the byte of its own.
spec fn unescape(place: Place, s: Seq<char>) -> Seq<u8>
    decreases s.len(),
{
    if s.len() == 0 {
        Seq::empty()
    } else if s[0] == '%' && s.len() >= 3 {
        seq![(hex_digit_value(s[1]) * 16 + hex_digit_value(s[2])) as u8] + unescape(
            place,
            s.skip(3),
        )
    } else if s[0] == '+' && place == Place::Query {
        seq![0x20u8] + unescape(place, s.skip(1))
    } else {
        seq![s[0] as u8] + unescape(place, s.skip(1))
    }
}

spec fn hex_digit_value(c: char) -> int {
    if '0' <= c <= '9' {
        c as u32 - '0' as u32
    } else {
        c as u32 - 'A' as u32 + 10
    }
}

proof fn lemma_escape_bytes_front(place: Place, b: u8, rest: Seq<u8>)
    ensures
        escape_bytes(place, seq![b] + rest) == escape_byte(place, b) + escape_bytes(place, rest),
    decreases rest.len(),
{
    let whole = seq![b] + rest;
    if rest.len() == 0 {
        assert(whole.drop_last() =~= Seq::<u8>::empty());
        assert(escape_bytes(place, whole.drop_last()) =~= Seq::<char>::empty());
        assert(escape_bytes(place, whole) =~= escape_byte(place, b) + escape_bytes(place, rest));
    } else {
        assert(whole.drop_last() =~= seq![b] + rest.drop_last());
        assert(whole.last() == rest.last());
        lemma_escape_bytes_front(place, b, rest.drop_last());
        assert(escape_bytes(place, whole) =~= escape_byte(place, b) + escape_bytes(place, rest));
    }
}

proof fn lemma_unescape_byte(place: Place, b: u8, tail: Seq<char>)
    ensures
        unescape(place, escape_byte(place, b) + tail) == seq![b] + unescape(place, tail),
{
    let s = escape_byte(place, b) + tail;
    if is_kept(place, b) {
        assert(s[0] == b as char);
        assert(s.skip(1) =~= tail);
    } else if place == Place::Query && b == 0x20 {
        assert(s[0] == '+');
        assert(s.skip(1) =~= tail);
    } else {
        assert(s[0] == '%');
        assert(s[1] == upper_hex(b as int / 16));
        assert(s[2] == upper_hex(b as int % 16));
        assert(hex_digit_value(upper_hex(b as int / 16)) == b as int / 16);
        assert(hex_digit_value(upper_hex(b as int % 16)) == b as int % 16);
        assert(s.skip(3) =~= tail);
    }
}

proof fn lemma_unescape_inverts(place: Place, bytes: Seq<u8>)
    ensures
        unescape(place, escape_bytes(place, bytes)) == bytes,
    decreases bytes.len(),
{
    if bytes.len() == 0 {
        assert(unescape(place, escape_bytes(place, bytes)) =~= bytes);
    } else {
        let b = bytes[0];
        let rest = bytes.drop_first();
        assert(bytes =~= seq![b] + rest);
        lemma_escape_bytes_front(place, b, rest);
        lemma_unescape_byte(place, b, escape_bytes(place, rest));
        lemma_unescape_inverts(place, rest);
        assert(seq![b] + rest =~= bytes);
    }
}

/// Escaping loses nothing: two texts that are escaped alike are the same
/// text. So two names never share a path, nor two values a query string.
pub proof fn lemma_escape_is_injective(place: Place, a: Seq<char>, b: Seq<char>)
    requires
        escape(place, a) == escape(place, b),
    ensures
        a == b,
{
    lemma_unescape_inverts(place, encode_utf8(a));
    lemma_unescape_inverts(place, encode_utf8(b));
    encode_utf8_decode_utf8(a);
    encode_utf8_decode_utf8(b);
}

} // verus!
