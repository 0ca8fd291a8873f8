//! Writing a JSON value as text, in the compact form: no white space, the
//! members and items in their order.

use vstd::prelude::*;
use vstd::string::StringExecFns;
use vstd::string::axiom_spec_iter;
use crate::json::{Json, JsonValue};
use crate::text::{digit, digit_char, signed_decimal, push_signed_decimal};

verus! {

/// The lower-case hexadecimal digit of `d`.
pub open spec fn lower_hex(d: int) -> char {
    if d < 10 {
        digit(d)
    } else if d == 10 {
        'a'
    } else if d == 11 {
        'b'
    } else if d == 12 {
        'c'
    } else if d == 13 {
        'd'
    } else if d == 14 {
        'e'
    } else {
        'f'
    }
}

/// How one character stands inside a JSON string: the quotation mark and the
/// backslash behind a backslash, the control characters below U+0020 by their
/// short form where they have one and as `\u00` with two hexadecimal digits
/// otherwise, and every other character as itself.
pub open spec fn escape_char(c: char) -> Seq<char> {
    if c == '"' {
        seq!['\\', '"']
    } else if c == '\\' {
        seq!['\\', '\\']
    } else if c == '\u{08}' {
        seq!['\\', 'b']
    } else if c == '\u{09}' {
        seq!['\\', 't']
    } else if c == '\u{0a}' {
        seq!['\\', 'n']
    } else if c == '\u{0c}' {
        seq!['\\', 'f']
    } else if c == '\u{0d}' {
        seq!['\\', 'r']
    } else if (c as u32) < 0x20 {
        seq!['\\', 'u', '0', '0', lower_hex(c as u32 as int / 16), lower_hex(c as u32 as int % 16)]
    } else {
        seq![c]
    }
}

/// The characters escaped one after the other.
pub open spec fn escape_chars(text: Seq<char>) -> Seq<char>
    decreases text.len(),
{
    if text.len() == 0 {
        Seq::empty()
    } else {
        escape_chars(text.drop_last()) + escape_char(text.last())
    }
}

/// A JSON string: the escaped text between quotation marks.
pub open spec fn quoted(text: Seq<char>) -> Seq<char> {
    seq!['"'] + escape_chars(text) + seq!['"']
}

/// The text of a JSON value.
pub open spec fn render(value: JsonValue) -> Seq<char>
    decreases value, 0nat,
{
    match value {
        JsonValue::Null => "null"@,
        JsonValue::Bool(b) => if b {
            "true"@
        } else {
            "false"@
        },
        JsonValue::Integer(n) => signed_decimal(n),
        JsonValue::Real(literal) => literal,
        JsonValue::Text(text) => quoted(text),
        JsonValue::Array(items) => seq!['['] + render_items(items, items.len()) + seq![']'],
        JsonValue::Object(members) => seq!['{'] + render_members(members, members.len()) + seq![
            '}',
        ],
    }
}

/// The first `n` items of an array, separated by commas.
pub open spec fn render_items(items: Seq<JsonValue>, n: nat) -> Seq<char>
    decreases items, n,
{
    if n == 0 || n > items.len() {
        Seq::empty()
    } else if n == 1 {
        render(items[0])
    } else {
        render_items(items, (n - 1) as nat) + seq![','] + render(items[n - 1])
    }
}

/// One member of an object: its key as a string, a colon, its value.
pub open spec fn render_member(members: Seq<(Seq<char>, JsonValue)>, i: int) -> Seq<char>
    recommends
        0 <= i < members.len(),
    decreases members, 0nat,
{
    if 0 <= i < members.len() {
        quoted(members[i].0) + seq![':'] + render(members[i].1)
    } else {
        Seq::empty()
    }
}

/// The first `n` members of an object, separated by commas.
pub open spec fn render_members(members: Seq<(Seq<char>, JsonValue)>, n: nat) -> Seq<char>
    decreases members, n,
{
    if n == 0 || n > members.len() {
        Seq::empty()
    } else if n == 1 {
        render_member(members, 0)
    } else {
        render_members(members, (n - 1) as nat) + seq![','] + render_member(members, n - 1)
    }
}

/// The lower-case hexadecimal digit of `d`.
pub fn lower_hex_char(d: u8) -> (c: char)
    requires
        d < 16,
    ensures
        c == lower_hex(d as int),
{
    if d < 10 {
        digit_char(d)
    } else {
        match d {
            10 => 'a',
            11 => 'b',
            12 => 'c',
            13 => 'd',
            14 => 'e',
            _ => 'f',
        }
    }
}

/// Appends one character of a JSON string to `out`.
fn push_escaped_char(out: &mut String, c: char)
    ensures
        final(out)@ == old(out)@ + escape_char(c),
{
    if c == '"' {
        out.push('\\');
        out.push('"');
    } else if c == '\\' {
        out.push('\\');
        out.push('\\');
    } else if c == '\u{08}' {
        out.push('\\');
        out.push('b');
    } else if c == '\u{09}' {
        out.push('\\');
        out.push('t');
    } else if c == '\u{0a}' {
        out.push('\\');
        out.push('n');
    } else if c == '\u{0c}' {
        out.push('\\');
        out.push('f');
    } else if c == '\u{0d}' {
        out.push('\\');
        out.push('r');
    } else if (c as u32) < 0x20 {
        let n: u8 = c as u8;
        out.push('\\');
        out.push('u');
        out.push('0');
        out.push('0');
        out.push(lower_hex_char(n / 16));
        out.push(lower_hex_char(n % 16));
    } else {
        out.push(c);
    }
}

/// Appends `text` as a JSON string to `out`.
pub fn push_quoted(out: &mut String, text: &str)
    ensures
        final(out)@ == old(out)@ + quoted(text@),
{
    out.push('"');
    let chars = text.chars();
    proof {
        axiom_spec_iter(text);
    }
    for c in it: chars
        invariant
            it.seq() == text@,
            out@ == old(out)@ + seq!['"'] + escape_chars(text@.take(it.index())),
    {
        proof {
            let i = it.index();
            assert(text@.take(i + 1).drop_last() =~= text@.take(i));
            assert(text@.take(i + 1).last() == c);
        }
        push_escaped_char(out, c);
    }
    proof {
        assert(text@.take(text@.len() as int) =~= text@);
    }
    out.push('"');
}

impl Json {
    /// Appends the text of this value to `out`.
    pub fn render_into(&self, out: &mut String)
        ensures
            final(out)@ == old(out)@ + render(self@),
        decreases self,
    {
        match self {
            Json::Null => out.append("null"),
            Json::Bool(b) => if *b {
                out.append("true")
            } else {
                out.append("false")
            },
            Json::Integer(n) => push_signed_decimal(out, *n),
            Json::Real(literal) => out.append(literal.as_str()),
            Json::Text(text) => push_quoted(out, text.as_str()),
            Json::Array(items) => {
                let ghost all = self@->Array_0;
                out.push('[');
                let mut i: usize = 0;
                while i < items.len()
                    invariant
                        i <= items@.len(),
                        *self == Json::Array(*items),
                        all.len() == items@.len(),
                        forall|j: int| 0 <= j < items@.len() ==> all[j] == items@[j]@,
                        out@ == old(out)@ + seq!['['] + render_items(all, i as nat),
                    decreases items@.len() - i,
                {
                    if i > 0 {
                        out.push(',');
                    }
                    proof {
                        vstd::std_specs::vec::axiom_vec_index_decreases(*items, i as int);
                        assert(self->Array_0 == *items);
                        assert(decreases_to!(*self => self->Array_0));
                    }
                    items[i].render_into(out);
                    i += 1;
                }
                out.push(']');
            },
            Json::Object(members) => {
                let ghost all = self@->Object_0;
                out.push('{');
                let mut i: usize = 0;
                while i < members.len()
                    invariant
                        i <= members@.len(),
                        *self == Json::Object(*members),
                        all.len() == members@.len(),
                        forall|j: int|
                            0 <= j < members@.len() ==> all[j] == (
                                members@[j].0@,
                                members@[j].1@,
                            ),
                        out@ == old(out)@ + seq!['{'] + render_members(all, i as nat),
                    decreases members@.len() - i,
                {
                    if i > 0 {
                        out.push(',');
                    }
                    push_quoted(out, members[i].0.as_str());
                    out.push(':');
                    proof {
                        vstd::std_specs::vec::axiom_vec_index_decreases(*members, i as int);
                        assert(self->Object_0 == *members);
                        assert(decreases_to!(*self => self->Object_0));
                        assert(decreases_to!(members[i as int] => members[i as int].1));
                    }
                    members[i].1.render_into(out);
                    i += 1;
                    assert(render_member(all, i - 1) == quoted(members@[i - 1].0@) + seq![':'] + render(
                        members@[i - 1].1@,
                    ));
                    assert(out@ =~= old(out)@ + seq!['{'] + render_members(all, i as nat));
                }
                out.push('}');
            },
        }
    }

    /// The text of this value as a fresh string.
    pub fn render(&self) -> (r: String)
        ensures
            r@ == render(self@),
    {
        let mut r = String::new();
        self.render_into(&mut r);
        r
    }
}

} // verus!
