//! The greeting endpoint's response body: a JSON object with the bound
//! username, the optional typed age, and the `query` field, which the
//! optional `username` query parameter overrides and which otherwise holds
//! the literal text `no username`.

use vstd::prelude::*;
use crate::text::{push_char, spec_u32_dec, u32_to_dec};

verus! {

pub open spec fn hex_digit(d: int) -> char {
    if d < 10 {
        (48 + d) as char
    } else {
        (87 + d) as char
    }
}

/// How one character appears inside a JSON string literal: quote, backslash
/// and the named control characters take two-character escapes, the other
/// control characters a `\u00..` escape, everything else stands as it is.
pub open spec fn escape_char(c: char) -> Seq<char> {
    if c == '"' {
        seq!['\\', '"']
    } else if c == '\\' {
        seq!['\\', '\\']
    } else if c == '\u{8}' {
        seq!['\\', 'b']
    } else if c == '\u{c}' {
        seq!['\\', 'f']
    } else if c == '\n' {
        seq!['\\', 'n']
    } else if c == '\r' {
        seq!['\\', 'r']
    } else if c == '\t' {
        seq!['\\', 't']
    } else if (c as u32) < 32 {
        seq!['\\', 'u', '0', '0', hex_digit(c as u32 as int / 16), hex_digit(c as u32 as int % 16)]
    } else {
        seq![c]
    }
}

/// A whole text escaped for inclusion in a JSON string literal.
pub open spec fn json_escaped(s: Seq<char>) -> Seq<char>
    decreases s.len(),
{
    if s.len() == 0 {
        Seq::<char>::empty()
    } else {
        json_escaped(s.drop_last()) + escape_char(s.last())
    }
}

fn push_hex_digit(out: &mut String, d: u32)
    requires
        d < 16,
    ensures
        final(out)@ == old(out)@.push(hex_digit(d as int)),
{
    if d < 10 {
        push_char(out, (48 + d as u8) as char);
    } else {
        push_char(out, (87 + d as u8) as char);
    }
}

fn escape_into(s: &str, out: &mut String)
    ensures
        final(out)@ == old(out)@ + json_escaped(s@),
{
    let n = s.unicode_len();
    let mut i: usize = 0;
    proof {
        assert(s@.take(0) =~= Seq::<char>::empty());
        assert(out@ =~= old(out)@ + json_escaped(s@.take(0)));
    }
    while i < n
        invariant
            n == s@.len(),
            i <= n,
            out@ == old(out)@ + json_escaped(s@.take(i as int)),
        decreases n - i,
    {
        let c = s.get_char(i);
        proof {
            assert(s@.take(i + 1).drop_last() =~= s@.take(i as int));
            assert(s@.take(i + 1).last() == s@[i as int]);
        }
        if c == '"' {
            push_char(out, '\\');
            push_char(out, '"');
        } else if c == '\\' {
            push_char(out, '\\');
            push_char(out, '\\');
        } else if c == '\u{8}' {
            push_char(out, '\\');
            push_char(out, 'b');
        } else if c == '\u{c}' {
            push_char(out, '\\');
            push_char(out, 'f');
        } else if c == '\n' {
            push_char(out, '\\');
            push_char(out, 'n');
        } else if c == '\r' {
            push_char(out, '\\');
            push_char(out, 'r');
        } else if c == '\t' {
            push_char(out, '\\');
            push_char(out, 't');
        } else if (c as u32) < 32 {
            let d = c as u32;
            push_char(out, '\\');
            push_char(out, 'u');
            push_char(out, '0');
            push_char(out, '0');
            push_hex_digit(out, d / 16);
            push_hex_digit(out, d % 16);
        } else {
            push_char(out, c);
        }
        proof {
            assert(out@ =~= old(out)@ + json_escaped(s@.take(i + 1)));
        }
        i = i + 1;
    }
    proof {
        assert(s@.take(n as int) =~= s@);
    }
}

/// The view of an optional borrowed string.
pub open spec fn opt_str_view(q: Option<&str>) -> Option<Seq<char>> {
    match q {
        Some(s) => Some(s@),
        None => None,
    }
}

/// What the `query` field holds: the `username` query parameter when it is
/// present, the literal text `no username` otherwise.
pub open spec fn greet_query(q: Option<Seq<char>>) -> Seq<char> {
    match q {
        Some(v) => v,
        None => "no username"@,
    }
}

/// The greeting response body, character for character.
pub open spec fn spec_greet_body(name: Seq<char>, age: Option<u32>, q: Option<Seq<char>>) -> Seq<
    char,
> {
    "{\"name\":\""@ + json_escaped(name) + "\",\"age\":"@ + (match age {
        Some(n) => spec_u32_dec(n as int),
        None => "null"@,
    }) + ",\"query\":\""@ + json_escaped(greet_query(q)) + "\"}"@
}

/// Renders the greeting endpoint's JSON body for the bound path parameters
/// and the optional `username` query parameter.
pub fn greet_body(username: &str, age: Option<u32>, query_username: Option<&str>) -> (r: String)
    ensures
        r@ == spec_greet_body(username@, age, opt_str_view(query_username)),
{
    let mut out = String::from_str("{\"name\":\"");
    escape_into(username, &mut out);
    out.append("\",\"age\":");
    match age {
        Some(n) => {
            let t = u32_to_dec(n);
            out.append(t.as_str());
        },
        None => {
            out.append("null");
        },
    }
    out.append(",\"query\":\"");
    match query_username {
        Some(q) => {
            escape_into(q, &mut out);
        },
        None => {
            escape_into("no username", &mut out);
        },
    }
    out.append("\"}");
    proof {
        assert(out@ =~= spec_greet_body(username@, age, opt_str_view(query_username)));
    }
    out
}

} // verus!
