//! JSON text pieces: string literals (through serde_json) and decimal integers.

use vstd::prelude::*;
use vstd::string::*;

verus! {

#[verifier::external_type_specification]
#[verifier::external_body]
pub struct ExJsonError(serde_json::Error);

/// The hexadecimal digit of `d` (`d < 16`), lower case.
pub open spec fn hex_digit(d: nat) -> char {
    if d < 10 {
        (('0' as nat) + d) as char
    } else {
        (('a' as nat) + d - 10) as char
    }
}

/// How one character stands inside a JSON string: quote, backslash and the
/// control characters below U+0020 are escaped, everything else is kept.
pub open spec fn json_escape_char(c: char) -> Seq<char> {
    if c == '"' {
        seq!['\\', '"']
    } else if c == '\\' {
        seq!['\\', '\\']
    } else if c == '\u{8}' {
        seq!['\\', 'b']
    } else if c == '\u{c}' {
        seq!['\\', 'f']
    } else if c == '\n' {
        seq!['\\', 'n']
    } else if c == '\r' {
        seq!['\\', 'r']
    } else if c == '\t' {
        seq!['\\', 't']
    } else if (c as nat) < 0x20 {
        seq!['\\', 'u', '0', '0', hex_digit((c as nat) / 16), hex_digit((c as nat) % 16)]
    } else {
        seq![c]
    }
}

pub open spec fn json_escaped(s: Seq<char>) -> Seq<char>
    decreases s.len(),
{
    if s.len() == 0 {
        Seq::empty()
    } else {
        json_escaped(s.drop_last()) + json_escape_char(s.last())
    }
}

/// The JSON string literal for `s`.
pub open spec fn json_quoted(s: Seq<char>) -> Seq<char> {
    seq!['"'] + json_escaped(s) + seq!['"']
}

/// Calls `serde_json::to_string` on a `str`. Claimed: it succeeds, and the text
/// is the quoted string with serde_json's escapes (its `ESCAPE` table and
/// `CompactFormatter::write_char_escape`): `\"`, `\\`, `\b`, `\f`, `\n`, `\r`, `\t`,
/// `\u00xx` (lower-case hex) for the other bytes below 0x20, every other byte as is.
/// Only ASCII bytes are ever escaped, so escaping the bytes is escaping the characters.
#[verifier::external_body]
fn serde_json_str(s: &str) -> (r: Result<String, serde_json::Error>)
    ensures
        r is Ok,
        r->Ok_0@ == json_quoted(s@),
{
    serde_json::to_string(s)
}

/// The JSON string literal for `s`, as serde_json writes it.
pub fn json_string(s: &str) -> (q: String)
    ensures
        q@ == json_quoted(s@),
{
    match serde_json_str(s) {
        Ok(q) => q,
        Err(_) => String::new(),
    }
}

/// The decimal digit character of `d` (`d < 10`).
pub open spec fn digit_char(d: nat) -> char {
    (('0' as nat) + d) as char
}

/// The decimal representation of `n`, without leading zeros.
pub open spec fn decimal(n: nat) -> Seq<char>
    decreases n,
{
    if n < 10 {
        seq![digit_char(n)]
    } else {
        decimal(n / 10) + seq![digit_char(n % 10)]
    }
}

/// Calls `String::push`.
#[verifier::external_body]
pub(crate) fn push_char(s: &mut String, c: char)
    ensures
        final(s)@ == old(s)@.push(c),
{
    s.push(c);
}

fn digit(d: u64) -> (c: char)
    requires
        d < 10,
    ensures
        c == digit_char(d as nat),
{
    match d {
        0 => '0',
        1 => '1',
        2 => '2',
        3 => '3',
        4 => '4',
        5 => '5',
        6 => '6',
        7 => '7',
        8 => '8',
        _ => '9',
    }
}

/// Appends the decimal representation of `n`.
pub(crate) fn push_decimal(out: &mut String, n: u64)
    ensures
        final(out)@ == old(out)@ + decimal(n as nat),
    decreases n,
{
    if n >= 10 {
        push_decimal(out, n / 10);
    }
    push_char(out, digit(n % 10));
    assert(n < 10 ==> decimal(n as nat) =~= seq![digit_char(n as nat)]);
}


// ---------------------------------------------------------------------------
// JSON objects
// ---------------------------------------------------------------------------
/// `"key":value`, the value being JSON text.
pub open spec fn json_member(key: Seq<char>, value: Seq<char>) -> Seq<char> {
    json_quoted(key) + seq![':'] + value
}

/// The members separated by commas.
pub open spec fn json_members(m: Seq<(Seq<char>, Seq<char>)>) -> Seq<char>
    decreases m.len(),
{
    if m.len() == 0 {
        Seq::empty()
    } else if m.len() == 1 {
        json_member(m[0].0, m[0].1)
    } else {
        json_members(m.drop_last()) + seq![','] + json_member(m.last().0, m.last().1)
    }
}

/// The JSON object with these members, in this order.
pub open spec fn json_object(m: Seq<(Seq<char>, Seq<char>)>) -> Seq<char> {
    seq!['{'] + json_members(m) + seq!['}']
}

pub proof fn lemma_members_take(m: Seq<(Seq<char>, Seq<char>)>, k: int)
    requires
        1 <= k < m.len(),
    ensures
        json_members(m.take(k + 1)) == json_members(m.take(k)) + seq![','] + json_member(
            m[k].0,
            m[k].1,
        ),
{
    assert(m.take(k + 1).drop_last() =~= m.take(k));
}

pub proof fn lemma_members_one(m: Seq<(Seq<char>, Seq<char>)>)
    requires
        1 <= m.len(),
    ensures
        json_members(m.take(1)) == json_member(m[0].0, m[0].1),
{
}

/// Appends the member `"key":value_text`, after a comma unless it is the first.
pub(crate) fn push_member(out: &mut String, first: bool, key: &str, value_text: &str)
    ensures
        final(out)@ == old(out)@ + (if first {
            Seq::<char>::empty()
        } else {
            seq![',']
        }) + json_member(key@, value_text@),
{
    if !first {
        push_char(out, ',');
    }
    let k = json_string(key);
    out.append(k.as_str());
    push_char(out, ':');
    out.append(value_text);
}

pub open spec fn member_views(m: Seq<(String, String)>) -> Seq<(Seq<char>, Seq<char>)> {
    m.map_values(|p: (String, String)| (p.0@, p.1@))
}

/// The JSON object whose members are the given keys with the given JSON value texts.
pub fn json_object_text(members: &Vec<(String, String)>) -> (s: String)
    ensures
        s@ == json_object(member_views(members@)),
{
    let ghost m = member_views(members@);
    let mut s = String::new();
    push_char(&mut s, '{');
    let mut i: usize = 0;
    while i < members.len()
        invariant
            0 <= i <= members@.len(),
            m == member_views(members@),
            s@ == seq!['{'] + json_members(m.take(i as int)),
        decreases members@.len() - i,
    {
        push_member(&mut s, i == 0, members[i].0.as_str(), members[i].1.as_str());
        proof {
            if i == 0 {
                lemma_members_one(m);
            } else {
                lemma_members_take(m, i as int);
            }
        }
        i += 1;
    }
    assert(m.take(members@.len() as int) =~= m);
    push_char(&mut s, '}');
    s
}

// ---------------------------------------------------------------------------
// Reading JSON text back
// ---------------------------------------------------------------------------
/// The value of a hexadecimal digit.
pub open spec fn hex_value(c: char) -> Option<nat> {
    let u = c as nat;
    if 0x30 <= u <= 0x39 {
        Some((u - 0x30) as nat)
    } else if 0x61 <= u <= 0x66 {
        Some((u - 0x61 + 10) as nat)
    } else if 0x41 <= u <= 0x46 {
        Some((u - 0x41 + 10) as nat)
    } else {
        None
    }
}

pub open spec fn prepend_to(c: char, rest: Option<Seq<char>>) -> Option<Seq<char>> {
    match rest {
        Some(r) => Some(seq![c] + r),
        None => None,
    }
}

/// The text a JSON string body (between its quotes) stands for, by RFC 8259;
/// `None` when it is not a well-formed body. Surrogate `\u` escapes are not read.
pub open spec fn json_unescape(t: Seq<char>) -> Option<Seq<char>>
    decreases t.len(),
{
    if t.len() == 0 {
        Some(Seq::empty())
    } else if t[0] == '\\' {
        if t.len() < 2 {
            None
        } else if t[1] == '"' || t[1] == '\\' || t[1] == '/' {
            prepend_to(t[1], json_unescape(t.skip(2)))
        } else if t[1] == 'b' {
            prepend_to('\u{8}', json_unescape(t.skip(2)))
        } else if t[1] == 'f' {
            prepend_to('\u{c}', json_unescape(t.skip(2)))
        } else if t[1] == 'n' {
            prepend_to('\n', json_unescape(t.skip(2)))
        } else if t[1] == 'r' {
            prepend_to('\r', json_unescape(t.skip(2)))
        } else if t[1] == 't' {
            prepend_to('\t', json_unescape(t.skip(2)))
        } else if t[1] == 'u' && t.len() >= 6 && hex_value(t[2]) is Some && hex_value(t[3]) is Some
            && hex_value(t[4]) is Some && hex_value(t[5]) is Some {
            let v = hex_value(t[2])->0 * 4096 + hex_value(t[3])->0 * 256 + hex_value(t[4])->0 * 16
                + hex_value(t[5])->0;
            if v < 0xD800 || 0xDFFF < v {
                prepend_to(v as char, json_unescape(t.skip(6)))
            } else {
                None
            }
        } else {
            None
        }
    } else if t[0] == '"' || (t[0] as nat) < 0x20 {
        None
    } else {
        prepend_to(t[0], json_unescape(t.skip(1)))
    }
}

/// The text a JSON string literal stands for; `None` when it is not one.
pub open spec fn json_string_value(lit: Seq<char>) -> Option<Seq<char>> {
    if lit.len() >= 2 && lit[0] == '"' && lit.last() == '"' {
        json_unescape(lit.subrange(1, lit.len() - 1))
    } else {
        None
    }
}

/// The number a run of decimal digits stands for; `None` when it is not one.
pub open spec fn digits_value(t: Seq<char>) -> Option<nat>
    decreases t.len(),
{
    if t.len() == 0 {
        None
    } else {
        let u = t.last() as nat;
        if 0x30 <= u <= 0x39 {
            if t.len() == 1 {
                Some((u - 0x30) as nat)
            } else {
                match digits_value(t.drop_last()) {
                    Some(v) => Some(v * 10 + (u - 0x30) as nat),
                    None => None,
                }
            }
        } else {
            None
        }
    }
}

proof fn lemma_escaped_front(c: char, s: Seq<char>)
    ensures
        json_escaped(seq![c] + s) == json_escape_char(c) + json_escaped(s),
    decreases s.len(),
{
    if s.len() == 0 {
        assert(seq![c] + s =~= seq![c]);
        assert(seq![c].drop_last() =~= Seq::<char>::empty());
        assert(seq![c].last() == c);
        assert(json_escaped(Seq::<char>::empty()) =~= Seq::<char>::empty());
        assert(json_escaped(seq![c]) =~= json_escape_char(c));
        assert(json_escape_char(c) + json_escaped(s) =~= json_escape_char(c));
    } else {
        lemma_escaped_front(c, s.drop_last());
        assert((seq![c] + s).drop_last() =~= seq![c] + s.drop_last());
        assert((seq![c] + s).last() == s.last());
        assert(json_escaped(seq![c] + s) =~= json_escape_char(c) + json_escaped(s));
    }
}

proof fn lemma_hex_digit_value(d: nat)
    requires
        d < 16,
    ensures
        hex_value(hex_digit(d)) == Some(d),
{
}

proof fn lemma_unescape_char(c: char, rest: Seq<char>)
    ensures
        json_unescape(json_escape_char(c) + rest) == prepend_to(c, json_unescape(rest)),
{
    let t = json_escape_char(c) + rest;
    if c == '"' || c == '\\' || c == '\u{8}' || c == '\u{c}' || c == '\n' || c == '\r' || c
        == '\t' {
        assert(t.skip(2) =~= rest);
    } else if (c as nat) < 0x20 {
        let n = c as nat;
        lemma_hex_digit_value(n / 16);
        lemma_hex_digit_value(n % 16);
        assert(hex_value('0') == Some(0nat));
        assert(t[2] == '0' && t[3] == '0');
        assert(t[4] == hex_digit(n / 16) && t[5] == hex_digit(n % 16));
        let v = hex_value(t[2])->0 * 4096 + hex_value(t[3])->0 * 256 + hex_value(t[4])->0 * 16
            + hex_value(t[5])->0;
        assert(v == n);
        assert((v as char) == c);
        assert(t.skip(6) =~= rest);
    } else {
        assert(t.skip(1) =~= rest);
    }
}

proof fn lemma_unescape_escaped(s: Seq<char>)
    ensures
        json_unescape(json_escaped(s)) == Some(s),
    decreases s.len(),
{
    if s.len() == 0 {
        assert(json_escaped(s) =~= Seq::<char>::empty());
    } else {
        let rest = s.skip(1);
        assert(s =~= seq![s[0]] + rest);
        lemma_escaped_front(s[0], rest);
        lemma_unescape_char(s[0], json_escaped(rest));
        lemma_unescape_escaped(rest);
    }
}

/// Every JSON string literal written here reads back as the text it was written from.
pub proof fn law_json_string_reads_back(s: Seq<char>)
    ensures
        json_string_value(json_quoted(s)) == Some(s),
{
    let q = json_quoted(s);
    assert(q.subrange(1, q.len() - 1) =~= json_escaped(s));
    lemma_unescape_escaped(s);
}

/// Every decimal number written here reads back as the number it was written from.
pub proof fn law_decimal_reads_back(n: nat)
    ensures
        digits_value(decimal(n)) == Some(n),
    decreases n,
{
    if n >= 10 {
        law_decimal_reads_back(n / 10);
        let d = decimal(n);
        assert(d.drop_last() =~= decimal(n / 10));
        assert(d.last() == digit_char(n % 10));
    }
}

} // verus!
