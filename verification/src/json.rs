//! Compact JSON text of strings, numbers, booleans and lists: the canonical text that
//! evidence fingerprints are hashed from.

use vstd::prelude::*;

use crate::text::{chars_of, push_char, views};

verus! {

broadcast use vstd::string::group_string_axioms;

/// One lowercase hexadecimal digit.
pub open spec fn hex_digit(d: u32) -> char {
    if d < 10 {
        ((48 + d) as u8) as char
    } else {
        ((87 + d) as u8) as char
    }
}

/// A character as it stands inside a JSON string.
pub open spec fn json_char(c: char) -> Seq<char> {
    let u = c as u32;
    if c == '"' {
        seq!['\\', '"']
    } else if c == '\\' {
        seq!['\\', '\\']
    } else if u == 8 {
        seq!['\\', 'b']
    } else if u == 12 {
        seq!['\\', 'f']
    } else if u == 10 {
        seq!['\\', 'n']
    } else if u == 13 {
        seq!['\\', 'r']
    } else if u == 9 {
        seq!['\\', 't']
    } else if u < 32 {
        seq!['\\', 'u', '0', '0', hex_digit(u / 16), hex_digit(u % 16)]
    } else {
        seq![c]
    }
}

/// The characters of `s`, each as it stands inside a JSON string.
pub open spec fn json_escaped(s: Seq<char>) -> Seq<char>
    decreases s.len(),
{
    if s.len() == 0 {
        Seq::empty()
    } else {
        json_escaped(s.drop_last()) + json_char(s.last())
    }
}

/// `s` as a JSON string.
pub open spec fn json_string(s: Seq<char>) -> Seq<char> {
    seq!['"'] + json_escaped(s) + seq!['"']
}

/// An optional string as JSON: the string, or `null`.
pub open spec fn json_opt_string(s: Option<Seq<char>>) -> Seq<char> {
    match s {
        Some(v) => json_string(v),
        None => "null"@,
    }
}

/// A boolean as JSON.
pub open spec fn json_bool(b: bool) -> Seq<char> {
    if b {
        "true"@
    } else {
        "false"@
    }
}

/// A number in decimal.
pub open spec fn json_uint(n: nat) -> Seq<char>
    decreases n,
{
    if n < 10 {
        seq![hex_digit(n as u32)]
    } else {
        json_uint(n / 10).push(hex_digit((n % 10) as u32))
    }
}

/// JSON values, written one after another with commas between them.
pub open spec fn json_items(items: Seq<Seq<char>>) -> Seq<char>
    decreases items.len(),
{
    if items.len() == 0 {
        Seq::empty()
    } else if items.len() == 1 {
        items[0]
    } else {
        json_items(items.drop_last()) + ","@ + items.last()
    }
}

/// JSON values as a JSON array.
pub open spec fn json_array(items: Seq<Seq<char>>) -> Seq<char> {
    "["@ + json_items(items) + "]"@
}

/// One member of a JSON object: its quoted name, a colon and its value.
pub open spec fn json_member(name: Seq<char>, value: Seq<char>) -> Seq<char> {
    json_string(name) + ":"@ + value
}

/// JSON members as a JSON object.
pub open spec fn json_object(members: Seq<Seq<char>>) -> Seq<char> {
    "{"@ + json_items(members) + "}"@
}

fn hex_char(d: u32) -> (c: char)
    requires
        d < 16,
    ensures
        c == hex_digit(d),
{
    if d < 10 {
        ((48 + d) as u8) as char
    } else {
        ((87 + d) as u8) as char
    }
}

/// Appends `s` as a JSON string to `out`.
pub fn push_json_string(out: &mut String, s: &str)
    ensures
        final(out)@ == old(out)@ + json_string(s@),
{
    let chars = chars_of(s);
    push_char(out, '"');
    let ghost start = out@;
    let mut i: usize = 0;
    while i < chars.len()
        invariant
            chars@ == s@,
            i <= chars@.len(),
            out@ == start + json_escaped(s@.take(i as int)),
        decreases chars@.len() - i,
    {
        let c = chars[i];
        let u = c as u32;
        let ghost before = out@;
        if c == '"' {
            push_char(out, '\\');
            push_char(out, '"');
        } else if c == '\\' {
            push_char(out, '\\');
            push_char(out, '\\');
        } else if u == 8 {
            push_char(out, '\\');
            push_char(out, 'b');
        } else if u == 12 {
            push_char(out, '\\');
            push_char(out, 'f');
        } else if u == 10 {
            push_char(out, '\\');
            push_char(out, 'n');
        } else if u == 13 {
            push_char(out, '\\');
            push_char(out, 'r');
        } else if u == 9 {
            push_char(out, '\\');
            push_char(out, 't');
        } else if u < 32 {
            push_char(out, '\\');
            push_char(out, 'u');
            push_char(out, '0');
            push_char(out, '0');
            push_char(out, hex_char(u / 16));
            push_char(out, hex_char(u % 16));
        } else {
            push_char(out, c);
        }
        assert(out@ =~= before + json_char(c));
        assert(s@.take(i as int + 1).drop_last() =~= s@.take(i as int));
        i = i + 1;
    }
    assert(s@.take(s@.len() as int) =~= s@);
    push_char(out, '"');
}

/// Appends an optional string as JSON to `out`.
pub fn push_json_opt_string(out: &mut String, s: &Option<String>)
    ensures
        final(out)@ == old(out)@ + json_opt_string(match s {
            Some(v) => Some(v@),
            None => None,
        }),
{
    match s {
        Some(v) => push_json_string(out, v.as_str()),
        None => out.append("null"),
    }
}

/// Appends a boolean as JSON to `out`.
pub fn push_json_bool(out: &mut String, b: bool)
    ensures
        final(out)@ == old(out)@ + json_bool(b),
{
    if b {
        out.append("true");
    } else {
        out.append("false");
    }
}

/// Appends a number in decimal to `out`.
pub fn push_json_uint(out: &mut String, n: u64)
    ensures
        final(out)@ == old(out)@ + json_uint(n as nat),
    decreases n,
{
    if n >= 10 {
        push_json_uint(out, n / 10);
    }
    let d = (n % 10) as u32;
    push_char(out, hex_char(d));
}

/// JSON values, given as their texts, with commas between them.
pub fn items_text(items: &Vec<String>) -> (r: String)
    ensures
        r@ == json_items(views(items@)),
{
    let mut out = String::new();
    let mut i: usize = 0;
    while i < items.len()
        invariant
            i <= items@.len(),
            out@ == json_items(views(items@).take(i as int)),
        decreases items@.len() - i,
    {
        let ghost t = views(items@).take(i as int + 1);
        assert(t.drop_last() =~= views(items@).take(i as int));
        assert(t.last() == items@[i as int]@);
        if i > 0 {
            out.append(",");
        } else {
            assert(views(items@).take(0) =~= Seq::<Seq<char>>::empty());
        }
        out.append(items[i].as_str());
        i = i + 1;
    }
    assert(views(items@).take(items@.len() as int) =~= views(items@));
    out
}

/// JSON values, given as their texts, as a JSON array.
pub fn array_text(items: &Vec<String>) -> (r: String)
    ensures
        r@ == json_array(views(items@)),
{
    let mut out = "[".to_string();
    let inner = items_text(items);
    out.append(inner.as_str());
    out.append("]");
    out
}

/// JSON members, given as their texts, as a JSON object.
pub fn object_text(members: &Vec<String>) -> (r: String)
    ensures
        r@ == json_object(views(members@)),
{
    let mut out = "{".to_string();
    let inner = items_text(members);
    out.append(inner.as_str());
    out.append("}");
    out
}

/// A JSON member whose value is given as its text.
pub fn member_text(name: &str, value: &str) -> (r: String)
    ensures
        r@ == json_member(name@, value@),
{
    let mut out = String::new();
    push_json_string(&mut out, name);
    out.append(":");
    out.append(value);
    out
}

/// A string as JSON text.
pub fn string_text(value: &str) -> (r: String)
    ensures
        r@ == json_string(value@),
{
    let mut out = String::new();
    push_json_string(&mut out, value);
    out
}

/// An optional string as JSON text.
pub fn opt_string_text(value: &Option<String>) -> (r: String)
    ensures
        r@ == json_opt_string(match value {
            Some(v) => Some(v@),
            None => None,
        }),
{
    let mut out = String::new();
    push_json_opt_string(&mut out, value);
    out
}

} // verus!
