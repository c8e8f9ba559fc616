//! Diagnostic metadata validation.

use vstd::prelude::*;

use crate::json::{json_uint, push_json_uint};
use crate::model::diagnostic::GraphBasis;
use crate::text::{chars_of, is_unicode_whitespace, str_eq, views};

verus! {

broadcast use vstd::string::group_string_axioms;

/// The most bytes of a stable identifier.
pub const MAX_ID_BYTES: usize = 128;

/// The most bytes of a free-text field.
pub const MAX_TEXT_BYTES: usize = 8192;

/// The most items of a list field.
pub const MAX_LIST_ITEMS: usize = 256;

/// The number of UTF-8 bytes of one character.
pub open spec fn char_utf8_len(c: char) -> nat {
    let u = c as u32;
    if u < 0x80 {
        1
    } else if u < 0x800 {
        2
    } else if u < 0x10000 {
        3
    } else {
        4
    }
}

/// The number of UTF-8 bytes of a text.
pub open spec fn byte_len(s: Seq<char>) -> nat
    decreases s.len(),
{
    if s.len() == 0 {
        0
    } else {
        byte_len(s.drop_last()) + char_utf8_len(s.last())
    }
}

proof fn lemma_byte_len_grows(s: Seq<char>, i: int, j: int)
    requires
        0 <= i <= j <= s.len(),
    ensures
        byte_len(s.take(i)) <= byte_len(s.take(j)),
    decreases j - i,
{
    if i < j {
        assert(s.take(j).drop_last() =~= s.take(j - 1));
        lemma_byte_len_grows(s, i, j - 1);
    }
}

/// Whether a text takes more than `limit` bytes in UTF-8.
pub fn byte_len_exceeds(value: &str, limit: usize) -> (r: bool)
    ensures
        r == (byte_len(value@) > limit),
{
    let chars = chars_of(value);
    let mut total: usize = 0;
    let mut i: usize = 0;
    while i < chars.len()
        invariant
            chars@ == value@,
            i <= chars@.len(),
            total == byte_len(value@.take(i as int)),
            total <= limit,
        decreases chars@.len() - i,
    {
        assert(value@.take(i as int + 1).drop_last() =~= value@.take(i as int));
        let u = chars[i] as u32;
        let n: usize = if u < 0x80 {
            1
        } else if u < 0x800 {
            2
        } else if u < 0x10000 {
            3
        } else {
            4
        };
        if n > limit - total {
            proof {
                lemma_byte_len_grows(value@, i as int + 1, value@.len() as int);
                assert(value@.take(value@.len() as int) =~= value@);
            }
            return true;
        }
        total = total + n;
        i = i + 1;
    }
    assert(value@.take(value@.len() as int) =~= value@);
    false
}

/// `str`'s `Debug` text of a string: quoted, with its special characters escaped.
pub uninterp spec fn debug_text(s: Seq<char>) -> Seq<char>;

/// Calls `<str as Debug>::fmt` through `format!("{s:?}")`: the string in double quotes,
/// with quotes, backslashes and non-printable characters escaped. The result is named,
/// not stated.
#[verifier::external_body]
pub(crate) fn debug_string(s: &str) -> (r: String)
    ensures
        r@ == debug_text(s@),
{
    format!("{s:?}")
}

/// The error of a list over `max` items, if it is.
pub open spec fn list_error(name: Seq<char>, len: nat, max: nat) -> Option<Seq<char>> {
    if len > max {
        Some(name + " exceeds the bound of "@ + json_uint(max) + " items."@)
    } else {
        None
    }
}

/// Refuses a list of more than `max` items.
pub fn validate_list<T>(name: &str, values: &[T], max: usize) -> (r: Result<(), String>)
    ensures
        match list_error(name@, values@.len(), max as nat) {
            Some(e) => (r matches Err(x) && x@ == e),
            None => r is Ok,
        },
{
    if values.len() > max {
        let mut e = name.to_string();
        e.append(" exceeds the bound of ");
        push_json_uint(&mut e, max as u64);
        e.append(" items.");
        return Err(e);
    }
    Ok(())
}

/// Whether every character of `s` is white space.
pub open spec fn blank(s: Seq<char>) -> bool {
    forall|i: int| 0 <= i < s.len() ==> is_unicode_whitespace(#[trigger] s[i])
}

/// The error of a free-text field that is blank, too long or holds a NUL, if it is.
pub open spec fn text_error(name: Seq<char>, value: Seq<char>) -> Option<Seq<char>> {
    if blank(value) || byte_len(value) > MAX_TEXT_BYTES || value.contains('\0') {
        Some(name + " must be non-empty and bounded."@)
    } else {
        None
    }
}

fn is_blank(value: &str) -> (r: bool)
    ensures
        r == blank(value@),
{
    let chars = chars_of(value);
    let mut i: usize = 0;
    while i < chars.len()
        invariant
            chars@ == value@,
            i <= chars@.len(),
            forall|k: int| 0 <= k < i ==> is_unicode_whitespace(#[trigger] value@[k]),
        decreases chars@.len() - i,
    {
        let u = chars[i] as u32;
        let ws = (0x09 <= u && u <= 0x0D) || u == 0x20 || u == 0x85 || u == 0xA0 || u == 0x1680 || (0x2000 <= u
            && u <= 0x200A) || u == 0x2028 || u == 0x2029 || u == 0x202F || u == 0x205F || u == 0x3000;
        if !ws {
            return false;
        }
        i = i + 1;
    }
    true
}

/// Refuses a blank, over-long or NUL-holding free-text field.
pub fn validate_text(name: &str, value: &str) -> (r: Result<(), String>)
    ensures
        match text_error(name@, value@) {
            Some(e) => (r matches Err(x) && x@ == e),
            None => r is Ok,
        },
{
    if is_blank(value) || byte_len_exceeds(value, MAX_TEXT_BYTES) || crate::text::contains_char(value, '\0') {
        let mut e = name.to_string();
        e.append(" must be non-empty and bounded.");
        return Err(e);
    }
    Ok(())
}

/// Whether `c` may stand in a stable identifier.
pub open spec fn id_char(c: char) -> bool {
    ('a' <= c && c <= 'z') || ('A' <= c && c <= 'Z') || ('0' <= c && c <= '9') || c == '.' || c == '_' || c == ':' || c == '-'
}

/// The error of an identifier that is empty, too long, or holds other than ASCII letters,
/// digits and `._:-`, if it is.
pub open spec fn id_error(name: Seq<char>, value: Seq<char>) -> Option<Seq<char>> {
    if value.len() == 0 || byte_len(value) > MAX_ID_BYTES || exists|i: int| 0 <= i < value.len() && !id_char(#[trigger] value[i]) {
        Some(name + " must be a bounded stable identifier."@)
    } else {
        None
    }
}

/// Refuses an identifier that is not a bounded stable identifier.
pub fn validate_id(name: &str, value: &str) -> (r: Result<(), String>)
    ensures
        match id_error(name@, value@) {
            Some(e) => (r matches Err(x) && x@ == e),
            None => r is Ok,
        },
{
    let chars = chars_of(value);
    let mut bad = false;
    let mut i: usize = 0;
    while i < chars.len()
        invariant
            chars@ == value@,
            i <= chars@.len(),
            bad == exists|k: int| 0 <= k < i && !id_char(#[trigger] value@[k]),
        decreases chars@.len() - i,
    {
        let c = chars[i];
        let ok = ('a' <= c && c <= 'z') || ('A' <= c && c <= 'Z') || ('0' <= c && c <= '9') || c == '.' || c == '_'
            || c == ':' || c == '-';
        if !ok {
            bad = true;
        }
        i = i + 1;
    }
    if chars.len() == 0 || byte_len_exceeds(value, MAX_ID_BYTES) || bad {
        let mut e = name.to_string();
        e.append(" must be a bounded stable identifier.");
        return Err(e);
    }
    Ok(())
}

/// The error of a value that is none of `allowed`, if it is none.
pub open spec fn choice_error(name: Seq<char>, value: Seq<char>, allowed: Seq<Seq<char>>) -> Option<Seq<char>> {
    if allowed.contains(value) {
        None
    } else {
        Some("Unsupported "@ + name + " "@ + debug_text(value) + "."@)
    }
}

/// Refuses a value that is none of `allowed`.
pub fn validate_choice(name: &str, value: &str, allowed: &[&str]) -> (r: Result<(), String>)
    ensures
        match choice_error(name@, value@, allowed@.map_values(|a: &str| a@)) {
            Some(e) => (r matches Err(x) && x@ == e),
            None => r is Ok,
        },
{
    let mut i: usize = 0;
    while i < allowed.len()
        invariant
            i <= allowed@.len(),
            forall|k: int| 0 <= k < i ==> allowed@[k]@ != value@,
        decreases allowed@.len() - i,
    {
        if str_eq(allowed[i], value) {
            assert(allowed@.map_values(|a: &str| a@)[i as int] == value@);
            return Ok(());
        }
        i = i + 1;
    }
    proof {
        let av = allowed@.map_values(|a: &str| a@);
        if av.contains(value@) {
            let k = choose|k: int| 0 <= k < av.len() && av[k] == value@;
            assert(allowed@[k]@ == value@);
        }
    }
    let mut e = "Unsupported ".to_string();
    e.append(name);
    e.append(" ");
    let quoted = debug_string(value);
    e.append(quoted.as_str());
    e.append(".");
    Err(e)
}

/// Characters that may not stand in a Git revision token.
pub open spec fn revision_forbidden(c: char) -> bool {
    is_unicode_whitespace(c) || c == ';' || c == '|' || c == '&' || c == '`' || c == '\0'
}

/// The error of a Git revision that is not a bounded single token, if it is not.
pub open spec fn revision_error(value: Seq<char>) -> Option<Seq<char>> {
    if value.len() == 0 || byte_len(value) > 128 || exists|i: int| 0 <= i < value.len() && revision_forbidden(#[trigger] value[i]) {
        Some("Git revision must be a bounded single token."@)
    } else {
        None
    }
}

/// Refuses a Git revision that is not a bounded single token.
pub fn validate_revision(value: &str) -> (r: Result<(), String>)
    ensures
        match revision_error(value@) {
            Some(e) => (r matches Err(x) && x@ == e),
            None => r is Ok,
        },
{
    let chars = chars_of(value);
    let mut bad = false;
    let mut i: usize = 0;
    while i < chars.len()
        invariant
            chars@ == value@,
            i <= chars@.len(),
            bad == exists|k: int| 0 <= k < i && revision_forbidden(#[trigger] value@[k]),
        decreases chars@.len() - i,
    {
        let c = chars[i];
        let u = c as u32;
        let ws = (0x09 <= u && u <= 0x0D) || u == 0x20 || u == 0x85 || u == 0xA0 || u == 0x1680 || (0x2000 <= u
            && u <= 0x200A) || u == 0x2028 || u == 0x2029 || u == 0x202F || u == 0x205F || u == 0x3000;
        if ws || c == ';' || c == '|' || c == '&' || c == '`' || c == '\0' {
            bad = true;
        }
        i = i + 1;
    }
    if chars.len() == 0 || byte_len_exceeds(value, 128) || bad {
        return Err("Git revision must be a bounded single token.".to_string());
    }
    Ok(())
}

/// The first error of a list of free-text items: too many, or an item that is not valid text.
pub open spec fn string_list_error(name: Seq<char>, values: Seq<Seq<char>>) -> Option<Seq<char>> {
    match list_error(name, values.len(), MAX_LIST_ITEMS as nat) {
        Some(e) => Some(e),
        None => first_text_error(name, values),
    }
}

/// The error of the first item of `values` that is not valid text.
pub open spec fn first_text_error(name: Seq<char>, values: Seq<Seq<char>>) -> Option<Seq<char>>
    decreases values.len(),
{
    if values.len() == 0 {
        None
    } else {
        match text_error(name, values[0]) {
            Some(e) => Some(e),
            None => first_text_error(name, values.drop_first()),
        }
    }
}

proof fn lemma_first_text_error_skip(name: Seq<char>, values: Seq<Seq<char>>, i: int)
    requires
        0 <= i < values.len(),
        first_text_error(name, values) == first_text_error(name, values.skip(i)),
        text_error(name, values[i]) is Some,
    ensures
        first_text_error(name, values) == text_error(name, values[i]),
{
    assert(values.skip(i)[0] == values[i]);
}

/// Refuses a list of free-text items that is too long or holds an invalid item.
pub fn validate_string_list(name: &str, values: &Vec<String>) -> (r: Result<(), String>)
    ensures
        match string_list_error(name@, views(values@)) {
            Some(e) => (r matches Err(x) && x@ == e),
            None => r is Ok,
        },
{
    match validate_list(name, values.as_slice(), MAX_LIST_ITEMS) {
        Ok(()) => {},
        Err(e) => return Err(e),
    }
    let mut i: usize = 0;
    assert(views(values@).skip(0) =~= views(values@));
    while i < values.len()
        invariant
            i <= values@.len(),
            list_error(name@, views(values@).len(), MAX_LIST_ITEMS as nat) is None,
            first_text_error(name@, views(values@)) == first_text_error(name@, views(values@).skip(i as int)),
        decreases values@.len() - i,
    {
        assert(views(values@).skip(i as int)[0] == values@[i as int]@);
        assert(views(values@).skip(i as int).drop_first() =~= views(values@).skip(i as int + 1));
        match validate_text(name, values[i].as_str()) {
            Ok(()) => {},
            Err(e) => {
                proof {
                    lemma_first_text_error_skip(name@, views(values@), i as int);
                }
                return Err(e);
            },
        }
        i = i + 1;
    }
    Ok(())
}

/// The first of two errors.
pub open spec fn or_else(a: Option<Seq<char>>, b: Option<Seq<char>>) -> Option<Seq<char>> {
    if a is Some {
        a
    } else {
        b
    }
}

/// The first error of a graph basis: its ids, a zero version, or its revision.
pub open spec fn basis_error(b: GraphBasis) -> Option<Seq<char>> {
    or_else(
        id_error("graph project id"@, b.project_id@),
        or_else(
            id_error("graph id"@, b.graph_id@),
            or_else(
                id_error("observation id"@, b.observation_id@),
                if b.graph_version == 0 {
                    Some("currentGraphBasis.graphVersion must be greater than zero."@)
                } else {
                    revision_error(b.source_revision@)
                },
            ),
        ),
    )
}

/// Refuses a graph basis with an invalid id, a zero version or an invalid revision.
pub fn validate_basis(basis: &GraphBasis) -> (r: Result<(), String>)
    ensures
        match basis_error(*basis) {
            Some(e) => (r matches Err(x) && x@ == e),
            None => r is Ok,
        },
{
    match validate_id("graph project id", basis.project_id.as_str()) {
        Ok(()) => {},
        Err(e) => return Err(e),
    }
    match validate_id("graph id", basis.graph_id.as_str()) {
        Ok(()) => {},
        Err(e) => return Err(e),
    }
    match validate_id("observation id", basis.observation_id.as_str()) {
        Ok(()) => {},
        Err(e) => return Err(e),
    }
    if basis.graph_version == 0 {
        return Err("currentGraphBasis.graphVersion must be greater than zero.".to_string());
    }
    validate_revision(basis.source_revision.as_str())
}

/// Whether a path names a TypeScript or TSX file, by its extension, case-sensitively.
pub fn is_typescript_path(path: &str) -> (r: bool)
    ensures
        r == (crate::text::seq_ends_with(path@, ".ts"@) || crate::text::seq_ends_with(path@, ".tsx"@)),
{
    crate::text::ends_with(path, ".ts") || crate::text::ends_with(path, ".tsx")
}

} // verus!
