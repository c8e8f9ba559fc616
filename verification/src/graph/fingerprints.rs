//! Stable node identities, symbol kinds and module-specifier classification.

use vstd::prelude::*;

use crate::module_resolution::paths::{
    is_known, known_path_candidates, resolve_relative as resolve_module_relative,
    spec_resolve_relative, opt_view_string,
};
use crate::hashing::{blake3_hex, blake3_hex_of};
use crate::text::{
    ascii_lower, chars_of, contains_char, is_unicode_whitespace, push_char, seq_starts_with,
    starts_with,
};

verus! {

broadcast use vstd::string::group_string_axioms;

/// The text whose hash identifies a node of the given kind, path and name.
pub open spec fn node_id_input(kind: Seq<char>, path: Seq<char>, name: Seq<char>) -> Seq<char> {
    "flopeek-node-v1"@ + seq!['\0'] + kind + seq!['\0'] + path + seq!['\0'] + name
}

/// The stable id of a node: `node_` and the BLAKE3 hash of its kind, path and name.
pub open spec fn spec_node_id(kind: Seq<char>, path: Seq<char>, name: Seq<char>) -> Seq<char> {
    "node_"@ + blake3_hex(vstd::utf8::encode_utf8(node_id_input(kind, path, name)))
}

/// Joins `parts` with NUL separators after `prefix`.
pub fn nul_joined(prefix: &str, parts: &Vec<&str>) -> (r: String)
    ensures
        r@ == nul_join_seq(prefix@, parts@.map_values(|p: &str| p@)),
{
    let mut r = prefix.to_string();
    let mut i: usize = 0;
    while i < parts.len()
        invariant
            i <= parts@.len(),
            r@ == nul_join_seq(prefix@, parts@.take(i as int).map_values(|p: &str| p@)),
        decreases parts@.len() - i,
    {
        push_char(&mut r, '\0');
        r.append(parts[i]);
        let ghost cur = parts@.take(i as int).map_values(|p: &str| p@);
        let ghost next = parts@.take(i as int + 1).map_values(|p: &str| p@);
        assert(next.drop_last() =~= cur);
        assert(next.last() == parts@[i as int]@);
        i = i + 1;
    }
    assert(parts@.take(parts@.len() as int) =~= parts@);
    r
}

/// `prefix` followed by each part, each after a NUL.
pub open spec fn nul_join_seq(prefix: Seq<char>, parts: Seq<Seq<char>>) -> Seq<char>
    decreases parts.len(),
{
    if parts.len() == 0 {
        prefix
    } else {
        nul_join_seq(prefix, parts.drop_last()) + seq!['\0'] + parts.last()
    }
}

/// The BLAKE3 hash of the UTF-8 bytes of `text`, after `label`.
pub fn labelled_hash(label: &str, text: &str) -> (r: String)
    ensures
        r@ == label@ + blake3_hex(vstd::utf8::encode_utf8(text@)),
{
    let h = blake3_hex_of(text.as_bytes());
    let mut r = label.to_string();
    r.append(h.as_str());
    r
}

/// The stable id of a node of the given kind, path and name.
pub fn node_id(kind: &str, path: &str, name: &str) -> (r: String)
    ensures
        r@ == spec_node_id(kind@, path@, name@),
{
    let mut parts: Vec<&str> = Vec::new();
    parts.push(kind);
    parts.push(path);
    parts.push(name);
    let input = nul_joined("flopeek-node-v1", &parts);
    proof {
        let ps = parts@.map_values(|p: &str| p@);
        let p0 = ps.drop_last().drop_last().drop_last();
        let p1 = ps.drop_last().drop_last();
        let p2 = ps.drop_last();
        assert(p0 =~= Seq::<Seq<char>>::empty());
        assert(p1.drop_last() =~= p0);
        assert(p2.drop_last() =~= p1);
        assert(nul_join_seq("flopeek-node-v1"@, p0) == "flopeek-node-v1"@);
        assert(nul_join_seq("flopeek-node-v1"@, p1) == "flopeek-node-v1"@ + seq!['\0'] + kind@);
        assert(nul_join_seq("flopeek-node-v1"@, p2) == "flopeek-node-v1"@ + seq!['\0'] + kind@ + seq!['\0'] + path@);
        assert(input@ =~= node_id_input(kind@, path@, name@));
    }
    labelled_hash("node_", input.as_str())
}

/// The project id of a repository whose root has the canonical path `identity`:
/// `project_` and the BLAKE3 hash of the labelled identity.
pub open spec fn spec_project_id(identity: Seq<char>) -> Seq<char> {
    "project_"@ + blake3_hex(vstd::utf8::encode_utf8("flopeek-project-v1"@ + seq!['\0'] + identity))
}

/// The project id of a repository whose root has the canonical path `identity` (the
/// caller resolves the root to its canonical path).
pub fn project_id(identity: &str) -> (r: String)
    ensures
        r@ == spec_project_id(identity@),
{
    let mut parts: Vec<&str> = Vec::new();
    parts.push(identity);
    let input = nul_joined("flopeek-project-v1", &parts);
    proof {
        let ps = parts@.map_values(|p: &str| p@);
        assert(ps.drop_last() =~= Seq::<Seq<char>>::empty());
        assert(nul_join_seq("flopeek-project-v1"@, ps.drop_last()) == "flopeek-project-v1"@);
        assert(ps.last() == identity@);
        assert(input@ =~= "flopeek-project-v1"@ + seq!['\0'] + identity@);
    }
    labelled_hash("project_", input.as_str())
}

/// `s` without its leading white space.
pub open spec fn trim_start(s: Seq<char>) -> Seq<char>
    decreases s.len(),
{
    if s.len() > 0 && is_unicode_whitespace(s[0]) {
        trim_start(s.drop_first())
    } else {
        s
    }
}

/// `s` without its trailing white space.
pub open spec fn trim_end(s: Seq<char>) -> Seq<char>
    decreases s.len(),
{
    if s.len() > 0 && is_unicode_whitespace(s.last()) {
        trim_end(s.drop_last())
    } else {
        s
    }
}

/// One character of a normalized symbol kind: ASCII lower case, `-` and space as `_`.
pub open spec fn kind_char(c: char) -> char {
    let l = ascii_lower(c);
    if l == '-' || l == ' ' {
        '_'
    } else {
        l
    }
}

/// The normalized form of a declaration kind.
pub open spec fn spec_normalize_symbol_kind(kind: Seq<char>) -> Seq<char> {
    trim_end(trim_start(kind)).map_values(|c: char| kind_char(c))
}

proof fn lemma_trim_start_skip(s: Seq<char>, i: int)
    requires
        0 <= i <= s.len(),
        forall|k: int| 0 <= k < i ==> is_unicode_whitespace(#[trigger] s[k]),
    ensures
        trim_start(s) == trim_start(s.skip(i)),
    decreases i,
{
    if i > 0 {
        assert(s.skip(1) =~= s.drop_first());
        assert(s.drop_first().skip(i - 1) =~= s.skip(i));
        lemma_trim_start_skip(s.drop_first(), i - 1);
    } else {
        assert(s.skip(0) =~= s);
    }
}

proof fn lemma_trim_end_take(s: Seq<char>, j: int)
    requires
        0 <= j <= s.len(),
        forall|k: int| j <= k < s.len() ==> is_unicode_whitespace(#[trigger] s[k]),
    ensures
        trim_end(s) == trim_end(s.take(j)),
    decreases s.len() - j,
{
    if j < s.len() {
        assert(s.drop_last().take(j) =~= s.take(j));
        lemma_trim_end_take(s.drop_last(), j);
    } else {
        assert(s.take(j) =~= s);
    }
}

/// A declaration kind trimmed of white space, in ASCII lower case, with `-` and spaces
/// turned into `_`.
pub fn normalize_symbol_kind(kind: &str) -> (r: String)
    ensures
        r@ == spec_normalize_symbol_kind(kind@),
{
    let chars = chars_of(kind);
    let mut start: usize = 0;
    while start < chars.len() && is_whitespace_char(chars[start])
        invariant
            chars@ == kind@,
            start <= chars@.len(),
            forall|k: int| 0 <= k < start ==> is_unicode_whitespace(#[trigger] chars@[k]),
        decreases chars@.len() - start,
    {
        start = start + 1;
    }
    proof {
        lemma_trim_start_skip(kind@, start as int);
    }
    let ghost rest = kind@.skip(start as int);
    assert(start == chars@.len() || !is_unicode_whitespace(rest[0]));
    let mut end: usize = chars.len();
    while end > start && is_whitespace_char(chars[end - 1])
        invariant
            chars@ == kind@,
            start <= end <= chars@.len(),
            forall|k: int| end <= k < chars@.len() ==> is_unicode_whitespace(#[trigger] chars@[k]),
        decreases end,
    {
        end = end - 1;
    }
    proof {
        assert forall|k: int| end - start <= k < rest.len() implies is_unicode_whitespace(
            #[trigger] rest[k],
        ) by {
            assert(rest[k] == chars@[k + start]);
        }
        lemma_trim_end_take(rest, end - start);
        let t = rest.take(end - start);
        if t.len() > 0 {
            assert(t[0] == rest[0]);
        }
        if t.len() == 0 {
            assert(trim_start(rest) == rest);
        }
        assert(trim_start(rest) == rest);
        assert(t.len() == 0 || !is_unicode_whitespace(t.last()));
        assert(trim_end(t) == t);
    }
    let ghost trimmed = rest.take(end - start);
    assert(spec_normalize_symbol_kind(kind@) == trimmed.map_values(|c: char| kind_char(c)));
    let mut r = String::new();
    let mut i: usize = start;
    while i < end
        invariant
            chars@ == kind@,
            start <= i <= end <= chars@.len(),
            trimmed == kind@.subrange(start as int, end as int),
            r@ == trimmed.take(i - start).map_values(|c: char| kind_char(c)),
        decreases end - i,
    {
        let c = chars[i];
        let l = if 'A' <= c && c <= 'Z' {
            ((c as u32) + 32) as u8 as char
        } else {
            c
        };
        assert(l == ascii_lower(c)) by {
            if 'A' <= c && c <= 'Z' {
                assert((c as u32) + 32 < 256);
            }
        }
        let out = if l == '-' || l == ' ' {
            '_'
        } else {
            l
        };
        push_char(&mut r, out);
        assert(trimmed.take(i - start + 1) =~= trimmed.take(i - start).push(c));
        assert(r@ =~= trimmed.take(i - start + 1).map_values(|c: char| kind_char(c)));
        i = i + 1;
    }
    assert(trimmed.take(end - start) =~= trimmed);
    r
}

fn is_whitespace_char(c: char) -> (r: bool)
    ensures
        r == is_unicode_whitespace(c),
{
    let u = c as u32;
    (0x09 <= u && u <= 0x0D) || u == 0x20 || u == 0x85 || u == 0xA0 || u == 0x1680 || (0x2000 <= u
        && u <= 0x200A) || u == 0x2028 || u == 0x2029 || u == 0x202F || u == 0x205F || u == 0x3000
}

/// Whether a non-relative specifier names a repository path rather than a package: an
/// alias prefix (`@/`, `~/`, `#`), an absolute or backslash path, or a known module path.
pub open spec fn spec_is_non_relative_alias(specifier: Seq<char>, known: Seq<String>) -> bool {
    ||| seq_starts_with(specifier, "@/"@)
    ||| seq_starts_with(specifier, "~/"@)
    ||| seq_starts_with(specifier, "#"@)
    ||| seq_starts_with(specifier, "/"@)
    ||| specifier.contains('\\')
    ||| exists|k: int| 0 <= k < 7 && is_known(known, #[trigger] known_path_candidates(specifier)[k])
}

/// Whether a non-relative specifier is a path alias or names a known module, rather than
/// an outside package.
pub fn is_non_relative_alias(specifier: &str, known_paths: &[String]) -> (r: bool)
    ensures
        r == spec_is_non_relative_alias(specifier@, known_paths@),
{
    if starts_with(specifier, "@/") || starts_with(specifier, "~/") || starts_with(specifier, "#")
        || starts_with(specifier, "/") || contains_char(specifier, '\\') {
        return true;
    }
    let found = crate::module_resolution::paths::resolve_known_path(specifier, known_paths);
    proof {
        crate::module_resolution::paths::lemma_first_known_any(
            known_path_candidates(specifier@),
            known_paths@,
        );
    }
    found.is_some()
}

/// The known module that a relative specifier names from `current`.
pub fn resolve_relative(current: &str, specifier: &str, known_paths: &[String]) -> (r: Option<String>)
    ensures
        opt_view_string(r) == spec_resolve_relative(current@, specifier@, known_paths@),
{
    resolve_module_relative(current, specifier, known_paths)
}

} // verus!
