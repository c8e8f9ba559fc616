//! Repository-relative path normalization and TypeScript file classification.

use vstd::prelude::*;

use crate::hashing::{blake3_hex, blake3_hex_of};
use crate::model::schemas::SourceFile;
use crate::module_resolution::paths::{is_skipped, kept_components};
use crate::text::{
    ascii_lower_seq, chars_of, join, join_seq, push_char, seq_starts_with, split, split_seq,
    starts_with, str_eq, to_ascii_lowercase, views,
};

verus! {

broadcast use vstd::string::group_string_axioms;

/// The components of a path as `Path::components` yields them on Unix, `.` dropped.
pub open spec fn path_components(p: Seq<char>) -> Seq<Seq<char>> {
    (if seq_starts_with(p, "/"@) {
        seq!["/"@]
    } else {
        Seq::empty()
    }) + kept_components(split_seq(p, '/'))
}

/// A component with its backslashes turned into forward slashes.
pub open spec fn forward_slashes(c: Seq<char>) -> Seq<char> {
    c.map_values(|x: char| if x == '\\' { '/' } else { x })
}

/// The normalized repository-relative form of `p`.
pub open spec fn spec_normalize_relative_path(p: Seq<char>) -> Result<Seq<char>, Seq<char>> {
    let comps = path_components(p);
    if comps.contains(".."@) {
        Err("Repository-relative paths may not escape the project root."@)
    } else if comps.len() == 0 {
        Err("Repository-relative path is empty."@)
    } else {
        Ok(join_seq(comps.map_values(|c: Seq<char>| forward_slashes(c)), "/"@))
    }
}

fn forward_slashes_of(s: &str) -> (r: String)
    ensures
        r@ == forward_slashes(s@),
{
    let sc = chars_of(s);
    let mut r = String::new();
    let mut i: usize = 0;
    while i < sc.len()
        invariant
            sc@ == s@,
            i <= sc@.len(),
            r@ == forward_slashes(s@.take(i as int)),
        decreases sc@.len() - i,
    {
        let c = sc[i];
        push_char(&mut r, if c == '\\' { '/' } else { c });
        assert(forward_slashes(s@.take(i as int + 1)) =~= forward_slashes(s@.take(i as int)).push(
            if c == '\\' { '/' } else { c },
        ));
        i = i + 1;
    }
    assert(s@.take(sc@.len() as int) =~= s@);
    r
}

/// Normalizes a repository-relative path: `.` components are dropped, `..` is refused,
/// and the remaining components are joined by `/`.
pub fn normalize_relative_path(path: &str) -> (r: Result<String, String>)
    ensures
        match spec_normalize_relative_path(path@) {
            Ok(p) => r matches Ok(x) && x@ == p,
            Err(m) => r matches Err(e) && e@ == m,
        },
{
    let parts = split(path, '/');
    let mut comps: Vec<String> = Vec::new();
    let mut out: Vec<String> = Vec::new();
    let rooted = starts_with(path, "/");
    if rooted {
        comps.push("/".to_string());
        out.push("/".to_string());
    }
    let ghost prefix0: Seq<Seq<char>> = if rooted {
        seq!["/"@]
    } else {
        Seq::empty()
    };
    assert(views(comps@) =~= prefix0 + kept_components(views(parts@).take(0)));
    assert(views(out@) =~= views(comps@).map_values(|c: Seq<char>| forward_slashes(c))) by {
        if rooted {
            reveal_strlit("/");
            assert(forward_slashes("/"@) =~= "/"@);
        }
    }
    let mut i: usize = 0;
    while i < parts.len()
        invariant
            i <= parts@.len(),
            views(comps@) == prefix0 + kept_components(views(parts@).take(i as int)),
            views(out@) == views(comps@).map_values(|c: Seq<char>| forward_slashes(c)),
        decreases parts@.len() - i,
    {
        let ghost prefix = views(parts@).take(i as int + 1);
        assert(prefix.drop_last() =~= views(parts@).take(i as int));
        let part = parts[i].as_str();
        if !(part.is_empty() || str_eq(part, ".")) {
            let ghost before_comps = comps@;
            let ghost before_out = out@;
            comps.push(parts[i].clone());
            out.push(forward_slashes_of(part));
            assert(views(comps@) =~= views(before_comps).push(parts@[i as int]@));
            assert(views(out@) =~= views(before_out).push(forward_slashes(parts@[i as int]@)));
            assert(views(comps@).map_values(|c: Seq<char>| forward_slashes(c)) =~= views(
                before_comps,
            ).map_values(|c: Seq<char>| forward_slashes(c)).push(forward_slashes(parts@[i as int]@)));
        }
        i = i + 1;
    }
    assert(views(parts@).take(parts@.len() as int) =~= views(parts@));
    let ghost all = path_components(path@);
    assert(views(comps@) == all);
    let mut k: usize = 0;
    while k < comps.len()
        invariant
            all == path_components(path@),
            views(comps@) == all,
            k <= comps@.len(),
            forall|m: int| 0 <= m < k ==> all[m] != ".."@,
        decreases comps@.len() - k,
    {
        if str_eq(comps[k].as_str(), "..") {
            assert(all[k as int] == ".."@);
            assert(all.contains(".."@));
            return Err("Repository-relative paths may not escape the project root.".to_string());
        }
        k = k + 1;
    }
    if comps.len() == 0 {
        return Err("Repository-relative path is empty.".to_string());
    }
    Ok(join(&out, "/"))
}

/// The index of the last `.` of `s`, or -1.
pub open spec fn last_dot(s: Seq<char>) -> int
    decreases s.len(),
{
    if s.len() == 0 {
        -1
    } else if s.last() == '.' {
        s.len() - 1
    } else {
        last_dot(s.drop_last())
    }
}

/// The final component of a path (`Path::file_name`).
pub open spec fn file_name(p: Seq<char>) -> Option<Seq<char>> {
    let kept = kept_components(split_seq(p, '/'));
    if kept.len() == 0 || kept.last() == ".."@ {
        None
    } else {
        Some(kept.last())
    }
}

/// The extension of a path (`Path::extension`).
pub open spec fn extension(p: Seq<char>) -> Option<Seq<char>> {
    match file_name(p) {
        None => None,
        Some(name) => if last_dot(name) <= 0 {
            None
        } else {
            Some(name.skip(last_dot(name) + 1))
        },
    }
}

fn last_dot_of(s: &Vec<char>) -> (r: Option<usize>)
    ensures
        r matches Some(i) ==> i as int == last_dot(s@),
        r matches Some(i) ==> i < s@.len(),
        r is None ==> last_dot(s@) == -1,
{
    let mut i = s.len();
    assert(s@.take(s@.len() as int) =~= s@);
    while i > 0
        invariant
            i <= s@.len(),
            last_dot(s@) == last_dot(s@.take(i as int)),
        decreases i,
    {
        assert(s@.take(i as int).drop_last() =~= s@.take(i as int - 1));
        if s[i - 1] == '.' {
            return Some(i - 1);
        }
        i = i - 1;
    }
    None
}

/// The extension of `path`, if it has one.
pub fn path_extension(path: &str) -> (r: Option<String>)
    ensures
        match extension(path@) {
            Some(e) => r matches Some(x) && x@ == e,
            None => r is None,
        },
{
    let parts = split(path, '/');
    let mut last: Option<usize> = None;
    let mut i: usize = 0;
    while i < parts.len()
        invariant
            i <= parts@.len(),
            match last {
                Some(k) => k < i && kept_components(views(parts@).take(i as int)).len() > 0
                    && kept_components(views(parts@).take(i as int)).last() == parts@[k as int]@,
                None => kept_components(views(parts@).take(i as int)).len() == 0,
            },
        decreases parts@.len() - i,
    {
        let ghost prefix = views(parts@).take(i as int + 1);
        assert(prefix.drop_last() =~= views(parts@).take(i as int));
        let part = parts[i].as_str();
        if !(part.is_empty() || str_eq(part, ".")) {
            last = Some(i);
        }
        i = i + 1;
    }
    assert(views(parts@).take(parts@.len() as int) =~= views(parts@));
    let name = match last {
        None => return None,
        Some(k) => parts[k].as_str(),
    };
    if str_eq(name, "..") {
        return None;
    }
    let chars = chars_of(name);
    let dot = last_dot_of(&chars);
    match dot {
        None => None,
        Some(d) => {
            assert(d < chars@.len());
            if d == 0 {
                None
            } else {
                Some(crate::text::string_from(&chars, d + 1))
            }
        },
    }
}

/// Whether a path names a TypeScript (`.ts`) or TSX (`.tsx`) file, ignoring ASCII case.
pub fn is_typescript_path(path: &str) -> (r: bool)
    ensures
        r == (extension(path@) matches Some(e) && (ascii_lower_seq(e) == "ts"@ || ascii_lower_seq(e)
            == "tsx"@)),
{
    match path_extension(path) {
        None => false,
        Some(e) => {
            let lower = to_ascii_lowercase(e.as_str());
            str_eq(lower.as_str(), "ts") || str_eq(lower.as_str(), "tsx")
        },
    }
}

/// The analysed language of a path: `typescript` for `.ts`, `tsx` for `.tsx`.
pub fn language_for_path(path: &str) -> (r: Option<&'static str>)
    ensures
        match extension(path@) {
            Some(e) => if ascii_lower_seq(e) == "ts"@ {
                r matches Some(x) && x@ == "typescript"@
            } else if ascii_lower_seq(e) == "tsx"@ {
                r matches Some(x) && x@ == "tsx"@
            } else {
                r is None
            },
            None => r is None,
        },
{
    match path_extension(path) {
        None => None,
        Some(e) => {
            let lower = to_ascii_lowercase(e.as_str());
            if str_eq(lower.as_str(), "ts") {
                Some("typescript")
            } else if str_eq(lower.as_str(), "tsx") {
                Some("tsx")
            } else {
                None
            }
        },
    }
}

/// Whether discovery skips a directory of the given name: version control, the store,
/// dependencies and build outputs.
pub open spec fn spec_is_excluded_directory(name: Seq<char>) -> bool {
    name == ".git"@ || name == ".flopeek"@ || name == "node_modules"@ || name == "target"@ || name
        == "dist"@ || name == "build"@ || name == "coverage"@ || name == ".next"@ || name == ".turbo"@
}

/// Whether discovery skips a directory of the given name.
pub fn is_excluded_directory(name: &str) -> (r: bool)
    ensures
        r == spec_is_excluded_directory(name@),
{
    str_eq(name, ".git") || str_eq(name, ".flopeek") || str_eq(name, "node_modules") || str_eq(name, "target")
        || str_eq(name, "dist") || str_eq(name, "build") || str_eq(name, "coverage") || str_eq(name, ".next")
        || str_eq(name, ".turbo")
}

/// The analysed language of a path: `typescript` for `.ts`, `tsx` for `.tsx`, none else.
pub open spec fn spec_language(path: Seq<char>) -> Option<Seq<char>> {
    match extension(path) {
        Some(e) => if ascii_lower_seq(e) == "ts"@ {
            Some("typescript"@)
        } else if ascii_lower_seq(e) == "tsx"@ {
            Some("tsx"@)
        } else {
            None
        },
        None => None,
    }
}

/// The source file at the repository-relative path `relative` whose content is `bytes`:
/// its normalized path, its language, its size, and the BLAKE3 hash of its content; an
/// error for a path that is not TypeScript or does not normalize.
pub fn source_file(relative: &str, bytes: &[u8]) -> (r: Result<SourceFile, String>)
    ensures
        match spec_language(relative@) {
            None => r matches Err(e) && e@ == "Unsupported analyzed file: "@ + relative@,
            Some(language) => match spec_normalize_relative_path(relative@) {
                Err(e) => r matches Err(x) && x@ == e,
                Ok(path) => r matches Ok(f) && {
                    &&& f.path@ == path
                    &&& f.language@ == language
                    &&& f.bytes == bytes@.len()
                    &&& f.hash@ == blake3_hex(bytes@)
                },
            },
        },
{
    let language = match language_for_path(relative) {
        None => {
            let mut e = "Unsupported analyzed file: ".to_string();
            e.append(relative);
            return Err(e);
        },
        Some(l) => l,
    };
    let path = match normalize_relative_path(relative) {
        Err(e) => {
            return Err(e);
        },
        Ok(p) => p,
    };
    let size: u64 = bytes.len() as u64;
    Ok(SourceFile { path, language: language.to_string(), bytes: size, hash: blake3_hex_of(bytes) })
}

} // verus!
