//! Repository-relative module and path mapping resolution.

use vstd::prelude::*;

use crate::discovery::{normalize_relative_path, spec_normalize_relative_path};
use crate::text::{
    contains_char, join, join_seq, seq_starts_with, split, split_seq, starts_with, str_eq, views,
};

verus! {

broadcast use vstd::string::group_string_axioms;

/// Whether a path component leaves the current directory unchanged.
pub open spec fn is_skipped(c: Seq<char>) -> bool {
    c.len() == 0 || c == "."@
}

/// Applies path components, in order, to a stack of normalized directory names.
pub open spec fn walk_components(
    stack: Seq<Seq<char>>,
    comps: Seq<Seq<char>>,
    reject_colon: bool,
) -> Result<Seq<Seq<char>>, Seq<char>>
    decreases comps.len(),
{
    if comps.len() == 0 {
        Ok(stack)
    } else {
        match walk_components(stack, comps.drop_last(), reject_colon) {
            Err(m) => Err(m),
            Ok(st) => {
                let c = comps.last();
                if is_skipped(c) {
                    Ok(st)
                } else if c == ".."@ {
                    if st.len() == 0 {
                        Err("tsconfig-path-escapes-repository"@)
                    } else {
                        Ok(st.drop_last())
                    }
                } else if reject_colon && c.contains(':') {
                    Err("tsconfig-path-absolute-or-machine-path"@)
                } else {
                    Ok(st.push(c))
                }
            },
        }
    }
}

/// `value` resolved against the repository-relative directory `base`.
pub open spec fn spec_join_relative(base: Seq<char>, value: Seq<char>) -> Result<Seq<char>, Seq<char>> {
    if seq_starts_with(value, "/"@) || seq_starts_with(value, "\\"@) || value.contains('\\') {
        Err("tsconfig-path-absolute-or-machine-path"@)
    } else {
        match walk_components(Seq::empty(), split_seq(base, '/'), false) {
            Err(m) => Err(m),
            Ok(st) => match walk_components(st, split_seq(value, '/'), true) {
                Err(m) => Err(m),
                Ok(full) => Ok(join_seq(full, "/"@)),
            },
        }
    }
}

fn walk_parts(stack: &mut Vec<String>, parts: &Vec<String>, reject_colon: bool) -> (r: Result<(), String>)
    ensures
        match walk_components(views(old(stack)@), views(parts@), reject_colon) {
            Err(m) => r matches Err(e) && e@ == m,
            Ok(st) => r is Ok && views(final(stack)@) == st,
        },
{
    let ghost start = views(stack@);
    let mut i: usize = 0;
    while i < parts.len()
        invariant
            i <= parts@.len(),
            start == views(old(stack)@),
            walk_components(start, views(parts@).take(i as int), reject_colon) == Ok::<
                Seq<Seq<char>>,
                Seq<char>,
            >(views(stack@)),
        decreases parts@.len() - i,
    {
        let ghost prefix = views(parts@).take(i as int + 1);
        assert(prefix.drop_last() =~= views(parts@).take(i as int));
        assert(prefix.last() == parts@[i as int]@);
        let part = parts[i].as_str();
        if part.is_empty() || str_eq(part, ".") {
        } else if str_eq(part, "..") {
            if stack.len() == 0 {
                proof {
                    assert(walk_components(start, prefix, reject_colon) == Err::<Seq<Seq<char>>, Seq<char>>(
                        "tsconfig-path-escapes-repository"@,
                    ));
                    lemma_walk_error_stays(start, views(parts@), reject_colon, i as int + 1);
                }
                return Err("tsconfig-path-escapes-repository".to_string());
            }
            let ghost before = stack@;
            stack.pop();
            assert(views(stack@) =~= views(before).drop_last());
        } else if reject_colon && contains_char(part, ':') {
            proof {
                assert(walk_components(start, prefix, reject_colon) == Err::<Seq<Seq<char>>, Seq<char>>(
                    "tsconfig-path-absolute-or-machine-path"@,
                ));
                lemma_walk_error_stays(start, views(parts@), reject_colon, i as int + 1);
            }
            return Err("tsconfig-path-absolute-or-machine-path".to_string());
        } else {
            let ghost before = stack@;
            stack.push(parts[i].clone());
            assert(views(stack@) =~= views(before).push(parts@[i as int]@));
        }
        i = i + 1;
    }
    assert(views(parts@).take(parts@.len() as int) =~= views(parts@));
    Ok(())
}

proof fn lemma_walk_error_stays(stack: Seq<Seq<char>>, comps: Seq<Seq<char>>, reject_colon: bool, k: int)
    requires
        0 <= k <= comps.len(),
        walk_components(stack, comps.take(k), reject_colon) is Err,
    ensures
        walk_components(stack, comps, reject_colon) == walk_components(stack, comps.take(k), reject_colon),
    decreases comps.len() - k,
{
    if k < comps.len() {
        assert(comps.take(k + 1).drop_last() =~= comps.take(k));
        lemma_walk_error_stays(stack, comps, reject_colon, k + 1);
    } else {
        assert(comps.take(k) =~= comps);
    }
}

/// Resolves `value` against the repository-relative directory `base`, refusing absolute or
/// machine paths and any path that climbs above the repository root.
pub fn join_relative(base: &str, value: &str) -> (r: Result<String, String>)
    ensures
        match spec_join_relative(base@, value@) {
            Ok(p) => r matches Ok(x) && x@ == p,
            Err(m) => r matches Err(e) && e@ == m,
        },
{
    if starts_with(value, "/") || starts_with(value, "\\") || contains_char(value, '\\') {
        return Err("tsconfig-path-absolute-or-machine-path".to_string());
    }
    let mut stack: Vec<String> = Vec::new();
    assert(views(stack@) =~= Seq::<Seq<char>>::empty());
    let base_parts = split(base, '/');
    match walk_parts(&mut stack, &base_parts, false) {
        Err(m) => return Err(m),
        Ok(()) => {},
    }
    let value_parts = split(value, '/');
    match walk_parts(&mut stack, &value_parts, true) {
        Err(m) => return Err(m),
        Ok(()) => {},
    }
    Ok(join(&stack, "/"))
}

/// A configured path resolved against the directory of its configuration file.
pub open spec fn spec_normalize_config_path(base: Seq<char>, value: Seq<char>) -> Result<
    Seq<char>,
    Seq<char>,
> {
    if seq_starts_with(value, "/"@) || value.contains('\\') {
        Err("tsconfig-path-absolute-or-machine-path"@)
    } else {
        match spec_join_relative(base, value) {
            Err(m) => Err(m),
            Ok(joined) => if joined.len() == 0 {
                Ok(Seq::empty())
            } else {
                match spec_normalize_relative_path(joined) {
                    Ok(p) => Ok(p),
                    Err(_) => Err("tsconfig-path-escapes-repository"@),
                }
            },
        }
    }
}

/// Resolves a `baseUrl` or `paths` target of a configuration file in directory `base`.
pub fn normalize_config_path(base: &str, value: &str) -> (r: Result<String, String>)
    ensures
        match spec_normalize_config_path(base@, value@) {
            Ok(p) => r matches Ok(x) && x@ == p,
            Err(m) => r matches Err(e) && e@ == m,
        },
{
    if starts_with(value, "/") || contains_char(value, '\\') {
        return Err("tsconfig-path-absolute-or-machine-path".to_string());
    }
    let joined = match join_relative(base, value) {
        Ok(j) => j,
        Err(m) => return Err(m),
    };
    if joined.as_str().is_empty() {
        return Ok(String::new());
    }
    match normalize_relative_path(joined.as_str()) {
        Ok(p) => Ok(p),
        Err(_) => Err("tsconfig-path-escapes-repository".to_string()),
    }
}

/// The module file names tried, in order, for a resolved module path.
pub open spec fn known_path_candidates(base: Seq<char>) -> Seq<Seq<char>> {
    seq![
        base,
        base + ".ts"@,
        base + ".tsx"@,
        base + ".d.ts"@,
        base + "/index.ts"@,
        base + "/index.tsx"@,
        base + "/index.d.ts"@,
    ]
}

/// Whether `path` is one of `known`.
pub open spec fn is_known(known: Seq<String>, path: Seq<char>) -> bool {
    exists|k: int| 0 <= k < known.len() && #[trigger] known[k]@ == path
}

/// The first of `candidates` that is a known path.
pub open spec fn first_known(candidates: Seq<Seq<char>>, known: Seq<String>) -> Option<Seq<char>>
    decreases candidates.len(),
{
    if candidates.len() == 0 {
        None
    } else if is_known(known, candidates[0]) {
        Some(candidates[0])
    } else {
        first_known(candidates.drop_first(), known)
    }
}

/// `first_known` finds a path exactly when some candidate is known.
pub proof fn lemma_first_known_any(candidates: Seq<Seq<char>>, known: Seq<String>)
    ensures
        first_known(candidates, known) is Some <==> exists|k: int|
            0 <= k < candidates.len() && is_known(known, #[trigger] candidates[k]),
    decreases candidates.len(),
{
    if candidates.len() > 0 {
        lemma_first_known_any(candidates.drop_first(), known);
        if exists|k: int| 0 <= k < candidates.len() && is_known(known, #[trigger] candidates[k]) {
            let k = choose|k: int| 0 <= k < candidates.len() && is_known(known, #[trigger] candidates[k]);
            if k > 0 {
                assert(candidates.drop_first()[k - 1] == candidates[k]);
            }
        }
        if first_known(candidates.drop_first(), known) is Some {
            let k = choose|k: int|
                0 <= k < candidates.drop_first().len() && is_known(known, #[trigger] candidates.drop_first()[k]);
            assert(candidates[k + 1] == candidates.drop_first()[k]);
        }
    }
}

/// Whether `path` is one of `known_paths`.
pub fn is_known_path(path: &str, known_paths: &[String]) -> (r: bool)
    ensures
        r == is_known(known_paths@, path@),
{
    let mut k: usize = 0;
    while k < known_paths.len()
        invariant
            k <= known_paths@.len(),
            forall|m: int| 0 <= m < k ==> #[trigger] known_paths@[m]@ != path@,
        decreases known_paths@.len() - k,
    {
        if str_eq(known_paths[k].as_str(), path) {
            return true;
        }
        k = k + 1;
    }
    false
}

fn with_suffix(base: &str, suffix: &str) -> (r: String)
    ensures
        r@ == base@ + suffix@,
{
    let mut r = base.to_string();
    r.append(suffix);
    r
}

/// The first module file, among `base` and its TypeScript extensions and index files,
/// that is one of `known_paths`.
pub fn resolve_known_path(base: &str, known_paths: &[String]) -> (r: Option<String>)
    ensures
        opt_view_string(r) == first_known(known_path_candidates(base@), known_paths@),
{
    let mut candidates: Vec<String> = Vec::new();
    candidates.push(base.to_string());
    candidates.push(with_suffix(base, ".ts"));
    candidates.push(with_suffix(base, ".tsx"));
    candidates.push(with_suffix(base, ".d.ts"));
    candidates.push(with_suffix(base, "/index.ts"));
    candidates.push(with_suffix(base, "/index.tsx"));
    candidates.push(with_suffix(base, "/index.d.ts"));
    let ghost all = known_path_candidates(base@);
    assert(views(candidates@) =~= all);
    assert(all.skip(0) =~= all);
    let mut i: usize = 0;
    while i < candidates.len()
        invariant
            all == known_path_candidates(base@),
            views(candidates@) == all,
            i <= candidates@.len(),
            first_known(all, known_paths@) == first_known(all.skip(i as int), known_paths@),
        decreases candidates@.len() - i,
    {
        assert(all.skip(i as int)[0] == candidates@[i as int]@);
        assert(all.skip(i as int).drop_first() =~= all.skip(i as int + 1));
        if is_known_path(candidates[i].as_str(), known_paths) {
            assert(is_known(known_paths@, all.skip(i as int)[0]));
            return Some(candidates[i].clone());
        }
        i = i + 1;
    }
    None
}

pub open spec fn opt_view_string(o: Option<String>) -> Option<Seq<char>> {
    match o {
        Some(s) => Some(s@),
        None => None,
    }
}

/// The non-skipped components of a split path.
pub open spec fn kept_components(parts: Seq<Seq<char>>) -> Seq<Seq<char>>
    decreases parts.len(),
{
    if parts.len() == 0 {
        Seq::empty()
    } else {
        let init = kept_components(parts.drop_last());
        if is_skipped(parts.last()) {
            init
        } else {
            init.push(parts.last())
        }
    }
}

/// The directory components of the file path `current` (`Path::parent`).
pub open spec fn parent_components(current: Seq<char>) -> Seq<Seq<char>> {
    let kept = kept_components(split_seq(current, '/'));
    if kept.len() == 0 {
        kept
    } else {
        kept.drop_last()
    }
}

/// A relative module specifier resolved from the file `current` to a known module file.
pub open spec fn spec_resolve_relative(current: Seq<char>, specifier: Seq<char>, known: Seq<String>) -> Option<
    Seq<char>,
> {
    if !seq_starts_with(specifier, "."@) {
        None
    } else {
        match spec_join_relative(join_seq(parent_components(current), "/"@), specifier) {
            Err(_) => None,
            Ok(base) => first_known(known_path_candidates(base), known),
        }
    }
}

/// The directory of the file path `current`.
pub fn parent_directory(current: &str) -> (r: String)
    ensures
        r@ == join_seq(parent_components(current@), "/"@),
{
    let parts = split(current, '/');
    let mut kept: Vec<String> = Vec::new();
    let mut i: usize = 0;
    while i < parts.len()
        invariant
            i <= parts@.len(),
            views(kept@) == kept_components(views(parts@).take(i as int)),
        decreases parts@.len() - i,
    {
        let ghost prefix = views(parts@).take(i as int + 1);
        assert(prefix.drop_last() =~= views(parts@).take(i as int));
        let part = parts[i].as_str();
        if !(part.is_empty() || str_eq(part, ".")) {
            let ghost before = kept@;
            kept.push(parts[i].clone());
            assert(views(kept@) =~= views(before).push(parts@[i as int]@));
        }
        i = i + 1;
    }
    assert(views(parts@).take(parts@.len() as int) =~= views(parts@));
    if kept.len() > 0 {
        let ghost before = kept@;
        kept.pop();
        assert(views(kept@) =~= views(before).drop_last());
    }
    join(&kept, "/")
}

/// Resolves the relative module `specifier` imported by the file `current` to one of the
/// `known_paths`; non-relative specifiers are not resolved here.
pub fn resolve_relative(current: &str, specifier: &str, known_paths: &[String]) -> (r: Option<String>)
    ensures
        opt_view_string(r) == spec_resolve_relative(current@, specifier@, known_paths@),
{
    if !starts_with(specifier, ".") {
        return None;
    }
    let parent = parent_directory(current);
    match join_relative(parent.as_str(), specifier) {
        Err(_) => None,
        Ok(base) => resolve_known_path(base.as_str(), known_paths),
    }
}

} // verus!
