//! Bounded, repository-local TypeScript module configuration resolution.
//!
//! Only one root `tsconfig.json`, local `extends`, `baseUrl` and `paths` are honoured;
//! packages, project references and machine-local paths are never followed.

pub mod config;
pub mod paths;
pub mod loading;

use vstd::prelude::*;

use self::config::{
    base_view, complete_basis, config_files_json, effective_json, effective_wf, files_sorted,
    mappings_view, unavailable_basis, ConfiguredPath, EffectiveConfig, PathMapping,
};
use crate::flow::manifest::text_hash;
use crate::text::{seq_contains, views};
use self::paths::{
    first_known, join_relative, known_path_candidates, opt_view_string, resolve_known_path,
    spec_join_relative,
};
use crate::model::typescript::{ModuleResolutionBasis, ModuleResolutionConfigFile};
use crate::model::context_basis::utf8;
use crate::order::{lemma_str_lt_asymmetric, lemma_str_lt_total, str_less, str_lt};
use crate::text::{chars_of, push_char, seq_ends_with, seq_starts_with, str_eq, string_of};

verus! {

broadcast use vstd::string::group_string_axioms;

/// The schema of a module resolution basis.
pub const MODULE_RESOLUTION_SCHEMA: &'static str = "flopeek-typescript-module-resolution/v1";

/// The most configuration files one `extends` chain may name.
pub const MAX_CONFIG_FILES: usize = 16;

/// The most bytes the configuration files of one chain may hold together.
pub const MAX_CONFIG_BYTES: usize = 1048576;

/// The most `paths` patterns one configuration file may declare.
pub const MAX_PATH_MAPPINGS: usize = 1000;

/// The most `paths` targets one configuration file may declare.
pub const MAX_PATH_TARGETS: usize = 10000;

/// The module resolver of one observation: its basis and, when the configuration could
/// be read, the effective `baseUrl` and `paths`.
#[derive(Debug)]
pub struct ModuleResolver {
    pub basis: ModuleResolutionBasis,
    pub effective: Option<EffectiveConfig>,
}

/// How a non-relative module specifier resolved.
#[derive(Debug, PartialEq, Eq)]
pub enum NonRelativeResolution {
    /// A repository file.
    Local(String),
    /// A package outside the repository.
    External,
    /// No answer, for the given reason.
    Unresolved(String),
}

/// A resolution as `Ok(Some(path))` for a local file, `Ok(None)` for an external
/// package and `Err(reason)` when unresolved.
pub open spec fn resolution_view(r: NonRelativeResolution) -> Result<Option<Seq<char>>, Seq<char>> {
    match r {
        NonRelativeResolution::Local(p) => Ok(Some(p@)),
        NonRelativeResolution::External => Ok(None),
        NonRelativeResolution::Unresolved(reason) => Err(reason@),
    }
}

/// Whether `i` is the position of the first `*` of `p`.
pub open spec fn is_first_star(p: Seq<char>, i: int) -> bool {
    &&& 0 <= i < p.len()
    &&& p[i] == '*'
    &&& forall|j: int| 0 <= j < i ==> p[j] != '*'
}

/// The position of the first `*` of a pattern, if it has one.
pub open spec fn star_index(p: Seq<char>) -> Option<int> {
    if exists|i: int| is_first_star(p, i) {
        Some(choose|i: int| is_first_star(p, i))
    } else {
        None
    }
}

/// Whether the wildcard pattern `p` matches `s`: `s` starts with the text before the
/// `*` and ends with the text after it, and the two do not overlap.
pub open spec fn wildcard_matches(p: Seq<char>, s: Seq<char>) -> bool {
    match star_index(p) {
        None => false,
        Some(k) => {
            let prefix = p.take(k);
            let suffix = p.skip(k + 1);
            &&& seq_starts_with(s, prefix)
            &&& seq_ends_with(s, suffix)
            &&& s.len() >= prefix.len() + suffix.len()
        },
    }
}

/// The UTF-8 length of the text before the `*` of a pattern.
pub open spec fn prefix_bytes(p: Seq<char>) -> nat {
    match star_index(p) {
        None => utf8(p).len(),
        Some(k) => utf8(p.take(k)).len(),
    }
}

/// Whether pattern `a` takes precedence over pattern `b`: a longer text before the `*`,
/// then the smaller pattern.
pub open spec fn takes_precedence(a: Seq<char>, b: Seq<char>) -> bool {
    prefix_bytes(a) > prefix_bytes(b) || (prefix_bytes(a) == prefix_bytes(b) && str_lt(a, b))
}

/// Whether mapping `i` is the wildcard mapping that takes precedence over every other
/// one that matches `s`.
pub open spec fn is_best_wildcard(ps: Seq<PathMapping>, s: Seq<char>, i: int) -> bool {
    &&& 0 <= i < ps.len()
    &&& wildcard_matches(ps[i].pattern@, s)
    &&& forall|j: int|
        0 <= j < ps.len() && j != i && wildcard_matches(#[trigger] ps[j].pattern@, s)
            ==> takes_precedence(ps[i].pattern@, ps[j].pattern@)
}

/// The mapping applied to `s`: the one whose pattern is `s` itself, else the wildcard
/// mapping that takes precedence among those that match.
pub open spec fn matching_mapping_index(ps: Seq<PathMapping>, s: Seq<char>) -> Option<int> {
    if exists|i: int| 0 <= i < ps.len() && #[trigger] ps[i].pattern@ == s {
        Some(choose|i: int| 0 <= i < ps.len() && #[trigger] ps[i].pattern@ == s)
    } else if exists|i: int| is_best_wildcard(ps, s, i) {
        Some(choose|i: int| is_best_wildcard(ps, s, i))
    } else {
        None
    }
}

/// `s` with each `*` replaced by `value`.
pub open spec fn replace_star(s: Seq<char>, value: Seq<char>) -> Seq<char>
    decreases s.len(),
{
    if s.len() == 0 {
        Seq::empty()
    } else {
        replace_star(s.drop_last(), value) + if s.last() == '*' {
            value
        } else {
            seq![s.last()]
        }
    }
}

/// The text that the `*` of a matching pattern stands for in `s`.
pub open spec fn wildcard_value(p: Seq<char>, s: Seq<char>) -> Option<Seq<char>> {
    match star_index(p) {
        None => None,
        Some(k) => Some(s.subrange(k, s.len() - (p.len() - k - 1))),
    }
}

/// The candidate path of a mapping target for the specifier `s`.
pub open spec fn target_candidate(p: Seq<char>, s: Seq<char>, target: Seq<char>) -> Seq<char> {
    match wildcard_value(p, s) {
        Some(v) => replace_star(target, v),
        None => target,
    }
}

/// The first target of a mapping, in order, whose candidate path is a known module file.
pub open spec fn first_target(
    p: Seq<char>,
    s: Seq<char>,
    targets: Seq<ConfiguredPath>,
    known: Seq<String>,
) -> Option<Seq<char>>
    decreases targets.len(),
{
    if targets.len() == 0 {
        None
    } else {
        match first_known(known_path_candidates(target_candidate(p, s, targets[0].path@)), known) {
            Some(path) => Some(path),
            None => first_target(p, s, targets.drop_first(), known),
        }
    }
}

/// How the non-relative specifier `s` resolves: through the mapping that applies to it,
/// else against `baseUrl`, else as an external package; unresolved when the
/// configuration could not be read.
pub open spec fn spec_resolve_non_relative(
    effective: Option<EffectiveConfig>,
    status: Seq<char>,
    s: Seq<char>,
    known: Seq<String>,
) -> Result<Option<Seq<char>>, Seq<char>> {
    match effective {
        None => if status == "truncated"@ {
            Err("tsconfig-resolution-truncated"@)
        } else {
            Err("tsconfig-resolution-unavailable"@)
        },
        Some(e) => match matching_mapping_index(e.paths@, s) {
            Some(i) => match first_target(e.paths@[i].pattern@, s, e.paths@[i].targets@, known) {
                Some(path) => Ok(Some(path)),
                None => Err("missing-tsconfig-path-target"@),
            },
            None => match e.base_url {
                Some(base) => match spec_join_relative(base.path@, s) {
                    Ok(candidate) => match first_known(known_path_candidates(candidate), known) {
                        Some(path) => Ok(Some(path)),
                        None => Ok(None),
                    },
                    Err(_) => Ok(None),
                },
                None => Ok(None),
            },
        },
    }
}

/// The position of the first `*` of `pattern`, if it has one.
fn find_star(pattern: &str) -> (r: Option<usize>)
    ensures
        match r {
            Some(k) => star_index(pattern@) == Some(k as int) && is_first_star(pattern@, k as int),
            None => star_index(pattern@) is None && forall|j: int|
                0 <= j < pattern@.len() ==> pattern@[j] != '*',
        },
{
    let chars = chars_of(pattern);
    let mut i: usize = 0;
    while i < chars.len()
        invariant
            chars@ == pattern@,
            i <= chars@.len(),
            forall|j: int| 0 <= j < i ==> chars@[j] != '*',
        decreases chars@.len() - i,
    {
        if chars[i] == '*' {
            assert(is_first_star(pattern@, i as int));
            proof {
                let c = choose|c: int| is_first_star(pattern@, c);
                assert(c == i as int) by {
                    if c < i as int {
                        assert(pattern@[c] != '*');
                    } else if c > i as int {
                        assert(pattern@[i as int] != '*');
                    }
                }
            }
            return Some(i);
        }
        i = i + 1;
    }
    assert(!exists|c: int| is_first_star(pattern@, c));
    None
}

/// The UTF-8 length of the first `n` characters of `chars`.
fn utf8_len_of(chars: &Vec<char>, n: usize) -> (r: usize)
    requires
        n <= chars@.len(),
    ensures
        r == utf8(chars@.take(n as int)).len(),
{
    let mut s = String::new();
    let mut i: usize = 0;
    while i < n
        invariant
            n <= chars@.len(),
            i <= n,
            s@ == chars@.take(i as int),
        decreases n - i,
    {
        push_char(&mut s, chars[i]);
        assert(chars@.take(i as int).push(chars@[i as int]) =~= chars@.take(i as int + 1));
        i = i + 1;
    }
    let b = s.as_str().as_bytes();
    b.len()
}

/// Whether the wildcard pattern matches `specifier`, with the UTF-8 length of the text
/// before its `*`.
fn wildcard_match(pattern: &str, specifier: &str) -> (r: Option<usize>)
    ensures
        match r {
            Some(n) => wildcard_matches(pattern@, specifier@) && n == prefix_bytes(pattern@),
            None => !wildcard_matches(pattern@, specifier@),
        },
{
    let k = match find_star(pattern) {
        None => return None,
        Some(k) => k,
    };
    let p = chars_of(pattern);
    let s = chars_of(specifier);
    let suffix_len = p.len() - k - 1;
    if s.len() < k + suffix_len {
        return None;
    }
    let mut i: usize = 0;
    while i < k
        invariant
            p@ == pattern@,
            s@ == specifier@,
            star_index(pattern@) == Some(k as int),
            i <= k < p@.len(),
            k <= s@.len(),
            forall|j: int| 0 <= j < i ==> s@[j] == p@[j],
        decreases k - i,
    {
        if s[i] != p[i] {
            assert(!seq_starts_with(specifier@, pattern@.take(k as int))) by {
                assert(specifier@.take(k as int)[i as int] != pattern@.take(k as int)[i as int]);
            }
            return None;
        }
        i = i + 1;
    }
    let ghost ss = s@.skip(s@.len() - suffix_len);
    let ghost pp = p@.skip(k + 1);
    let mut j: usize = 0;
    while j < suffix_len
        invariant
            p@ == pattern@,
            s@ == specifier@,
            star_index(pattern@) == Some(k as int),
            suffix_len == p@.len() - k - 1,
            k + suffix_len <= s@.len(),
            k < p@.len(),
            j <= suffix_len,
            ss == s@.skip(s@.len() - suffix_len),
            pp == p@.skip(k + 1),
            forall|m: int| 0 <= m < j ==> #[trigger] ss[m] == pp[m],
        decreases suffix_len - j,
    {
        if s[s.len() - suffix_len + j] != p[k + 1 + j] {
            assert(!seq_ends_with(specifier@, pattern@.skip(k as int + 1))) by {
                let suf = pattern@.skip(k as int + 1);
                assert(specifier@.skip(specifier@.len() - suf.len())[j as int] != suf[j as int]);
            }
            return None;
        }
        assert(ss[j as int] == s@[s@.len() - suffix_len + j]);
        assert(pp[j as int] == p@[k + 1 + j]);
        j = j + 1;
    }
    assert(seq_starts_with(specifier@, pattern@.take(k as int))) by {
        assert(specifier@.take(k as int) =~= pattern@.take(k as int));
    }
    assert(seq_ends_with(specifier@, pattern@.skip(k as int + 1))) by {
        let suf = pattern@.skip(k as int + 1);
        assert(specifier@.skip(specifier@.len() - suf.len()) =~= suf);
    }
    Some(utf8_len_of(&p, k))
}

/// Whether the mapping with pattern `a` and prefix length `na` takes precedence over the
/// one with pattern `b` and prefix length `nb`.
fn precedes(a: &str, na: usize, b: &str, nb: usize) -> (r: bool)
    requires
        na == prefix_bytes(a@),
        nb == prefix_bytes(b@),
    ensures
        r == takes_precedence(a@, b@),
{
    na > nb || (na == nb && str_less(a, b))
}

/// The index of the mapping that applies to `specifier`.
pub fn matching_mapping(specifier: &str, mappings: &Vec<PathMapping>) -> (r: Option<usize>)
    requires
        forall|i: int, j: int|
            0 <= i < mappings@.len() && 0 <= j < mappings@.len() && i != j
                ==> #[trigger] mappings@[i].pattern@ != #[trigger] mappings@[j].pattern@,
    ensures
        match r {
            Some(i) => matching_mapping_index(mappings@, specifier@) == Some(i as int),
            None => matching_mapping_index(mappings@, specifier@) is None,
        },
{
    let ghost ps = mappings@;
    let ghost s = specifier@;
    let mut i: usize = 0;
    while i < mappings.len()
        invariant
            i <= ps.len(),
            ps == mappings@,
            s == specifier@,
            forall|i: int, j: int|
                0 <= i < ps.len() && 0 <= j < ps.len() && i != j
                    ==> #[trigger] ps[i].pattern@ != #[trigger] ps[j].pattern@,
            forall|j: int| 0 <= j < i ==> #[trigger] ps[j].pattern@ != s,
        decreases ps.len() - i,
    {
        if str_eq(mappings[i].pattern.as_str(), specifier) {
            proof {
                let c = choose|c: int| 0 <= c < ps.len() && #[trigger] ps[c].pattern@ == s;
                assert(ps[i as int].pattern@ == s);
                assert(c == i as int);
            }
            return Some(i);
        }
        i = i + 1;
    }
    assert(!exists|c: int| 0 <= c < ps.len() && #[trigger] ps[c].pattern@ == s);
    let mut best: Option<(usize, usize)> = None;
    let mut i: usize = 0;
    while i < mappings.len()
        invariant
            i <= ps.len(),
            ps == mappings@,
            s == specifier@,
            forall|i: int, j: int|
                0 <= i < ps.len() && 0 <= j < ps.len() && i != j
                    ==> #[trigger] ps[i].pattern@ != #[trigger] ps[j].pattern@,
            match best {
                None => forall|j: int|
                    0 <= j < i ==> !wildcard_matches(#[trigger] ps[j].pattern@, s),
                Some((b, n)) => {
                    &&& b < i
                    &&& n == prefix_bytes(ps[b as int].pattern@)
                    &&& wildcard_matches(ps[b as int].pattern@, s)
                    &&& forall|j: int|
                        0 <= j < i && j != b && wildcard_matches(#[trigger] ps[j].pattern@, s)
                            ==> takes_precedence(ps[b as int].pattern@, ps[j].pattern@)
                },
            },
        decreases ps.len() - i,
    {
        match wildcard_match(mappings[i].pattern.as_str(), specifier) {
            None => {},
            Some(n) => {
                match best {
                    None => {
                        best = Some((i, n));
                    },
                    Some((b, nb)) => {
                        if precedes(mappings[i].pattern.as_str(), n, mappings[b].pattern.as_str(), nb) {
                            proof {
                                let pi = ps[i as int].pattern@;
                                let pb = ps[b as int].pattern@;
                                assert forall|j: int|
                                    0 <= j < i + 1 && j != i && wildcard_matches(#[trigger] ps[j].pattern@, s)
                                    implies takes_precedence(pi, ps[j].pattern@) by {
                                    if j != b as int {
                                        let pj = ps[j].pattern@;
                                        assert(takes_precedence(pb, pj));
                                        if prefix_bytes(pi) == prefix_bytes(pj) {
                                            crate::order::lemma_str_lt_transitive(pi, pb, pj);
                                        }
                                    }
                                }
                            }
                            best = Some((i, n));
                        } else {
                            proof {
                                let pi = ps[i as int].pattern@;
                                let pb = ps[b as int].pattern@;
                                assert(pi != pb);
                                lemma_str_lt_total(pi, pb);
                                assert(takes_precedence(pb, pi));
                            }
                        }
                    },
                }
            },
        }
        i = i + 1;
    }
    match best {
        None => {
            assert(!exists|c: int| is_best_wildcard(ps, s, c));
            None
        },
        Some((b, _)) => {
            proof {
                assert(is_best_wildcard(ps, s, b as int));
                let c = choose|c: int| is_best_wildcard(ps, s, c);
                if c != b as int {
                    let pc = ps[c].pattern@;
                    let pb = ps[b as int].pattern@;
                    assert(takes_precedence(pb, pc));
                    assert(takes_precedence(pc, pb));
                    if prefix_bytes(pb) == prefix_bytes(pc) {
                        lemma_str_lt_asymmetric(pb, pc);
                    }
                }
            }
            Some(b)
        },
    }
}

/// The characters of `chars` from position `from` up to position `to`.
fn substring(chars: &Vec<char>, from: usize, to: usize) -> (r: String)
    requires
        from <= to <= chars@.len(),
    ensures
        r@ == chars@.subrange(from as int, to as int),
{
    let mut r = String::new();
    let mut i: usize = from;
    while i < to
        invariant
            from <= i <= to <= chars@.len(),
            r@ == chars@.subrange(from as int, i as int),
        decreases to - i,
    {
        push_char(&mut r, chars[i]);
        assert(chars@.subrange(from as int, i as int).push(chars@[i as int]) =~= chars@.subrange(
            from as int,
            i as int + 1,
        ));
        i = i + 1;
    }
    r
}

/// `s` with each `*` replaced by `value`.
fn replace_stars(s: &str, value: &str) -> (r: String)
    ensures
        r@ == replace_star(s@, value@),
{
    let chars = chars_of(s);
    let mut r = String::new();
    let mut i: usize = 0;
    while i < chars.len()
        invariant
            chars@ == s@,
            i <= chars@.len(),
            r@ == replace_star(s@.take(i as int), value@),
        decreases chars@.len() - i,
    {
        assert(s@.take(i as int + 1).drop_last() =~= s@.take(i as int));
        if chars[i] == '*' {
            r.append(value);
        } else {
            push_char(&mut r, chars[i]);
        }
        i = i + 1;
    }
    assert(s@.take(chars@.len() as int) =~= s@);
    r
}

/// The text that the `*` of the pattern stands for in `specifier`, for a mapping that
/// applies to it.
fn wildcard_text(pattern: &str, specifier: &str) -> (r: Option<String>)
    requires
        pattern@ == specifier@ || wildcard_matches(pattern@, specifier@),
    ensures
        match wildcard_value(pattern@, specifier@) {
            Some(v) => r matches Some(x) && x@ == v,
            None => r is None,
        },
{
    match find_star(pattern) {
        None => None,
        Some(k) => {
            let chars = chars_of(specifier);
            let p = chars_of(pattern);
            let suffix_len = p.len() - k - 1;
            Some(substring(&chars, k, chars.len() - suffix_len))
        },
    }
}

/// Whether each mapping of an effective configuration has its own pattern.
proof fn lemma_patterns_distinct(e: EffectiveConfig)
    requires
        effective_wf(e),
    ensures
        forall|i: int, j: int|
            0 <= i < e.paths@.len() && 0 <= j < e.paths@.len() && i != j
                ==> #[trigger] e.paths@[i].pattern@ != #[trigger] e.paths@[j].pattern@,
{
    assert forall|i: int, j: int|
        0 <= i < e.paths@.len() && 0 <= j < e.paths@.len() && i != j
            implies #[trigger] e.paths@[i].pattern@ != #[trigger] e.paths@[j].pattern@ by {
        if i < j {
            assert(str_lt(e.paths@[i].pattern@, e.paths@[j].pattern@));
            crate::order::lemma_str_lt_irreflexive(e.paths@[i].pattern@);
        } else {
            assert(str_lt(e.paths@[j].pattern@, e.paths@[i].pattern@));
            crate::order::lemma_str_lt_irreflexive(e.paths@[j].pattern@);
        }
    }
}

impl ModuleResolver {
    /// The effective configuration, when it could be read.
    pub open spec fn effective_config(self) -> Option<EffectiveConfig> {
        self.effective
    }

    /// Whether the effective configuration keeps its mappings in pattern order.
    pub open spec fn wf(self) -> bool {
        match self.effective {
            Some(e) => effective_wf(e),
            None => true,
        }
    }

    /// The resolver of a repository without a root `tsconfig.json`: a complete basis over
    /// no files, and neither `baseUrl` nor `paths`.
    pub fn without_config() -> (r: Self)
        ensures
            r.wf(),
            r.basis.status@ == "complete"@,
            r.basis.root_config is None,
            r.basis.config_files@.len() == 0,
            r.basis.exact_fingerprint@ == text_hash(config_files_json(Seq::empty())),
            r.basis.effective_fingerprint@ == text_hash(effective_json(None, Seq::empty())),
            r.effective_config() matches Some(e) && e.base_url is None && e.paths@.len() == 0,
    {
        let effective = EffectiveConfig { base_url: None, paths: Vec::new() };
        assert(mappings_view(effective.paths@) =~= Seq::empty());
        let basis = complete_basis(None, Vec::new(), &effective);
        ModuleResolver { basis, effective: Some(effective) }
    }

    /// The resolver of a configuration chain that was read and merged completely from the
    /// root `tsconfig.json`: its files in path order and the effective options.
    pub fn with_config(files: Vec<ModuleResolutionConfigFile>, effective: EffectiveConfig) -> (r: Self)
        requires
            files_sorted(files@),
            effective_wf(effective),
        ensures
            r.wf(),
            r.basis.status@ == "complete"@,
            r.basis.root_config matches Some(c) && c@ == "tsconfig.json"@,
            r.basis.config_files@ == files@,
            r.basis.exact_fingerprint@ == text_hash(config_files_json(files@)),
            r.basis.effective_fingerprint@ == text_hash(
                effective_json(base_view(effective.base_url), mappings_view(effective.paths@)),
            ),
            r.effective_config() == Some(effective),
    {
        let basis = complete_basis(Some("tsconfig.json".to_string()), files, &effective);
        ModuleResolver { basis, effective: Some(effective) }
    }

    /// The resolver of a configuration chain that could not be used, for `reason`; it
    /// resolves no non-relative specifier.
    pub fn unavailable(files: Vec<ModuleResolutionConfigFile>, reason: String) -> (r: Self)
        requires
            files_sorted(files@),
        ensures
            r.wf(),
            r.basis.status@ == if seq_contains(reason@, "capped"@) {
                "truncated"@
            } else {
                "unavailable"@
            },
            r.basis.root_config matches Some(c) && c@ == "tsconfig.json"@,
            r.basis.config_files@ == files@,
            r.basis.exact_fingerprint@ == text_hash(config_files_json(files@)),
            r.basis.effective_fingerprint@.len() == 0,
            views(r.basis.limitations@) == seq![reason@],
            r.effective_config() is None,
    {
        ModuleResolver { basis: unavailable_basis(files, reason), effective: None }
    }

    /// Resolves the non-relative `specifier` against the mapping that applies to it, then
    /// `baseUrl`; a specifier neither reaches is an external package.
    pub fn resolve_non_relative(&self, specifier: &str, known_paths: &[String]) -> (r: NonRelativeResolution)
        requires
            self.wf(),
        ensures
            resolution_view(r) == spec_resolve_non_relative(
                self.effective_config(),
                self.basis.status@,
                specifier@,
                known_paths@,
            ),
    {
        let effective = match &self.effective {
            None => {
                let reason = if str_eq(self.basis.status.as_str(), "truncated") {
                    "tsconfig-resolution-truncated"
                } else {
                    "tsconfig-resolution-unavailable"
                };
                return NonRelativeResolution::Unresolved(reason.to_string());
            },
            Some(e) => e,
        };
        proof {
            lemma_patterns_distinct(*effective);
        }
        match matching_mapping(specifier, &effective.paths) {
            Some(i) => {
                let mapping = &effective.paths[i];
                proof {
                    let ps = effective.paths@;
                    if !(exists|c: int| 0 <= c < ps.len() && #[trigger] ps[c].pattern@ == specifier@) {
                        let c = choose|c: int| is_best_wildcard(ps, specifier@, c);
                        assert(is_best_wildcard(ps, specifier@, c));
                    }
                }
                let wildcard = wildcard_text(mapping.pattern.as_str(), specifier);
                let ghost p = mapping.pattern@;
                let ghost all = mapping.targets@;
                let mut t: usize = 0;
                assert(all.skip(0) =~= all);
                while t < mapping.targets.len()
                    invariant
                        self.effective == Some(*effective),
                        i < effective.paths@.len(),
                        matching_mapping_index(effective.paths@, specifier@) == Some(i as int),
                        *mapping == effective.paths@[i as int],
                        p == mapping.pattern@,
                        all == mapping.targets@,
                        t <= all.len(),
                        match wildcard_value(p, specifier@) {
                            Some(v) => wildcard matches Some(x) && x@ == v,
                            None => wildcard is None,
                        },
                        first_target(p, specifier@, all, known_paths@) == first_target(
                            p,
                            specifier@,
                            all.skip(t as int),
                            known_paths@,
                        ),
                    decreases all.len() - t,
                {
                    let target = &mapping.targets[t];
                    let candidate = match &wildcard {
                        Some(value) => replace_stars(target.path.as_str(), value.as_str()),
                        None => target.path.clone(),
                    };
                    assert(all.skip(t as int)[0] == all[t as int]);
                    assert(all.skip(t as int).drop_first() =~= all.skip(t as int + 1));
                    assert(candidate@ == target_candidate(p, specifier@, all[t as int].path@));
                    match resolve_known_path(candidate.as_str(), known_paths) {
                        Some(path) => {
                            return NonRelativeResolution::Local(path);
                        },
                        None => {},
                    }
                    t = t + 1;
                }
                NonRelativeResolution::Unresolved("missing-tsconfig-path-target".to_string())
            },
            None => {
                match &effective.base_url {
                    Some(base) => match join_relative(base.path.as_str(), specifier) {
                        Ok(candidate) => match resolve_known_path(candidate.as_str(), known_paths) {
                            Some(path) => NonRelativeResolution::Local(path),
                            None => NonRelativeResolution::External,
                        },
                        Err(_) => NonRelativeResolution::External,
                    },
                    None => NonRelativeResolution::External,
                }
            },
        }
    }
}

} // verus!
