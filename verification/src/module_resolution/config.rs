//! Effective compiler options of a configuration chain, and the basis they are
//! fingerprinted into.

use vstd::prelude::*;

use super::paths::{
    join_relative, normalize_config_path, parent_components, parent_directory,
    spec_join_relative, spec_normalize_config_path,
};
use super::MODULE_RESOLUTION_SCHEMA;
use crate::discovery::{extension, normalize_relative_path, path_extension, spec_normalize_relative_path};
use crate::flow::manifest::{hash_text, text_hash};
use crate::hashing::{blake3_hex, blake3_hex_of};
use crate::json::{
    array_text, json_array, json_member, json_object, json_string, json_uint, member_text,
    object_text, push_json_uint, string_text,
};
use crate::model::typescript::{ModuleResolutionBasis, ModuleResolutionConfigFile};
use crate::order::str_lt;
use crate::text::{contains, join_seq, seq_contains, seq_starts_with, starts_with, str_eq, views};

verus! {

broadcast use vstd::string::group_string_axioms;

/// A configured repository-relative path and the configuration file that declared it.
#[derive(Debug)]
pub struct ConfiguredPath {
    pub path: String,
    pub origin: String,
}

/// One `paths` pattern and its configured targets, in order.
#[derive(Debug)]
pub struct PathMapping {
    pub pattern: String,
    pub targets: Vec<ConfiguredPath>,
}

/// The `baseUrl` and `paths` in effect after merging a configuration chain; the
/// mappings are held in ascending pattern order.
#[derive(Debug)]
pub struct EffectiveConfig {
    pub base_url: Option<ConfiguredPath>,
    pub paths: Vec<PathMapping>,
}

/// The compiler options of one configuration file that module resolution reads:
/// `baseUrl`, and `paths` as its JSON object gives them, in ascending pattern order.
#[derive(Debug)]
pub struct RawCompilerOptions {
    pub base_url: Option<String>,
    pub paths: Option<Vec<(String, Vec<String>)>>,
}

/// Whether the mappings of an effective configuration are in strictly ascending
/// pattern order.
pub open spec fn effective_wf(e: EffectiveConfig) -> bool {
    forall|i: int, j: int|
        0 <= i < j < e.paths@.len() ==> str_lt(#[trigger] e.paths@[i].pattern@, #[trigger] e.paths@[j].pattern@)
}

/// Whether the raw `paths` patterns are in strictly ascending order.
pub open spec fn raw_paths_wf(paths: Seq<(String, Vec<String>)>) -> bool {
    forall|i: int, j: int| 0 <= i < j < paths.len() ==> str_lt(#[trigger] paths[i].0@, #[trigger] paths[j].0@)
}

/// A configured path as its path and origin.
pub open spec fn configured_view(c: ConfiguredPath) -> (Seq<char>, Seq<char>) {
    (c.path@, c.origin@)
}

/// The configured targets of a mapping, as paths and origins.
pub open spec fn targets_view(ts: Seq<ConfiguredPath>) -> Seq<(Seq<char>, Seq<char>)> {
    ts.map_values(|t: ConfiguredPath| configured_view(t))
}

/// The mappings of an effective configuration, as patterns with their targets.
pub open spec fn mappings_view(ms: Seq<PathMapping>) -> Seq<(Seq<char>, Seq<(Seq<char>, Seq<char>)>)> {
    ms.map_values(|m: PathMapping| (m.pattern@, targets_view(m.targets@)))
}

/// The `baseUrl` of an effective configuration, as its path and origin.
pub open spec fn base_view(b: Option<ConfiguredPath>) -> Option<(Seq<char>, Seq<char>)> {
    match b {
        Some(c) => Some(configured_view(c)),
        None => None,
    }
}

/// The number of times `c` occurs in `s`.
pub open spec fn count_char(s: Seq<char>, c: char) -> nat
    decreases s.len(),
{
    if s.len() == 0 {
        0
    } else {
        count_char(s.drop_last(), c) + if s.last() == c {
            1nat
        } else {
            0nat
        }
    }
}

/// The directory a configuration file's relative paths are resolved from.
pub open spec fn config_dir(path: Seq<char>) -> Seq<char> {
    join_seq(parent_components(path), "/"@)
}

/// The targets of one pattern, each resolved against `base` and attributed to `origin`;
/// the first target that cannot be resolved gives the error.
pub open spec fn resolve_targets(
    base: Seq<char>,
    origin: Seq<char>,
    targets: Seq<String>,
) -> Result<Seq<(Seq<char>, Seq<char>)>, Seq<char>>
    decreases targets.len(),
{
    if targets.len() == 0 {
        Ok(Seq::empty())
    } else {
        match resolve_targets(base, origin, targets.drop_last()) {
            Err(e) => Err(e),
            Ok(done) => match spec_normalize_config_path(base, targets.last()@) {
                Err(e) => Err(e),
                Ok(p) => Ok(done.push((p, origin))),
            },
        }
    }
}

/// The mappings of a `paths` object with the running count of targets, or the first
/// violation in pattern order.
pub open spec fn resolve_mappings(
    base: Seq<char>,
    origin: Seq<char>,
    paths: Seq<(String, Vec<String>)>,
) -> Result<(Seq<(Seq<char>, Seq<(Seq<char>, Seq<char>)>)>, nat), Seq<char>>
    decreases paths.len(),
{
    if paths.len() == 0 {
        Ok((Seq::empty(), 0))
    } else {
        match resolve_mappings(base, origin, paths.drop_last()) {
            Err(e) => Err(e),
            Ok((done, total)) => {
                let pattern = paths.last().0@;
                let targets = paths.last().1@;
                if count_char(pattern, '*') > 1 {
                    Err("tsconfig-path-pattern-unsupported:"@ + pattern)
                } else if targets.len() == 0 {
                    Err("tsconfig-path-targets-empty:"@ + pattern)
                } else if total + targets.len() > 10000 {
                    Err("tsconfig-path-targets-capped-at-10000"@)
                } else {
                    match resolve_targets(base, origin, targets) {
                        Err(e) => Err(e),
                        Ok(ts) => Ok((done.push((pattern, ts)), total + targets.len())),
                    }
                }
            },
        }
    }
}

/// The `baseUrl` in effect after a configuration file, or the error it gives.
pub open spec fn merged_base(
    path: Seq<char>,
    options: RawCompilerOptions,
    old_base: Option<(Seq<char>, Seq<char>)>,
) -> Result<Option<(Seq<char>, Seq<char>)>, Seq<char>> {
    match options.base_url {
        None => Ok(old_base),
        Some(b) => match spec_normalize_config_path(config_dir(path), b@) {
            Err(e) => Err(e),
            Ok(p) => Ok(Some((p, path))),
        },
    }
}

/// The mappings in effect after a configuration file, or the error it gives: its
/// `paths` replace the earlier ones, resolved against the `baseUrl` in effect, else
/// against the file's directory.
pub open spec fn merged_paths(
    path: Seq<char>,
    options: RawCompilerOptions,
    base: Option<(Seq<char>, Seq<char>)>,
    old_paths: Seq<(Seq<char>, Seq<(Seq<char>, Seq<char>)>)>,
) -> Result<Seq<(Seq<char>, Seq<(Seq<char>, Seq<char>)>)>, Seq<char>> {
    match options.paths {
        None => Ok(old_paths),
        Some(paths) => if paths@.len() > 1000 {
            Err("tsconfig-path-mappings-capped-at-1000"@)
        } else {
            let dir = match base {
                Some(b) => b.0,
                None => config_dir(path),
            };
            match resolve_mappings(dir, path, paths@) {
                Err(e) => Err(e),
                Ok((ms, _)) => Ok(ms),
            }
        },
    }
}

fn count_stars(s: &str) -> (r: usize)
    ensures
        r == count_char(s@, '*'),
{
    let chars = crate::text::chars_of(s);
    let mut n: usize = 0;
    let mut i: usize = 0;
    while i < chars.len()
        invariant
            chars@ == s@,
            i <= chars@.len(),
            n == count_char(s@.take(i as int), '*'),
            n <= i,
        decreases chars@.len() - i,
    {
        assert(s@.take(i as int + 1).drop_last() =~= s@.take(i as int));
        if chars[i] == '*' {
            n = n + 1;
        }
        i = i + 1;
    }
    assert(s@.take(chars@.len() as int) =~= s@);
    n
}

fn resolve_targets_of(base: &str, origin: &str, targets: &Vec<String>) -> (r: Result<
    Vec<ConfiguredPath>,
    String,
>)
    ensures
        match r {
            Ok(ts) => resolve_targets(base@, origin@, targets@) == Ok::<
                Seq<(Seq<char>, Seq<char>)>,
                Seq<char>,
            >(targets_view(ts@)),
            Err(e) => resolve_targets(base@, origin@, targets@) == Err::<
                Seq<(Seq<char>, Seq<char>)>,
                Seq<char>,
            >(e@),
        },
{
    let mut out: Vec<ConfiguredPath> = Vec::new();
    assert(targets@.take(0) =~= Seq::<String>::empty());
    assert(targets_view(out@) =~= Seq::<(Seq<char>, Seq<char>)>::empty());
    let mut i: usize = 0;
    while i < targets.len()
        invariant
            i <= targets@.len(),
            resolve_targets(base@, origin@, targets@.take(i as int)) == Ok::<
                Seq<(Seq<char>, Seq<char>)>,
                Seq<char>,
            >(targets_view(out@)),
        decreases targets@.len() - i,
    {
        assert(targets@.take(i as int + 1).drop_last() =~= targets@.take(i as int));
        match normalize_config_path(base, targets[i].as_str()) {
            Err(e) => {
                assert(resolve_targets(base@, origin@, targets@.take(i as int + 1)) == Err::<
                    Seq<(Seq<char>, Seq<char>)>,
                    Seq<char>,
                >(e@));
                proof {
                    lemma_resolve_targets_err(base@, origin@, targets@, i as int + 1);
                }
                return Err(e);
            },
            Ok(p) => {
                let ghost before = out@;
                out.push(ConfiguredPath { path: p, origin: origin.to_string() });
                assert(targets_view(out@) =~= targets_view(before).push((p@, origin@)));
            },
        }
        i = i + 1;
    }
    assert(targets@.take(targets@.len() as int) =~= targets@);
    Ok(out)
}

/// An error for a prefix of the targets is the error for all of them.
proof fn lemma_resolve_targets_err(base: Seq<char>, origin: Seq<char>, targets: Seq<String>, n: int)
    requires
        0 <= n <= targets.len(),
        resolve_targets(base, origin, targets.take(n)) is Err,
    ensures
        resolve_targets(base, origin, targets) == resolve_targets(base, origin, targets.take(n)),
    decreases targets.len() - n,
{
    if n < targets.len() {
        assert(targets.take(n + 1).drop_last() =~= targets.take(n));
        lemma_resolve_targets_err(base, origin, targets, n + 1);
    } else {
        assert(targets.take(n) =~= targets);
    }
}

/// An error for a prefix of the patterns is the error for all of them.
proof fn lemma_resolve_mappings_err(
    base: Seq<char>,
    origin: Seq<char>,
    paths: Seq<(String, Vec<String>)>,
    n: int,
)
    requires
        0 <= n <= paths.len(),
        resolve_mappings(base, origin, paths.take(n)) is Err,
    ensures
        resolve_mappings(base, origin, paths) == resolve_mappings(base, origin, paths.take(n)),
    decreases paths.len() - n,
{
    if n < paths.len() {
        assert(paths.take(n + 1).drop_last() =~= paths.take(n));
        lemma_resolve_mappings_err(base, origin, paths, n + 1);
    } else {
        assert(paths.take(n) =~= paths);
    }
}

fn clone_path(c: &ConfiguredPath) -> (r: ConfiguredPath)
    ensures
        configured_view(r) == configured_view(*c),
{
    ConfiguredPath { path: c.path.clone(), origin: c.origin.clone() }
}

/// Merges one configuration file, read at `path`, into the effective configuration: a
/// `baseUrl` replaces the earlier one and a `paths` object replaces the earlier
/// mappings. The error names the first option that cannot be honoured; on success both
/// are as the merge gives them.
pub fn merge_document(
    path: &str,
    options: &RawCompilerOptions,
    effective: &mut EffectiveConfig,
) -> (r: Result<(), String>)
    requires
        match options.paths {
            Some(ps) => raw_paths_wf(ps@),
            None => true,
        },
        effective_wf(*old(effective)),
    ensures
        match merged_base(path@, *options, base_view(old(effective).base_url)) {
            Err(e) => r matches Err(x) && x@ == e,
            Ok(base) => match merged_paths(path@, *options, base, mappings_view(old(effective).paths@)) {
                Err(e) => r matches Err(x) && x@ == e,
                Ok(ms) => {
                    &&& r is Ok
                    &&& base_view(final(effective).base_url) == base
                    &&& mappings_view(final(effective).paths@) == ms
                    &&& effective_wf(*final(effective))
                },
            },
        },
{
    let dir = parent_directory(path);
    match &options.base_url {
        None => {},
        Some(b) => {
            match normalize_config_path(dir.as_str(), b.as_str()) {
                Err(e) => return Err(e),
                Ok(p) => {
                    effective.base_url = Some(ConfiguredPath { path: p, origin: path.to_string() });
                },
            }
        },
    }
    let ghost base = base_view(effective.base_url);
    assert(merged_base(path@, *options, base_view(old(effective).base_url)) == Ok::<
        Option<(Seq<char>, Seq<char>)>,
        Seq<char>,
    >(base));
    match &options.paths {
        None => Ok(()),
        Some(paths) => {
            if paths.len() > 1000 {
                return Err("tsconfig-path-mappings-capped-at-1000".to_string());
            }
            let target_base = match &effective.base_url {
                Some(b) => b.path.clone(),
                None => dir.clone(),
            };
            let mut mappings: Vec<PathMapping> = Vec::new();
            let mut total: usize = 0;
            assert(paths@.take(0) =~= Seq::<(String, Vec<String>)>::empty());
            assert(mappings_view(mappings@) =~= Seq::<(Seq<char>, Seq<(Seq<char>, Seq<char>)>)>::empty());
            let mut i: usize = 0;
            while i < paths.len()
                invariant
                    options.paths matches Some(ps) && ps@ == paths@,
                    merged_base(path@, *options, base_view(old(effective).base_url)) == Ok::<
                        Option<(Seq<char>, Seq<char>)>,
                        Seq<char>,
                    >(base),
                    i <= paths@.len(),
                    paths@.len() <= 1000,
                    raw_paths_wf(paths@),
                    target_base@ == match base {
                        Some(b) => b.0,
                        None => config_dir(path@),
                    },
                    resolve_mappings(target_base@, path@, paths@.take(i as int)) == Ok::<
                        (Seq<(Seq<char>, Seq<(Seq<char>, Seq<char>)>)>, nat),
                        Seq<char>,
                    >((mappings_view(mappings@), total as nat)),
                    total <= 10000,
                    mappings@.len() == i,
                    forall|k: int| 0 <= k < i ==> #[trigger] mappings@[k].pattern@ == paths@[k].0@,
                decreases paths@.len() - i,
            {
                assert(paths@.take(i as int + 1).drop_last() =~= paths@.take(i as int));
                assert(paths@.take(i as int + 1).last() == paths@[i as int]);
                let pattern = &paths[i].0;
                let targets = &paths[i].1;
                if count_stars(pattern.as_str()) > 1 {
                    let mut e = "tsconfig-path-pattern-unsupported:".to_string();
                    e.append(pattern.as_str());
                    proof {
                        lemma_resolve_mappings_err(target_base@, path@, paths@, i as int + 1);
                    }
                    return Err(e);
                }
                if targets.len() == 0 {
                    let mut e = "tsconfig-path-targets-empty:".to_string();
                    e.append(pattern.as_str());
                    proof {
                        lemma_resolve_mappings_err(target_base@, path@, paths@, i as int + 1);
                    }
                    return Err(e);
                }
                if targets.len() > 10000 - total {
                    proof {
                        lemma_resolve_mappings_err(target_base@, path@, paths@, i as int + 1);
                    }
                    return Err("tsconfig-path-targets-capped-at-10000".to_string());
                }
                total = total + targets.len();
                match resolve_targets_of(target_base.as_str(), path, targets) {
                    Err(e) => {
                        proof {
                            lemma_resolve_mappings_err(target_base@, path@, paths@, i as int + 1);
                        }
                        return Err(e);
                    },
                    Ok(ts) => {
                        let ghost before = mappings@;
                        mappings.push(PathMapping { pattern: pattern.clone(), targets: ts });
                        assert(mappings_view(mappings@) =~= mappings_view(before).push(
                            (paths@[i as int].0@, targets_view(ts@)),
                        ));
                    },
                }
                i = i + 1;
            }
            assert(paths@.take(paths@.len() as int) =~= paths@);
            effective.paths = mappings;
            assert(effective_wf(*effective)) by {
                assert forall|a: int, b: int|
                    0 <= a < b < effective.paths@.len() implies str_lt(
                    #[trigger] effective.paths@[a].pattern@,
                    #[trigger] effective.paths@[b].pattern@,
                ) by {
                    assert(effective.paths@[a].pattern@ == paths@[a].0@);
                    assert(effective.paths@[b].pattern@ == paths@[b].0@);
                }
            }
            Ok(())
        },
    }
}

/// A pair of texts as a JSON array.
pub open spec fn pair_json(a: Seq<char>, b: Seq<char>) -> Seq<char> {
    json_array(seq![json_string(a), json_string(b)])
}

/// One configuration file as the JSON object `{"path":..,"bytes":..,"hash":..}`.
pub open spec fn config_file_json(f: ModuleResolutionConfigFile) -> Seq<char> {
    json_object(
        seq![
            json_member("path"@, json_string(f.path@)),
            json_member("bytes"@, json_uint(f.bytes as nat)),
            json_member("hash"@, json_string(f.hash@)),
        ],
    )
}

/// The configuration files as a JSON array, in order.
pub open spec fn config_files_json(files: Seq<ModuleResolutionConfigFile>) -> Seq<char> {
    json_array(files.map_values(|f: ModuleResolutionConfigFile| config_file_json(f)))
}

/// A configured target as the JSON array `[path, origin]`.
pub open spec fn target_json(t: (Seq<char>, Seq<char>)) -> Seq<char> {
    pair_json(t.0, t.1)
}

/// A mapping as the JSON array `[pattern, [target..]]`.
pub open spec fn mapping_json(m: (Seq<char>, Seq<(Seq<char>, Seq<char>)>)) -> Seq<char> {
    json_array(
        seq![
            json_string(m.0),
            json_array(m.1.map_values(|t: (Seq<char>, Seq<char>)| target_json(t))),
        ],
    )
}

/// The `baseUrl` as JSON: `null` or `[path, origin]`.
pub open spec fn base_json(base: Option<(Seq<char>, Seq<char>)>) -> Seq<char> {
    match base {
        None => "null"@,
        Some(b) => pair_json(b.0, b.1),
    }
}

/// The effective `baseUrl` and `paths` as the JSON array `[baseUrl, [mapping..]]`.
pub open spec fn effective_json(
    base: Option<(Seq<char>, Seq<char>)>,
    mappings: Seq<(Seq<char>, Seq<(Seq<char>, Seq<char>)>)>,
) -> Seq<char> {
    json_array(
        seq![
            base_json(base),
            json_array(mappings.map_values(|m: (Seq<char>, Seq<(Seq<char>, Seq<char>)>)| mapping_json(m))),
        ],
    )
}

/// Whether the configuration files are in strictly ascending path order.
pub open spec fn files_sorted(files: Seq<ModuleResolutionConfigFile>) -> bool {
    forall|i: int, j: int| 0 <= i < j < files.len() ==> str_lt(#[trigger] files[i].path@, #[trigger] files[j].path@)
}

/// The limitations every complete basis declares.
pub open spec fn complete_limitations() -> Seq<Seq<char>> {
    seq![
        "nested-tsconfig-project-selection-unsupported"@,
        "package-and-project-reference-resolution-unsupported"@,
    ]
}

fn pair_text(a: &str, b: &str) -> (r: String)
    ensures
        r@ == pair_json(a@, b@),
{
    let mut items: Vec<String> = Vec::new();
    items.push(string_text(a));
    items.push(string_text(b));
    assert(views(items@) =~= seq![json_string(a@), json_string(b@)]);
    array_text(&items)
}

fn config_files_text(files: &Vec<ModuleResolutionConfigFile>) -> (r: String)
    ensures
        r@ == config_files_json(files@),
{
    let mut items: Vec<String> = Vec::new();
    let mut i: usize = 0;
    while i < files.len()
        invariant
            i <= files@.len(),
            views(items@) == files@.take(i as int).map_values(
                |f: ModuleResolutionConfigFile| config_file_json(f),
            ),
        decreases files@.len() - i,
    {
        let f = &files[i];
        let mut members: Vec<String> = Vec::new();
        let path = string_text(f.path.as_str());
        members.push(member_text("path", path.as_str()));
        let mut bytes = String::new();
        push_json_uint(&mut bytes, f.bytes);
        members.push(member_text("bytes", bytes.as_str()));
        let hash = string_text(f.hash.as_str());
        members.push(member_text("hash", hash.as_str()));
        assert(views(members@) =~= seq![
            json_member("path"@, json_string(f.path@)),
            json_member("bytes"@, json_uint(f.bytes as nat)),
            json_member("hash"@, json_string(f.hash@)),
        ]);
        let ghost before = items@;
        items.push(object_text(&members));
        assert(views(items@) =~= views(before).push(config_file_json(files@[i as int])));
        assert(files@.take(i as int + 1).map_values(|f: ModuleResolutionConfigFile| config_file_json(f))
            =~= files@.take(i as int).map_values(|f: ModuleResolutionConfigFile| config_file_json(f)).push(
            config_file_json(files@[i as int]),
        ));
        i = i + 1;
    }
    assert(files@.take(files@.len() as int) =~= files@);
    array_text(&items)
}

fn effective_text(effective: &EffectiveConfig) -> (r: String)
    ensures
        r@ == effective_json(base_view(effective.base_url), mappings_view(effective.paths@)),
{
    let base = match &effective.base_url {
        None => "null".to_string(),
        Some(b) => pair_text(b.path.as_str(), b.origin.as_str()),
    };
    let ghost ms = mappings_view(effective.paths@);
    let mut mapping_items: Vec<String> = Vec::new();
    let mut i: usize = 0;
    while i < effective.paths.len()
        invariant
            i <= effective.paths@.len(),
            ms == mappings_view(effective.paths@),
            views(mapping_items@) == ms.take(i as int).map_values(
                |m: (Seq<char>, Seq<(Seq<char>, Seq<char>)>)| mapping_json(m),
            ),
        decreases effective.paths@.len() - i,
    {
        let m = &effective.paths[i];
        let ghost tv = targets_view(m.targets@);
        let mut target_items: Vec<String> = Vec::new();
        let mut t: usize = 0;
        while t < m.targets.len()
            invariant
                t <= m.targets@.len(),
                tv == targets_view(m.targets@),
                views(target_items@) == tv.take(t as int).map_values(
                    |x: (Seq<char>, Seq<char>)| target_json(x),
                ),
            decreases m.targets@.len() - t,
        {
            let ghost before = target_items@;
            target_items.push(pair_text(m.targets[t].path.as_str(), m.targets[t].origin.as_str()));
            assert(views(target_items@) =~= views(before).push(target_json(tv[t as int])));
            assert(tv.take(t as int + 1).map_values(|x: (Seq<char>, Seq<char>)| target_json(x))
                =~= tv.take(t as int).map_values(|x: (Seq<char>, Seq<char>)| target_json(x)).push(
                target_json(tv[t as int]),
            ));
            t = t + 1;
        }
        assert(tv.take(tv.len() as int) =~= tv);
        let targets_text = array_text(&target_items);
        let mut pair: Vec<String> = Vec::new();
        pair.push(string_text(m.pattern.as_str()));
        pair.push(targets_text);
        let ghost before = mapping_items@;
        mapping_items.push(array_text(&pair));
        proof {
            let mv = ms[i as int];
            assert(mv == (m.pattern@, tv));
            assert(views(pair@) =~= seq![
                json_string(m.pattern@),
                json_array(tv.map_values(|t: (Seq<char>, Seq<char>)| target_json(t))),
            ]);
            assert(views(mapping_items@) =~= views(before).push(mapping_json(mv)));
            assert(ms.take(i as int + 1).map_values(|m: (Seq<char>, Seq<(Seq<char>, Seq<char>)>)| mapping_json(m))
                =~= ms.take(i as int).map_values(|m: (Seq<char>, Seq<(Seq<char>, Seq<char>)>)| mapping_json(m)).push(
                mapping_json(mv),
            ));
        }
        i = i + 1;
    }
    assert(ms.take(ms.len() as int) =~= ms);
    let mut top: Vec<String> = Vec::new();
    top.push(base);
    top.push(array_text(&mapping_items));
    assert(views(top@) =~= seq![
        base_json(base_view(effective.base_url)),
        json_array(ms.map_values(|m: (Seq<char>, Seq<(Seq<char>, Seq<char>)>)| mapping_json(m))),
    ]);
    array_text(&top)
}

/// The basis of a configuration chain that was read and merged completely: its root
/// configuration, its files in path order, a hash of those files and a hash of the
/// effective options.
pub fn complete_basis(
    root_config: Option<String>,
    files: Vec<ModuleResolutionConfigFile>,
    effective: &EffectiveConfig,
) -> (r: ModuleResolutionBasis)
    requires
        files_sorted(files@),
    ensures
        r.schema_version@ == MODULE_RESOLUTION_SCHEMA@,
        r.status@ == "complete"@,
        r.root_config == root_config,
        r.config_files@ == files@,
        r.exact_fingerprint@ == text_hash(config_files_json(files@)),
        r.effective_fingerprint@ == text_hash(
            effective_json(base_view(effective.base_url), mappings_view(effective.paths@)),
        ),
        views(r.limitations@) == complete_limitations(),
        r.omissions@.len() == 0,
{
    let exact = config_files_text(&files);
    let eff = effective_text(effective);
    let mut limitations: Vec<String> = Vec::new();
    limitations.push("nested-tsconfig-project-selection-unsupported".to_string());
    limitations.push("package-and-project-reference-resolution-unsupported".to_string());
    assert(views(limitations@) =~= complete_limitations());
    ModuleResolutionBasis {
        schema_version: MODULE_RESOLUTION_SCHEMA.to_string(),
        status: "complete".to_string(),
        root_config,
        config_files: files,
        exact_fingerprint: hash_text(exact.as_str()),
        effective_fingerprint: hash_text(eff.as_str()),
        limitations,
        omissions: Vec::new(),
    }
}

/// The basis of a configuration chain that could not be used: `truncated` when the
/// reason is a cap, else `unavailable`, with the files read so far and the reason as its
/// only limitation.
pub fn unavailable_basis(files: Vec<ModuleResolutionConfigFile>, reason: String) -> (r: ModuleResolutionBasis)
    requires
        files_sorted(files@),
    ensures
        r.schema_version@ == MODULE_RESOLUTION_SCHEMA@,
        r.status@ == if seq_contains(reason@, "capped"@) {
            "truncated"@
        } else {
            "unavailable"@
        },
        r.root_config matches Some(c) && c@ == "tsconfig.json"@,
        r.config_files@ == files@,
        r.exact_fingerprint@ == text_hash(config_files_json(files@)),
        r.effective_fingerprint@.len() == 0,
        views(r.limitations@) == seq![reason@],
        r.omissions@.len() == 0,
{
    let exact = config_files_text(&files);
    let status = if contains(reason.as_str(), "capped") {
        "truncated".to_string()
    } else {
        "unavailable".to_string()
    };
    let mut limitations: Vec<String> = Vec::new();
    limitations.push(reason);
    assert(views(limitations@) =~= seq![reason@]);
    ModuleResolutionBasis {
        schema_version: MODULE_RESOLUTION_SCHEMA.to_string(),
        status,
        root_config: Some("tsconfig.json".to_string()),
        config_files: files,
        exact_fingerprint: hash_text(exact.as_str()),
        effective_fingerprint: String::new(),
        limitations,
        omissions: Vec::new(),
    }
}

/// The configuration file that `extends` in the configuration at `current` names: only
/// relative paths inside the repository are followed, and a path without an extension
/// names a `.json` file.
pub open spec fn spec_resolve_extends_path(current: Seq<char>, extends: Seq<char>) -> Result<Seq<char>, Seq<char>> {
    if !seq_starts_with(extends, "."@) {
        Err("tsconfig-package-extends-unsupported"@)
    } else {
        match spec_join_relative(config_dir(current), extends) {
            Err(e) => if e == "tsconfig-path-escapes-repository"@ {
                Err("tsconfig-extends-escapes-repository"@)
            } else {
                Err(e)
            },
            Ok(parent) => match spec_normalize_relative_path(parent) {
                Err(_) => Err("tsconfig-extends-escapes-repository"@),
                Ok(normalized) => if extension(normalized) is None {
                    Ok(normalized + ".json"@)
                } else {
                    Ok(normalized)
                },
            },
        }
    }
}

/// Resolves the `extends` value of the configuration at `current` to a
/// repository-relative configuration path.
pub fn resolve_extends_path(current: &str, extends: &str) -> (r: Result<String, String>)
    ensures
        match spec_resolve_extends_path(current@, extends@) {
            Ok(p) => r matches Ok(x) && x@ == p,
            Err(e) => r matches Err(x) && x@ == e,
        },
{
    if !starts_with(extends, ".") {
        return Err("tsconfig-package-extends-unsupported".to_string());
    }
    let dir = parent_directory(current);
    let parent = match join_relative(dir.as_str(), extends) {
        Err(e) => {
            if str_eq(e.as_str(), "tsconfig-path-escapes-repository") {
                return Err("tsconfig-extends-escapes-repository".to_string());
            }
            return Err(e);
        },
        Ok(p) => p,
    };
    let normalized = match normalize_relative_path(parent.as_str()) {
        Err(_) => return Err("tsconfig-extends-escapes-repository".to_string()),
        Ok(n) => n,
    };
    match path_extension(normalized.as_str()) {
        None => {
            let mut r = normalized;
            r.append(".json");
            Ok(r)
        },
        Some(_) => Ok(normalized),
    }
}

/// One configuration file of a chain: its path, size, content hash, `extends` value and
/// compiler options.
#[derive(Debug)]
pub struct ConfigDocument {
    pub path: String,
    pub bytes: u64,
    pub hash: String,
    pub extends: Option<String>,
    pub compiler_options: RawCompilerOptions,
}

/// The document read from `path` whose content is `bytes`: its size, the BLAKE3 hash of
/// its content, and the `extends` and compiler options its JSONC text gave.
pub fn config_document(path: &str, bytes: &[u8], extends: Option<String>, options: RawCompilerOptions) -> (r: ConfigDocument)
    ensures
        r.path@ == path@,
        r.bytes == bytes@.len(),
        r.hash@ == blake3_hex(bytes@),
        r.extends == extends,
        r.compiler_options == options,
{
    let size: u64 = bytes.len() as u64;
    ConfigDocument {
        path: path.to_string(),
        bytes: size,
        hash: blake3_hex_of(bytes),
        extends,
        compiler_options: options,
    }
}

/// The basis record of a configuration file.
pub fn config_file(document: &ConfigDocument) -> (r: ModuleResolutionConfigFile)
    ensures
        r.path@ == document.path@,
        r.bytes == document.bytes,
        r.hash@ == document.hash@,
{
    ModuleResolutionConfigFile {
        path: document.path.clone(),
        bytes: document.bytes,
        hash: document.hash.clone(),
    }
}

/// The position of the document read from `path`, if one was.
pub open spec fn document_index(docs: Seq<ConfigDocument>, path: Seq<char>) -> Option<int> {
    if exists|i: int| 0 <= i < docs.len() && #[trigger] docs[i].path@ == path {
        Some(choose|i: int| 0 <= i < docs.len() && #[trigger] docs[i].path@ == path)
    } else {
        None
    }
}

/// The configuration paths from the farthest ancestor down to `path`, following
/// `extends` through the documents read, with the paths `visited` on the way to it; a
/// path met twice is a cycle. Each step consumes one unit of `fuel`.
pub open spec fn extends_chain(
    path: Seq<char>,
    docs: Seq<ConfigDocument>,
    visited: Seq<Seq<char>>,
    fuel: nat,
) -> Result<Seq<Seq<char>>, Seq<char>>
    decreases fuel,
{
    if visited.contains(path) || fuel == 0 {
        Err("tsconfig-extends-cycle:"@ + path)
    } else {
        match document_index(docs, path) {
            None => Ok(Seq::empty()),
            Some(d) => match docs[d].extends {
                None => Ok(seq![path]),
                Some(x) => match spec_resolve_extends_path(path, x@) {
                    Err(e) => Err(e),
                    Ok(parent) => match extends_chain(parent, docs, visited.push(path), (fuel - 1) as nat) {
                        Err(e) => Err(e),
                        Ok(c) => Ok(c.push(path)),
                    },
                },
            },
        }
    }
}

pub(crate) fn find_document(docs: &Vec<ConfigDocument>, path: &str) -> (r: Option<usize>)
    requires
        forall|i: int, j: int|
            0 <= i < docs@.len() && 0 <= j < docs@.len() && i != j
                ==> #[trigger] docs@[i].path@ != #[trigger] docs@[j].path@,
    ensures
        match r {
            Some(i) => document_index(docs@, path@) == Some(i as int),
            None => document_index(docs@, path@) is None,
        },
{
    let mut i: usize = 0;
    while i < docs.len()
        invariant
            i <= docs@.len(),
            forall|j: int| 0 <= j < i ==> #[trigger] docs@[j].path@ != path@,
            forall|i: int, j: int|
                0 <= i < docs@.len() && 0 <= j < docs@.len() && i != j
                    ==> #[trigger] docs@[i].path@ != #[trigger] docs@[j].path@,
        decreases docs@.len() - i,
    {
        if str_eq(docs[i].path.as_str(), path) {
            proof {
                let c = choose|c: int| 0 <= c < docs@.len() && #[trigger] docs@[c].path@ == path@;
                assert(docs@[i as int].path@ == path@);
                assert(c == i as int);
            }
            return Some(i);
        }
        i = i + 1;
    }
    None
}

fn contains_path(items: &Vec<String>, path: &str) -> (r: bool)
    ensures
        r == views(items@).contains(path@),
{
    let mut i: usize = 0;
    while i < items.len()
        invariant
            i <= items@.len(),
            forall|j: int| 0 <= j < i ==> #[trigger] items@[j]@ != path@,
        decreases items@.len() - i,
    {
        if str_eq(items[i].as_str(), path) {
            assert(views(items@)[i as int] == path@);
            return true;
        }
        i = i + 1;
    }
    assert(!views(items@).contains(path@)) by {
        if views(items@).contains(path@) {
            let k = choose|k: int| 0 <= k < views(items@).len() && views(items@)[k] == path@;
            assert(items@[k]@ == path@);
        }
    }
    false
}

fn chain_from(
    path: &str,
    docs: &Vec<ConfigDocument>,
    visited: &mut Vec<String>,
    fuel: usize,
) -> (r: Result<Vec<String>, String>)
    requires
        forall|i: int, j: int|
            0 <= i < docs@.len() && 0 <= j < docs@.len() && i != j
                ==> #[trigger] docs@[i].path@ != #[trigger] docs@[j].path@,
    ensures
        match extends_chain(path@, docs@, views(old(visited)@), fuel as nat) {
            Ok(c) => r matches Ok(x) && views(x@) == c,
            Err(e) => r matches Err(x) && x@ == e,
        },
    decreases fuel,
{
    if contains_path(visited, path) || fuel == 0 {
        let mut e = "tsconfig-extends-cycle:".to_string();
        e.append(path);
        return Err(e);
    }
    match find_document(docs, path) {
        None => {
            let c: Vec<String> = Vec::new();
            assert(views(c@) =~= Seq::<Seq<char>>::empty());
            Ok(c)
        },
        Some(d) => match &docs[d].extends {
            None => {
                let mut c: Vec<String> = Vec::new();
                c.push(path.to_string());
                assert(views(c@) =~= seq![path@]);
                Ok(c)
            },
            Some(x) => match resolve_extends_path(path, x.as_str()) {
                Err(e) => Err(e),
                Ok(parent) => {
                    let ghost before = views(visited@);
                    visited.push(path.to_string());
                    assert(views(visited@) =~= before.push(path@));
                    match chain_from(parent.as_str(), docs, visited, fuel - 1) {
                        Err(e) => Err(e),
                        Ok(c) => {
                            let mut c = c;
                            let ghost cb = views(c@);
                            c.push(path.to_string());
                            assert(views(c@) =~= cb.push(path@));
                            Ok(c)
                        },
                    }
                },
            },
        },
    }
}

/// The order in which the configuration files of the chain rooted at `path` are merged:
/// from the farthest ancestor down to `path`, over the documents that were read.
pub fn extends_order(path: &str, docs: &Vec<ConfigDocument>) -> (r: Result<Vec<String>, String>)
    requires
        forall|i: int, j: int|
            0 <= i < docs@.len() && 0 <= j < docs@.len() && i != j
                ==> #[trigger] docs@[i].path@ != #[trigger] docs@[j].path@,
        docs@.len() < usize::MAX,
    ensures
        match extends_chain(path@, docs@, Seq::empty(), docs@.len() as nat + 1) {
            Ok(c) => r matches Ok(x) && views(x@) == c,
            Err(e) => r matches Err(x) && x@ == e,
        },
{
    let mut visited: Vec<String> = Vec::new();
    assert(views(visited@) =~= Seq::<Seq<char>>::empty());
    chain_from(path, docs, &mut visited, docs.len() + 1)
}

/// What loading the configuration at a path of the chain does next.
#[derive(Debug, PartialEq, Eq)]
pub enum ChainStep {
    /// The path is already on the chain being loaded: the chain is a cycle.
    Cycle(String),
    /// The path was read before; nothing more to do.
    AlreadyRead,
    /// The chain already holds as many files as it may.
    Capped(String),
    /// The file is to be read.
    Read,
}

/// The decision for the configuration at `path`, given the chain being loaded (`stack`),
/// the paths read so far and their number.
pub fn chain_step(path: &str, stack: &Vec<String>, read: &Vec<String>) -> (r: ChainStep)
    ensures
        views(stack@).contains(path@) ==> (r matches ChainStep::Cycle(e) && e@ == "tsconfig-extends-cycle:"@ + path@),
        !views(stack@).contains(path@) && views(read@).contains(path@) ==> r is AlreadyRead,
        !views(stack@).contains(path@) && !views(read@).contains(path@) && read@.len() >= 16
            ==> (r matches ChainStep::Capped(e) && e@ == "tsconfig-files-capped-at-16"@),
        !views(stack@).contains(path@) && !views(read@).contains(path@) && read@.len() < 16
            ==> r is Read,
{
    if contains_path(stack, path) {
        let mut e = "tsconfig-extends-cycle:".to_string();
        e.append(path);
        return ChainStep::Cycle(e);
    }
    if contains_path(read, path) {
        return ChainStep::AlreadyRead;
    }
    if read.len() >= super::MAX_CONFIG_FILES {
        return ChainStep::Capped("tsconfig-files-capped-at-16".to_string());
    }
    ChainStep::Read
}

/// The running byte total of a chain after a file of `len` bytes, saturating, and the
/// error when it exceeds the chain's byte cap.
pub fn add_config_bytes(total: usize, len: usize) -> (r: (usize, Option<String>))
    ensures
        r.0 == if total + len > usize::MAX { usize::MAX as int } else { total + len },
        r.0 > 1048576 ==> (r.1 matches Some(e) && e@ == "tsconfig-bytes-capped-at-1048576"@),
        r.0 <= 1048576 ==> r.1 is None,
{
    let next = total.saturating_add(len);
    if next > super::MAX_CONFIG_BYTES {
        (next, Some("tsconfig-bytes-capped-at-1048576".to_string()))
    } else {
        (next, None)
    }
}

} // verus!
