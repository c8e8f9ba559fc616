//! Comparisons of two adjacent historical snapshots: how their bases relate, which files
//! changed, and which changes may be renames or copies.

use vstd::prelude::*;

use super::ranking::{all_file_paths, file_hash};
use crate::flow::manifest::{hash_text, opt_view, text_hash};
use crate::json::{array_text, json_array, json_string, json_uint, push_json_uint, string_text};
use crate::model::context_basis::canonical_set;
use crate::model::diagnostic::HistoricalSnapshot;
use crate::model::schemas::SourceFile;
use crate::model::temporal::HistoricalPathChange;
use crate::model::temporal_delta::ObservationBasisRelations;
use crate::order::{lemma_strictly_sorted_unique, sorted_unique, strictly_sorted};
use crate::text::{str_eq, views};

verus! {

broadcast use vstd::string::group_string_axioms;

/// One source file as the JSON array `[path, language, bytes, hash]`.
pub open spec fn source_json(f: SourceFile) -> Seq<char> {
    json_array(seq![json_string(f.path@), json_string(f.language@), json_uint(f.bytes as nat), json_string(f.hash@)])
}

/// The exact source fingerprint of a list of files: the hash of their JSON, in order.
pub open spec fn spec_source_fingerprint(files: Seq<SourceFile>) -> Seq<char> {
    text_hash(json_array(files.map_values(|f: SourceFile| source_json(f))))
}

/// The exact fingerprint of the analysed sources: path, language, size and hash of each
/// file, in order.
pub fn exact_source_fingerprint(files: &[SourceFile]) -> (r: Result<String, String>)
    ensures
        r matches Ok(x) && x@ == spec_source_fingerprint(files@),
{
    let mut items: Vec<String> = Vec::new();
    let mut i: usize = 0;
    while i < files.len()
        invariant
            i <= files@.len(),
            views(items@) == files@.take(i as int).map_values(|f: SourceFile| source_json(f)),
        decreases files@.len() - i,
    {
        let f = &files[i];
        let mut parts: Vec<String> = Vec::new();
        parts.push(string_text(f.path.as_str()));
        parts.push(string_text(f.language.as_str()));
        let mut bytes = String::new();
        push_json_uint(&mut bytes, f.bytes);
        parts.push(bytes);
        parts.push(string_text(f.hash.as_str()));
        assert(views(parts@) =~= seq![
            json_string(f.path@),
            json_string(f.language@),
            json_uint(f.bytes as nat),
            json_string(f.hash@),
        ]);
        let ghost before = views(items@);
        items.push(array_text(&parts));
        assert(views(items@) =~= before.push(source_json(files@[i as int])));
        assert(files@.take(i as int + 1).map_values(|f: SourceFile| source_json(f)) =~= files@.take(
            i as int,
        ).map_values(|f: SourceFile| source_json(f)).push(source_json(files@[i as int])));
        i = i + 1;
    }
    assert(files@.take(files@.len() as int) =~= files@);
    let text = array_text(&items);
    Ok(hash_text(text.as_str()))
}

/// How two fingerprints relate: `unavailable` when either is empty, else `same` or
/// `changed`.
pub open spec fn relation(before: Seq<char>, after: Seq<char>) -> Seq<char> {
    if before.len() == 0 || after.len() == 0 {
        "unavailable"@
    } else if before == after {
        "same"@
    } else {
        "changed"@
    }
}

/// How two fingerprints relate.
pub fn fingerprint_relation(before: &str, after: &str) -> (r: String)
    ensures
        r@ == relation(before@, after@),
{
    proof {
        reveal_strlit("");
        assert(""@.len() == 0);
        assert(before@.len() == 0 ==> before@ =~= ""@);
        assert(after@.len() == 0 ==> after@ =~= ""@);
    }
    if str_eq(before, "") || str_eq(after, "") {
        "unavailable".to_string()
    } else if str_eq(before, after) {
        "same".to_string()
    } else {
        "changed".to_string()
    }
}

/// How the sources, module resolution and entry manifest of two snapshots relate.
pub fn snapshot_basis_relations(before: &HistoricalSnapshot, after: &HistoricalSnapshot) -> (r: ObservationBasisRelations)
    ensures
        r.typescript_source@ == relation(spec_source_fingerprint(before.files@), spec_source_fingerprint(after.files@)),
        r.module_resolution_exact@ == relation(
            before.module_resolution.exact_fingerprint@,
            after.module_resolution.exact_fingerprint@,
        ),
        r.module_resolution_effective@ == relation(
            before.module_resolution.effective_fingerprint@,
            after.module_resolution.effective_fingerprint@,
        ),
        r.entry_manifest_exact@ == relation(
            before.entry_evidence.exact_fingerprint@,
            after.entry_evidence.exact_fingerprint@,
        ),
        r.entry_manifest_effective@ == relation(
            before.entry_evidence.effective_fingerprint@,
            after.entry_evidence.effective_fingerprint@,
        ),
{
    let source_before = match exact_source_fingerprint(before.files.as_slice()) {
        Ok(f) => f,
        Err(_) => String::new(),
    };
    let source_after = match exact_source_fingerprint(after.files.as_slice()) {
        Ok(f) => f,
        Err(_) => String::new(),
    };
    ObservationBasisRelations {
        typescript_source: fingerprint_relation(source_before.as_str(), source_after.as_str()),
        module_resolution_exact: fingerprint_relation(
            before.module_resolution.exact_fingerprint.as_str(),
            after.module_resolution.exact_fingerprint.as_str(),
        ),
        module_resolution_effective: fingerprint_relation(
            before.module_resolution.effective_fingerprint.as_str(),
            after.module_resolution.effective_fingerprint.as_str(),
        ),
        entry_manifest_exact: fingerprint_relation(
            before.entry_evidence.exact_fingerprint.as_str(),
            after.entry_evidence.exact_fingerprint.as_str(),
        ),
        entry_manifest_effective: fingerprint_relation(
            before.entry_evidence.effective_fingerprint.as_str(),
            after.entry_evidence.effective_fingerprint.as_str(),
        ),
    }
}

/// The relations of two snapshots when they cannot be compared.
pub fn unavailable_basis_relations() -> (r: ObservationBasisRelations)
    ensures
        r.typescript_source@ == "unavailable"@,
        r.module_resolution_exact@ == "unavailable"@,
        r.module_resolution_effective@ == "unavailable"@,
        r.entry_manifest_exact@ == "unavailable"@,
        r.entry_manifest_effective@ == "unavailable"@,
{
    ObservationBasisRelations {
        typescript_source: "unavailable".to_string(),
        module_resolution_exact: "unavailable".to_string(),
        module_resolution_effective: "unavailable".to_string(),
        entry_manifest_exact: "unavailable".to_string(),
        entry_manifest_effective: "unavailable".to_string(),
    }
}

/// A path change as its path, status and the hashes before and after.
pub open spec fn change_view(c: HistoricalPathChange) -> (Seq<char>, Seq<char>, Option<Seq<char>>, Option<Seq<char>>) {
    (c.path@, c.status@, opt_view(c.before_hash), opt_view(c.after_hash))
}

/// The change of one path between two snapshots: added, removed or changed, with the
/// hash of its last file on each side; none when its content is the same.
pub open spec fn path_change(
    before: HistoricalSnapshot,
    after: HistoricalSnapshot,
    path: Seq<char>,
) -> Option<(Seq<char>, Seq<char>, Option<Seq<char>>, Option<Seq<char>>)> {
    let b = file_hash(before.files@, path);
    let a = file_hash(after.files@, path);
    match (b, a) {
        (None, Some(_)) => Some((path, "added"@, b, a)),
        (Some(_), None) => Some((path, "removed"@, b, a)),
        (Some(x), Some(y)) => if x != y {
            Some((path, "changed"@, b, a))
        } else {
            None
        },
        (None, None) => None,
    }
}

/// The changes of the given paths, in order.
pub open spec fn changes_of(
    before: HistoricalSnapshot,
    after: HistoricalSnapshot,
    paths: Seq<Seq<char>>,
) -> Seq<(Seq<char>, Seq<char>, Option<Seq<char>>, Option<Seq<char>>)>
    decreases paths.len(),
{
    if paths.len() == 0 {
        Seq::empty()
    } else {
        let done = changes_of(before, after, paths.drop_last());
        match path_change(before, after, paths.last()) {
            Some(c) => done.push(c),
            None => done,
        }
    }
}

fn last_hash(files: &Vec<SourceFile>, path: &str) -> (r: Option<String>)
    ensures
        opt_view(r) == file_hash(files@, path@),
{
    let mut i: usize = files.len();
    assert(files@.take(files@.len() as int) =~= files@);
    while i > 0
        invariant
            i <= files@.len(),
            file_hash(files@, path@) == file_hash(files@.take(i as int), path@),
        decreases i,
    {
        assert(files@.take(i as int).drop_last() =~= files@.take(i as int - 1));
        if str_eq(files[i - 1].path.as_str(), path) {
            return Some(files[i - 1].hash.clone());
        }
        i = i - 1;
    }
    None
}

/// The files that were added, removed or changed between two snapshots, in path order.
pub fn path_changes(before: &HistoricalSnapshot, after: &HistoricalSnapshot) -> (r: Vec<HistoricalPathChange>)
    ensures
        r@.map_values(|c: HistoricalPathChange| change_view(c)) == changes_of(
            *before,
            *after,
            all_file_paths(*after, *before),
        ),
{
    let paths = super::ranking::distinct_paths(after, before);
    let ghost ps = views(paths@);
    let mut out: Vec<HistoricalPathChange> = Vec::new();
    let mut i: usize = 0;
    assert(out@.map_values(|c: HistoricalPathChange| change_view(c)) =~= changes_of(*before, *after, ps.take(0)));
    while i < paths.len()
        invariant
            i <= ps.len(),
            ps == views(paths@),
            out@.map_values(|c: HistoricalPathChange| change_view(c)) == changes_of(*before, *after, ps.take(i as int)),
        decreases ps.len() - i,
    {
        assert(ps.take(i as int + 1).drop_last() =~= ps.take(i as int));
        let path = paths[i].as_str();
        let b = last_hash(&before.files, path);
        let a = last_hash(&after.files, path);
        let status: Option<&str> = match (&b, &a) {
            (None, Some(_)) => Some("added"),
            (Some(_), None) => Some("removed"),
            (Some(x), Some(y)) => if str_eq(x.as_str(), y.as_str()) {
                None
            } else {
                Some("changed")
            },
            (None, None) => None,
        };
        let ghost before_out = out@;
        match status {
            Some(s) => {
                out.push(HistoricalPathChange { path: paths[i].clone(), status: s.to_string(), before_hash: b, after_hash: a });
                assert(out@.map_values(|c: HistoricalPathChange| change_view(c)) =~= before_out.map_values(
                    |c: HistoricalPathChange| change_view(c),
                ).push(change_view(out@[i as int - (i as int - before_out.len())])));
            },
            None => {},
        }
        assert(out@.map_values(|c: HistoricalPathChange| change_view(c)) =~= changes_of(
            *before,
            *after,
            ps.take(i as int + 1),
        ));
        i = i + 1;
    }
    assert(ps.take(ps.len() as int) =~= ps);
    out
}

/// The rename-or-copy candidate of a removed and an added file with the same content.
pub open spec fn lineage_pair(old: HistoricalPathChange, new: HistoricalPathChange) -> Option<Seq<char>> {
    match (opt_view(old.before_hash), opt_view(new.after_hash)) {
        (Some(h), Some(g)) => if old.status@ == "removed"@ && new.status@ == "added"@ && h.len() > 0 && g == h {
            Some("rename-or-copy-candidate:"@ + old.path@ + "->"@ + new.path@ + ":fingerprint="@ + h)
        } else {
            None
        },
        _ => None,
    }
}

/// The candidates of one removed file against each of `news`, in order.
pub open spec fn lineage_row(old: HistoricalPathChange, news: Seq<HistoricalPathChange>) -> Seq<Seq<char>>
    decreases news.len(),
{
    if news.len() == 0 {
        Seq::empty()
    } else {
        let done = lineage_row(old, news.drop_last());
        match lineage_pair(old, news.last()) {
            Some(c) => done.push(c),
            None => done,
        }
    }
}

/// The candidates of each of `olds` against each of `news`.
pub open spec fn lineage_all(olds: Seq<HistoricalPathChange>, news: Seq<HistoricalPathChange>) -> Seq<Seq<char>>
    decreases olds.len(),
{
    if olds.len() == 0 {
        Seq::empty()
    } else {
        lineage_all(olds.drop_last(), news) + lineage_row(olds.last(), news)
    }
}

/// The candidates of a removed file against some changes depend on their views alone.
pub proof fn lemma_lineage_row_views(
    o1: HistoricalPathChange,
    o2: HistoricalPathChange,
    n1: Seq<HistoricalPathChange>,
    n2: Seq<HistoricalPathChange>,
)
    requires
        change_view(o1) == change_view(o2),
        n1.map_values(|c: HistoricalPathChange| change_view(c)) == n2.map_values(|c: HistoricalPathChange| change_view(c)),
    ensures
        lineage_row(o1, n1) == lineage_row(o2, n2),
    decreases n1.len(),
{
    assert(n1.len() == n2.map_values(|c: HistoricalPathChange| change_view(c)).len());
    if n1.len() > 0 {
        assert forall|i: int| 0 <= i < n1.len() - 1 implies change_view(n1[i]) == change_view(n2[i]) by {
            assert(n1.map_values(|c: HistoricalPathChange| change_view(c))[i] == change_view(n1[i]));
            assert(n2.map_values(|c: HistoricalPathChange| change_view(c))[i] == change_view(n2[i]));
        }
        assert(n1.drop_last().map_values(|c: HistoricalPathChange| change_view(c)) =~= n2.drop_last().map_values(
            |c: HistoricalPathChange| change_view(c),
        ));
        lemma_lineage_row_views(o1, o2, n1.drop_last(), n2.drop_last());
        assert(change_view(n1.last()) == n1.map_values(|c: HistoricalPathChange| change_view(c))[n1.len() - 1]);
        assert(change_view(n2.last()) == n2.map_values(|c: HistoricalPathChange| change_view(c))[n2.len() - 1]);
        assert(lineage_pair(o1, n1.last()) == lineage_pair(o2, n2.last()));
    }
}

/// The rename-or-copy candidates among some changes depend on their views alone.
pub proof fn lemma_lineage_all_views(
    o1: Seq<HistoricalPathChange>,
    o2: Seq<HistoricalPathChange>,
    n1: Seq<HistoricalPathChange>,
    n2: Seq<HistoricalPathChange>,
)
    requires
        o1.map_values(|c: HistoricalPathChange| change_view(c)) == o2.map_values(|c: HistoricalPathChange| change_view(c)),
        n1.map_values(|c: HistoricalPathChange| change_view(c)) == n2.map_values(|c: HistoricalPathChange| change_view(c)),
    ensures
        lineage_all(o1, n1) == lineage_all(o2, n2),
    decreases o1.len(),
{
    assert(o1.len() == o2.map_values(|c: HistoricalPathChange| change_view(c)).len());
    if o1.len() > 0 {
        assert forall|i: int| 0 <= i < o1.len() - 1 implies change_view(o1[i]) == change_view(o2[i]) by {
            assert(o1.map_values(|c: HistoricalPathChange| change_view(c))[i] == change_view(o1[i]));
            assert(o2.map_values(|c: HistoricalPathChange| change_view(c))[i] == change_view(o2[i]));
        }
        assert(o1.drop_last().map_values(|c: HistoricalPathChange| change_view(c)) =~= o2.drop_last().map_values(
            |c: HistoricalPathChange| change_view(c),
        ));
        lemma_lineage_all_views(o1.drop_last(), o2.drop_last(), n1, n2);
        assert(change_view(o1.last()) == o1.map_values(|c: HistoricalPathChange| change_view(c))[o1.len() - 1]);
        assert(change_view(o2.last()) == o2.map_values(|c: HistoricalPathChange| change_view(c))[o2.len() - 1]);
        lemma_lineage_row_views(o1.last(), o2.last(), n1, n2);
    }
}

fn lineage_candidate(old: &HistoricalPathChange, new: &HistoricalPathChange) -> (r: Option<String>)
    ensures
        opt_view(r) == lineage_pair(*old, *new),
{
    if !(str_eq(old.status.as_str(), "removed") && str_eq(new.status.as_str(), "added")) {
        return None;
    }
    match (&old.before_hash, &new.after_hash) {
        (Some(h), Some(g)) => {
            if str_eq(h.as_str(), "") {
                proof {
                    reveal_strlit("");
                }
                return None;
            }
            proof {
                reveal_strlit("");
                assert(h@.len() > 0) by {
                    if h@.len() == 0 {
                        assert(h@ =~= ""@);
                    }
                }
            }
            if !str_eq(h.as_str(), g.as_str()) {
                return None;
            }
            let mut c = "rename-or-copy-candidate:".to_string();
            c.append(old.path.as_str());
            c.append("->");
            c.append(new.path.as_str());
            c.append(":fingerprint=");
            c.append(h.as_str());
            Some(c)
        },
        _ => None,
    }
}

/// The rename-or-copy candidates among the changes: a removed file and an added file
/// whose contents hash alike, each candidate once, in ascending order.
pub fn path_lineage_candidates(changes: &[HistoricalPathChange]) -> (r: Vec<String>)
    ensures
        views(r@) == canonical_set(lineage_all(changes@, changes@)),
{
    let mut all: Vec<String> = Vec::new();
    let mut i: usize = 0;
    while i < changes.len()
        invariant
            i <= changes@.len(),
            views(all@) == lineage_all(changes@.take(i as int), changes@),
        decreases changes@.len() - i,
    {
        assert(changes@.take(i as int + 1).drop_last() =~= changes@.take(i as int));
        let ghost start = views(all@);
        let mut j: usize = 0;
        while j < changes.len()
            invariant
                i < changes@.len(),
                j <= changes@.len(),
                views(all@) == start + lineage_row(changes@[i as int], changes@.take(j as int)),
            decreases changes@.len() - j,
        {
            assert(changes@.take(j as int + 1).drop_last() =~= changes@.take(j as int));
            let ghost before = views(all@);
            match lineage_candidate(&changes[i], &changes[j]) {
                Some(c) => {
                    all.push(c);
                    assert(views(all@) =~= before.push(lineage_pair(changes@[i as int], changes@[j as int]).unwrap()));
                },
                None => {},
            }
            assert(views(all@) =~= start + lineage_row(changes@[i as int], changes@.take(j as int + 1)));
            j = j + 1;
        }
        assert(changes@.take(changes@.len() as int) =~= changes@);
        i = i + 1;
    }
    assert(changes@.take(changes@.len() as int) =~= changes@);
    let ghost joined = views(all@);
    let r = sorted_unique(all);
    proof {
        let u = choose|u: Seq<Seq<char>>| strictly_sorted(u) && u.to_set() == joined.to_set();
        lemma_strictly_sorted_unique(views(r@), u);
    }
    r
}

/// The first `limit` rename-or-copy candidates; when some are dropped, the result is
/// marked truncated and the cap recorded.
pub fn bound_path_lineage(values: Vec<String>, limit: usize, truncated: &mut bool, omissions: &mut Vec<String>) -> (r: Vec<String>)
    ensures
        values@.len() > limit ==> {
            &&& r@ == values@.take(limit as int)
            &&& *final(truncated)
            &&& views(final(omissions)@) == views(old(omissions)@).push(
                "historical path lineage candidates capped at "@ + json_uint(limit as nat),
            )
        },
        values@.len() <= limit ==> r@ == values@ && *final(truncated) == *old(truncated) && final(omissions)@
            == old(omissions)@,
{
    let mut kept = values;
    if kept.len() > limit {
        kept.truncate(limit);
        *truncated = true;
        let mut o = "historical path lineage candidates capped at ".to_string();
        push_json_uint(&mut o, limit as u64);
        let ghost before = views(omissions@);
        omissions.push(o);
        assert(views(omissions@) =~= before.push("historical path lineage candidates capped at "@ + json_uint(limit as nat)));
    }
    kept
}

/// The first `limit` path changes; when some are dropped, the result is marked truncated
/// and the cap recorded.
pub fn bound_paths(
    values: Vec<HistoricalPathChange>,
    limit: usize,
    truncated: &mut bool,
    omissions: &mut Vec<String>,
) -> (r: Vec<HistoricalPathChange>)
    ensures
        values@.len() > limit ==> {
            &&& r@ == values@.take(limit as int)
            &&& *final(truncated)
            &&& views(final(omissions)@) == views(old(omissions)@).push(
                "historical path changes capped at "@ + json_uint(limit as nat),
            )
        },
        values@.len() <= limit ==> r@ == values@ && *final(truncated) == *old(truncated) && final(omissions)@
            == old(omissions)@,
{
    let mut kept = values;
    if kept.len() > limit {
        kept.truncate(limit);
        *truncated = true;
        let mut o = "historical path changes capped at ".to_string();
        push_json_uint(&mut o, limit as u64);
        let ghost before = views(omissions@);
        omissions.push(o);
        assert(views(omissions@) =~= before.push("historical path changes capped at "@ + json_uint(limit as nat)));
    }
    kept
}

} // verus!
