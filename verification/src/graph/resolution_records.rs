//! Canonical resolution records and bounded evidence.

use vstd::prelude::*;

use crate::model::typescript::{same_resolution, ResolutionEvidence, SymbolResolution, TypeScriptFacts};
use crate::model::{TYPESCRIPT_FACTS_SCHEMA, TYPESCRIPT_RESOLUTION_SCHEMA};
use crate::typescript::PARSER_IDENTITY;
use crate::order::{
    lemma_str_lt_asymmetric, lemma_str_lt_irreflexive, lemma_str_lt_total, lemma_str_lt_transitive,
    str_less, str_lt,
};
use crate::text::{str_eq, views};

verus! {

broadcast use vstd::string::group_string_axioms;

/// The most resolution records that resolution evidence carries.
pub const MAX_RESOLUTION_RECORDS: usize = 10_000;

/// Lexicographic order of two lists of strings, as `Vec<String>` orders them.
pub open spec fn seqs_lt(a: Seq<Seq<char>>, b: Seq<Seq<char>>) -> bool
    decreases a.len(),
{
    if a.len() == 0 {
        b.len() > 0
    } else if b.len() == 0 {
        false
    } else if a[0] != b[0] {
        str_lt(a[0], b[0])
    } else {
        seqs_lt(a.drop_first(), b.drop_first())
    }
}

proof fn lemma_seqs_lt_irreflexive(a: Seq<Seq<char>>)
    ensures
        !seqs_lt(a, a),
    decreases a.len(),
{
    if a.len() > 0 {
        lemma_seqs_lt_irreflexive(a.drop_first());
    }
}

proof fn lemma_seqs_lt_asymmetric(a: Seq<Seq<char>>, b: Seq<Seq<char>>)
    ensures
        !(seqs_lt(a, b) && seqs_lt(b, a)),
    decreases a.len(),
{
    if a.len() > 0 && b.len() > 0 {
        if a[0] == b[0] {
            lemma_seqs_lt_asymmetric(a.drop_first(), b.drop_first());
        } else {
            lemma_str_lt_asymmetric(a[0], b[0]);
        }
    }
}

proof fn lemma_seqs_lt_transitive(a: Seq<Seq<char>>, b: Seq<Seq<char>>, c: Seq<Seq<char>>)
    requires
        seqs_lt(a, b),
        seqs_lt(b, c),
    ensures
        seqs_lt(a, c),
    decreases a.len(),
{
    if a.len() > 0 && b.len() > 0 && c.len() > 0 {
        if a[0] == b[0] && b[0] == c[0] {
            lemma_seqs_lt_transitive(a.drop_first(), b.drop_first(), c.drop_first());
        } else if a[0] == b[0] {
        } else if b[0] == c[0] {
        } else {
            lemma_str_lt_transitive(a[0], b[0], c[0]);
            if a[0] == c[0] {
                lemma_str_lt_asymmetric(a[0], b[0]);
            }
        }
    }
}

proof fn lemma_seqs_lt_total(a: Seq<Seq<char>>, b: Seq<Seq<char>>)
    ensures
        a == b || seqs_lt(a, b) || seqs_lt(b, a),
    decreases a.len(),
{
    if a.len() > 0 && b.len() > 0 {
        if a[0] == b[0] {
            lemma_seqs_lt_total(a.drop_first(), b.drop_first());
            if a.drop_first() == b.drop_first() {
                assert(a =~= seq![a[0]] + a.drop_first());
                assert(b =~= seq![b[0]] + b.drop_first());
            }
        } else {
            lemma_str_lt_total(a[0], b[0]);
        }
    } else if a.len() == 0 && b.len() == 0 {
        assert(a =~= b);
    }
}

/// Two records have the same identity: every field but the occurrence count agrees.
pub open spec fn same_key(a: SymbolResolution, b: SymbolResolution) -> bool {
    &&& a.path@ == b.path@
    &&& a.caller_node_id@ == b.caller_node_id@
    &&& a.reference@ == b.reference@
    &&& a.form@ == b.form@
    &&& a.status@ == b.status@
    &&& a.reason@ == b.reason@
    &&& views(a.candidate_node_ids@) == views(b.candidate_node_ids@)
}

/// The canonical order of records: by path, caller, reference, form, status, reason and
/// candidates, each compared in turn.
pub open spec fn key_lt(a: SymbolResolution, b: SymbolResolution) -> bool {
    if a.path@ != b.path@ {
        str_lt(a.path@, b.path@)
    } else if a.caller_node_id@ != b.caller_node_id@ {
        str_lt(a.caller_node_id@, b.caller_node_id@)
    } else if a.reference@ != b.reference@ {
        str_lt(a.reference@, b.reference@)
    } else if a.form@ != b.form@ {
        str_lt(a.form@, b.form@)
    } else if a.status@ != b.status@ {
        str_lt(a.status@, b.status@)
    } else if a.reason@ != b.reason@ {
        str_lt(a.reason@, b.reason@)
    } else {
        seqs_lt(views(a.candidate_node_ids@), views(b.candidate_node_ids@))
    }
}

proof fn lemma_key_order(a: SymbolResolution, b: SymbolResolution, c: SymbolResolution)
    ensures
        !key_lt(a, a),
        !(key_lt(a, b) && key_lt(b, a)),
        key_lt(a, b) && key_lt(b, c) ==> key_lt(a, c),
        same_key(a, b) || key_lt(a, b) || key_lt(b, a),
        same_key(a, b) ==> (key_lt(a, c) == key_lt(b, c) && key_lt(c, a) == key_lt(c, b)),
{
    lemma_str_lt_irreflexive(a.path@);
    lemma_str_lt_irreflexive(a.caller_node_id@);
    lemma_str_lt_irreflexive(a.reference@);
    lemma_str_lt_irreflexive(a.form@);
    lemma_str_lt_irreflexive(a.status@);
    lemma_str_lt_irreflexive(a.reason@);
    lemma_seqs_lt_irreflexive(views(a.candidate_node_ids@));
    lemma_str_lt_asymmetric(a.path@, b.path@);
    lemma_str_lt_asymmetric(a.caller_node_id@, b.caller_node_id@);
    lemma_str_lt_asymmetric(a.reference@, b.reference@);
    lemma_str_lt_asymmetric(a.form@, b.form@);
    lemma_str_lt_asymmetric(a.status@, b.status@);
    lemma_str_lt_asymmetric(a.reason@, b.reason@);
    lemma_seqs_lt_asymmetric(views(a.candidate_node_ids@), views(b.candidate_node_ids@));
    lemma_str_lt_total(a.path@, b.path@);
    lemma_str_lt_total(a.caller_node_id@, b.caller_node_id@);
    lemma_str_lt_total(a.reference@, b.reference@);
    lemma_str_lt_total(a.form@, b.form@);
    lemma_str_lt_total(a.status@, b.status@);
    lemma_str_lt_total(a.reason@, b.reason@);
    lemma_seqs_lt_total(views(a.candidate_node_ids@), views(b.candidate_node_ids@));
    if key_lt(a, b) && key_lt(b, c) {
        if a.path@ != b.path@ || b.path@ != c.path@ {
            if a.path@ != b.path@ && b.path@ != c.path@ {
                lemma_str_lt_transitive(a.path@, b.path@, c.path@);
                if a.path@ == c.path@ {
                    lemma_str_lt_asymmetric(a.path@, b.path@);
                }
            }
        } else if a.caller_node_id@ != b.caller_node_id@ || b.caller_node_id@ != c.caller_node_id@ {
            if a.caller_node_id@ != b.caller_node_id@ && b.caller_node_id@ != c.caller_node_id@ {
                lemma_str_lt_transitive(a.caller_node_id@, b.caller_node_id@, c.caller_node_id@);
                if a.caller_node_id@ == c.caller_node_id@ {
                    lemma_str_lt_asymmetric(a.caller_node_id@, b.caller_node_id@);
                }
            }
        } else if a.reference@ != b.reference@ || b.reference@ != c.reference@ {
            if a.reference@ != b.reference@ && b.reference@ != c.reference@ {
                lemma_str_lt_transitive(a.reference@, b.reference@, c.reference@);
                if a.reference@ == c.reference@ {
                    lemma_str_lt_asymmetric(a.reference@, b.reference@);
                }
            }
        } else if a.form@ != b.form@ || b.form@ != c.form@ {
            if a.form@ != b.form@ && b.form@ != c.form@ {
                lemma_str_lt_transitive(a.form@, b.form@, c.form@);
                if a.form@ == c.form@ {
                    lemma_str_lt_asymmetric(a.form@, b.form@);
                }
            }
        } else if a.status@ != b.status@ || b.status@ != c.status@ {
            if a.status@ != b.status@ && b.status@ != c.status@ {
                lemma_str_lt_transitive(a.status@, b.status@, c.status@);
                if a.status@ == c.status@ {
                    lemma_str_lt_asymmetric(a.status@, b.status@);
                }
            }
        } else if a.reason@ != b.reason@ || b.reason@ != c.reason@ {
            if a.reason@ != b.reason@ && b.reason@ != c.reason@ {
                lemma_str_lt_transitive(a.reason@, b.reason@, c.reason@);
                if a.reason@ == c.reason@ {
                    lemma_str_lt_asymmetric(a.reason@, b.reason@);
                }
            }
        } else {
            lemma_seqs_lt_transitive(
                views(a.candidate_node_ids@),
                views(b.candidate_node_ids@),
                views(c.candidate_node_ids@),
            );
        }
    }
}

/// Ordered: no record sorts before one that precedes it.
pub open spec fn key_sorted(s: Seq<SymbolResolution>) -> bool {
    forall|i: int, j: int| 0 <= i < j < s.len() ==> !key_lt(#[trigger] s[j], #[trigger] s[i])
}

/// Strictly ordered: each record sorts before every later one.
pub open spec fn key_strictly_sorted(s: Seq<SymbolResolution>) -> bool {
    forall|i: int, j: int| 0 <= i < j < s.len() ==> key_lt(#[trigger] s[i], #[trigger] s[j])
}

/// How many records of `s` have the identity of `k`.
pub open spec fn key_occurrences(s: Seq<SymbolResolution>, k: SymbolResolution) -> nat
    decreases s.len(),
{
    if s.len() == 0 {
        0
    } else {
        key_occurrences(s.drop_last(), k) + if same_key(s.last(), k) {
            1nat
        } else {
            0nat
        }
    }
}

/// The occurrence counts of the records of `s` with the identity of `k`, added up.
pub open spec fn key_count(s: Seq<SymbolResolution>, k: SymbolResolution) -> nat
    decreases s.len(),
{
    if s.len() == 0 {
        0
    } else {
        key_count(s.drop_last(), k) + if same_key(s.last(), k) {
            s.last().occurrence_count as nat
        } else {
            0nat
        }
    }
}

/// A count added up without passing `u64::MAX`.
pub open spec fn saturated(n: nat) -> u64 {
    if n > u64::MAX {
        u64::MAX
    } else {
        n as u64
    }
}

proof fn lemma_counts_concat(a: Seq<SymbolResolution>, b: Seq<SymbolResolution>, k: SymbolResolution)
    ensures
        key_occurrences(a + b, k) == key_occurrences(a, k) + key_occurrences(b, k),
        key_count(a + b, k) == key_count(a, k) + key_count(b, k),
    decreases b.len(),
{
    if b.len() == 0 {
        assert(a + b =~= a);
    } else {
        assert((a + b).drop_last() =~= a + b.drop_last());
        lemma_counts_concat(a, b.drop_last(), k);
    }
}

proof fn lemma_counts_same_key(s: Seq<SymbolResolution>, k1: SymbolResolution, k2: SymbolResolution)
    requires
        same_key(k1, k2),
    ensures
        key_occurrences(s, k1) == key_occurrences(s, k2),
        key_count(s, k1) == key_count(s, k2),
    decreases s.len(),
{
    if s.len() > 0 {
        lemma_counts_same_key(s.drop_last(), k1, k2);
    }
}

/// `r` holds, identity by identity, as many records and counts as `a` and `b` together.
pub open spec fn counts_union(r: Seq<SymbolResolution>, a: Seq<SymbolResolution>, b: Seq<SymbolResolution>) -> bool {
    forall|k: SymbolResolution|
        #![trigger key_occurrences(r, k)]
        key_occurrences(r, k) == key_occurrences(a, k) + key_occurrences(b, k) && key_count(r, k)
            == key_count(a, k) + key_count(b, k)
}

/// Whether `a` sorts before `b` in the canonical order.
fn key_less(a: &SymbolResolution, b: &SymbolResolution) -> (r: bool)
    ensures
        r == key_lt(*a, *b),
{
    if !str_eq(a.path.as_str(), b.path.as_str()) {
        return str_less(a.path.as_str(), b.path.as_str());
    }
    if !str_eq(a.caller_node_id.as_str(), b.caller_node_id.as_str()) {
        return str_less(a.caller_node_id.as_str(), b.caller_node_id.as_str());
    }
    if !str_eq(a.reference.as_str(), b.reference.as_str()) {
        return str_less(a.reference.as_str(), b.reference.as_str());
    }
    if !str_eq(a.form.as_str(), b.form.as_str()) {
        return str_less(a.form.as_str(), b.form.as_str());
    }
    if !str_eq(a.status.as_str(), b.status.as_str()) {
        return str_less(a.status.as_str(), b.status.as_str());
    }
    if !str_eq(a.reason.as_str(), b.reason.as_str()) {
        return str_less(a.reason.as_str(), b.reason.as_str());
    }
    list_less(&a.candidate_node_ids, &b.candidate_node_ids)
}

fn list_less(a: &Vec<String>, b: &Vec<String>) -> (r: bool)
    ensures
        r == seqs_lt(views(a@), views(b@)),
{
    let mut i: usize = 0;
    assert(views(a@).skip(0) =~= views(a@));
    assert(views(b@).skip(0) =~= views(b@));
    while i < a.len() && i < b.len()
        invariant
            i <= a@.len(),
            i <= b@.len(),
            seqs_lt(views(a@), views(b@)) == seqs_lt(views(a@).skip(i as int), views(b@).skip(i as int)),
        decreases a@.len() - i,
    {
        assert(views(a@).skip(i as int)[0] == a@[i as int]@);
        assert(views(b@).skip(i as int)[0] == b@[i as int]@);
        if !str_eq(a[i].as_str(), b[i].as_str()) {
            return str_less(a[i].as_str(), b[i].as_str());
        }
        assert(views(a@).skip(i as int).drop_first() =~= views(a@).skip(i as int + 1));
        assert(views(b@).skip(i as int).drop_first() =~= views(b@).skip(i as int + 1));
        i = i + 1;
    }
    i < b.len()
}

fn list_eq(a: &Vec<String>, b: &Vec<String>) -> (r: bool)
    ensures
        r == (views(a@) == views(b@)),
{
    if a.len() != b.len() {
        return false;
    }
    let mut i: usize = 0;
    while i < a.len()
        invariant
            a@.len() == b@.len(),
            i <= a@.len(),
            forall|k: int| 0 <= k < i ==> a@[k]@ == b@[k]@,
        decreases a@.len() - i,
    {
        if !str_eq(a[i].as_str(), b[i].as_str()) {
            assert(views(a@)[i as int] != views(b@)[i as int]);
            return false;
        }
        i = i + 1;
    }
    assert(views(a@) =~= views(b@));
    true
}

/// Whether two records have the same identity.
fn same_resolution_key(a: &SymbolResolution, b: &SymbolResolution) -> (r: bool)
    ensures
        r == same_key(*a, *b),
{
    str_eq(a.path.as_str(), b.path.as_str()) && str_eq(
        a.caller_node_id.as_str(),
        b.caller_node_id.as_str(),
    ) && str_eq(a.reference.as_str(), b.reference.as_str()) && str_eq(
        a.form.as_str(),
        b.form.as_str(),
    ) && str_eq(a.status.as_str(), b.status.as_str()) && str_eq(
        a.reason.as_str(),
        b.reason.as_str(),
    ) && list_eq(&a.candidate_node_ids, &b.candidate_node_ids)
}

proof fn lemma_occ_push(s: Seq<SymbolResolution>, x: SymbolResolution, k: SymbolResolution)
    ensures
        key_occurrences(s.push(x), k) == key_occurrences(s, k) + (if same_key(x, k) { 1nat } else { 0nat }),
        key_count(s.push(x), k) == key_count(s, k) + (if same_key(x, k) {
            x.occurrence_count as nat
        } else {
            0nat
        }),
{
    assert(s.push(x).drop_last() =~= s);
}

proof fn lemma_same_resolution_key(x: SymbolResolution, y: SymbolResolution, k: SymbolResolution)
    requires
        same_resolution(x, y),
    ensures
        same_key(x, y),
        same_key(x, k) == same_key(y, k),
        x.occurrence_count == y.occurrence_count,
{
    assert(views(x.candidate_node_ids@) =~= views(y.candidate_node_ids@));
}

proof fn lemma_not_lt_trans(x: SymbolResolution, y: SymbolResolution, z: SymbolResolution)
    requires
        !key_lt(y, x),
        !key_lt(z, y),
    ensures
        !key_lt(z, x),
{
    lemma_key_order(x, y, z);
    lemma_key_order(y, z, x);
    lemma_key_order(z, x, y);
    lemma_key_order(x, z, y);
    lemma_key_order(y, x, z);
    lemma_key_order(z, y, x);
}

fn merge_sorted(a: Vec<SymbolResolution>, b: Vec<SymbolResolution>) -> (r: Vec<SymbolResolution>)
    requires
        key_sorted(a@),
        key_sorted(b@),
    ensures
        key_sorted(r@),
        counts_union(r@, a@, b@),
{
    let mut out: Vec<SymbolResolution> = Vec::new();
    let mut i: usize = 0;
    let mut j: usize = 0;
    assert(a@.take(0) =~= Seq::<SymbolResolution>::empty());
    assert(b@.take(0) =~= Seq::<SymbolResolution>::empty());
    while i < a.len() || j < b.len()
        invariant
            key_sorted(a@),
            key_sorted(b@),
            i <= a@.len(),
            j <= b@.len(),
            key_sorted(out@),
            out@.len() > 0 && i < a@.len() ==> !key_lt(a@[i as int], out@.last()),
            out@.len() > 0 && j < b@.len() ==> !key_lt(b@[j as int], out@.last()),
            forall|k: SymbolResolution|
                #![trigger key_occurrences(out@, k)]
                key_occurrences(out@, k) == key_occurrences(a@.take(i as int), k) + key_occurrences(
                    b@.take(j as int),
                    k,
                ) && key_count(out@, k) == key_count(a@.take(i as int), k) + key_count(
                    b@.take(j as int),
                    k,
                ),
        decreases a@.len() + b@.len() - i - j,
    {
        let take_a = if i < a.len() && j < b.len() {
            !key_less(&b[j], &a[i])
        } else {
            i < a.len()
        };
        let ghost before = out@;
        if take_a {
            let x = a[i].clone();
            proof {
                assert forall|m: int| 0 <= m < before.len() implies !key_lt(x, #[trigger] before[m]) by {
                    lemma_key_order(before.last(), before.last(), before.last());
                    if m < before.len() - 1 {
                        assert(!key_lt(before.last(), before[m]));
                    }
                    lemma_not_lt_trans(before[m], before.last(), a@[i as int]);
                    lemma_same_resolution_key(x, a@[i as int], before[m]);
                    lemma_key_order(x, a@[i as int], before[m]);
                }
            }
            out.push(x);
            proof {
                assert(out@ == before.push(x));
                lemma_same_resolution_key(x, a@[i as int], x);
                if i + 1 < a@.len() {
                    assert(!key_lt(a@[i as int + 1], a@[i as int]));
                    lemma_key_order(x, a@[i as int], a@[i as int + 1]);
                }
                if j < b@.len() {
                    lemma_key_order(x, a@[i as int], b@[j as int]);
                }
                assert(a@.take(i as int + 1) =~= a@.take(i as int).push(a@[i as int]));
                assert forall|k: SymbolResolution| #![trigger key_occurrences(out@, k)]
                    key_occurrences(out@, k) == key_occurrences(a@.take(i as int + 1), k) + key_occurrences(
                        b@.take(j as int),
                        k,
                    ) && key_count(out@, k) == key_count(a@.take(i as int + 1), k) + key_count(
                        b@.take(j as int),
                        k,
                    ) by {
                    lemma_occ_push(before, x, k);
                    lemma_occ_push(a@.take(i as int), a@[i as int], k);
                    lemma_same_resolution_key(x, a@[i as int], k);
                }
            }
            i = i + 1;
        } else {
            let x = b[j].clone();
            proof {
                assert forall|m: int| 0 <= m < before.len() implies !key_lt(x, #[trigger] before[m]) by {
                    lemma_key_order(before.last(), before.last(), before.last());
                    if m < before.len() - 1 {
                        assert(!key_lt(before.last(), before[m]));
                    }
                    lemma_not_lt_trans(before[m], before.last(), b@[j as int]);
                    lemma_same_resolution_key(x, b@[j as int], before[m]);
                    lemma_key_order(x, b@[j as int], before[m]);
                }
            }
            out.push(x);
            proof {
                assert(out@ == before.push(x));
                lemma_same_resolution_key(x, b@[j as int], x);
                if j + 1 < b@.len() {
                    assert(!key_lt(b@[j as int + 1], b@[j as int]));
                    lemma_key_order(x, b@[j as int], b@[j as int + 1]);
                }
                if i < a@.len() {
                    lemma_key_order(b@[j as int], a@[i as int], a@[i as int]);
                    lemma_key_order(x, b@[j as int], a@[i as int]);
                }
                assert(b@.take(j as int + 1) =~= b@.take(j as int).push(b@[j as int]));
                assert forall|k: SymbolResolution| #![trigger key_occurrences(out@, k)]
                    key_occurrences(out@, k) == key_occurrences(a@.take(i as int), k) + key_occurrences(
                        b@.take(j as int + 1),
                        k,
                    ) && key_count(out@, k) == key_count(a@.take(i as int), k) + key_count(
                        b@.take(j as int + 1),
                        k,
                    ) by {
                    lemma_occ_push(before, x, k);
                    lemma_occ_push(b@.take(j as int), b@[j as int], k);
                    lemma_same_resolution_key(x, b@[j as int], k);
                }
            }
            j = j + 1;
        }
    }
    assert(i == a@.len() && j == b@.len());
    assert(a@.take(a@.len() as int) =~= a@);
    assert(b@.take(b@.len() as int) =~= b@);
    assert forall|k: SymbolResolution| #![trigger key_occurrences(out@, k)]
        key_occurrences(out@, k) == key_occurrences(a@, k) + key_occurrences(b@, k) && key_count(out@, k)
            == key_count(a@, k) + key_count(b@, k) by {
        assert(key_occurrences(out@, k) == key_occurrences(a@.take(i as int), k) + key_occurrences(
            b@.take(j as int),
            k,
        ));
    }
    assert(counts_union(out@, a@, b@));
    out
}

/// `records` in the canonical order; records of the same identity keep their number and counts.
fn sort_records(records: Vec<SymbolResolution>) -> (r: Vec<SymbolResolution>)
    ensures
        key_sorted(r@),
        counts_union(r@, records@, Seq::empty()),
    decreases records@.len(),
{
    if records.len() <= 1 {
        assert forall|k: SymbolResolution| #![trigger key_occurrences(records@, k)]
            key_occurrences(Seq::<SymbolResolution>::empty(), k) == 0 && key_count(
                Seq::<SymbolResolution>::empty(),
                k,
            ) == 0 by {}
        return records;
    }
    let mid = records.len() / 2;
    let mut left = records;
    let ghost all = left@;
    let right = left.split_off(mid);
    let ghost lv = left@;
    let ghost rv = right@;
    assert(all =~= lv + rv);
    let sorted_left = sort_records(left);
    let sorted_right = sort_records(right);
    let r = merge_sorted(sorted_left, sorted_right);
    proof {
        assert forall|k: SymbolResolution| #![trigger key_occurrences(r@, k)]
            key_occurrences(r@, k) == key_occurrences(all, k) + key_occurrences(Seq::<SymbolResolution>::empty(), k)
                && key_count(r@, k) == key_count(all, k) + key_count(Seq::<SymbolResolution>::empty(), k) by {
            lemma_counts_concat(lv, rv, k);
            assert(key_occurrences(sorted_left@, k) == key_occurrences(lv, k) + key_occurrences(
                Seq::<SymbolResolution>::empty(),
                k,
            ));
            assert(key_occurrences(sorted_right@, k) == key_occurrences(rv, k) + key_occurrences(
                Seq::<SymbolResolution>::empty(),
                k,
            ));
        }
        assert(counts_union(r@, all, Seq::empty()));
    }
    r
}

/// What coalescing `input` yields: one record per identity, in the canonical order, whose
/// occurrence count adds up (saturating) the counts of the records of that identity.
pub open spec fn coalesced(out: Seq<SymbolResolution>, input: Seq<SymbolResolution>) -> bool {
    &&& key_strictly_sorted(out)
    &&& forall|k: SymbolResolution|
        #![trigger key_occurrences(out, k)]
        key_occurrences(out, k) == if key_occurrences(input, k) > 0 {
            1nat
        } else {
            0nat
        }
    &&& forall|m: int|
        0 <= m < out.len() ==> (#[trigger] out[m]).occurrence_count == saturated(key_count(input, out[m]))
}

proof fn lemma_occurrences_sorted_prefix(s: Seq<SymbolResolution>, last: SymbolResolution, x: SymbolResolution)
    requires
        forall|m: int| 0 <= m < s.len() ==> !key_lt(last, #[trigger] s[m]),
        key_lt(last, x),
    ensures
        key_occurrences(s, x) == 0,
        key_count(s, x) == 0,
    decreases s.len(),
{
    if s.len() > 0 {
        lemma_occurrences_sorted_prefix(s.drop_last(), last, x);
        let l = s.last();
        assert(!key_lt(last, s[s.len() - 1]));
        lemma_key_order(l, last, x);
        if same_key(l, x) {
            lemma_key_order(last, x, l);
            lemma_key_order(l, x, last);
        }
    }
}

/// Sorts `records` canonically and merges the records of each identity into one, adding
/// up their occurrence counts.
pub fn coalesce_resolutions(records: &mut Vec<SymbolResolution>)
    ensures
        coalesced(final(records)@, old(records)@),
{
    let mut taken: Vec<SymbolResolution> = Vec::new();
    std::mem::swap(records, &mut taken);
    let ghost input = taken@;
    let sorted = sort_records(taken);
    assert forall|k: SymbolResolution| #![trigger key_occurrences(sorted@, k)]
        key_occurrences(sorted@, k) == key_occurrences(input, k) && key_count(sorted@, k) == key_count(input, k) by {
        assert(key_occurrences(sorted@, k) == key_occurrences(input, k) + key_occurrences(
            Seq::<SymbolResolution>::empty(),
            k,
        ));
    }
    let mut out: Vec<SymbolResolution> = Vec::new();
    let mut i: usize = 0;
    assert(sorted@.take(0) =~= Seq::<SymbolResolution>::empty());
    while i < sorted.len()
        invariant
            key_sorted(sorted@),
            i <= sorted@.len(),
            key_strictly_sorted(out@),
            i == 0 <==> out@.len() == 0,
            i > 0 ==> same_key(out@.last(), sorted@[i - 1]),
            forall|k: SymbolResolution|
                #![trigger key_occurrences(out@, k)]
                key_occurrences(out@, k) == if key_occurrences(sorted@.take(i as int), k) > 0 {
                    1nat
                } else {
                    0nat
                },
            forall|m: int|
                0 <= m < out@.len() ==> (#[trigger] out@[m]).occurrence_count == saturated(
                    key_count(sorted@.take(i as int), out@[m]),
                ),
        decreases sorted@.len() - i,
    {
        let ghost prev = out@;
        let ghost pre = sorted@.take(i as int);
        let ghost cur = sorted@[i as int];
        assert(sorted@.take(i as int + 1) =~= pre.push(cur));
        let merge = out.len() > 0 && same_resolution_key(&out[out.len() - 1], &sorted[i]);
        if merge {
            let last = out.len() - 1;
            let total = out[last].occurrence_count.saturating_add(sorted[i].occurrence_count);
            let mut record = out.pop().unwrap();
            record.occurrence_count = total;
            out.push(record);
            proof {
                let pl = prev.last();
                assert(prev =~= prev.drop_last().push(pl));
                assert(out@ =~= prev.drop_last().push(record));
                assert(same_key(record, pl));
                assert(same_key(pl, cur));
                assert forall|k: SymbolResolution| #![trigger key_occurrences(out@, k)]
                    key_occurrences(out@, k) == if key_occurrences(pre.push(cur), k) > 0 {
                        1nat
                    } else {
                        0nat
                    } by {
                    lemma_occ_push(prev.drop_last(), record, k);
                    lemma_occ_push(prev.drop_last(), pl, k);
                    lemma_occ_push(pre, cur, k);
                    assert(key_occurrences(prev, k) == if key_occurrences(pre, k) > 0 {
                        1nat
                    } else {
                        0nat
                    });
                }
                assert forall|m: int| 0 <= m < out@.len() implies (#[trigger] out@[m]).occurrence_count
                    == saturated(key_count(pre.push(cur), out@[m])) by {
                    lemma_occ_push(pre, cur, out@[m]);
                    if m == out@.len() - 1 {
                        assert(out@[m] == record);
                        lemma_counts_same_key(pre, record, pl);
                        assert(pl.occurrence_count == saturated(key_count(pre, pl)));
                    } else {
                        assert(out@[m] == prev[m]);
                        assert(key_lt(prev[m], pl));
                        lemma_key_order(prev[m], pl, cur);
                        assert(!same_key(cur, prev[m]));
                    }
                }
            }
        } else {
            let record = sorted[i].clone();
            proof {
                lemma_same_resolution_key(record, cur, cur);
                if i > 0 {
                    let pl = prev.last();
                    let sp = sorted@[i - 1];
                    assert(!key_lt(cur, sp));
                    lemma_key_order(sp, cur, pl);
                    lemma_key_order(pl, sp, cur);
                    assert(!same_key(pl, cur));
                    assert(key_lt(pl, cur));
                    assert forall|m: int| 0 <= m < pre.len() implies !key_lt(pl, #[trigger] pre[m]) by {
                        if m < i - 1 {
                            assert(!key_lt(sp, sorted@[m]));
                        }
                        lemma_key_order(sp, sp, sp);
                        lemma_key_order(pl, sp, pre[m]);
                    }
                    lemma_occurrences_sorted_prefix(pre, pl, cur);
                    assert forall|m: int| 0 <= m < prev.len() implies key_lt(#[trigger] prev[m], cur) by {
                        if m < prev.len() - 1 {
                            assert(key_lt(prev[m], pl));
                            lemma_key_order(prev[m], pl, cur);
                        }
                    }
                } else {
                    assert(pre.len() == 0);
                }
            }
            out.push(record);
            proof {
                assert(out@ =~= prev.push(record));
                assert forall|k: SymbolResolution| #![trigger key_occurrences(out@, k)]
                    key_occurrences(out@, k) == if key_occurrences(pre.push(cur), k) > 0 {
                        1nat
                    } else {
                        0nat
                    } by {
                    lemma_occ_push(prev, record, k);
                    lemma_occ_push(pre, cur, k);
                    lemma_same_resolution_key(record, cur, k);
                    if same_key(cur, k) {
                        lemma_counts_same_key(pre, cur, k);
                        lemma_counts_same_key(prev, cur, k);
                        assert(key_occurrences(prev, cur) == if key_occurrences(pre, cur) > 0 {
                            1nat
                        } else {
                            0nat
                        });
                    }
                }
                assert forall|i1: int, j1: int| 0 <= i1 < j1 < out@.len() implies key_lt(
                    #[trigger] out@[i1],
                    #[trigger] out@[j1],
                ) by {
                    if j1 == out@.len() - 1 {
                        assert(out@[i1] == prev[i1]);
                        lemma_key_order(prev[i1], cur, record);
                    } else {
                        assert(out@[i1] == prev[i1] && out@[j1] == prev[j1]);
                    }
                }
                assert forall|m: int| 0 <= m < out@.len() implies (#[trigger] out@[m]).occurrence_count
                    == saturated(key_count(pre.push(cur), out@[m])) by {
                    lemma_occ_push(pre, cur, out@[m]);
                    if m == out@.len() - 1 {
                        lemma_counts_same_key(pre, cur, record);
                    } else {
                        assert(out@[m] == prev[m]);
                        lemma_key_order(prev[m], cur, cur);
                        assert(!same_key(cur, prev[m]));
                    }
                }
            }
        }
        i = i + 1;
    }
    assert(sorted@.take(sorted@.len() as int) =~= sorted@);
    proof {
        assert forall|k: SymbolResolution| #![trigger key_occurrences(out@, k)]
            key_occurrences(out@, k) == if key_occurrences(input, k) > 0 { 1nat } else { 0nat } by {
            assert(key_occurrences(sorted@, k) == key_occurrences(input, k));
        }
        assert forall|m: int| 0 <= m < out@.len() implies (#[trigger] out@[m]).occurrence_count
            == saturated(key_count(input, out@[m])) by {
            assert(key_occurrences(sorted@, out@[m]) == key_occurrences(input, out@[m]));
        }
    }
    *records = out;
}

proof fn lemma_occurrence_at(s: Seq<SymbolResolution>, m: int)
    requires
        0 <= m < s.len(),
    ensures
        key_occurrences(s, s[m]) > 0,
    decreases s.len(),
{
    if m < s.len() - 1 {
        lemma_occurrence_at(s.drop_last(), m);
    } else {
        assert(views(s[m].candidate_node_ids@) =~= views(s.last().candidate_node_ids@));
    }
}

/// Two record lists that agree record by record.
pub open spec fn similar(a: Seq<SymbolResolution>, b: Seq<SymbolResolution>) -> bool {
    a.len() == b.len() && forall|i: int| 0 <= i < a.len() ==> same_resolution(#[trigger] a[i], b[i])
}

proof fn lemma_similar_counts(a: Seq<SymbolResolution>, b: Seq<SymbolResolution>, k: SymbolResolution)
    requires
        similar(a, b),
    ensures
        key_occurrences(a, k) == key_occurrences(b, k),
        key_count(a, k) == key_count(b, k),
    decreases a.len(),
{
    if a.len() > 0 {
        assert(similar(a.drop_last(), b.drop_last()));
        lemma_similar_counts(a.drop_last(), b.drop_last(), k);
        lemma_same_resolution_key(a.last(), b.last(), k);
    }
}

/// Whether every fact was produced under the current fact schema and parser.
pub open spec fn facts_current(facts: Seq<TypeScriptFacts>) -> bool {
    forall|i: int|
        0 <= i < facts.len() ==> (#[trigger] facts[i]).schema_version@ == TYPESCRIPT_FACTS_SCHEMA@
            && facts[i].parser@ == PARSER_IDENTITY@
}

/// The resolution records of all facts, in order.
pub open spec fn all_records(facts: Seq<TypeScriptFacts>) -> Seq<SymbolResolution>
    decreases facts.len(),
{
    if facts.len() == 0 {
        Seq::empty()
    } else {
        all_records(facts.drop_last()) + facts.last().resolution_records@
    }
}

/// The omission reported when resolution records are capped.
pub const RECORDS_CAPPED_OMISSION: &'static str = "resolution records capped at 10000";

/// The omission reported when facts carry no resolution evidence.
pub const LEGACY_FACTS_OMISSION: &'static str = "legacy-facts-without-resolution-evidence";

/// What `resolution_evidence` states of its result.
pub open spec fn evidence_of(r: ResolutionEvidence, facts: Seq<TypeScriptFacts>, legacy: bool) -> bool {
    &&& r.schema_version@ == TYPESCRIPT_RESOLUTION_SCHEMA@
    &&& if legacy || !facts_current(facts) {
        &&& r.status@ == "unavailable"@
        &&& r.records@.len() == 0
        &&& !r.truncated
        &&& views(r.omissions@) == seq![LEGACY_FACTS_OMISSION@]
    } else {
        exists|full: Seq<SymbolResolution>|
            {
                &&& coalesced(full, all_records(facts))
                &&& r.truncated == (full.len() > MAX_RESOLUTION_RECORDS)
                &&& similar(
                    r.records@,
                    if r.truncated {
                        full.take(MAX_RESOLUTION_RECORDS as int)
                    } else {
                        full
                    },
                )
                &&& r.status@ == (if r.truncated {
                    "truncated"@
                } else {
                    "complete"@
                })
                &&& views(r.omissions@) == (if r.truncated {
                    seq![RECORDS_CAPPED_OMISSION@]
                } else {
                    Seq::empty()
                })
            }
    }
}

fn facts_are_current(facts: &[TypeScriptFacts]) -> (r: bool)
    ensures
        r == facts_current(facts@),
{
    let mut i: usize = 0;
    while i < facts.len()
        invariant
            i <= facts@.len(),
            forall|k: int|
                0 <= k < i ==> (#[trigger] facts@[k]).schema_version@ == TYPESCRIPT_FACTS_SCHEMA@
                    && facts@[k].parser@ == PARSER_IDENTITY@,
        decreases facts@.len() - i,
    {
        if !str_eq(facts[i].schema_version.as_str(), TYPESCRIPT_FACTS_SCHEMA) || !str_eq(
            facts[i].parser.as_str(),
            PARSER_IDENTITY,
        ) {
            return false;
        }
        i = i + 1;
    }
    true
}

/// The canonical, bounded resolution records of `facts`; `unavailable` for legacy facts or
/// facts of another schema or parser.
pub fn resolution_evidence(facts: &[TypeScriptFacts], legacy: bool) -> (r: ResolutionEvidence)
    ensures
        evidence_of(r, facts@, legacy),
{
    if legacy || !facts_are_current(facts) {
        let mut omissions: Vec<String> = Vec::new();
        omissions.push(LEGACY_FACTS_OMISSION.to_string());
        assert(views(omissions@) =~= seq![LEGACY_FACTS_OMISSION@]);
        return ResolutionEvidence {
            schema_version: TYPESCRIPT_RESOLUTION_SCHEMA.to_string(),
            status: "unavailable".to_string(),
            records: Vec::new(),
            truncated: false,
            omissions,
        };
    }
    let mut records: Vec<SymbolResolution> = Vec::new();
    let mut f: usize = 0;
    while f < facts.len()
        invariant
            f <= facts@.len(),
            similar(records@, all_records(facts@.take(f as int))),
        decreases facts@.len() - f,
    {
        let ghost before = records@;
        let fact_records = &facts[f].resolution_records;
        let mut k: usize = 0;
        while k < fact_records.len()
            invariant
                k <= fact_records@.len(),
                similar(records@, before + fact_records@.take(k as int)),
            decreases fact_records@.len() - k,
        {
            records.push(fact_records[k].clone());
            assert(before + fact_records@.take(k as int + 1) =~= (before + fact_records@.take(
                k as int,
            )).push(fact_records@[k as int]));
            k = k + 1;
        }
        assert(fact_records@.take(fact_records@.len() as int) =~= fact_records@);
        assert(facts@.take(f as int + 1).drop_last() =~= facts@.take(f as int));
        assert(similar(records@, all_records(facts@.take(f as int)) + fact_records@)) by {
            let a = all_records(facts@.take(f as int));
            assert forall|i: int| 0 <= i < records@.len() implies same_resolution(
                #[trigger] records@[i],
                (a + fact_records@)[i],
            ) by {
                if i < before.len() {
                    assert((before + fact_records@)[i] == before[i]);
                    assert(same_resolution(before[i], a[i]));
                } else {
                    assert((before + fact_records@)[i] == fact_records@[i - before.len()]);
                }
            }
        }
        f = f + 1;
    }
    assert(facts@.take(facts@.len() as int) =~= facts@);
    let ghost gathered = records@;
    coalesce_resolutions(&mut records);
    proof {
        assert forall|k: SymbolResolution| #![trigger key_occurrences(records@, k)]
            key_occurrences(records@, k) == if key_occurrences(all_records(facts@), k) > 0 {
                1nat
            } else {
                0nat
            } by {
            lemma_similar_counts(gathered, all_records(facts@), k);
        }
        assert forall|m: int| 0 <= m < records@.len() implies (#[trigger] records@[m]).occurrence_count
            == saturated(key_count(all_records(facts@), records@[m])) by {
            lemma_similar_counts(gathered, all_records(facts@), records@[m]);
        }
    }
    let ghost full = records@;
    assert(coalesced(full, all_records(facts@)));
    let truncated = records.len() > MAX_RESOLUTION_RECORDS;
    let mut omissions: Vec<String> = Vec::new();
    if truncated {
        records.truncate(MAX_RESOLUTION_RECORDS);
        omissions.push(RECORDS_CAPPED_OMISSION.to_string());
    }
    assert(views(omissions@) =~= (if truncated {
        seq![RECORDS_CAPPED_OMISSION@]
    } else {
        Seq::empty()
    }));
    assert(similar(records@, if truncated { full.take(MAX_RESOLUTION_RECORDS as int) } else { full }));
    ResolutionEvidence {
        schema_version: TYPESCRIPT_RESOLUTION_SCHEMA.to_string(),
        status: if truncated {
            "truncated".to_string()
        } else {
            "complete".to_string()
        },
        records,
        truncated,
        omissions,
    }
}

/// No record of `s` has the identity of `k` when every record sorts before `k`.
proof fn lemma_all_before(s: Seq<SymbolResolution>, k: SymbolResolution)
    requires
        forall|m: int| 0 <= m < s.len() ==> key_lt(#[trigger] s[m], k),
    ensures
        key_occurrences(s, k) == 0,
        key_count(s, k) == 0,
    decreases s.len(),
{
    if s.len() > 0 {
        lemma_all_before(s.drop_last(), k);
        assert(key_lt(s[s.len() - 1], k));
        lemma_key_order(s.last(), k, k);
    }
}

/// In a list in strictly ascending order each record is the only one of its identity.
proof fn lemma_sorted_single(s: Seq<SymbolResolution>, m: int)
    requires
        key_strictly_sorted(s),
        0 <= m < s.len(),
    ensures
        key_occurrences(s, s[m]) == 1,
        key_count(s, s[m]) == s[m].occurrence_count,
    decreases s.len(),
{
    let d = s.drop_last();
    assert(key_strictly_sorted(d));
    if m == s.len() - 1 {
        assert forall|j: int| 0 <= j < d.len() implies key_lt(#[trigger] d[j], s[m]) by {
            assert(d[j] == s[j]);
        }
        lemma_all_before(d, s[m]);
        assert(views(s[m].candidate_node_ids@) =~= views(s.last().candidate_node_ids@));
    } else {
        lemma_sorted_single(d, m);
        assert(d[m] == s[m]);
        assert(key_lt(s[m], s[s.len() - 1]));
        lemma_key_order(s[m], s.last(), s.last());
        if same_key(s.last(), s[m]) {
            lemma_key_order(s.last(), s[m], s.last());
        }
    }
}

/// A record of `s` carries the identity of `k` wherever `s` holds one.
proof fn lemma_occurrence_witness(s: Seq<SymbolResolution>, k: SymbolResolution)
    requires
        key_occurrences(s, k) > 0,
    ensures
        exists|i: int| 0 <= i < s.len() && same_key(#[trigger] s[i], k),
    decreases s.len(),
{
    if !same_key(s.last(), k) {
        lemma_occurrence_witness(s.drop_last(), k);
        let i = choose|i: int| 0 <= i < s.drop_last().len() && same_key(#[trigger] s.drop_last()[i], k);
        assert(s[i] == s.drop_last()[i]);
    } else {
        assert(same_key(s[s.len() - 1], k));
    }
}

/// Two lists in strictly ascending order that hold the same identities agree identity
/// by identity, position by position.
proof fn lemma_sorted_same_keys(a: Seq<SymbolResolution>, b: Seq<SymbolResolution>)
    requires
        key_strictly_sorted(a),
        key_strictly_sorted(b),
        forall|k: SymbolResolution| #![trigger key_occurrences(a, k)] key_occurrences(a, k) == key_occurrences(b, k),
    ensures
        a.len() == b.len(),
        forall|m: int| 0 <= m < a.len() ==> same_key(#[trigger] a[m], b[m]),
    decreases a.len() + b.len(),
{
    if a.len() == 0 && b.len() == 0 {
        return;
    }
    if a.len() == 0 {
        lemma_occurrence_at(b, 0);
        assert(key_occurrences(a, b[0]) == 0);
        return;
    }
    if b.len() == 0 {
        lemma_occurrence_at(a, 0);
        assert(key_occurrences(a, a[0]) == key_occurrences(b, a[0]));
        return;
    }
    let la = a.last();
    let lb = b.last();
    lemma_occurrence_at(a, a.len() - 1);
    lemma_occurrence_at(b, b.len() - 1);
    assert(key_occurrences(a, lb) == key_occurrences(b, lb));
    assert(key_occurrences(a, la) == key_occurrences(b, la));
    lemma_occurrence_witness(a, lb);
    lemma_occurrence_witness(b, la);
    let i = choose|i: int| 0 <= i < a.len() && same_key(#[trigger] a[i], lb);
    let j = choose|j: int| 0 <= j < b.len() && same_key(#[trigger] b[j], la);
    lemma_key_order(la, lb, la);
    if !same_key(la, lb) {
        if key_lt(la, lb) {
            if i < a.len() - 1 {
                assert(key_lt(a[i], a[a.len() - 1]));
            }
            lemma_key_order(a[i], lb, la);
            lemma_key_order(a[i], la, lb);
            lemma_key_order(lb, a[i], la);
        } else {
            if j < b.len() - 1 {
                assert(key_lt(b[j], b[b.len() - 1]));
            }
            lemma_key_order(b[j], la, lb);
            lemma_key_order(b[j], lb, la);
            lemma_key_order(la, b[j], lb);
        }
    }
    assert(same_key(la, lb));
    let da = a.drop_last();
    let db = b.drop_last();
    assert(key_strictly_sorted(da));
    assert(key_strictly_sorted(db));
    assert forall|k: SymbolResolution| #![trigger key_occurrences(da, k)] key_occurrences(da, k) == key_occurrences(db, k) by {
        assert(key_occurrences(a, k) == key_occurrences(b, k));
        lemma_key_order(la, lb, k);
        if same_key(la, k) {
            assert(same_key(lb, k));
        }
        if same_key(lb, k) {
            assert(same_key(la, k));
        }
    }
    lemma_sorted_same_keys(da, db);
    assert forall|m: int| 0 <= m < a.len() implies same_key(#[trigger] a[m], b[m]) by {
        if m < a.len() - 1 {
            assert(da[m] == a[m] && db[m] == b[m]);
        }
    }
}

/// Coalescing is idempotent: coalescing a coalesced list gives it back record by record,
/// each with the same identity and occurrence count, in the same order.
pub proof fn law_coalescing_is_idempotent(
    input: Seq<SymbolResolution>,
    once: Seq<SymbolResolution>,
    twice: Seq<SymbolResolution>,
)
    requires
        coalesced(once, input),
        coalesced(twice, once),
    ensures
        twice.len() == once.len(),
        forall|m: int|
            0 <= m < once.len() ==> same_key(#[trigger] twice[m], once[m]) && twice[m].occurrence_count
                == once[m].occurrence_count,
{
    assert forall|k: SymbolResolution| #![trigger key_occurrences(twice, k)]
        key_occurrences(twice, k) == key_occurrences(once, k) by {
        assert(key_occurrences(once, k) == if key_occurrences(input, k) > 0 { 1nat } else { 0nat });
    }
    lemma_sorted_same_keys(twice, once);
    assert forall|m: int| 0 <= m < once.len() implies same_key(#[trigger] twice[m], once[m])
        && twice[m].occurrence_count == once[m].occurrence_count by {
        lemma_sorted_single(once, m);
        lemma_counts_same_key(once, twice[m], once[m]);
    }
}

} // verus!
